//! The read and update surface the presentation layer consumes.
//!
//! All of these are thin store wrappers with one shared post-processing
//! rule: any image-locator field is normalized to a bare file name before
//! it leaves this layer (storage keeps the full remote locator), and a
//! locator that does not match the remote shape is passed through
//! unchanged rather than failing.

use vstd::prelude::*;

use crate::catalog::{
    broadcasts_of_season, has_series, lemma_series_at_index, open_tasks_of, seeds_of_series,
    seeds_without_series, series_at, series_ids_unique, series_of_subscribe, series_rows_ok,
    series_with_subscribe, tasks_of_series, tasks_without_series, Catalog,
};
use crate::locator::{img_name_or_original, normalized_img_of};
use crate::text::{contains_chars, str_contains_chars};
use crate::models::{
    AnimeBroadcast, AnimeDetail, AnimeList, AnimeListView, AnimeTaskView, EngineError,
};

verus! {

/// A series row as exposed: the image locator normalized, every other
/// field untouched.
pub open spec fn normalized_series_row(a: AnimeListView) -> AnimeListView {
    AnimeListView { img_url: normalized_img_of(a.img_url), ..a }
}

/// A series list as exposed, row for row.
pub open spec fn normalized_all(s: Seq<AnimeListView>) -> Seq<AnimeListView> {
    Seq::new(s.len(), |i: int| normalized_series_row(s[i]))
}

/// No task before position `k` carries the same series key as the task
/// at `k`.
pub open spec fn first_task_with_id(tasks: Seq<AnimeTaskView>, k: int) -> bool {
    forall|j: int| 0 <= j < k ==> tasks[j].mikan_id != tasks[k].mikan_id
}

/// The series that join the home view through their tasks: for each
/// task, in order and counted once per series key, the series row when
/// it exists and is unsubscribed. Subscribed series are already in the
/// view; a task whose series is gone contributes nothing.
pub open spec fn home_extra_series(
    animes: Seq<AnimeListView>,
    tasks: Seq<AnimeTaskView>,
) -> Seq<AnimeListView>
    decreases tasks.len(),
{
    if tasks.len() == 0 {
        Seq::empty()
    } else {
        let pre = home_extra_series(animes, tasks.drop_last());
        let t = tasks.last();
        if first_task_with_id(tasks, tasks.len() - 1) && has_series(animes, t.mikan_id)
            && series_at(animes, t.mikan_id).subscribe_status == 0 {
            pre.push(series_at(animes, t.mikan_id))
        } else {
            pre
        }
    }
}

/// The home view before normalization: the subscribed series in table
/// order, then the unsubscribed ones that have an open task,
/// de-duplicated by series key in task order.
pub open spec fn home_view(animes: Seq<AnimeListView>, tasks: Seq<AnimeTaskView>) -> Seq<
    AnimeListView> {
    series_of_subscribe(animes, 1) + home_extra_series(animes, tasks)
}

/// The series rows of one season's broadcasts, in broadcast order.
pub open spec fn season_series_view(
    animes: Seq<AnimeListView>,
    season_rows: Seq<AnimeBroadcast>,
) -> Seq<AnimeListView> {
    Seq::new(season_rows.len(), |i: int| series_at(animes, season_rows[i].mikan_id))
}

/// The series rows whose display name holds the keyword, in table
/// order.
pub open spec fn series_matching_name(s: Seq<AnimeListView>, kw: Seq<char>) -> Seq<AnimeListView>
    decreases s.len(),
{
    if s.len() == 0 {
        Seq::empty()
    } else if contains_chars(s.last().anime_name, kw) {
        series_matching_name(s.drop_last(), kw).push(s.last())
    } else {
        series_matching_name(s.drop_last(), kw)
    }
}

/// The subscription flag a toggle writes.
pub open spec fn flip_subscribe(st: i32) -> i32 {
    if st == 1 {
        0i32
    } else {
        1i32
    }
}

/// The series table after one subscription toggle of the series keyed
/// `id`.
pub open spec fn toggled_series(s: Seq<AnimeListView>, id: i32) -> Seq<AnimeListView> {
    series_with_subscribe(s, id, flip_subscribe(series_at(s, id).subscribe_status))
}

/// Subscription toggle is a pure involution: toggling a series' flag
/// twice returns the series table to its original value.
pub proof fn lemma_toggle_involution(s: Seq<AnimeListView>, id: i32)
    requires
        series_ids_unique(s),
        series_rows_ok(s),
    ensures
        toggled_series(toggled_series(s, id), id) == s,
{
    let s1 = toggled_series(s, id);
    if has_series(s, id) {
        let c = choose|c: int| 0 <= c < s.len() && s[c].mikan_id == id;
        assert(series_ids_unique(s1));
        lemma_series_at_index(s1, id, c);
        assert(series_at(s1, id).subscribe_status == flip_subscribe(
            series_at(s, id).subscribe_status,
        ));
        lemma_series_at_index(s, id, c);
        assert forall|i: int|
            0 <= i < s.len() implies toggled_series(s1, id)[i] == s[i] by {
            if s[i].mikan_id == id {
                assert(s[i].mikan_id != s[c].mikan_id || i == c);
                assert(toggled_series(s1, id)[i] =~= s[i]);
            }
        }
        assert(toggled_series(s1, id) =~= s);
    } else {
        assert(toggled_series(s1, id) =~= s);
    }
}

/// Normalizes every row's image locator in place.
#[verifier::loop_isolation(false)]
pub fn normalize_series_images(list: &mut Vec<AnimeList>)
    ensures
        final(list).deep_view() == normalized_all(old(list).deep_view()),
{
    let ghost raw = list.deep_view();
    let m = list.len();
    proof {
        assert(list.deep_view() =~= normalized_all(raw).take(0) + raw.skip(0));
    }
    for k in 0..m
        invariant
            list@.len() == m,
            list.deep_view() == normalized_all(raw).take(k as int) + raw.skip(k as int),
    {
        let ghost prevv = list@;
        let ghost prevd = list.deep_view();
        proof {
            assert((normalized_all(raw).take(k as int) + raw.skip(k as int))[k as int] == raw[
                k as int
            ]);
            assert(list.deep_view()[k as int] == raw[k as int]);
        }
        let mut row = list[k].clone();
        let img = img_name_or_original(&row.img_url);
        row.img_url = img;
        proof {
            assert(row@ =~= normalized_series_row(raw[k as int]));
        }
        list[k] = row;
        proof {
            let ki = k as int;
            let goal = normalized_all(raw).take(ki + 1) + raw.skip(ki + 1);
            assert(list@ == prevv.update(ki, row));
            assert forall|i: int| 0 <= i < m implies list.deep_view()[i] == goal[i] by {
                if i == ki {
                    assert(list@[i] == row);
                    assert(goal[i] == normalized_all(raw)[i]);
                } else {
                    assert(list@[i] == prevv[i]);
                    assert(prevd[i] == prevv[i].deep_view());
                    assert(prevd[i] == (normalized_all(raw).take(ki) + raw.skip(ki))[i]);
                    if i < ki {
                        assert((normalized_all(raw).take(ki) + raw.skip(ki))[i] == normalized_all(
                            raw,
                        )[i]);
                        assert(goal[i] == normalized_all(raw)[i]);
                    } else {
                        assert((normalized_all(raw).take(ki) + raw.skip(ki))[i] == raw[i]);
                        assert(goal[i] == raw[i]);
                    }
                }
            }
            assert(list.deep_view() =~= goal);
        }
    }
    proof {
        assert(normalized_all(raw).take(m as int) + raw.skip(m as int) =~= normalized_all(raw));
    }
}

impl Catalog {
    /// One series as exposed: its row with the image locator normalized,
    /// or `NotFound` when the key is absent.
    pub fn get_anime_info(&self, mikan_id: i32) -> (r: Result<AnimeList, EngineError>)
        requires
            self.wf(),
        ensures
            match r {
                Ok(v) => has_series(self.series(), mikan_id) && v@ == normalized_series_row(
                    series_at(self.series(), mikan_id),
                ),
                Err(e) => e == EngineError::NotFound && !has_series(self.series(), mikan_id),
            },
    {
        match self.find_series_index(mikan_id) {
            None => Err(EngineError::NotFound),
            Some(i) => {
                proof {
                    lemma_series_at_index(self.series(), mikan_id, i as int);
                }
                let mut row = self.anime_list[i].clone();
                let img = img_name_or_original(&row.img_url);
                row.img_url = img;
                proof {
                    assert(row@ =~= normalized_series_row(series_at(self.series(), mikan_id)));
                }
                Ok(row)
            },
        }
    }

    /// The home view: subscribed series, then unsubscribed series that
    /// have an open download task (each series once), image locators
    /// normalized.
    #[verifier::loop_isolation(false)]
    pub fn get_anime_home(&self) -> (r: Vec<AnimeList>)
        requires
            self.wf(),
        ensures
            r.deep_view() == normalized_all(
                home_view(self.series(), open_tasks_of(self.tasks())),
            ),
    {
        let mut raw = self.series_by_subscribe_status(1);
        let ghost base = raw.deep_view();
        let open = self.open_tasks();
        let ghost ot = open.deep_view();
        let n = open.len();
        for k in 0..n
            invariant
                n == open@.len(),
                raw.deep_view() == base + home_extra_series(self.series(), ot.take(k as int)),
        {
            proof {
                assert(ot.take(k as int + 1).drop_last() =~= ot.take(k as int));
            }
            let mut dup = false;
            for j in 0..k
                invariant
                    dup <==> exists|j2: int|
                        0 <= j2 < j && (#[trigger] ot[j2]).mikan_id == ot[k as int].mikan_id,
            {
                if open[j].mikan_id == open[k].mikan_id {
                    proof {
                        assert(ot[j as int].mikan_id == ot[k as int].mikan_id);
                    }
                    dup = true;
                }
            }
            proof {
                assert(dup <==> !first_task_with_id(ot, k as int));
                assert(first_task_with_id(ot.take(k as int + 1), k as int) <==> first_task_with_id(
                    ot,
                    k as int,
                )) by {
                    if first_task_with_id(ot, k as int) {
                        assert forall|j: int|
                            0 <= j < k as int implies (#[trigger] ot.take(k as int + 1)[j]).mikan_id
                            != ot.take(k as int + 1)[k as int].mikan_id by {
                            assert(ot[j].mikan_id != ot[k as int].mikan_id);
                        }
                    }
                    if first_task_with_id(ot.take(k as int + 1), k as int) {
                        assert forall|j: int|
                            0 <= j < k as int implies (#[trigger] ot[j]).mikan_id != ot[
                            k as int
                        ].mikan_id by {
                            assert(ot.take(k as int + 1)[j].mikan_id != ot.take(k as int + 1)[
                                k as int
                            ].mikan_id);
                        }
                    }
                }
            }
            if !dup {
                match self.find_series_index(open[k].mikan_id) {
                    Some(i) => {
                        proof {
                            lemma_series_at_index(self.series(), ot[k as int].mikan_id, i as int);
                        }
                        if self.anime_list[i].subscribe_status == 0 {
                            let ghost pre = raw.deep_view();
                            raw.push(self.anime_list[i].clone());
                            proof {
                                assert(raw.deep_view() =~= pre.push(self.series()[i as int]));
                            }
                        }
                    },
                    None => {},
                }
            }
        }
        proof {
            assert(ot.take(n as int) =~= ot);
        }
        normalize_series_images(&mut raw);
        raw
    }

    /// One season's series in broadcast order, image locators normalized;
    /// `NotFound` when some broadcast row of the season has no series row
    /// behind it.
    #[verifier::loop_isolation(false)]
    pub fn get_anime_broadcast(&self, year: i32, season: i32) -> (r: Result<
        Vec<AnimeList>,
        EngineError,
    >)
        requires
            self.wf(),
        ensures
            match r {
                Ok(v) => {
                    &&& forall|k: int|
                        0 <= k < self.broadcasts().len() && (#[trigger] self.broadcasts()[k]).year
                            == year && self.broadcasts()[k].season == season ==> has_series(
                            self.series(),
                            self.broadcasts()[k].mikan_id,
                        )
                    &&& v.deep_view() == normalized_all(
                        season_series_view(
                            self.series(),
                            broadcasts_of_season(self.broadcasts(), year, season),
                        ),
                    )
                },
                Err(e) => {
                    &&& e == EngineError::NotFound
                    &&& exists|k: int|
                        0 <= k < self.broadcasts().len() && (#[trigger] self.broadcasts()[k]).year
                            == year && self.broadcasts()[k].season == season && !has_series(
                            self.series(),
                            self.broadcasts()[k].mikan_id,
                        )
                },
            },
    {
        let mut raw: Vec<AnimeList> = Vec::new();
        let n = self.anime_broadcast.len();
        for k in 0..n
            invariant
                raw.deep_view() == season_series_view(
                    self.series(),
                    broadcasts_of_season(self.broadcasts().take(k as int), year, season),
                ),
                forall|j: int|
                    0 <= j < k && (#[trigger] self.broadcasts()[j]).year == year
                        && self.broadcasts()[j].season == season ==> has_series(
                        self.series(),
                        self.broadcasts()[j].mikan_id,
                    ),
        {
            proof {
                assert(self.broadcasts().take(k as int + 1).drop_last() =~= self.broadcasts().take(
                    k as int,
                ));
            }
            let b = self.anime_broadcast[k];
            if b.year == year && b.season == season {
                match self.find_series_index(b.mikan_id) {
                    None => {
                        proof {
                            assert(self.broadcasts()[k as int].year == year);
                        }
                        return Err(EngineError::NotFound);
                    },
                    Some(i) => {
                        proof {
                            lemma_series_at_index(self.series(), b.mikan_id, i as int);
                        }
                        let ghost pre = raw.deep_view();
                        raw.push(self.anime_list[i].clone());
                        proof {
                            assert(raw.deep_view() =~= pre.push(self.series()[i as int]));
                            assert(raw.deep_view() =~= season_series_view(
                                self.series(),
                                broadcasts_of_season(
                                    self.broadcasts().take(k as int + 1),
                                    year,
                                    season,
                                ),
                            ));
                        }
                    },
                }
            }
        }
        proof {
            assert(self.broadcasts().take(n as int) =~= self.broadcasts());
        }
        normalize_series_images(&mut raw);
        Ok(raw)
    }

    /// Everything the detail page shows for one series, the image
    /// locator normalized; `NotFound` when the key is absent.
    pub fn get_anime_detail(&self, mikan_id: i32) -> (r: Result<AnimeDetail, EngineError>)
        requires
            self.wf(),
        ensures
            match r {
                Ok(d) => {
                    &&& has_series(self.series(), mikan_id)
                    &&& d.anime_info@ == normalized_series_row(series_at(self.series(), mikan_id))
                    &&& d.seed_info.deep_view() == seeds_of_series(self.seeds(), mikan_id)
                    &&& d.subgroup_info.deep_view() == self.subgroups()
                    &&& d.task_info.deep_view() == tasks_of_series(self.tasks(), mikan_id)
                },
                Err(e) => e == EngineError::NotFound && !has_series(self.series(), mikan_id),
            },
    {
        match self.get_anime_info(mikan_id) {
            Err(e) => Err(e),
            Ok(anime) => Ok(
                AnimeDetail {
                    anime_info: anime,
                    seed_info: self.seeds_by_series(mikan_id),
                    subgroup_info: self.all_subgroups(),
                    task_info: self.tasks_by_series(mikan_id),
                },
            ),
        }
    }

    /// Flips the subscription flag of one series between subscribed and
    /// unsubscribed; `NotFound` when the key is absent.
    pub fn toggle_subscribe_status(&mut self, mikan_id: i32) -> (r: Result<(), EngineError>)
        requires
            old(self).wf(),
        ensures
            final(self).wf(),
            match r {
                Ok(_) => has_series(old(self).series(), mikan_id) && final(self).series()
                    == toggled_series(old(self).series(), mikan_id),
                Err(e) => e == EngineError::NotFound && !has_series(old(self).series(), mikan_id)
                    && final(self).series() == old(self).series(),
            },
            final(self).broadcasts() == old(self).broadcasts(),
            final(self).subgroups() == old(self).subgroups(),
            final(self).seeds() == old(self).seeds(),
            final(self).tasks() == old(self).tasks(),
    {
        match self.find_series_index(mikan_id) {
            None => Err(EngineError::NotFound),
            Some(i) => {
                proof {
                    lemma_series_at_index(self.series(), mikan_id, i as int);
                }
                let st = self.anime_list[i].subscribe_status;
                let st_new: i32 = if st == 1 {
                    0
                } else {
                    1
                };
                self.update_subscribe_status(mikan_id, st_new);
                Ok(())
            },
        }
    }

    /// The series whose display name holds the keyword, cloned in table
    /// order; a plain character-for-character match.
    #[verifier::loop_isolation(false)]
    pub fn search_by_anime_name(&self, keyword: &String) -> (r: Vec<AnimeList>)
        ensures
            r.deep_view() == series_matching_name(self.series(), keyword@),
    {
        let mut r: Vec<AnimeList> = Vec::new();
        let n = self.anime_list.len();
        for k in 0..n
            invariant
                r.deep_view() == series_matching_name(self.series().take(k as int), keyword@),
        {
            proof {
                assert(self.series().take(k as int + 1).drop_last() =~= self.series().take(
                    k as int,
                ));
            }
            if str_contains_chars(self.anime_list[k].anime_name.as_str(), keyword.as_str()) {
                let ghost pre = r.deep_view();
                r.push(self.anime_list[k].clone());
                proof {
                    assert(r.deep_view() =~= pre.push(self.series()[k as int]));
                }
            }
        }
        proof {
            assert(self.series().take(n as int) =~= self.series());
        }
        r
    }

    /// Purges one series' download history: every seed row and every
    /// task row of the series is removed together.
    pub fn purge_series_downloads(&mut self, mikan_id: i32)
        requires
            old(self).wf(),
        ensures
            final(self).wf(),
            final(self).seeds() == seeds_without_series(old(self).seeds(), mikan_id),
            final(self).tasks() == tasks_without_series(old(self).tasks(), mikan_id),
            final(self).series() == old(self).series(),
            final(self).broadcasts() == old(self).broadcasts(),
            final(self).subgroups() == old(self).subgroups(),
    {
        self.delete_seeds_by_series(mikan_id);
        self.delete_tasks_by_series(mikan_id);
    }
}

} // verus!
