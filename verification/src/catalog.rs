//! The in-memory catalog of persisted rows and the typed operations the
//! engine performs on it.
//!
//! Natural keys rule every table: a series is unique by `mikan_id`, a
//! broadcast by (`mikan_id`, `year`, `season`), a subgroup by
//! `subgroup_id`, a seed by `seed_url` and a task by `torrent_name`. The
//! well-formedness predicate [`Catalog::wf`] carries those uniqueness
//! facts together with the closed ranges of the status codes; every
//! constructor establishes it and every operation preserves it.

use vstd::prelude::*;

use crate::models::{
    AnimeBroadcast, AnimeList, AnimeListJson, AnimeListJsonView, AnimeListView, AnimeSeed,
    AnimeSeedJson, AnimeSeedJsonView, AnimeSeedView, AnimeSubgroup, AnimeSubgroupJson,
    AnimeSubgroupJsonView, AnimeSubgroupView, AnimeTask, AnimeTaskView, BangumiInfoJson,
    BangumiInfoJsonView,
};

verus! {

/// Some row of `s` carries the series key `id`.
pub open spec fn has_series(s: Seq<AnimeListView>, id: i32) -> bool {
    exists|i: int| 0 <= i < s.len() && s[i].mikan_id == id
}

/// The row of `s` carrying the series key `id` (unique under
/// [`series_ids_unique`]).
pub open spec fn series_at(s: Seq<AnimeListView>, id: i32) -> AnimeListView {
    s[choose|i: int| 0 <= i < s.len() && s[i].mikan_id == id]
}

/// No two rows of `s` share a series key.
pub open spec fn series_ids_unique(s: Seq<AnimeListView>) -> bool {
    forall|i: int, j: int| 0 <= i < j < s.len() ==> s[i].mikan_id != s[j].mikan_id
}

/// The status codes of one series row lie in their closed ranges.
pub open spec fn series_row_ok(a: AnimeListView) -> bool {
    &&& a.subscribe_status == 0 || a.subscribe_status == 1
    &&& a.anime_status == -1 || a.anime_status == 0 || a.anime_status == 1
}

/// Every series row passes [`series_row_ok`].
pub open spec fn series_rows_ok(s: Seq<AnimeListView>) -> bool {
    forall|i: int| 0 <= i < s.len() ==> series_row_ok(#[trigger] s[i])
}

/// Some row of `b` carries the composite broadcast key.
pub open spec fn has_broadcast(b: Seq<AnimeBroadcast>, id: i32, year: i32, season: i32) -> bool {
    exists|i: int|
        0 <= i < b.len() && b[i].mikan_id == id && b[i].year == year && b[i].season == season
}

/// No two rows of `b` share the composite broadcast key.
pub open spec fn broadcasts_unique(b: Seq<AnimeBroadcast>) -> bool {
    forall|i: int, j: int|
        0 <= i < j < b.len() ==> !(b[i].mikan_id == b[j].mikan_id && b[i].year == b[j].year
            && b[i].season == b[j].season)
}

/// Some row of `g` carries the subgroup key `id`.
pub open spec fn has_subgroup(g: Seq<AnimeSubgroupView>, id: i32) -> bool {
    exists|i: int| 0 <= i < g.len() && g[i].subgroup_id == id
}

/// No two rows of `g` share a subgroup key.
pub open spec fn subgroups_unique(g: Seq<AnimeSubgroupView>) -> bool {
    forall|i: int, j: int| 0 <= i < j < g.len() ==> g[i].subgroup_id != g[j].subgroup_id
}

/// Some row of `s` carries the seed key `url`.
pub open spec fn has_seed(s: Seq<AnimeSeedView>, url: Seq<char>) -> bool {
    exists|i: int| 0 <= i < s.len() && s[i].seed_url == url
}

/// No two rows of `s` share a seed key.
pub open spec fn seed_urls_unique(s: Seq<AnimeSeedView>) -> bool {
    forall|i: int, j: int| 0 <= i < j < s.len() ==> s[i].seed_url != s[j].seed_url
}

/// The status code of one seed row lies in its closed range.
pub open spec fn seed_row_ok(a: AnimeSeedView) -> bool {
    a.seed_status == 0 || a.seed_status == 1
}

/// Every seed row passes [`seed_row_ok`].
pub open spec fn seed_rows_ok(s: Seq<AnimeSeedView>) -> bool {
    forall|i: int| 0 <= i < s.len() ==> seed_row_ok(#[trigger] s[i])
}

/// Some row of `t` carries the task key `name`.
pub open spec fn has_task(t: Seq<AnimeTaskView>, name: Seq<char>) -> bool {
    exists|i: int| 0 <= i < t.len() && t[i].torrent_name == name
}

/// No two rows of `t` share a task key.
pub open spec fn task_names_unique(t: Seq<AnimeTaskView>) -> bool {
    forall|i: int, j: int| 0 <= i < j < t.len() ==> t[i].torrent_name != t[j].torrent_name
}

/// The status code of one task row lies in its closed range.
pub open spec fn task_row_ok(a: AnimeTaskView) -> bool {
    a.qb_task_status == 0 || a.qb_task_status == 1
}

/// Every task row passes [`task_row_ok`].
pub open spec fn task_rows_ok(t: Seq<AnimeTaskView>) -> bool {
    forall|i: int| 0 <= i < t.len() ==> task_row_ok(#[trigger] t[i])
}

/// The series row a scraped item is inserted as when its key is new: name
/// and artwork from the item, the user-owned fields at their defaults
/// (unsubscribed, lifecycle unknown, episode counters at the sentinel,
/// rating fields empty).
pub open spec fn default_series_of(it: AnimeListJsonView) -> AnimeListView {
    AnimeListView {
        mikan_id: it.mikan_id,
        anime_name: it.anime_name,
        img_url: it.img_url,
        update_day: it.update_day,
        anime_type: it.anime_type,
        subscribe_status: 0,
        anime_status: -1i32,
        total_episodes: -1i32,
        new_finished_episode: 0,
        bangumi_id: -1i32,
        bangumi_rank: Seq::<char>::empty(),
        bangumi_summary: Seq::<char>::empty(),
        website: Seq::<char>::empty(),
    }
}

/// One insert-if-absent step of a scraped series item.
pub open spec fn series_step(s: Seq<AnimeListView>, it: AnimeListJsonView) -> Seq<AnimeListView> {
    if has_series(s, it.mikan_id) {
        s
    } else {
        s.push(default_series_of(it))
    }
}

/// One insert-if-absent step of a broadcast row.
pub open spec fn broadcast_step(b: Seq<AnimeBroadcast>, id: i32, year: i32, season: i32) -> Seq<
    AnimeBroadcast> {
    if has_broadcast(b, id, year, season) {
        b
    } else {
        b.push(AnimeBroadcast { mikan_id: id, year, season })
    }
}

/// The subgroup row an ingest item is inserted as.
pub open spec fn subgroup_of(it: AnimeSubgroupJsonView) -> AnimeSubgroupView {
    AnimeSubgroupView { subgroup_id: it.subgroup_id, subgroup_name: it.subgroup_name }
}

/// One insert-if-absent step of a subgroup item.
pub open spec fn subgroup_step(g: Seq<AnimeSubgroupView>, it: AnimeSubgroupJsonView) -> Seq<
    AnimeSubgroupView> {
    if has_subgroup(g, it.subgroup_id) {
        g
    } else {
        g.push(subgroup_of(it))
    }
}

/// The seed row an ingest item is inserted as: the item's fields, the
/// status forced to pending.
pub open spec fn pending_seed_of(it: AnimeSeedJsonView) -> AnimeSeedView {
    AnimeSeedView {
        mikan_id: it.mikan_id,
        subgroup_id: it.subgroup_id,
        episode: it.episode,
        seed_name: it.seed_name,
        seed_url: it.seed_url,
        seed_status: 0,
        seed_size: it.seed_size,
    }
}

/// One insert-if-absent step of a seed item: an existing row with the same
/// `seed_url` is left untouched.
pub open spec fn seed_step(s: Seq<AnimeSeedView>, it: AnimeSeedJsonView) -> Seq<AnimeSeedView> {
    if has_seed(s, it.seed_url) {
        s
    } else {
        s.push(pending_seed_of(it))
    }
}

/// The task row a submission is recorded as: open, keyed by the locator.
pub open spec fn task_row(id: i32, episode: i32, name: Seq<char>) -> AnimeTaskView {
    AnimeTaskView { mikan_id: id, episode, torrent_name: name, qb_task_status: 0 }
}

/// One insert-if-absent step of a task row: an existing row with the same
/// locator is left untouched.
pub open spec fn task_step(t: Seq<AnimeTaskView>, id: i32, episode: i32, name: Seq<char>) -> Seq<
    AnimeTaskView> {
    if has_task(t, name) {
        t
    } else {
        t.push(task_row(id, episode, name))
    }
}

/// Every seed row keyed `url` set to status `st`, the rest untouched.
pub open spec fn seeds_with_status(s: Seq<AnimeSeedView>, url: Seq<char>, st: i32) -> Seq<
    AnimeSeedView> {
    Seq::new(
        s.len(),
        |i: int|
            if s[i].seed_url == url {
                AnimeSeedView { seed_status: st, ..s[i] }
            } else {
                s[i]
            },
    )
}

/// The seed rows of one series, in table order.
pub open spec fn seeds_of_series(s: Seq<AnimeSeedView>, id: i32) -> Seq<AnimeSeedView>
    decreases s.len(),
{
    if s.len() == 0 {
        Seq::empty()
    } else if s.last().mikan_id == id {
        seeds_of_series(s.drop_last(), id).push(s.last())
    } else {
        seeds_of_series(s.drop_last(), id)
    }
}

/// The seed table with one series' rows removed, in table order.
pub open spec fn seeds_without_series(s: Seq<AnimeSeedView>, id: i32) -> Seq<AnimeSeedView>
    decreases s.len(),
{
    if s.len() == 0 {
        Seq::empty()
    } else if s.last().mikan_id == id {
        seeds_without_series(s.drop_last(), id)
    } else {
        seeds_without_series(s.drop_last(), id).push(s.last())
    }
}

/// The task rows of one series, in table order.
pub open spec fn tasks_of_series(t: Seq<AnimeTaskView>, id: i32) -> Seq<AnimeTaskView>
    decreases t.len(),
{
    if t.len() == 0 {
        Seq::empty()
    } else if t.last().mikan_id == id {
        tasks_of_series(t.drop_last(), id).push(t.last())
    } else {
        tasks_of_series(t.drop_last(), id)
    }
}

/// The task table with one series' rows removed, in table order.
pub open spec fn tasks_without_series(t: Seq<AnimeTaskView>, id: i32) -> Seq<AnimeTaskView>
    decreases t.len(),
{
    if t.len() == 0 {
        Seq::empty()
    } else if t.last().mikan_id == id {
        tasks_without_series(t.drop_last(), id)
    } else {
        tasks_without_series(t.drop_last(), id).push(t.last())
    }
}

/// The open task rows (status `0`), in table order: insertion order is the
/// progress view's order.
pub open spec fn open_tasks_of(t: Seq<AnimeTaskView>) -> Seq<AnimeTaskView>
    decreases t.len(),
{
    if t.len() == 0 {
        Seq::empty()
    } else if t.last().qb_task_status == 0 {
        open_tasks_of(t.drop_last()).push(t.last())
    } else {
        open_tasks_of(t.drop_last())
    }
}

/// The series rows carrying the given subscription flag, in table order.
pub open spec fn series_of_subscribe(s: Seq<AnimeListView>, st: i32) -> Seq<AnimeListView>
    decreases s.len(),
{
    if s.len() == 0 {
        Seq::empty()
    } else if s.last().subscribe_status == st {
        series_of_subscribe(s.drop_last(), st).push(s.last())
    } else {
        series_of_subscribe(s.drop_last(), st)
    }
}

/// The broadcast rows of one season, in table order.
pub open spec fn broadcasts_of_season(b: Seq<AnimeBroadcast>, year: i32, season: i32) -> Seq<
    AnimeBroadcast>
    decreases b.len(),
{
    if b.len() == 0 {
        Seq::empty()
    } else if b.last().year == year && b.last().season == season {
        broadcasts_of_season(b.drop_last(), year, season).push(b.last())
    } else {
        broadcasts_of_season(b.drop_last(), year, season)
    }
}

/// The series row keyed `id` with its subscription flag set to `st`, the
/// rest untouched.
pub open spec fn series_with_subscribe(s: Seq<AnimeListView>, id: i32, st: i32) -> Seq<
    AnimeListView> {
    Seq::new(
        s.len(),
        |i: int|
            if s[i].mikan_id == id {
                AnimeListView { subscribe_status: st, ..s[i] }
            } else {
                s[i]
            },
    )
}

/// The series row keyed `id` with its lifecycle status set to `st`, the
/// rest untouched.
pub open spec fn series_with_anime_status(s: Seq<AnimeListView>, id: i32, st: i32) -> Seq<
    AnimeListView> {
    Seq::new(
        s.len(),
        |i: int|
            if s[i].mikan_id == id {
                AnimeListView { anime_status: st, ..s[i] }
            } else {
                s[i]
            },
    )
}

/// The series row keyed `id` with its rating metadata replaced, the rest
/// untouched.
pub open spec fn series_with_bangumi(
    s: Seq<AnimeListView>,
    id: i32,
    it: BangumiInfoJsonView,
) -> Seq<AnimeListView> {
    Seq::new(
        s.len(),
        |i: int|
            if s[i].mikan_id == id {
                AnimeListView {
                    bangumi_id: it.bangumi_id,
                    bangumi_rank: it.bangumi_rank,
                    bangumi_summary: it.bangumi_summary,
                    website: it.website,
                    total_episodes: it.total_episodes,
                    ..s[i]
                }
            } else {
                s[i]
            },
    )
}

/// The series row keyed `id` with its finished-episode counter set to
/// `nb`, the rest untouched.
pub open spec fn series_with_new_finished(s: Seq<AnimeListView>, id: i32, nb: i32) -> Seq<
    AnimeListView> {
    Seq::new(
        s.len(),
        |i: int|
            if s[i].mikan_id == id {
                AnimeListView { new_finished_episode: nb, ..s[i] }
            } else {
                s[i]
            },
    )
}

/// Removing one series' seed rows keeps the keys unique and the rows
/// well-formed, and invents no key.
pub proof fn lemma_seeds_without_series_wf(s: Seq<AnimeSeedView>, id: i32)
    requires
        seed_urls_unique(s),
        seed_rows_ok(s),
    ensures
        seed_urls_unique(seeds_without_series(s, id)),
        seed_rows_ok(seeds_without_series(s, id)),
        forall|url: Seq<char>|
            #[trigger] has_seed(seeds_without_series(s, id), url) ==> has_seed(s, url),
    decreases s.len(),
{
    if s.len() > 0 {
        let s0 = s.drop_last();
        let x = s.last();
        lemma_seeds_without_series_wf(s0, id);
        let r = seeds_without_series(s, id);
        let r0 = seeds_without_series(s0, id);
        assert forall|url: Seq<char>| #[trigger] has_seed(r, url) implies has_seed(s, url) by {
            let i = choose|i: int| 0 <= i < r.len() && r[i].seed_url == url;
            if x.mikan_id == id {
                assert(has_seed(r0, url));
                let j = choose|j: int| 0 <= j < s0.len() && s0[j].seed_url == url;
                assert(s[j].seed_url == url);
            } else {
                if i < r0.len() {
                    assert(has_seed(r0, url));
                    let j = choose|j: int| 0 <= j < s0.len() && s0[j].seed_url == url;
                    assert(s[j].seed_url == url);
                } else {
                    assert(s[s.len() - 1].seed_url == url);
                }
            }
        }
        if x.mikan_id != id {
            if has_seed(r0, x.seed_url) {
                let j = choose|j: int| 0 <= j < s0.len() && s0[j].seed_url == x.seed_url;
                assert(s[j].seed_url != s[s.len() - 1].seed_url);
                assert(false);
            }
        }
    }
}

/// Removing one series' task rows keeps the keys unique and the rows
/// well-formed, and invents no key.
pub proof fn lemma_tasks_without_series_wf(t: Seq<AnimeTaskView>, id: i32)
    requires
        task_names_unique(t),
        task_rows_ok(t),
    ensures
        task_names_unique(tasks_without_series(t, id)),
        task_rows_ok(tasks_without_series(t, id)),
        forall|name: Seq<char>|
            #[trigger] has_task(tasks_without_series(t, id), name) ==> has_task(t, name),
    decreases t.len(),
{
    if t.len() > 0 {
        let t0 = t.drop_last();
        let x = t.last();
        lemma_tasks_without_series_wf(t0, id);
        let r = tasks_without_series(t, id);
        let r0 = tasks_without_series(t0, id);
        assert forall|name: Seq<char>| #[trigger] has_task(r, name) implies has_task(t, name) by {
            let i = choose|i: int| 0 <= i < r.len() && r[i].torrent_name == name;
            if x.mikan_id == id {
                assert(has_task(r0, name));
                let j = choose|j: int| 0 <= j < t0.len() && t0[j].torrent_name == name;
                assert(t[j].torrent_name == name);
            } else {
                if i < r0.len() {
                    assert(has_task(r0, name));
                    let j = choose|j: int| 0 <= j < t0.len() && t0[j].torrent_name == name;
                    assert(t[j].torrent_name == name);
                } else {
                    assert(t[t.len() - 1].torrent_name == name);
                }
            }
        }
        if x.mikan_id != id {
            if has_task(r0, x.torrent_name) {
                let j = choose|j: int| 0 <= j < t0.len() && t0[j].torrent_name == x.torrent_name;
                assert(t[j].torrent_name != t[t.len() - 1].torrent_name);
                assert(false);
            }
        }
    }
}

/// The series rows carrying both given status codes, in table order.
pub open spec fn series_of_subscribe_and_status(
    s: Seq<AnimeListView>,
    sub: i32,
    st: i32,
) -> Seq<AnimeListView>
    decreases s.len(),
{
    if s.len() == 0 {
        Seq::empty()
    } else if s.last().subscribe_status == sub && s.last().anime_status == st {
        series_of_subscribe_and_status(s.drop_last(), sub, st).push(s.last())
    } else {
        series_of_subscribe_and_status(s.drop_last(), sub, st)
    }
}

/// The series table with the row keyed `id` removed, in table order.
pub open spec fn series_without(s: Seq<AnimeListView>, id: i32) -> Seq<AnimeListView>
    decreases s.len(),
{
    if s.len() == 0 {
        Seq::empty()
    } else if s.last().mikan_id == id {
        series_without(s.drop_last(), id)
    } else {
        series_without(s.drop_last(), id).push(s.last())
    }
}

/// Removing one series row keeps the keys unique and the rows
/// well-formed, and invents no key.
pub proof fn lemma_series_without_wf(s: Seq<AnimeListView>, id: i32)
    requires
        series_ids_unique(s),
        series_rows_ok(s),
    ensures
        series_ids_unique(series_without(s, id)),
        series_rows_ok(series_without(s, id)),
        forall|x: i32| #[trigger] has_series(series_without(s, id), x) ==> has_series(s, x),
        !has_series(series_without(s, id), id),
    decreases s.len(),
{
    if s.len() > 0 {
        let s0 = s.drop_last();
        let x = s.last();
        lemma_series_without_wf(s0, id);
        let r = series_without(s, id);
        let r0 = series_without(s0, id);
        assert forall|y: i32| #[trigger] has_series(r, y) implies has_series(s, y) by {
            let i = choose|i: int| 0 <= i < r.len() && r[i].mikan_id == y;
            if x.mikan_id == id {
                assert(has_series(r0, y));
                let j = choose|j: int| 0 <= j < s0.len() && s0[j].mikan_id == y;
                assert(s[j].mikan_id == y);
            } else {
                if i < r0.len() {
                    assert(has_series(r0, y));
                    let j = choose|j: int| 0 <= j < s0.len() && s0[j].mikan_id == y;
                    assert(s[j].mikan_id == y);
                } else {
                    assert(s[s.len() - 1].mikan_id == y);
                }
            }
        }
        if x.mikan_id != id {
            if has_series(r0, x.mikan_id) {
                let j = choose|j: int| 0 <= j < s0.len() && s0[j].mikan_id == x.mikan_id;
                assert(s[j].mikan_id != s[s.len() - 1].mikan_id);
                assert(false);
            }
        }
        if has_series(r, id) {
            let i = choose|i: int| 0 <= i < r.len() && r[i].mikan_id == id;
            if x.mikan_id == id {
                assert(has_series(r0, id));
            } else if i < r0.len() {
                assert(has_series(r0, id));
            } else {
                assert(r[i] == x);
            }
            assert(false);
        }
    }
}

/// With unique series keys, the row found at an index keyed `id` is the
/// row [`series_at`] denotes.
pub proof fn lemma_series_at_index(s: Seq<AnimeListView>, id: i32, i: int)
    requires
        series_ids_unique(s),
        0 <= i < s.len(),
        s[i].mikan_id == id,
    ensures
        has_series(s, id),
        series_at(s, id) == s[i],
{
    assert(has_series(s, id));
    let j = choose|j: int| 0 <= j < s.len() && s[j].mikan_id == id;
    if i < j {
        assert(s[i].mikan_id != s[j].mikan_id);
    } else if j < i {
        assert(s[j].mikan_id != s[i].mikan_id);
    }
}

/// The in-memory store: one `Vec` per table.
pub struct Catalog {
    pub anime_list: Vec<AnimeList>,
    pub anime_broadcast: Vec<AnimeBroadcast>,
    pub anime_subgroup: Vec<AnimeSubgroup>,
    pub anime_seed: Vec<AnimeSeed>,
    pub anime_task: Vec<AnimeTask>,
}

impl Catalog {
    /// The series table as a sequence of mathematical rows.
    pub open spec fn series(self) -> Seq<AnimeListView> {
        self.anime_list.deep_view()
    }

    /// The broadcast table.
    pub open spec fn broadcasts(self) -> Seq<AnimeBroadcast> {
        self.anime_broadcast@
    }

    /// The subgroup table as a sequence of mathematical rows.
    pub open spec fn subgroups(self) -> Seq<AnimeSubgroupView> {
        self.anime_subgroup.deep_view()
    }

    /// The seed table as a sequence of mathematical rows.
    pub open spec fn seeds(self) -> Seq<AnimeSeedView> {
        self.anime_seed.deep_view()
    }

    /// The task table as a sequence of mathematical rows.
    pub open spec fn tasks(self) -> Seq<AnimeTaskView> {
        self.anime_task.deep_view()
    }

    /// Well-formedness: natural keys are unique and status codes lie in
    /// their closed ranges.
    pub open spec fn wf(self) -> bool {
        &&& series_ids_unique(self.series())
        &&& series_rows_ok(self.series())
        &&& broadcasts_unique(self.broadcasts())
        &&& subgroups_unique(self.subgroups())
        &&& seed_urls_unique(self.seeds())
        &&& seed_rows_ok(self.seeds())
        &&& task_names_unique(self.tasks())
        &&& task_rows_ok(self.tasks())
    }

    /// An empty catalog.
    pub fn new() -> (c: Catalog)
        ensures
            c.wf(),
            c.series().len() == 0,
            c.broadcasts().len() == 0,
            c.subgroups().len() == 0,
            c.seeds().len() == 0,
            c.tasks().len() == 0,
    {
        Catalog {
            anime_list: Vec::new(),
            anime_broadcast: Vec::new(),
            anime_subgroup: Vec::new(),
            anime_seed: Vec::new(),
            anime_task: Vec::new(),
        }
    }

    /// Index of the series row keyed `mikan_id`, if any.
    pub fn find_series_index(&self, mikan_id: i32) -> (r: Option<usize>)
        ensures
            match r {
                Some(i) => i < self.series().len() && self.series()[i as int].mikan_id == mikan_id,
                None => !has_series(self.series(), mikan_id),
            },
    {
        let n = self.anime_list.len();
        for k in 0..n
            invariant
                n == self.anime_list@.len(),
                forall|i: int| 0 <= i < k ==> self.series()[i].mikan_id != mikan_id,
        {
            if self.anime_list[k].mikan_id == mikan_id {
                return Some(k);
            }
        }
        None
    }

    /// Inserts the scraped series item with defaults when its key is new;
    /// an existing row is left untouched so user edits survive a re-scrape.
    pub fn upsert_series_defaults(&mut self, item: &AnimeListJson) -> (inserted: bool)
        requires
            old(self).wf(),
        ensures
            final(self).wf(),
            final(self).series() == series_step(old(self).series(), item@),
            inserted == !has_series(old(self).series(), item@.mikan_id),
            final(self).broadcasts() == old(self).broadcasts(),
            final(self).subgroups() == old(self).subgroups(),
            final(self).seeds() == old(self).seeds(),
            final(self).tasks() == old(self).tasks(),
    {
        match self.find_series_index(item.mikan_id) {
            Some(_) => false,
            None => {
                let row = AnimeList {
                    mikan_id: item.mikan_id,
                    anime_name: item.anime_name.clone(),
                    img_url: item.img_url.clone(),
                    update_day: item.update_day,
                    anime_type: item.anime_type,
                    subscribe_status: 0,
                    anime_status: -1,
                    total_episodes: -1,
                    new_finished_episode: 0,
                    bangumi_id: -1,
                    bangumi_rank: String::new(),
                    bangumi_summary: String::new(),
                    website: String::new(),
                };
                proof {
                    assert(row@ =~= default_series_of(item@));
                }
                let ghost pre = self.series();
                self.anime_list.push(row);
                proof {
                    assert(self.series() =~= pre.push(default_series_of(item@)));
                }
                true
            },
        }
    }

    /// Inserts the broadcast row when its composite key is new; idempotent
    /// otherwise.
    #[verifier::loop_isolation(false)]
    pub fn upsert_broadcast(&mut self, mikan_id: i32, year: i32, season: i32) -> (inserted: bool)
        requires
            old(self).wf(),
        ensures
            final(self).wf(),
            final(self).broadcasts() == broadcast_step(old(self).broadcasts(), mikan_id, year,
                season),
            inserted == !has_broadcast(old(self).broadcasts(), mikan_id, year, season),
            final(self).series() == old(self).series(),
            final(self).subgroups() == old(self).subgroups(),
            final(self).seeds() == old(self).seeds(),
            final(self).tasks() == old(self).tasks(),
    {
        let n = self.anime_broadcast.len();
        for k in 0..n
            invariant
                n == self.broadcasts().len(),
                forall|i: int|
                    0 <= i < k ==> !(self.broadcasts()[i].mikan_id == mikan_id
                        && self.broadcasts()[i].year == year && self.broadcasts()[i].season
                        == season),
        {
            let b = &self.anime_broadcast[k];
            if b.mikan_id == mikan_id && b.year == year && b.season == season {
                return false;
            }
        }
        self.anime_broadcast.push(AnimeBroadcast { mikan_id, year, season });
        true
    }

    /// Inserts the subgroup row when its key is new; an existing row keeps
    /// its name.
    #[verifier::loop_isolation(false)]
    pub fn upsert_subgroup(&mut self, item: &AnimeSubgroupJson) -> (inserted: bool)
        requires
            old(self).wf(),
        ensures
            final(self).wf(),
            final(self).subgroups() == subgroup_step(old(self).subgroups(), item@),
            inserted == !has_subgroup(old(self).subgroups(), item@.subgroup_id),
            final(self).series() == old(self).series(),
            final(self).broadcasts() == old(self).broadcasts(),
            final(self).seeds() == old(self).seeds(),
            final(self).tasks() == old(self).tasks(),
    {
        let n = self.anime_subgroup.len();
        for k in 0..n
            invariant
                forall|i: int| 0 <= i < k ==> self.subgroups()[i].subgroup_id != item@.subgroup_id,
        {
            if self.anime_subgroup[k].subgroup_id == item.subgroup_id {
                proof {
                    assert(self.subgroups()[k as int].subgroup_id == item@.subgroup_id);
                }
                return false;
            }
        }
        let ghost pre = self.subgroups();
        self.anime_subgroup.push(
            AnimeSubgroup {
                subgroup_id: item.subgroup_id,
                subgroup_name: item.subgroup_name.clone(),
            },
        );
        proof {
            assert(self.subgroups() =~= pre.push(subgroup_of(item@)));
        }
        true
    }

    /// Inserts the seed row, status pending, when its `seed_url` is new; an
    /// existing row is left untouched.
    #[verifier::loop_isolation(false)]
    pub fn insert_seed_if_absent(&mut self, item: &AnimeSeedJson) -> (inserted: bool)
        requires
            old(self).wf(),
        ensures
            final(self).wf(),
            final(self).seeds() == seed_step(old(self).seeds(), item@),
            inserted == !has_seed(old(self).seeds(), item@.seed_url),
            final(self).series() == old(self).series(),
            final(self).broadcasts() == old(self).broadcasts(),
            final(self).subgroups() == old(self).subgroups(),
            final(self).tasks() == old(self).tasks(),
    {
        let n = self.anime_seed.len();
        for k in 0..n
            invariant
                forall|i: int| 0 <= i < k ==> self.seeds()[i].seed_url != item@.seed_url,
        {
            if self.anime_seed[k].seed_url == item.seed_url {
                proof {
                    assert(self.seeds()[k as int].seed_url == item@.seed_url);
                }
                return false;
            }
        }
        let ghost pre = self.seeds();
        self.anime_seed.push(
            AnimeSeed {
                mikan_id: item.mikan_id,
                subgroup_id: item.subgroup_id,
                episode: item.episode,
                seed_name: item.seed_name.clone(),
                seed_url: item.seed_url.clone(),
                seed_status: 0,
                seed_size: item.seed_size.clone(),
            },
        );
        proof {
            assert(self.seeds() =~= pre.push(pending_seed_of(item@)));
        }
        true
    }

    /// Inserts an open task row for the locator when it is new; an existing
    /// row is left untouched, and the call still succeeds.
    #[verifier::loop_isolation(false)]
    pub fn insert_task_if_absent(&mut self, mikan_id: i32, episode: i32, torrent_name: &String) -> (
    inserted: bool)
        requires
            old(self).wf(),
        ensures
            final(self).wf(),
            final(self).tasks() == task_step(old(self).tasks(), mikan_id, episode, torrent_name@),
            inserted == !has_task(old(self).tasks(), torrent_name@),
            final(self).series() == old(self).series(),
            final(self).broadcasts() == old(self).broadcasts(),
            final(self).subgroups() == old(self).subgroups(),
            final(self).seeds() == old(self).seeds(),
    {
        let n = self.anime_task.len();
        for k in 0..n
            invariant
                forall|i: int| 0 <= i < k ==> self.tasks()[i].torrent_name != torrent_name@,
        {
            if self.anime_task[k].torrent_name == *torrent_name {
                proof {
                    assert(self.tasks()[k as int].torrent_name == torrent_name@);
                }
                return false;
            }
        }
        let ghost pre = self.tasks();
        self.anime_task.push(
            AnimeTask {
                mikan_id,
                episode,
                torrent_name: torrent_name.clone(),
                qb_task_status: 0,
            },
        );
        proof {
            assert(self.tasks() =~= pre.push(task_row(mikan_id, episode, torrent_name@)));
        }
        true
    }

    /// Sets the status of the seed keyed `seed_url`; a missing key is a
    /// no-op reported through the result.
    #[verifier::loop_isolation(false)]
    pub fn update_seed_status(&mut self, seed_url: &String, status: i32) -> (found: bool)
        requires
            old(self).wf(),
            status == 0 || status == 1,
        ensures
            final(self).wf(),
            final(self).seeds() == seeds_with_status(old(self).seeds(), seed_url@, status),
            found == has_seed(old(self).seeds(), seed_url@),
            final(self).series() == old(self).series(),
            final(self).broadcasts() == old(self).broadcasts(),
            final(self).subgroups() == old(self).subgroups(),
            final(self).tasks() == old(self).tasks(),
    {
        match self.find_seed_index(seed_url) {
            Some(i) => {
                let mut row = self.anime_seed[i].clone();
                row.seed_status = status;
                self.anime_seed[i] = row;
                proof {
                    assert(self.seeds() =~= seeds_with_status(
                        old(self).seeds(),
                        seed_url@,
                        status,
                    ));
                }
                true
            },
            None => {
                proof {
                    assert(self.seeds() =~= seeds_with_status(
                        old(self).seeds(),
                        seed_url@,
                        status,
                    ));
                }
                false
            },
        }
    }

    /// Index of the seed row keyed `seed_url`, if any.
    pub fn find_seed_index(&self, seed_url: &String) -> (r: Option<usize>)
        ensures
            match r {
                Some(i) => i < self.seeds().len() && self.seeds()[i as int].seed_url == seed_url@,
                None => !has_seed(self.seeds(), seed_url@),
            },
    {
        let n = self.anime_seed.len();
        for k in 0..n
            invariant
                n == self.anime_seed@.len(),
                forall|i: int| 0 <= i < k ==> self.seeds()[i].seed_url != seed_url@,
        {
            if self.anime_seed[k].seed_url == *seed_url {
                return Some(k);
            }
        }
        None
    }

    /// The broadcast row with the given composite key, if any.
    #[verifier::loop_isolation(false)]
    pub fn find_broadcast(&self, mikan_id: i32, year: i32, season: i32) -> (r: Option<
        AnimeBroadcast>)
        ensures
            match r {
                Some(b) => has_broadcast(self.broadcasts(), mikan_id, year, season) && b
                    == (AnimeBroadcast { mikan_id, year, season }),
                None => !has_broadcast(self.broadcasts(), mikan_id, year, season),
            },
    {
        let n = self.anime_broadcast.len();
        for k in 0..n
            invariant
                forall|i: int|
                    0 <= i < k ==> !((#[trigger] self.broadcasts()[i]).mikan_id == mikan_id
                        && self.broadcasts()[i].year == year && self.broadcasts()[i].season
                        == season),
        {
            let b = self.anime_broadcast[k];
            if b.mikan_id == mikan_id && b.year == year && b.season == season {
                return Some(b);
            }
        }
        None
    }

    /// The seed rows of one series, cloned in table order.
    #[verifier::loop_isolation(false)]
    pub fn seeds_by_series(&self, mikan_id: i32) -> (r: Vec<AnimeSeed>)
        ensures
            r.deep_view() == seeds_of_series(self.seeds(), mikan_id),
    {
        let mut r: Vec<AnimeSeed> = Vec::new();
        let n = self.anime_seed.len();
        for k in 0..n
            invariant
                r.deep_view() == seeds_of_series(self.seeds().take(k as int), mikan_id),
        {
            proof {
                assert(self.seeds().take(k as int + 1).drop_last() =~= self.seeds().take(
                    k as int,
                ));
            }
            if self.anime_seed[k].mikan_id == mikan_id {
                let ghost pre = r.deep_view();
                r.push(self.anime_seed[k].clone());
                proof {
                    assert(r.deep_view() =~= pre.push(self.seeds()[k as int]));
                }
            }
        }
        proof {
            assert(self.seeds().take(n as int) =~= self.seeds());
        }
        r
    }

    /// The task rows of one series, cloned in table order.
    #[verifier::loop_isolation(false)]
    pub fn tasks_by_series(&self, mikan_id: i32) -> (r: Vec<AnimeTask>)
        ensures
            r.deep_view() == tasks_of_series(self.tasks(), mikan_id),
    {
        let mut r: Vec<AnimeTask> = Vec::new();
        let n = self.anime_task.len();
        for k in 0..n
            invariant
                r.deep_view() == tasks_of_series(self.tasks().take(k as int), mikan_id),
        {
            proof {
                assert(self.tasks().take(k as int + 1).drop_last() =~= self.tasks().take(
                    k as int,
                ));
            }
            if self.anime_task[k].mikan_id == mikan_id {
                let ghost pre = r.deep_view();
                r.push(self.anime_task[k].clone());
                proof {
                    assert(r.deep_view() =~= pre.push(self.tasks()[k as int]));
                }
            }
        }
        proof {
            assert(self.tasks().take(n as int) =~= self.tasks());
        }
        r
    }

    /// The open task rows (status `0`), cloned in table order.
    #[verifier::loop_isolation(false)]
    pub fn open_tasks(&self) -> (r: Vec<AnimeTask>)
        ensures
            r.deep_view() == open_tasks_of(self.tasks()),
    {
        let mut r: Vec<AnimeTask> = Vec::new();
        let n = self.anime_task.len();
        for k in 0..n
            invariant
                r.deep_view() == open_tasks_of(self.tasks().take(k as int)),
        {
            proof {
                assert(self.tasks().take(k as int + 1).drop_last() =~= self.tasks().take(
                    k as int,
                ));
            }
            if self.anime_task[k].qb_task_status == 0 {
                let ghost pre = r.deep_view();
                r.push(self.anime_task[k].clone());
                proof {
                    assert(r.deep_view() =~= pre.push(self.tasks()[k as int]));
                }
            }
        }
        proof {
            assert(self.tasks().take(n as int) =~= self.tasks());
        }
        r
    }

    /// Every subgroup row, cloned in table order.
    #[verifier::loop_isolation(false)]
    pub fn all_subgroups(&self) -> (r: Vec<AnimeSubgroup>)
        ensures
            r.deep_view() == self.subgroups(),
    {
        let mut r: Vec<AnimeSubgroup> = Vec::new();
        let n = self.anime_subgroup.len();
        for k in 0..n
            invariant
                r.deep_view() == self.subgroups().take(k as int),
        {
            let ghost pre = r.deep_view();
            r.push(self.anime_subgroup[k].clone());
            proof {
                assert(r.deep_view() =~= pre.push(self.subgroups()[k as int]));
                assert(pre.push(self.subgroups()[k as int]) =~= self.subgroups().take(
                    k as int + 1,
                ));
            }
        }
        proof {
            assert(self.subgroups().take(n as int) =~= self.subgroups());
        }
        r
    }

    /// The series rows carrying the given subscription flag, cloned in
    /// table order.
    #[verifier::loop_isolation(false)]
    pub fn series_by_subscribe_status(&self, st: i32) -> (r: Vec<AnimeList>)
        ensures
            r.deep_view() == series_of_subscribe(self.series(), st),
    {
        let mut r: Vec<AnimeList> = Vec::new();
        let n = self.anime_list.len();
        for k in 0..n
            invariant
                r.deep_view() == series_of_subscribe(self.series().take(k as int), st),
        {
            proof {
                assert(self.series().take(k as int + 1).drop_last() =~= self.series().take(
                    k as int,
                ));
            }
            if self.anime_list[k].subscribe_status == st {
                let ghost pre = r.deep_view();
                r.push(self.anime_list[k].clone());
                proof {
                    assert(r.deep_view() =~= pre.push(self.series()[k as int]));
                }
            }
        }
        proof {
            assert(self.series().take(n as int) =~= self.series());
        }
        r
    }

    /// The broadcast rows of one season, in table order.
    #[verifier::loop_isolation(false)]
    pub fn broadcasts_by_season(&self, year: i32, season: i32) -> (r: Vec<AnimeBroadcast>)
        ensures
            r@ == broadcasts_of_season(self.broadcasts(), year, season),
    {
        let mut r: Vec<AnimeBroadcast> = Vec::new();
        let n = self.anime_broadcast.len();
        for k in 0..n
            invariant
                r@ == broadcasts_of_season(self.broadcasts().take(k as int), year, season),
        {
            proof {
                assert(self.broadcasts().take(k as int + 1).drop_last() =~= self.broadcasts().take(
                    k as int,
                ));
            }
            let b = self.anime_broadcast[k];
            if b.year == year && b.season == season {
                r.push(b);
            }
        }
        proof {
            assert(self.broadcasts().take(n as int) =~= self.broadcasts());
        }
        r
    }

    /// The last-known finished-episode counter of one series.
    pub fn get_new_finished_episode(&self, mikan_id: i32) -> (r: Option<i32>)
        requires
            self.wf(),
        ensures
            match r {
                Some(v) => has_series(self.series(), mikan_id) && v == series_at(
                    self.series(),
                    mikan_id,
                ).new_finished_episode,
                None => !has_series(self.series(), mikan_id),
            },
    {
        match self.find_series_index(mikan_id) {
            Some(i) => {
                proof {
                    lemma_series_at_index(self.series(), mikan_id, i as int);
                }
                Some(self.anime_list[i].new_finished_episode)
            },
            None => None,
        }
    }

    /// Every series row, cloned in table order.
    #[verifier::loop_isolation(false)]
    pub fn all_series(&self) -> (r: Vec<AnimeList>)
        ensures
            r.deep_view() == self.series(),
    {
        let mut r: Vec<AnimeList> = Vec::new();
        let n = self.anime_list.len();
        for k in 0..n
            invariant
                r.deep_view() == self.series().take(k as int),
        {
            let ghost pre = r.deep_view();
            r.push(self.anime_list[k].clone());
            proof {
                assert(r.deep_view() =~= pre.push(self.series()[k as int]));
                assert(pre.push(self.series()[k as int]) =~= self.series().take(k as int + 1));
            }
        }
        proof {
            assert(self.series().take(n as int) =~= self.series());
        }
        r
    }

    /// The series rows carrying both the given subscription flag and the
    /// given lifecycle status, cloned in table order.
    #[verifier::loop_isolation(false)]
    pub fn series_by_subscribe_and_anime_status(&self, sub: i32, st: i32) -> (r: Vec<AnimeList>)
        ensures
            r.deep_view() == series_of_subscribe_and_status(self.series(), sub, st),
    {
        let mut r: Vec<AnimeList> = Vec::new();
        let n = self.anime_list.len();
        for k in 0..n
            invariant
                r.deep_view() == series_of_subscribe_and_status(
                    self.series().take(k as int),
                    sub,
                    st,
                ),
        {
            proof {
                assert(self.series().take(k as int + 1).drop_last() =~= self.series().take(
                    k as int,
                ));
            }
            if self.anime_list[k].subscribe_status == sub && self.anime_list[k].anime_status
                == st {
                let ghost pre = r.deep_view();
                r.push(self.anime_list[k].clone());
                proof {
                    assert(r.deep_view() =~= pre.push(self.series()[k as int]));
                }
            }
        }
        proof {
            assert(self.series().take(n as int) =~= self.series());
        }
        r
    }

    /// The series key of the first row with the given display name;
    /// names are not a key, so the first match in table order wins.
    #[verifier::loop_isolation(false)]
    pub fn get_mikan_id_by_anime_name(&self, anime_name: &String) -> (r: Option<i32>)
        ensures
            match r {
                Some(v) => exists|i: int|
                    0 <= i < self.series().len() && (#[trigger] self.series()[i]).anime_name
                        == anime_name@ && self.series()[i].mikan_id == v,
                None => forall|i: int|
                    0 <= i < self.series().len() ==> (#[trigger] self.series()[i]).anime_name
                        != anime_name@,
            },
    {
        let n = self.anime_list.len();
        for k in 0..n
            invariant
                forall|i: int|
                    0 <= i < k ==> (#[trigger] self.series()[i]).anime_name != anime_name@,
        {
            if self.anime_list[k].anime_name == *anime_name {
                proof {
                    assert(self.series()[k as int].anime_name == anime_name@);
                }
                return Some(self.anime_list[k].mikan_id);
            }
        }
        None
    }

    /// Removes the series row keyed `mikan_id`; part of an explicit user
    /// purge. Reports whether a row was removed.
    #[verifier::loop_isolation(false)]
    pub fn delete_series(&mut self, mikan_id: i32) -> (deleted: bool)
        requires
            old(self).wf(),
        ensures
            final(self).wf(),
            final(self).series() == series_without(old(self).series(), mikan_id),
            deleted == has_series(old(self).series(), mikan_id),
            final(self).broadcasts() == old(self).broadcasts(),
            final(self).subgroups() == old(self).subgroups(),
            final(self).seeds() == old(self).seeds(),
            final(self).tasks() == old(self).tasks(),
    {
        let mut kept: Vec<AnimeList> = Vec::new();
        let mut deleted = false;
        let n = self.anime_list.len();
        for k in 0..n
            invariant
                kept.deep_view() == series_without(self.series().take(k as int), mikan_id),
                deleted == exists|i: int|
                    0 <= i < k && (#[trigger] self.series()[i]).mikan_id == mikan_id,
        {
            proof {
                assert(self.series().take(k as int + 1).drop_last() =~= self.series().take(
                    k as int,
                ));
            }
            if self.anime_list[k].mikan_id != mikan_id {
                let ghost pre = kept.deep_view();
                kept.push(self.anime_list[k].clone());
                proof {
                    assert(kept.deep_view() =~= pre.push(self.series()[k as int]));
                }
            } else {
                proof {
                    assert(self.series()[k as int].mikan_id == mikan_id);
                }
                deleted = true;
            }
        }
        proof {
            assert(self.series().take(n as int) =~= self.series());
            lemma_series_without_wf(self.series(), mikan_id);
        }
        self.anime_list = kept;
        deleted
    }

    /// Sets the subscription flag of the series keyed `mikan_id`; a
    /// missing key is a no-op reported through the result.
    pub fn update_subscribe_status(&mut self, mikan_id: i32, st: i32) -> (found: bool)
        requires
            old(self).wf(),
            st == 0 || st == 1,
        ensures
            final(self).wf(),
            final(self).series() == series_with_subscribe(old(self).series(), mikan_id, st),
            found == has_series(old(self).series(), mikan_id),
            final(self).broadcasts() == old(self).broadcasts(),
            final(self).subgroups() == old(self).subgroups(),
            final(self).seeds() == old(self).seeds(),
            final(self).tasks() == old(self).tasks(),
    {
        match self.find_series_index(mikan_id) {
            Some(i) => {
                let mut row = self.anime_list[i].clone();
                row.subscribe_status = st;
                self.anime_list[i] = row;
                proof {
                    assert(self.series() =~= series_with_subscribe(
                        old(self).series(),
                        mikan_id,
                        st,
                    ));
                }
                true
            },
            None => {
                proof {
                    assert(self.series() =~= series_with_subscribe(
                        old(self).series(),
                        mikan_id,
                        st,
                    ));
                }
                false
            },
        }
    }

    /// Sets the lifecycle status of the series keyed `mikan_id`; a missing
    /// key is a no-op reported through the result.
    pub fn update_anime_status(&mut self, mikan_id: i32, st: i32) -> (found: bool)
        requires
            old(self).wf(),
            st == -1 || st == 0 || st == 1,
        ensures
            final(self).wf(),
            final(self).series() == series_with_anime_status(old(self).series(), mikan_id, st),
            found == has_series(old(self).series(), mikan_id),
            final(self).broadcasts() == old(self).broadcasts(),
            final(self).subgroups() == old(self).subgroups(),
            final(self).seeds() == old(self).seeds(),
            final(self).tasks() == old(self).tasks(),
    {
        match self.find_series_index(mikan_id) {
            Some(i) => {
                let mut row = self.anime_list[i].clone();
                row.anime_status = st;
                self.anime_list[i] = row;
                proof {
                    assert(self.series() =~= series_with_anime_status(
                        old(self).series(),
                        mikan_id,
                        st,
                    ));
                }
                true
            },
            None => {
                proof {
                    assert(self.series() =~= series_with_anime_status(
                        old(self).series(),
                        mikan_id,
                        st,
                    ));
                }
                false
            },
        }
    }

    /// Replaces the rating metadata of the series keyed `mikan_id`; a
    /// missing key is a no-op reported through the result.
    pub fn update_bangumi_info(&mut self, mikan_id: i32, item: &BangumiInfoJson) -> (found: bool)
        requires
            old(self).wf(),
        ensures
            final(self).wf(),
            final(self).series() == series_with_bangumi(old(self).series(), mikan_id, item@),
            found == has_series(old(self).series(), mikan_id),
            final(self).broadcasts() == old(self).broadcasts(),
            final(self).subgroups() == old(self).subgroups(),
            final(self).seeds() == old(self).seeds(),
            final(self).tasks() == old(self).tasks(),
    {
        match self.find_series_index(mikan_id) {
            Some(i) => {
                let mut row = self.anime_list[i].clone();
                row.bangumi_id = item.bangumi_id;
                row.bangumi_rank = item.bangumi_rank.clone();
                row.bangumi_summary = item.bangumi_summary.clone();
                row.website = item.website.clone();
                row.total_episodes = item.total_episodes;
                self.anime_list[i] = row;
                proof {
                    assert(self.series() =~= series_with_bangumi(
                        old(self).series(),
                        mikan_id,
                        item@,
                    ));
                }
                true
            },
            None => {
                proof {
                    assert(self.series() =~= series_with_bangumi(
                        old(self).series(),
                        mikan_id,
                        item@,
                    ));
                }
                false
            },
        }
    }

    /// Sets the finished-episode counter of the series keyed `mikan_id`; a
    /// missing key is a no-op reported through the result.
    pub fn update_new_finished_episode(&mut self, mikan_id: i32, nb: i32) -> (found: bool)
        requires
            old(self).wf(),
        ensures
            final(self).wf(),
            final(self).series() == series_with_new_finished(old(self).series(), mikan_id, nb),
            found == has_series(old(self).series(), mikan_id),
            final(self).broadcasts() == old(self).broadcasts(),
            final(self).subgroups() == old(self).subgroups(),
            final(self).seeds() == old(self).seeds(),
            final(self).tasks() == old(self).tasks(),
    {
        match self.find_series_index(mikan_id) {
            Some(i) => {
                let mut row = self.anime_list[i].clone();
                row.new_finished_episode = nb;
                self.anime_list[i] = row;
                proof {
                    assert(self.series() =~= series_with_new_finished(
                        old(self).series(),
                        mikan_id,
                        nb,
                    ));
                }
                true
            },
            None => {
                proof {
                    assert(self.series() =~= series_with_new_finished(
                        old(self).series(),
                        mikan_id,
                        nb,
                    ));
                }
                false
            },
        }
    }

    /// Removes every seed row of one series; part of a user purge.
    #[verifier::loop_isolation(false)]
    pub fn delete_seeds_by_series(&mut self, mikan_id: i32)
        requires
            old(self).wf(),
        ensures
            final(self).wf(),
            final(self).seeds() == seeds_without_series(old(self).seeds(), mikan_id),
            final(self).series() == old(self).series(),
            final(self).broadcasts() == old(self).broadcasts(),
            final(self).subgroups() == old(self).subgroups(),
            final(self).tasks() == old(self).tasks(),
    {
        let mut kept: Vec<AnimeSeed> = Vec::new();
        let n = self.anime_seed.len();
        for k in 0..n
            invariant
                kept.deep_view() == seeds_without_series(self.seeds().take(k as int), mikan_id),
        {
            proof {
                assert(self.seeds().take(k as int + 1).drop_last() =~= self.seeds().take(
                    k as int,
                ));
            }
            if self.anime_seed[k].mikan_id != mikan_id {
                let ghost pre = kept.deep_view();
                kept.push(self.anime_seed[k].clone());
                proof {
                    assert(kept.deep_view() =~= pre.push(self.seeds()[k as int]));
                }
            }
        }
        proof {
            assert(self.seeds().take(n as int) =~= self.seeds());
            lemma_seeds_without_series_wf(self.seeds(), mikan_id);
        }
        self.anime_seed = kept;
    }

    /// Removes every task row of one series; part of a user purge.
    #[verifier::loop_isolation(false)]
    pub fn delete_tasks_by_series(&mut self, mikan_id: i32)
        requires
            old(self).wf(),
        ensures
            final(self).wf(),
            final(self).tasks() == tasks_without_series(old(self).tasks(), mikan_id),
            final(self).series() == old(self).series(),
            final(self).broadcasts() == old(self).broadcasts(),
            final(self).subgroups() == old(self).subgroups(),
            final(self).seeds() == old(self).seeds(),
    {
        let mut kept: Vec<AnimeTask> = Vec::new();
        let n = self.anime_task.len();
        for k in 0..n
            invariant
                kept.deep_view() == tasks_without_series(self.tasks().take(k as int), mikan_id),
        {
            proof {
                assert(self.tasks().take(k as int + 1).drop_last() =~= self.tasks().take(
                    k as int,
                ));
            }
            if self.anime_task[k].mikan_id != mikan_id {
                let ghost pre = kept.deep_view();
                kept.push(self.anime_task[k].clone());
                proof {
                    assert(kept.deep_view() =~= pre.push(self.tasks()[k as int]));
                }
            }
        }
        proof {
            assert(self.tasks().take(n as int) =~= self.tasks());
            lemma_tasks_without_series_wf(self.tasks(), mikan_id);
        }
        self.anime_task = kept;
    }
}

} // verus!
