//! Ingestion of scraped batches into the catalog.
//!
//! Both batch operations are folds of the per-row insert-if-absent steps
//! of [`crate::catalog`], so re-running a scrape never duplicates a row
//! and never touches a row a user may have edited. Per-subgroup fetch
//! failures are best-effort: a failed fetch contributes no seeds and
//! raises no error.

use vstd::prelude::*;

use crate::catalog::{
    broadcast_step, has_broadcast, has_series, has_seed, has_subgroup, seed_step, series_step,
    subgroup_step, Catalog,
};
use crate::models::{
    AnimeBroadcast, AnimeListJson, AnimeListJsonView, AnimeListView, AnimeSeedJson,
    AnimeSeedJsonView, AnimeSeedView, AnimeSubgroupJson, AnimeSubgroupJsonView, AnimeSubgroupView,
    BroadcastRequestJson, ScrapeError,
};

verus! {

/// The series table after the insert-if-absent steps of every item, in
/// order.
pub open spec fn ingest_series_fold(s: Seq<AnimeListView>, items: Seq<AnimeListJsonView>) -> Seq<
    AnimeListView>
    decreases items.len(),
{
    if items.len() == 0 {
        s
    } else {
        series_step(ingest_series_fold(s, items.drop_last()), items.last())
    }
}

/// How many items of the batch insert a new series row.
pub open spec fn ingest_series_count(s: Seq<AnimeListView>, items: Seq<AnimeListJsonView>) -> nat
    decreases items.len(),
{
    if items.len() == 0 {
        0
    } else {
        ingest_series_count(s, items.drop_last()) + if has_series(
            ingest_series_fold(s, items.drop_last()),
            items.last().mikan_id,
        ) {
            0nat
        } else {
            1nat
        }
    }
}

/// The broadcast table after the insert-if-absent steps of every item for
/// one season, in order.
pub open spec fn ingest_broadcast_fold(
    b: Seq<AnimeBroadcast>,
    items: Seq<AnimeListJsonView>,
    year: i32,
    season: i32,
) -> Seq<AnimeBroadcast>
    decreases items.len(),
{
    if items.len() == 0 {
        b
    } else {
        broadcast_step(
            ingest_broadcast_fold(b, items.drop_last(), year, season),
            items.last().mikan_id,
            year,
            season,
        )
    }
}

/// The subgroup table after the insert-if-absent steps of every item, in
/// order.
pub open spec fn ingest_subgroup_fold(
    g: Seq<AnimeSubgroupView>,
    items: Seq<AnimeSubgroupJsonView>,
) -> Seq<AnimeSubgroupView>
    decreases items.len(),
{
    if items.len() == 0 {
        g
    } else {
        subgroup_step(ingest_subgroup_fold(g, items.drop_last()), items.last())
    }
}

/// The seed items the successful per-subgroup fetches contribute, in
/// dispatch order; a failed fetch contributes nothing.
pub open spec fn ok_seed_items(fetches: Seq<Result<Vec<AnimeSeedJson>, ScrapeError>>) -> Seq<
    AnimeSeedJsonView>
    decreases fetches.len(),
{
    if fetches.len() == 0 {
        Seq::empty()
    } else {
        ok_seed_items(fetches.drop_last()) + match fetches.last() {
            Ok(v) => v.deep_view(),
            Err(_) => Seq::empty(),
        }
    }
}

/// The seed table after the insert-if-absent steps of every item, in
/// order.
pub open spec fn ingest_seed_fold(s: Seq<AnimeSeedView>, items: Seq<AnimeSeedJsonView>) -> Seq<
    AnimeSeedView>
    decreases items.len(),
{
    if items.len() == 0 {
        s
    } else {
        seed_step(ingest_seed_fold(s, items.drop_last()), items.last())
    }
}

/// How many items of the batch insert a new seed row.
pub open spec fn ingest_seed_count(s: Seq<AnimeSeedView>, items: Seq<AnimeSeedJsonView>) -> nat
    decreases items.len(),
{
    if items.len() == 0 {
        0
    } else {
        ingest_seed_count(s, items.drop_last()) + if has_seed(
            ingest_seed_fold(s, items.drop_last()),
            items.last().seed_url,
        ) {
            0nat
        } else {
            1nat
        }
    }
}

impl Catalog {
    /// Ingests one scraped season listing: for each item, the series row
    /// is inserted with defaults when its key is new (an existing row is
    /// left untouched, so a re-scrape cannot clobber user edits), and the
    /// broadcast row for this season is upserted. Returns how many series
    /// rows were newly inserted; pre-existing ones are silently skipped.
    #[verifier::loop_isolation(false)]
    pub fn ingest_broadcast_batch(&mut self, req: &BroadcastRequestJson, items: &Vec<
        AnimeListJson>) -> (inserted: usize)
        requires
            old(self).wf(),
        ensures
            final(self).wf(),
            final(self).series() == ingest_series_fold(old(self).series(), items.deep_view()),
            final(self).broadcasts() == ingest_broadcast_fold(
                old(self).broadcasts(),
                items.deep_view(),
                req.year,
                req.season,
            ),
            inserted == ingest_series_count(old(self).series(), items.deep_view()),
            final(self).subgroups() == old(self).subgroups(),
            final(self).seeds() == old(self).seeds(),
            final(self).tasks() == old(self).tasks(),
    {
        let ghost s0 = self.series();
        let ghost b0 = self.broadcasts();
        let mut inserted: usize = 0;
        let n = items.len();
        for k in 0..n
            invariant
                self.wf(),
                self.series() == ingest_series_fold(s0, items.deep_view().take(k as int)),
                self.broadcasts() == ingest_broadcast_fold(
                    b0,
                    items.deep_view().take(k as int),
                    req.year,
                    req.season,
                ),
                inserted == ingest_series_count(s0, items.deep_view().take(k as int)),
                inserted <= k,
                self.subgroups() == old(self).subgroups(),
                self.seeds() == old(self).seeds(),
                self.tasks() == old(self).tasks(),
        {
            proof {
                assert(items.deep_view().take(k as int + 1).drop_last() =~= items.deep_view().take(
                    k as int,
                ));
                assert(items.deep_view().take(k as int + 1).last() == items@[k as int]@);
            }
            let item = &items[k];
            let ins = self.upsert_series_defaults(item);
            if ins {
                inserted = inserted + 1;
            }
            self.upsert_broadcast(item.mikan_id, req.year, req.season);
        }
        proof {
            assert(items.deep_view().take(n as int) =~= items.deep_view());
        }
        inserted
    }

    /// Inserts a batch of seed items as one bulk write, de-duplicated by
    /// `seed_url` against existing rows and within the batch; existing
    /// rows are left untouched. Returns how many rows were newly inserted.
    #[verifier::loop_isolation(false)]
    pub fn bulk_insert_seeds(&mut self, items: &Vec<AnimeSeedJson>) -> (inserted: usize)
        requires
            old(self).wf(),
        ensures
            final(self).wf(),
            final(self).seeds() == ingest_seed_fold(old(self).seeds(), items.deep_view()),
            inserted == ingest_seed_count(old(self).seeds(), items.deep_view()),
            final(self).series() == old(self).series(),
            final(self).broadcasts() == old(self).broadcasts(),
            final(self).subgroups() == old(self).subgroups(),
            final(self).tasks() == old(self).tasks(),
    {
        let ghost s0 = self.seeds();
        let mut inserted: usize = 0;
        let n = items.len();
        for k in 0..n
            invariant
                self.wf(),
                self.seeds() == ingest_seed_fold(s0, items.deep_view().take(k as int)),
                inserted == ingest_seed_count(s0, items.deep_view().take(k as int)),
                inserted <= k,
                self.series() == old(self).series(),
                self.broadcasts() == old(self).broadcasts(),
                self.subgroups() == old(self).subgroups(),
                self.tasks() == old(self).tasks(),
        {
            proof {
                assert(items.deep_view().take(k as int + 1).drop_last() =~= items.deep_view().take(
                    k as int,
                ));
                assert(items.deep_view().take(k as int + 1).last() == items@[k as int]@);
            }
            let ins = self.insert_seed_if_absent(&items[k]);
            if ins {
                inserted = inserted + 1;
            }
        }
        proof {
            assert(items.deep_view().take(n as int) =~= items.deep_view());
        }
        inserted
    }

    /// Ingests one series' scraped seed batch: every subgroup row is
    /// upserted, and the seeds of the successful per-subgroup fetches are
    /// inserted as one bulk write de-duplicated by `seed_url`. A failed
    /// fetch (`fetches[i]` is `Err`) contributes no seeds and raises no
    /// error: one scraper hiccup must not abort the whole ingestion.
    /// Returns how many seed rows were newly inserted.
    #[verifier::loop_isolation(false)]
    pub fn ingest_seed_batch(
        &mut self,
        subgroups: &Vec<AnimeSubgroupJson>,
        fetches: &Vec<Result<Vec<AnimeSeedJson>, ScrapeError>>,
    ) -> (inserted: usize)
        requires
            old(self).wf(),
        ensures
            final(self).wf(),
            final(self).subgroups() == ingest_subgroup_fold(
                old(self).subgroups(),
                subgroups.deep_view(),
            ),
            final(self).seeds() == ingest_seed_fold(old(self).seeds(), ok_seed_items(fetches@)),
            inserted == ingest_seed_count(old(self).seeds(), ok_seed_items(fetches@)),
            final(self).series() == old(self).series(),
            final(self).broadcasts() == old(self).broadcasts(),
            final(self).tasks() == old(self).tasks(),
    {
        let ghost g0 = self.subgroups();
        let ns = subgroups.len();
        for k in 0..ns
            invariant
                self.wf(),
                self.subgroups() == ingest_subgroup_fold(g0, subgroups.deep_view().take(k as int)),
                self.series() == old(self).series(),
                self.broadcasts() == old(self).broadcasts(),
                self.seeds() == old(self).seeds(),
                self.tasks() == old(self).tasks(),
        {
            proof {
                assert(subgroups.deep_view().take(k as int + 1).drop_last()
                    =~= subgroups.deep_view().take(k as int));
                assert(subgroups.deep_view().take(k as int + 1).last() == subgroups@[k as int]@);
            }
            self.upsert_subgroup(&subgroups[k]);
        }
        proof {
            assert(subgroups.deep_view().take(ns as int) =~= subgroups.deep_view());
        }
        let mut collected: Vec<AnimeSeedJson> = Vec::new();
        let nf = fetches.len();
        for i in 0..nf
            invariant
                collected.deep_view() == ok_seed_items(fetches@.take(i as int)),
        {
            proof {
                assert(fetches@.take(i as int + 1).drop_last() =~= fetches@.take(i as int));
                assert(fetches@.take(i as int + 1).last() == fetches@[i as int]);
            }
            match &fetches[i] {
                Ok(v) => {
                    let ghost base = collected.deep_view();
                    let nv = v.len();
                    for j in 0..nv
                        invariant
                            collected.deep_view() == base + v.deep_view().take(j as int),
                    {
                        let ghost pre = collected.deep_view();
                        collected.push(v[j].clone());
                        proof {
                            assert(collected.deep_view() =~= pre.push(v.deep_view()[j as int]));
                            assert(pre.push(v.deep_view()[j as int]) =~= base + v.deep_view().take(
                                j as int + 1,
                            ));
                        }
                    }
                    proof {
                        assert(v.deep_view().take(nv as int) =~= v.deep_view());
                    }
                },
                Err(_) => {
                    proof {
                        assert(ok_seed_items(fetches@.take(i as int + 1)) =~= ok_seed_items(
                            fetches@.take(i as int),
                        ));
                    }
                },
            }
        }
        proof {
            assert(fetches@.take(nf as int) =~= fetches@);
        }
        self.bulk_insert_seeds(&collected)
    }
}

/// A series key present before an insert-if-absent step is still present
/// after it, and the step's own key is present after it.
pub proof fn lemma_series_step_has(s: Seq<AnimeListView>, it: AnimeListJsonView)
    ensures
        forall|id: i32| has_series(s, id) ==> has_series(series_step(s, it), id),
        has_series(series_step(s, it), it.mikan_id),
{
    assert forall|id: i32| has_series(s, id) implies has_series(series_step(s, it), id) by {
        let i = choose|i: int| 0 <= i < s.len() && s[i].mikan_id == id;
        assert(series_step(s, it)[i].mikan_id == id);
    }
    if !has_series(s, it.mikan_id) {
        assert(series_step(s, it)[s.len() as int].mikan_id == it.mikan_id);
    }
}

/// After the fold, every item's series key is present; keys present
/// before are still present.
pub proof fn lemma_series_fold_has(s: Seq<AnimeListView>, items: Seq<AnimeListJsonView>)
    ensures
        forall|id: i32| has_series(s, id) ==> has_series(ingest_series_fold(s, items), id),
        forall|k: int|
            0 <= k < items.len() ==> has_series(
                ingest_series_fold(s, items),
                #[trigger] items[k].mikan_id,
            ),
    decreases items.len(),
{
    if items.len() > 0 {
        let pre = ingest_series_fold(s, items.drop_last());
        lemma_series_fold_has(s, items.drop_last());
        lemma_series_step_has(pre, items.last());
        assert forall|k: int|
            0 <= k < items.len() implies has_series(
            ingest_series_fold(s, items),
            #[trigger] items[k].mikan_id,
        ) by {
            if k < items.len() - 1 {
                assert(items.drop_last()[k] == items[k]);
                assert(has_series(pre, items[k].mikan_id));
            }
        }
    }
}

/// A batch whose series keys are all present already folds to the
/// unchanged table and inserts nothing.
pub proof fn lemma_series_fold_noop(s: Seq<AnimeListView>, items: Seq<AnimeListJsonView>)
    requires
        forall|k: int| 0 <= k < items.len() ==> has_series(s, #[trigger] items[k].mikan_id),
    ensures
        ingest_series_fold(s, items) == s,
        ingest_series_count(s, items) == 0,
    decreases items.len(),
{
    if items.len() > 0 {
        assert forall|k: int|
            0 <= k < items.drop_last().len() implies has_series(
            s,
            #[trigger] items.drop_last()[k].mikan_id,
        ) by {
            assert(items.drop_last()[k] == items[k]);
        }
        lemma_series_fold_noop(s, items.drop_last());
        assert(has_series(s, items.last().mikan_id)) by {
            assert(items[items.len() - 1] == items.last());
        }
    }
}

/// A broadcast key present before an insert-if-absent step is still
/// present after it, and the step's own key is present after it.
pub proof fn lemma_broadcast_step_has(b: Seq<AnimeBroadcast>, id: i32, year: i32, season: i32)
    ensures
        forall|x: i32| has_broadcast(b, x, year, season) ==> has_broadcast(
            broadcast_step(b, id, year, season),
            x,
            year,
            season,
        ),
        has_broadcast(broadcast_step(b, id, year, season), id, year, season),
{
    assert forall|x: i32| has_broadcast(b, x, year, season) implies has_broadcast(
        broadcast_step(b, id, year, season),
        x,
        year,
        season,
    ) by {
        let i = choose|i: int|
            0 <= i < b.len() && b[i].mikan_id == x && b[i].year == year && b[i].season == season;
        assert(broadcast_step(b, id, year, season)[i] == b[i]);
    }
    if !has_broadcast(b, id, year, season) {
        assert(broadcast_step(b, id, year, season)[b.len() as int] == AnimeBroadcast {
            mikan_id: id,
            year,
            season,
        });
    }
}

/// After the fold, every item's broadcast key is present; keys present
/// before are still present.
pub proof fn lemma_broadcast_fold_has(
    b: Seq<AnimeBroadcast>,
    items: Seq<AnimeListJsonView>,
    year: i32,
    season: i32,
)
    ensures
        forall|x: i32| has_broadcast(b, x, year, season) ==> has_broadcast(
            ingest_broadcast_fold(b, items, year, season),
            x,
            year,
            season,
        ),
        forall|k: int|
            0 <= k < items.len() ==> has_broadcast(
                ingest_broadcast_fold(b, items, year, season),
                #[trigger] items[k].mikan_id,
                year,
                season,
            ),
    decreases items.len(),
{
    if items.len() > 0 {
        let pre = ingest_broadcast_fold(b, items.drop_last(), year, season);
        lemma_broadcast_fold_has(b, items.drop_last(), year, season);
        lemma_broadcast_step_has(pre, items.last().mikan_id, year, season);
        assert forall|k: int|
            0 <= k < items.len() implies has_broadcast(
            ingest_broadcast_fold(b, items, year, season),
            #[trigger] items[k].mikan_id,
            year,
            season,
        ) by {
            if k < items.len() - 1 {
                assert(items.drop_last()[k] == items[k]);
                assert(has_broadcast(pre, items[k].mikan_id, year, season));
            }
        }
    }
}

/// A batch whose broadcast keys are all present already folds to the
/// unchanged table.
pub proof fn lemma_broadcast_fold_noop(
    b: Seq<AnimeBroadcast>,
    items: Seq<AnimeListJsonView>,
    year: i32,
    season: i32,
)
    requires
        forall|k: int|
            0 <= k < items.len() ==> has_broadcast(b, #[trigger] items[k].mikan_id, year, season),
    ensures
        ingest_broadcast_fold(b, items, year, season) == b,
    decreases items.len(),
{
    if items.len() > 0 {
        assert forall|k: int|
            0 <= k < items.drop_last().len() implies has_broadcast(
            b,
            #[trigger] items.drop_last()[k].mikan_id,
            year,
            season,
        ) by {
            assert(items.drop_last()[k] == items[k]);
        }
        lemma_broadcast_fold_noop(b, items.drop_last(), year, season);
        assert(has_broadcast(b, items.last().mikan_id, year, season)) by {
            assert(items[items.len() - 1] == items.last());
        }
    }
}

/// Ingesting the same season batch a second time inserts no series row
/// and leaves both the series and the broadcast table exactly as the
/// first pass left them.
pub proof fn lemma_ingest_broadcast_idempotent(
    s: Seq<AnimeListView>,
    b: Seq<AnimeBroadcast>,
    items: Seq<AnimeListJsonView>,
    year: i32,
    season: i32,
)
    ensures
        ingest_series_fold(ingest_series_fold(s, items), items) == ingest_series_fold(s, items),
        ingest_series_count(ingest_series_fold(s, items), items) == 0,
        ingest_broadcast_fold(ingest_broadcast_fold(b, items, year, season), items, year, season)
            == ingest_broadcast_fold(b, items, year, season),
{
    lemma_series_fold_has(s, items);
    lemma_series_fold_noop(ingest_series_fold(s, items), items);
    lemma_broadcast_fold_has(b, items, year, season);
    lemma_broadcast_fold_noop(ingest_broadcast_fold(b, items, year, season), items, year, season);
}

} // verus!
