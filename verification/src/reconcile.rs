//! The progress reconciler: joining persisted open tasks with live
//! download-client status.
//!
//! The policy is strict by design: progress display must not silently
//! omit a task the user is waiting on, so any single failed lookup fails
//! the whole call. A locator the client does not know surfaces the
//! distinct not-found kind, never a generic failure; a client that could
//! not be reached surfaces the transient kind. Output order is task
//! insertion order.

use vstd::prelude::*;

use crate::catalog::{has_series, lemma_series_at_index, open_tasks_of, series_at, Catalog};
use crate::models::{
    AnimeListView, AnimeTaskView, ClientLookup, EngineError, TaskQbInfo, TaskQbInfoView,
    TorrentInfoView,
};

verus! {

/// The progress row for one open task joined with its live status.
pub open spec fn progress_row(
    animes: Seq<AnimeListView>,
    t: AnimeTaskView,
    info: TorrentInfoView,
) -> TaskQbInfoView {
    TaskQbInfoView {
        mikan_id: t.mikan_id,
        anime_name: series_at(animes, t.mikan_id).anime_name,
        episode: t.episode,
        torrent_name: t.torrent_name,
        qb_info: info,
    }
}

/// The reconciliation verdict from position `k` of the open-task list
/// on: the rows for the remaining tasks, or the first failure in order —
/// an unreachable client, a locator the client does not know, or a task
/// whose series is gone from the catalog.
pub open spec fn reconcile_from(
    animes: Seq<AnimeListView>,
    opens: Seq<AnimeTaskView>,
    lookups: Seq<ClientLookup>,
    k: int,
) -> Result<Seq<TaskQbInfoView>, EngineError>
    decreases opens.len() - k,
{
    if k < 0 || k >= opens.len() || opens.len() != lookups.len() {
        Ok(Seq::empty())
    } else {
        match lookups[k] {
            ClientLookup::Unreachable => Err(EngineError::ExternalUnavailable),
            ClientLookup::Missing => Err(EngineError::ExternalNotFound),
            ClientLookup::Found(info) => if !has_series(animes, opens[k].mikan_id) {
                Err(EngineError::NotFound)
            } else {
                match reconcile_from(animes, opens, lookups, k + 1) {
                    Ok(rest) => Ok(seq![progress_row(animes, opens[k], info@)] + rest),
                    Err(e) => Err(e),
                }
            },
        }
    }
}

/// The whole-call reconciliation verdict.
pub open spec fn reconcile_spec(
    animes: Seq<AnimeListView>,
    opens: Seq<AnimeTaskView>,
    lookups: Seq<ClientLookup>,
) -> Result<Seq<TaskQbInfoView>, EngineError> {
    reconcile_from(animes, opens, lookups, 0)
}

/// Reconciler strictness from position `k` on: one unreachable lookup in
/// the remainder fails the verdict.
proof fn lemma_strict_from(
    animes: Seq<AnimeListView>,
    opens: Seq<AnimeTaskView>,
    lookups: Seq<ClientLookup>,
    k: int,
)
    requires
        opens.len() == lookups.len(),
        0 <= k <= lookups.len(),
        exists|i: int| k <= i < lookups.len() && (lookups[i] is Unreachable),
    ensures
        reconcile_from(animes, opens, lookups, k) is Err,
    decreases lookups.len() - k,
{
    let i = choose|i: int| k <= i < lookups.len() && (lookups[i] is Unreachable);
    if i > k {
        match lookups[k] {
            ClientLookup::Found(info) => {
                if has_series(animes, opens[k].mikan_id) {
                    lemma_strict_from(animes, opens, lookups, k + 1);
                }
            },
            _ => {},
        }
    }
}

/// Reconciler strictness: if any one of the open tasks' lookups found
/// the client unreachable, the whole call reports an error, never a
/// partial list.
pub proof fn lemma_reconciler_strict(
    animes: Seq<AnimeListView>,
    opens: Seq<AnimeTaskView>,
    lookups: Seq<ClientLookup>,
)
    requires
        opens.len() == lookups.len(),
        exists|i: int| 0 <= i < lookups.len() && (lookups[i] is Unreachable),
    ensures
        reconcile_spec(animes, opens, lookups) is Err,
{
    lemma_strict_from(animes, opens, lookups, 0);
}

/// Success from position `k` on: when every remaining lookup found its
/// torrent and every remaining task's series is present, the verdict is
/// the row-per-task list.
proof fn lemma_ok_from(
    animes: Seq<AnimeListView>,
    opens: Seq<AnimeTaskView>,
    lookups: Seq<ClientLookup>,
    k: int,
)
    requires
        opens.len() == lookups.len(),
        0 <= k <= lookups.len(),
        forall|i: int| 0 <= i < lookups.len() ==> lookups[i] is Found,
        forall|i: int| 0 <= i < opens.len() ==> has_series(animes, #[trigger] opens[i].mikan_id),
    ensures
        reconcile_from(animes, opens, lookups, k) is Ok,
        reconcile_from(animes, opens, lookups, k)->Ok_0.len() == lookups.len() - k,
        forall|i: int|
            k <= i < lookups.len() ==> reconcile_from(animes, opens, lookups, k)->Ok_0[i - k]
                == progress_row(animes, opens[i], lookups[i]->Found_0@),
    decreases lookups.len() - k,
{
    if k < lookups.len() {
        lemma_ok_from(animes, opens, lookups, k + 1);
        let rest = reconcile_from(animes, opens, lookups, k + 1)->Ok_0;
        let whole = reconcile_from(animes, opens, lookups, k)->Ok_0;
        assert(whole =~= seq![progress_row(animes, opens[k], lookups[k]->Found_0@)] + rest);
        assert forall|i: int|
            k <= i < lookups.len() implies whole[i - k] == progress_row(
            animes,
            opens[i],
            lookups[i]->Found_0@,
        ) by {
            if i > k {
                assert(whole[i - k] == rest[i - k - 1]);
            }
        }
    }
}

/// When every lookup found its torrent and every open task's series is
/// in the catalog, the call succeeds with exactly one row per open task,
/// in task order.
pub proof fn lemma_reconciler_complete(
    animes: Seq<AnimeListView>,
    opens: Seq<AnimeTaskView>,
    lookups: Seq<ClientLookup>,
)
    requires
        opens.len() == lookups.len(),
        forall|i: int| 0 <= i < lookups.len() ==> lookups[i] is Found,
        forall|i: int| 0 <= i < opens.len() ==> has_series(animes, #[trigger] opens[i].mikan_id),
    ensures
        reconcile_spec(animes, opens, lookups) is Ok,
        reconcile_spec(animes, opens, lookups)->Ok_0.len() == opens.len(),
        forall|i: int|
            0 <= i < opens.len() ==> reconcile_spec(animes, opens, lookups)->Ok_0[i]
                == progress_row(animes, opens[i], lookups[i]->Found_0@),
{
    lemma_ok_from(animes, opens, lookups, 0);
}

impl Catalog {
    /// The merged progress view over every open task, with the client's
    /// per-locator verdicts handed in as `lookups`, one per open task in
    /// task order. Strict: the first failed lookup in order fails the
    /// whole call — `ExternalUnavailable` for an unreachable client,
    /// `ExternalNotFound` for a locator the client does not know, and
    /// `NotFound` for a task whose series is gone from the catalog.
    #[verifier::loop_isolation(false)]
    pub fn get_qb_download_progress(&self, lookups: &Vec<ClientLookup>) -> (r: Result<
        Vec<TaskQbInfo>,
        EngineError,
    >)
        requires
            self.wf(),
            lookups@.len() == open_tasks_of(self.tasks()).len(),
        ensures
            match r {
                Ok(v) => reconcile_spec(self.series(), open_tasks_of(self.tasks()), lookups@)
                    == Ok::<Seq<TaskQbInfoView>, EngineError>(v.deep_view()),
                Err(e) => reconcile_spec(self.series(), open_tasks_of(self.tasks()), lookups@)
                    == Err::<Seq<TaskQbInfoView>, EngineError>(e),
            },
    {
        let opens = self.open_tasks();
        let ghost animes = self.series();
        let ghost odv = opens.deep_view();
        let mut out: Vec<TaskQbInfo> = Vec::new();
        let n = opens.len();
        proof {
            assert(out.deep_view() =~= Seq::<TaskQbInfoView>::empty());
            match reconcile_from(animes, odv, lookups@, 0) {
                Ok(rest) => {
                    assert(out.deep_view() + rest =~= rest);
                },
                Err(_) => {},
            }
        }
        for k in 0..n
            invariant
                n == opens@.len(),
                match reconcile_from(animes, odv, lookups@, k as int) {
                    Ok(rest) => reconcile_from(animes, odv, lookups@, 0) == Ok::<
                        Seq<TaskQbInfoView>,
                        EngineError,
                    >(out.deep_view() + rest),
                    Err(e) => reconcile_from(animes, odv, lookups@, 0) == Err::<
                        Seq<TaskQbInfoView>,
                        EngineError,
                    >(e),
                },
        {
            let t = &opens[k];
            match &lookups[k] {
                ClientLookup::Unreachable => {
                    return Err(EngineError::ExternalUnavailable);
                },
                ClientLookup::Missing => {
                    return Err(EngineError::ExternalNotFound);
                },
                ClientLookup::Found(info) => {
                    match self.find_series_index(t.mikan_id) {
                        None => {
                            return Err(EngineError::NotFound);
                        },
                        Some(i) => {
                            proof {
                                lemma_series_at_index(animes, t.mikan_id, i as int);
                            }
                            let ghost pre = out.deep_view();
                            out.push(
                                TaskQbInfo {
                                    mikan_id: t.mikan_id,
                                    anime_name: self.anime_list[i].anime_name.clone(),
                                    episode: t.episode,
                                    torrent_name: t.torrent_name.clone(),
                                    qb_info: info.clone(),
                                },
                            );
                            proof {
                                let row = progress_row(animes, odv[k as int], info@);
                                assert(out.deep_view() =~= pre.push(row));
                                match reconcile_from(animes, odv, lookups@, k as int + 1) {
                                    Ok(rest) => {
                                        assert(pre.push(row) + rest =~= pre + (seq![row] + rest));
                                    },
                                    Err(_) => {},
                                }
                            }
                        },
                    }
                },
            }
        }
        proof {
            assert(out.deep_view() + Seq::<TaskQbInfoView>::empty() =~= out.deep_view());
        }
        Ok(out)
    }
}

} // verus!
