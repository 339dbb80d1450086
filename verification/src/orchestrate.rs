//! Turning a user-selected seed into a download task.
//!
//! The sequence is the one critical section of the system: mark the seed
//! claimed in the store, submit its locator to the download client, then
//! record a task row keyed by the torrent locator (derived from the
//! seed's display name). The client call is I/O and happens outside; its
//! verdict is handed in, and the state transition here is exact for
//! either verdict. On failure the claim is deliberately not rolled back:
//! the call is safe to retry because re-submission is harmless and the
//! task insert de-duplicates by locator.

use vstd::prelude::*;

use crate::catalog::{
    has_task, seeds_with_status, task_names_unique, task_step, Catalog,
};
use crate::models::{AnimeSeed, AnimeTaskView, ClientError, EngineError};

verus! {

/// How a download-client submission failure surfaces in the engine's
/// taxonomy: an unreachable client is transient; a locator the client
/// does not know is the distinct not-found kind; a locator the client
/// rejects is surfaced as the same retryable external failure an
/// unreachable client is.
pub open spec fn submit_error_of(e: ClientError) -> EngineError {
    match e {
        ClientError::Unreachable => EngineError::ExternalUnavailable,
        ClientError::NotFound => EngineError::ExternalNotFound,
        ClientError::Malformed => EngineError::ExternalUnavailable,
    }
}

/// Maps a submission failure to the engine's taxonomy.
pub fn map_client_error(e: ClientError) -> (r: EngineError)
    ensures
        r == submit_error_of(e),
{
    match e {
        ClientError::Unreachable => EngineError::ExternalUnavailable,
        ClientError::NotFound => EngineError::ExternalNotFound,
        ClientError::Malformed => EngineError::ExternalUnavailable,
    }
}

/// How many task rows carry the locator `name`.
pub open spec fn task_count_for(t: Seq<AnimeTaskView>, name: Seq<char>) -> nat
    decreases t.len(),
{
    if t.len() == 0 {
        0
    } else {
        task_count_for(t.drop_last(), name) + if t.last().torrent_name == name {
            1nat
        } else {
            0nat
        }
    }
}

/// A locator absent from the table is counted zero times.
pub proof fn lemma_absent_task_count_zero(t: Seq<AnimeTaskView>, name: Seq<char>)
    requires
        !has_task(t, name),
    ensures
        task_count_for(t, name) == 0,
    decreases t.len(),
{
    if t.len() > 0 {
        if has_task(t.drop_last(), name) {
            let i = choose|i: int| 0 <= i < t.len() - 1 && t.drop_last()[i].torrent_name == name;
            assert(t[i].torrent_name == name);
        }
        lemma_absent_task_count_zero(t.drop_last(), name);
        assert(t[t.len() - 1] == t.last());
    }
}

/// With unique locators, a locator that is present is counted exactly
/// once.
pub proof fn lemma_unique_task_count_one(t: Seq<AnimeTaskView>, name: Seq<char>)
    requires
        task_names_unique(t),
        has_task(t, name),
    ensures
        task_count_for(t, name) == 1,
    decreases t.len(),
{
    let t0 = t.drop_last();
    if t.last().torrent_name == name {
        if has_task(t0, name) {
            let i = choose|i: int| 0 <= i < t0.len() && t0[i].torrent_name == name;
            assert(t[i].torrent_name != t[t.len() - 1].torrent_name);
            assert(false);
        }
        lemma_absent_task_count_zero(t0, name);
    } else {
        let i = choose|i: int| 0 <= i < t.len() && t[i].torrent_name == name;
        assert(t0[i].torrent_name == name);
        lemma_unique_task_count_one(t0, name);
    }
}

/// At-most-one-task: recording a locator a second time changes nothing,
/// and the well-formed table then holds exactly one row for it.
pub proof fn lemma_at_most_one_task(t: Seq<AnimeTaskView>, id: i32, episode: i32, name: Seq<char>)
    requires
        task_names_unique(t),
    ensures
        task_step(task_step(t, id, episode, name), id, episode, name) == task_step(
            t,
            id,
            episode,
            name,
        ),
        has_task(task_step(t, id, episode, name), name),
        task_names_unique(task_step(t, id, episode, name)),
        task_count_for(task_step(t, id, episode, name), name) == 1,
{
    let r = task_step(t, id, episode, name);
    if !has_task(t, name) {
        assert(r[t.len() as int].torrent_name == name);
        assert forall|i: int, j: int|
            0 <= i < j < r.len() implies r[i].torrent_name != r[j].torrent_name by {
            if j < t.len() {
                assert(t[i].torrent_name != t[j].torrent_name);
            } else {
                assert(!(t[i].torrent_name == name));
            }
        }
    }
    lemma_unique_task_count_one(r, name);
}

impl Catalog {
    /// The full orchestration step for one user-selected seed, with the
    /// download client's verdict on submitting the seed's source locator
    /// handed in as `submission`.
    ///
    /// Whatever the verdict, the seed is marked claimed and stays so: the
    /// claim is not rolled back on failure, so the caller must not assume
    /// the seed is still pending after an error. On a successful
    /// submission an open task row keyed by the locator (the seed's
    /// display name) is recorded unless one already exists; either way
    /// the call succeeds, reporting whether a row was inserted. On a
    /// failed submission no task row is touched and the mapped failure is
    /// returned.
    pub fn create_task_from_seed(&mut self, seed: &AnimeSeed, submission: &Result<
        (),
        ClientError,
    >) -> (r: Result<bool, EngineError>)
        requires
            old(self).wf(),
        ensures
            final(self).wf(),
            final(self).seeds() == seeds_with_status(old(self).seeds(), seed.seed_url@, 1),
            match submission {
                Ok(_) => final(self).tasks() == task_step(
                    old(self).tasks(),
                    seed.mikan_id,
                    seed.episode,
                    seed.seed_name@,
                ) && r == Ok::<bool, EngineError>(!has_task(old(self).tasks(), seed.seed_name@)),
                Err(e) => final(self).tasks() == old(self).tasks() && r == Err::<
                    bool,
                    EngineError,
                >(submit_error_of(*e)),
            },
            final(self).series() == old(self).series(),
            final(self).broadcasts() == old(self).broadcasts(),
            final(self).subgroups() == old(self).subgroups(),
    {
        self.update_seed_status(&seed.seed_url, 1);
        match submission {
            Ok(_) => {
                let inserted = self.insert_task_if_absent(
                    seed.mikan_id,
                    seed.episode,
                    &seed.seed_name,
                );
                Ok(inserted)
            },
            Err(e) => Err(map_client_error(*e)),
        }
    }
}

} // verus!
