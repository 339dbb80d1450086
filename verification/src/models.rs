//! Plain data records for the catalog entities and for the values exchanged
//! with the excluded presentation layer.
//!
//! Statuses are small closed integer codes, kept as the storage layer keeps
//! them: a subscription flag is `0` (unsubscribed) or `1` (subscribed); a
//! seed status is `0` (pending) or `1` (claimed); a task status is `0`
//! (open) or `1` (complete); a series lifecycle status is `-1` (unknown),
//! `0` (ongoing) or `1` (finished); `-1` is the sentinel for an unknown
//! episode total.

use vstd::prelude::*;

verus! {

/// A tracked series. Identity: `mikan_id` (the natural key from the source
/// site).
#[derive(Debug, PartialEq, Eq)]
pub struct AnimeList {
    pub mikan_id: i32,
    pub anime_name: String,
    pub img_url: String,
    pub update_day: i32,
    pub anime_type: i32,
    pub subscribe_status: i32,
    pub anime_status: i32,
    pub total_episodes: i32,
    pub new_finished_episode: i32,
    pub bangumi_id: i32,
    pub bangumi_rank: String,
    pub bangumi_summary: String,
    pub website: String,
}

impl Clone for AnimeList {
    fn clone(&self) -> (r: Self)
        ensures
            r == *self,
    {
        AnimeList {
            mikan_id: self.mikan_id,
            anime_name: self.anime_name.clone(),
            img_url: self.img_url.clone(),
            update_day: self.update_day,
            anime_type: self.anime_type,
            subscribe_status: self.subscribe_status,
            anime_status: self.anime_status,
            total_episodes: self.total_episodes,
            new_finished_episode: self.new_finished_episode,
            bangumi_id: self.bangumi_id,
            bangumi_rank: self.bangumi_rank.clone(),
            bangumi_summary: self.bangumi_summary.clone(),
            website: self.website.clone(),
        }
    }
}

/// An airing record. Identity: the composite (`mikan_id`, `year`, `season`).
#[derive(Clone, Copy, Debug, PartialEq, Eq, Structural)]
pub struct AnimeBroadcast {
    pub mikan_id: i32,
    pub year: i32,
    pub season: i32,
}

/// A release subgroup. Identity: `subgroup_id`.
#[derive(Debug, PartialEq, Eq)]
pub struct AnimeSubgroup {
    pub subgroup_id: i32,
    pub subgroup_name: String,
}

impl Clone for AnimeSubgroup {
    fn clone(&self) -> (r: Self)
        ensures
            r == *self,
    {
        AnimeSubgroup { subgroup_id: self.subgroup_id, subgroup_name: self.subgroup_name.clone() }
    }
}

/// A discovered torrent candidate. Identity: `seed_url`.
#[derive(Debug, PartialEq, Eq)]
pub struct AnimeSeed {
    pub mikan_id: i32,
    pub subgroup_id: i32,
    pub episode: i32,
    pub seed_name: String,
    pub seed_url: String,
    pub seed_status: i32,
    pub seed_size: String,
}

impl Clone for AnimeSeed {
    fn clone(&self) -> (r: Self)
        ensures
            r == *self,
    {
        AnimeSeed {
            mikan_id: self.mikan_id,
            subgroup_id: self.subgroup_id,
            episode: self.episode,
            seed_name: self.seed_name.clone(),
            seed_url: self.seed_url.clone(),
            seed_status: self.seed_status,
            seed_size: self.seed_size.clone(),
        }
    }
}

/// The persisted record binding a claimed seed to a download-client
/// submission. Identity: `torrent_name`, the locator the client is queried
/// by.
#[derive(Debug, PartialEq, Eq)]
pub struct AnimeTask {
    pub mikan_id: i32,
    pub episode: i32,
    pub torrent_name: String,
    pub qb_task_status: i32,
}

impl Clone for AnimeTask {
    fn clone(&self) -> (r: Self)
        ensures
            r == *self,
    {
        AnimeTask {
            mikan_id: self.mikan_id,
            episode: self.episode,
            torrent_name: self.torrent_name.clone(),
            qb_task_status: self.qb_task_status,
        }
    }
}

/// A series record as a scraped season listing hands it in.
#[derive(Debug, PartialEq, Eq)]
pub struct AnimeListJson {
    pub mikan_id: i32,
    pub anime_name: String,
    pub img_url: String,
    pub update_day: i32,
    pub anime_type: i32,
    pub subscribe_status: i32,
}

impl Clone for AnimeListJson {
    fn clone(&self) -> (r: Self)
        ensures
            r == *self,
    {
        AnimeListJson {
            mikan_id: self.mikan_id,
            anime_name: self.anime_name.clone(),
            img_url: self.img_url.clone(),
            update_day: self.update_day,
            anime_type: self.anime_type,
            subscribe_status: self.subscribe_status,
        }
    }
}

/// An airing record to ingest.
#[derive(Clone, Copy, Debug, PartialEq, Eq, Structural)]
pub struct AnimeBroadcastJson {
    pub mikan_id: i32,
    pub year: i32,
    pub season: i32,
}

/// A subgroup record to ingest.
#[derive(Debug, PartialEq, Eq)]
pub struct AnimeSubgroupJson {
    pub subgroup_id: i32,
    pub subgroup_name: String,
}

impl Clone for AnimeSubgroupJson {
    fn clone(&self) -> (r: Self)
        ensures
            r == *self,
    {
        AnimeSubgroupJson {
            subgroup_id: self.subgroup_id,
            subgroup_name: self.subgroup_name.clone(),
        }
    }
}

/// A seed record to ingest.
#[derive(Debug, PartialEq, Eq)]
pub struct AnimeSeedJson {
    pub mikan_id: i32,
    pub subgroup_id: i32,
    pub episode: i32,
    pub seed_name: String,
    pub seed_url: String,
    pub seed_status: i32,
    pub seed_size: String,
}

impl Clone for AnimeSeedJson {
    fn clone(&self) -> (r: Self)
        ensures
            r == *self,
    {
        AnimeSeedJson {
            mikan_id: self.mikan_id,
            subgroup_id: self.subgroup_id,
            episode: self.episode,
            seed_name: self.seed_name.clone(),
            seed_url: self.seed_url.clone(),
            seed_status: self.seed_status,
            seed_size: self.seed_size.clone(),
        }
    }
}

/// External-rating metadata for a series.
#[derive(Debug, PartialEq, Eq)]
pub struct BangumiInfoJson {
    pub bangumi_id: i32,
    pub bangumi_rank: String,
    pub bangumi_summary: String,
    pub website: String,
    pub total_episodes: i32,
}

impl Clone for BangumiInfoJson {
    fn clone(&self) -> (r: Self)
        ensures
            r == *self,
    {
        BangumiInfoJson {
            bangumi_id: self.bangumi_id,
            bangumi_rank: self.bangumi_rank.clone(),
            bangumi_summary: self.bangumi_summary.clone(),
            website: self.website.clone(),
            total_episodes: self.total_episodes,
        }
    }
}

/// Subscription request body from the presentation layer.
#[derive(Clone, Copy, Debug, PartialEq, Eq, Structural)]
pub struct AnimeSubscribeRequestJson {
    pub mikan_id: i32,
    pub subscribe_status: i32,
}

/// Season request body from the presentation layer.
#[derive(Clone, Copy, Debug, PartialEq, Eq, Structural)]
pub struct BroadcastRequestJson {
    pub year: i32,
    pub season: i32,
}

/// Series request body from the presentation layer.
#[derive(Clone, Copy, Debug, PartialEq, Eq, Structural)]
pub struct AnimeRequestJson {
    pub mikan_id: i32,
}

/// Seed request body from the presentation layer.
#[derive(Debug, PartialEq, Eq)]
pub struct SeedRequestJson {
    pub mikan_id: i32,
    pub subgroup_id: i32,
    pub episode: i32,
    pub seed_name: String,
    pub seed_url: String,
    pub seed_status: i32,
    pub seed_size: String,
}

impl Clone for SeedRequestJson {
    fn clone(&self) -> (r: Self)
        ensures
            r == *self,
    {
        SeedRequestJson {
            mikan_id: self.mikan_id,
            subgroup_id: self.subgroup_id,
            episode: self.episode,
            seed_name: self.seed_name.clone(),
            seed_url: self.seed_url.clone(),
            seed_status: self.seed_status,
            seed_size: self.seed_size.clone(),
        }
    }
}

/// Live torrent status as the download client reports it. Progress is kept
/// as plain byte counters so the caller can render a ratio.
#[derive(Debug, PartialEq, Eq)]
pub struct TorrentInfo {
    pub state: String,
    pub total_size: i64,
    pub downloaded_size: i64,
    pub eta_seconds: i64,
}

impl Clone for TorrentInfo {
    fn clone(&self) -> (r: Self)
        ensures
            r == *self,
    {
        TorrentInfo {
            state: self.state.clone(),
            total_size: self.total_size,
            downloaded_size: self.downloaded_size,
            eta_seconds: self.eta_seconds,
        }
    }
}

/// One row of the merged progress view: a persisted open task joined with
/// the client's live status.
#[derive(Debug, PartialEq, Eq)]
pub struct TaskQbInfo {
    pub mikan_id: i32,
    pub anime_name: String,
    pub episode: i32,
    pub torrent_name: String,
    pub qb_info: TorrentInfo,
}

impl Clone for TaskQbInfo {
    fn clone(&self) -> (r: Self)
        ensures
            r == *self,
    {
        TaskQbInfo {
            mikan_id: self.mikan_id,
            anime_name: self.anime_name.clone(),
            episode: self.episode,
            torrent_name: self.torrent_name.clone(),
            qb_info: self.qb_info.clone(),
        }
    }
}

/// Everything the detail page shows for one series.
#[derive(Debug, PartialEq, Eq)]
pub struct AnimeDetail {
    pub anime_info: AnimeList,
    pub seed_info: Vec<AnimeSeed>,
    pub subgroup_info: Vec<AnimeSubgroup>,
    pub task_info: Vec<AnimeTask>,
}

/// The error taxonomy the engine surfaces to its callers.
#[derive(Clone, Copy, Debug, PartialEq, Eq, Structural)]
pub enum EngineError {
    /// An entity the call needs is absent from the catalog.
    NotFound,
    /// A duplicate natural key was hit where that is an error.
    Conflict,
    /// The scraper or the download client was unreachable or timed out;
    /// transient, the caller may retry.
    ExternalUnavailable,
    /// The download client has no record for a locator; reported distinctly
    /// from `ExternalUnavailable`.
    ExternalNotFound,
    /// A store operation failed; fatal for the enclosing call.
    PersistenceError,
}

/// How a per-subgroup seed fetch against the scraper failed.
#[derive(Clone, Copy, Debug, PartialEq, Eq, Structural)]
pub enum ScrapeError {
    Transient,
    Permanent,
}

/// How a submission to the download client failed.
#[derive(Clone, Copy, Debug, PartialEq, Eq, Structural)]
pub enum ClientError {
    Unreachable,
    NotFound,
    Malformed,
}

/// What a status query for one locator against the download client came
/// back with.
#[derive(Debug, PartialEq, Eq)]
pub enum ClientLookup {
    /// The client knows the locator and reports this status.
    Found(TorrentInfo),
    /// The client has no entry for the locator.
    Missing,
    /// The client could not be reached.
    Unreachable,
}

/// Mathematical value of an [`AnimeList`] row: text fields as character
/// sequences.
#[verifier::ext_equal]
pub ghost struct AnimeListView {
    pub mikan_id: i32,
    pub anime_name: Seq<char>,
    pub img_url: Seq<char>,
    pub update_day: i32,
    pub anime_type: i32,
    pub subscribe_status: i32,
    pub anime_status: i32,
    pub total_episodes: i32,
    pub new_finished_episode: i32,
    pub bangumi_id: i32,
    pub bangumi_rank: Seq<char>,
    pub bangumi_summary: Seq<char>,
    pub website: Seq<char>,
}

impl View for AnimeList {
    type V = AnimeListView;

    open spec fn view(&self) -> AnimeListView {
        AnimeListView {
            mikan_id: self.mikan_id,
            anime_name: self.anime_name@,
            img_url: self.img_url@,
            update_day: self.update_day,
            anime_type: self.anime_type,
            subscribe_status: self.subscribe_status,
            anime_status: self.anime_status,
            total_episodes: self.total_episodes,
            new_finished_episode: self.new_finished_episode,
            bangumi_id: self.bangumi_id,
            bangumi_rank: self.bangumi_rank@,
            bangumi_summary: self.bangumi_summary@,
            website: self.website@,
        }
    }
}

impl DeepView for AnimeList {
    type V = AnimeListView;

    open spec fn deep_view(&self) -> AnimeListView {
        self.view()
    }
}

/// Mathematical value of an [`AnimeSubgroup`] row.
#[verifier::ext_equal]
pub ghost struct AnimeSubgroupView {
    pub subgroup_id: i32,
    pub subgroup_name: Seq<char>,
}

impl View for AnimeSubgroup {
    type V = AnimeSubgroupView;

    open spec fn view(&self) -> AnimeSubgroupView {
        AnimeSubgroupView { subgroup_id: self.subgroup_id, subgroup_name: self.subgroup_name@ }
    }
}

impl DeepView for AnimeSubgroup {
    type V = AnimeSubgroupView;

    open spec fn deep_view(&self) -> AnimeSubgroupView {
        self.view()
    }
}

/// Mathematical value of an [`AnimeSeed`] row.
#[verifier::ext_equal]
pub ghost struct AnimeSeedView {
    pub mikan_id: i32,
    pub subgroup_id: i32,
    pub episode: i32,
    pub seed_name: Seq<char>,
    pub seed_url: Seq<char>,
    pub seed_status: i32,
    pub seed_size: Seq<char>,
}

impl View for AnimeSeed {
    type V = AnimeSeedView;

    open spec fn view(&self) -> AnimeSeedView {
        AnimeSeedView {
            mikan_id: self.mikan_id,
            subgroup_id: self.subgroup_id,
            episode: self.episode,
            seed_name: self.seed_name@,
            seed_url: self.seed_url@,
            seed_status: self.seed_status,
            seed_size: self.seed_size@,
        }
    }
}

impl DeepView for AnimeSeed {
    type V = AnimeSeedView;

    open spec fn deep_view(&self) -> AnimeSeedView {
        self.view()
    }
}

/// Mathematical value of an [`AnimeTask`] row.
#[verifier::ext_equal]
pub ghost struct AnimeTaskView {
    pub mikan_id: i32,
    pub episode: i32,
    pub torrent_name: Seq<char>,
    pub qb_task_status: i32,
}

impl View for AnimeTask {
    type V = AnimeTaskView;

    open spec fn view(&self) -> AnimeTaskView {
        AnimeTaskView {
            mikan_id: self.mikan_id,
            episode: self.episode,
            torrent_name: self.torrent_name@,
            qb_task_status: self.qb_task_status,
        }
    }
}

impl DeepView for AnimeTask {
    type V = AnimeTaskView;

    open spec fn deep_view(&self) -> AnimeTaskView {
        self.view()
    }
}

/// Mathematical value of an [`AnimeListJson`] item.
#[verifier::ext_equal]
pub ghost struct AnimeListJsonView {
    pub mikan_id: i32,
    pub anime_name: Seq<char>,
    pub img_url: Seq<char>,
    pub update_day: i32,
    pub anime_type: i32,
    pub subscribe_status: i32,
}

impl View for AnimeListJson {
    type V = AnimeListJsonView;

    open spec fn view(&self) -> AnimeListJsonView {
        AnimeListJsonView {
            mikan_id: self.mikan_id,
            anime_name: self.anime_name@,
            img_url: self.img_url@,
            update_day: self.update_day,
            anime_type: self.anime_type,
            subscribe_status: self.subscribe_status,
        }
    }
}

impl DeepView for AnimeListJson {
    type V = AnimeListJsonView;

    open spec fn deep_view(&self) -> AnimeListJsonView {
        self.view()
    }
}

/// Mathematical value of an [`AnimeSubgroupJson`] item.
#[verifier::ext_equal]
pub ghost struct AnimeSubgroupJsonView {
    pub subgroup_id: i32,
    pub subgroup_name: Seq<char>,
}

impl View for AnimeSubgroupJson {
    type V = AnimeSubgroupJsonView;

    open spec fn view(&self) -> AnimeSubgroupJsonView {
        AnimeSubgroupJsonView { subgroup_id: self.subgroup_id, subgroup_name: self.subgroup_name@ }
    }
}

impl DeepView for AnimeSubgroupJson {
    type V = AnimeSubgroupJsonView;

    open spec fn deep_view(&self) -> AnimeSubgroupJsonView {
        self.view()
    }
}

/// Mathematical value of an [`AnimeSeedJson`] item.
#[verifier::ext_equal]
pub ghost struct AnimeSeedJsonView {
    pub mikan_id: i32,
    pub subgroup_id: i32,
    pub episode: i32,
    pub seed_name: Seq<char>,
    pub seed_url: Seq<char>,
    pub seed_status: i32,
    pub seed_size: Seq<char>,
}

impl View for AnimeSeedJson {
    type V = AnimeSeedJsonView;

    open spec fn view(&self) -> AnimeSeedJsonView {
        AnimeSeedJsonView {
            mikan_id: self.mikan_id,
            subgroup_id: self.subgroup_id,
            episode: self.episode,
            seed_name: self.seed_name@,
            seed_url: self.seed_url@,
            seed_status: self.seed_status,
            seed_size: self.seed_size@,
        }
    }
}

impl DeepView for AnimeSeedJson {
    type V = AnimeSeedJsonView;

    open spec fn deep_view(&self) -> AnimeSeedJsonView {
        self.view()
    }
}

/// Mathematical value of a [`BangumiInfoJson`] item.
#[verifier::ext_equal]
pub ghost struct BangumiInfoJsonView {
    pub bangumi_id: i32,
    pub bangumi_rank: Seq<char>,
    pub bangumi_summary: Seq<char>,
    pub website: Seq<char>,
    pub total_episodes: i32,
}

impl View for BangumiInfoJson {
    type V = BangumiInfoJsonView;

    open spec fn view(&self) -> BangumiInfoJsonView {
        BangumiInfoJsonView {
            bangumi_id: self.bangumi_id,
            bangumi_rank: self.bangumi_rank@,
            bangumi_summary: self.bangumi_summary@,
            website: self.website@,
            total_episodes: self.total_episodes,
        }
    }
}

/// Mathematical value of a [`TorrentInfo`] status.
#[verifier::ext_equal]
pub ghost struct TorrentInfoView {
    pub state: Seq<char>,
    pub total_size: i64,
    pub downloaded_size: i64,
    pub eta_seconds: i64,
}

impl View for TorrentInfo {
    type V = TorrentInfoView;

    open spec fn view(&self) -> TorrentInfoView {
        TorrentInfoView {
            state: self.state@,
            total_size: self.total_size,
            downloaded_size: self.downloaded_size,
            eta_seconds: self.eta_seconds,
        }
    }
}

impl DeepView for TorrentInfo {
    type V = TorrentInfoView;

    open spec fn deep_view(&self) -> TorrentInfoView {
        self.view()
    }
}

/// Mathematical value of a [`TaskQbInfo`] progress row.
#[verifier::ext_equal]
pub ghost struct TaskQbInfoView {
    pub mikan_id: i32,
    pub anime_name: Seq<char>,
    pub episode: i32,
    pub torrent_name: Seq<char>,
    pub qb_info: TorrentInfoView,
}

impl View for TaskQbInfo {
    type V = TaskQbInfoView;

    open spec fn view(&self) -> TaskQbInfoView {
        TaskQbInfoView {
            mikan_id: self.mikan_id,
            anime_name: self.anime_name@,
            episode: self.episode,
            torrent_name: self.torrent_name@,
            qb_info: self.qb_info@,
        }
    }
}

impl DeepView for TaskQbInfo {
    type V = TaskQbInfoView;

    open spec fn deep_view(&self) -> TaskQbInfoView {
        self.view()
    }
}

/// Converts scraped subgroup records to ingestible rows, field for field.
pub fn convert_spider_subgroup_to_anime_subgroup(spider_vec: Vec<crate::scraper::Subgroup>) -> (r:
    Vec<AnimeSubgroupJson>)
    ensures
        r@.len() == spider_vec@.len(),
        forall|i: int|
            0 <= i < r@.len() ==> r@[i].subgroup_id == spider_vec@[i].subgroup_id
                && r@[i].subgroup_name == spider_vec@[i].subgroup_name,
{
    let mut r: Vec<AnimeSubgroupJson> = Vec::new();
    let n = spider_vec.len();
    for k in 0..n
        invariant
            n == spider_vec@.len(),
            r@.len() == k,
            forall|i: int|
                0 <= i < k ==> r@[i].subgroup_id == spider_vec@[i].subgroup_id
                    && r@[i].subgroup_name == spider_vec@[i].subgroup_name,
    {
        let s = &spider_vec[k];
        r.push(AnimeSubgroupJson {
            subgroup_name: s.subgroup_name.clone(),
            subgroup_id: s.subgroup_id,
        });
    }
    r
}

/// Converts scraped seed records to ingestible rows, field for field.
pub fn convert_spider_seed_to_anime_seed(spider_vec: Vec<crate::scraper::Seed>) -> (r: Vec<
    AnimeSeedJson>)
    ensures
        r@.len() == spider_vec@.len(),
        forall|i: int|
            0 <= i < r@.len() ==> r@[i].mikan_id == spider_vec@[i].mikan_id
                && r@[i].subgroup_id == spider_vec@[i].subgroup_id
                && r@[i].episode == spider_vec@[i].episode
                && r@[i].seed_name == spider_vec@[i].seed_name
                && r@[i].seed_url == spider_vec@[i].seed_url
                && r@[i].seed_status == spider_vec@[i].seed_status
                && r@[i].seed_size == spider_vec@[i].seed_size,
{
    let mut r: Vec<AnimeSeedJson> = Vec::new();
    let n = spider_vec.len();
    for k in 0..n
        invariant
            n == spider_vec@.len(),
            r@.len() == k,
            forall|i: int|
                0 <= i < k ==> r@[i].mikan_id == spider_vec@[i].mikan_id
                    && r@[i].subgroup_id == spider_vec@[i].subgroup_id
                    && r@[i].episode == spider_vec@[i].episode
                    && r@[i].seed_name == spider_vec@[i].seed_name
                    && r@[i].seed_url == spider_vec@[i].seed_url
                    && r@[i].seed_status == spider_vec@[i].seed_status
                    && r@[i].seed_size == spider_vec@[i].seed_size,
    {
        let s = &spider_vec[k];
        r.push(AnimeSeedJson {
            mikan_id: s.mikan_id,
            subgroup_id: s.subgroup_id,
            episode: s.episode,
            seed_name: s.seed_name.clone(),
            seed_url: s.seed_url.clone(),
            seed_status: s.seed_status,
            seed_size: s.seed_size.clone(),
        });
    }
    r
}

/// Converts a seed request body to the catalog's seed record, field for
/// field.
pub fn convert_json_seed_to_anime_seed(sj: SeedRequestJson) -> (r: AnimeSeed)
    ensures
        r.mikan_id == sj.mikan_id,
        r.subgroup_id == sj.subgroup_id,
        r.episode == sj.episode,
        r.seed_name == sj.seed_name,
        r.seed_url == sj.seed_url,
        r.seed_status == sj.seed_status,
        r.seed_size == sj.seed_size,
{
    AnimeSeed {
        mikan_id: sj.mikan_id,
        subgroup_id: sj.subgroup_id,
        episode: sj.episode,
        seed_name: sj.seed_name,
        seed_url: sj.seed_url,
        seed_status: sj.seed_status,
        seed_size: sj.seed_size,
    }
}

} // verus!
