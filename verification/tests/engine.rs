use auto_anime::catalog::Catalog;
use auto_anime::models::{
    AnimeListJson, AnimeSeedJson, AnimeSubgroupJson, BroadcastRequestJson, ClientError,
    ClientLookup, EngineError, ScrapeError, TorrentInfo,
};

fn series_item(mikan_id: i32, name: &str) -> AnimeListJson {
    AnimeListJson {
        mikan_id,
        anime_name: name.to_string(),
        img_url: format!("/images/Bangumi/202310/{}.jpg", name),
        update_day: 3,
        anime_type: 0,
        subscribe_status: 0,
    }
}

fn seed_item(url: &str, mikan_id: i32, subgroup_id: i32, episode: i32) -> AnimeSeedJson {
    AnimeSeedJson {
        mikan_id,
        subgroup_id,
        episode,
        seed_name: format!("seed {}", url),
        seed_url: url.to_string(),
        seed_status: 0,
        seed_size: "128MB".to_string(),
    }
}

fn subgroup_item(subgroup_id: i32, name: &str) -> AnimeSubgroupJson {
    AnimeSubgroupJson {
        subgroup_id,
        subgroup_name: name.to_string(),
    }
}

fn torrent_info(state: &str) -> TorrentInfo {
    TorrentInfo {
        state: state.to_string(),
        total_size: 1000,
        downloaded_size: 250,
        eta_seconds: 90,
    }
}

#[test]
fn ingest_broadcast_batch_inserts_new_series_with_defaults() {
    let mut c = Catalog::new();
    let req = BroadcastRequestJson { year: 2023, season: 4 };
    let items = vec![series_item(100, "X"), series_item(101, "Y")];
    let inserted = c.ingest_broadcast_batch(&req, &items);
    assert_eq!(inserted, 2);
    assert_eq!(c.anime_list.len(), 2);
    assert_eq!(c.anime_broadcast.len(), 2);
    let row = &c.anime_list[0];
    assert_eq!(row.mikan_id, 100);
    assert_eq!(row.anime_name, "X");
    assert_eq!(row.subscribe_status, 0);
    assert_eq!(row.anime_status, -1);
    assert_eq!(row.total_episodes, -1);
    assert_eq!(row.new_finished_episode, 0);
}

#[test]
fn ingest_broadcast_batch_twice_is_idempotent() {
    let mut c = Catalog::new();
    let req = BroadcastRequestJson { year: 2023, season: 4 };
    let items = vec![series_item(100, "X"), series_item(101, "Y"), series_item(100, "X")];
    let first = c.ingest_broadcast_batch(&req, &items);
    assert_eq!(first, 2);
    let series_after_first = c.anime_list.clone();
    let broadcasts_after_first = c.anime_broadcast.clone();
    let second = c.ingest_broadcast_batch(&req, &items);
    assert_eq!(second, 0);
    assert_eq!(c.anime_list, series_after_first);
    assert_eq!(c.anime_broadcast, broadcasts_after_first);
}

#[test]
fn ingest_broadcast_batch_does_not_clobber_user_edits() {
    let mut c = Catalog::new();
    let req = BroadcastRequestJson { year: 2023, season: 4 };
    c.ingest_broadcast_batch(&req, &vec![series_item(100, "X")]);
    assert!(matches!(c.toggle_subscribe_status(100), Ok(())));
    assert_eq!(c.anime_list[0].subscribe_status, 1);
    c.ingest_broadcast_batch(&req, &vec![series_item(100, "X")]);
    assert_eq!(c.anime_list[0].subscribe_status, 1);
}

#[test]
fn ingest_seed_batch_aggregates_partial_failures() {
    let mut c = Catalog::new();
    let subgroups = vec![
        subgroup_item(1, "a"),
        subgroup_item(2, "b"),
        subgroup_item(3, "c"),
        subgroup_item(4, "d"),
        subgroup_item(5, "e"),
    ];
    let fetches: Vec<Result<Vec<AnimeSeedJson>, ScrapeError>> = vec![
        Ok(vec![seed_item("u1", 100, 1, 1)]),
        Err(ScrapeError::Transient),
        Ok(vec![seed_item("u2", 100, 3, 2), seed_item("u3", 100, 3, 3)]),
        Err(ScrapeError::Transient),
        Ok(vec![seed_item("u4", 100, 5, 4)]),
    ];
    let inserted = c.ingest_seed_batch(&subgroups, &fetches);
    assert_eq!(inserted, 4);
    assert_eq!(c.anime_seed.len(), 4);
    assert_eq!(c.anime_subgroup.len(), 5);
    let urls: Vec<&str> = c.anime_seed.iter().map(|s| s.seed_url.as_str()).collect();
    assert_eq!(urls, vec!["u1", "u2", "u3", "u4"]);
}

#[test]
fn ingest_seed_batch_deduplicates_by_seed_url() {
    let mut c = Catalog::new();
    let subgroups = vec![subgroup_item(1, "a")];
    let fetches: Vec<Result<Vec<AnimeSeedJson>, ScrapeError>> =
        vec![Ok(vec![seed_item("u1", 100, 1, 1), seed_item("u1", 100, 1, 1)])];
    let inserted = c.ingest_seed_batch(&subgroups, &fetches);
    assert_eq!(inserted, 1);
    assert_eq!(c.anime_seed.len(), 1);
    let again = c.ingest_seed_batch(&subgroups, &fetches);
    assert_eq!(again, 0);
    assert_eq!(c.anime_seed.len(), 1);
}

#[test]
fn bulk_insert_seeds_leaves_existing_rows_untouched() {
    let mut c = Catalog::new();
    c.bulk_insert_seeds(&vec![seed_item("u1", 100, 1, 1)]);
    c.update_seed_status(&"u1".to_string(), 1);
    let inserted = c.bulk_insert_seeds(&vec![seed_item("u1", 100, 1, 1), seed_item("u2", 100, 1, 2)]);
    assert_eq!(inserted, 1);
    assert_eq!(c.anime_seed[0].seed_status, 1);
    assert_eq!(c.anime_seed.len(), 2);
}

#[test]
fn create_task_from_seed_claims_and_records() {
    let mut c = Catalog::new();
    c.bulk_insert_seeds(&vec![seed_item("u1", 100, 5, 7)]);
    let seed = c.anime_seed[0].clone();
    let r = c.create_task_from_seed(&seed, &Ok(()));
    assert_eq!(r, Ok(true));
    assert_eq!(c.anime_seed[0].seed_status, 1);
    assert_eq!(c.anime_task.len(), 1);
    let task = &c.anime_task[0];
    assert_eq!(task.mikan_id, 100);
    assert_eq!(task.episode, 7);
    assert_eq!(task.torrent_name, seed.seed_name);
    assert_eq!(task.qb_task_status, 0);
}

#[test]
fn create_task_from_seed_twice_keeps_one_task() {
    let mut c = Catalog::new();
    c.bulk_insert_seeds(&vec![seed_item("u1", 100, 5, 7)]);
    let seed = c.anime_seed[0].clone();
    assert_eq!(c.create_task_from_seed(&seed, &Ok(())), Ok(true));
    let tasks_after_first = c.anime_task.clone();
    let second = c.create_task_from_seed(&seed, &Ok(()));
    assert_eq!(second, Ok(false));
    assert_eq!(c.anime_task, tasks_after_first);
    let count = c
        .anime_task
        .iter()
        .filter(|t| t.torrent_name == seed.seed_name)
        .count();
    assert_eq!(count, 1);
}

#[test]
fn create_task_from_seed_submission_failure_keeps_claim() {
    let mut c = Catalog::new();
    c.bulk_insert_seeds(&vec![seed_item("u1", 100, 5, 7)]);
    let seed = c.anime_seed[0].clone();
    let r = c.create_task_from_seed(&seed, &Err(ClientError::Unreachable));
    assert_eq!(r, Err(EngineError::ExternalUnavailable));
    assert_eq!(c.anime_seed[0].seed_status, 1);
    assert_eq!(c.anime_task.len(), 0);
    let retry = c.create_task_from_seed(&seed, &Ok(()));
    assert_eq!(retry, Ok(true));
    assert_eq!(c.anime_task.len(), 1);
}

#[test]
fn create_task_from_seed_maps_each_client_error() {
    let mut c = Catalog::new();
    c.bulk_insert_seeds(&vec![seed_item("u1", 100, 5, 7)]);
    let seed = c.anime_seed[0].clone();
    assert_eq!(
        c.create_task_from_seed(&seed, &Err(ClientError::Unreachable)),
        Err(EngineError::ExternalUnavailable)
    );
    assert_eq!(
        c.create_task_from_seed(&seed, &Err(ClientError::NotFound)),
        Err(EngineError::ExternalNotFound)
    );
    assert_eq!(
        c.create_task_from_seed(&seed, &Err(ClientError::Malformed)),
        Err(EngineError::ExternalUnavailable)
    );
    assert_eq!(c.anime_task.len(), 0);
}

#[test]
fn reconciler_merges_open_tasks_with_live_status() {
    let mut c = Catalog::new();
    let req = BroadcastRequestJson { year: 2023, season: 4 };
    c.ingest_broadcast_batch(&req, &vec![series_item(100, "X")]);
    c.bulk_insert_seeds(&vec![seed_item("u1", 100, 5, 7)]);
    let seed = c.anime_seed[0].clone();
    c.create_task_from_seed(&seed, &Ok(())).unwrap();
    let lookups = vec![ClientLookup::Found(torrent_info("downloading"))];
    let r = c.get_qb_download_progress(&lookups).unwrap();
    assert_eq!(r.len(), 1);
    assert_eq!(r[0].mikan_id, 100);
    assert_eq!(r[0].anime_name, "X");
    assert_eq!(r[0].episode, 7);
    assert_eq!(r[0].torrent_name, seed.seed_name);
    assert_eq!(r[0].qb_info.state, "downloading");
    assert_eq!(r[0].qb_info.downloaded_size, 250);
}

#[test]
fn reconciler_skips_completed_tasks() {
    let mut c = Catalog::new();
    let req = BroadcastRequestJson { year: 2023, season: 4 };
    c.ingest_broadcast_batch(&req, &vec![series_item(100, "X")]);
    c.bulk_insert_seeds(&vec![seed_item("u1", 100, 5, 7)]);
    let seed = c.anime_seed[0].clone();
    c.create_task_from_seed(&seed, &Ok(())).unwrap();
    c.anime_task[0].qb_task_status = 1;
    assert_eq!(c.open_tasks().len(), 0);
    let r = c.get_qb_download_progress(&vec![]).unwrap();
    assert_eq!(r.len(), 0);
}

#[test]
fn reconciler_fails_whole_call_on_one_unreachable_lookup() {
    let mut c = Catalog::new();
    let req = BroadcastRequestJson { year: 2023, season: 4 };
    c.ingest_broadcast_batch(&req, &vec![series_item(100, "X"), series_item(101, "Y")]);
    c.bulk_insert_seeds(&vec![seed_item("u1", 100, 5, 7), seed_item("u2", 101, 5, 8)]);
    let s1 = c.anime_seed[0].clone();
    let s2 = c.anime_seed[1].clone();
    c.create_task_from_seed(&s1, &Ok(())).unwrap();
    c.create_task_from_seed(&s2, &Ok(())).unwrap();
    let lookups = vec![
        ClientLookup::Found(torrent_info("downloading")),
        ClientLookup::Unreachable,
    ];
    let r = c.get_qb_download_progress(&lookups);
    assert_eq!(r, Err(EngineError::ExternalUnavailable));
}

#[test]
fn reconciler_reports_missing_torrent_distinctly() {
    let mut c = Catalog::new();
    let req = BroadcastRequestJson { year: 2023, season: 4 };
    c.ingest_broadcast_batch(&req, &vec![series_item(100, "X")]);
    c.bulk_insert_seeds(&vec![seed_item("u1", 100, 5, 7)]);
    let seed = c.anime_seed[0].clone();
    c.create_task_from_seed(&seed, &Ok(())).unwrap();
    let r = c.get_qb_download_progress(&vec![ClientLookup::Missing]);
    assert_eq!(r, Err(EngineError::ExternalNotFound));
}

#[test]
fn reconciler_reports_vanished_series_as_not_found() {
    let mut c = Catalog::new();
    c.bulk_insert_seeds(&vec![seed_item("u1", 100, 5, 7)]);
    let seed = c.anime_seed[0].clone();
    c.create_task_from_seed(&seed, &Ok(())).unwrap();
    let r = c.get_qb_download_progress(&vec![ClientLookup::Found(torrent_info("stalled"))]);
    assert_eq!(r, Err(EngineError::NotFound));
}

#[test]
fn end_to_end_ingest_then_download_then_progress() {
    let mut c = Catalog::new();
    let req = BroadcastRequestJson { year: 2023, season: 4 };
    c.ingest_broadcast_batch(&req, &vec![series_item(100, "X")]);
    let fetches: Vec<Result<Vec<AnimeSeedJson>, ScrapeError>> =
        vec![Ok(vec![seed_item("u1", 100, 5, 1)])];
    c.ingest_seed_batch(&vec![subgroup_item(5, "group")], &fetches);
    assert_eq!(c.anime_seed[0].seed_status, 0);
    let seed = c.anime_seed[0].clone();
    c.create_task_from_seed(&seed, &Ok(())).unwrap();
    assert_eq!(c.anime_seed[0].seed_status, 1);
    let open = c.open_tasks();
    assert_eq!(open.len(), 1);
    assert_eq!(open[0].qb_task_status, 0);
    let r = c
        .get_qb_download_progress(&vec![ClientLookup::Found(torrent_info("uploading"))])
        .unwrap();
    assert_eq!(r.len(), 1);
    assert_eq!(r[0].anime_name, "X");
}
