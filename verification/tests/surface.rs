use auto_anime::catalog::Catalog;
use auto_anime::locator::{get_img_name_from_url, img_name_or_original};
use auto_anime::models::{
    convert_json_seed_to_anime_seed, convert_spider_seed_to_anime_seed,
    convert_spider_subgroup_to_anime_subgroup, AnimeListJson, AnimeSeedJson, BangumiInfoJson,
    BroadcastRequestJson, EngineError, SeedRequestJson,
};
use auto_anime::scraper;

fn listed(mikan_id: i32, name: &str, img_url: &str) -> AnimeListJson {
    AnimeListJson {
        mikan_id,
        anime_name: name.to_string(),
        img_url: img_url.to_string(),
        update_day: 1,
        anime_type: 0,
        subscribe_status: 0,
    }
}

fn seeded(url: &str, mikan_id: i32) -> AnimeSeedJson {
    AnimeSeedJson {
        mikan_id,
        subgroup_id: 5,
        episode: 2,
        seed_name: format!("name {}", url),
        seed_url: url.to_string(),
        seed_status: 0,
        seed_size: "256MB".to_string(),
    }
}

#[test]
fn img_name_from_full_remote_path_is_basename() {
    let r = get_img_name_from_url("/images/Bangumi/202310/69e733eb.jpg");
    assert_eq!(r, Some("69e733eb.jpg".to_string()));
}

#[test]
fn img_name_from_short_path_is_none() {
    assert_eq!(get_img_name_from_url("69e733eb.jpg"), None);
    assert_eq!(get_img_name_from_url("/images/one.jpg"), None);
    assert_eq!(get_img_name_from_url(""), None);
}

#[test]
fn img_name_or_original_passes_malformed_through() {
    let short = "plain.jpg".to_string();
    assert_eq!(img_name_or_original(&short), "plain.jpg");
    let full = "/images/Bangumi/202310/69e733eb.jpg".to_string();
    assert_eq!(img_name_or_original(&full), "69e733eb.jpg");
}

#[test]
fn get_anime_info_normalizes_image_and_reports_missing() {
    let mut c = Catalog::new();
    let req = BroadcastRequestJson { year: 2024, season: 1 };
    c.ingest_broadcast_batch(
        &req,
        &vec![listed(100, "X", "/images/Bangumi/202401/cover.jpg")],
    );
    let info = c.get_anime_info(100).unwrap();
    assert_eq!(info.img_url, "cover.jpg");
    assert_eq!(info.anime_name, "X");
    assert_eq!(c.get_anime_info(999), Err(EngineError::NotFound));
    assert_eq!(c.anime_list[0].img_url, "/images/Bangumi/202401/cover.jpg");
}

#[test]
fn home_view_merges_subscribed_and_task_series() {
    let mut c = Catalog::new();
    let req = BroadcastRequestJson { year: 2024, season: 1 };
    c.ingest_broadcast_batch(
        &req,
        &vec![
            listed(100, "X", "/images/Bangumi/202401/x.jpg"),
            listed(101, "Y", "/images/Bangumi/202401/y.jpg"),
            listed(102, "Z", "/images/Bangumi/202401/z.jpg"),
        ],
    );
    c.toggle_subscribe_status(100).unwrap();
    c.bulk_insert_seeds(&vec![seeded("u1", 101), seeded("u2", 101)]);
    let s1 = c.anime_seed[0].clone();
    let s2 = c.anime_seed[1].clone();
    c.create_task_from_seed(&s1, &Ok(())).unwrap();
    c.create_task_from_seed(&s2, &Ok(())).unwrap();
    let home = c.get_anime_home();
    assert_eq!(home.len(), 2);
    assert_eq!(home[0].mikan_id, 100);
    assert_eq!(home[1].mikan_id, 101);
    assert_eq!(home[0].img_url, "x.jpg");
    assert_eq!(home[1].img_url, "y.jpg");
}

#[test]
fn home_view_skips_subscribed_task_series_and_unknown_series() {
    let mut c = Catalog::new();
    let req = BroadcastRequestJson { year: 2024, season: 1 };
    c.ingest_broadcast_batch(&req, &vec![listed(100, "X", "x")]);
    c.toggle_subscribe_status(100).unwrap();
    c.bulk_insert_seeds(&vec![seeded("u1", 100), seeded("u2", 999)]);
    let s1 = c.anime_seed[0].clone();
    let s2 = c.anime_seed[1].clone();
    c.create_task_from_seed(&s1, &Ok(())).unwrap();
    c.create_task_from_seed(&s2, &Ok(())).unwrap();
    let home = c.get_anime_home();
    assert_eq!(home.len(), 1);
    assert_eq!(home[0].mikan_id, 100);
}

#[test]
fn home_view_ignores_completed_tasks() {
    let mut c = Catalog::new();
    let req = BroadcastRequestJson { year: 2024, season: 1 };
    c.ingest_broadcast_batch(&req, &vec![listed(100, "X", "x")]);
    c.bulk_insert_seeds(&vec![seeded("u1", 100)]);
    let s1 = c.anime_seed[0].clone();
    c.create_task_from_seed(&s1, &Ok(())).unwrap();
    c.anime_task[0].qb_task_status = 1;
    assert_eq!(c.get_anime_home().len(), 0);
}

#[test]
fn broadcast_view_lists_one_season_in_order() {
    let mut c = Catalog::new();
    c.ingest_broadcast_batch(
        &BroadcastRequestJson { year: 2024, season: 1 },
        &vec![
            listed(100, "X", "/images/Bangumi/202401/x.jpg"),
            listed(101, "Y", "/images/Bangumi/202401/y.jpg"),
        ],
    );
    c.ingest_broadcast_batch(
        &BroadcastRequestJson { year: 2024, season: 2 },
        &vec![listed(102, "Z", "/images/Bangumi/202404/z.jpg")],
    );
    let spring = c.get_anime_broadcast(2024, 1).unwrap();
    assert_eq!(spring.len(), 2);
    assert_eq!(spring[0].mikan_id, 100);
    assert_eq!(spring[1].mikan_id, 101);
    assert_eq!(spring[0].img_url, "x.jpg");
    let summer = c.get_anime_broadcast(2024, 2).unwrap();
    assert_eq!(summer.len(), 1);
    assert_eq!(summer[0].mikan_id, 102);
    let winter = c.get_anime_broadcast(2023, 4).unwrap();
    assert_eq!(winter.len(), 0);
}

#[test]
fn detail_view_collects_everything_for_one_series() {
    let mut c = Catalog::new();
    let req = BroadcastRequestJson { year: 2024, season: 1 };
    c.ingest_broadcast_batch(
        &req,
        &vec![listed(100, "X", "/images/Bangumi/202401/x.jpg"), listed(101, "Y", "y")],
    );
    let fetches = vec![Ok(vec![seeded("u1", 100), seeded("u2", 101)])];
    c.ingest_seed_batch(
        &vec![auto_anime::models::AnimeSubgroupJson {
            subgroup_id: 5,
            subgroup_name: "group".to_string(),
        }],
        &fetches,
    );
    let s1 = c.anime_seed[0].clone();
    c.create_task_from_seed(&s1, &Ok(())).unwrap();
    let d = c.get_anime_detail(100).unwrap();
    assert_eq!(d.anime_info.mikan_id, 100);
    assert_eq!(d.anime_info.img_url, "x.jpg");
    assert_eq!(d.seed_info.len(), 1);
    assert_eq!(d.seed_info[0].seed_url, "u1");
    assert_eq!(d.subgroup_info.len(), 1);
    assert_eq!(d.task_info.len(), 1);
    assert_eq!(c.get_anime_detail(999), Err(EngineError::NotFound));
}

#[test]
fn toggle_twice_returns_original_value() {
    let mut c = Catalog::new();
    let req = BroadcastRequestJson { year: 2024, season: 1 };
    c.ingest_broadcast_batch(&req, &vec![listed(100, "X", "x")]);
    let before = c.anime_list.clone();
    c.toggle_subscribe_status(100).unwrap();
    assert_eq!(c.anime_list[0].subscribe_status, 1);
    c.toggle_subscribe_status(100).unwrap();
    assert_eq!(c.anime_list, before);
    assert_eq!(c.toggle_subscribe_status(999), Err(EngineError::NotFound));
}

#[test]
fn purge_removes_only_one_series_downloads() {
    let mut c = Catalog::new();
    c.bulk_insert_seeds(&vec![seeded("u1", 100), seeded("u2", 101)]);
    let s1 = c.anime_seed[0].clone();
    let s2 = c.anime_seed[1].clone();
    c.create_task_from_seed(&s1, &Ok(())).unwrap();
    c.create_task_from_seed(&s2, &Ok(())).unwrap();
    c.purge_series_downloads(100);
    assert_eq!(c.anime_seed.len(), 1);
    assert_eq!(c.anime_seed[0].mikan_id, 101);
    assert_eq!(c.anime_task.len(), 1);
    assert_eq!(c.anime_task[0].mikan_id, 101);
}

#[test]
fn metadata_updates_touch_only_their_fields() {
    let mut c = Catalog::new();
    let req = BroadcastRequestJson { year: 2024, season: 1 };
    c.ingest_broadcast_batch(&req, &vec![listed(100, "X", "x")]);
    assert!(c.update_anime_status(100, 1));
    assert_eq!(c.anime_list[0].anime_status, 1);
    assert!(c.update_new_finished_episode(100, 9));
    assert_eq!(c.get_new_finished_episode(100), Some(9));
    assert_eq!(c.get_new_finished_episode(999), None);
    let info = BangumiInfoJson {
        bangumi_id: 12,
        bangumi_rank: "4.3".to_string(),
        bangumi_summary: "summary".to_string(),
        website: "www.example.org".to_string(),
        total_episodes: 12,
    };
    assert!(c.update_bangumi_info(100, &info));
    assert_eq!(c.anime_list[0].bangumi_id, 12);
    assert_eq!(c.anime_list[0].bangumi_rank, "4.3");
    assert_eq!(c.anime_list[0].total_episodes, 12);
    assert_eq!(c.anime_list[0].anime_name, "X");
    assert!(!c.update_anime_status(999, 0));
}

#[test]
fn converts_preserve_every_field() {
    let spider_subgroups = vec![scraper::Subgroup {
        subgroup_id: 5,
        subgroup_name: "group".to_string(),
    }];
    let sg = convert_spider_subgroup_to_anime_subgroup(spider_subgroups);
    assert_eq!(sg.len(), 1);
    assert_eq!(sg[0].subgroup_id, 5);
    assert_eq!(sg[0].subgroup_name, "group");

    let spider_seeds = vec![scraper::Seed {
        mikan_id: 100,
        subgroup_id: 5,
        episode: 2,
        seed_name: "n".to_string(),
        seed_url: "u".to_string(),
        seed_status: 0,
        seed_size: "1GB".to_string(),
    }];
    let seeds = convert_spider_seed_to_anime_seed(spider_seeds);
    assert_eq!(seeds.len(), 1);
    assert_eq!(seeds[0].mikan_id, 100);
    assert_eq!(seeds[0].seed_url, "u");
    assert_eq!(seeds[0].seed_size, "1GB");

    let req = SeedRequestJson {
        mikan_id: 100,
        subgroup_id: 5,
        episode: 2,
        seed_name: "n".to_string(),
        seed_url: "u".to_string(),
        seed_status: 0,
        seed_size: "1GB".to_string(),
    };
    let seed = convert_json_seed_to_anime_seed(req);
    assert_eq!(seed.mikan_id, 100);
    assert_eq!(seed.subgroup_id, 5);
    assert_eq!(seed.episode, 2);
    assert_eq!(seed.seed_name, "n");
    assert_eq!(seed.seed_url, "u");
    assert_eq!(seed.seed_status, 0);
    assert_eq!(seed.seed_size, "1GB");
}

#[test]
fn find_broadcast_reports_presence_by_composite_key() {
    let mut c = Catalog::new();
    c.ingest_broadcast_batch(
        &BroadcastRequestJson { year: 2024, season: 1 },
        &vec![listed(100, "X", "x")],
    );
    let b = c.find_broadcast(100, 2024, 1).unwrap();
    assert_eq!((b.mikan_id, b.year, b.season), (100, 2024, 1));
    assert!(c.find_broadcast(100, 2024, 2).is_none());
    assert!(c.find_broadcast(999, 2024, 1).is_none());
}

#[test]
fn search_matches_substrings_of_names() {
    let mut c = Catalog::new();
    c.ingest_broadcast_batch(
        &BroadcastRequestJson { year: 2024, season: 1 },
        &vec![
            listed(100, "Frieren", "x"),
            listed(101, "Dungeon Meshi", "y"),
            listed(102, "Meshiagare", "z"),
        ],
    );
    let hits = c.search_by_anime_name(&"Meshi".to_string());
    assert_eq!(hits.len(), 2);
    assert_eq!(hits[0].mikan_id, 101);
    assert_eq!(hits[1].mikan_id, 102);
    assert_eq!(c.search_by_anime_name(&"meshi".to_string()).len(), 0);
    assert_eq!(c.search_by_anime_name(&"".to_string()).len(), 3);
}

#[test]
fn name_lookup_and_status_filters() {
    let mut c = Catalog::new();
    c.ingest_broadcast_batch(
        &BroadcastRequestJson { year: 2024, season: 1 },
        &vec![listed(100, "X", "x"), listed(101, "Y", "y")],
    );
    assert_eq!(c.get_mikan_id_by_anime_name(&"Y".to_string()), Some(101));
    assert_eq!(c.get_mikan_id_by_anime_name(&"Z".to_string()), None);
    assert_eq!(c.all_series().len(), 2);
    c.toggle_subscribe_status(100).unwrap();
    c.update_anime_status(100, 1);
    let done = c.series_by_subscribe_and_anime_status(1, 1);
    assert_eq!(done.len(), 1);
    assert_eq!(done[0].mikan_id, 100);
    assert_eq!(c.series_by_subscribe_and_anime_status(0, 1).len(), 0);
}

#[test]
fn delete_series_removes_only_that_row() {
    let mut c = Catalog::new();
    c.ingest_broadcast_batch(
        &BroadcastRequestJson { year: 2024, season: 1 },
        &vec![listed(100, "X", "x"), listed(101, "Y", "y")],
    );
    assert!(c.delete_series(100));
    assert_eq!(c.anime_list.len(), 1);
    assert_eq!(c.anime_list[0].mikan_id, 101);
    assert!(!c.delete_series(100));
}

#[test]
fn seed_status_update_reports_missing_url() {
    let mut c = Catalog::new();
    c.bulk_insert_seeds(&vec![seeded("u1", 100)]);
    assert!(c.update_seed_status(&"u1".to_string(), 1));
    assert_eq!(c.anime_seed[0].seed_status, 1);
    assert!(!c.update_seed_status(&"nope".to_string(), 1));
}
