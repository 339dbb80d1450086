//! Records as the season scraper produces them, modeled as plain values.
//! The scraping itself (HTTP, HTML parsing) is an external collaborator;
//! its results are handed to the engine as these records.

use vstd::prelude::*;

verus! {

/// A release subgroup as scraped.
#[derive(Debug, PartialEq, Eq)]
pub struct Subgroup {
    pub subgroup_id: i32,
    pub subgroup_name: String,
}

impl Clone for Subgroup {
    fn clone(&self) -> (r: Self)
        ensures
            r == *self,
    {
        Subgroup { subgroup_id: self.subgroup_id, subgroup_name: self.subgroup_name.clone() }
    }
}

/// A torrent seed candidate as scraped.
#[derive(Debug, PartialEq, Eq)]
pub struct Seed {
    pub mikan_id: i32,
    pub subgroup_id: i32,
    pub episode: i32,
    pub seed_name: String,
    pub seed_url: String,
    pub seed_status: i32,
    pub seed_size: String,
}

impl Clone for Seed {
    fn clone(&self) -> (r: Self)
        ensures
            r == *self,
    {
        Seed {
            mikan_id: self.mikan_id,
            subgroup_id: self.subgroup_id,
            episode: self.episode,
            seed_name: self.seed_name.clone(),
            seed_url: self.seed_url.clone(),
            seed_status: self.seed_status,
            seed_size: self.seed_size.clone(),
        }
    }
}

} // verus!
