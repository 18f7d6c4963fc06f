//! What a media player reports.

use crate::common::path::FilePath;
use vstd::prelude::*;

verus! {

#[derive(Debug, Clone, PartialEq, Eq)]
pub struct NowPlayingSnapshot {
    pub title: String,
    pub artist: Option<String>,
    pub artwork_path: Option<FilePath>,
    pub fetched_at_unix: u64,
}

} // verus!
