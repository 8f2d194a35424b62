use vstd::prelude::*;

use crate::clock::{now, Timestamp};
use crate::ids::{is_uuid_v4_text, new_id};

verus! {

/// An imported game video. (Its length and frame rate, in seconds and
/// frames per second, are kept by the application.)
#[derive(Debug, Clone)]
pub struct VideoFile {
    pub id: String,
    pub title: String,
    pub file_path: String,
    pub file_size_bytes: u64,
    pub width: u32,
    pub height: u32,
    pub game_date: Option<String>,
    pub home_team: Option<String>,
    pub away_team: Option<String>,
    pub venue: Option<String>,
    pub notes: Option<String>,
    pub thumbnail_path: Option<String>,
    pub imported_at: Timestamp,
    pub tags: Vec<String>,
}

impl VideoFile {
    /// A 1920x1080 video of unknown size with a fresh id, imported now,
    /// with no game details.
    pub fn new(title: String, file_path: String) -> (video: VideoFile)
        ensures
            is_uuid_v4_text(video.id@),
            video.title == title,
            video.file_path == file_path,
            video.file_size_bytes == 0,
            video.width == 1920,
            video.height == 1080,
            video.game_date is None,
            video.home_team is None,
            video.away_team is None,
            video.venue is None,
            video.notes is None,
            video.thumbnail_path is None,
            video.imported_at >= 0,
            video.tags@.len() == 0,
    {
        VideoFile {
            id: new_id(),
            title,
            file_path,
            file_size_bytes: 0,
            width: 1920,
            height: 1080,
            game_date: None,
            home_team: None,
            away_team: None,
            venue: None,
            notes: None,
            thumbnail_path: None,
            imported_at: now(),
            tags: Vec::new(),
        }
    }
}

/// What a client sends to import a video.
#[derive(Debug, Clone)]
pub struct ImportVideoRequest {
    pub file_path: String,
    pub title: String,
    pub game_date: Option<String>,
    pub home_team: Option<String>,
    pub away_team: Option<String>,
    pub venue: Option<String>,
}

} // verus!
