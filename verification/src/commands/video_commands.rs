use vstd::prelude::*;

use crate::ids::is_uuid_v4_text;
use crate::models::video::{ImportVideoRequest, VideoFile};

verus! {

/// The video record for an import request. `file_size` is the size of the
/// file on disk when the application could read it; otherwise the size
/// stays 0.
pub fn import_video(req: ImportVideoRequest, file_size: Option<u64>) -> (video: VideoFile)
    ensures
        is_uuid_v4_text(video.id@),
        video.title == req.title,
        video.file_path == req.file_path,
        video.game_date == req.game_date,
        video.home_team == req.home_team,
        video.away_team == req.away_team,
        video.venue == req.venue,
        video.file_size_bytes == match file_size {
            Some(size) => size,
            None => 0,
        },
        video.width == 1920,
        video.height == 1080,
        video.notes is None,
        video.thumbnail_path is None,
        video.tags@.len() == 0,
{
    let mut video = VideoFile::new(req.title, req.file_path);
    video.game_date = req.game_date;
    video.home_team = req.home_team;
    video.away_team = req.away_team;
    video.venue = req.venue;
    if let Some(size) = file_size {
        video.file_size_bytes = size;
    }
    video
}

} // verus!
