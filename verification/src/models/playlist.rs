use vstd::prelude::*;

use crate::clock::{now, Timestamp};
use crate::ids::{is_uuid_v4_text, new_id};

verus! {

/// An ordered list of tagged clips.
#[derive(Debug, Clone)]
pub struct Playlist {
    pub id: String,
    pub name: String,
    pub description: Option<String>,
    pub tag_ids: Vec<String>,
    pub created_at: Timestamp,
    pub updated_at: Timestamp,
    pub is_shared: bool,
    pub share_token: Option<String>,
    pub cover_tag_id: Option<String>,
}

impl Playlist {
    /// An empty, unshared playlist with a fresh id, created and last
    /// updated now (one clock reading).
    pub fn new(name: String) -> (playlist: Playlist)
        ensures
            is_uuid_v4_text(playlist.id@),
            playlist.name == name,
            playlist.description is None,
            playlist.tag_ids@.len() == 0,
            playlist.created_at >= 0,
            playlist.updated_at == playlist.created_at,
            !playlist.is_shared,
            playlist.share_token is None,
            playlist.cover_tag_id is None,
    {
        Playlist::new_at(name, now())
    }

    /// An empty, unshared playlist with a fresh id, created and last
    /// updated at `time`.
    pub fn new_at(name: String, time: Timestamp) -> (playlist: Playlist)
        ensures
            is_uuid_v4_text(playlist.id@),
            playlist.name == name,
            playlist.description is None,
            playlist.tag_ids@.len() == 0,
            playlist.created_at == time,
            playlist.updated_at == time,
            !playlist.is_shared,
            playlist.share_token is None,
            playlist.cover_tag_id is None,
    {
        Playlist {
            id: new_id(),
            name,
            description: None,
            tag_ids: Vec::new(),
            created_at: time,
            updated_at: time,
            is_shared: false,
            share_token: None,
            cover_tag_id: None,
        }
    }

    /// The number of clips in the playlist.
    pub fn clip_count(&self) -> (n: usize)
        ensures
            n == self.tag_ids@.len(),
    {
        self.tag_ids.len()
    }
}

/// A drawing, voice note or text note attached to a clip of a playlist.
#[derive(Debug, Clone)]
pub struct ClipAnnotation {
    pub id: String,
    pub playlist_id: String,
    pub tag_id: String,
    pub draw_data: Option<String>,
    pub voice_note_path: Option<String>,
    pub text_note: Option<String>,
    pub created_at: Timestamp,
}

/// What a client sends to create a playlist.
#[derive(Debug, Clone)]
pub struct CreatePlaylistRequest {
    pub name: String,
    pub description: Option<String>,
    pub tag_ids: Vec<String>,
}

/// The formats a playlist can be exported in.
#[derive(Debug, Clone, Copy, PartialEq, Eq)]
pub enum ExportFormat {
    Mp4,
    Pdf,
    Json,
    Csv,
}

/// What a client sends to export a playlist.
#[derive(Debug, Clone)]
pub struct ExportPlaylistRequest {
    pub playlist_id: String,
    pub format: ExportFormat,
    pub output_path: String,
    pub include_annotations: bool,
    pub watermark: Option<String>,
}

} // verus!
