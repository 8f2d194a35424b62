pub mod playlist_commands;
pub mod tag_commands;
pub mod video_commands;
