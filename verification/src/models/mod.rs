pub mod player;
pub mod playlist;
pub mod stats;
pub mod tag;
pub mod video;
