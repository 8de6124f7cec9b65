//! Playback queue and player-control core of a terminal music player.

pub mod catalog;
pub mod notifier;
pub mod now_playing;
pub mod player;
pub mod queue;
