//! The operations, each as a step on the records it touches: what the
//! records become, or why they stay as they are.

pub mod add_track_to_playlist;
pub mod create_playlist;
pub mod initialize_user;
pub mod remove_track_from_playlist;
pub mod upload_track;
