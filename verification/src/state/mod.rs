//! The three kinds of record and their byte layouts.

pub mod playlist;
pub mod track;
pub mod user_profile;
