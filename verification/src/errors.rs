//! Failure signals.

use vstd::prelude::*;

verus! {

/// Why an operation was refused. Every refusal leaves the store as it was.
#[derive(Clone, Copy, Debug, PartialEq, Eq, Structural, Hash)]
pub enum ErrorCode {
    /// The caller is not the owner of the record.
    Unauthorized,
    /// No playlist is stored at the address.
    PlaylistNotFound,
    /// No track is stored at the address, or a playlist does not list it.
    TrackNotFound,
    /// No profile is stored at the address.
    UserProfileNotFound,
    /// An input is too long or otherwise misshapen.
    InvalidInputData,
    InsufficientFunds,
    OperationNotSupported,
    UsernameTooLong,
    EmailTooLong,
    TrackTitleTooLong,
    ArtistTooLong,
    GenreTooLong,
    /// The address is already taken.
    AlreadyExists,
}

impl ErrorCode {
    /// The text of [`ErrorCode::message`].
    pub open spec fn message_text(self) -> Seq<char> {
        match self {
            ErrorCode::Unauthorized => "Unauthorized action"@,
            ErrorCode::PlaylistNotFound => "Playlist not found"@,
            ErrorCode::TrackNotFound => "Track not found"@,
            ErrorCode::UserProfileNotFound => "User profile not found"@,
            ErrorCode::InvalidInputData => "Invalid input data"@,
            ErrorCode::InsufficientFunds => "Insufficient funds for transaction"@,
            ErrorCode::OperationNotSupported => "Operation not supported"@,
            ErrorCode::UsernameTooLong => "Username exceeds maximum allowed length"@,
            ErrorCode::EmailTooLong => "Email exceeds maximum allowed length"@,
            ErrorCode::TrackTitleTooLong => "Track title exceeds maximum allowed length"@,
            ErrorCode::ArtistTooLong => "Artist name exceeds maximum allowed length"@,
            ErrorCode::GenreTooLong => "Genre exceeds maximum allowed length"@,
            ErrorCode::AlreadyExists => "Record already exists"@,
        }
    }

    /// What to tell the caller.
    pub fn message(&self) -> (text: String)
        ensures
            text@ == self.message_text(),
    {
        let text = match self {
            ErrorCode::Unauthorized => "Unauthorized action",
            ErrorCode::PlaylistNotFound => "Playlist not found",
            ErrorCode::TrackNotFound => "Track not found",
            ErrorCode::UserProfileNotFound => "User profile not found",
            ErrorCode::InvalidInputData => "Invalid input data",
            ErrorCode::InsufficientFunds => "Insufficient funds for transaction",
            ErrorCode::OperationNotSupported => "Operation not supported",
            ErrorCode::UsernameTooLong => "Username exceeds maximum allowed length",
            ErrorCode::EmailTooLong => "Email exceeds maximum allowed length",
            ErrorCode::TrackTitleTooLong => "Track title exceeds maximum allowed length",
            ErrorCode::ArtistTooLong => "Artist name exceeds maximum allowed length",
            ErrorCode::GenreTooLong => "Genre exceeds maximum allowed length",
            ErrorCode::AlreadyExists => "Record already exists",
        };
        text.to_owned()
    }
}

} // verus!
