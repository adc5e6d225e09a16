//! Publishing a track.

use crate::errors::ErrorCode;
use crate::identity::Identity;
use crate::layout::{fits, text_fits};
use crate::state::track::{text_view, Track, TrackView};
use vstd::prelude::*;
use vstd::string::*;

verus! {

/// The records that a publication touches.
#[derive(Clone, Debug, PartialEq, Eq)]
pub struct UploadTrack {
    /// The track to fill in.
    pub track: Track,
    /// Who publishes, and will own the track.
    pub signer: Identity,
}

/// Whether the inputs are accepted, and if not, which of them is the first
/// that is too long. A locator that is too long is plain invalid input.
pub open spec fn outcome(
    title: Seq<char>,
    artist: Option<Seq<char>>,
    genre: Option<Seq<char>>,
    uri: Seq<char>,
) -> Result<(), ErrorCode> {
    if !fits(title, Track::MAX_TITLE_LEN as nat) {
        Err(ErrorCode::TrackTitleTooLong)
    } else if artist is Some && !fits(artist->0, Track::MAX_ARTIST_LEN as nat) {
        Err(ErrorCode::ArtistTooLong)
    } else if genre is Some && !fits(genre->0, Track::MAX_GENRE_LEN as nat) {
        Err(ErrorCode::GenreTooLong)
    } else if !fits(uri, Track::MAX_URI_LEN as nat) {
        Err(ErrorCode::InvalidInputData)
    } else {
        Ok(())
    }
}

/// The track that a publication at time `now` makes.
pub open spec fn published(
    signer: Seq<u8>,
    track_id: u64,
    title: Seq<char>,
    artist: Option<Seq<char>>,
    genre: Option<Seq<char>>,
    uri: Seq<char>,
    now: i64,
) -> TrackView {
    TrackView { id: track_id, owner: signer, title, artist, genre, uri, created_at: now }
}

/// Whether a text that may be absent fits a field of capacity `max`.
fn absent_or_fits(text: &Option<String>, max: usize) -> (b: bool)
    ensures
        b == (text_view(*text) matches Some(chars) ==> fits(chars, max as nat)),
{
    match text {
        Some(s) => text_fits(s.as_str(), max),
        None => true,
    }
}

/// Fills in the track of the signer, or refuses inputs that are too long and
/// leaves everything as it was.
pub fn handler(
    ctx: &mut UploadTrack,
    track_id: u64,
    title: String,
    artist: Option<String>,
    genre: Option<String>,
    uri: String,
    now: i64,
) -> (r: Result<(), ErrorCode>)
    ensures
        r == outcome(title@, text_view(artist), text_view(genre), uri@),
        r is Ok ==> final(ctx).track@ == published(
            old(ctx).signer@,
            track_id,
            title@,
            text_view(artist),
            text_view(genre),
            uri@,
            now,
        ) && final(ctx).signer == old(ctx).signer,
        r is Err ==> *final(ctx) == *old(ctx),
{
    if !text_fits(title.as_str(), Track::MAX_TITLE_LEN) {
        return Err(ErrorCode::TrackTitleTooLong);
    }
    if !absent_or_fits(&artist, Track::MAX_ARTIST_LEN) {
        return Err(ErrorCode::ArtistTooLong);
    }
    if !absent_or_fits(&genre, Track::MAX_GENRE_LEN) {
        return Err(ErrorCode::GenreTooLong);
    }
    if !text_fits(uri.as_str(), Track::MAX_URI_LEN) {
        return Err(ErrorCode::InvalidInputData);
    }
    ctx.track.id = track_id;
    ctx.track.owner = ctx.signer;
    ctx.track.title = title;
    ctx.track.artist = artist;
    ctx.track.genre = genre;
    ctx.track.uri = uri;
    ctx.track.created_at = now;
    Ok(())
}

} // verus!
