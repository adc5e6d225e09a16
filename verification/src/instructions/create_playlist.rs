//! Creating a playlist.

use crate::errors::ErrorCode;
use crate::identity::Identity;
use crate::layout::{fits, text_fits};
use crate::state::playlist::{Playlist, PlaylistView};
use vstd::prelude::*;
use vstd::string::*;

verus! {

/// The records that the creation of a playlist touches.
#[derive(Clone, Debug, PartialEq, Eq)]
pub struct CreatePlaylist {
    /// The playlist to fill in.
    pub playlist: Playlist,
    /// Who creates, and will own the playlist.
    pub signer: Identity,
}

/// Whether the inputs are accepted: the name and the description both fit.
pub open spec fn outcome(name: Seq<char>, description: Seq<char>) -> Result<(), ErrorCode> {
    if fits(name, Playlist::MAX_NAME_LEN as nat) && fits(
        description,
        Playlist::MAX_DESC_LEN as nat,
    ) {
        Ok(())
    } else {
        Err(ErrorCode::InvalidInputData)
    }
}

/// The playlist that a creation at time `now` makes: it lists no track yet.
pub open spec fn created(
    signer: Seq<u8>,
    playlist_id: u64,
    name: Seq<char>,
    description: Seq<char>,
    now: i64,
) -> PlaylistView {
    PlaylistView {
        id: playlist_id,
        owner: signer,
        name,
        description,
        tracks: Seq::empty(),
        created_at: now,
        updated_at: now,
    }
}

/// Fills in the playlist of the signer, or refuses inputs that are too long
/// and leaves everything as it was.
pub fn handler(
    ctx: &mut CreatePlaylist,
    playlist_id: u64,
    name: String,
    description: String,
    now: i64,
) -> (r: Result<(), ErrorCode>)
    ensures
        r == outcome(name@, description@),
        r is Ok ==> final(ctx).playlist@ == created(
            old(ctx).signer@,
            playlist_id,
            name@,
            description@,
            now,
        ) && final(ctx).signer == old(ctx).signer,
        r is Err ==> *final(ctx) == *old(ctx),
{
    if !(text_fits(name.as_str(), Playlist::MAX_NAME_LEN) && text_fits(
        description.as_str(),
        Playlist::MAX_DESC_LEN,
    )) {
        return Err(ErrorCode::InvalidInputData);
    }
    ctx.playlist.id = playlist_id;
    ctx.playlist.owner = ctx.signer;
    ctx.playlist.name = name;
    ctx.playlist.description = description;
    ctx.playlist.tracks = Vec::new();
    ctx.playlist.created_at = now;
    ctx.playlist.updated_at = now;
    Ok(())
}

} // verus!
