//! Adding a track to a playlist.

use crate::errors::ErrorCode;
use crate::guard::{authorize, verdict};
use crate::identity::Identity;
use crate::state::playlist::{Playlist, PlaylistView};
use crate::store::Address;
use vstd::prelude::*;

verus! {

/// The records that an addition touches.
#[derive(Clone, Debug, PartialEq, Eq)]
pub struct AddTrackToPlaylist {
    /// The playlist to add to.
    pub playlist: Playlist,
    /// The track to add. Only its id is looked at: that a track is stored
    /// there is taken on trust.
    pub track: Address,
    /// Who asks.
    pub owner: Identity,
}

/// Whether `caller` may add a track to `playlist`: the caller owns it, and it
/// has room for one more.
pub open spec fn outcome(playlist: PlaylistView, caller: Seq<u8>) -> Result<(), ErrorCode> {
    if verdict(playlist.owner, caller) is Err {
        Err(ErrorCode::Unauthorized)
    } else if playlist.tracks.len() >= Playlist::MAX_TRACKS {
        Err(ErrorCode::InvalidInputData)
    } else {
        Ok(())
    }
}

/// The playlist once `track_id` has been added at time `now`: the id comes
/// last, and the time of the change is noted.
pub open spec fn added(playlist: PlaylistView, track_id: u64, now: i64) -> PlaylistView {
    PlaylistView { tracks: playlist.tracks.push(track_id), updated_at: now, ..playlist }
}

/// Appends the track's id to the playlist, or refuses and leaves everything
/// as it was.
pub fn handler(ctx: &mut AddTrackToPlaylist, now: i64) -> (r: Result<(), ErrorCode>)
    ensures
        r == outcome(old(ctx).playlist@, old(ctx).owner@),
        r is Ok ==> final(ctx).playlist@ == added(old(ctx).playlist@, old(ctx).track.local_id, now)
            && final(ctx).track == old(ctx).track && final(ctx).owner == old(ctx).owner,
        r is Err ==> *final(ctx) == *old(ctx),
{
    if authorize(&ctx.playlist.owner, &ctx.owner).is_err() {
        return Err(ErrorCode::Unauthorized);
    }
    if ctx.playlist.tracks.len() >= Playlist::MAX_TRACKS {
        return Err(ErrorCode::InvalidInputData);
    }
    ctx.playlist.tracks.push(ctx.track.local_id);
    ctx.playlist.updated_at = now;
    Ok(())
}

} // verus!
