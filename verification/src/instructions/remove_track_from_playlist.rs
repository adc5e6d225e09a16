//! Removing a track from a playlist.

use crate::errors::ErrorCode;
use crate::guard::{authorize, verdict};
use crate::identity::Identity;
use crate::state::playlist::{Playlist, PlaylistView};
use crate::store::Address;
use vstd::prelude::*;

verus! {

/// The records that a removal touches.
#[derive(Clone, Debug, PartialEq, Eq)]
pub struct DeleteTrackFromPlaylist {
    /// The playlist to remove from.
    pub playlist: Playlist,
    /// The track to remove. Only its id is looked at.
    pub track: Address,
    /// Who asks.
    pub owner: Identity,
}

/// Whether `caller` may remove `track_id` from `playlist`: the caller owns
/// it, and it lists the id.
pub open spec fn outcome(playlist: PlaylistView, caller: Seq<u8>, track_id: u64) -> Result<
    (),
    ErrorCode,
> {
    if verdict(playlist.owner, caller) is Err {
        Err(ErrorCode::Unauthorized)
    } else if !playlist.tracks.contains(track_id) {
        Err(ErrorCode::TrackNotFound)
    } else {
        Ok(())
    }
}

/// The playlist once `track_id` has been removed at time `now`: its first
/// occurrence is gone, the other ids keep their order, and the time of the
/// change is noted.
pub open spec fn removed(playlist: PlaylistView, track_id: u64, now: i64) -> PlaylistView {
    PlaylistView { tracks: playlist.tracks.remove_value(track_id), updated_at: now, ..playlist }
}

/// What a removal takes away is the first occurrence of the id and nothing
/// else: the ids before it and the ids after it stay, in their order. The
/// position of that occurrence is handed back.
pub proof fn lemma_removed_is_first_occurrence(
    playlist: PlaylistView,
    track_id: u64,
    now: i64,
) -> (i: int)
    requires
        playlist.tracks.contains(track_id),
    ensures
        0 <= i < playlist.tracks.len(),
        playlist.tracks[i] == track_id,
        forall|j: int| 0 <= j < i ==> playlist.tracks[j] != track_id,
        removed(playlist, track_id, now).tracks == playlist.tracks.subrange(0, i)
            + playlist.tracks.subrange(i + 1, playlist.tracks.len() as int),
{
    playlist.tracks.index_of_first_ensures(track_id);
    playlist.tracks.index_of_first(track_id)->0
}

/// A removal takes exactly one id away, so what fitted before fits after.
pub proof fn lemma_removed_fits(playlist: PlaylistView, track_id: u64, now: i64)
    requires
        playlist.wf(),
        playlist.tracks.contains(track_id),
    ensures
        removed(playlist, track_id, now).wf(),
        removed(playlist, track_id, now).tracks.len() == playlist.tracks.len() - 1,
{
    playlist.tracks.index_of_first_ensures(track_id);
}

/// Position of the first occurrence of `id`, if there is one.
fn position(ids: &Vec<u64>, id: u64) -> (r: Option<usize>)
    ensures
        match r {
            Some(i) => i < ids@.len() && ids@.contains(id) && ids@.index_of_first(id) == Some(
                i as int,
            ),
            None => !ids@.contains(id),
        },
{
    let mut i: usize = 0;
    while i < ids.len()
        invariant
            i <= ids@.len(),
            forall|j: int| 0 <= j < i ==> ids@[j] != id,
        decreases ids@.len() - i,
    {
        if ids[i] == id {
            proof {
                assert(ids@.contains(id));
                ids@.index_of_first_ensures(id);
            }
            return Some(i);
        }
        i += 1;
    }
    None
}

/// Takes the first occurrence of the track's id out of the playlist, or
/// refuses and leaves everything as it was.
pub fn handler(ctx: &mut DeleteTrackFromPlaylist, now: i64) -> (r: Result<(), ErrorCode>)
    ensures
        r == outcome(old(ctx).playlist@, old(ctx).owner@, old(ctx).track.local_id),
        r is Ok ==> final(ctx).playlist@ == removed(
            old(ctx).playlist@,
            old(ctx).track.local_id,
            now,
        ) && final(ctx).track == old(ctx).track && final(ctx).owner == old(ctx).owner,
        r is Err ==> *final(ctx) == *old(ctx),
{
    if authorize(&ctx.playlist.owner, &ctx.owner).is_err() {
        return Err(ErrorCode::Unauthorized);
    }
    match position(&ctx.playlist.tracks, ctx.track.local_id) {
        Some(i) => {
            ctx.playlist.tracks.remove(i);
            ctx.playlist.updated_at = now;
            Ok(())
        },
        None => Err(ErrorCode::TrackNotFound),
    }
}

} // verus!
