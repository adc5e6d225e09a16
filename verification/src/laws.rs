//! What holds of the operations taken together.

use crate::errors::ErrorCode;
use crate::identity::Identity;
use crate::instructions;
use crate::instructions::add_track_to_playlist::added;
use crate::instructions::create_playlist::created;
use crate::instructions::initialize_user::registered;
use crate::instructions::remove_track_from_playlist::{lemma_removed_fits, removed};
use crate::instructions::upload_track::published;
use crate::layout::fits;
use crate::state::playlist::{
    lemma_playlist_decoding_wf, lemma_playlist_footprint, lemma_playlist_round_trip, Playlist,
    PlaylistView,
};
use crate::state::track::{lemma_track_round_trip, Track};
use crate::state::user_profile::{lemma_profile_round_trip, UserProfile};
use crate::store::{address_of, Address, EntityKind, Slots};
use crate::{
    add_track_effect, add_track_outcome, create_playlist_effect, create_playlist_outcome,
    initialize_user_effect, initialize_user_outcome, playlist_at, playlist_of, profile_of,
    remove_track_effect, remove_track_outcome, track_of, upload_track_effect, upload_track_outcome,
};
use vstd::prelude::*;

verus! {

/// A profile that has been registered is found under its owner, with the
/// username and the email that were given and with both timestamps at the
/// time of registration.
pub proof fn lemma_registered_profile_is_found(
    store: Slots,
    signer: Identity,
    username: Seq<char>,
    email: Seq<char>,
    now: i64,
)
    requires
        initialize_user_outcome(store, signer, username, email) is Ok,
    ensures
        ({
            let after = initialize_user_effect(store, signer, username, email, now);
            &&& profile_of(after, signer) == Some(registered(signer@, username, email, now))
            &&& profile_of(after, signer)->0.user == signer@
            &&& profile_of(after, signer)->0.username == username
            &&& profile_of(after, signer)->0.email == email
            &&& profile_of(after, signer)->0.created_at == now
            &&& profile_of(after, signer)->0.updated_at == now
        }),
{
    lemma_profile_round_trip(registered(signer@, username, email, now));
}

/// A second registration by the same owner is refused as a duplicate,
/// whatever it asks for within the limits, and changes nothing.
pub proof fn lemma_second_registration_is_refused(
    store: Slots,
    signer: Identity,
    username: Seq<char>,
    email: Seq<char>,
    now: i64,
    other_username: Seq<char>,
    other_email: Seq<char>,
    later: i64,
)
    requires
        initialize_user_outcome(store, signer, username, email) is Ok,
        instructions::initialize_user::outcome(other_username, other_email) is Ok,
    ensures
        ({
            let after = initialize_user_effect(store, signer, username, email, now);
            &&& initialize_user_outcome(after, signer, other_username, other_email) == Err::<
                (),
                ErrorCode,
            >(ErrorCode::AlreadyExists)
            &&& initialize_user_effect(after, signer, other_username, other_email, later) == after
        }),
{
}

/// A track that has been published is found under its owner and id, as it
/// was given.
pub proof fn lemma_published_track_is_found(
    store: Slots,
    signer: Identity,
    track_id: u64,
    title: Seq<char>,
    artist: Option<Seq<char>>,
    genre: Option<Seq<char>>,
    uri: Seq<char>,
    now: i64,
)
    requires
        upload_track_outcome(store, signer, track_id, title, artist, genre, uri) is Ok,
    ensures
        track_of(
            upload_track_effect(store, signer, track_id, title, artist, genre, uri, now),
            signer,
            track_id,
        ) == Some(published(signer@, track_id, title, artist, genre, uri, now)),
{
    lemma_track_round_trip(published(signer@, track_id, title, artist, genre, uri, now));
}

/// A title that is too long is refused as such, whatever else is asked and
/// whatever the store holds, and nothing is allocated.
pub proof fn lemma_long_title_is_refused(
    store: Slots,
    signer: Identity,
    track_id: u64,
    title: Seq<char>,
    artist: Option<Seq<char>>,
    genre: Option<Seq<char>>,
    uri: Seq<char>,
    now: i64,
)
    requires
        !fits(title, Track::MAX_TITLE_LEN as nat),
    ensures
        upload_track_outcome(store, signer, track_id, title, artist, genre, uri) == Err::<
            (),
            ErrorCode,
        >(ErrorCode::TrackTitleTooLong),
        upload_track_effect(store, signer, track_id, title, artist, genre, uri, now) == store,
{
}

/// A playlist that has been created is found under its owner and id, with
/// no track in it and with both timestamps at the time of creation.
pub proof fn lemma_created_playlist_is_found(
    store: Slots,
    signer: Identity,
    playlist_id: u64,
    name: Seq<char>,
    description: Seq<char>,
    now: i64,
)
    requires
        create_playlist_outcome(store, signer, playlist_id, name, description) is Ok,
    ensures
        ({
            let after = create_playlist_effect(store, signer, playlist_id, name, description, now);
            &&& playlist_of(after, signer, playlist_id) == Some(
                created(signer@, playlist_id, name, description, now),
            )
            &&& playlist_of(after, signer, playlist_id)->0.tracks.len() == 0
            &&& playlist_of(after, signer, playlist_id)->0.created_at == now
            &&& playlist_of(after, signer, playlist_id)->0.updated_at == now
        }),
{
    lemma_playlist_round_trip(created(signer@, playlist_id, name, description, now));
}

/// After an addition the playlist is the one before it with the track's id
/// at the end.
pub proof fn lemma_added_track_is_found(
    store: Slots,
    caller: Identity,
    playlist: Address,
    track: Address,
    now: i64,
)
    requires
        add_track_outcome(store, caller, playlist) is Ok,
    ensures
        playlist_at(add_track_effect(store, caller, playlist, track, now), playlist) == Some(
            added(playlist_at(store, playlist)->0, track.local_id, now),
        ),
{
    lemma_playlist_decoding_wf(store[playlist]);
    lemma_playlist_round_trip(added(playlist_at(store, playlist)->0, track.local_id, now));
}

/// After a removal the playlist is the one before it without the first
/// occurrence of the track's id.
pub proof fn lemma_removed_track_is_gone(
    store: Slots,
    caller: Identity,
    playlist: Address,
    track: Address,
    now: i64,
)
    requires
        remove_track_outcome(store, caller, playlist, track) is Ok,
    ensures
        playlist_at(remove_track_effect(store, caller, playlist, track, now), playlist) == Some(
            removed(playlist_at(store, playlist)->0, track.local_id, now),
        ),
{
    lemma_playlist_decoding_wf(store[playlist]);
    lemma_removed_fits(playlist_at(store, playlist)->0, track.local_id, now);
    lemma_playlist_round_trip(removed(playlist_at(store, playlist)->0, track.local_id, now));
}

/// Whoever is not the owner of a playlist can neither add to it nor remove
/// from it: both are refused as unauthorized, and every stored byte stays as
/// it was.
pub proof fn lemma_strangers_change_nothing(
    store: Slots,
    caller: Identity,
    playlist: Address,
    track: Address,
    now: i64,
)
    requires
        playlist_at(store, playlist) is Some,
        playlist_at(store, playlist)->0.owner != caller@,
    ensures
        add_track_outcome(store, caller, playlist) == Err::<(), ErrorCode>(
            ErrorCode::Unauthorized,
        ),
        add_track_effect(store, caller, playlist, track, now) == store,
        remove_track_outcome(store, caller, playlist, track) == Err::<(), ErrorCode>(
            ErrorCode::Unauthorized,
        ),
        remove_track_effect(store, caller, playlist, track, now) == store,
{
}

/// A full playlist takes no more: the addition is refused as invalid input
/// and the playlist stays as it was.
pub proof fn lemma_full_playlist_takes_no_more(
    store: Slots,
    caller: Identity,
    playlist: Address,
    track: Address,
    now: i64,
)
    requires
        playlist_at(store, playlist) is Some,
        playlist_at(store, playlist)->0.owner == caller@,
        playlist_at(store, playlist)->0.tracks.len() == Playlist::MAX_TRACKS,
    ensures
        add_track_outcome(store, caller, playlist) == Err::<(), ErrorCode>(
            ErrorCode::InvalidInputData,
        ),
        add_track_effect(store, caller, playlist, track, now) == store,
{
}

/// Removing an id that the playlist does not list is refused as not found,
/// and the playlist stays as it was.
pub proof fn lemma_absent_track_is_not_removed(
    store: Slots,
    caller: Identity,
    playlist: Address,
    track: Address,
    now: i64,
)
    requires
        playlist_at(store, playlist) is Some,
        playlist_at(store, playlist)->0.owner == caller@,
        !playlist_at(store, playlist)->0.tracks.contains(track.local_id),
    ensures
        remove_track_outcome(store, caller, playlist, track) == Err::<(), ErrorCode>(
            ErrorCode::TrackNotFound,
        ),
        remove_track_effect(store, caller, playlist, track, now) == store,
{
}

/// The store after the owner has added the given tracks to a playlist, one
/// after the other.
pub open spec fn add_tracks_effect(
    store: Slots,
    caller: Identity,
    playlist: Address,
    tracks: Seq<Address>,
    now: i64,
) -> Slots
    decreases tracks.len(),
{
    if tracks.len() == 0 {
        store
    } else {
        add_track_effect(
            add_tracks_effect(store, caller, playlist, tracks.drop_last(), now),
            caller,
            playlist,
            tracks.last(),
            now,
        )
    }
}

/// The ids of the given tracks, in their order.
pub open spec fn ids_of(tracks: Seq<Address>) -> Seq<u64> {
    Seq::new(tracks.len(), |i: int| tracks[i].local_id)
}

/// Additions by the owner to an empty playlist succeed one after the other
/// up to the limit, and leave the ids in the order in which they were added.
/// Once the limit is reached, the next addition is refused as invalid input
/// and changes nothing.
pub proof fn lemma_additions_up_to_the_limit(
    store: Slots,
    caller: Identity,
    playlist: Address,
    tracks: Seq<Address>,
    now: i64,
)
    requires
        playlist_at(store, playlist) is Some,
        playlist_at(store, playlist)->0.owner == caller@,
        playlist_at(store, playlist)->0.tracks.len() == 0,
        tracks.len() <= Playlist::MAX_TRACKS,
    ensures
        forall|k: int|
            0 <= k < tracks.len() ==> add_track_outcome(
                #[trigger] add_tracks_effect(store, caller, playlist, tracks.take(k), now),
                caller,
                playlist,
            ) is Ok,
        ({
            let after = add_tracks_effect(store, caller, playlist, tracks, now);
            &&& playlist_at(after, playlist) is Some
            &&& playlist_at(after, playlist)->0.owner == caller@
            &&& playlist_at(after, playlist)->0.tracks == ids_of(tracks)
            &&& playlist_at(after, playlist)->0.tracks.len() == tracks.len()
            &&& tracks.len() == Playlist::MAX_TRACKS ==> {
                &&& add_track_outcome(after, caller, playlist) == Err::<(), ErrorCode>(
                    ErrorCode::InvalidInputData,
                )
                &&& forall|next: Address| #[trigger]
                    add_track_effect(after, caller, playlist, next, now) == after
            }
        }),
    decreases tracks.len(),
{
    if tracks.len() == 0 {
        assert(playlist_at(store, playlist)->0.tracks =~= ids_of(tracks));
    } else {
        let front = tracks.drop_last();
        let before = add_tracks_effect(store, caller, playlist, front, now);
        lemma_additions_up_to_the_limit(store, caller, playlist, front, now);
        assert(add_track_outcome(before, caller, playlist) is Ok);
        lemma_added_track_is_found(before, caller, playlist, tracks.last(), now);
        assert(ids_of(front).push(tracks.last().local_id) =~= ids_of(tracks));
        assert forall|k: int| 0 <= k < tracks.len() implies add_track_outcome(
            #[trigger] add_tracks_effect(store, caller, playlist, tracks.take(k), now),
            caller,
            playlist,
        ) is Ok by {
            if k < front.len() {
                assert(tracks.take(k) =~= front.take(k));
            } else {
                assert(tracks.take(k) =~= front);
            }
        }
    }
}

/// A change to a playlist notes the time at which it was made, so where the
/// clock has advanced since the last change, the time of the last change
/// advances with it.
pub proof fn lemma_changes_advance_the_time_of_change(
    store: Slots,
    caller: Identity,
    playlist: Address,
    track: Address,
    now: i64,
)
    requires
        playlist_at(store, playlist) is Some,
        playlist_at(store, playlist)->0.updated_at < now,
    ensures
        add_track_outcome(store, caller, playlist) is Ok ==> playlist_at(
            add_track_effect(store, caller, playlist, track, now),
            playlist,
        )->0.updated_at > playlist_at(store, playlist)->0.updated_at,
        remove_track_outcome(store, caller, playlist, track) is Ok ==> playlist_at(
            remove_track_effect(store, caller, playlist, track, now),
            playlist,
        )->0.updated_at > playlist_at(store, playlist)->0.updated_at,
{
    if add_track_outcome(store, caller, playlist) is Ok {
        lemma_added_track_is_found(store, caller, playlist, track, now);
    }
    if remove_track_outcome(store, caller, playlist, track) is Ok {
        lemma_removed_track_is_gone(store, caller, playlist, track, now);
    }
}

/// Whether two playlists differ at most in the tracks they list and in the
/// time of their last change.
pub open spec fn same_but_for_tracks(before: PlaylistView, after: PlaylistView) -> bool {
    &&& after.id == before.id
    &&& after.owner == before.owner
    &&& after.name == before.name
    &&& after.description == before.description
    &&& after.created_at == before.created_at
}

/// A change to a playlist leaves its id, its owner, its name, its
/// description and its time of creation as they were.
pub proof fn lemma_changes_keep_the_owner(
    store: Slots,
    caller: Identity,
    playlist: Address,
    track: Address,
    now: i64,
)
    requires
        playlist_at(store, playlist) is Some,
    ensures
        add_track_outcome(store, caller, playlist) is Ok ==> same_but_for_tracks(
            playlist_at(store, playlist)->0,
            playlist_at(add_track_effect(store, caller, playlist, track, now), playlist)->0,
        ),
        remove_track_outcome(store, caller, playlist, track) is Ok ==> same_but_for_tracks(
            playlist_at(store, playlist)->0,
            playlist_at(remove_track_effect(store, caller, playlist, track, now), playlist)->0,
        ),
{
    if add_track_outcome(store, caller, playlist) is Ok {
        lemma_added_track_is_found(store, caller, playlist, track, now);
    }
    if remove_track_outcome(store, caller, playlist, track) is Ok {
        lemma_removed_track_is_gone(store, caller, playlist, track, now);
    }
}

/// A request to the catalog: one of its five operations, with what the
/// caller asks of it.
pub enum Request {
    InitializeUser { username: Seq<char>, email: Seq<char> },
    UploadTrack {
        track_id: u64,
        title: Seq<char>,
        artist: Option<Seq<char>>,
        genre: Option<Seq<char>>,
        uri: Seq<char>,
    },
    CreatePlaylist { playlist_id: u64, name: Seq<char>, description: Seq<char> },
    AddTrackToPlaylist { playlist: Address, track: Address },
    RemoveTrackFromPlaylist { playlist: Address, track: Address },
}

impl Request {
    /// How the operation ends when `caller` asks it of `store`.
    pub open spec fn outcome(self, store: Slots, caller: Identity) -> Result<(), ErrorCode> {
        match self {
            Request::InitializeUser { username, email } => initialize_user_outcome(
                store,
                caller,
                username,
                email,
            ),
            Request::UploadTrack { track_id, title, artist, genre, uri } => upload_track_outcome(
                store,
                caller,
                track_id,
                title,
                artist,
                genre,
                uri,
            ),
            Request::CreatePlaylist { playlist_id, name, description } => create_playlist_outcome(
                store,
                caller,
                playlist_id,
                name,
                description,
            ),
            Request::AddTrackToPlaylist { playlist, track } => add_track_outcome(
                store,
                caller,
                playlist,
            ),
            Request::RemoveTrackFromPlaylist { playlist, track } => remove_track_outcome(
                store,
                caller,
                playlist,
                track,
            ),
        }
    }

    /// What the operation leaves in the store when `caller` asks it of
    /// `store` at time `now`.
    pub open spec fn effect(self, store: Slots, caller: Identity, now: i64) -> Slots {
        match self {
            Request::InitializeUser { username, email } => initialize_user_effect(
                store,
                caller,
                username,
                email,
                now,
            ),
            Request::UploadTrack { track_id, title, artist, genre, uri } => upload_track_effect(
                store,
                caller,
                track_id,
                title,
                artist,
                genre,
                uri,
                now,
            ),
            Request::CreatePlaylist { playlist_id, name, description } => create_playlist_effect(
                store,
                caller,
                playlist_id,
                name,
                description,
                now,
            ),
            Request::AddTrackToPlaylist { playlist, track } => add_track_effect(
                store,
                caller,
                playlist,
                track,
                now,
            ),
            Request::RemoveTrackFromPlaylist { playlist, track } => remove_track_effect(
                store,
                caller,
                playlist,
                track,
                now,
            ),
        }
    }

    /// The one address whose slot the operation may touch.
    pub open spec fn target(self, caller: Identity) -> Address {
        match self {
            Request::InitializeUser { username, email } => address_of(
                EntityKind::UserProfile,
                caller,
                0,
            ),
            Request::UploadTrack { track_id, title, artist, genre, uri } => address_of(
                EntityKind::Track,
                caller,
                track_id,
            ),
            Request::CreatePlaylist { playlist_id, name, description } => address_of(
                EntityKind::Playlist,
                caller,
                playlist_id,
            ),
            Request::AddTrackToPlaylist { playlist, track } => playlist,
            Request::RemoveTrackFromPlaylist { playlist, track } => playlist,
        }
    }
}

/// An operation that is refused leaves every stored byte as it was.
pub proof fn lemma_refusals_change_nothing(
    request: Request,
    store: Slots,
    caller: Identity,
    now: i64,
)
    requires
        request.outcome(store, caller) is Err,
    ensures
        request.effect(store, caller, now) == store,
{
}

/// An operation touches one slot at most: every other address is allocated
/// after it if and only if it was before, and holds the same bytes.
pub proof fn lemma_operations_touch_one_slot(
    request: Request,
    store: Slots,
    caller: Identity,
    now: i64,
    other: Address,
)
    requires
        other != request.target(caller),
    ensures
        request.effect(store, caller, now).contains_key(other) == store.contains_key(other),
        request.effect(store, caller, now)[other] == store[other],
{
}

/// No operation frees a slot or changes its footprint.
pub proof fn lemma_footprints_never_change(
    request: Request,
    store: Slots,
    caller: Identity,
    now: i64,
    address: Address,
)
    requires
        store.contains_key(address),
    ensures
        request.effect(store, caller, now).contains_key(address),
        request.effect(store, caller, now)[address].len() == store[address].len(),
{
    match request {
        Request::AddTrackToPlaylist { playlist, track } => {
            if add_track_outcome(store, caller, playlist) is Ok {
                lemma_playlist_decoding_wf(store[playlist]);
                lemma_playlist_footprint(
                    added(playlist_at(store, playlist)->0, track.local_id, now),
                );
            }
        },
        Request::RemoveTrackFromPlaylist { playlist, track } => {
            if remove_track_outcome(store, caller, playlist, track) is Ok {
                lemma_playlist_decoding_wf(store[playlist]);
                lemma_removed_fits(playlist_at(store, playlist)->0, track.local_id, now);
                lemma_playlist_footprint(
                    removed(playlist_at(store, playlist)->0, track.local_id, now),
                );
            }
        },
        _ => {},
    }
}

/// Bytes that store a record of one kind store none of another kind: the
/// tag tells them apart.
pub proof fn lemma_kinds_are_told_apart(bytes: Seq<u8>)
    ensures
        UserProfile::decoding(bytes) is Some ==> Track::decoding(bytes) is None
            && Playlist::decoding(bytes) is None,
        Track::decoding(bytes) is Some ==> UserProfile::decoding(bytes) is None
            && Playlist::decoding(bytes) is None,
        Playlist::decoding(bytes) is Some ==> UserProfile::decoding(bytes) is None
            && Track::decoding(bytes) is None,
{
}

/// A profile and a track, once stored, stay as they are whatever is asked of
/// the catalog afterwards, and by whom.
pub proof fn lemma_profiles_and_tracks_never_change(
    request: Request,
    store: Slots,
    caller: Identity,
    now: i64,
    owner: Identity,
    track_id: u64,
)
    ensures
        profile_of(store, owner) is Some ==> profile_of(
            request.effect(store, caller, now),
            owner,
        ) == profile_of(store, owner),
        track_of(store, owner, track_id) is Some ==> track_of(
            request.effect(store, caller, now),
            owner,
            track_id,
        ) == track_of(store, owner, track_id),
{
    let profile = address_of(EntityKind::UserProfile, owner, 0);
    let track = address_of(EntityKind::Track, owner, track_id);
    if store.contains_key(profile) {
        lemma_kinds_are_told_apart(store[profile]);
    }
    if store.contains_key(track) {
        lemma_kinds_are_told_apart(store[track]);
    }
}

/// A playlist, once stored, stays a playlist, and keeps its id, its owner,
/// its name, its description and its time of creation whatever is asked of
/// the catalog afterwards, and by whom.
pub proof fn lemma_playlists_keep_their_owner(
    request: Request,
    store: Slots,
    caller: Identity,
    now: i64,
    address: Address,
)
    requires
        playlist_at(store, address) is Some,
    ensures
        playlist_at(request.effect(store, caller, now), address) is Some,
        same_but_for_tracks(
            playlist_at(store, address)->0,
            playlist_at(request.effect(store, caller, now), address)->0,
        ),
{
    lemma_kinds_are_told_apart(store[address]);
    match request {
        Request::AddTrackToPlaylist { playlist, track } => {
            if playlist == address {
                lemma_changes_keep_the_owner(store, caller, playlist, track, now);
                if add_track_outcome(store, caller, playlist) is Ok {
                    lemma_added_track_is_found(store, caller, playlist, track, now);
                }
            }
        },
        Request::RemoveTrackFromPlaylist { playlist, track } => {
            if playlist == address {
                lemma_changes_keep_the_owner(store, caller, playlist, track, now);
                if remove_track_outcome(store, caller, playlist, track) is Ok {
                    lemma_removed_track_is_gone(store, caller, playlist, track, now);
                }
            }
        },
        _ => {},
    }
}

/// Whether the slot at `address` stores the record that the address names:
/// one of its kind, of its owner and with its id.
pub open spec fn holds_its_record(store: Slots, address: Address) -> bool {
    match address.kind {
        EntityKind::UserProfile => {
            &&& address.local_id == 0
            &&& UserProfile::decoding(store[address]) matches Some(profile)
            &&& profile.user == address.owner@
        },
        EntityKind::Track => {
            &&& Track::decoding(store[address]) matches Some(track)
            &&& track.owner == address.owner@
            &&& track.id == address.local_id
        },
        EntityKind::Playlist => {
            &&& Playlist::decoding(store[address]) matches Some(playlist)
            &&& playlist.owner == address.owner@
            &&& playlist.id == address.local_id
        },
    }
}

/// Whether every allocated slot stores the record that its address names.
pub open spec fn in_order(store: Slots) -> bool {
    forall|address: Address|
        store.contains_key(address) ==> #[trigger] holds_its_record(store, address)
}

/// A store with nothing in it is in order.
pub proof fn lemma_empty_store_is_in_order()
    ensures
        in_order(Slots::empty()),
{
}

/// The operations keep the store in order: whatever is asked, and by whom,
/// every record is afterwards still found at the address that its kind, its
/// owner and its id give.
pub proof fn lemma_operations_keep_the_store_in_order(
    request: Request,
    store: Slots,
    caller: Identity,
    now: i64,
)
    requires
        in_order(store),
    ensures
        in_order(request.effect(store, caller, now)),
{
    let after = request.effect(store, caller, now);
    let target = request.target(caller);
    assert forall|address: Address| after.contains_key(address) implies #[trigger] holds_its_record(
        after,
        address,
    ) by {
        if address != target || request.outcome(store, caller) is Err {
            assert(holds_its_record(store, address));
        } else {
            match request {
                Request::InitializeUser { username, email } => {
                    lemma_registered_profile_is_found(store, caller, username, email, now);
                },
                Request::UploadTrack { track_id, title, artist, genre, uri } => {
                    lemma_published_track_is_found(
                        store,
                        caller,
                        track_id,
                        title,
                        artist,
                        genre,
                        uri,
                        now,
                    );
                },
                Request::CreatePlaylist { playlist_id, name, description } => {
                    lemma_created_playlist_is_found(
                        store,
                        caller,
                        playlist_id,
                        name,
                        description,
                        now,
                    );
                },
                Request::AddTrackToPlaylist { playlist, track } => {
                    assert(holds_its_record(store, playlist));
                    lemma_added_track_is_found(store, caller, playlist, track, now);
                },
                Request::RemoveTrackFromPlaylist { playlist, track } => {
                    assert(holds_its_record(store, playlist));
                    lemma_removed_track_is_gone(store, caller, playlist, track, now);
                },
            }
        }
    }
}

} // verus!
