//! A catalog of music records: profiles, tracks and playlists, each stored
//! in a slot of fixed size at an address that its owner and its id give, and
//! each changed by its owner alone.
//!
//! The operations below take the store, the caller and the time; they either
//! apply in full or refuse and leave the store as it was.

pub mod errors;
pub mod guard;
pub mod identity;
pub mod instructions;
pub mod laws;
pub mod layout;
pub mod state;
pub mod store;

use crate::errors::ErrorCode;
use crate::identity::Identity;
use crate::instructions::add_track_to_playlist::AddTrackToPlaylist;
use crate::instructions::create_playlist::CreatePlaylist;
use crate::instructions::initialize_user::InitializeUser;
use crate::instructions::remove_track_from_playlist::{lemma_removed_fits, DeleteTrackFromPlaylist};
use crate::instructions::upload_track::UploadTrack;
use crate::state::playlist::{
    lemma_playlist_decoding_wf, lemma_playlist_footprint, Playlist, PlaylistView,
};
use crate::state::track::{lemma_track_footprint, text_view, Track, TrackView};
use crate::state::user_profile::{lemma_profile_footprint, UserProfile, UserProfileView};
use crate::store::{
    address_of, create_outcome, derive_address, Address, EntityKind, RecordStore, Slots,
};
use vstd::prelude::*;

verus! {

/// The profile of `owner`, if the store has one.
pub open spec fn profile_of(store: Slots, owner: Identity) -> Option<UserProfileView> {
    let address = address_of(EntityKind::UserProfile, owner, 0);
    if store.contains_key(address) {
        UserProfile::decoding(store[address])
    } else {
        None
    }
}

/// The track that `owner` knows by `track_id`, if the store has one.
pub open spec fn track_of(store: Slots, owner: Identity, track_id: u64) -> Option<TrackView> {
    let address = address_of(EntityKind::Track, owner, track_id);
    if store.contains_key(address) {
        Track::decoding(store[address])
    } else {
        None
    }
}

/// The playlist stored at `address`, if there is one.
pub open spec fn playlist_at(store: Slots, address: Address) -> Option<PlaylistView> {
    if store.contains_key(address) {
        Playlist::decoding(store[address])
    } else {
        None
    }
}

/// The playlist that `owner` knows by `playlist_id`, if the store has one.
pub open spec fn playlist_of(store: Slots, owner: Identity, playlist_id: u64) -> Option<
    PlaylistView,
> {
    playlist_at(store, address_of(EntityKind::Playlist, owner, playlist_id))
}

/// How [`initialize_user`] ends: inputs that are too long are refused first,
/// then a second profile for the same owner.
pub open spec fn initialize_user_outcome(
    store: Slots,
    signer: Identity,
    username: Seq<char>,
    email: Seq<char>,
) -> Result<(), ErrorCode> {
    if instructions::initialize_user::outcome(username, email) is Err {
        instructions::initialize_user::outcome(username, email)
    } else if store.contains_key(address_of(EntityKind::UserProfile, signer, 0)) {
        Err(ErrorCode::AlreadyExists)
    } else {
        Ok(())
    }
}

/// What [`initialize_user`] leaves in the store.
pub open spec fn initialize_user_effect(
    store: Slots,
    signer: Identity,
    username: Seq<char>,
    email: Seq<char>,
    now: i64,
) -> Slots {
    if initialize_user_outcome(store, signer, username, email) is Ok {
        store.insert(
            address_of(EntityKind::UserProfile, signer, 0),
            instructions::initialize_user::registered(signer@, username, email, now).encoding(),
        )
    } else {
        store
    }
}

/// Registers the profile of `signer`, stamped with the time `now`.
pub fn initialize_user(
    store: &mut RecordStore,
    signer: &Identity,
    username: String,
    email: String,
    now: i64,
) -> (r: Result<(), ErrorCode>)
    ensures
        r == initialize_user_outcome(old(store)@, *signer, username@, email@),
        final(store)@ == initialize_user_effect(old(store)@, *signer, username@, email@, now),
        r is Err ==> final(store)@ == old(store)@,
{
    let mut ctx = InitializeUser { user_profile: UserProfile::default(), signer: *signer };
    match instructions::initialize_user::handler(&mut ctx, username, email, now) {
        Ok(()) => {},
        Err(e) => {
            return Err(e);
        },
    }
    let bytes = match ctx.user_profile.encode() {
        Ok(bytes) => bytes,
        Err(e) => {
            return Err(e);
        },
    };
    proof {
        lemma_profile_footprint(ctx.user_profile@);
    }
    let address = derive_address(EntityKind::UserProfile, signer, 0);
    allocate(store, address, UserProfile::LEN, bytes.as_slice())
}

/// How [`upload_track`] ends: inputs that are too long are refused first,
/// then an id that the owner has used for a track before.
pub open spec fn upload_track_outcome(
    store: Slots,
    signer: Identity,
    track_id: u64,
    title: Seq<char>,
    artist: Option<Seq<char>>,
    genre: Option<Seq<char>>,
    uri: Seq<char>,
) -> Result<(), ErrorCode> {
    if instructions::upload_track::outcome(title, artist, genre, uri) is Err {
        instructions::upload_track::outcome(title, artist, genre, uri)
    } else if store.contains_key(address_of(EntityKind::Track, signer, track_id)) {
        Err(ErrorCode::AlreadyExists)
    } else {
        Ok(())
    }
}

/// What [`upload_track`] leaves in the store.
pub open spec fn upload_track_effect(
    store: Slots,
    signer: Identity,
    track_id: u64,
    title: Seq<char>,
    artist: Option<Seq<char>>,
    genre: Option<Seq<char>>,
    uri: Seq<char>,
    now: i64,
) -> Slots {
    if upload_track_outcome(store, signer, track_id, title, artist, genre, uri) is Ok {
        store.insert(
            address_of(EntityKind::Track, signer, track_id),
            instructions::upload_track::published(
                signer@,
                track_id,
                title,
                artist,
                genre,
                uri,
                now,
            ).encoding(),
        )
    } else {
        store
    }
}

/// Publishes a track of `signer` under `track_id`, stamped with the time
/// `now`. The artist and the genre may be left out.
pub fn upload_track(
    store: &mut RecordStore,
    signer: &Identity,
    track_id: u64,
    title: String,
    artist: Option<String>,
    genre: Option<String>,
    uri: String,
    now: i64,
) -> (r: Result<(), ErrorCode>)
    ensures
        r == upload_track_outcome(
            old(store)@,
            *signer,
            track_id,
            title@,
            text_view(artist),
            text_view(genre),
            uri@,
        ),
        final(store)@ == upload_track_effect(
            old(store)@,
            *signer,
            track_id,
            title@,
            text_view(artist),
            text_view(genre),
            uri@,
            now,
        ),
        r is Err ==> final(store)@ == old(store)@,
{
    let mut ctx = UploadTrack { track: Track::default(), signer: *signer };
    match instructions::upload_track::handler(&mut ctx, track_id, title, artist, genre, uri, now) {
        Ok(()) => {},
        Err(e) => {
            return Err(e);
        },
    }
    let bytes = match ctx.track.encode() {
        Ok(bytes) => bytes,
        Err(e) => {
            return Err(e);
        },
    };
    proof {
        lemma_track_footprint(ctx.track@);
    }
    let address = derive_address(EntityKind::Track, signer, track_id);
    allocate(store, address, ctx.track.footprint(), bytes.as_slice())
}

/// How [`create_playlist`] ends: inputs that are too long are refused first,
/// then an id that the owner has used for a playlist before.
pub open spec fn create_playlist_outcome(
    store: Slots,
    signer: Identity,
    playlist_id: u64,
    name: Seq<char>,
    description: Seq<char>,
) -> Result<(), ErrorCode> {
    if instructions::create_playlist::outcome(name, description) is Err {
        instructions::create_playlist::outcome(name, description)
    } else if store.contains_key(address_of(EntityKind::Playlist, signer, playlist_id)) {
        Err(ErrorCode::AlreadyExists)
    } else {
        Ok(())
    }
}

/// What [`create_playlist`] leaves in the store.
pub open spec fn create_playlist_effect(
    store: Slots,
    signer: Identity,
    playlist_id: u64,
    name: Seq<char>,
    description: Seq<char>,
    now: i64,
) -> Slots {
    if create_playlist_outcome(store, signer, playlist_id, name, description) is Ok {
        store.insert(
            address_of(EntityKind::Playlist, signer, playlist_id),
            instructions::create_playlist::created(
                signer@,
                playlist_id,
                name,
                description,
                now,
            ).encoding(),
        )
    } else {
        store
    }
}

/// Creates an empty playlist of `signer` under `playlist_id`, stamped with
/// the time `now`.
pub fn create_playlist(
    store: &mut RecordStore,
    signer: &Identity,
    playlist_id: u64,
    name: String,
    description: String,
    now: i64,
) -> (r: Result<(), ErrorCode>)
    ensures
        r == create_playlist_outcome(old(store)@, *signer, playlist_id, name@, description@),
        final(store)@ == create_playlist_effect(
            old(store)@,
            *signer,
            playlist_id,
            name@,
            description@,
            now,
        ),
        r is Err ==> final(store)@ == old(store)@,
{
    let mut ctx = CreatePlaylist { playlist: Playlist::default(), signer: *signer };
    match instructions::create_playlist::handler(&mut ctx, playlist_id, name, description, now) {
        Ok(()) => {},
        Err(e) => {
            return Err(e);
        },
    }
    let bytes = match ctx.playlist.encode() {
        Ok(bytes) => bytes,
        Err(e) => {
            return Err(e);
        },
    };
    proof {
        lemma_playlist_footprint(ctx.playlist@);
    }
    let address = derive_address(EntityKind::Playlist, signer, playlist_id);
    allocate(store, address, Playlist::LEN, bytes.as_slice())
}

/// How [`add_track_to_playlist`] ends: there must be a playlist at the
/// address, the caller must own it, and it must have room.
pub open spec fn add_track_outcome(store: Slots, caller: Identity, playlist: Address) -> Result<
    (),
    ErrorCode,
> {
    match playlist_at(store, playlist) {
        Some(found) => instructions::add_track_to_playlist::outcome(found, caller@),
        None => Err(ErrorCode::PlaylistNotFound),
    }
}

/// What [`add_track_to_playlist`] leaves in the store.
pub open spec fn add_track_effect(
    store: Slots,
    caller: Identity,
    playlist: Address,
    track: Address,
    now: i64,
) -> Slots {
    if add_track_outcome(store, caller, playlist) is Ok {
        store.insert(
            playlist,
            instructions::add_track_to_playlist::added(
                playlist_at(store, playlist)->0,
                track.local_id,
                now,
            ).encoding(),
        )
    } else {
        store
    }
}

/// Appends the id of `track` to the playlist at `playlist`, and notes `now`
/// as the time of the change. Whether a track is stored at `track` is not
/// looked at.
pub fn add_track_to_playlist(
    store: &mut RecordStore,
    caller: &Identity,
    playlist: &Address,
    track: &Address,
    now: i64,
) -> (r: Result<(), ErrorCode>)
    ensures
        r == add_track_outcome(old(store)@, *caller, *playlist),
        final(store)@ == add_track_effect(old(store)@, *caller, *playlist, *track, now),
        r is Err ==> final(store)@ == old(store)@,
{
    let found = match load_playlist(store, playlist) {
        Some(found) => found,
        None => {
            return Err(ErrorCode::PlaylistNotFound);
        },
    };
    let mut ctx = AddTrackToPlaylist { playlist: found, track: *track, owner: *caller };
    match instructions::add_track_to_playlist::handler(&mut ctx, now) {
        Ok(()) => {},
        Err(e) => {
            return Err(e);
        },
    }
    replace_playlist(store, playlist, &ctx.playlist)
}

/// How [`remove_track_from_playlist`] ends: there must be a playlist at the
/// address, the caller must own it, and it must list the track.
pub open spec fn remove_track_outcome(
    store: Slots,
    caller: Identity,
    playlist: Address,
    track: Address,
) -> Result<(), ErrorCode> {
    match playlist_at(store, playlist) {
        Some(found) => instructions::remove_track_from_playlist::outcome(
            found,
            caller@,
            track.local_id,
        ),
        None => Err(ErrorCode::PlaylistNotFound),
    }
}

/// What [`remove_track_from_playlist`] leaves in the store.
pub open spec fn remove_track_effect(
    store: Slots,
    caller: Identity,
    playlist: Address,
    track: Address,
    now: i64,
) -> Slots {
    if remove_track_outcome(store, caller, playlist, track) is Ok {
        store.insert(
            playlist,
            instructions::remove_track_from_playlist::removed(
                playlist_at(store, playlist)->0,
                track.local_id,
                now,
            ).encoding(),
        )
    } else {
        store
    }
}

/// Takes the first occurrence of the id of `track` out of the playlist at
/// `playlist`, and notes `now` as the time of the change.
pub fn remove_track_from_playlist(
    store: &mut RecordStore,
    caller: &Identity,
    playlist: &Address,
    track: &Address,
    now: i64,
) -> (r: Result<(), ErrorCode>)
    ensures
        r == remove_track_outcome(old(store)@, *caller, *playlist, *track),
        final(store)@ == remove_track_effect(old(store)@, *caller, *playlist, *track, now),
        r is Err ==> final(store)@ == old(store)@,
{
    let found = match load_playlist(store, playlist) {
        Some(found) => found,
        None => {
            return Err(ErrorCode::PlaylistNotFound);
        },
    };
    let mut ctx = DeleteTrackFromPlaylist { playlist: found, track: *track, owner: *caller };
    match instructions::remove_track_from_playlist::handler(&mut ctx, now) {
        Ok(()) => {},
        Err(e) => {
            return Err(e);
        },
    }
    proof {
        lemma_removed_fits(playlist_at(old(store)@, *playlist)->0, track.local_id, now);
    }
    replace_playlist(store, playlist, &ctx.playlist)
}

/// Allocates the slot for a new record and stores the record in it, or
/// refuses where the address is taken.
fn allocate(store: &mut RecordStore, address: Address, footprint: usize, record: &[u8]) -> (r:
    Result<(), ErrorCode>)
    requires
        record@.len() == footprint,
    ensures
        r == create_outcome(old(store)@, address),
        r is Err ==> final(store)@ == old(store)@,
        r is Ok ==> final(store)@ == old(store)@.insert(address, record@),
{
    match store.create(address, footprint) {
        Ok(()) => {},
        Err(e) => {
            return Err(e);
        },
    }
    let r = store.write(&address, record);
    assert(store@ =~= old(store)@.insert(address, record@));
    r
}

/// Stores a playlist that has changed back where it was read from.
fn replace_playlist(store: &mut RecordStore, address: &Address, playlist: &Playlist) -> (r: Result<
    (),
    ErrorCode,
>)
    requires
        playlist_at(old(store)@, *address) is Some,
        playlist@.wf(),
    ensures
        r == Ok::<(), ErrorCode>(()),
        final(store)@ == old(store)@.insert(*address, playlist@.encoding()),
{
    proof {
        lemma_playlist_footprint(playlist@);
    }
    let bytes = match playlist.encode() {
        Ok(bytes) => bytes,
        Err(e) => {
            return Err(e);
        },
    };
    let r = store.write(address, bytes.as_slice());
    assert(store@ =~= old(store)@.insert(*address, playlist@.encoding()));
    r
}

/// The playlist stored at `address`, if there is one.
fn load_playlist(store: &RecordStore, address: &Address) -> (r: Option<Playlist>)
    ensures
        match r {
            Some(found) => playlist_at(store@, *address) == Some(found@) && found@.wf(),
            None => playlist_at(store@, *address) is None,
        },
{
    match store.read(address) {
        Ok(bytes) => {
            proof {
                if Playlist::decoding(bytes@) is Some {
                    lemma_playlist_decoding_wf(bytes@);
                }
            }
            Playlist::decode(bytes.as_slice())
        },
        Err(_) => None,
    }
}

/// Looks up the profile of `owner`.
pub fn get_user_profile(store: &RecordStore, owner: &Identity) -> (r: Result<
    UserProfile,
    ErrorCode,
>)
    ensures
        match r {
            Ok(profile) => profile_of(store@, *owner) == Some(profile@),
            Err(e) => profile_of(store@, *owner) is None && e == ErrorCode::UserProfileNotFound,
        },
{
    let address = derive_address(EntityKind::UserProfile, owner, 0);
    match store.read(&address) {
        Ok(bytes) => match UserProfile::decode(bytes.as_slice()) {
            Some(profile) => Ok(profile),
            None => Err(ErrorCode::UserProfileNotFound),
        },
        Err(_) => Err(ErrorCode::UserProfileNotFound),
    }
}

/// Looks up the track that `owner` knows by `track_id`.
pub fn get_track(store: &RecordStore, owner: &Identity, track_id: u64) -> (r: Result<
    Track,
    ErrorCode,
>)
    ensures
        match r {
            Ok(track) => track_of(store@, *owner, track_id) == Some(track@),
            Err(e) => track_of(store@, *owner, track_id) is None && e == ErrorCode::TrackNotFound,
        },
{
    let address = derive_address(EntityKind::Track, owner, track_id);
    match store.read(&address) {
        Ok(bytes) => match Track::decode(bytes.as_slice()) {
            Some(track) => Ok(track),
            None => Err(ErrorCode::TrackNotFound),
        },
        Err(_) => Err(ErrorCode::TrackNotFound),
    }
}

/// Looks up the playlist that `owner` knows by `playlist_id`.
pub fn get_playlist(store: &RecordStore, owner: &Identity, playlist_id: u64) -> (r: Result<
    Playlist,
    ErrorCode,
>)
    ensures
        match r {
            Ok(playlist) => playlist_of(store@, *owner, playlist_id) == Some(playlist@),
            Err(e) => playlist_of(store@, *owner, playlist_id) is None && e
                == ErrorCode::PlaylistNotFound,
        },
{
    let address = derive_address(EntityKind::Playlist, owner, playlist_id);
    match load_playlist(store, &address) {
        Some(playlist) => Ok(playlist),
        None => Err(ErrorCode::PlaylistNotFound),
    }
}

} // verus!
