//! Playlists: an owner's ordered list of track ids, at most fifty long.

use crate::errors::ErrorCode;
use crate::identity::Identity;
use crate::layout::{
    fits, get_identity, get_prefix, get_text, get_timestamp, get_word, identity_at,
    lemma_field_widths, lemma_identity_at, lemma_prefix_at, lemma_text_at, lemma_text_at_fits,
    lemma_text_field_width, lemma_timestamp_at, lemma_word_at, prefix, prefix_at, put_bytes,
    put_prefix, put_text, put_timestamp, put_word, put_zeros, text_at, text_field, text_fits,
    timestamp, timestamp_at, word, word_at, zeros, HEADER_LEN, IDENTITY_LEN, PREFIX_LEN, WORD_LEN,
};
use vstd::bytes::*;
use vstd::prelude::*;
use vstd::slice::*;
use vstd::string::*;

verus! {

/// An owner's list of tracks. Only the owner may add to it or remove from
/// it; everything but the list and the time of the last change stays as it
/// was created.
#[derive(Clone, Debug, PartialEq, Eq)]
pub struct Playlist {
    /// Chosen by the owner, and unique among the owner's playlists.
    pub id: u64,
    pub owner: Identity,
    pub name: String,
    pub description: String,
    /// Track ids in the order they were added. An id may occur twice, and
    /// need not be that of a stored track.
    pub tracks: Vec<u64>,
    pub created_at: i64,
    pub updated_at: i64,
}

/// What a playlist holds: the owner as its bytes, each text as its
/// characters, the tracks as the sequence of their ids.
pub struct PlaylistView {
    pub id: u64,
    pub owner: Seq<u8>,
    pub name: Seq<char>,
    pub description: Seq<char>,
    pub tracks: Seq<u64>,
    pub created_at: i64,
    pub updated_at: i64,
}

impl View for Playlist {
    type V = PlaylistView;

    open spec fn view(&self) -> PlaylistView {
        PlaylistView {
            id: self.id,
            owner: self.owner@,
            name: self.name@,
            description: self.description@,
            tracks: self.tracks@,
            created_at: self.created_at,
            updated_at: self.updated_at,
        }
    }
}

impl Default for Playlist {
    /// A playlist with nothing filled in.
    fn default() -> (playlist: Playlist)
        ensures
            playlist@ == (PlaylistView {
                id: 0,
                owner: zeros(IDENTITY_LEN as nat),
                name: Seq::empty(),
                description: Seq::empty(),
                tracks: Seq::empty(),
                created_at: 0,
                updated_at: 0,
            }),
    {
        Playlist {
            id: 0,
            owner: Identity::default(),
            name: String::new(),
            description: String::new(),
            tracks: Vec::new(),
            created_at: 0,
            updated_at: 0,
        }
    }
}

/// The given ids, eight bytes each, one after the other.
pub open spec fn ids_bytes(ids: Seq<u64>) -> Seq<u8>
    decreases ids.len(),
{
    if ids.len() == 0 {
        Seq::empty()
    } else {
        ids_bytes(ids.drop_last()) + word(ids.last())
    }
}

/// The track list as stored: how many ids there are, the ids, and zeros in
/// the room of those that could still be added.
pub open spec fn tracks_field(ids: Seq<u64>) -> Seq<u8>
    recommends
        ids.len() <= Playlist::MAX_TRACKS,
{
    prefix(ids.len() as u32) + ids_bytes(ids) + zeros(
        (WORD_LEN * (Playlist::MAX_TRACKS - ids.len())) as nat,
    )
}

/// The track list stored at offset `at`, if its count is within the limit.
/// Bytes past the counted ids are not looked at.
pub open spec fn tracks_at(bytes: Seq<u8>, at: int) -> Option<Seq<u64>>
    recommends
        0 <= at,
        at + PREFIX_LEN + WORD_LEN * Playlist::MAX_TRACKS <= bytes.len(),
{
    let count = prefix_at(bytes, at) as nat;
    if count <= Playlist::MAX_TRACKS {
        Some(Seq::new(count, |i: int| word_at(bytes, at + PREFIX_LEN + WORD_LEN * i)))
    } else {
        None
    }
}

impl PlaylistView {
    /// Whether every field fits the room the layout gives it.
    pub open spec fn wf(self) -> bool {
        &&& self.owner.len() == IDENTITY_LEN
        &&& fits(self.name, Playlist::MAX_NAME_LEN as nat)
        &&& fits(self.description, Playlist::MAX_DESC_LEN as nat)
        &&& self.tracks.len() <= Playlist::MAX_TRACKS
    }

    /// The stored bytes of a playlist.
    pub open spec fn encoding(self) -> Seq<u8>
        recommends
            self.wf(),
    {
        word(Playlist::TAG) + word(self.id) + self.owner + text_field(
            self.name,
            Playlist::MAX_NAME_LEN as nat,
        ) + text_field(self.description, Playlist::MAX_DESC_LEN as nat) + tracks_field(self.tracks)
            + timestamp(self.created_at) + timestamp(self.updated_at)
    }
}

impl Playlist {
    /// How many bytes a name may take.
    pub const MAX_NAME_LEN: usize = 64;

    /// How many bytes a description may take.
    pub const MAX_DESC_LEN: usize = 128;

    /// How many tracks a playlist may list.
    pub const MAX_TRACKS: usize = 50;

    /// Tag that opens the stored bytes of a playlist.
    pub const TAG: u64 = 3;

    /// Footprint of a stored playlist: the tag, the id, the owner, the two
    /// texts, the track list with room for every track it may hold, and the
    /// two timestamps.
    pub const LEN: usize = HEADER_LEN + WORD_LEN + IDENTITY_LEN + PREFIX_LEN + Self::MAX_NAME_LEN
        + PREFIX_LEN + Self::MAX_DESC_LEN + PREFIX_LEN + (Self::MAX_TRACKS * WORD_LEN) + WORD_LEN
        + WORD_LEN;

    /// Where the id starts.
    pub const ID_OFFSET: usize = HEADER_LEN;

    /// Where the owner starts.
    pub const OWNER_OFFSET: usize = Self::ID_OFFSET + WORD_LEN;

    /// Where the name starts.
    pub const NAME_OFFSET: usize = Self::OWNER_OFFSET + IDENTITY_LEN;

    /// Where the description starts.
    pub const DESC_OFFSET: usize = Self::NAME_OFFSET + PREFIX_LEN + Self::MAX_NAME_LEN;

    /// Where the track list starts.
    pub const TRACKS_OFFSET: usize = Self::DESC_OFFSET + PREFIX_LEN + Self::MAX_DESC_LEN;

    /// Where the time of creation starts.
    pub const CREATED_AT_OFFSET: usize = Self::TRACKS_OFFSET + PREFIX_LEN + (Self::MAX_TRACKS
        * WORD_LEN);

    /// Where the time of the last change starts.
    pub const UPDATED_AT_OFFSET: usize = Self::CREATED_AT_OFFSET + WORD_LEN;

    /// The playlist that the given bytes store, if they store one: they have
    /// the footprint of a playlist, open with its tag, both text fields are
    /// sound and the track count is within the limit.
    pub open spec fn decoding(bytes: Seq<u8>) -> Option<PlaylistView> {
        let name = text_at(bytes, Self::NAME_OFFSET as int, Self::MAX_NAME_LEN as nat);
        let description = text_at(bytes, Self::DESC_OFFSET as int, Self::MAX_DESC_LEN as nat);
        let tracks = tracks_at(bytes, Self::TRACKS_OFFSET as int);
        if bytes.len() == Self::LEN
            && word_at(bytes, 0) == Self::TAG
            && name is Some
            && description is Some
            && tracks is Some {
            Some(
                PlaylistView {
                    id: word_at(bytes, Self::ID_OFFSET as int),
                    owner: identity_at(bytes, Self::OWNER_OFFSET as int),
                    name: name->0,
                    description: description->0,
                    tracks: tracks->0,
                    created_at: timestamp_at(bytes, Self::CREATED_AT_OFFSET as int),
                    updated_at: timestamp_at(bytes, Self::UPDATED_AT_OFFSET as int),
                },
            )
        } else {
            None
        }
    }

    /// Whether every field fits the room the layout gives it.
    pub fn fits_layout(&self) -> (b: bool)
        ensures
            b == self@.wf(),
    {
        text_fits(self.name.as_str(), Self::MAX_NAME_LEN) && text_fits(
            self.description.as_str(),
            Self::MAX_DESC_LEN,
        ) && self.tracks.len() <= Self::MAX_TRACKS
    }

    /// The stored bytes of this playlist. A playlist with a field that does
    /// not fit, or with more tracks than the limit, is refused: nothing is
    /// ever cut short.
    pub fn encode(&self) -> (r: Result<Vec<u8>, ErrorCode>)
        ensures
            match r {
                Ok(bytes) => self@.wf() && bytes@ == self@.encoding(),
                Err(e) => !self@.wf() && e == ErrorCode::InvalidInputData,
            },
    {
        if !self.fits_layout() {
            return Err(ErrorCode::InvalidInputData);
        }
        let mut bytes: Vec<u8> = Vec::new();
        put_word(&mut bytes, Self::TAG);
        put_word(&mut bytes, self.id);
        put_bytes(&mut bytes, self.owner.bytes.as_slice());
        put_text(&mut bytes, self.name.as_str(), Self::MAX_NAME_LEN);
        put_text(&mut bytes, self.description.as_str(), Self::MAX_DESC_LEN);
        put_tracks(&mut bytes, &self.tracks);
        put_timestamp(&mut bytes, self.created_at);
        put_timestamp(&mut bytes, self.updated_at);
        assert(bytes@ =~= self@.encoding());
        Ok(bytes)
    }

    /// Reads a playlist back from stored bytes.
    pub fn decode(bytes: &[u8]) -> (r: Option<Playlist>)
        ensures
            match r {
                Some(playlist) => Self::decoding(bytes@) == Some(playlist@),
                None => Self::decoding(bytes@) is None,
            },
    {
        if bytes.len() != Self::LEN {
            return None;
        }
        if get_word(bytes, 0) != Self::TAG {
            return None;
        }
        let name = match get_text(bytes, Self::NAME_OFFSET, Self::MAX_NAME_LEN) {
            Some(text) => text,
            None => {
                return None;
            },
        };
        let description = match get_text(bytes, Self::DESC_OFFSET, Self::MAX_DESC_LEN) {
            Some(text) => text,
            None => {
                return None;
            },
        };
        let tracks = match get_tracks(bytes, Self::TRACKS_OFFSET) {
            Some(ids) => ids,
            None => {
                return None;
            },
        };
        Some(
            Playlist {
                id: get_word(bytes, Self::ID_OFFSET),
                owner: Identity::new(get_identity(bytes, Self::OWNER_OFFSET)),
                name,
                description,
                tracks,
                created_at: get_timestamp(bytes, Self::CREATED_AT_OFFSET),
                updated_at: get_timestamp(bytes, Self::UPDATED_AT_OFFSET),
            },
        )
    }
}

/// Appends a track list.
fn put_tracks(buf: &mut Vec<u8>, ids: &Vec<u64>)
    requires
        ids@.len() <= Playlist::MAX_TRACKS,
    ensures
        final(buf)@ == old(buf)@ + tracks_field(ids@),
{
    let count: usize = ids.len();
    put_prefix(buf, count as u32);
    let ghost start = buf@;
    let mut i: usize = 0;
    while i < count
        invariant
            i <= count,
            count == ids@.len(),
            buf@ == start + ids_bytes(ids@.take(i as int)),
        decreases count - i,
    {
        put_word(buf, ids[i]);
        proof {
            assert(ids@.take(i + 1).drop_last() =~= ids@.take(i as int));
            assert(buf@ =~= start + ids_bytes(ids@.take(i + 1)));
        }
        i += 1;
    }
    assert(ids@.take(count as int) =~= ids@);
    put_zeros(buf, WORD_LEN * (Playlist::MAX_TRACKS - count));
    assert(buf@ =~= old(buf)@ + tracks_field(ids@));
}

/// Reads the track list at offset `at`, or nothing where its count is over
/// the limit.
fn get_tracks(bytes: &[u8], at: usize) -> (r: Option<Vec<u64>>)
    requires
        at + PREFIX_LEN + WORD_LEN * Playlist::MAX_TRACKS <= bytes@.len(),
    ensures
        match r {
            Some(ids) => tracks_at(bytes@, at as int) == Some(ids@),
            None => tracks_at(bytes@, at as int) is None,
        },
{
    proof {
        axiom_spec_len(bytes);
    }
    let count: usize = get_prefix(bytes, at) as usize;
    if count > Playlist::MAX_TRACKS {
        return None;
    }
    let mut ids: Vec<u64> = Vec::new();
    let mut i: usize = 0;
    while i < count
        invariant
            i <= count <= Playlist::MAX_TRACKS,
            at + PREFIX_LEN + WORD_LEN * Playlist::MAX_TRACKS <= bytes@.len() <= usize::MAX,
            ids@.len() == i,
            forall|j: int|
                0 <= j < i ==> ids@[j] == word_at(bytes@, at + PREFIX_LEN + WORD_LEN * j),
        decreases count - i,
    {
        ids.push(get_word(bytes, at + PREFIX_LEN + WORD_LEN * i));
        i += 1;
    }
    assert(ids@ =~= tracks_at(bytes@, at as int)->0);
    Some(ids)
}

/// Each id takes eight bytes.
pub proof fn lemma_ids_bytes_len(ids: Seq<u64>)
    ensures
        ids_bytes(ids).len() == WORD_LEN * ids.len(),
    decreases ids.len(),
{
    if ids.len() > 0 {
        lemma_ids_bytes_len(ids.drop_last());
        lemma_field_widths();
    }
}

/// The `i`-th id is stored at the `i`-th place.
pub proof fn lemma_ids_bytes_word(ids: Seq<u64>, i: int)
    requires
        0 <= i < ids.len(),
    ensures
        ids_bytes(ids).subrange(WORD_LEN * i, WORD_LEN * i + WORD_LEN) == word(ids[i]),
    decreases ids.len(),
{
    let front = ids_bytes(ids.drop_last());
    let from = WORD_LEN * i;
    let to = WORD_LEN * i + WORD_LEN;
    lemma_ids_bytes_len(ids.drop_last());
    lemma_field_widths();
    if i == ids.len() - 1 {
        assert((front + word(ids.last())).subrange(from, to) =~= word(ids.last()));
    } else {
        lemma_ids_bytes_word(ids.drop_last(), i);
        assert((front + word(ids.last())).subrange(from, to) =~= front.subrange(from, to));
    }
}

/// A track list is as wide as its limit calls for, however many ids it has.
pub proof fn lemma_tracks_field_width(ids: Seq<u64>)
    requires
        ids.len() <= Playlist::MAX_TRACKS,
    ensures
        tracks_field(ids).len() == PREFIX_LEN + WORD_LEN * Playlist::MAX_TRACKS,
{
    lemma_ids_bytes_len(ids);
    lemma_field_widths();
}

/// Reading a track list where one was written gives the ids back.
pub proof fn lemma_tracks_at(before: Seq<u8>, ids: Seq<u64>, after: Seq<u8>)
    requires
        ids.len() <= Playlist::MAX_TRACKS,
    ensures
        tracks_at(before + tracks_field(ids) + after, before.len() as int) == Some(ids),
{
    let at = before.len() as int;
    let count = prefix(ids.len() as u32);
    let fill = zeros((WORD_LEN * (Playlist::MAX_TRACKS - ids.len())) as nat);
    let all = before + tracks_field(ids) + after;
    lemma_ids_bytes_len(ids);
    lemma_field_widths();
    assert(prefix_at(all, at) == ids.len()) by {
        assert(all =~= before + count + (ids_bytes(ids) + fill + after));
        lemma_prefix_at(before, ids.len() as u32, ids_bytes(ids) + fill + after);
    }
    let read = tracks_at(all, at)->0;
    assert forall|i: int| 0 <= i < ids.len() implies read[i] == ids[i] by {
        let from = WORD_LEN * i;
        let to = WORD_LEN * i + WORD_LEN;
        lemma_ids_bytes_word(ids, i);
        assert(all.subrange(at + PREFIX_LEN + from, at + PREFIX_LEN + to) =~= ids_bytes(
            ids,
        ).subrange(from, to));
        lemma_auto_spec_u64_to_from_le_bytes();
    }
    assert(read =~= ids);
}

/// A stored playlist has the footprint of a playlist.
pub proof fn lemma_playlist_footprint(playlist: PlaylistView)
    requires
        playlist.wf(),
    ensures
        playlist.encoding().len() == Playlist::LEN,
{
    lemma_field_widths();
    lemma_text_field_width(playlist.name, Playlist::MAX_NAME_LEN as nat);
    lemma_text_field_width(playlist.description, Playlist::MAX_DESC_LEN as nat);
    lemma_tracks_field_width(playlist.tracks);
}

/// What is stored is what is read back.
pub proof fn lemma_playlist_round_trip(playlist: PlaylistView)
    requires
        playlist.wf(),
    ensures
        Playlist::decoding(playlist.encoding()) == Some(playlist),
{
    let tag = word(Playlist::TAG);
    let id = word(playlist.id);
    let owner = playlist.owner;
    let name = text_field(playlist.name, Playlist::MAX_NAME_LEN as nat);
    let description = text_field(playlist.description, Playlist::MAX_DESC_LEN as nat);
    let tracks = tracks_field(playlist.tracks);
    let created = timestamp(playlist.created_at);
    let updated = timestamp(playlist.updated_at);
    let all = playlist.encoding();
    let none = Seq::<u8>::empty();
    lemma_playlist_footprint(playlist);
    lemma_field_widths();
    lemma_text_field_width(playlist.name, Playlist::MAX_NAME_LEN as nat);
    lemma_text_field_width(playlist.description, Playlist::MAX_DESC_LEN as nat);
    lemma_tracks_field_width(playlist.tracks);

    assert(word_at(all, 0) == Playlist::TAG) by {
        assert(all =~= none + tag + (id + owner + name + description + tracks + created + updated));
        lemma_word_at(
            none,
            Playlist::TAG,
            id + owner + name + description + tracks + created + updated,
        );
    }
    assert(word_at(all, Playlist::ID_OFFSET as int) == playlist.id) by {
        assert(all =~= tag + id + (owner + name + description + tracks + created + updated));
        lemma_word_at(tag, playlist.id, owner + name + description + tracks + created + updated);
    }
    assert(identity_at(all, Playlist::OWNER_OFFSET as int) == playlist.owner) by {
        assert(all =~= (tag + id) + owner + (name + description + tracks + created + updated));
        lemma_identity_at(tag + id, owner, name + description + tracks + created + updated);
    }
    assert(text_at(all, Playlist::NAME_OFFSET as int, Playlist::MAX_NAME_LEN as nat) == Some(
        playlist.name,
    )) by {
        assert(all =~= (tag + id + owner) + name + (description + tracks + created + updated));
        lemma_text_at(
            tag + id + owner,
            playlist.name,
            Playlist::MAX_NAME_LEN as nat,
            description + tracks + created + updated,
        );
    }
    assert(text_at(all, Playlist::DESC_OFFSET as int, Playlist::MAX_DESC_LEN as nat) == Some(
        playlist.description,
    )) by {
        assert(all =~= (tag + id + owner + name) + description + (tracks + created + updated));
        lemma_text_at(
            tag + id + owner + name,
            playlist.description,
            Playlist::MAX_DESC_LEN as nat,
            tracks + created + updated,
        );
    }
    assert(tracks_at(all, Playlist::TRACKS_OFFSET as int) == Some(playlist.tracks)) by {
        assert(all =~= (tag + id + owner + name + description) + tracks + (created + updated));
        lemma_tracks_at(tag + id + owner + name + description, playlist.tracks, created + updated);
    }
    assert(timestamp_at(all, Playlist::CREATED_AT_OFFSET as int) == playlist.created_at) by {
        assert(all =~= (tag + id + owner + name + description + tracks) + created + updated);
        lemma_timestamp_at(
            tag + id + owner + name + description + tracks,
            playlist.created_at,
            updated,
        );
    }
    assert(timestamp_at(all, Playlist::UPDATED_AT_OFFSET as int) == playlist.updated_at) by {
        assert(all =~= (tag + id + owner + name + description + tracks + created) + updated + none);
        lemma_timestamp_at(
            tag + id + owner + name + description + tracks + created,
            playlist.updated_at,
            none,
        );
    }
}

/// Whatever is read back as a playlist fits the layout.
pub proof fn lemma_playlist_decoding_wf(bytes: Seq<u8>)
    requires
        Playlist::decoding(bytes) is Some,
    ensures
        Playlist::decoding(bytes)->0.wf(),
{
    lemma_text_at_fits(bytes, Playlist::NAME_OFFSET as int, Playlist::MAX_NAME_LEN as nat);
    lemma_text_at_fits(bytes, Playlist::DESC_OFFSET as int, Playlist::MAX_DESC_LEN as nat);
}

} // verus!
