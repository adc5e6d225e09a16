//! Tracks: published once, never changed.

use crate::errors::ErrorCode;
use crate::identity::Identity;
use crate::layout::{
    fits, get_identity, get_text, get_timestamp, get_word, identity_at, lemma_field_widths,
    lemma_identity_at, lemma_text_at, lemma_text_at_fits, lemma_text_field_width,
    lemma_timestamp_at, lemma_word_at, put_bytes, put_text, put_timestamp, put_word, text_at,
    text_field, text_fits, timestamp, timestamp_at, word, word_at, zeros, HEADER_LEN, IDENTITY_LEN,
    PREFIX_LEN, WORD_LEN,
};
use vstd::prelude::*;
use vstd::string::*;

verus! {

/// The metadata of one piece of music. A track belongs to whoever published
/// it and never changes afterwards.
#[derive(Clone, Debug, PartialEq, Eq)]
pub struct Track {
    /// Chosen by the owner, and unique among the owner's tracks.
    pub id: u64,
    pub owner: Identity,
    pub title: String,
    pub artist: Option<String>,
    pub genre: Option<String>,
    /// Where the content is. Only its length is looked at.
    pub uri: String,
    pub created_at: i64,
}

/// What a track holds: the owner as its bytes, each text as its characters.
pub struct TrackView {
    pub id: u64,
    pub owner: Seq<u8>,
    pub title: Seq<char>,
    pub artist: Option<Seq<char>>,
    pub genre: Option<Seq<char>>,
    pub uri: Seq<char>,
    pub created_at: i64,
}

/// The view of a text that may be absent.
pub open spec fn text_view(text: Option<String>) -> Option<Seq<char>> {
    match text {
        Some(s) => Some(s@),
        None => None,
    }
}

impl View for Track {
    type V = TrackView;

    open spec fn view(&self) -> TrackView {
        TrackView {
            id: self.id,
            owner: self.owner@,
            title: self.title@,
            artist: text_view(self.artist),
            genre: text_view(self.genre),
            uri: self.uri@,
            created_at: self.created_at,
        }
    }
}

impl Default for Track {
    /// A track with nothing filled in.
    fn default() -> (track: Track)
        ensures
            track@ == (TrackView {
                id: 0,
                owner: zeros(IDENTITY_LEN as nat),
                title: Seq::empty(),
                artist: None,
                genre: None,
                uri: Seq::empty(),
                created_at: 0,
            }),
    {
        Track {
            id: 0,
            owner: Identity::default(),
            title: String::new(),
            artist: None,
            genre: None,
            uri: String::new(),
            created_at: 0,
        }
    }
}

impl TrackView {
    /// Whether every field fits the room the layout gives it.
    pub open spec fn wf(self) -> bool {
        &&& self.owner.len() == IDENTITY_LEN
        &&& fits(self.title, Track::MAX_TITLE_LEN as nat)
        &&& fits(self.uri, Track::MAX_URI_LEN as nat)
        &&& (self.artist matches Some(artist) ==> fits(artist, Track::MAX_ARTIST_LEN as nat))
        &&& (self.genre matches Some(genre) ==> fits(genre, Track::MAX_GENRE_LEN as nat))
    }

    /// The fields that every stored track has.
    pub open spec fn base_encoding(self) -> Seq<u8>
        recommends
            self.wf(),
    {
        word(Track::TAG) + word(self.id) + self.owner + text_field(
            self.title,
            Track::MAX_TITLE_LEN as nat,
        ) + text_field(self.uri, Track::MAX_URI_LEN as nat) + timestamp(self.created_at)
    }

    /// The artist field, which is stored only where the track names one.
    pub open spec fn artist_encoding(self) -> Seq<u8> {
        match self.artist {
            Some(artist) => text_field(artist, Track::MAX_ARTIST_LEN as nat),
            None => Seq::empty(),
        }
    }

    /// The genre field, which is stored only where the track names one.
    pub open spec fn genre_encoding(self) -> Seq<u8> {
        match self.genre {
            Some(genre) => text_field(genre, Track::MAX_GENRE_LEN as nat),
            None => Seq::empty(),
        }
    }

    /// The stored bytes of a track: the base fields, then the artist and the
    /// genre where the track has them.
    pub open spec fn encoding(self) -> Seq<u8>
        recommends
            self.wf(),
    {
        self.base_encoding() + self.artist_encoding() + self.genre_encoding()
    }

    /// Footprint of the stored track.
    pub open spec fn footprint(self) -> nat {
        Track::footprint_of(self.artist is Some, self.genre is Some)
    }
}

impl Track {
    /// How many bytes a title may take.
    pub const MAX_TITLE_LEN: usize = 64;

    /// How many bytes a locator may take.
    pub const MAX_URI_LEN: usize = 200;

    /// How many bytes the name of an artist may take.
    pub const MAX_ARTIST_LEN: usize = 64;

    /// How many bytes the name of a genre may take.
    pub const MAX_GENRE_LEN: usize = 32;

    /// Tag that opens the stored bytes of a track.
    pub const TAG: u64 = 2;

    /// Footprint of a stored track that names neither artist nor genre: the
    /// tag, the id, the owner, the title, the locator and the timestamp.
    pub const LEN: usize = HEADER_LEN + WORD_LEN + IDENTITY_LEN + PREFIX_LEN + Self::MAX_TITLE_LEN
        + PREFIX_LEN + Self::MAX_URI_LEN + WORD_LEN;

    /// What naming an artist adds to the footprint.
    pub const ARTIST_LEN: usize = PREFIX_LEN + Self::MAX_ARTIST_LEN;

    /// What naming a genre adds to the footprint.
    pub const GENRE_LEN: usize = PREFIX_LEN + Self::MAX_GENRE_LEN;

    /// Where the id starts.
    pub const ID_OFFSET: usize = HEADER_LEN;

    /// Where the owner starts.
    pub const OWNER_OFFSET: usize = Self::ID_OFFSET + WORD_LEN;

    /// Where the title starts.
    pub const TITLE_OFFSET: usize = Self::OWNER_OFFSET + IDENTITY_LEN;

    /// Where the locator starts.
    pub const URI_OFFSET: usize = Self::TITLE_OFFSET + PREFIX_LEN + Self::MAX_TITLE_LEN;

    /// Where the time of creation starts.
    pub const CREATED_AT_OFFSET: usize = Self::URI_OFFSET + PREFIX_LEN + Self::MAX_URI_LEN;

    /// Where the optional fields start: the artist first, if it is there,
    /// then the genre.
    pub const OPTIONAL_OFFSET: usize = Self::LEN;

    /// Footprint of a stored track, by the optional fields it has.
    pub open spec fn footprint_of(artist: bool, genre: bool) -> nat {
        (Self::LEN + if artist {
            Self::ARTIST_LEN
        } else {
            0
        } + if genre {
            Self::GENRE_LEN
        } else {
            0
        }) as nat
    }

    /// The track that the given bytes store, if they store one. The footprint
    /// tells which optional fields are there; the tag and every text field
    /// that is there must be sound.
    pub open spec fn decoding(bytes: Seq<u8>) -> Option<TrackView> {
        let with_artist = bytes.len() == Self::footprint_of(true, false)
            || bytes.len() == Self::footprint_of(true, true);
        let with_genre = bytes.len() == Self::footprint_of(false, true)
            || bytes.len() == Self::footprint_of(true, true);
        let genre_offset: int = if with_artist {
            Self::OPTIONAL_OFFSET + Self::ARTIST_LEN
        } else {
            Self::OPTIONAL_OFFSET as int
        };
        let title = text_at(bytes, Self::TITLE_OFFSET as int, Self::MAX_TITLE_LEN as nat);
        let uri = text_at(bytes, Self::URI_OFFSET as int, Self::MAX_URI_LEN as nat);
        let artist = text_at(bytes, Self::OPTIONAL_OFFSET as int, Self::MAX_ARTIST_LEN as nat);
        let genre = text_at(bytes, genre_offset, Self::MAX_GENRE_LEN as nat);
        if bytes.len() == Self::footprint_of(with_artist, with_genre)
            && word_at(bytes, 0) == Self::TAG
            && title is Some
            && uri is Some
            && (with_artist ==> artist is Some)
            && (with_genre ==> genre is Some) {
            Some(
                TrackView {
                    id: word_at(bytes, Self::ID_OFFSET as int),
                    owner: identity_at(bytes, Self::OWNER_OFFSET as int),
                    title: title->0,
                    artist: if with_artist {
                        artist
                    } else {
                        None
                    },
                    genre: if with_genre {
                        genre
                    } else {
                        None
                    },
                    uri: uri->0,
                    created_at: timestamp_at(bytes, Self::CREATED_AT_OFFSET as int),
                },
            )
        } else {
            None
        }
    }

    /// Footprint of this track once stored.
    pub fn footprint(&self) -> (n: usize)
        ensures
            n == self@.footprint(),
    {
        let mut n: usize = Self::LEN;
        if self.artist.is_some() {
            n += Self::ARTIST_LEN;
        }
        if self.genre.is_some() {
            n += Self::GENRE_LEN;
        }
        n
    }

    /// Whether every field fits the room the layout gives it.
    pub fn fits_layout(&self) -> (b: bool)
        ensures
            b == self@.wf(),
    {
        text_fits(self.title.as_str(), Self::MAX_TITLE_LEN) && text_fits(
            self.uri.as_str(),
            Self::MAX_URI_LEN,
        ) && match &self.artist {
            Some(artist) => text_fits(artist.as_str(), Self::MAX_ARTIST_LEN),
            None => true,
        } && match &self.genre {
            Some(genre) => text_fits(genre.as_str(), Self::MAX_GENRE_LEN),
            None => true,
        }
    }

    /// The stored bytes of this track. A track with a field that does not
    /// fit is refused: nothing is ever cut short.
    pub fn encode(&self) -> (r: Result<Vec<u8>, ErrorCode>)
        ensures
            match r {
                Ok(bytes) => self@.wf() && bytes@ == self@.encoding(),
                Err(e) => !self@.wf() && e == ErrorCode::InvalidInputData,
            },
    {
        if !self.fits_layout() {
            return Err(ErrorCode::InvalidInputData);
        }
        let mut bytes: Vec<u8> = Vec::new();
        put_word(&mut bytes, Self::TAG);
        put_word(&mut bytes, self.id);
        put_bytes(&mut bytes, self.owner.bytes.as_slice());
        put_text(&mut bytes, self.title.as_str(), Self::MAX_TITLE_LEN);
        put_text(&mut bytes, self.uri.as_str(), Self::MAX_URI_LEN);
        put_timestamp(&mut bytes, self.created_at);
        assert(bytes@ =~= self@.base_encoding());
        match &self.artist {
            Some(artist) => {
                put_text(&mut bytes, artist.as_str(), Self::MAX_ARTIST_LEN);
            },
            None => {},
        }
        assert(bytes@ =~= self@.base_encoding() + self@.artist_encoding());
        match &self.genre {
            Some(genre) => {
                put_text(&mut bytes, genre.as_str(), Self::MAX_GENRE_LEN);
            },
            None => {},
        }
        assert(bytes@ =~= self@.encoding());
        Ok(bytes)
    }

    /// Reads a track back from stored bytes.
    pub fn decode(bytes: &[u8]) -> (r: Option<Track>)
        ensures
            match r {
                Some(track) => Self::decoding(bytes@) == Some(track@),
                None => Self::decoding(bytes@) is None,
            },
    {
        let len: usize = bytes.len();
        let with_artist = len == Self::LEN + Self::ARTIST_LEN
            || len == Self::LEN + Self::ARTIST_LEN + Self::GENRE_LEN;
        let with_genre = len == Self::LEN + Self::GENRE_LEN
            || len == Self::LEN + Self::ARTIST_LEN + Self::GENRE_LEN;
        if !(len == Self::LEN || with_artist || with_genre) {
            return None;
        }
        if get_word(bytes, 0) != Self::TAG {
            return None;
        }
        let title = match get_text(bytes, Self::TITLE_OFFSET, Self::MAX_TITLE_LEN) {
            Some(text) => text,
            None => {
                return None;
            },
        };
        let uri = match get_text(bytes, Self::URI_OFFSET, Self::MAX_URI_LEN) {
            Some(text) => text,
            None => {
                return None;
            },
        };
        let artist = if with_artist {
            match get_text(bytes, Self::OPTIONAL_OFFSET, Self::MAX_ARTIST_LEN) {
                Some(text) => Some(text),
                None => {
                    return None;
                },
            }
        } else {
            None
        };
        let genre_offset: usize = if with_artist {
            Self::OPTIONAL_OFFSET + Self::ARTIST_LEN
        } else {
            Self::OPTIONAL_OFFSET
        };
        let genre = if with_genre {
            match get_text(bytes, genre_offset, Self::MAX_GENRE_LEN) {
                Some(text) => Some(text),
                None => {
                    return None;
                },
            }
        } else {
            None
        };
        Some(
            Track {
                id: get_word(bytes, Self::ID_OFFSET),
                owner: Identity::new(get_identity(bytes, Self::OWNER_OFFSET)),
                title,
                artist,
                genre,
                uri,
                created_at: get_timestamp(bytes, Self::CREATED_AT_OFFSET),
            },
        )
    }
}

/// A stored track has the footprint that its optional fields call for.
pub proof fn lemma_track_footprint(track: TrackView)
    requires
        track.wf(),
    ensures
        track.base_encoding().len() == Track::LEN,
        track.encoding().len() == track.footprint(),
{
    lemma_field_widths();
    lemma_text_field_width(track.title, Track::MAX_TITLE_LEN as nat);
    lemma_text_field_width(track.uri, Track::MAX_URI_LEN as nat);
    if track.artist is Some {
        lemma_text_field_width(track.artist->0, Track::MAX_ARTIST_LEN as nat);
    }
    if track.genre is Some {
        lemma_text_field_width(track.genre->0, Track::MAX_GENRE_LEN as nat);
    }
}

/// The base fields of a stored track are read back as they were written,
/// whatever follows them.
proof fn lemma_track_base_fields(track: TrackView, tail: Seq<u8>)
    requires
        track.wf(),
    ensures
        word_at(track.base_encoding() + tail, 0) == Track::TAG,
        word_at(track.base_encoding() + tail, Track::ID_OFFSET as int) == track.id,
        identity_at(track.base_encoding() + tail, Track::OWNER_OFFSET as int) == track.owner,
        text_at(
            track.base_encoding() + tail,
            Track::TITLE_OFFSET as int,
            Track::MAX_TITLE_LEN as nat,
        ) == Some(track.title),
        text_at(track.base_encoding() + tail, Track::URI_OFFSET as int, Track::MAX_URI_LEN as nat)
            == Some(track.uri),
        timestamp_at(track.base_encoding() + tail, Track::CREATED_AT_OFFSET as int)
            == track.created_at,
{
    let tag = word(Track::TAG);
    let id = word(track.id);
    let owner = track.owner;
    let title = text_field(track.title, Track::MAX_TITLE_LEN as nat);
    let uri = text_field(track.uri, Track::MAX_URI_LEN as nat);
    let created = timestamp(track.created_at);
    let all = track.base_encoding() + tail;
    let none = Seq::<u8>::empty();
    lemma_field_widths();
    lemma_text_field_width(track.title, Track::MAX_TITLE_LEN as nat);
    lemma_text_field_width(track.uri, Track::MAX_URI_LEN as nat);

    assert(word_at(all, 0) == Track::TAG) by {
        assert(all =~= none + tag + (id + owner + title + uri + created + tail));
        lemma_word_at(none, Track::TAG, id + owner + title + uri + created + tail);
    }
    assert(word_at(all, Track::ID_OFFSET as int) == track.id) by {
        assert(all =~= tag + id + (owner + title + uri + created + tail));
        lemma_word_at(tag, track.id, owner + title + uri + created + tail);
    }
    assert(identity_at(all, Track::OWNER_OFFSET as int) == track.owner) by {
        assert(all =~= (tag + id) + owner + (title + uri + created + tail));
        lemma_identity_at(tag + id, owner, title + uri + created + tail);
    }
    assert(text_at(all, Track::TITLE_OFFSET as int, Track::MAX_TITLE_LEN as nat) == Some(
        track.title,
    )) by {
        assert(all =~= (tag + id + owner) + title + (uri + created + tail));
        lemma_text_at(
            tag + id + owner,
            track.title,
            Track::MAX_TITLE_LEN as nat,
            uri + created + tail,
        );
    }
    assert(text_at(all, Track::URI_OFFSET as int, Track::MAX_URI_LEN as nat) == Some(
        track.uri,
    )) by {
        assert(all =~= (tag + id + owner + title) + uri + (created + tail));
        lemma_text_at(
            tag + id + owner + title,
            track.uri,
            Track::MAX_URI_LEN as nat,
            created + tail,
        );
    }
    assert(timestamp_at(all, Track::CREATED_AT_OFFSET as int) == track.created_at) by {
        assert(all =~= (tag + id + owner + title + uri) + created + tail);
        lemma_timestamp_at(tag + id + owner + title + uri, track.created_at, tail);
    }
}

/// What is stored is what is read back.
pub proof fn lemma_track_round_trip(track: TrackView)
    requires
        track.wf(),
    ensures
        Track::decoding(track.encoding()) == Some(track),
{
    let base = track.base_encoding();
    let artist = track.artist_encoding();
    let genre = track.genre_encoding();
    let all = track.encoding();
    let none = Seq::<u8>::empty();
    lemma_track_footprint(track);
    assert(all =~= base + (artist + genre));
    lemma_track_base_fields(track, artist + genre);
    if track.artist is Some {
        lemma_text_field_width(track.artist->0, Track::MAX_ARTIST_LEN as nat);
        lemma_text_at(base, track.artist->0, Track::MAX_ARTIST_LEN as nat, genre);
    }
    if track.genre is Some {
        lemma_text_field_width(track.genre->0, Track::MAX_GENRE_LEN as nat);
        assert(all =~= (base + artist) + genre + none);
        lemma_text_at(base + artist, track.genre->0, Track::MAX_GENRE_LEN as nat, none);
    }
}

/// Whatever is read back as a track fits the layout, and has the footprint
/// of the bytes it was read from.
pub proof fn lemma_track_decoding_wf(bytes: Seq<u8>)
    requires
        Track::decoding(bytes) is Some,
    ensures
        Track::decoding(bytes)->0.wf(),
        Track::decoding(bytes)->0.footprint() == bytes.len(),
{
    let track = Track::decoding(bytes)->0;
    lemma_text_at_fits(bytes, Track::TITLE_OFFSET as int, Track::MAX_TITLE_LEN as nat);
    lemma_text_at_fits(bytes, Track::URI_OFFSET as int, Track::MAX_URI_LEN as nat);
    if track.artist is Some {
        lemma_text_at_fits(bytes, Track::OPTIONAL_OFFSET as int, Track::MAX_ARTIST_LEN as nat);
    }
    if track.genre is Some {
        if track.artist is Some {
            lemma_text_at_fits(
                bytes,
                Track::OPTIONAL_OFFSET + Track::ARTIST_LEN,
                Track::MAX_GENRE_LEN as nat,
            );
        } else {
            lemma_text_at_fits(bytes, Track::OPTIONAL_OFFSET as int, Track::MAX_GENRE_LEN as nat);
        }
    }
}

} // verus!
