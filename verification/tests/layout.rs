use music_player::errors::ErrorCode;
use music_player::identity::Identity;
use music_player::layout::{text_fits, HEADER_LEN, IDENTITY_LEN, PREFIX_LEN, WORD_LEN};
use music_player::state::playlist::Playlist;
use music_player::state::track::Track;
use music_player::state::user_profile::UserProfile;

fn layout_owner(byte: u8) -> Identity {
    Identity::new([byte; 32])
}

fn layout_text_field(text: &str, max: usize) -> Vec<u8> {
    let mut field = Vec::new();
    field.extend_from_slice(&(text.len() as u32).to_le_bytes());
    field.extend_from_slice(text.as_bytes());
    field.resize(4 + max, 0);
    field
}

#[test]
fn field_widths_are_as_documented() {
    assert_eq!(HEADER_LEN, 8);
    assert_eq!(IDENTITY_LEN, 32);
    assert_eq!(PREFIX_LEN, 4);
    assert_eq!(WORD_LEN, 8);
}

#[test]
fn limits_are_as_documented() {
    assert_eq!(UserProfile::MAX_USERNAME_LEN, 32);
    assert_eq!(UserProfile::MAX_EMAIL_LEN, 64);
    assert_eq!(Track::MAX_TITLE_LEN, 64);
    assert_eq!(Track::MAX_ARTIST_LEN, 64);
    assert_eq!(Track::MAX_GENRE_LEN, 32);
    assert_eq!(Track::MAX_URI_LEN, 200);
    assert_eq!(Playlist::MAX_NAME_LEN, 64);
    assert_eq!(Playlist::MAX_DESC_LEN, 128);
    assert_eq!(Playlist::MAX_TRACKS, 50);
}

#[test]
fn profile_footprint_is_160() {
    assert_eq!(UserProfile::LEN, 8 + 32 + (4 + 32) + (4 + 64) + 8 + 8);
    assert_eq!(UserProfile::LEN, 160);
}

#[test]
fn track_footprint_is_328_and_grows_with_optional_fields() {
    assert_eq!(Track::LEN, 8 + 8 + 32 + (4 + 64) + (4 + 200) + 8);
    assert_eq!(Track::LEN, 328);
    assert_eq!(Track::ARTIST_LEN, 68);
    assert_eq!(Track::GENRE_LEN, 36);
    let mut track = Track::default();
    assert_eq!(track.footprint(), 328);
    track.artist = Some(String::from("x"));
    assert_eq!(track.footprint(), 396);
    track.genre = Some(String::from("y"));
    assert_eq!(track.footprint(), 432);
    track.artist = None;
    assert_eq!(track.footprint(), 364);
}

#[test]
fn playlist_footprint_is_668() {
    assert_eq!(
        Playlist::LEN,
        8 + 8 + 32 + (4 + 64) + (4 + 128) + 4 + 50 * 8 + 8 + 8
    );
    assert_eq!(Playlist::LEN, 668);
}

#[test]
fn text_is_measured_in_bytes() {
    assert!(text_fits("", 0));
    assert!(text_fits("abcd", 4));
    assert!(!text_fits("abcde", 4));
    // Three characters, six bytes.
    assert!(text_fits("äöü", 6));
    assert!(!text_fits("äöü", 5));
}

#[test]
fn profile_bytes_are_exact() {
    let profile = UserProfile {
        user: layout_owner(1),
        username: String::from("alice"),
        email: String::from("alice@example.org"),
        created_at: 1_700_000_000,
        updated_at: 1_700_000_005,
    };
    let mut expected = Vec::new();
    expected.extend_from_slice(&1u64.to_le_bytes());
    expected.extend_from_slice(&[1u8; 32]);
    expected.extend_from_slice(&layout_text_field("alice", 32));
    expected.extend_from_slice(&layout_text_field("alice@example.org", 64));
    expected.extend_from_slice(&1_700_000_000i64.to_le_bytes());
    expected.extend_from_slice(&1_700_000_005i64.to_le_bytes());
    let bytes = profile.encode().unwrap();
    assert_eq!(bytes.len(), UserProfile::LEN);
    assert_eq!(bytes, expected);
    let back = UserProfile::decode(&bytes).unwrap();
    assert_eq!(back.user, profile.user);
    assert_eq!(back.username, "alice");
    assert_eq!(back.email, "alice@example.org");
    assert_eq!(back.created_at, 1_700_000_000);
    assert_eq!(back.updated_at, 1_700_000_005);
}

#[test]
fn track_bytes_are_exact() {
    let track = Track {
        id: 42,
        owner: layout_owner(2),
        title: String::from("Blue in Green"),
        artist: None,
        genre: None,
        uri: String::from("ipfs://bafy"),
        created_at: -5,
    };
    let mut expected = Vec::new();
    expected.extend_from_slice(&2u64.to_le_bytes());
    expected.extend_from_slice(&42u64.to_le_bytes());
    expected.extend_from_slice(&[2u8; 32]);
    expected.extend_from_slice(&layout_text_field("Blue in Green", 64));
    expected.extend_from_slice(&layout_text_field("ipfs://bafy", 200));
    expected.extend_from_slice(&(-5i64).to_le_bytes());
    let bytes = track.encode().unwrap();
    assert_eq!(bytes.len(), Track::LEN);
    assert_eq!(bytes, expected);

    let extended = Track {
        artist: Some(String::from("Miles Davis")),
        genre: Some(String::from("Jazz")),
        id: 42,
        owner: layout_owner(2),
        title: String::from("Blue in Green"),
        uri: String::from("ipfs://bafy"),
        created_at: -5,
    };
    expected.extend_from_slice(&layout_text_field("Miles Davis", 64));
    expected.extend_from_slice(&layout_text_field("Jazz", 32));
    let bytes = extended.encode().unwrap();
    assert_eq!(bytes.len(), 432);
    assert_eq!(bytes, expected);
}

#[test]
fn track_reads_back_in_each_shape() {
    for (artist, genre) in [
        (None, None),
        (Some("Nina Simone"), None),
        (None, Some("Soul")),
        (Some("Nina Simone"), Some("Soul")),
        (Some(""), Some("")),
    ] {
        let track = Track {
            id: u64::MAX,
            owner: layout_owner(3),
            title: String::from("Sinnerman"),
            artist: artist.map(String::from),
            genre: genre.map(String::from),
            uri: String::from("https://example.org/sinnerman.flac"),
            created_at: i64::MIN,
        };
        let bytes = track.encode().unwrap();
        assert_eq!(bytes.len(), track.footprint());
        let back = Track::decode(&bytes).unwrap();
        assert_eq!(back.id, u64::MAX);
        assert_eq!(back.owner, track.owner);
        assert_eq!(back.title, "Sinnerman");
        assert_eq!(back.artist, track.artist);
        assert_eq!(back.genre, track.genre);
        assert_eq!(back.uri, "https://example.org/sinnerman.flac");
        assert_eq!(back.created_at, i64::MIN);
    }
}

#[test]
fn playlist_bytes_are_exact() {
    let playlist = Playlist {
        id: 1,
        owner: layout_owner(4),
        name: String::from("Road Trip"),
        description: String::new(),
        tracks: vec![7, 3, 7],
        created_at: 10,
        updated_at: 20,
    };
    let mut expected = Vec::new();
    expected.extend_from_slice(&3u64.to_le_bytes());
    expected.extend_from_slice(&1u64.to_le_bytes());
    expected.extend_from_slice(&[4u8; 32]);
    expected.extend_from_slice(&layout_text_field("Road Trip", 64));
    expected.extend_from_slice(&layout_text_field("", 128));
    expected.extend_from_slice(&3u32.to_le_bytes());
    expected.extend_from_slice(&7u64.to_le_bytes());
    expected.extend_from_slice(&3u64.to_le_bytes());
    expected.extend_from_slice(&7u64.to_le_bytes());
    expected.extend_from_slice(&[0u8; 47 * 8]);
    expected.extend_from_slice(&10i64.to_le_bytes());
    expected.extend_from_slice(&20i64.to_le_bytes());
    let bytes = playlist.encode().unwrap();
    assert_eq!(bytes.len(), Playlist::LEN);
    assert_eq!(bytes, expected);
    let back = Playlist::decode(&bytes).unwrap();
    assert_eq!(back.id, 1);
    assert_eq!(back.owner, playlist.owner);
    assert_eq!(back.name, "Road Trip");
    assert_eq!(back.description, "");
    assert_eq!(back.tracks, vec![7, 3, 7]);
    assert_eq!(back.created_at, 10);
    assert_eq!(back.updated_at, 20);
}

#[test]
fn fields_at_their_limits_read_back() {
    let profile = UserProfile {
        user: layout_owner(0xFF),
        username: "u".repeat(32),
        email: "e".repeat(64),
        created_at: i64::MAX,
        updated_at: i64::MIN,
    };
    let back = UserProfile::decode(&profile.encode().unwrap()).unwrap();
    assert_eq!(back.username, "u".repeat(32));
    assert_eq!(back.email, "e".repeat(64));
    assert_eq!(back.created_at, i64::MAX);
    assert_eq!(back.updated_at, i64::MIN);

    let playlist = Playlist {
        id: 0,
        owner: layout_owner(0),
        name: "n".repeat(64),
        description: "d".repeat(128),
        tracks: (0..50).collect(),
        created_at: 0,
        updated_at: 0,
    };
    let bytes = playlist.encode().unwrap();
    assert_eq!(bytes.len(), 668);
    let back = Playlist::decode(&bytes).unwrap();
    assert_eq!(back.name, "n".repeat(64));
    assert_eq!(back.description, "d".repeat(128));
    assert_eq!(back.tracks, (0..50).collect::<Vec<u64>>());
}

#[test]
fn bytes_of_another_footprint_are_no_record() {
    let profile = UserProfile::default().encode().unwrap();
    assert!(UserProfile::decode(&profile[..159]).is_none());
    let mut longer = profile.clone();
    longer.push(0);
    assert!(UserProfile::decode(&longer).is_none());
    assert!(UserProfile::decode(&[]).is_none());
    assert!(Track::decode(&vec![0u8; 329]).is_none());
    assert!(Track::decode(&[]).is_none());
    assert!(Playlist::decode(&vec![0u8; 667]).is_none());
}

#[test]
fn bytes_with_another_tag_are_no_record() {
    let profile = UserProfile::default().encode().unwrap();
    let track = Track::default().encode().unwrap();
    let playlist = Playlist::default().encode().unwrap();
    assert!(UserProfile::decode(&profile).is_some());
    assert!(Track::decode(&track).is_some());
    assert!(Playlist::decode(&playlist).is_some());

    let mut as_track = profile.clone();
    as_track[0] = 2;
    assert!(UserProfile::decode(&as_track).is_none());
    let mut as_playlist = track.clone();
    as_playlist[0] = 3;
    assert!(Track::decode(&as_playlist).is_none());
    let mut as_profile = playlist.clone();
    as_profile[0] = 1;
    assert!(Playlist::decode(&as_profile).is_none());
    // A slot that was allocated and never written holds only zeros.
    assert!(UserProfile::decode(&vec![0u8; 160]).is_none());
    assert!(Track::decode(&vec![0u8; 328]).is_none());
    assert!(Playlist::decode(&vec![0u8; 668]).is_none());
}

#[test]
fn record_with_unsound_text_is_no_record() {
    let mut profile = UserProfile::default().encode().unwrap();
    // Username length over its capacity.
    profile[40] = 33;
    assert!(UserProfile::decode(&profile).is_none());
    profile[40] = 1;
    profile[44] = 0xFF;
    assert!(UserProfile::decode(&profile).is_none());
    profile[44] = b'a';
    assert_eq!(UserProfile::decode(&profile).unwrap().username, "a");

    let mut playlist = Playlist::default().encode().unwrap();
    playlist[248] = 51;
    assert!(Playlist::decode(&playlist).is_none());
    playlist[248] = 50;
    assert_eq!(Playlist::decode(&playlist).unwrap().tracks, vec![0u64; 50]);
}

#[test]
fn record_that_does_not_fit_is_not_encoded() {
    let mut profile = UserProfile::default();
    assert!(profile.fits_layout());
    profile.username = "u".repeat(33);
    assert!(!profile.fits_layout());
    assert_eq!(profile.encode(), Err(ErrorCode::InvalidInputData));
    profile.username = "u".repeat(32);
    profile.email = "e".repeat(65);
    assert_eq!(profile.encode(), Err(ErrorCode::InvalidInputData));

    let mut track = Track::default();
    assert!(track.fits_layout());
    track.title = "t".repeat(65);
    assert_eq!(track.encode(), Err(ErrorCode::InvalidInputData));
    track.title = String::new();
    track.uri = "u".repeat(201);
    assert_eq!(track.encode(), Err(ErrorCode::InvalidInputData));
    track.uri = String::new();
    track.artist = Some("a".repeat(65));
    assert_eq!(track.encode(), Err(ErrorCode::InvalidInputData));
    track.artist = None;
    track.genre = Some("g".repeat(33));
    assert!(!track.fits_layout());
    assert_eq!(track.encode(), Err(ErrorCode::InvalidInputData));
    track.genre = Some("g".repeat(32));
    assert!(track.encode().is_ok());

    let mut playlist = Playlist::default();
    assert!(playlist.fits_layout());
    playlist.tracks = vec![0; 51];
    assert!(!playlist.fits_layout());
    assert_eq!(playlist.encode(), Err(ErrorCode::InvalidInputData));
    playlist.tracks = vec![0; 50];
    playlist.name = "n".repeat(65);
    assert_eq!(playlist.encode(), Err(ErrorCode::InvalidInputData));
    playlist.name = String::new();
    playlist.description = "d".repeat(129);
    assert_eq!(playlist.encode(), Err(ErrorCode::InvalidInputData));
    playlist.description = "d".repeat(128);
    assert!(playlist.encode().is_ok());
}

#[test]
fn whole_records_read_back_equal() {
    let profile = UserProfile {
        user: layout_owner(8),
        username: String::from("Zoë"),
        email: String::from("zoë@example.org"),
        created_at: 3,
        updated_at: 4,
    };
    assert_eq!(UserProfile::decode(&profile.encode().unwrap()), Some(profile));
    let track = Track {
        id: 5,
        owner: layout_owner(8),
        title: String::from("Für Elise"),
        artist: Some(String::from("Ludwig van Beethoven")),
        genre: None,
        uri: String::from("ipfs://elise"),
        created_at: 6,
    };
    assert_eq!(Track::decode(&track.encode().unwrap()), Some(track));
    let playlist = Playlist {
        id: 7,
        owner: layout_owner(8),
        name: String::from("Klassik"),
        description: String::from("für den Abend"),
        tracks: vec![5, 5, 6],
        created_at: 8,
        updated_at: 9,
    };
    assert_eq!(Playlist::decode(&playlist.encode().unwrap()), Some(playlist));
}

#[test]
fn fields_start_where_the_widths_put_them() {
    assert_eq!(UserProfile::USER_OFFSET, 8);
    assert_eq!(UserProfile::USERNAME_OFFSET, 40);
    assert_eq!(UserProfile::EMAIL_OFFSET, 76);
    assert_eq!(UserProfile::CREATED_AT_OFFSET, 144);
    assert_eq!(UserProfile::UPDATED_AT_OFFSET, 152);
    assert_eq!(UserProfile::UPDATED_AT_OFFSET + 8, UserProfile::LEN);

    assert_eq!(Track::ID_OFFSET, 8);
    assert_eq!(Track::OWNER_OFFSET, 16);
    assert_eq!(Track::TITLE_OFFSET, 48);
    assert_eq!(Track::URI_OFFSET, 116);
    assert_eq!(Track::CREATED_AT_OFFSET, 320);
    assert_eq!(Track::OPTIONAL_OFFSET, 328);
    assert_eq!(Track::CREATED_AT_OFFSET + 8, Track::LEN);

    assert_eq!(Playlist::ID_OFFSET, 8);
    assert_eq!(Playlist::OWNER_OFFSET, 16);
    assert_eq!(Playlist::NAME_OFFSET, 48);
    assert_eq!(Playlist::DESC_OFFSET, 116);
    assert_eq!(Playlist::TRACKS_OFFSET, 248);
    assert_eq!(Playlist::CREATED_AT_OFFSET, 652);
    assert_eq!(Playlist::UPDATED_AT_OFFSET, 660);
    assert_eq!(Playlist::UPDATED_AT_OFFSET + 8, Playlist::LEN);
}

#[test]
fn tags_tell_the_kinds_apart() {
    assert_eq!(UserProfile::TAG, 1);
    assert_eq!(Track::TAG, 2);
    assert_eq!(Playlist::TAG, 3);
    assert_eq!(&UserProfile::default().encode().unwrap()[..8], &1u64.to_le_bytes());
    assert_eq!(&Track::default().encode().unwrap()[..8], &2u64.to_le_bytes());
    assert_eq!(&Playlist::default().encode().unwrap()[..8], &3u64.to_le_bytes());
}

#[test]
fn default_records_are_blank() {
    let profile = UserProfile::default();
    assert_eq!(profile.user, Identity::default());
    assert_eq!(profile.username, "");
    assert_eq!(profile.email, "");
    assert_eq!((profile.created_at, profile.updated_at), (0, 0));
    let track = Track::default();
    assert_eq!(track.id, 0);
    assert_eq!(track.owner, Identity::default());
    assert_eq!(track.title, "");
    assert_eq!(track.artist, None);
    assert_eq!(track.genre, None);
    assert_eq!(track.uri, "");
    assert_eq!(track.created_at, 0);
    let playlist = Playlist::default();
    assert_eq!(playlist.id, 0);
    assert_eq!(playlist.owner, Identity::default());
    assert_eq!(playlist.name, "");
    assert_eq!(playlist.description, "");
    assert!(playlist.tracks.is_empty());
    assert_eq!((playlist.created_at, playlist.updated_at), (0, 0));
}

#[test]
fn timestamps_are_twos_complement() {
    for t in [0i64, 1, -1, 1_700_000_000, -1_700_000_000, i64::MAX, i64::MIN] {
        let profile = UserProfile {
            user: layout_owner(1),
            username: String::new(),
            email: String::new(),
            created_at: t,
            updated_at: t.wrapping_neg(),
        };
        let bytes = profile.encode().unwrap();
        assert_eq!(&bytes[144..152], &t.to_le_bytes());
        assert_eq!(&bytes[152..160], &t.wrapping_neg().to_le_bytes());
        let back = UserProfile::decode(&bytes).unwrap();
        assert_eq!(back.created_at, t);
        assert_eq!(back.updated_at, t.wrapping_neg());
    }
}

#[test]
fn ids_are_little_endian() {
    let mut track = Track::default();
    track.id = 0x0102_0304_0506_0708;
    let bytes = track.encode().unwrap();
    assert_eq!(&bytes[8..16], &[8, 7, 6, 5, 4, 3, 2, 1]);
    assert_eq!(Track::decode(&bytes).unwrap().id, 0x0102_0304_0506_0708);
}

#[test]
fn owner_is_stored_byte_for_byte() {
    let id: Vec<u8> = (100u8..132).collect();
    let mut owner = [0u8; 32];
    owner.copy_from_slice(&id);
    let mut playlist = Playlist::default();
    playlist.owner = Identity::new(owner);
    let bytes = playlist.encode().unwrap();
    assert_eq!(&bytes[16..48], &id[..]);
    assert_eq!(Playlist::decode(&bytes).unwrap().owner.to_bytes(), owner);
}

#[test]
fn text_field_has_fixed_width() {
    for name in ["", "abc", &"n".repeat(64)] {
        let mut playlist = Playlist::default();
        playlist.name = String::from(name);
        let bytes = playlist.encode().unwrap();
        assert_eq!(bytes.len(), Playlist::LEN);
        assert_eq!(&bytes[48..116], &layout_text_field(name, 64)[..]);
    }
}

#[test]
fn text_field_ignores_what_follows_the_text() {
    let mut bytes = UserProfile::default().encode().unwrap();
    bytes[40] = 2;
    bytes[44] = b'h';
    bytes[45] = b'i';
    bytes[46] = 0xFF;
    bytes[75] = 0xFE;
    assert_eq!(UserProfile::decode(&bytes).unwrap().username, "hi");
}

#[test]
fn only_well_formed_utf8_is_text() {
    let username = |body: &[u8]| {
        let mut bytes = UserProfile::default().encode().unwrap();
        bytes[40] = body.len() as u8;
        bytes[44..44 + body.len()].copy_from_slice(body);
        UserProfile::decode(&bytes).map(|profile| profile.username)
    };
    // The longest encodings of one character.
    assert_eq!(username(&[0x7F]), Some(String::from("\u{7F}")));
    assert_eq!(username(&[0xDF, 0xBF]), Some(String::from("\u{7FF}")));
    assert_eq!(username(&[0xEF, 0xBF, 0xBF]), Some(String::from("\u{FFFF}")));
    assert_eq!(
        username(&[0xF4, 0x8F, 0xBF, 0xBF]),
        Some(String::from("\u{10FFFF}"))
    );
    assert_eq!(username(&[0xE2, 0x99, 0xAB, b'!']), Some(String::from("♫!")));
    // One byte too many for the value.
    assert_eq!(username(&[0xC0, 0x80]), None);
    assert_eq!(username(&[0xE0, 0x80, 0x80]), None);
    // A surrogate, and a value past the last character.
    assert_eq!(username(&[0xED, 0xA0, 0x80]), None);
    assert_eq!(username(&[0xF4, 0x90, 0x80, 0x80]), None);
    // A continuation byte with nothing to continue, a lead with nothing
    // after it, and a character cut in the middle.
    assert_eq!(username(&[0x80]), None);
    assert_eq!(username(&[b'a', 0xE2, 0x99]), None);
    assert_eq!(username(&[0xFF]), None);
    assert_eq!(username(&[0xC3]), None);
    assert_eq!(username(&[0xC3, 0x28]), None);
}

#[test]
fn track_list_has_fixed_width() {
    let mut playlist = Playlist::default();
    playlist.tracks = vec![7, 3, 7];
    let bytes = playlist.encode().unwrap();
    let mut expected = vec![3u8, 0, 0, 0];
    expected.extend_from_slice(&7u64.to_le_bytes());
    expected.extend_from_slice(&3u64.to_le_bytes());
    expected.extend_from_slice(&7u64.to_le_bytes());
    expected.resize(404, 0);
    assert_eq!(&bytes[248..652], &expected[..]);
    assert_eq!(Playlist::decode(&bytes).unwrap().tracks, vec![7, 3, 7]);
}

#[test]
fn track_list_may_be_empty_or_full() {
    let empty = Playlist::default().encode().unwrap();
    assert_eq!(&empty[248..652], &[0u8; 404][..]);
    assert_eq!(Playlist::decode(&empty).unwrap().tracks, Vec::<u64>::new());
    let mut full = Playlist::default();
    full.tracks = (1..=50).collect();
    let bytes = full.encode().unwrap();
    assert_eq!(bytes.len(), Playlist::LEN);
    assert_eq!(&bytes[248..252], &50u32.to_le_bytes());
    assert_eq!(&bytes[644..652], &50u64.to_le_bytes());
    assert_eq!(
        Playlist::decode(&bytes).unwrap().tracks,
        (1..=50).collect::<Vec<u64>>()
    );
}

#[test]
fn track_list_ignores_what_follows_the_tracks() {
    let mut playlist = Playlist::default();
    playlist.tracks = vec![9];
    let mut bytes = playlist.encode().unwrap();
    bytes[260] = 0xAB;
    bytes[651] = 0xCD;
    assert_eq!(Playlist::decode(&bytes).unwrap().tracks, vec![9]);
}
