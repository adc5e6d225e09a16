//! Profiles: one per owner, written once at registration.

use crate::errors::ErrorCode;
use crate::identity::Identity;
use crate::layout::{
    fits, get_identity, get_text, get_timestamp, get_word, identity_at, lemma_field_widths,
    lemma_identity_at, lemma_text_at, lemma_text_at_fits, lemma_text_field_width,
    lemma_timestamp_at, lemma_word_at, put_bytes, put_text, put_timestamp, put_word, text_at,
    text_field, text_fits, timestamp, timestamp_at, word, word_at, zeros, HEADER_LEN, IDENTITY_LEN,
    PREFIX_LEN, WORD_LEN,
};
use vstd::prelude::*;
use vstd::string::*;

verus! {

/// Who an owner is. An owner has one profile at most, and it is never
/// changed once it is registered.
#[derive(Clone, Debug, PartialEq, Eq)]
pub struct UserProfile {
    /// Owner of this profile.
    pub user: Identity,
    pub username: String,
    pub email: String,
    pub created_at: i64,
    pub updated_at: i64,
}

/// What a profile holds: the owner as its bytes, each text as its
/// characters.
pub struct UserProfileView {
    pub user: Seq<u8>,
    pub username: Seq<char>,
    pub email: Seq<char>,
    pub created_at: i64,
    pub updated_at: i64,
}

impl View for UserProfile {
    type V = UserProfileView;

    open spec fn view(&self) -> UserProfileView {
        UserProfileView {
            user: self.user@,
            username: self.username@,
            email: self.email@,
            created_at: self.created_at,
            updated_at: self.updated_at,
        }
    }
}

impl Default for UserProfile {
    /// A profile with nothing filled in.
    fn default() -> (profile: UserProfile)
        ensures
            profile@ == (UserProfileView {
                user: zeros(IDENTITY_LEN as nat),
                username: Seq::empty(),
                email: Seq::empty(),
                created_at: 0,
                updated_at: 0,
            }),
    {
        UserProfile {
            user: Identity::default(),
            username: String::new(),
            email: String::new(),
            created_at: 0,
            updated_at: 0,
        }
    }
}

impl UserProfileView {
    /// Whether every field fits the room the layout gives it.
    pub open spec fn wf(self) -> bool {
        &&& self.user.len() == IDENTITY_LEN
        &&& fits(self.username, UserProfile::MAX_USERNAME_LEN as nat)
        &&& fits(self.email, UserProfile::MAX_EMAIL_LEN as nat)
    }

    /// The stored bytes of a profile.
    pub open spec fn encoding(self) -> Seq<u8>
        recommends
            self.wf(),
    {
        word(UserProfile::TAG) + self.user + text_field(
            self.username,
            UserProfile::MAX_USERNAME_LEN as nat,
        ) + text_field(self.email, UserProfile::MAX_EMAIL_LEN as nat) + timestamp(self.created_at)
            + timestamp(self.updated_at)
    }
}

impl UserProfile {
    /// How many bytes a username may take.
    pub const MAX_USERNAME_LEN: usize = 32;

    /// How many bytes an email address may take.
    pub const MAX_EMAIL_LEN: usize = 64;

    /// Tag that opens the stored bytes of a profile.
    pub const TAG: u64 = 1;

    /// Footprint of a stored profile: the tag, the owner, the two texts and
    /// the two timestamps.
    pub const LEN: usize = HEADER_LEN + IDENTITY_LEN + PREFIX_LEN + Self::MAX_USERNAME_LEN
        + PREFIX_LEN + Self::MAX_EMAIL_LEN + WORD_LEN + WORD_LEN;

    /// Where the owner starts.
    pub const USER_OFFSET: usize = HEADER_LEN;

    /// Where the username starts.
    pub const USERNAME_OFFSET: usize = Self::USER_OFFSET + IDENTITY_LEN;

    /// Where the email starts.
    pub const EMAIL_OFFSET: usize = Self::USERNAME_OFFSET + PREFIX_LEN + Self::MAX_USERNAME_LEN;

    /// Where the time of creation starts.
    pub const CREATED_AT_OFFSET: usize = Self::EMAIL_OFFSET + PREFIX_LEN + Self::MAX_EMAIL_LEN;

    /// Where the time of the last change starts.
    pub const UPDATED_AT_OFFSET: usize = Self::CREATED_AT_OFFSET + WORD_LEN;

    /// The profile that the given bytes store, if they store one: they have
    /// the footprint of a profile, open with its tag, and both text fields
    /// are sound.
    pub open spec fn decoding(bytes: Seq<u8>) -> Option<UserProfileView> {
        let username = text_at(
            bytes,
            Self::USERNAME_OFFSET as int,
            Self::MAX_USERNAME_LEN as nat,
        );
        let email = text_at(bytes, Self::EMAIL_OFFSET as int, Self::MAX_EMAIL_LEN as nat);
        if bytes.len() == Self::LEN
            && word_at(bytes, 0) == Self::TAG
            && username is Some
            && email is Some {
            Some(
                UserProfileView {
                    user: identity_at(bytes, Self::USER_OFFSET as int),
                    username: username->0,
                    email: email->0,
                    created_at: timestamp_at(bytes, Self::CREATED_AT_OFFSET as int),
                    updated_at: timestamp_at(bytes, Self::UPDATED_AT_OFFSET as int),
                },
            )
        } else {
            None
        }
    }

    /// Whether every field fits the room the layout gives it.
    pub fn fits_layout(&self) -> (b: bool)
        ensures
            b == self@.wf(),
    {
        text_fits(self.username.as_str(), Self::MAX_USERNAME_LEN) && text_fits(
            self.email.as_str(),
            Self::MAX_EMAIL_LEN,
        )
    }

    /// The stored bytes of this profile. A profile with a field that does
    /// not fit is refused: nothing is ever cut short.
    pub fn encode(&self) -> (r: Result<Vec<u8>, ErrorCode>)
        ensures
            match r {
                Ok(bytes) => self@.wf() && bytes@ == self@.encoding(),
                Err(e) => !self@.wf() && e == ErrorCode::InvalidInputData,
            },
    {
        if !self.fits_layout() {
            return Err(ErrorCode::InvalidInputData);
        }
        let mut bytes: Vec<u8> = Vec::new();
        put_word(&mut bytes, Self::TAG);
        put_bytes(&mut bytes, self.user.bytes.as_slice());
        put_text(&mut bytes, self.username.as_str(), Self::MAX_USERNAME_LEN);
        put_text(&mut bytes, self.email.as_str(), Self::MAX_EMAIL_LEN);
        put_timestamp(&mut bytes, self.created_at);
        put_timestamp(&mut bytes, self.updated_at);
        assert(bytes@ =~= self@.encoding());
        Ok(bytes)
    }

    /// Reads a profile back from stored bytes.
    pub fn decode(bytes: &[u8]) -> (r: Option<UserProfile>)
        ensures
            match r {
                Some(profile) => Self::decoding(bytes@) == Some(profile@),
                None => Self::decoding(bytes@) is None,
            },
    {
        if bytes.len() != Self::LEN {
            return None;
        }
        if get_word(bytes, 0) != Self::TAG {
            return None;
        }
        let username = match get_text(bytes, Self::USERNAME_OFFSET, Self::MAX_USERNAME_LEN) {
            Some(text) => text,
            None => {
                return None;
            },
        };
        let email = match get_text(bytes, Self::EMAIL_OFFSET, Self::MAX_EMAIL_LEN) {
            Some(text) => text,
            None => {
                return None;
            },
        };
        Some(
            UserProfile {
                user: Identity::new(get_identity(bytes, Self::USER_OFFSET)),
                username,
                email,
                created_at: get_timestamp(bytes, Self::CREATED_AT_OFFSET),
                updated_at: get_timestamp(bytes, Self::UPDATED_AT_OFFSET),
            },
        )
    }
}

/// A stored profile has the footprint of a profile.
pub proof fn lemma_profile_footprint(profile: UserProfileView)
    requires
        profile.wf(),
    ensures
        profile.encoding().len() == UserProfile::LEN,
{
    lemma_field_widths();
    lemma_text_field_width(profile.username, UserProfile::MAX_USERNAME_LEN as nat);
    lemma_text_field_width(profile.email, UserProfile::MAX_EMAIL_LEN as nat);
}

/// What is stored is what is read back.
pub proof fn lemma_profile_round_trip(profile: UserProfileView)
    requires
        profile.wf(),
    ensures
        UserProfile::decoding(profile.encoding()) == Some(profile),
{
    let tag = word(UserProfile::TAG);
    let user = profile.user;
    let username = text_field(profile.username, UserProfile::MAX_USERNAME_LEN as nat);
    let email = text_field(profile.email, UserProfile::MAX_EMAIL_LEN as nat);
    let created = timestamp(profile.created_at);
    let updated = timestamp(profile.updated_at);
    let all = profile.encoding();
    let none = Seq::<u8>::empty();
    lemma_profile_footprint(profile);
    lemma_field_widths();
    lemma_text_field_width(profile.username, UserProfile::MAX_USERNAME_LEN as nat);
    lemma_text_field_width(profile.email, UserProfile::MAX_EMAIL_LEN as nat);

    assert(all =~= none + tag + (user + username + email + created + updated));
    lemma_word_at(none, UserProfile::TAG, user + username + email + created + updated);

    assert(all =~= tag + user + (username + email + created + updated));
    lemma_identity_at(tag, user, username + email + created + updated);

    assert(all =~= (tag + user) + username + (email + created + updated));
    lemma_text_at(
        tag + user,
        profile.username,
        UserProfile::MAX_USERNAME_LEN as nat,
        email + created + updated,
    );

    assert(all =~= (tag + user + username) + email + (created + updated));
    lemma_text_at(
        tag + user + username,
        profile.email,
        UserProfile::MAX_EMAIL_LEN as nat,
        created + updated,
    );

    assert(all =~= (tag + user + username + email) + created + updated);
    lemma_timestamp_at(tag + user + username + email, profile.created_at, updated);

    assert(all =~= (tag + user + username + email + created) + updated + none);
    lemma_timestamp_at(tag + user + username + email + created, profile.updated_at, none);
}

/// Whatever is read back as a profile fits the layout.
pub proof fn lemma_profile_decoding_wf(bytes: Seq<u8>)
    requires
        UserProfile::decoding(bytes) is Some,
    ensures
        UserProfile::decoding(bytes)->0.wf(),
{
    lemma_text_at_fits(
        bytes,
        UserProfile::USERNAME_OFFSET as int,
        UserProfile::MAX_USERNAME_LEN as nat,
    );
    lemma_text_at_fits(bytes, UserProfile::EMAIL_OFFSET as int, UserProfile::MAX_EMAIL_LEN as nat);
}

} // verus!
