use vstd::prelude::*;
use crate::remote::{hex_digit, hex_of};

verus! {

/// Where the player takes its music from.
#[derive(Debug, Clone, Copy, PartialEq, Eq, Structural)]
pub enum MusicSource {
    Local,
    Jellyfin,
}

impl Default for MusicSource {
    fn default() -> (r: MusicSource)
        ensures
            r == MusicSource::Local,
    {
        MusicSource::Local
    }
}

/// A Jellyfin server and the session on it.
#[derive(Debug, Clone)]
pub struct JellyfinServer {
    pub name: String,
    pub url: String,
    pub access_token: Option<String>,
    pub user_id: Option<String>,
}

impl Default for JellyfinServer {
    fn default() -> (r: JellyfinServer)
        ensures
            r.name@ == Seq::<char>::empty(),
            r.url@ == Seq::<char>::empty(),
            r.access_token is None,
            r.user_id is None,
    {
        JellyfinServer { name: String::new(), url: String::new(), access_token: None, user_id: None }
    }
}

/// The stored settings of the app.
#[derive(Debug, Clone)]
pub struct AppConfig {
    pub server: Option<JellyfinServer>,
    pub active_source: MusicSource,
    /// The folder scanned for local music.
    pub music_directory: String,
    pub theme: String,
    /// This installation's id towards servers.
    pub device_id: String,
    pub discord_presence: Option<bool>,
}

/// The theme a configuration falls back to when none is stored.
pub fn default_theme() -> (r: String)
    ensures
        r@ == "default"@,
{
    String::from_str("default")
}

/// Whether a string is a hyphenated UUID in lowercase: 36 characters with
/// hyphens at positions 8, 13, 18 and 23 and hexadecimal digits elsewhere.
pub open spec fn is_hyphenated_uuid(s: Seq<char>) -> bool {
    &&& s.len() == 36
    &&& forall|k: int|
        0 <= k < 36 ==> if k == 8 || k == 13 || k == 18 || k == 23 {
            s[k] == '-'
        } else {
            ('0' <= s[k] <= '9') || ('a' <= s[k] <= 'f')
        }
}

/// Whether a string is a random (version 4) UUID of the standard variant:
/// hyphenated, with the version digit `4` at position 14 and one of the
/// variant digits `8`, `9`, `a`, `b` at position 19.
pub open spec fn is_v4_uuid(s: Seq<char>) -> bool {
    &&& is_hyphenated_uuid(s)
    &&& s[14] == '4'
    &&& (s[19] == '8' || s[19] == '9' || s[19] == 'a' || s[19] == 'b')
}

/// The bytes of a version 4 UUID built from 16 random bytes: the high half of
/// byte 6 becomes the version 4, the two high bits of byte 8 the variant `10`.
pub open spec fn v4_bytes(b: Seq<u8>) -> Seq<u8> {
    b.update(6, (b[6] % 16 + 64) as u8).update(8, (b[8] % 64 + 128) as u8)
}

/// The hyphenated lowercase text of the version 4 UUID built from `b`:
/// groups of 4, 2, 2, 2 and 6 bytes in hexadecimal.
pub open spec fn uuid_text(b: Seq<u8>) -> Seq<char> {
    let v = v4_bytes(b);
    hex_of(v.subrange(0, 4)) + seq!['-'] + hex_of(v.subrange(4, 6)) + seq!['-'] + hex_of(v.subrange(6, 8))
        + seq!['-'] + hex_of(v.subrange(8, 10)) + seq!['-'] + hex_of(v.subrange(10, 16))
}

/// `uuid::Builder::from_random_bytes(bytes).into_uuid().to_string()`: sets the
/// version and variant bits of the bytes and writes the UUID hyphenated in
/// lowercase hexadecimal.
#[verifier::external_body]
fn uuid_from_random_bytes(bytes: [u8; 16]) -> (r: String)
    ensures
        r@ == uuid_text(bytes@),
{
    uuid::Builder::from_random_bytes(bytes).into_uuid().to_string()
}

proof fn lemma_hex_of(s: Seq<u8>)
    ensures
        hex_of(s).len() == 2 * s.len(),
        forall|i: int|
            0 <= i < s.len() ==> hex_of(s)[2 * i] == hex_digit((s[i] / 16) as nat) && hex_of(s)[2 * i + 1]
                == hex_digit((s[i] % 16) as nat),
    decreases s.len(),
{
    if s.len() > 0 {
        lemma_hex_of(s.drop_last());
        assert forall|i: int| 0 <= i < s.len() implies hex_of(s)[2 * i] == hex_digit((s[i] / 16) as nat)
            && hex_of(s)[2 * i + 1] == hex_digit((s[i] % 16) as nat) by {
            if i < s.len() - 1 {
                assert(s.drop_last()[i] == s[i]);
            }
        }
    }
}

proof fn lemma_hex_digit_range(d: nat)
    requires
        d < 16,
    ensures
        ('0' <= hex_digit(d) <= '9') || ('a' <= hex_digit(d) <= 'f'),
{
    if d < 10 {
        assert(hex_digit(d) == (d + 48) as char);
    } else {
        assert(hex_digit(d) == (d + 87) as char);
    }
}

proof fn lemma_hex_digits(s: Seq<u8>)
    ensures
        forall|k: int| 0 <= k < hex_of(s).len() ==> ('0' <= #[trigger] hex_of(s)[k] <= '9') || ('a' <= hex_of(s)[k] <= 'f'),
{
    lemma_hex_of(s);
    assert forall|k: int| 0 <= k < hex_of(s).len() implies ('0' <= #[trigger] hex_of(s)[k] <= '9') || ('a' <= hex_of(s)[k] <= 'f') by {
        let i = k / 2;
        assert(k == 2 * i + k % 2);
        assert(0 <= i < s.len());
        lemma_hex_digit_range((s[i] / 16) as nat);
        lemma_hex_digit_range((s[i] % 16) as nat);
        if k % 2 == 0 {
            assert(hex_of(s)[2 * i] == hex_digit((s[i] / 16) as nat));
        } else {
            assert(hex_of(s)[2 * i + 1] == hex_digit((s[i] % 16) as nat));
        }
    }
}

/// Every UUID built from random bytes is a hyphenated version 4 UUID.
pub proof fn lemma_uuid_text_is_v4(b: Seq<u8>)
    requires
        b.len() == 16,
    ensures
        is_v4_uuid(uuid_text(b)),
{
    let v = v4_bytes(b);
    let (g1, g2, g3, g4, g5) = (v.subrange(0, 4), v.subrange(4, 6), v.subrange(6, 8), v.subrange(8, 10), v.subrange(10, 16));
    lemma_hex_of(g1);
    lemma_hex_of(g2);
    lemma_hex_of(g3);
    lemma_hex_of(g4);
    lemma_hex_of(g5);
    lemma_hex_digits(g1);
    lemma_hex_digits(g2);
    lemma_hex_digits(g3);
    lemma_hex_digits(g4);
    lemma_hex_digits(g5);
    let t = uuid_text(b);
    assert(t.len() == 36);
    assert(g3[0] == v[6]);
    assert(g4[0] == v[8]);
    assert(v[6] / 16 == 4);
    assert(8 <= v[8] / 16 <= 11);
    assert(t[14] == hex_of(g3)[0]);
    assert(t[19] == hex_of(g4)[0]);
    assert forall|k: int| 0 <= k < 36 implies if k == 8 || k == 13 || k == 18 || k == 23 {
        t[k] == '-'
    } else {
        ('0' <= t[k] <= '9') || ('a' <= t[k] <= 'f')
    } by {
        if k < 8 {
            assert(t[k] == hex_of(g1)[k]);
        } else if 8 < k < 13 {
            assert(t[k] == hex_of(g2)[k - 9]);
        } else if 13 < k < 18 {
            assert(t[k] == hex_of(g3)[k - 14]);
        } else if 18 < k < 23 {
            assert(t[k] == hex_of(g4)[k - 19]);
        } else if 23 < k {
            assert(t[k] == hex_of(g5)[k - 24]);
        }
    }
}

/// A device id for a configuration that has none, built from 16 random
/// bytes: a version 4 UUID.
pub fn default_device_id(random: [u8; 16]) -> (r: String)
    ensures
        r@ == uuid_text(random@),
        is_v4_uuid(r@),
{
    proof {
        lemma_uuid_text_is_v4(random@);
    }
    uuid_from_random_bytes(random)
}

/// Discord presence is on unless turned off.
pub fn default_discord_presence() -> (r: Option<bool>)
    ensures
        r == Some(true),
{
    Some(true)
}

/// The configuration of a first start: local music from `./assets`, the
/// default theme, the device id built from `random`, Discord presence on.
pub open spec fn is_fresh_config(c: AppConfig, random: Seq<u8>) -> bool {
    &&& c.server is None
    &&& c.active_source == MusicSource::Local
    &&& c.music_directory@ == "./assets"@
    &&& c.theme@ == "default"@
    &&& c.device_id@ == uuid_text(random)
    &&& is_v4_uuid(c.device_id@)
    &&& c.discord_presence == Some(true)
}

impl AppConfig {
    /// The configuration of a first start, its device id drawn from the 16
    /// random bytes given.
    pub fn fresh(random: [u8; 16]) -> (r: AppConfig)
        ensures
            is_fresh_config(r, random@),
    {
        AppConfig {
            server: None,
            active_source: MusicSource::Local,
            music_directory: String::from_str("./assets"),
            theme: default_theme(),
            device_id: default_device_id(random),
            discord_presence: Some(true),
        }
    }

    /// The configuration a start uses: the stored one when it could be read and
    /// parsed, a fresh one (with its device id from `random`) otherwise.
    pub fn loaded_or_default(loaded: Option<AppConfig>, random: [u8; 16]) -> (r: AppConfig)
        ensures
            loaded matches Some(c) ==> r == c,
            loaded is None ==> is_fresh_config(r, random@),
    {
        match loaded {
            Some(c) => c,
            None => AppConfig::fresh(random),
        }
    }
}

} // verus!
