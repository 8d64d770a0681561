use vstd::prelude::*;
use crate::playlists::{trim, trimmed, trim_start, trim_end};
use crate::remote::whitespace;
use crate::text::chars_of;
use crate::track_menu::{ascii_lower, last_segment, name_extension, path_extension, plain_path};
use crate::remote::{str_equal, join_names, joined, views};
use crate::text::{decimal, digit_char, push_decimal};

verus! {

/// Whether a character is an ASCII digit.
pub open spec fn is_digit(c: char) -> bool {
    '0' <= c <= '9'
}

/// The number written by a string of decimal digits.
pub open spec fn digits_value(s: Seq<char>) -> int
    decreases s.len(),
{
    if s.len() == 0 {
        0
    } else {
        digits_value(s.drop_last()) * 10 + (s.last() as int - '0' as int)
    }
}

/// The digits of an unsigned number, after an optional leading `+`.
pub open spec fn unsigned_digits(s: Seq<char>) -> Seq<char> {
    if s.len() > 0 && s[0] == '+' {
        s.drop_first()
    } else {
        s
    }
}

/// Whether every character is an ASCII digit.
pub open spec fn all_digits(d: Seq<char>) -> bool {
    forall|i: int| 0 <= i < d.len() ==> is_digit(#[trigger] d[i])
}

/// The value `str::parse::<u32>` reads from a string: one or more digits,
/// after an optional `+`, whose number fits in 32 bits.
pub open spec fn parsed_u32(s: Seq<char>) -> Option<u32> {
    let d = unsigned_digits(s);
    if d.len() > 0 && all_digits(d) && digits_value(d) <= u32::MAX {
        Some(digits_value(d) as u32)
    } else {
        None
    }
}

proof fn lemma_digits_value_grows(s: Seq<char>, k: int)
    requires
        0 <= k <= s.len(),
        forall|i: int| 0 <= i < s.len() ==> is_digit(#[trigger] s[i]),
    ensures
        digits_value(s.take(k)) <= digits_value(s),
        0 <= digits_value(s.take(k)),
    decreases s.len(),
{
    if k < s.len() {
        assert(s.drop_last().take(k) =~= s.take(k));
        lemma_digits_value_grows(s.drop_last(), k);
    } else {
        assert(s.take(k) =~= s);
        if s.len() > 0 {
            lemma_digits_value_grows(s.drop_last(), (s.len() - 1) as int);
            assert(s.drop_last().take((s.len() - 1) as int) =~= s.drop_last());
        }
    }
}

/// Reads a track or disc number typed in the metadata editor: the field
/// without surrounding whitespace, as an unsigned 32-bit number; `None` when
/// it is not one (an empty field among them).
pub fn parse_number_field(field: &str) -> (r: Option<u32>)
    ensures
        r == parsed_u32(trimmed(field@)),
{
    let t = trim(field);
    let cs = chars_of(t.as_str());
    let ghost whole = cs@;
    let skip: usize = if cs.len() > 0 && cs[0] == '+' { 1 } else { 0 };
    let ghost d = unsigned_digits(whole);
    assert(whole == trimmed(field@));
    assert(d =~= whole.skip(skip as int));
    if skip >= cs.len() {
        return None;
    }
    let mut value: u32 = 0;
    let mut i: usize = skip;
    while i < cs.len()
        invariant
            skip <= i <= cs@.len(),
            cs@ == whole,
            d == whole.skip(skip as int),
            d == unsigned_digits(whole),
            whole == trimmed(field@),
            forall|k: int| 0 <= k < i - skip ==> is_digit(#[trigger] d[k]),
            value as int == digits_value(d.take(i - skip)),
        decreases cs@.len() - i,
    {
        let c = cs[i];
        if !('0' <= c && c <= '9') {
            assert(!is_digit(d[i - skip]));
            assert(!all_digits(d));
            return None;
        }
        let digit: u32 = (c as u32) - ('0' as u32);
        assert(d.take(i - skip + 1).drop_last() =~= d.take(i - skip));
        if value > 429496729 || (value == 429496729 && digit > 5) {
            proof {
                let p = d.take(i - skip + 1);
                assert(digits_value(p) > u32::MAX);
                if all_digits(d) {
                    lemma_digits_value_grows(d, i - skip + 1);
                    assert(digits_value(d) > u32::MAX);
                }
                assert(parsed_u32(whole) is None);
            }
            return None;
        }
        value = value * 10 + digit;
        i = i + 1;
    }
    assert(d.take(d.len() as int) =~= d);
    Some(value)
}

/// The value `str::parse::<u64>` reads from a string: one or more digits,
/// after an optional `+`, whose number fits in 64 bits.
pub open spec fn parsed_u64(s: Seq<char>) -> Option<u64> {
    let d = unsigned_digits(s);
    if d.len() > 0 && all_digits(d) && digits_value(d) <= u64::MAX {
        Some(digits_value(d) as u64)
    } else {
        None
    }
}

/// Reads an unsigned 64-bit number written in decimal, as `str::parse::<u64>`
/// does (no surrounding whitespace allowed).
pub fn parse_u64(text: &str) -> (r: Option<u64>)
    ensures
        r == parsed_u64(text@),
{
    let cs = chars_of(text);
    let ghost whole = cs@;
    let skip: usize = if cs.len() > 0 && cs[0] == '+' { 1 } else { 0 };
    let ghost d = unsigned_digits(whole);
    assert(d =~= whole.skip(skip as int));
    if skip >= cs.len() {
        return None;
    }
    let mut value: u64 = 0;
    let mut i: usize = skip;
    while i < cs.len()
        invariant
            skip <= i <= cs@.len(),
            cs@ == whole,
            whole == text@,
            d == whole.skip(skip as int),
            d == unsigned_digits(whole),
            forall|k: int| 0 <= k < i - skip ==> is_digit(#[trigger] d[k]),
            value as int == digits_value(d.take(i - skip)),
        decreases cs@.len() - i,
    {
        let c = cs[i];
        if !('0' <= c && c <= '9') {
            assert(!is_digit(d[i - skip]));
            assert(!all_digits(d));
            return None;
        }
        let digit: u64 = ((c as u32) - ('0' as u32)) as u64;
        assert(d.take(i - skip + 1).drop_last() =~= d.take(i - skip));
        if value > 1844674407370955161 || (value == 1844674407370955161 && digit > 5) {
            proof {
                let p = d.take(i - skip + 1);
                assert(digits_value(p) > u64::MAX);
                if all_digits(d) {
                    lemma_digits_value_grows(d, i - skip + 1);
                    assert(digits_value(d) > u64::MAX);
                }
                assert(parsed_u64(whole) is None);
            }
            return None;
        }
        value = value * 10 + digit;
        i = i + 1;
    }
    assert(d.take(d.len() as int) =~= d);
    Some(value)
}

/// The MIME type of a picked cover image, by its file extension in any case:
/// PNG, GIF and WebP by name, JPEG for everything else.
pub open spec fn cover_mime_of(ext: Option<Seq<char>>) -> Seq<char> {
    match ext {
        Some(e) => if ascii_lower(e) == "png"@ {
            "image/png"@
        } else if ascii_lower(e) == "gif"@ {
            "image/gif"@
        } else if ascii_lower(e) == "webp"@ {
            "image/webp"@
        } else {
            "image/jpeg"@
        },
        None => "image/jpeg"@,
    }
}

/// The MIME type a new cover image is stored with.
pub fn cover_mime(ext: Option<&str>) -> (r: &'static str)
    ensures
        r@ == cover_mime_of(match ext {
            Some(e) => Some(e@),
            None => None,
        }),
{
    match ext {
        Some(e) => {
            let lower = crate::track_menu::lower_ascii(e);
            if str_equal(lower.as_str(), "png") {
                "image/png"
            } else if str_equal(lower.as_str(), "gif") {
                "image/gif"
            } else if str_equal(lower.as_str(), "webp") {
                "image/webp"
            } else {
                "image/jpeg"
            }
        },
        None => "image/jpeg",
    }
}

/// The artist field the tag editor opens with: the track's artists joined by
/// `, `, or its single artist when it lists none.
pub fn artist_field(artists: &Vec<String>, artist: &String) -> (r: String)
    ensures
        artists@.len() == 0 ==> r@ == artist@,
        artists@.len() > 0 ==> r@ == joined(views(artists@), ", "@),
{
    if artists.len() == 0 {
        artist.clone()
    } else {
        join_names(artists, ", ")
    }
}

/// Whether a MIME type is one a cover is stored with.
pub open spec fn is_cover_mime(m: Seq<char>) -> bool {
    m == "image/png"@ || m == "image/gif"@ || m == "image/webp"@ || m == "image/jpeg"@
}

/// The MIME type of a picked cover image file, by the extension of its path.
pub fn cover_mime_for_path(path: &str) -> (r: &'static str)
    ensures
        plain_path(path@) ==> r@ == cover_mime_of(name_extension(last_segment(path@))),
        is_cover_mime(r@),
{
    match path_extension(path) {
        Some(e) => cover_mime(Some(e.as_str())),
        None => cover_mime(None),
    }
}

/// The text of a track or disc number field: the number in decimal, or nothing.
pub open spec fn number_text(n: Option<u32>) -> Seq<char> {
    match n {
        Some(v) => decimal(v as nat),
        None => Seq::empty(),
    }
}

/// The text a track or disc number field opens with.
pub fn number_field(n: Option<u32>) -> (r: String)
    ensures
        r@ == number_text(n),
{
    let mut s = String::new();
    match n {
        Some(v) => push_decimal(&mut s, v as u64),
        None => {},
    }
    s
}

proof fn lemma_decimal_digits(n: nat)
    ensures
        decimal(n).len() > 0,
        all_digits(decimal(n)),
        digits_value(decimal(n)) == n,
    decreases n,
{
    let d = decimal(n);
    if n < 10 {
        assert(d.drop_last() =~= Seq::<char>::empty());
        assert(d.last() as int == n + 48);
        assert('0' as int == 48);
        assert(digits_value(d) == digits_value(d.drop_last()) * 10 + (d.last() as int - '0' as int));
    } else {
        lemma_decimal_digits(n / 10);
        assert(d.drop_last() =~= decimal(n / 10));
        assert(d.last() == digit_char(n % 10));
        assert(d.last() as int == n % 10 + 48);
        assert(n == (n / 10) * 10 + n % 10);
        assert('0' as int == 48);
        assert(digits_value(d) == digits_value(d.drop_last()) * 10 + (d.last() as int - '0' as int));
        assert forall|i: int| 0 <= i < d.len() implies is_digit(#[trigger] d[i]) by {
            if i < d.len() - 1 {
                assert(d[i] == decimal(n / 10)[i]);
            }
        }
    }
}

proof fn lemma_trim_digits(s: Seq<char>)
    requires
        s.len() > 0,
        all_digits(s),
    ensures
        trimmed(s) == s,
{
    assert(!whitespace(s[0]));
    assert(trim_start(s) == s);
    assert(!whitespace(s.last()));
}

/// A number written into its field reads back as the same number, and an
/// empty field as none: saving the editor without touching a number field
/// keeps the number.
pub proof fn lemma_number_field_round_trip(n: Option<u32>)
    ensures
        parsed_u32(trimmed(number_text(n))) == n,
{
    match n {
        Some(v) => {
            let d = decimal(v as nat);
            lemma_decimal_digits(v as nat);
            lemma_trim_digits(d);
            assert(d[0] != '+');
            assert(unsigned_digits(d) == d);
        },
        None => {
            let e = Seq::<char>::empty();
            assert(trim_start(e) == e);
            assert(trim_end(e) == e);
            assert(unsigned_digits(e) == e);
        },
    }
}

/// What happens to a track's cover when its tags are saved: kept, replaced
/// by the bytes of a picked image, or removed.
#[derive(Debug, Clone, PartialEq, Eq)]
pub enum CoverChange {
    Keep,
    Replace(Vec<u8>),
    Remove,
}

/// The tags saved from the editor.
#[derive(Debug, Clone, PartialEq, Eq)]
pub struct TrackEdits {
    pub title: String,
    pub artist: String,
    pub album: String,
    pub track_number: Option<u32>,
    pub disc_number: Option<u32>,
    pub cover: CoverChange,
}

/// The record the editor saves: the title, artist and album fields as typed,
/// the track and disc numbers read from their fields (`None` where a field
/// does not hold one), and the cover change.
pub fn track_edits(title: &String, artist: &String, album: &String, track_no: &str, disc_no: &str, cover: CoverChange) -> (r: TrackEdits)
    ensures
        r.title@ == title@,
        r.artist@ == artist@,
        r.album@ == album@,
        r.track_number == parsed_u32(trimmed(track_no@)),
        r.disc_number == parsed_u32(trimmed(disc_no@)),
        r.cover == cover,
{
    TrackEdits {
        title: title.clone(),
        artist: artist.clone(),
        album: album.clone(),
        track_number: parse_number_field(track_no),
        disc_number: parse_number_field(disc_no),
        cover,
    }
}

} // verus!
