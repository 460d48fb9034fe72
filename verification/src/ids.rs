//! Sound ids: UUIDs in their canonical text form, made and read with the
//! `uuid` crate.

use vstd::prelude::*;

verus! {

/// A lowercase hexadecimal digit.
pub open spec fn is_lower_hex(c: char) -> bool {
    (48 <= (c as u32) <= 57) || (97 <= (c as u32) <= 102)
}

/// A hexadecimal digit in either letter case.
pub open spec fn is_hex(c: char) -> bool {
    is_lower_hex(c) || (65 <= (c as u32) <= 70)
}

/// A hexadecimal digit written in lowercase; other characters as they are.
pub open spec fn lower_hex(c: char) -> char {
    if 65 <= (c as u32) <= 70 {
        ((c as u32) + 32) as char
    } else {
        c
    }
}

/// A character in ASCII lowercase; other characters as they are.
pub open spec fn ascii_lower(c: char) -> char {
    if 65 <= (c as u32) <= 90 {
        ((c as u32) + 32) as char
    } else {
        c
    }
}

/// Positions of the hyphens in the hyphenated form.
pub open spec fn is_hyphen_position(i: int) -> bool {
    i == 8 || i == 13 || i == 18 || i == 23
}

/// The hyphenated form: 36 characters, hyphens at positions 8, 13, 18 and
/// 23 and hexadecimal digits in either case everywhere else.
pub open spec fn is_hyphenated_uuid(t: Seq<char>) -> bool {
    &&& t.len() == 36
    &&& forall|i: int|
        0 <= i < 36 ==> if is_hyphen_position(i) {
            #[trigger] t[i] == '-'
        } else {
            is_hex(t[i])
        }
}

/// The simple form: 32 hexadecimal digits in either case.
pub open spec fn is_simple_uuid(t: Seq<char>) -> bool {
    &&& t.len() == 32
    &&& forall|i: int| 0 <= i < 32 ==> is_hex(#[trigger] t[i])
}

/// The canonical text of a UUID: 36 characters, hyphens at positions 8, 13,
/// 18 and 23 and lowercase hexadecimal digits everywhere else, as
/// `Uuid`'s `Display` writes it.
pub open spec fn is_canonical_uuid_text(t: Seq<char>) -> bool {
    &&& t.len() == 36
    &&& forall|i: int|
        0 <= i < 36 ==> if is_hyphen_position(i) {
            #[trigger] t[i] == '-'
        } else {
            is_lower_hex(t[i])
        }
}

/// 32 digits laid out in groups of 8, 4, 4, 4 and 12 with hyphens between.
pub open spec fn hyphenate(d: Seq<char>) -> Seq<char> {
    d.subrange(0, 8) + seq!['-'] + d.subrange(8, 12) + seq!['-'] + d.subrange(12, 16) + seq!['-']
        + d.subrange(16, 20) + seq!['-'] + d.subrange(20, 32)
}

/// A text with its hexadecimal letters in lowercase.
pub open spec fn lowercase_hex(t: Seq<char>) -> Seq<char> {
    t.map_values(|c: char| lower_hex(c))
}

/// The canonical text of the UUID that `Uuid::parse_str` reads from `s`, or
/// `None` where it refuses `s`: the simple form, the hyphenated form, the
/// hyphenated form in braces, or the hyphenated form after `urn:uuid:` in
/// any letter case, each with hexadecimal digits in either case.
pub open spec fn uuid_text(s: Seq<char>) -> Option<Seq<char>> {
    if is_simple_uuid(s) {
        Some(lowercase_hex(hyphenate(s)))
    } else if is_hyphenated_uuid(s) {
        Some(lowercase_hex(s))
    } else if s.len() == 38 && s[0] == '{' && s[37] == '}' && is_hyphenated_uuid(
        s.subrange(1, 37),
    ) {
        Some(lowercase_hex(s.subrange(1, 37)))
    } else if s.len() == 45 && s.take(9).map_values(|c: char| ascii_lower(c)) == "urn:uuid:"@
        && is_hyphenated_uuid(s.skip(9)) {
        Some(lowercase_hex(s.skip(9)))
    } else {
        None
    }
}

/// Calls `Uuid::parse_str` on `s` and formats an accepted UUID with its
/// `Display` impl, which writes the 32 digits in lowercase, hyphenated. The
/// shapes it accepts are the four of its parser (by length: 32, 36, 38 and
/// 45 bytes, all ASCII), stated as `uuid_text`.
#[verifier::external_body]
pub(crate) fn parse_uuid_text(s: &str) -> (r: Option<String>)
    ensures
        r is Some <==> uuid_text(s@) is Some,
        r matches Some(t) ==> t@ == uuid_text(s@)->0,
{
    match uuid::Uuid::parse_str(s) {
        Ok(id) => Some(id.to_string()),
        Err(_) => None,
    }
}

/// An accepted text comes out canonical, and a canonical text is accepted
/// and comes out unchanged.
pub proof fn law_uuid_text_canonical(s: Seq<char>)
    ensures
        uuid_text(s) matches Some(t) ==> is_canonical_uuid_text(t),
        is_canonical_uuid_text(s) ==> uuid_text(s) == Some(s),
{
    assert forall|t: Seq<char>| #[trigger] is_hyphenated_uuid(t) implies is_canonical_uuid_text(
        lowercase_hex(t),
    ) by {
        assert forall|i: int| 0 <= i < 36 implies if is_hyphen_position(i) {
            #[trigger] lowercase_hex(t)[i] == '-'
        } else {
            is_lower_hex(lowercase_hex(t)[i])
        } by {
            assert(lowercase_hex(t)[i] == lower_hex(t[i]));
        }
    }
    if is_simple_uuid(s) {
        let h = hyphenate(s);
        assert(h.len() == 36);
        assert forall|i: int| 0 <= i < 36 implies if is_hyphen_position(i) {
            #[trigger] h[i] == '-'
        } else {
            is_hex(h[i])
        } by {
            if i < 8 {
                assert(h[i] == s[i]);
            } else if 8 < i < 13 {
                assert(h[i] == s[i - 1]);
            } else if 13 < i < 18 {
                assert(h[i] == s[i - 2]);
            } else if 18 < i < 23 {
                assert(h[i] == s[i - 3]);
            } else if 23 < i {
                assert(h[i] == s[i - 4]);
            }
        }
        assert(is_hyphenated_uuid(h));
    } else if is_hyphenated_uuid(s) {
    } else if s.len() == 38 && s[0] == '{' && s[37] == '}' && is_hyphenated_uuid(
        s.subrange(1, 37),
    ) {
    } else if s.len() == 45 && s.take(9).map_values(|c: char| ascii_lower(c)) == "urn:uuid:"@
        && is_hyphenated_uuid(s.skip(9)) {
    }
    if is_canonical_uuid_text(s) {
        assert(!is_simple_uuid(s));
        assert forall|i: int| 0 <= i < 36 implies if is_hyphen_position(i) {
            #[trigger] s[i] == '-'
        } else {
            is_hex(s[i])
        } by {}
        assert(is_hyphenated_uuid(s));
        assert forall|i: int| 0 <= i < s.len() implies #[trigger] lowercase_hex(s)[i] == s[i] by {
            if !is_hyphen_position(i) {
                assert(is_lower_hex(s[i]));
            }
        }
        assert(lowercase_hex(s) =~= s);
    }
}

/// Calls `Uuid::new_v4` and formats the result with its `Display` impl.
/// The bits are random, so only what holds of every outcome is stated: the
/// text is canonical, carries the version digit `4` at position 14 and one
/// of the variant digits `8`, `9`, `a`, `b` at position 19.
#[verifier::external_body]
fn random_uuid_text() -> (t: String)
    ensures
        is_canonical_uuid_text(t@),
        t@[14] == '4',
        t@[19] == '8' || t@[19] == '9' || t@[19] == 'a' || t@[19] == 'b',
{
    uuid::Uuid::new_v4().to_string()
}

/// A fresh random id for a newly uploaded sound.
pub fn new_sound_id() -> (id: String)
    ensures
        is_canonical_uuid_text(id@),
        id@[14] == '4',
        id@[19] == '8' || id@[19] == '9' || id@[19] == 'a' || id@[19] == 'b',
{
    random_uuid_text()
}

} // verus!
