//! Parsing of highlight colours written as hexadecimal strings.

use vstd::prelude::*;
use vstd::string::StringSliceAdditionalSpecFns;

verus! {

/// Alpha given to a colour written without one.
pub const DEFAULT_COLOR_ALPHA: u8 = 200;

/// The bytes left after removing every leading '#'.
pub open spec fn strip_hashes(b: Seq<u8>) -> Seq<u8>
    decreases b.len(),
{
    if b.len() > 0 && b[0] == 35 {
        strip_hashes(b.drop_first())
    } else {
        b
    }
}

/// Whether a byte begins a character (is not a UTF-8 continuation byte).
pub open spec fn starts_char(b: u8) -> bool {
    b < 0x80 || b >= 0xC0
}

/// Value of a hexadecimal digit byte.
pub open spec fn hex_digit(c: u8) -> Option<u8> {
    if 48 <= c <= 57 {
        Some((c - 48) as u8)
    } else if 97 <= c <= 102 {
        Some((c - 87) as u8)
    } else if 65 <= c <= 70 {
        Some((c - 55) as u8)
    } else {
        None
    }
}

/// The value of a channel written as two hexadecimal digits.
pub open spec fn hex_pair(c0: u8, c1: u8) -> Option<u8> {
    match (hex_digit(c0), hex_digit(c1)) {
        (Some(h), Some(l)) => Some((h * 16 + l) as u8),
        _ => None,
    }
}

/// The inputs on which slicing the stripped text into byte pairs is defined.
pub open spec fn hex_color_sliceable(b: Seq<u8>) -> bool {
    let t = strip_hashes(b);
    (t.len() == 6 || t.len() == 8) ==> (starts_char(t[2]) && starts_char(t[4]) && (t.len() == 8
        ==> starts_char(t[6])))
}

/// The colour that the text with UTF-8 bytes `b` denotes.
pub open spec fn spec_parse_hex_color(b: Seq<u8>) -> Option<Seq<u8>> {
    let t = strip_hashes(b);
    if t.len() == 6 {
        match (hex_pair(t[0], t[1]), hex_pair(t[2], t[3]), hex_pair(t[4], t[5])) {
            (Some(r), Some(g), Some(bl)) => Some(seq![r, g, bl, DEFAULT_COLOR_ALPHA]),
            _ => None,
        }
    } else if t.len() == 8 {
        match (
            hex_pair(t[0], t[1]),
            hex_pair(t[2], t[3]),
            hex_pair(t[4], t[5]),
            hex_pair(t[6], t[7]),
        ) {
            (Some(r), Some(g), Some(bl), Some(a)) => Some(seq![r, g, bl, a]),
            _ => None,
        }
    } else {
        None
    }
}

fn hex_digit_value(c: u8) -> (r: Option<u8>)
    ensures
        r == hex_digit(c),
{
    if 48 <= c && c <= 57 {
        Some(c - 48)
    } else if 97 <= c && c <= 102 {
        Some(c - 87)
    } else if 65 <= c && c <= 70 {
        Some(c - 55)
    } else {
        None
    }
}

fn hex_pair_value(c0: u8, c1: u8) -> (r: Option<u8>)
    ensures
        r == hex_pair(c0, c1),
{
    match (hex_digit_value(c0), hex_digit_value(c1)) {
        (Some(h), Some(l)) => Some(h * 16 + l),
        _ => None,
    }
}

proof fn lemma_strip_skip(b: Seq<u8>, i: int)
    requires
        0 <= i <= b.len(),
        forall|k: int| 0 <= k < i ==> b[k] == 35,
    ensures
        strip_hashes(b) == strip_hashes(b.subrange(i, b.len() as int)),
    decreases i,
{
    if i > 0 {
        assert(b.drop_first().subrange(i - 1, b.drop_first().len() as int) =~= b.subrange(
            i,
            b.len() as int,
        ));
        lemma_strip_skip(b.drop_first(), i - 1);
    } else {
        assert(b.subrange(0, b.len() as int) =~= b);
    }
}

/// Parses `#RRGGBB` (alpha 200) or `#RRGGBBAA`; any number of leading '#'
/// is ignored. Anything else gives `None`.
pub fn parse_hex_color(s: &str) -> (res: Option<[u8; 4]>)
    requires
        hex_color_sliceable(s.spec_bytes()),
    ensures
        match spec_parse_hex_color(s.spec_bytes()) {
            Some(c) => res matches Some(a) && a@ == c,
            None => res is None,
        },
{
    let b = s.as_bytes();
    let mut i: usize = 0;
    while i < b.len() && b[i] == 35
        invariant
            i <= b@.len(),
            forall|k: int| 0 <= k < i ==> b@[k] == 35,
        decreases b@.len() - i,
    {
        i += 1;
    }
    proof {
        lemma_strip_skip(b@, i as int);
        let rest = b@.subrange(i as int, b@.len() as int);
        if rest.len() > 0 {
            assert(rest[0] != 35);
        }
        assert(strip_hashes(rest) == rest);
    }
    let n = b.len() - i;
    let ghost t = b@.subrange(i as int, b@.len() as int);
    assert(t.len() == n);
    if n == 6 {
        assert(t[0] == b@[i as int] && t[5] == b@[i + 5]);
        let r = hex_pair_value(b[i], b[i + 1]);
        let g = hex_pair_value(b[i + 2], b[i + 3]);
        let bl = hex_pair_value(b[i + 4], b[i + 5]);
        match (r, g, bl) {
            (Some(r), Some(g), Some(bl)) => {
                let a = [r, g, bl, DEFAULT_COLOR_ALPHA];
                assert(a@ =~= seq![r, g, bl, DEFAULT_COLOR_ALPHA]);
                Some(a)
            },
            _ => None,
        }
    } else if n == 8 {
        assert(t[0] == b@[i as int] && t[7] == b@[i + 7]);
        let r = hex_pair_value(b[i], b[i + 1]);
        let g = hex_pair_value(b[i + 2], b[i + 3]);
        let bl = hex_pair_value(b[i + 4], b[i + 5]);
        let al = hex_pair_value(b[i + 6], b[i + 7]);
        match (r, g, bl, al) {
            (Some(r), Some(g), Some(bl), Some(al)) => {
                let a = [r, g, bl, al];
                assert(a@ =~= seq![r, g, bl, al]);
                Some(a)
            },
            _ => None,
        }
    } else {
        None
    }
}

/// Whether `parse_hex_color` can slice the text: after the leading '#',
/// a six or eight byte text must begin a character at each byte pair.
pub fn hex_color_is_sliceable(s: &str) -> (r: bool)
    ensures
        r == hex_color_sliceable(s.spec_bytes()),
{
    let b = s.as_bytes();
    let mut i: usize = 0;
    while i < b.len() && b[i] == 35
        invariant
            i <= b@.len(),
            forall|k: int| 0 <= k < i ==> b@[k] == 35,
        decreases b@.len() - i,
    {
        i += 1;
    }
    proof {
        lemma_strip_skip(b@, i as int);
        let rest = b@.subrange(i as int, b@.len() as int);
        if rest.len() > 0 {
            assert(rest[0] != 35);
        }
        assert(strip_hashes(rest) == rest);
    }
    let n = b.len() - i;
    let ghost t = b@.subrange(i as int, b@.len() as int);
    if n == 6 || n == 8 {
        assert(t[2] == b@[i + 2] && t[4] == b@[i + 4]);
        let ok = (b[i + 2] < 0x80 || b[i + 2] >= 0xC0) && (b[i + 4] < 0x80 || b[i + 4] >= 0xC0);
        if n == 8 {
            assert(t[6] == b@[i + 6]);
            ok && (b[i + 6] < 0x80 || b[i + 6] >= 0xC0)
        } else {
            ok
        }
    } else {
        true
    }
}

} // verus!
