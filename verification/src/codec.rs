//! Base64 text of binary data (standard alphabet, with '=' padding).

use vstd::prelude::*;
use base64::Engine;

verus! {

/// The standard base64 alphabet: A-Z, a-z, 0-9, '+', '/'.
pub open spec fn b64_symbol(v: int) -> char {
    if v < 26 {
        (65 + v) as char
    } else if v < 52 {
        (71 + v) as char
    } else if v < 62 {
        (v - 4) as char
    } else if v == 62 {
        '+'
    } else {
        '/'
    }
}

/// Standard base64 with padding: each group of three bytes becomes four
/// symbols; a final group of one or two bytes is padded with '='.
pub open spec fn base64_standard(b: Seq<u8>) -> Seq<char>
    decreases b.len(),
{
    if b.len() == 0 {
        Seq::empty()
    } else if b.len() == 1 {
        seq![b64_symbol((b[0] as int) / 4), b64_symbol(((b[0] as int) % 4) * 16), '=', '=']
    } else if b.len() == 2 {
        seq![
            b64_symbol((b[0] as int) / 4),
            b64_symbol(((b[0] as int) % 4) * 16 + (b[1] as int) / 16),
            b64_symbol(((b[1] as int) % 16) * 4),
            '=',
        ]
    } else {
        seq![
            b64_symbol((b[0] as int) / 4),
            b64_symbol(((b[0] as int) % 4) * 16 + (b[1] as int) / 16),
            b64_symbol(((b[1] as int) % 16) * 4 + (b[2] as int) / 64),
            b64_symbol((b[2] as int) % 64),
        ] + base64_standard(b.subrange(3, b.len() as int))
    }
}

/// The value that a symbol of the alphabet stands for, or 64 for '='.
proof fn lemma_symbol_value(v: int)
    requires
        0 <= v < 64,
    ensures
        b64_symbol(v) != '=',
        (b64_symbol(v) as u32) < 128,
{
}

/// Two values below 64 with the same symbol are equal.
proof fn lemma_symbol_injective(v: int, w: int)
    requires
        0 <= v < 64,
        0 <= w < 64,
        b64_symbol(v) == b64_symbol(w),
    ensures
        v == w,
{
    assert(b64_symbol(v) as u32 == b64_symbol(w) as u32);
}

/// Length of the padded base64 text of `b`.
proof fn lemma_base64_len(b: Seq<u8>)
    ensures
        b.len() == 0 <==> base64_standard(b).len() == 0,
        b.len() >= 1 ==> base64_standard(b).len() >= 4,
    decreases b.len(),
{
    if b.len() >= 3 {
        lemma_base64_len(b.subrange(3, b.len() as int));
    }
}

proof fn lemma_bytes_from_groups(b0: u8, b1: u8, b2: u8, c0: u8, c1: u8, c2: u8)
    requires
        b0 / 4 == c0 / 4,
        (b0 % 4) * 16 + b1 / 16 == (c0 % 4) * 16 + c1 / 16,
        (b1 % 16) * 4 + b2 / 64 == (c1 % 16) * 4 + c2 / 64,
        b2 % 64 == c2 % 64,
    ensures
        b0 == c0,
        b1 == c1,
        b2 == c2,
{
    assert(b0 == c0 && b1 == c1 && b2 == c2) by (bit_vector)
        requires
            b0 / 4 == c0 / 4,
            (b0 % 4) * 16 + b1 / 16 == (c0 % 4) * 16 + c1 / 16,
            (b1 % 16) * 4 + b2 / 64 == (c1 % 16) * 4 + c2 / 64,
            b2 % 64 == c2 % 64,
    ;
}

/// Different bytes have different base64 texts.
pub proof fn lemma_base64_injective(b: Seq<u8>, c: Seq<u8>)
    requires
        base64_standard(b) == base64_standard(c),
    ensures
        b == c,
    decreases b.len(),
{
    let t = base64_standard(b);
    lemma_base64_len(b);
    lemma_base64_len(c);
    if b.len() == 0 {
        assert(c.len() == 0);
        assert(b =~= c);
        return;
    }
    // the third symbol is '=' exactly for one byte, the fourth for at most two
    let pad2_b = b.len() == 1;
    let pad2_c = c.len() == 1;
    let pad3_b = b.len() <= 2;
    let pad3_c = c.len() <= 2;
    if b.len() >= 2 {
        let v = if b.len() == 2 { ((b[1] as int) % 16) * 4 } else { ((b[1] as int) % 16) * 4 + (b[2] as int) / 64 };
        lemma_symbol_value(v);
        assert(t[2] == b64_symbol(v));
    }
    if c.len() >= 2 {
        let v = if c.len() == 2 { ((c[1] as int) % 16) * 4 } else { ((c[1] as int) % 16) * 4 + (c[2] as int) / 64 };
        lemma_symbol_value(v);
        assert(t[2] == b64_symbol(v));
    }
    if b.len() >= 3 {
        lemma_symbol_value((b[2] as int) % 64);
        assert(t[3] == b64_symbol((b[2] as int) % 64));
    }
    if c.len() >= 3 {
        lemma_symbol_value((c[2] as int) % 64);
        assert(t[3] == b64_symbol((c[2] as int) % 64));
    }
    assert(pad2_b == pad2_c);
    assert(pad3_b == pad3_c);
    let b0 = b[0];
    let c0 = c[0];
    let u = base64_standard(c);
    assert(t[0] == b64_symbol((b0 as int) / 4));
    assert(u[0] == b64_symbol((c0 as int) / 4));
    lemma_symbol_injective((b0 as int) / 4, (c0 as int) / 4);
    if b.len() == 1 {
        assert(t[1] == b64_symbol(((b0 as int) % 4) * 16));
        assert(u[1] == b64_symbol(((c0 as int) % 4) * 16));
        lemma_symbol_injective(((b0 as int) % 4) * 16, ((c0 as int) % 4) * 16);
        assert(b0 == c0) by (bit_vector)
            requires
                b0 / 4 == c0 / 4,
                (b0 % 4) * 16 == (c0 % 4) * 16,
        ;
        assert(b =~= c);
    } else if b.len() == 2 {
        let b1 = b[1];
        let c1 = c[1];
        assert(t[1] == b64_symbol(((b0 as int) % 4) * 16 + (b1 as int) / 16));
        assert(u[1] == b64_symbol(((c0 as int) % 4) * 16 + (c1 as int) / 16));
        assert(t[2] == b64_symbol(((b1 as int) % 16) * 4));
        assert(u[2] == b64_symbol(((c1 as int) % 16) * 4));
        lemma_symbol_injective(
            ((b0 as int) % 4) * 16 + (b1 as int) / 16,
            ((c0 as int) % 4) * 16 + (c1 as int) / 16,
        );
        lemma_symbol_injective(((b1 as int) % 16) * 4, ((c1 as int) % 16) * 4);
        assert(b0 == c0 && b1 == c1) by (bit_vector)
            requires
                b0 / 4 == c0 / 4,
                (b0 % 4) * 16 + b1 / 16 == (c0 % 4) * 16 + c1 / 16,
                (b1 % 16) * 4 == (c1 % 16) * 4,
        ;
        assert(b =~= c);
    } else {
        let b1 = b[1];
        let c1 = c[1];
        let b2 = b[2];
        let c2 = c[2];
        assert(t[1] == b64_symbol(((b0 as int) % 4) * 16 + (b1 as int) / 16));
        assert(u[1] == b64_symbol(((c0 as int) % 4) * 16 + (c1 as int) / 16));
        assert(t[2] == b64_symbol(((b1 as int) % 16) * 4 + (b2 as int) / 64));
        assert(u[2] == b64_symbol(((c1 as int) % 16) * 4 + (c2 as int) / 64));
        assert(t[3] == b64_symbol((b2 as int) % 64));
        assert(u[3] == b64_symbol((c2 as int) % 64));
        lemma_symbol_injective(
            ((b0 as int) % 4) * 16 + (b1 as int) / 16,
            ((c0 as int) % 4) * 16 + (c1 as int) / 16,
        );
        lemma_symbol_injective(
            ((b1 as int) % 16) * 4 + (b2 as int) / 64,
            ((c1 as int) % 16) * 4 + (c2 as int) / 64,
        );
        lemma_symbol_injective((b2 as int) % 64, (c2 as int) % 64);
        lemma_bytes_from_groups(b0, b1, b2, c0, c1, c2);
        let rb = b.subrange(3, b.len() as int);
        let rc = c.subrange(3, c.len() as int);
        let hb = seq![
            b64_symbol((b[0] as int) / 4),
            b64_symbol(((b[0] as int) % 4) * 16 + (b[1] as int) / 16),
            b64_symbol(((b[1] as int) % 16) * 4 + (b[2] as int) / 64),
            b64_symbol((b[2] as int) % 64),
        ];
        assert(t == hb + base64_standard(rb));
        assert(base64_standard(c) == hb + base64_standard(rc));
        assert(base64_standard(rb) =~= t.subrange(4, t.len() as int));
        assert(base64_standard(rc) =~= t.subrange(4, t.len() as int));
        lemma_base64_injective(rb, rc);
        assert(b =~= seq![b0, b1, b2] + rb);
        assert(c =~= seq![c0, c1, c2] + rc);
    }
}

/// `base64::engine::general_purpose::STANDARD.encode`: the padded standard
/// base64 text of the bytes. The engine panics when the text length does
/// not fit a `usize`; such inputs are excluded.
#[verifier::external_body]
pub(crate) fn base64_encode(data: &[u8]) -> (r: String)
    requires
        data@.len() <= usize::MAX / 2,
    ensures
        r@ == base64_standard(data@),
{
    base64::engine::general_purpose::STANDARD.encode(data)
}

/// `<[u8]>::len`. A slice never spans more than `isize::MAX` bytes (the
/// language's limit on the size of any object).
#[verifier::external_body]
pub(crate) fn byte_len(data: &[u8]) -> (n: usize)
    ensures
        n == data@.len(),
        n <= isize::MAX,
{
    data.len()
}

/// Padded standard base64 text of any byte slice.
pub fn encode_base64(data: &[u8]) -> (r: String)
    ensures
        r@ == base64_standard(data@),
{
    let n = byte_len(data);
    assert(n <= usize::MAX / 2);
    base64_encode(data)
}

/// The bytes whose padded standard base64 text is `text`, if there are
/// any; there is at most one such sequence (`lemma_base64_injective`).
pub open spec fn base64_decoding(text: Seq<char>) -> Option<Seq<u8>> {
    if exists|b: Seq<u8>| #[trigger] base64_standard(b) == text {
        Some(choose|b: Seq<u8>| #[trigger] base64_standard(b) == text)
    } else {
        None
    }
}

/// `base64::engine::general_purpose::STANDARD.decode`. The engine requires
/// canonical padding and no trailing bits, so it accepts exactly the padded
/// standard base64 texts of byte sequences, and gives those bytes back. On
/// failure the error's text is returned.
#[verifier::external_body]
fn base64_decode_raw(text: &str) -> (r: Result<Vec<u8>, String>)
    ensures
        match r {
            Ok(v) => base64_standard(v@) == text@,
            Err(_) => forall|b: Seq<u8>| #[trigger] base64_standard(b) != text@,
        },
{
    match base64::engine::general_purpose::STANDARD.decode(text) {
        Ok(v) => Ok(v),
        Err(e) => Err(format!("{}", e)),
    }
}

/// The bytes that a padded standard base64 text stands for; an error (with
/// the decoder's message) for any other text.
pub fn base64_decode(text: &str) -> (r: Result<Vec<u8>, String>)
    ensures
        match base64_decoding(text@) {
            Some(b) => r matches Ok(v) && v@ == b,
            None => r is Err,
        },
        match r {
            Ok(v) => base64_standard(v@) == text@,
            Err(_) => forall|b: Seq<u8>| #[trigger] base64_standard(b) != text@,
        },
{
    let r = base64_decode_raw(text);
    proof {
        if r is Ok {
            let v = r->Ok_0;
            let c = choose|b: Seq<u8>| #[trigger] base64_standard(b) == text@;
            assert(base64_standard(v@) == text@);
            lemma_base64_injective(v@, c);
        }
    }
    r
}

/// Decoding the base64 text of any bytes gives those bytes back.
pub proof fn lemma_base64_roundtrip(b: Seq<u8>)
    ensures
        base64_decoding(base64_standard(b)) == Some(b),
{
    let t = base64_standard(b);
    assert(base64_standard(b) == t);
    let c = choose|x: Seq<u8>| #[trigger] base64_standard(x) == t;
    lemma_base64_injective(b, c);
}

} // verus!
