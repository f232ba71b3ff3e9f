//! Decimal identifiers: element ids given as text and AT-SPI object paths.

use vstd::prelude::*;
use vstd::string::StringSliceAdditionalSpecFns;

verus! {

/// Whether every byte is an ASCII decimal digit.
pub open spec fn all_digits(d: Seq<u8>) -> bool {
    forall|i: int| 0 <= i < d.len() ==> 48 <= #[trigger] d[i] <= 57
}

/// Value of a sequence of decimal digit bytes.
pub open spec fn decimal_value(d: Seq<u8>) -> int
    decreases d.len(),
{
    if d.len() == 0 {
        0
    } else {
        decimal_value(d.drop_last()) * 10 + (d.last() - 48)
    }
}

/// What `str::parse::<u64>` gives for text with UTF-8 bytes `b`: an
/// optional '+' then at least one decimal digit, of value at most
/// `u64::MAX`.
pub open spec fn spec_parse_u64(b: Seq<u8>) -> Option<u64> {
    if b.len() == 0 || (b.len() == 1 && b[0] == 43) {
        None
    } else {
        let d = if b[0] == 43 {
            b.drop_first()
        } else {
            b
        };
        if all_digits(d) && decimal_value(d) <= u64::MAX {
            Some(decimal_value(d) as u64)
        } else {
            None
        }
    }
}

proof fn lemma_value_grows(d: Seq<u8>, i: int, j: int)
    requires
        0 <= i <= j <= d.len(),
        all_digits(d),
    ensures
        decimal_value(d.take(i)) <= decimal_value(d.take(j)),
        decimal_value(d.take(j)) >= 0,
    decreases j,
{
    if j > 0 {
        assert(d.take(j).drop_last() =~= d.take(j - 1));
        if i < j {
            lemma_value_grows(d, i, j - 1);
        } else {
            lemma_value_grows(d, j - 1, j - 1);
        }
    }
}

/// Parses the bytes of `b` from `start` on as `str::parse::<u64>` would.
pub fn parse_u64_from(b: &[u8], start: usize) -> (r: Option<u64>)
    requires
        start <= b@.len(),
    ensures
        r == spec_parse_u64(b@.subrange(start as int, b@.len() as int)),
{
    let ghost t = b@.subrange(start as int, b@.len() as int);
    let n = b.len();
    if start == n || (n - start == 1 && b[start] == 43) {
        return None;
    }
    let first = if b[start] == 43 {
        start + 1
    } else {
        start
    };
    let ghost d = b@.subrange(first as int, n as int);
    assert(d =~= (if t[0] == 43 {
        t.drop_first()
    } else {
        t
    }));
    assert(spec_parse_u64(t) == (if all_digits(d) && decimal_value(d) <= u64::MAX {
        Some(decimal_value(d) as u64)
    } else {
        None
    }));
    let mut acc: u64 = 0;
    let mut i: usize = first;
    assert(d.take(0) =~= Seq::<u8>::empty());
    while i < n
        invariant
            first <= i <= n,
            t == b@.subrange(start as int, b@.len() as int),
            spec_parse_u64(t) == (if all_digits(d) && decimal_value(d) <= u64::MAX {
                Some(decimal_value(d) as u64)
            } else {
                None
            }),
            n == b@.len(),
            d == b@.subrange(first as int, n as int),
            all_digits(d.take(i - first)),
            acc == decimal_value(d.take(i - first)),
        decreases n - i,
    {
        let c = b[i];
        assert(d[i - first] == c);
        if c < 48 || c > 57 {
            assert(!all_digits(d));
            return None;
        }
        let ghost k = (i - first) as int;
        assert(d.take(k + 1).drop_last() =~= d.take(k));
        assert(all_digits(d.take(k + 1)));
        match acc.checked_mul(10) {
            Some(m) => match m.checked_add((c - 48) as u64) {
                Some(v) => {
                    acc = v;
                },
                None => {
                    proof {
                        if all_digits(d) {
                            assert(d.take(k + 1) =~= d.take(k + 1));
                            lemma_value_grows(d, k + 1, d.len() as int);
                            assert(d.take(d.len() as int) =~= d);
                        }
                    }
                    return None;
                },
            },
            None => {
                proof {
                    if all_digits(d) {
                        lemma_value_grows(d, k + 1, d.len() as int);
                        assert(d.take(d.len() as int) =~= d);
                    }
                }
                return None;
            },
        }
        i += 1;
    }
    assert(d.take(n - first) =~= d);
    Some(acc)
}

/// Parses text as `str::parse::<u64>` would.
pub fn parse_u64(s: &str) -> (r: Option<u64>)
    ensures
        r == spec_parse_u64(s.spec_bytes()),
{
    let b = s.as_bytes();
    assert(b@.subrange(0, b@.len() as int) =~= b@);
    parse_u64_from(b, 0)
}

/// The bytes after the last '/' (all of them when there is none).
pub open spec fn last_segment(b: Seq<u8>) -> Seq<u8>
    decreases b.len(),
{
    if b.len() == 0 {
        b
    } else if b.last() == 47 {
        Seq::empty()
    } else {
        last_segment(b.drop_last()).push(b.last())
    }
}

/// The node id that ends an AT-SPI object path such as
/// "/org/a11y/atspi/accessible/0/4467407273966801439": the text after the
/// last '/', read as a decimal `u64`.
pub fn extract_atspi_node_id(path: &str) -> (r: Option<u64>)
    ensures
        r == spec_parse_u64(last_segment(path.spec_bytes())),
{
    let b = path.as_bytes();
    let mut i: usize = b.len();
    assert(b@.take(i as int) =~= b@);
    assert(b@.subrange(i as int, b@.len() as int) =~= Seq::<u8>::empty());
    while i > 0 && b[i - 1] != 47
        invariant
            i <= b@.len(),
            last_segment(b@) == last_segment(b@.take(i as int)) + b@.subrange(
                i as int,
                b@.len() as int,
            ),
        decreases i,
    {
        let ghost p = b@.take(i as int);
        assert(p.drop_last() =~= b@.take(i - 1));
        assert(b@.subrange(i - 1, b@.len() as int) =~= seq![p.last()] + b@.subrange(
            i as int,
            b@.len() as int,
        ));
        assert(last_segment(p) == last_segment(p.drop_last()).push(p.last()));
        assert(last_segment(p.drop_last()).push(p.last()) + b@.subrange(i as int, b@.len() as int)
            =~= last_segment(p.drop_last()) + b@.subrange(i - 1, b@.len() as int));
        i -= 1;
    }
    proof {
        let p = b@.take(i as int);
        if i == 0 {
            assert(p.len() == 0);
        } else {
            assert(p.last() == 47);
        }
        assert(last_segment(p) =~= Seq::<u8>::empty());
        assert(last_segment(b@) =~= b@.subrange(i as int, b@.len() as int));
    }
    parse_u64_from(b, i)
}


/// Decimal digit character for a value below 10.
pub open spec fn digit_char(d: nat) -> char {
    (48 + d) as char
}

/// Decimal text of a number, without leading zeros.
pub open spec fn decimal_text(n: nat) -> Seq<char>
    decreases n,
{
    if n < 10 {
        seq![digit_char(n)]
    } else {
        decimal_text(n / 10).push(digit_char(n % 10))
    }
}

/// The bytes of the decimal text of a number.
pub open spec fn decimal_bytes(n: nat) -> Seq<u8> {
    decimal_text(n).map_values(|c: char| c as u8)
}

proof fn lemma_decimal_bytes(n: nat)
    ensures
        decimal_bytes(n).len() >= 1,
        all_digits(decimal_bytes(n)),
        decimal_value(decimal_bytes(n)) == n,
        decimal_text(n).len() == decimal_bytes(n).len(),
        forall|i: int| 0 <= i < decimal_text(n).len() ==> '0' <= #[trigger] decimal_text(n)[i] <= '9',
    decreases n,
{
    if n < 10 {
        assert(decimal_bytes(n).drop_last() =~= Seq::<u8>::empty());
        assert(decimal_text(n)[0] == digit_char(n));
        assert(digit_char(n) as u32 == 48 + n);
        assert(decimal_bytes(n)[0] == digit_char(n) as u8);
        assert(digit_char(n) as u8 == 48 + n);
        assert(decimal_bytes(n).last() == 48 + n);
        let b = decimal_bytes(n);
        assert(decimal_value(b.drop_last()) == 0);
        assert(decimal_value(b) == decimal_value(b.drop_last()) * 10 + (b.last() - 48));
    } else {
        lemma_decimal_bytes(n / 10);
        assert(digit_char((n % 10) as nat) as u32 == 48 + n % 10);
        assert(digit_char((n % 10) as nat) as u8 == 48 + n % 10);
        let d = (n % 10) as nat;
        let t = decimal_text(n / 10);
        assert(decimal_text(n) == t.push(digit_char(d)));
        assert forall|i: int| 0 <= i < decimal_text(n).len() implies '0' <= #[trigger] decimal_text(
            n,
        )[i] <= '9' by {
            if i < t.len() {
                assert(decimal_text(n)[i] == t[i]);
            }
        }
        assert(decimal_bytes(n) =~= decimal_bytes(n / 10).push(((48 + d) as char) as u8));
        assert(decimal_bytes(n).drop_last() =~= decimal_bytes(n / 10));
        assert((n / 10) * 10 + d == n) by (nonlinear_arith)
            requires
                d == n % 10,
        ;
        let b = decimal_bytes(n);
        assert(b.last() == 48 + d);
        assert(decimal_value(b) == decimal_value(b.drop_last()) * 10 + (b.last() - 48));
        assert(decimal_value(b) == (n / 10) * 10 + d);
    }
}

/// Reading back the decimal text of any `u64` as an element id gives the
/// number back.
pub proof fn lemma_decimal_roundtrip(n: u64, s: &str)
    requires
        s@ == decimal_text(n as nat),
    ensures
        spec_parse_u64(s.spec_bytes()) == Some(n),
{
    lemma_decimal_bytes(n as nat);
    assert(vstd::utf8::is_ascii_chars(s@));
    assert(vstd::string::is_ascii(s));
    vstd::string::is_ascii_spec_bytes(s);
    assert(s.spec_bytes() =~= decimal_bytes(n as nat));
}

fn digit_str(d: u64) -> (s: &'static str)
    requires
        d < 10,
    ensures
        s@ == seq![digit_char(d as nat)],
{
    match d {
        0 => {
            proof {
                reveal_strlit("0");
            }
            "0"
        },
        1 => {
            proof {
                reveal_strlit("1");
            }
            "1"
        },
        2 => {
            proof {
                reveal_strlit("2");
            }
            "2"
        },
        3 => {
            proof {
                reveal_strlit("3");
            }
            "3"
        },
        4 => {
            proof {
                reveal_strlit("4");
            }
            "4"
        },
        5 => {
            proof {
                reveal_strlit("5");
            }
            "5"
        },
        6 => {
            proof {
                reveal_strlit("6");
            }
            "6"
        },
        7 => {
            proof {
                reveal_strlit("7");
            }
            "7"
        },
        8 => {
            proof {
                reveal_strlit("8");
            }
            "8"
        },
        _ => {
            proof {
                reveal_strlit("9");
            }
            "9"
        },
    }
}

/// Appends the decimal text of `n` to `out` (as `{}` formatting does).
pub fn push_decimal(out: &mut String, n: u64)
    ensures
        final(out)@ == old(out)@ + decimal_text(n as nat),
    decreases n,
{
    if n < 10 {
        out.append(digit_str(n));
    } else {
        push_decimal(out, n / 10);
        out.append(digit_str(n % 10));
        assert(decimal_text(n as nat) == decimal_text((n / 10) as nat).push(digit_char((n % 10) as nat)));
        assert(old(out)@ + decimal_text((n / 10) as nat) + seq![digit_char((n % 10) as nat)] =~= old(out)@ + decimal_text(n as nat));
    }
}

} // verus!
