use vstd::prelude::*;
use vstd::string::*;

verus! {

/// Why a configuration token was refused.
#[derive(Clone, Copy, PartialEq, Eq, Debug, Structural)]
pub enum ParseError {
    InvalidDirection,
    InvalidSortBy,
    InvalidFilterType,
    InvalidFilterParam,
    InvalidThreshold,
}

/// `c` equals the lower-case letter or symbol `k`, up to ASCII case.
pub open spec fn same_letter(c: char, k: char) -> bool {
    c == k || (65 <= c as u32 <= 90 && c as u32 + 32 == k as u32)
}

/// `s` spells the lower-case keyword `kw`, in any mix of ASCII case.
pub open spec fn spells(s: Seq<char>, kw: Seq<char>) -> bool {
    &&& s.len() == kw.len()
    &&& forall|i: int| 0 <= i < s.len() ==> #[trigger] same_letter(s[i], kw[i])
}

/// Whether `s` spells the lower-case keyword `kw`, ignoring ASCII case.
pub fn spells_keyword(s: &str, kw: &str) -> (r: bool)
    ensures
        r == spells(s@, kw@),
{
    let n = s.unicode_len();
    if n != kw.unicode_len() {
        return false;
    }
    let mut i: usize = 0;
    while i < n
        invariant
            n == s@.len(),
            n == kw@.len(),
            i <= n,
            forall|j: int| 0 <= j < i ==> #[trigger] same_letter(s@[j], kw@[j]),
        decreases n - i,
    {
        let c = s.get_char(i);
        let k = kw.get_char(i);
        if !(c == k || (65 <= c as u32 && c as u32 <= 90 && c as u32 + 32 == k as u32)) {
            proof {
                assert(!same_letter(s@[i as int], kw@[i as int]));
            }
            return false;
        }
        i = i + 1;
    }
    true
}

pub open spec fn is_digit(c: char) -> bool {
    48 <= c as u32 <= 57
}

/// The number that a string of decimal digits spells.
pub open spec fn digits_value(s: Seq<char>) -> int
    decreases s.len(),
{
    if s.len() == 0 {
        0
    } else {
        10 * digits_value(s.drop_last()) + (s.last() as u32 - 48)
    }
}

/// The digits after an optional leading `+` or `-`.
pub open spec fn unsigned_part(s: Seq<char>) -> Seq<char> {
    if s.len() > 0 && (s[0] == '-' || s[0] == '+') {
        s.drop_first()
    } else {
        s
    }
}

/// The value of a decimal integer token: an optional sign and at least one
/// digit, within the range of `i32`.
pub open spec fn integer_of(s: Seq<char>) -> Option<i32> {
    let u = unsigned_part(s);
    let v = if s.len() > 0 && s[0] == '-' {
        -digits_value(u)
    } else {
        digits_value(u)
    };
    if u.len() > 0 && (forall|i: int| 0 <= i < u.len() ==> #[trigger] is_digit(u[i])) && i32::MIN
        <= v <= i32::MAX {
        Some(v as i32)
    } else {
        None
    }
}

const SATURATED: u64 = 2147483649;

/// Parses a decimal integer token such as `-12` or `+7`.
pub fn parse_integer(s: &str) -> (r: Option<i32>)
    ensures
        r == integer_of(s@),
{
    let n = s.unicode_len();
    let negative = n > 0 && s.get_char(0) == '-';
    let start: usize = if n > 0 && (s.get_char(0) == '-' || s.get_char(0) == '+') {
        1
    } else {
        0
    };
    let ghost u = unsigned_part(s@);
    assert(u =~= s@.subrange(start as int, n as int));
    if start == n {
        return None;
    }
    let mut acc: u64 = 0;
    let mut i: usize = start;
    while i < n
        invariant
            n == s@.len(),
            start <= i <= n,
            u == unsigned_part(s@),
            u == s@.subrange(start as int, n as int),
            start < n,
            acc == if digits_value(u.subrange(0, i - start)) < SATURATED {
                digits_value(u.subrange(0, i - start))
            } else {
                SATURATED as int
            },
            forall|j: int| 0 <= j < i - start ==> #[trigger] is_digit(u[j]),
        decreases n - i,
    {
        let c = s.get_char(i);
        if !(48 <= c as u32 && c as u32 <= 57) {
            proof {
                assert(!is_digit(u[i - start]));
            }
            return None;
        }
        proof {
            let p = u.subrange(0, i - start);
            let q = u.subrange(0, i + 1 - start);
            assert(q.drop_last() =~= p);
            assert(q.last() == c);
        }
        let d = (c as u32 - 48) as u64;
        acc = if acc * 10 + d < SATURATED {
            acc * 10 + d
        } else {
            SATURATED
        };
        i = i + 1;
    }
    assert(u.subrange(0, n - start) =~= u);
    if negative {
        if acc <= 2147483648 {
            Some((0 - (acc as i64)) as i32)
        } else {
            None
        }
    } else {
        if acc <= 2147483647 {
            Some(acc as i32)
        } else {
            None
        }
    }
}

pub open spec fn is_hex_digit(c: char) -> bool {
    48 <= c as u32 <= 57 || 97 <= c as u32 <= 102 || 65 <= c as u32 <= 70
}

pub open spec fn hex_value(c: char) -> int {
    if 48 <= c as u32 <= 57 {
        c as u32 - 48
    } else if 97 <= c as u32 <= 102 {
        c as u32 - 87
    } else {
        c as u32 - 55
    }
}

/// The three bytes that six hex digits spell, two digits each.
pub open spec fn hex_bytes(t: Seq<char>) -> Option<(u8, u8, u8)> {
    if t.len() == 6 && forall|i: int| 0 <= i < 6 ==> #[trigger] is_hex_digit(t[i]) {
        Some(
            (
                (16 * hex_value(t[0]) + hex_value(t[1])) as u8,
                (16 * hex_value(t[2]) + hex_value(t[3])) as u8,
                (16 * hex_value(t[4]) + hex_value(t[5])) as u8,
            ),
        )
    } else {
        None
    }
}

/// The color that `#rrggbb` or `rrggbb` spells, in either case of hex digit.
pub open spec fn hex_color(s: Seq<char>) -> Option<(u8, u8, u8)> {
    if s.len() == 7 && s[0] == '#' {
        hex_bytes(s.subrange(1, 7))
    } else if s.len() == 6 {
        hex_bytes(s)
    } else {
        None
    }
}

fn hex_digit(c: char) -> (r: Option<u8>)
    ensures
        r is Some <==> is_hex_digit(c),
        r matches Some(v) ==> v == hex_value(c),
{
    let v = c as u32;
    if 48 <= v && v <= 57 {
        Some((v - 48) as u8)
    } else if 97 <= v && v <= 102 {
        Some((v - 87) as u8)
    } else if 65 <= v && v <= 70 {
        Some((v - 55) as u8)
    } else {
        None
    }
}

fn hex_byte(s: &str, i: usize) -> (r: Option<u8>)
    requires
        i + 1 < s@.len() <= usize::MAX,
    ensures
        r is Some <==> is_hex_digit(s@[i as int]) && is_hex_digit(s@[i + 1]),
        r matches Some(v) ==> v == 16 * hex_value(s@[i as int]) + hex_value(s@[i + 1]),
{
    let hi = hex_digit(s.get_char(i));
    let lo = hex_digit(s.get_char(i + 1));
    match (hi, lo) {
        (Some(h), Some(l)) => Some(16 * h + l),
        _ => None,
    }
}

/// Decodes `#rrggbb` or `rrggbb` into its three bytes; `None` when the text
/// is anything else.
pub fn hex_to_rgb(hex: &str) -> (r: Option<(u8, u8, u8)>)
    ensures
        r == hex_color(hex@),
{
    let n = hex.unicode_len();
    let start: usize = if n == 7 && hex.get_char(0) == '#' {
        1
    } else if n == 6 {
        0
    } else {
        return None;
    };
    let ghost t = hex@.subrange(start as int, n as int);
    let r = hex_byte(hex, start);
    let g = hex_byte(hex, start + 2);
    let b = hex_byte(hex, start + 4);
    proof {
        assert(t.len() == 6);
        assert forall|i: int| 0 <= i < 6 implies t[i] == hex@[start + i] by {}
        if start == 0 {
            assert(t =~= hex@);
        }
    }
    match (r, g, b) {
        (Some(r), Some(g), Some(b)) => {
            proof {
                assert forall|i: int| 0 <= i < 6 implies #[trigger] is_hex_digit(t[i]) by {
                    assert(t[i] == hex@[start + i]);
                }
            }
            Some((r, g, b))
        },
        _ => {
            proof {
                assert(!is_hex_digit(t[0]) || !is_hex_digit(t[1]) || !is_hex_digit(t[2])
                    || !is_hex_digit(t[3]) || !is_hex_digit(t[4]) || !is_hex_digit(t[5]));
            }
            None
        },
    }
}

} // verus!
