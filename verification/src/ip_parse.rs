//! Textual IPv4 and IPv6 address literals.
//!
//! The grammar is the usual one: an IPv4 literal is four decimal octets
//! separated by dots, each at most 255, with no extra leading zero; an IPv6
//! literal is colon-separated groups of at most four hex digits, at most
//! one `::` compression standing for the missing zero groups, and an
//! optional embedded IPv4 literal in place of the last two groups.
//!
//! The specification is built from `split_char`, which cuts a sequence at a
//! separator, and value functions over the pieces; the executable parsers
//! return exactly what the specification says.

use vstd::prelude::*;

verus! {

/// Decimal digit, `'0'` to `'9'`.
pub open spec fn is_dec_digit(c: char) -> bool {
    48 <= c as u32 <= 57
}

/// The value of a decimal digit.
pub open spec fn dec_digit_val(c: char) -> int {
    c as u32 - 48
}

/// Hexadecimal digit, either case.
pub open spec fn is_hex_digit(c: char) -> bool {
    ||| 48 <= c as u32 <= 57
    ||| 97 <= c as u32 <= 102
    ||| 65 <= c as u32 <= 70
}

/// The value of a hexadecimal digit.
pub open spec fn hex_digit_val(c: char) -> int {
    if 48 <= c as u32 <= 57 {
        c as u32 - 48
    } else if 97 <= c as u32 <= 102 {
        c as u32 - 87
    } else {
        c as u32 - 55
    }
}

pub open spec fn all_dec_digits(s: Seq<char>) -> bool {
    forall|i: int| 0 <= i < s.len() ==> is_dec_digit(#[trigger] s[i])
}

pub open spec fn all_hex_digits(s: Seq<char>) -> bool {
    forall|i: int| 0 <= i < s.len() ==> is_hex_digit(#[trigger] s[i])
}

/// The value of a string of decimal digits, most significant first.
pub open spec fn dec_value(s: Seq<char>) -> int
    decreases s.len(),
{
    if s.len() == 0 {
        0
    } else {
        dec_value(s.drop_last()) * 10 + dec_digit_val(s.last())
    }
}

/// The value of a string of hexadecimal digits, most significant first.
pub open spec fn hex_value(s: Seq<char>) -> int
    decreases s.len(),
{
    if s.len() == 0 {
        0
    } else {
        hex_value(s.drop_last()) * 16 + hex_digit_val(s.last())
    }
}

/// Cut `s` at every occurrence of `sep`. The result always has one more
/// piece than `s` has separators; pieces may be empty.
pub open spec fn split_char(s: Seq<char>, sep: char) -> Seq<Seq<char>>
    decreases s.len(),
{
    if s.len() == 0 {
        seq![Seq::<char>::empty()]
    } else if s[0] == sep {
        seq![Seq::<char>::empty()] + split_char(s.subrange(1, s.len() as int), sep)
    } else {
        let rest = split_char(s.subrange(1, s.len() as int), sep);
        seq![seq![s[0]] + rest[0]] + rest.subrange(1, rest.len() as int)
    }
}

pub proof fn lemma_split_char_len(s: Seq<char>, sep: char)
    ensures
        split_char(s, sep).len() >= 1,
    decreases s.len(),
{
    if s.len() != 0 && s[0] != sep {
        lemma_split_char_len(s.subrange(1, s.len() as int), sep);
    }
}

/// A sequence with no separator splits into itself alone.
pub proof fn lemma_split_char_whole(s: Seq<char>, sep: char)
    requires
        forall|i: int| 0 <= i < s.len() ==> s[i] != sep,
    ensures
        split_char(s, sep) == seq![s],
    decreases s.len(),
{
    if s.len() == 0 {
        assert(split_char(s, sep) =~~= seq![s]);
    } else {
        let tail = s.subrange(1, s.len() as int);
        lemma_split_char_whole(tail, sep);
        lemma_split_char_len(tail, sep);
        assert(seq![s[0]] + tail =~= s);
        assert(split_char(s, sep) =~~= seq![s]);
    }
}

/// Splitting at the first separator: the piece before it, then the split of
/// what follows it.
pub proof fn lemma_split_char_first(s: Seq<char>, sep: char, i: int)
    requires
        0 <= i < s.len(),
        s[i] == sep,
        forall|j: int| 0 <= j < i ==> s[j] != sep,
    ensures
        split_char(s, sep) == seq![s.subrange(0, i)] + split_char(
            s.subrange(i + 1, s.len() as int),
            sep,
        ),
    decreases i,
{
    if i == 0 {
        assert(s.subrange(0, 0) =~= Seq::<char>::empty());
        assert(split_char(s, sep) =~~= seq![s.subrange(0, 0)] + split_char(
            s.subrange(1, s.len() as int),
            sep,
        ));
    } else {
        let tail = s.subrange(1, s.len() as int);
        lemma_split_char_first(tail, sep, i - 1);
        lemma_split_char_len(tail.subrange(i, tail.len() as int), sep);
        assert(tail.subrange(0, i - 1) =~= s.subrange(1, i));
        assert(tail.subrange(i, tail.len() as int) =~= s.subrange(i + 1, s.len() as int));
        assert(seq![s[0]] + s.subrange(1, i) =~= s.subrange(0, i));
        assert(split_char(s, sep) =~~= seq![s.subrange(0, i)] + split_char(
            s.subrange(i + 1, s.len() as int),
            sep,
        ));
    }
}

/// A decimal octet of an IPv4 literal: one to three digits, no extra
/// leading zero, value at most 255.
pub open spec fn octet_ok(s: Seq<char>) -> bool {
    &&& 1 <= s.len() <= 3
    &&& all_dec_digits(s)
    &&& (s.len() > 1 ==> s[0] != '0')
    &&& dec_value(s) <= 255
}

/// What an IPv4 literal denotes: four octets, dot-separated.
pub open spec fn spec_parse_ipv4(s: Seq<char>) -> Option<u32> {
    let parts = split_char(s, '.');
    if parts.len() == 4 && octet_ok(parts[0]) && octet_ok(parts[1]) && octet_ok(parts[2])
        && octet_ok(parts[3]) {
        Some(
            (dec_value(parts[0]) * 0x1000000 + dec_value(parts[1]) * 0x10000 + dec_value(parts[2])
                * 0x100 + dec_value(parts[3])) as u32,
        )
    } else {
        None
    }
}

/// The characters of `s`, as a vector.
pub fn chars_of(s: &str) -> (v: Vec<char>)
    ensures
        v@ == s@,
{
    let n = s.unicode_len();
    let mut v: Vec<char> = Vec::new();
    let mut i: usize = 0;
    while i < n
        invariant
            i <= n,
            n == s@.len(),
            v@ == s@.take(i as int),
        decreases n - i,
    {
        let c = s.get_char(i);
        v.push(c);
        proof {
            assert(s@.take(i + 1) =~= s@.take(i as int).push(s@[i as int]));
        }
        i = i + 1;
    }
    proof {
        assert(s@.take(n as int) =~= s@);
    }
    v
}

/// The value of a decimal digit character, or nothing.
fn dec_digit_of(c: char) -> (r: Option<u32>)
    ensures
        match r {
            Some(x) => is_dec_digit(c) && x == dec_digit_val(c) && x <= 9,
            None => !is_dec_digit(c),
        },
{
    let u = c as u32;
    if 48 <= u && u <= 57 {
        Some(u - 48)
    } else {
        None
    }
}

/// The first position of `sep` in `v[lo..hi]`, if any.
fn find_char_in(v: &Vec<char>, lo: usize, hi: usize, sep: char) -> (r: Option<usize>)
    requires
        lo <= hi <= v@.len(),
    ensures
        match r {
            Some(i) => {
                &&& lo <= i < hi
                &&& v@[i as int] == sep
                &&& forall|j: int| lo <= j < i ==> v@[j] != sep
            },
            None => forall|j: int| lo <= j < hi ==> v@[j] != sep,
        },
{
    let mut i = lo;
    while i < hi
        invariant
            lo <= i <= hi <= v@.len(),
            forall|j: int| lo <= j < i ==> v@[j] != sep,
        decreases hi - i,
    {
        if v[i] == sep {
            return Some(i);
        }
        i = i + 1;
    }
    None
}

/// Parse `v[lo..hi]` as one decimal octet.
fn parse_octet(v: &Vec<char>, lo: usize, hi: usize) -> (r: Option<u32>)
    requires
        lo <= hi <= v@.len(),
    ensures
        match r {
            Some(x) => octet_ok(v@.subrange(lo as int, hi as int)) && x == dec_value(
                v@.subrange(lo as int, hi as int),
            ),
            None => !octet_ok(v@.subrange(lo as int, hi as int)),
        },
{
    let ghost sub = v@.subrange(lo as int, hi as int);
    let len = hi - lo;
    if len < 1 || len > 3 {
        return None;
    }
    if len > 1 && v[lo] == '0' {
        return None;
    }
    let mut value: u32 = 0;
    let mut i: usize = 0;
    while i < len
        invariant
            i <= len,
            1 <= len <= 3,
            len == hi - lo,
            lo <= hi <= v@.len(),
            sub == v@.subrange(lo as int, hi as int),
            all_dec_digits(sub.take(i as int)),
            value == dec_value(sub.take(i as int)),
            value < 1000,
            i == 1 ==> value <= 9,
            i == 2 ==> value <= 99,
        decreases len - i,
    {
        match dec_digit_of(v[lo + i]) {
            Some(d) => {
                proof {
                    assert(sub.take(i + 1).drop_last() =~= sub.take(i as int));
                    assert(sub.take(i + 1).last() == sub[i as int]);
                }
                value = value * 10 + d;
            },
            None => {
                proof {
                    assert(sub[i as int] == v@[lo + i]);
                    assert(!all_dec_digits(sub));
                }
                return None;
            },
        }
        i = i + 1;
    }
    proof {
        assert(sub.take(len as int) =~= sub);
    }
    if value <= 255 {
        Some(value)
    } else {
        None
    }
}

/// Parse `v[lo..hi]` as an IPv4 literal.
#[verifier::rlimit(50)]
pub(crate) fn parse_ipv4_range(v: &Vec<char>, lo: usize, hi: usize) -> (r: Option<u32>)
    requires
        lo <= hi <= v@.len(),
    ensures
        r == spec_parse_ipv4(v@.subrange(lo as int, hi as int)),
{
    let ghost sub = v@.subrange(lo as int, hi as int);
    let ghost parts = split_char(sub, '.');
    let d1 = match find_char_in(v, lo, hi, '.') {
        Some(i) => i,
        None => {
            proof {
                lemma_split_char_whole(sub, '.');
            }
            return None;
        },
    };
    proof {
        lemma_split_char_first(sub, '.', d1 - lo);
        assert(sub.subrange(0, d1 - lo) =~= v@.subrange(lo as int, d1 as int));
        assert(sub.subrange(d1 - lo + 1, sub.len() as int) =~= v@.subrange(
            d1 + 1,
            hi as int,
        ));
    }
    let ghost sub1 = v@.subrange(d1 + 1, hi as int);
    let d2 = match find_char_in(v, d1 + 1, hi, '.') {
        Some(i) => i,
        None => {
            proof {
                lemma_split_char_whole(sub1, '.');
            }
            return None;
        },
    };
    proof {
        lemma_split_char_first(sub1, '.', d2 - (d1 + 1));
        assert(sub1.subrange(0, d2 - (d1 + 1)) =~= v@.subrange(d1 + 1, d2 as int));
        assert(sub1.subrange(d2 - (d1 + 1) + 1, sub1.len() as int) =~= v@.subrange(
            d2 + 1,
            hi as int,
        ));
    }
    let ghost sub2 = v@.subrange(d2 + 1, hi as int);
    let d3 = match find_char_in(v, d2 + 1, hi, '.') {
        Some(i) => i,
        None => {
            proof {
                lemma_split_char_whole(sub2, '.');
            }
            return None;
        },
    };
    proof {
        lemma_split_char_first(sub2, '.', d3 - (d2 + 1));
        assert(sub2.subrange(0, d3 - (d2 + 1)) =~= v@.subrange(d2 + 1, d3 as int));
        assert(sub2.subrange(d3 - (d2 + 1) + 1, sub2.len() as int) =~= v@.subrange(
            d3 + 1,
            hi as int,
        ));
    }
    let ghost sub3 = v@.subrange(d3 + 1, hi as int);
    match find_char_in(v, d3 + 1, hi, '.') {
        Some(i4) => {
            // a fifth piece: not an IPv4 literal
            proof {
                lemma_split_char_first(sub3, '.', i4 - (d3 + 1));
                lemma_split_char_len(sub3.subrange(i4 - (d3 + 1) + 1, sub3.len() as int), '.');
            }
            return None;
        },
        None => {
            proof {
                lemma_split_char_whole(sub3, '.');
            }
        },
    }
    let a = match parse_octet(v, lo, d1) {
        Some(x) => x,
        None => {
            return None;
        },
    };
    let b = match parse_octet(v, d1 + 1, d2) {
        Some(x) => x,
        None => {
            return None;
        },
    };
    let c = match parse_octet(v, d2 + 1, d3) {
        Some(x) => x,
        None => {
            return None;
        },
    };
    let d = match parse_octet(v, d3 + 1, hi) {
        Some(x) => x,
        None => {
            return None;
        },
    };
    Some(a * 0x1000000 + b * 0x10000 + c * 0x100 + d)
}

/// The canonical decimal text of an octet value: no extra leading zero.
pub open spec fn dec_repr(n: int) -> Seq<char> {
    if n < 10 {
        seq![dec_digit_char(n)]
    } else if n < 100 {
        seq![dec_digit_char(n / 10), dec_digit_char(n % 10)]
    } else {
        seq![dec_digit_char(n / 100), dec_digit_char((n / 10) % 10), dec_digit_char(n % 10)]
    }
}

/// The character of one decimal digit.
pub open spec fn dec_digit_char(d: int) -> char {
    ((48 + d) as u8) as char
}

/// The canonical dotted-quad text of an IPv4 address.
pub open spec fn ipv4_text(ip: u32) -> Seq<char> {
    dec_repr((ip >> 24) as int) + seq!['.'] + dec_repr(((ip >> 16) & 0xFF) as int) + seq!['.']
        + dec_repr(((ip >> 8) & 0xFF) as int) + seq!['.'] + dec_repr((ip & 0xFF) as int)
}

proof fn lemma_dec_repr_octet(n: int)
    requires
        0 <= n <= 255,
    ensures
        octet_ok(dec_repr(n)),
        dec_value(dec_repr(n)) == n,
        forall|i: int| 0 <= i < dec_repr(n).len() ==> dec_repr(n)[i] != '.',
        1 <= dec_repr(n).len() <= 3,
{
    broadcast use vstd::arithmetic::div_mod::lemma_fundamental_div_mod;

    reveal_with_fuel(dec_value, 4);
    let s = dec_repr(n);
    assert forall|d: int| 0 <= d <= 9 implies is_dec_digit(#[trigger] dec_digit_char(d))
        && dec_digit_val(dec_digit_char(d)) == d && dec_digit_char(d) != '.' && (d >= 1
        ==> dec_digit_char(d) != '0') by {
        assert(dec_digit_char(d) as u32 == 48 + d);
    }
    if n < 10 {
        assert(s.drop_last() =~= Seq::<char>::empty());
    } else if n < 100 {
        assert(s.drop_last() =~= seq![dec_digit_char(n / 10)]);
        assert(seq![dec_digit_char(n / 10)].drop_last() =~= Seq::<char>::empty());
        assert(n / 10 >= 1) by {
            assert(n / 10 >= 10int / 10);
        }
        assert(dec_value(s) == (n / 10) * 10 + n % 10);
    } else {
        let two = seq![dec_digit_char(n / 100), dec_digit_char((n / 10) % 10)];
        assert(s.drop_last() =~= two);
        assert(two.drop_last() =~= seq![dec_digit_char(n / 100)]);
        assert(seq![dec_digit_char(n / 100)].drop_last() =~= Seq::<char>::empty());
        assert(n / 100 >= 1 && n / 100 <= 9);
        assert((n / 10) / 10 == n / 100) by {
            vstd::arithmetic::div_mod::lemma_div_denominator(n, 10, 10);
        }
        assert(dec_value(s) == (n / 100) * 100 + ((n / 10) % 10) * 10 + n % 10);
        assert((n / 100) * 100 + ((n / 10) % 10) * 10 + n % 10 == n) by {
            assert(n == (n / 10) * 10 + n % 10);
            assert(n / 10 == ((n / 10) / 10) * 10 + (n / 10) % 10);
        }
    }
}

/// Round trip: the canonical text of any IPv4 address parses back to it.
/// With `try_parse`, every address is reachable as a literal host.
#[verifier::rlimit(100)]
#[verifier::spinoff_prover]
pub proof fn lemma_ipv4_text_roundtrip(ip: u32)
    ensures
        spec_parse_ipv4(ipv4_text(ip)) == Some(ip),
{
    let b0u = ip >> 24;
    let b1u = (ip >> 16) & 0xFF;
    let b2u = (ip >> 8) & 0xFF;
    let b3u = ip & 0xFF;
    assert(b0u <= 255 && b1u <= 255 && b2u <= 255 && b3u <= 255) by (bit_vector)
        requires
            b0u == ip >> 24,
            b1u == (ip >> 16) & 0xFF,
            b2u == (ip >> 8) & 0xFF,
            b3u == ip & 0xFF,
    ;
    let b0 = b0u as int;
    let b1 = b1u as int;
    let b2 = b2u as int;
    let b3 = b3u as int;
    lemma_dec_repr_octet(b0);
    lemma_dec_repr_octet(b1);
    lemma_dec_repr_octet(b2);
    lemma_dec_repr_octet(b3);
    let r0 = dec_repr(b0);
    let r1 = dec_repr(b1);
    let r2 = dec_repr(b2);
    let r3 = dec_repr(b3);
    let s = ipv4_text(ip);
    let n0 = r0.len() as int;
    let n1 = r1.len() as int;
    let n2 = r2.len() as int;

    let s1 = r1 + seq!['.'] + r2 + seq!['.'] + r3;
    let s2 = r2 + seq!['.'] + r3;
    lemma_split_char_first(s, '.', n0);
    assert(s.subrange(0, n0) =~= r0);
    assert(s.subrange(n0 + 1, s.len() as int) =~= s1);
    lemma_split_char_first(s1, '.', n1);
    assert(s1.subrange(0, n1) =~= r1);
    assert(s1.subrange(n1 + 1, s1.len() as int) =~= s2);
    lemma_split_char_first(s2, '.', n2);
    assert(s2.subrange(0, n2) =~= r2);
    assert(s2.subrange(n2 + 1, s2.len() as int) =~= r3);
    lemma_split_char_whole(r3, '.');
    assert(split_char(s, '.') =~~= seq![r0, r1, r2, r3]);

    assert(b0u * 0x1000000 + b1u * 0x10000 + b2u * 0x100 + b3u == ip) by (bit_vector)
        requires
            b0u == ip >> 24,
            b1u == (ip >> 16) & 0xFF,
            b2u == (ip >> 8) & 0xFF,
            b3u == ip & 0xFF,
    ;
}

/// Parse an IPv4 literal such as `203.0.113.9`.
pub fn parse_ipv4(s: &str) -> (r: Option<u32>)
    ensures
        r == spec_parse_ipv4(s@),
{
    let v = chars_of(s);
    let n = v.len();
    let r = parse_ipv4_range(&v, 0, n);
    proof {
        assert(v@.subrange(0, n as int) =~= s@);
    }
    r
}

/// A group of an IPv6 literal: one to four hex digits.
pub open spec fn hex_group_ok(s: Seq<char>) -> bool {
    &&& 1 <= s.len() <= 4
    &&& all_hex_digits(s)
}

/// The sixteen-bit groups denoted by colon-separated pieces. Every piece
/// but the last must be a hex group; the last may instead be an embedded
/// IPv4 literal, which counts as two groups, when `v4_tail` allows it.
pub open spec fn group_list(parts: Seq<Seq<char>>, v4_tail: bool) -> Option<Seq<u16>>
    decreases parts.len(),
{
    if parts.len() == 0 {
        Some(Seq::<u16>::empty())
    } else if parts.len() == 1 {
        if hex_group_ok(parts[0]) {
            Some(seq![hex_value(parts[0]) as u16])
        } else if v4_tail {
            match spec_parse_ipv4(parts[0]) {
                Some(ip) => Some(seq![(ip >> 16) as u16, (ip & 0xFFFF) as u16]),
                None => None,
            }
        } else {
            None
        }
    } else {
        if hex_group_ok(parts[0]) {
            match group_list(parts.drop_first(), v4_tail) {
                Some(gs) => Some(seq![hex_value(parts[0]) as u16] + gs),
                None => None,
            }
        } else {
            None
        }
    }
}

/// The first position where `::` starts in `s`, or `-1`.
pub open spec fn find_compression(s: Seq<char>) -> int
    decreases s.len(),
{
    if s.len() < 2 {
        -1
    } else if s[0] == ':' && s[1] == ':' {
        0
    } else {
        let r = find_compression(s.drop_first());
        if r < 0 {
            -1
        } else {
            r + 1
        }
    }
}

pub open spec fn zero_groups(n: nat) -> Seq<u16> {
    Seq::new(n, |i| 0u16)
}

/// The value of a list of sixteen-bit groups, most significant first.
pub open spec fn groups_value(gs: Seq<u16>) -> int
    decreases gs.len(),
{
    if gs.len() == 0 {
        0
    } else {
        groups_value(gs.drop_last()) * 0x10000 + gs.last()
    }
}

pub open spec fn pow16(n: nat) -> int
    decreases n,
{
    if n == 0 {
        1
    } else {
        0x10000 * pow16((n - 1) as nat)
    }
}

pub proof fn lemma_pow16_pos(n: nat)
    ensures
        pow16(n) >= 1,
    decreases n,
{
    if n > 0 {
        lemma_pow16_pos((n - 1) as nat);
    }
}

pub proof fn lemma_pow16_mono(a: nat, b: nat)
    requires
        a <= b,
    ensures
        pow16(a) <= pow16(b),
    decreases b,
{
    if a < b {
        lemma_pow16_mono(a, (b - 1) as nat);
        lemma_pow16_pos((b - 1) as nat);
    }
}

pub proof fn lemma_pow16_8()
    ensures
        pow16(8) == 0x1_0000_0000_0000_0000_0000_0000_0000_0000,
{
    assert(pow16(0) == 1);
    assert(pow16(1) == 0x1_0000);
    assert(pow16(2) == 0x1_0000_0000);
    assert(pow16(3) == 0x1_0000_0000_0000);
    assert(pow16(4) == 0x1_0000_0000_0000_0000);
    assert(pow16(5) == 0x1_0000_0000_0000_0000_0000);
    assert(pow16(6) == 0x1_0000_0000_0000_0000_0000_0000);
    assert(pow16(7) == 0x1_0000_0000_0000_0000_0000_0000_0000);
}

pub proof fn lemma_groups_value_bound(gs: Seq<u16>)
    ensures
        0 <= groups_value(gs) < pow16(gs.len()),
    decreases gs.len(),
{
    if gs.len() > 0 {
        lemma_groups_value_bound(gs.drop_last());
    }
}

/// What an IPv6 literal denotes.
pub open spec fn spec_parse_ipv6(s: Seq<char>) -> Option<u128> {
    let d = find_compression(s);
    if d < 0 {
        match group_list(split_char(s, ':'), true) {
            Some(gs) => if gs.len() == 8 {
                Some(groups_value(gs) as u128)
            } else {
                None
            },
            None => None,
        }
    } else {
        let left = s.subrange(0, d);
        let right = s.subrange(d + 2, s.len() as int);
        let lg = if left.len() == 0 {
            Some(Seq::<u16>::empty())
        } else {
            group_list(split_char(left, ':'), false)
        };
        let rg = if right.len() == 0 {
            Some(Seq::<u16>::empty())
        } else {
            group_list(split_char(right, ':'), true)
        };
        match (lg, rg) {
            (Some(l), Some(r)) => if l.len() + r.len() <= 7 {
                Some(
                    groups_value(l + zero_groups((8 - l.len() - r.len()) as nat) + r) as u128,
                )
            } else {
                None
            },
            _ => None,
        }
    }
}

/// The value of a hexadecimal digit character, or nothing.
fn hex_digit_of(c: char) -> (r: Option<u32>)
    ensures
        match r {
            Some(x) => is_hex_digit(c) && x == hex_digit_val(c) && x <= 15,
            None => !is_hex_digit(c),
        },
{
    let u = c as u32;
    if 48 <= u && u <= 57 {
        Some(u - 48)
    } else if 97 <= u && u <= 102 {
        Some(u - 87)
    } else if 65 <= u && u <= 70 {
        Some(u - 55)
    } else {
        None
    }
}

/// Parse `v[lo..hi]` as one hex group.
fn parse_hex_group(v: &Vec<char>, lo: usize, hi: usize) -> (r: Option<u32>)
    requires
        lo <= hi <= v@.len(),
    ensures
        match r {
            Some(x) => hex_group_ok(v@.subrange(lo as int, hi as int)) && x == hex_value(
                v@.subrange(lo as int, hi as int),
            ) && x <= 0xFFFF,
            None => !hex_group_ok(v@.subrange(lo as int, hi as int)),
        },
{
    let ghost sub = v@.subrange(lo as int, hi as int);
    let len = hi - lo;
    if len < 1 || len > 4 {
        return None;
    }
    let mut value: u32 = 0;
    let mut i: usize = 0;
    while i < len
        invariant
            i <= len,
            1 <= len <= 4,
            len == hi - lo,
            lo <= hi <= v@.len(),
            sub == v@.subrange(lo as int, hi as int),
            all_hex_digits(sub.take(i as int)),
            value == hex_value(sub.take(i as int)),
            i == 0 ==> value == 0,
            i == 1 ==> value <= 0xF,
            i == 2 ==> value <= 0xFF,
            i == 3 ==> value <= 0xFFF,
            i == 4 ==> value <= 0xFFFF,
        decreases len - i,
    {
        match hex_digit_of(v[lo + i]) {
            Some(d) => {
                proof {
                    assert(sub.take(i + 1).drop_last() =~= sub.take(i as int));
                    assert(sub.take(i + 1).last() == sub[i as int]);
                }
                value = value * 16 + d;
            },
            None => {
                proof {
                    assert(sub[i as int] == v@[lo + i]);
                    assert(!all_hex_digits(sub));
                }
                return None;
            },
        }
        i = i + 1;
    }
    proof {
        assert(sub.take(len as int) =~= sub);
    }
    Some(value)
}

/// Parse `v[lo..hi]` as a colon-separated group list.
fn parse_group_list(v: &Vec<char>, lo: usize, hi: usize, v4_tail: bool) -> (r: Option<Vec<u16>>)
    requires
        lo <= hi <= v@.len(),
    ensures
        match r {
            Some(gs) => group_list(split_char(v@.subrange(lo as int, hi as int), ':'), v4_tail)
                == Some(gs@),
            None => group_list(split_char(v@.subrange(lo as int, hi as int), ':'), v4_tail)
                is None,
        },
    decreases hi - lo,
{
    let ghost sub = v@.subrange(lo as int, hi as int);
    match find_char_in(v, lo, hi, ':') {
        None => {
            proof {
                lemma_split_char_whole(sub, ':');
            }
            match parse_hex_group(v, lo, hi) {
                Some(g) => Some(vec![g as u16]),
                None => {
                    if v4_tail {
                        match parse_ipv4_range(v, lo, hi) {
                            Some(ip) => Some(vec![(ip >> 16u32) as u16, (ip & 0xFFFF) as u16]),
                            None => None,
                        }
                    } else {
                        None
                    }
                },
            }
        },
        Some(i) => {
            proof {
                lemma_split_char_first(sub, ':', i - lo);
                assert(sub.subrange(0, i - lo) =~= v@.subrange(lo as int, i as int));
                assert(sub.subrange(i - lo + 1, sub.len() as int) =~= v@.subrange(
                    i + 1,
                    hi as int,
                ));
                lemma_split_char_len(v@.subrange(i + 1, hi as int), ':');
                assert((seq![sub.subrange(0, i - lo)] + split_char(
                    v@.subrange(i + 1, hi as int),
                    ':',
                )).drop_first() =~~= split_char(v@.subrange(i + 1, hi as int), ':'));
            }
            match parse_hex_group(v, lo, i) {
                None => None,
                Some(g) => {
                    match parse_group_list(v, i + 1, hi, v4_tail) {
                        None => None,
                        Some(rest) => {
                            let mut rest = rest;
                            let mut out: Vec<u16> = Vec::new();
                            out.push(g as u16);
                            let ghost rest_view = rest@;
                            out.append(&mut rest);
                            proof {
                                assert(out@ =~= seq![g as u16] + rest_view);
                            }
                            Some(out)
                        },
                    }
                },
            }
        },
    }
}

/// The first position where `::` starts in `v[lo..hi]`, if any.
fn find_compression_in(v: &Vec<char>, lo: usize, hi: usize) -> (r: Option<usize>)
    requires
        lo <= hi <= v@.len(),
    ensures
        match r {
            Some(i) => lo <= i && i + 1 < hi && find_compression(
                v@.subrange(lo as int, hi as int),
            ) == i - lo,
            None => find_compression(v@.subrange(lo as int, hi as int)) == -1,
        },
{
    let ghost sub = v@.subrange(lo as int, hi as int);
    if hi == lo {
        proof {
            lemma_find_compression_none(sub);
        }
        return None;
    }
    let mut i = lo;
    while i < hi - 1
        invariant
            lo <= i,
            i <= hi <= v@.len(),
            lo < hi,
            sub == v@.subrange(lo as int, hi as int),
            forall|j: int| 0 <= j < i - lo ==> !(#[trigger] sub[j] == ':' && sub[j + 1] == ':'),
        decreases hi - i,
    {
        if v[i] == ':' && v[i + 1] == ':' {
            proof {
                lemma_find_compression_at(sub, i - lo);
            }
            return Some(i);
        }
        i = i + 1;
    }
    proof {
        lemma_find_compression_none(sub);
    }
    None
}

proof fn lemma_find_compression_none(s: Seq<char>)
    requires
        forall|j: int| 0 <= j < s.len() - 1 ==> !(#[trigger] s[j] == ':' && s[j + 1] == ':'),
    ensures
        find_compression(s) == -1,
    decreases s.len(),
{
    if s.len() >= 2 {
        let tail = s.drop_first();
        assert forall|j: int| 0 <= j < tail.len() - 1 implies !(#[trigger] tail[j] == ':'
            && tail[j + 1] == ':') by {
            assert(tail[j] == s[j + 1]);
            assert(tail[j + 1] == s[j + 2]);
        }
        lemma_find_compression_none(tail);
    }
}

proof fn lemma_find_compression_at(s: Seq<char>, k: int)
    requires
        0 <= k,
        k + 1 < s.len(),
        s[k] == ':' && s[k + 1] == ':',
        forall|j: int| 0 <= j < k ==> !(#[trigger] s[j] == ':' && s[j + 1] == ':'),
    ensures
        find_compression(s) == k,
    decreases k,
{
    if k > 0 {
        let tail = s.drop_first();
        assert forall|j: int| 0 <= j < k - 1 implies !(#[trigger] tail[j] == ':' && tail[j + 1] == ':') by {
            assert(tail[j] == s[j + 1]);
            assert(tail[j + 1] == s[j + 2]);
        }
        lemma_find_compression_at(tail, k - 1);
    }
}

/// The value of at most eight groups, most significant first.
fn groups_value_exec(gs: &Vec<u16>) -> (r: u128)
    requires
        gs@.len() <= 8,
    ensures
        r == groups_value(gs@),
{
    let mut acc: u128 = 0;
    let mut i: usize = 0;
    let n = gs.len();
    while i < n
        invariant
            i <= n,
            n == gs@.len() <= 8,
            acc == groups_value(gs@.take(i as int)),
            acc < pow16(i as nat),
        decreases n - i,
    {
        proof {
            assert(gs@.take(i + 1).drop_last() =~= gs@.take(i as int));
            assert(gs@.take(i + 1).last() == gs@[i as int]);
            lemma_pow16_mono((i + 1) as nat, 8);
            lemma_pow16_8();
        }
        acc = acc * 0x10000 + gs[i] as u128;
        i = i + 1;
    }
    proof {
        assert(gs@.take(n as int) =~= gs@);
    }
    acc
}

/// Parse `v[lo..hi]` as an IPv6 literal.
pub(crate) fn parse_ipv6_range(v: &Vec<char>, lo: usize, hi: usize) -> (r: Option<u128>)
    requires
        lo <= hi <= v@.len(),
    ensures
        r == spec_parse_ipv6(v@.subrange(lo as int, hi as int)),
{
    let ghost sub = v@.subrange(lo as int, hi as int);
    match find_compression_in(v, lo, hi) {
        None => {
            match parse_group_list(v, lo, hi, true) {
                Some(gs) => {
                    if gs.len() == 8 {
                        proof {
                            lemma_groups_value_bound(gs@);
                            lemma_pow16_8();
                        }
                        Some(groups_value_exec(&gs))
                    } else {
                        None
                    }
                },
                None => None,
            }
        },
        Some(d) => {
            proof {
                assert(sub.subrange(0, d - lo) =~= v@.subrange(lo as int, d as int));
                assert(sub.subrange(d - lo + 2, sub.len() as int) =~= v@.subrange(
                    d + 2,
                    hi as int,
                ));
            }
            let lgs = if d == lo {
                Vec::<u16>::new()
            } else {
                match parse_group_list(v, lo, d, false) {
                    Some(gs) => gs,
                    None => {
                        return None;
                    },
                }
            };
            let rgs = if d + 2 == hi {
                Vec::<u16>::new()
            } else {
                match parse_group_list(v, d + 2, hi, true) {
                    Some(gs) => gs,
                    None => {
                        return None;
                    },
                }
            };
            if lgs.len() <= 7 && rgs.len() <= 7 - lgs.len() {
                let z = 8 - lgs.len() - rgs.len();
                let mut full = lgs;
                let ghost lview = full@;
                let mut j: usize = 0;
                while j < z
                    invariant
                        j <= z,
                        full@ == lview + zero_groups(j as nat),
                    decreases z - j,
                {
                    full.push(0u16);
                    proof {
                        assert(lview + zero_groups((j + 1) as nat) =~= (lview + zero_groups(
                            j as nat,
                        )).push(0u16));
                    }
                    j = j + 1;
                }
                let mut rgs = rgs;
                let ghost rview = rgs@;
                full.append(&mut rgs);
                proof {
                    assert(full@ =~= lview + zero_groups(z as nat) + rview);
                    lemma_groups_value_bound(full@);
                    lemma_pow16_8();
                }
                Some(groups_value_exec(&full))
            } else {
                None
            }
        },
    }
}

/// The character of one hexadecimal digit, lower case.
pub open spec fn hex_digit_char(d: int) -> char {
    if d < 10 {
        ((48 + d) as u8) as char
    } else {
        ((87 + d) as u8) as char
    }
}

/// The canonical hex text of one group value, without leading zeros.
pub open spec fn hex_repr(n: int) -> Seq<char> {
    if n < 0x10 {
        seq![hex_digit_char(n)]
    } else if n < 0x100 {
        seq![hex_digit_char(n / 0x10), hex_digit_char(n % 0x10)]
    } else if n < 0x1000 {
        seq![
            hex_digit_char(n / 0x100),
            hex_digit_char((n / 0x10) % 0x10),
            hex_digit_char(n % 0x10),
        ]
    } else {
        seq![
            hex_digit_char(n / 0x1000),
            hex_digit_char((n / 0x100) % 0x10),
            hex_digit_char((n / 0x10) % 0x10),
            hex_digit_char(n % 0x10),
        ]
    }
}

/// The uncompressed text of an IPv6 address: all eight groups, colon
/// separated.
pub open spec fn ipv6_text(ip: u128) -> Seq<char> {
    join_colon(
        seq![
            hex_repr(((ip >> 112) & 0xFFFF) as int),
            hex_repr(((ip >> 96) & 0xFFFF) as int),
            hex_repr(((ip >> 80) & 0xFFFF) as int),
            hex_repr(((ip >> 64) & 0xFFFF) as int),
            hex_repr(((ip >> 48) & 0xFFFF) as int),
            hex_repr(((ip >> 32) & 0xFFFF) as int),
            hex_repr(((ip >> 16) & 0xFFFF) as int),
            hex_repr((ip & 0xFFFF) as int),
        ],
    )
}

proof fn lemma_hex_repr_group(n: int)
    requires
        0 <= n <= 0xFFFF,
    ensures
        hex_group_ok(hex_repr(n)),
        hex_value(hex_repr(n)) == n,
        forall|i: int| 0 <= i < hex_repr(n).len() ==> hex_repr(n)[i] != ':',
        1 <= hex_repr(n).len() <= 4,
{
    broadcast use vstd::arithmetic::div_mod::lemma_fundamental_div_mod;

    reveal_with_fuel(hex_value, 5);
    let s = hex_repr(n);
    assert forall|d: int| 0 <= d <= 15 implies is_hex_digit(#[trigger] hex_digit_char(d))
        && hex_digit_val(hex_digit_char(d)) == d && hex_digit_char(d) != ':' by {
        if d < 10 {
            assert(hex_digit_char(d) as u32 == 48 + d);
        } else {
            assert(hex_digit_char(d) as u32 == 87 + d);
        }
    }
    if n < 0x10 {
        assert(s.drop_last() =~= Seq::<char>::empty());
    } else if n < 0x100 {
        assert(s.drop_last() =~= seq![hex_digit_char(n / 0x10)]);
        assert(seq![hex_digit_char(n / 0x10)].drop_last() =~= Seq::<char>::empty());
        assert(hex_value(s) == (n / 0x10) * 0x10 + n % 0x10);
    } else if n < 0x1000 {
        let two = seq![hex_digit_char(n / 0x100), hex_digit_char((n / 0x10) % 0x10)];
        assert(s.drop_last() =~= two);
        assert(two.drop_last() =~= seq![hex_digit_char(n / 0x100)]);
        assert(seq![hex_digit_char(n / 0x100)].drop_last() =~= Seq::<char>::empty());
        assert((n / 0x10) / 0x10 == n / 0x100) by {
            vstd::arithmetic::div_mod::lemma_div_denominator(n, 0x10, 0x10);
        }
        assert(hex_value(s) == (n / 0x100) * 0x100 + ((n / 0x10) % 0x10) * 0x10 + n % 0x10);
        assert((n / 0x100) * 0x100 + ((n / 0x10) % 0x10) * 0x10 + n % 0x10 == n) by {
            assert(n == (n / 0x10) * 0x10 + n % 0x10);
            assert(n / 0x10 == ((n / 0x10) / 0x10) * 0x10 + (n / 0x10) % 0x10);
        }
    } else {
        let three = seq![
            hex_digit_char(n / 0x1000),
            hex_digit_char((n / 0x100) % 0x10),
            hex_digit_char((n / 0x10) % 0x10),
        ];
        let two = seq![hex_digit_char(n / 0x1000), hex_digit_char((n / 0x100) % 0x10)];
        assert(s.drop_last() =~= three);
        assert(three.drop_last() =~= two);
        assert(two.drop_last() =~= seq![hex_digit_char(n / 0x1000)]);
        assert(seq![hex_digit_char(n / 0x1000)].drop_last() =~= Seq::<char>::empty());
        assert(n / 0x1000 >= 1 && n / 0x1000 <= 15);
        assert((n / 0x10) / 0x10 == n / 0x100) by {
            vstd::arithmetic::div_mod::lemma_div_denominator(n, 0x10, 0x10);
        }
        assert((n / 0x100) / 0x10 == n / 0x1000) by {
            vstd::arithmetic::div_mod::lemma_div_denominator(n, 0x100, 0x10);
        }
        assert(hex_value(s) == (n / 0x1000) * 0x1000 + ((n / 0x100) % 0x10) * 0x100 + ((n / 0x10)
            % 0x10) * 0x10 + n % 0x10);
        assert((n / 0x1000) * 0x1000 + ((n / 0x100) % 0x10) * 0x100 + ((n / 0x10) % 0x10) * 0x10
            + n % 0x10 == n) by {
            assert(n == (n / 0x10) * 0x10 + n % 0x10);
            assert(n / 0x10 == ((n / 0x10) / 0x10) * 0x10 + (n / 0x10) % 0x10);
            assert(n / 0x100 == ((n / 0x100) / 0x10) * 0x10 + (n / 0x100) % 0x10);
        }
    }
}

/// No `::` starts anywhere in `s`.
pub open spec fn no_compression(s: Seq<char>) -> bool {
    forall|j: int| 0 <= j < s.len() - 1 ==> !(#[trigger] s[j] == ':' && s[j + 1] == ':')
}

/// Prefixing a non-empty colon-free group and one separator onto a
/// sequence that neither starts with a colon nor holds a `::` keeps `::`
/// out.
proof fn lemma_no_compression_prepend(g: Seq<char>, rest: Seq<char>)
    requires
        g.len() >= 1,
        forall|i: int| 0 <= i < g.len() ==> g[i] != ':',
        rest.len() >= 1,
        rest[0] != ':',
        no_compression(rest),
    ensures
        no_compression(g + seq![':'] + rest),
        (g + seq![':'] + rest)[0] != ':',
{
    let s = g + seq![':'] + rest;
    assert forall|j: int| 0 <= j < s.len() - 1 implies !(#[trigger] s[j] == ':' && s[j + 1]
        == ':') by {
        if j < g.len() {
            assert(s[j] == g[j]);
        } else if j == g.len() {
            assert(s[j + 1] == rest[0]);
        } else {
            assert(s[j] == rest[j - g.len() - 1]);
            assert(s[j + 1] == rest[j - g.len()]);
        }
    }
}

/// The eight pieces of an uncompressed IPv6 text, non-empty and free of
/// colons, split back into exactly those pieces.
proof fn lemma_split_eight(parts: Seq<Seq<char>>, joined: Seq<char>)
    requires
        parts.len() >= 1,
        forall|k: int, i: int|
            0 <= k < parts.len() && 0 <= i < parts[k].len() ==> #[trigger] parts[k][i] != ':',
        forall|k: int| 0 <= k < parts.len() ==> (#[trigger] parts[k]).len() >= 1,
        joined == join_colon(parts),
    ensures
        split_char(joined, ':') == parts,
        no_compression(joined),
        joined.len() >= 1,
        joined[0] != ':',
    decreases parts.len(),
{
    if parts.len() == 1 {
        assert(joined =~= parts[0]);
        lemma_split_char_whole(joined, ':');
        assert(split_char(joined, ':') =~~= parts);
        assert(no_compression(joined));
    } else {
        let head = parts[0];
        let rest = parts.drop_first();
        let rest_joined = join_colon(rest);
        lemma_split_eight(rest, rest_joined);
        assert(joined =~= head + seq![':'] + rest_joined);
        lemma_no_compression_prepend(head, rest_joined);
        lemma_split_char_first(joined, ':', head.len() as int);
        assert(joined.subrange(0, head.len() as int) =~= head);
        assert(joined.subrange(head.len() as int + 1, joined.len() as int) =~= rest_joined);
        assert(split_char(joined, ':') =~~= parts);
    }
}

/// The pieces joined with single colons.
pub open spec fn join_colon(parts: Seq<Seq<char>>) -> Seq<char>
    decreases parts.len(),
{
    if parts.len() == 0 {
        Seq::<char>::empty()
    } else if parts.len() == 1 {
        parts[0]
    } else {
        parts[0] + seq![':'] + join_colon(parts.drop_first())
    }
}

/// Eight hex groups make the eight group values.
proof fn lemma_group_list_eight(parts: Seq<Seq<char>>, vals: Seq<u16>)
    requires
        parts.len() == vals.len() <= 8,
        parts.len() >= 1,
        forall|k: int| 0 <= k < parts.len() ==> hex_group_ok(#[trigger] parts[k]),
        forall|k: int| 0 <= k < parts.len() ==> hex_value(#[trigger] parts[k]) == vals[k],
    ensures
        group_list(parts, true) == Some(vals),
    decreases parts.len(),
{
    if parts.len() == 1 {
        assert(group_list(parts, true) matches Some(gs) && gs =~= vals);
    } else {
        lemma_group_list_eight(parts.drop_first(), vals.drop_first());
        assert(group_list(parts, true) matches Some(gs) && gs =~= vals);
    }
}

/// The eight sixteen-bit groups of an address, and their reassembly.
proof fn lemma_ip6_groups(ip: u128, g0: u128, g1: u128, g2: u128, g3: u128, g4: u128, g5: u128, g6: u128, g7: u128)
    by (bit_vector)
    requires
        g0 == (ip >> 112) & 0xFFFF,
        g1 == (ip >> 96) & 0xFFFF,
        g2 == (ip >> 80) & 0xFFFF,
        g3 == (ip >> 64) & 0xFFFF,
        g4 == (ip >> 48) & 0xFFFF,
        g5 == (ip >> 32) & 0xFFFF,
        g6 == (ip >> 16) & 0xFFFF,
        g7 == ip & 0xFFFF,
    ensures
        g0 <= 0xFFFF && g1 <= 0xFFFF && g2 <= 0xFFFF && g3 <= 0xFFFF && g4 <= 0xFFFF && g5
            <= 0xFFFF && g6 <= 0xFFFF && g7 <= 0xFFFF,
        ((((((g0 * 0x10000 + g1) * 0x10000 + g2) * 0x10000 + g3) * 0x10000 + g4) * 0x10000 + g5)
            * 0x10000 + g6) * 0x10000 + g7 == ip,
{
}

/// Round trip: the uncompressed text of any IPv6 address parses back to
/// it. With `try_parse`, every address is reachable as a literal host.
#[verifier::rlimit(100)]
#[verifier::spinoff_prover]
pub proof fn lemma_ipv6_text_roundtrip(ip: u128)
    ensures
        spec_parse_ipv6(ipv6_text(ip)) == Some(ip),
{
    let g0 = (ip >> 112) & 0xFFFF;
    let g1 = (ip >> 96) & 0xFFFF;
    let g2 = (ip >> 80) & 0xFFFF;
    let g3 = (ip >> 64) & 0xFFFF;
    let g4 = (ip >> 48) & 0xFFFF;
    let g5 = (ip >> 32) & 0xFFFF;
    let g6 = (ip >> 16) & 0xFFFF;
    let g7 = ip & 0xFFFF;
    lemma_ip6_groups(ip, g0, g1, g2, g3, g4, g5, g6, g7);
    lemma_hex_repr_group(g0 as int);
    lemma_hex_repr_group(g1 as int);
    lemma_hex_repr_group(g2 as int);
    lemma_hex_repr_group(g3 as int);
    lemma_hex_repr_group(g4 as int);
    lemma_hex_repr_group(g5 as int);
    lemma_hex_repr_group(g6 as int);
    lemma_hex_repr_group(g7 as int);
    let parts = seq![
        hex_repr(g0 as int),
        hex_repr(g1 as int),
        hex_repr(g2 as int),
        hex_repr(g3 as int),
        hex_repr(g4 as int),
        hex_repr(g5 as int),
        hex_repr(g6 as int),
        hex_repr(g7 as int),
    ];
    let s = ipv6_text(ip);
    assert(s == join_colon(parts));
    lemma_split_eight(parts, s);
    lemma_find_compression_none(s);

    let vals = seq![
        g0 as u16,
        g1 as u16,
        g2 as u16,
        g3 as u16,
        g4 as u16,
        g5 as u16,
        g6 as u16,
        g7 as u16,
    ];
    lemma_group_list_eight(parts, vals);
    lemma_groups_value_eight(vals);
    assert(g0 as u16 as int == g0 && g1 as u16 as int == g1 && g2 as u16 as int == g2 && g3 as u16
        as int == g3 && g4 as u16 as int == g4 && g5 as u16 as int == g5 && g6 as u16 as int == g6
        && g7 as u16 as int == g7);
}

/// The value of eight explicit groups, written out.
proof fn lemma_groups_value_eight(vals: Seq<u16>)
    requires
        vals.len() == 8,
    ensures
        groups_value(vals) == ((((((vals[0] * 0x10000 + vals[1]) * 0x10000 + vals[2]) * 0x10000
            + vals[3]) * 0x10000 + vals[4]) * 0x10000 + vals[5]) * 0x10000 + vals[6]) * 0x10000
            + vals[7],
{
    reveal_with_fuel(groups_value, 9);
    assert(vals.drop_last() =~= seq![
        vals[0],
        vals[1],
        vals[2],
        vals[3],
        vals[4],
        vals[5],
        vals[6],
    ]);
    let v6s = vals.drop_last();
    assert(v6s.drop_last() =~= seq![vals[0], vals[1], vals[2], vals[3], vals[4], vals[5]]);
    let v5s = v6s.drop_last();
    assert(v5s.drop_last() =~= seq![vals[0], vals[1], vals[2], vals[3], vals[4]]);
    let v4s = v5s.drop_last();
    assert(v4s.drop_last() =~= seq![vals[0], vals[1], vals[2], vals[3]]);
    let v3s = v4s.drop_last();
    assert(v3s.drop_last() =~= seq![vals[0], vals[1], vals[2]]);
    let v2s = v3s.drop_last();
    assert(v2s.drop_last() =~= seq![vals[0], vals[1]]);
    let v1s = v2s.drop_last();
    assert(v1s.drop_last() =~= seq![vals[0]]);
    assert(seq![vals[0]].drop_last() =~= Seq::<u16>::empty());
}


/// Parse an IPv6 literal such as `2001:db8::1` or `::ffff:203.0.113.9`.
pub fn parse_ipv6(s: &str) -> (r: Option<u128>)
    ensures
        r == spec_parse_ipv6(s@),
{
    let v = chars_of(s);
    let n = v.len();
    let r = parse_ipv6_range(&v, 0, n);
    proof {
        assert(v@.subrange(0, n as int) =~= s@);
    }
    r
}

} // verus!
