//! Endpoint-literal parsing.
//!
//! The grammar of endpoint literals: an IPv4 address is four dotted-decimal
//! octets without leading zeros; an IPv6 address is eight colon-separated
//! groups of one to four hex digits, where one run of zero groups may be
//! elided as `::`; an endpoint literal is `<v4>:<port>` or `[<v6>]:<port>`
//! with a decimal port of at most five digits and value at most 65535.
//!
//! Parse failure is not an error here: the dispatch layer treats any text
//! that is no literal as a host name for the external resolver.

use vstd::prelude::*;

use crate::addr::{Endpoint, IpAddress, Ipv4Address, Ipv6Address};

verus! {

// ---------------------------------------------------------------------------
// Character classes and digit-string values
// ---------------------------------------------------------------------------
/// `c` is a decimal digit `'0'..='9'`.
pub open spec fn is_digit(c: char) -> bool {
    '0' as int <= c as int && c as int <= '9' as int
}

/// Value of a decimal digit.
pub open spec fn digit_val(c: char) -> int {
    c as int - '0' as int
}

/// `c` is a hexadecimal digit `'0'..='9' | 'a'..='f' | 'A'..='F'`.
pub open spec fn is_hex_digit(c: char) -> bool {
    is_digit(c) || ('a' as int <= c as int && c as int <= 'f' as int) || ('A' as int <= c as int
        && c as int <= 'F' as int)
}

/// Value of a hexadecimal digit.
pub open spec fn hex_val(c: char) -> int {
    if is_digit(c) {
        digit_val(c)
    } else if 'a' as int <= c as int && c as int <= 'f' as int {
        c as int - 'a' as int + 10
    } else {
        c as int - 'A' as int + 10
    }
}

pub open spec fn all_digits(s: Seq<char>) -> bool {
    forall|i: int| 0 <= i < s.len() ==> is_digit(#[trigger] s[i])
}

pub open spec fn all_hex_digits(s: Seq<char>) -> bool {
    forall|i: int| 0 <= i < s.len() ==> is_hex_digit(#[trigger] s[i])
}

/// Value of a decimal digit string, most significant digit first.
pub open spec fn dec_value(s: Seq<char>) -> int
    decreases s.len(),
{
    if s.len() == 0 {
        0
    } else {
        dec_value(s.drop_last()) * 10 + digit_val(s.last())
    }
}

/// Value of a hexadecimal digit string, most significant digit first.
pub open spec fn hex_value(s: Seq<char>) -> int
    decreases s.len(),
{
    if s.len() == 0 {
        0
    } else {
        hex_value(s.drop_last()) * 16 + hex_val(s.last())
    }
}

pub open spec fn pow10(n: nat) -> int
    decreases n,
{
    if n == 0 {
        1
    } else {
        10 * pow10((n - 1) as nat)
    }
}

pub open spec fn pow16(n: nat) -> int
    decreases n,
{
    if n == 0 {
        1
    } else {
        16 * pow16((n - 1) as nat)
    }
}

pub proof fn lemma_dec_value_bound(s: Seq<char>)
    requires
        all_digits(s),
    ensures
        0 <= dec_value(s) < pow10(s.len()),
    decreases s.len(),
{
    if s.len() > 0 {
        assert(all_digits(s.drop_last())) by {
            assert(forall|i: int|
                0 <= i < s.len() - 1 ==> s.drop_last()[i] == #[trigger] s[i]);
        }
        lemma_dec_value_bound(s.drop_last());
        assert(is_digit(s.last()));
    }
}

pub proof fn lemma_hex_value_bound(s: Seq<char>)
    requires
        all_hex_digits(s),
    ensures
        0 <= hex_value(s) < pow16(s.len()),
    decreases s.len(),
{
    if s.len() > 0 {
        assert(all_hex_digits(s.drop_last())) by {
            assert(forall|i: int|
                0 <= i < s.len() - 1 ==> s.drop_last()[i] == #[trigger] s[i]);
        }
        lemma_hex_value_bound(s.drop_last());
        assert(is_hex_digit(s.last()));
    }
}

// ---------------------------------------------------------------------------
// Grammar atoms
// ---------------------------------------------------------------------------
/// A dotted-decimal octet: one to three digits, no leading zero, at most 255.
pub open spec fn is_dec_octet(s: Seq<char>) -> bool {
    1 <= s.len() <= 3 && all_digits(s) && (s.len() > 1 ==> digit_val(s[0]) != 0) && dec_value(s)
        <= 255
}

/// A port literal: one to five digits, at most 65535.
pub open spec fn is_port_literal(s: Seq<char>) -> bool {
    1 <= s.len() <= 5 && all_digits(s) && dec_value(s) <= 65535
}

/// An IPv6 group: one to four hex digits.
pub open spec fn is_hex_group(s: Seq<char>) -> bool {
    1 <= s.len() <= 4 && all_hex_digits(s)
}

// ---------------------------------------------------------------------------
// Searching and splitting
// ---------------------------------------------------------------------------
/// Index of the first occurrence of `c` in `s`, or -1.
pub open spec fn find_char(s: Seq<char>, c: char) -> int
    decreases s.len(),
{
    if s.len() == 0 {
        -1
    } else if s[0] == c {
        0
    } else if find_char(s.skip(1), c) < 0 {
        -1
    } else {
        find_char(s.skip(1), c) + 1
    }
}

/// A `::` stands at index `j` of `s`.
pub open spec fn double_colon_at(s: Seq<char>, j: int) -> bool {
    0 <= j && j + 1 < s.len() && s[j] == ':' && s[j + 1] == ':'
}

/// Index of the first `::` in `s`, or -1.
pub open spec fn find_double_colon(s: Seq<char>) -> int
    decreases s.len(),
{
    if s.len() < 2 {
        -1
    } else if s[0] == ':' && s[1] == ':' {
        0
    } else if find_double_colon(s.skip(1)) < 0 {
        -1
    } else {
        find_double_colon(s.skip(1)) + 1
    }
}

/// The parts of `s` between occurrences of `c`; splitting the empty
/// sequence, or one without `c`, gives a single part.
pub open spec fn split_on(s: Seq<char>, c: char) -> Seq<Seq<char>>
    decreases s.len(),
{
    let i = find_char(s, c);
    if 0 <= i < s.len() {
        seq![s.take(i)] + split_on(s.skip(i + 1), c)
    } else {
        seq![s]
    }
}

/// `find_char` returns the position of the first occurrence: if no `c`
/// stands before `i`, and `c` stands at `i` (or `i` is the length), the
/// search ends exactly there.
pub proof fn lemma_find_char_at(s: Seq<char>, c: char, i: int)
    requires
        0 <= i <= s.len(),
        forall|j: int| 0 <= j < i ==> s[j] != c,
        i < s.len() ==> s[i] == c,
    ensures
        i < s.len() ==> find_char(s, c) == i,
        i == s.len() ==> find_char(s, c) == -1,
    decreases s.len(),
{
    if s.len() == 0 || i == 0 {
    } else {
        assert(s[0] != c);
        assert forall|j: int| 0 <= j < i - 1 implies s.skip(1)[j] != c by {
            assert(s.skip(1)[j] == s[j + 1]);
        }
        if i < s.len() {
            assert(s.skip(1)[i - 1] == s[i]);
        }
        lemma_find_char_at(s.skip(1), c, i - 1);
    }
}

/// The same for `find_double_colon`.
pub proof fn lemma_find_double_colon_at(s: Seq<char>, i: int)
    requires
        0 <= i <= s.len(),
        forall|j: int| 0 <= j < i ==> !double_colon_at(s, j),
        i < s.len() ==> double_colon_at(s, i),
    ensures
        i < s.len() ==> find_double_colon(s) == i,
        i == s.len() ==> find_double_colon(s) == -1,
    decreases s.len(),
{
    if i == 0 {
    } else {
        assert(!double_colon_at(s, 0));
        assert forall|j: int| 0 <= j < i - 1 implies !double_colon_at(s.skip(1), j) by {
            assert(!double_colon_at(s, j + 1));
            if 0 <= j && j + 1 < s.skip(1).len() {
                assert(s.skip(1)[j] == s[j + 1]);
                assert(s.skip(1)[j + 1] == s[j + 2]);
            }
        }
        if i < s.len() {
            assert(double_colon_at(s, i));
            assert(s.skip(1)[i - 1] == s[i]);
            assert(s.skip(1)[i] == s[i + 1]);
            assert(double_colon_at(s.skip(1), i - 1));
        }
        lemma_find_double_colon_at(s.skip(1), i - 1);
    }
}

// ---------------------------------------------------------------------------
// Exec scanning helpers
// ---------------------------------------------------------------------------
/// Decimal value of `c`, when it is a digit.
fn digit_value(c: char) -> (r: Option<u32>)
    ensures
        r is Some <==> is_digit(c),
        r is Some ==> r->0 as int == digit_val(c),
{
    let d = c as u32;
    if 48 <= d && d <= 57 {
        Some(d - 48)
    } else {
        None
    }
}

/// Hexadecimal value of `c`, when it is a hex digit.
fn hex_digit_value(c: char) -> (r: Option<u32>)
    ensures
        r is Some <==> is_hex_digit(c),
        r is Some ==> r->0 as int == hex_val(c),
{
    let d = c as u32;
    if 48 <= d && d <= 57 {
        Some(d - 48)
    } else if 97 <= d && d <= 102 {
        Some(d - 87)
    } else if 65 <= d && d <= 70 {
        Some(d - 55)
    } else {
        None
    }
}

/// The characters of `s` as a vector.
fn chars_vec(s: &str) -> (r: Vec<char>)
    ensures
        r@ == s@,
{
    let n = s.unicode_len();
    let mut r: Vec<char> = Vec::new();
    let mut i: usize = 0;
    while i < n
        invariant
            i <= n,
            n == s@.len(),
            r@ == s@.take(i as int),
        decreases n - i,
    {
        let c = s.get_char(i);
        r.push(c);
        proof {
            assert(r@ =~= s@.take(i as int + 1));
        }
        i = i + 1;
    }
    proof {
        assert(r@ =~= s@);
    }
    r
}

/// A copy of `s[lo..hi]`.
fn subvec(s: &Vec<char>, lo: usize, hi: usize) -> (r: Vec<char>)
    requires
        lo <= hi <= s@.len(),
    ensures
        r@ == s@.subrange(lo as int, hi as int),
{
    let mut r: Vec<char> = Vec::new();
    let mut i: usize = lo;
    while i < hi
        invariant
            lo <= i <= hi <= s@.len(),
            r@ == s@.subrange(lo as int, i as int),
        decreases hi - i,
    {
        let c = s[i];
        r.push(c);
        proof {
            assert(r@ =~= s@.subrange(lo as int, i as int + 1));
        }
        i = i + 1;
    }
    r
}

/// The parts of `s` between occurrences of `c`, as `split_on` gives them.
fn split_char(s: &Vec<char>, c: char) -> (parts: Vec<Vec<char>>)
    ensures
        parts.deep_view() == split_on(s@, c),
{
    let n = s.len();
    let mut parts: Vec<Vec<char>> = Vec::new();
    let mut cur: Vec<char> = Vec::new();
    let mut i: usize = 0;
    let mut j: usize = 0;
    proof {
        assert(s@.skip(0) =~= s@);
        assert(parts.deep_view() =~~= Seq::<Seq<char>>::empty());
        assert(parts.deep_view() + split_on(s@, c) =~~= split_on(s@, c));
        assert(cur@ =~= s@.subrange(0, 0));
    }
    while i < n
        invariant
            j <= i <= n,
            n == s@.len(),
            cur@ == s@.subrange(j as int, i as int),
            forall|k: int| j <= k < i ==> s@[k] != c,
            split_on(s@, c) == parts.deep_view() + split_on(s@.skip(j as int), c),
        decreases n - i,
    {
        let ch = s[i];
        if ch == c {
            proof {
                let rest = s@.skip(j as int);
                assert forall|t: int| 0 <= t < i - j implies rest[t] != c by {
                    assert(rest[t] == s@[j + t]);
                }
                assert(rest[i - j] == s@[i as int]);
                lemma_find_char_at(rest, c, i - j);
                assert(rest.take(i - j) =~= s@.subrange(j as int, i as int));
                assert(rest.skip(i - j + 1) =~= s@.skip(i as int + 1));
                assert(split_on(rest, c) == seq![cur@] + split_on(s@.skip(i as int + 1), c));
            }
            let ghost old_parts = parts.deep_view();
            let ghost old_cur = cur@;
            parts.push(cur);
            proof {
                assert(parts.deep_view() =~~= old_parts + seq![old_cur]);
                assert(old_parts + seq![old_cur] + split_on(s@.skip(i as int + 1), c)
                    =~~= old_parts + (seq![old_cur] + split_on(s@.skip(i as int + 1), c)));
            }
            cur = Vec::new();
            i = i + 1;
            j = i;
            proof {
                assert(cur@ =~= s@.subrange(j as int, i as int));
            }
        } else {
            cur.push(ch);
            i = i + 1;
            proof {
                assert(cur@ =~= s@.subrange(j as int, i as int));
            }
        }
    }
    proof {
        let rest = s@.skip(j as int);
        assert forall|t: int| 0 <= t < rest.len() implies rest[t] != c by {
            assert(rest[t] == s@[j + t]);
        }
        lemma_find_char_at(rest, c, rest.len() as int);
        assert(rest =~= s@.subrange(j as int, n as int));
    }
    let ghost old_parts = parts.deep_view();
    let ghost old_cur = cur@;
    parts.push(cur);
    proof {
        assert(parts.deep_view() =~~= old_parts + seq![old_cur]);
        assert(parts.deep_view() =~~= split_on(s@, c));
    }
    parts
}

// ---------------------------------------------------------------------------
// Token parsers
// ---------------------------------------------------------------------------
/// Value of a short decimal digit vector.
fn dec_string_value(p: &Vec<char>) -> (r: Option<u32>)
    requires
        p@.len() <= 5,
    ensures
        r is Some <==> all_digits(p@),
        r is Some ==> r->0 as int == dec_value(p@),
{
    let n = p.len();
    let mut val: u32 = 0;
    let mut i: usize = 0;
    proof {
        assert(p@.take(0) =~= Seq::<char>::empty());
    }
    while i < n
        invariant
            i <= n,
            n == p@.len(),
            n <= 5,
            all_digits(p@.take(i as int)),
            val as int == dec_value(p@.take(i as int)),
            val <= 99999,
        decreases n - i,
    {
        match digit_value(p[i]) {
            Some(d) => {
                proof {
                    lemma_dec_value_bound(p@.take(i as int));
                    reveal_with_fuel(pow10, 6);
                    assert(i as int == 0 || i as int == 1 || i as int == 2 || i as int == 3
                        || i as int == 4);
                    assert(pow10(i as nat) <= 10000);
                    assert(p@.take(i as int + 1).drop_last() =~= p@.take(i as int));
                    assert(p@.take(i as int + 1).last() == p@[i as int]);
                }
                val = val * 10 + d;
                i = i + 1;
            },
            None => {
                assert(!is_digit(p@[i as int]));
                return None;
            },
        }
    }
    proof {
        assert(p@.take(n as int) =~= p@);
    }
    Some(val)
}

/// Parse a dotted-decimal octet.
fn parse_octet(p: &Vec<char>) -> (r: Option<u8>)
    ensures
        r is Some <==> is_dec_octet(p@),
        r is Some ==> r->0 == dec_value(p@) as u8,
{
    let n = p.len();
    if n < 1 || n > 3 {
        return None;
    }
    match dec_string_value(p) {
        Some(val) => {
            if n > 1 && p[0] as u32 == 48 {
                return None;
            }
            if val <= 255 {
                Some(val as u8)
            } else {
                None
            }
        },
        None => None,
    }
}

/// Parse a port literal.
fn parse_port_chars(p: &Vec<char>) -> (r: Option<u16>)
    ensures
        r is Some <==> is_port_literal(p@),
        r is Some ==> r->0 == dec_value(p@) as u16,
{
    let n = p.len();
    if n < 1 || n > 5 {
        return None;
    }
    match dec_string_value(p) {
        Some(val) => {
            if val <= 65535 {
                Some(val as u16)
            } else {
                None
            }
        },
        None => None,
    }
}

/// Parse an IPv6 group.
fn parse_hex_group(p: &Vec<char>) -> (r: Option<u16>)
    ensures
        r is Some <==> is_hex_group(p@),
        r is Some ==> r->0 == hex_value(p@) as u16,
{
    let n = p.len();
    if n < 1 || n > 4 {
        return None;
    }
    let mut val: u32 = 0;
    let mut i: usize = 0;
    proof {
        assert(p@.take(0) =~= Seq::<char>::empty());
    }
    while i < n
        invariant
            i <= n,
            n == p@.len(),
            1 <= n <= 4,
            all_hex_digits(p@.take(i as int)),
            val as int == hex_value(p@.take(i as int)),
            val <= 65535,
        decreases n - i,
    {
        match hex_digit_value(p[i]) {
            Some(d) => {
                proof {
                    lemma_hex_value_bound(p@.take(i as int));
                    reveal_with_fuel(pow16, 5);
                    assert(i as int == 0 || i as int == 1 || i as int == 2 || i as int == 3);
                    assert(pow16(i as nat) <= 4096);
                    assert(p@.take(i as int + 1).drop_last() =~= p@.take(i as int));
                    assert(p@.take(i as int + 1).last() == p@[i as int]);
                }
                val = val * 16 + d;
                i = i + 1;
            },
            None => {
                assert(!is_hex_digit(p@[i as int]));
                return None;
            },
        }
    }
    proof {
        assert(p@.take(n as int) =~= p@);
        lemma_hex_value_bound(p@);
        reveal_with_fuel(pow16, 5);
    }
    Some(val as u16)
}

// ---------------------------------------------------------------------------
// IPv4
// ---------------------------------------------------------------------------
/// The IPv4 literal grammar: four dotted-decimal octets.
pub open spec fn spec_parse_ipv4(s: Seq<char>) -> Option<Ipv4Address> {
    let parts = split_on(s, '.');
    if parts.len() == 4 && is_dec_octet(parts[0]) && is_dec_octet(parts[1]) && is_dec_octet(
        parts[2],
    ) && is_dec_octet(parts[3]) {
        Some(
            Ipv4Address {
                a: dec_value(parts[0]) as u8,
                b: dec_value(parts[1]) as u8,
                c: dec_value(parts[2]) as u8,
                d: dec_value(parts[3]) as u8,
            },
        )
    } else {
        None
    }
}

fn parse_ipv4_chars(s: &Vec<char>) -> (r: Option<Ipv4Address>)
    ensures
        r == spec_parse_ipv4(s@),
{
    let parts = split_char(s, '.');
    proof {
        assert(parts@.len() == parts.deep_view().len());
    }
    if parts.len() != 4 {
        return None;
    }
    proof {
        assert forall|k: int| 0 <= k < 4 implies parts@[k]@ =~= parts.deep_view()[k] by {}
    }
    let oa = parse_octet(&parts[0]);
    let ob = parse_octet(&parts[1]);
    let oc = parse_octet(&parts[2]);
    let od = parse_octet(&parts[3]);
    match (oa, ob, oc, od) {
        (Some(a), Some(b), Some(c), Some(d)) => Some(Ipv4Address { a, b, c, d }),
        _ => None,
    }
}

// ---------------------------------------------------------------------------
// IPv6
// ---------------------------------------------------------------------------
pub open spec fn all_hex_groups(parts: Seq<Seq<char>>) -> bool {
    forall|i: int| 0 <= i < parts.len() ==> is_hex_group(#[trigger] parts[i])
}

/// The group values of a sequence of hex-group literals.
pub open spec fn group_values(parts: Seq<Seq<char>>) -> Seq<u16> {
    Seq::new(parts.len(), |i: int| hex_value(parts[i]) as u16)
}

pub open spec fn zero_groups(n: int) -> Seq<u16> {
    Seq::new(n as nat, |i: int| 0u16)
}

/// The address whose eight groups are `g`.
pub open spec fn ipv6_from_groups(g: Seq<u16>) -> Ipv6Address
    recommends
        g.len() == 8,
{
    Ipv6Address { g0: g[0], g1: g[1], g2: g[2], g3: g[3], g4: g[4], g5: g[5], g6: g[6], g7: g[7] }
}

/// The IPv6 literal grammar: eight colon-separated hex groups, where one
/// run of zero groups may be elided as `::`.
pub open spec fn spec_parse_ipv6(s: Seq<char>) -> Option<Ipv6Address> {
    let dc = find_double_colon(s);
    if dc < 0 {
        let parts = split_on(s, ':');
        if parts.len() == 8 && all_hex_groups(parts) {
            Some(ipv6_from_groups(group_values(parts)))
        } else {
            None
        }
    } else {
        let lparts = if dc == 0 {
            Seq::<Seq<char>>::empty()
        } else {
            split_on(s.take(dc), ':')
        };
        let rparts = if dc + 2 == s.len() {
            Seq::<Seq<char>>::empty()
        } else {
            split_on(s.skip(dc + 2), ':')
        };
        if all_hex_groups(lparts) && all_hex_groups(rparts) && lparts.len() + rparts.len() <= 7 {
            Some(
                ipv6_from_groups(
                    group_values(lparts) + zero_groups(8 - lparts.len() - rparts.len())
                        + group_values(rparts),
                ),
            )
        } else {
            None
        }
    }
}

/// Parse every part as a hex group.
fn parse_groups(parts: &Vec<Vec<char>>) -> (r: Option<Vec<u16>>)
    ensures
        r is Some <==> all_hex_groups(parts.deep_view()),
        r is Some ==> r->0@ == group_values(parts.deep_view()),
{
    let n = parts.len();
    let mut vals: Vec<u16> = Vec::new();
    let mut k: usize = 0;
    while k < n
        invariant
            k <= n,
            n == parts@.len(),
            vals@.len() == k,
            forall|j: int| 0 <= j < k ==> is_hex_group(#[trigger] parts.deep_view()[j]),
            forall|j: int| 0 <= j < k ==> vals@[j] == hex_value(parts.deep_view()[j]) as u16,
        decreases n - k,
    {
        proof {
            assert(parts@[k as int]@ =~= parts.deep_view()[k as int]);
        }
        match parse_hex_group(&parts[k]) {
            Some(v) => {
                vals.push(v);
                k = k + 1;
            },
            None => {
                assert(!is_hex_group(parts.deep_view()[k as int]));
                return None;
            },
        }
    }
    proof {
        assert(vals@ =~= group_values(parts.deep_view()));
    }
    Some(vals)
}

fn ipv6_from_group_vec(g: &Vec<u16>) -> (r: Ipv6Address)
    requires
        g@.len() == 8,
    ensures
        r == ipv6_from_groups(g@),
{
    Ipv6Address {
        g0: g[0],
        g1: g[1],
        g2: g[2],
        g3: g[3],
        g4: g[4],
        g5: g[5],
        g6: g[6],
        g7: g[7],
    }
}

fn parse_ipv6_chars(s: &Vec<char>) -> (r: Option<Ipv6Address>)
    ensures
        r == spec_parse_ipv6(s@),
{
    let n = s.len();
    let mut i: usize = 0;
    while n > 0 && i < n - 1 && !(s[i] == ':' && s[i + 1] == ':')
        invariant
            i <= n,
            n == s@.len(),
            forall|j: int| 0 <= j < i ==> !double_colon_at(s@, j),
        decreases n - i,
    {
        i = i + 1;
    }
    if n > 0 && i < n - 1 {
        // the first `::` stands at i
        proof {
            lemma_find_double_colon_at(s@, i as int);
        }
        let left = subvec(s, 0, i);
        let right = subvec(s, i + 2, n);
        let lparts: Vec<Vec<char>> = if i == 0 {
            Vec::new()
        } else {
            split_char(&left, ':')
        };
        let rparts: Vec<Vec<char>> = if right.len() == 0 {
            Vec::new()
        } else {
            split_char(&right, ':')
        };
        proof {
            let dc = i as int;
            assert(left@ =~= s@.take(dc));
            assert(right@ =~= s@.skip(dc + 2));
            if i == 0 {
                assert(lparts.deep_view() =~~= Seq::<Seq<char>>::empty());
            }
            if right@.len() == 0 {
                assert(dc + 2 == s@.len());
                assert(rparts.deep_view() =~~= Seq::<Seq<char>>::empty());
            } else {
                assert(dc + 2 != s@.len());
            }
        }
        let lv = parse_groups(&lparts);
        let rv = parse_groups(&rparts);
        match (lv, rv) {
            (Some(lvals), Some(rvals)) => {
                let lc = lvals.len();
                let rc = rvals.len();
                if lc > 7 || rc > 7 - lc {
                    return None;
                }
                let mut g = lvals;
                let ghost lseq = g@;
                let zeros = 8 - lc - rc;
                let mut z: usize = 0;
                while z < zeros
                    invariant
                        z <= zeros,
                        g@ == lseq + zero_groups(z as int),
                    decreases zeros - z,
                {
                    g.push(0);
                    proof {
                        assert(g@ =~= lseq + zero_groups(z as int + 1));
                    }
                    z = z + 1;
                }
                let mut t: usize = 0;
                let ghost mid = g@;
                while t < rc
                    invariant
                        t <= rc,
                        rc == rvals@.len(),
                        g@ == mid + rvals@.take(t as int),
                    decreases rc - t,
                {
                    let v = rvals[t];
                    g.push(v);
                    proof {
                        assert(g@ =~= mid + rvals@.take(t as int + 1));
                    }
                    t = t + 1;
                }
                proof {
                    assert(rvals@.take(rc as int) =~= rvals@);
                    assert(g@ =~= group_values(lparts.deep_view()) + zero_groups(
                        8 - lparts.deep_view().len() - rparts.deep_view().len(),
                    ) + group_values(rparts.deep_view()));
                }
                Some(ipv6_from_group_vec(&g))
            },
            _ => None,
        }
    } else {
        // no `::` anywhere
        proof {
            assert forall|j: int| 0 <= j < s@.len() implies !double_colon_at(s@, j) by {
                if j < i {
                } else {
                    assert(j + 1 >= s@.len());
                }
            }
            lemma_find_double_colon_at(s@, s@.len() as int);
        }
        let parts = split_char(s, ':');
        if parts.len() != 8 {
            return None;
        }
        match parse_groups(&parts) {
            Some(vals) => {
                proof {
                    assert(vals@.len() == 8);
                }
                Some(ipv6_from_group_vec(&vals))
            },
            None => None,
        }
    }
}

// ---------------------------------------------------------------------------
// IP addresses and endpoint literals
// ---------------------------------------------------------------------------
/// The IP literal grammar: an IPv4 literal, else an IPv6 literal.
pub open spec fn spec_parse_ip(s: Seq<char>) -> Option<IpAddress> {
    if spec_parse_ipv4(s) is Some {
        Some(IpAddress::V4(spec_parse_ipv4(s)->0))
    } else if spec_parse_ipv6(s) is Some {
        Some(IpAddress::V6(spec_parse_ipv6(s)->0))
    } else {
        None
    }
}

/// The endpoint literal grammar: `<v4>:<port>`, or `[<v6>]:<port>`.
pub open spec fn spec_parse_endpoint(s: Seq<char>) -> Option<Endpoint> {
    if s.len() > 0 && s[0] == '[' {
        let j = find_char(s, ']');
        if 0 <= j && j + 1 < s.len() && s[j + 1] == ':' {
            let ip = spec_parse_ipv6(s.subrange(1, j));
            let ps = s.skip(j + 2);
            if ip is Some && is_port_literal(ps) {
                Some(Endpoint { ip: IpAddress::V6(ip->0), port: dec_value(ps) as u16 })
            } else {
                None
            }
        } else {
            None
        }
    } else {
        let i = find_char(s, ':');
        if 0 <= i {
            let ip = spec_parse_ipv4(s.take(i));
            let ps = s.skip(i + 1);
            if ip is Some && is_port_literal(ps) {
                Some(Endpoint { ip: IpAddress::V4(ip->0), port: dec_value(ps) as u16 })
            } else {
                None
            }
        } else {
            None
        }
    }
}

/// Find the first occurrence of `c` in `s`, as `find_char` gives it.
fn find_in_vec(s: &Vec<char>, c: char) -> (r: Option<usize>)
    ensures
        match r {
            Some(i) => i < s@.len() && find_char(s@, c) == i as int,
            None => find_char(s@, c) == -1,
        },
{
    let n = s.len();
    let mut i: usize = 0;
    while i < n && s[i] != c
        invariant
            i <= n,
            n == s@.len(),
            forall|j: int| 0 <= j < i ==> s@[j] != c,
        decreases n - i,
    {
        i = i + 1;
    }
    proof {
        lemma_find_char_at(s@, c, i as int);
    }
    if i < n {
        Some(i)
    } else {
        None
    }
}

fn parse_endpoint_chars(s: &Vec<char>) -> (r: Option<Endpoint>)
    ensures
        r == spec_parse_endpoint(s@),
{
    let n = s.len();
    if n > 0 && s[0] == '[' {
        match find_in_vec(s, ']') {
            Some(j) => {
                if j + 1 < n && s[j + 1] == ':' {
                    let inner = subvec(s, 1, j);
                    let ps = subvec(s, j + 2, n);
                    proof {
                        assert(inner@ =~= s@.subrange(1, j as int));
                        assert(ps@ =~= s@.skip(j as int + 2));
                    }
                    let ip = parse_ipv6_chars(&inner);
                    let port = parse_port_chars(&ps);
                    match (ip, port) {
                        (Some(v6), Some(p)) => Some(
                            Endpoint { ip: IpAddress::V6(v6), port: p },
                        ),
                        _ => None,
                    }
                } else {
                    None
                }
            },
            None => None,
        }
    } else {
        match find_in_vec(s, ':') {
            Some(i) => {
                let head = subvec(s, 0, i);
                let ps = subvec(s, i + 1, n);
                proof {
                    assert(head@ =~= s@.take(i as int));
                    assert(ps@ =~= s@.skip(i as int + 1));
                }
                let ip = parse_ipv4_chars(&head);
                let port = parse_port_chars(&ps);
                match (ip, port) {
                    (Some(v4), Some(p)) => Some(Endpoint { ip: IpAddress::V4(v4), port: p }),
                    _ => None,
                }
            },
            None => None,
        }
    }
}

// ---------------------------------------------------------------------------
// Entry points on text
// ---------------------------------------------------------------------------
/// Parse an IPv4 literal such as `127.0.0.1`.
pub fn parse_ipv4_addr(s: &str) -> (r: Option<Ipv4Address>)
    ensures
        r == spec_parse_ipv4(s@),
{
    let cs = chars_vec(s);
    parse_ipv4_chars(&cs)
}

/// Parse an IPv6 literal such as `::1` or `2001:db8::7`.
pub fn parse_ipv6_addr(s: &str) -> (r: Option<Ipv6Address>)
    ensures
        r == spec_parse_ipv6(s@),
{
    let cs = chars_vec(s);
    parse_ipv6_chars(&cs)
}

/// Parse an IP literal of either family.
pub fn parse_ip_addr(s: &str) -> (r: Option<IpAddress>)
    ensures
        r == spec_parse_ip(s@),
{
    let cs = chars_vec(s);
    match parse_ipv4_chars(&cs) {
        Some(v4) => Some(IpAddress::V4(v4)),
        None => match parse_ipv6_chars(&cs) {
            Some(v6) => Some(IpAddress::V6(v6)),
            None => None,
        },
    }
}

/// Parse an endpoint literal such as `127.0.0.1:8080` or `[::1]:443`.
pub fn parse_socket_addr(s: &str) -> (r: Option<Endpoint>)
    ensures
        r == spec_parse_endpoint(s@),
{
    let cs = chars_vec(s);
    parse_endpoint_chars(&cs)
}

} // verus!
