//! The target resolver: which texts name a host, and what address they name.
//!
//! A host is an IPv4 address in dotted decimal, or an IPv6 address between
//! square brackets, which a `%` and a numeric zone may follow. Names are not
//! looked up.

use crate::error::TrafficError;
use crate::text::{
    all_digits, bounds_within, chars_of, digit, field_bounds, fields_of, free_of, is_number,
    lemma_number_value_bound, lemma_split_nonempty, lemma_split_without_separator,
    max_with_digits, number_between, number_value, parse_unsigned, split, without_plus,
};
use vstd::prelude::*;

verus! {

/// The largest port.
pub const MAX_PORT: i64 = 65535;

/// Whether `s` writes one part of a dotted address: a decimal number from 0
/// to 255 with no zero before its first digit.
pub open spec fn is_octet(s: Seq<char>) -> bool {
    is_number(s, 10) && number_value(s, 10) <= 255 && (s.len() > 1 ==> s[0] != '0')
}

/// Whether `s` is an IPv4 address: four such parts with dots between them.
pub open spec fn is_ipv4(s: Seq<char>) -> bool {
    let parts = split(s, '.');
    parts.len() == 4 && forall|i: int| 0 <= i < 4 ==> is_octet(#[trigger] parts[i])
}

/// The four bytes of the IPv4 address `s`, first part first.
pub open spec fn ipv4_octets(s: Seq<char>) -> Seq<u8> {
    Seq::new(4, |i: int| number_value(split(s, '.')[i], 10) as u8)
}

/// Whether `s` writes one group of an IPv6 address: one to four hexadecimal digits.
pub open spec fn is_group(s: Seq<char>) -> bool {
    1 <= s.len() <= 4 && all_digits(s, 16)
}

/// The 16-bit groups that one colon-delimited piece stands for: itself, or
/// for a dotted address its two halves.
pub open spec fn piece_values(s: Seq<char>) -> Seq<u16> {
    if is_group(s) {
        seq![number_value(s, 16) as u16]
    } else {
        let o = ipv4_octets(s);
        seq![(o[0] * 256 + o[1]) as u16, (o[2] * 256 + o[3]) as u16]
    }
}

/// Whether every piece is a group, but for the last, which may be a dotted
/// address where `dotted_end` allows it.
pub open spec fn is_run(pieces: Seq<Seq<char>>, dotted_end: bool) -> bool {
    forall|i: int|
        0 <= i < pieces.len() ==> is_group(#[trigger] pieces[i]) || (dotted_end && i
            == pieces.len() - 1 && is_ipv4(pieces[i]))
}

/// The groups that a run of pieces stands for, in order.
pub open spec fn run_values(pieces: Seq<Seq<char>>) -> Seq<u16>
    decreases pieces.len(),
{
    if pieces.len() == 0 {
        Seq::<u16>::empty()
    } else {
        run_values(pieces.drop_last()) + piece_values(pieces.last())
    }
}

/// The position of the first empty field at or after `from`, or the number
/// of fields where there is none.
pub open spec fn first_empty(fields: Seq<Seq<char>>, from: int) -> int
    decreases fields.len() - from,
{
    if from >= fields.len() {
        fields.len() as int
    } else if fields[from].len() == 0 {
        from
    } else {
        first_empty(fields, from + 1)
    }
}

/// The pieces before the gap at field `gap`. A text that begins with the gap
/// has none.
pub open spec fn before_gap(fields: Seq<Seq<char>>, gap: int) -> Seq<Seq<char>> {
    if gap == 1 && fields[0].len() == 0 {
        Seq::<Seq<char>>::empty()
    } else {
        fields.subrange(0, gap)
    }
}

/// The pieces after the gap at field `gap`. A text that ends with the gap has none.
pub open spec fn after_gap(fields: Seq<Seq<char>>, gap: int) -> Seq<Seq<char>> {
    if gap + 2 == fields.len() && fields[gap + 1].len() == 0 {
        Seq::<Seq<char>>::empty()
    } else {
        fields.subrange(gap + 1, fields.len() as int)
    }
}

/// Whether `s` is an IPv6 address. Written in full it is a run of pieces that
/// stands for eight groups. Written with a gap (`::`) it is a run of groups,
/// the gap, and a run of pieces, which together stand for seven groups or
/// fewer; either run may be empty.
pub open spec fn is_ipv6(s: Seq<char>) -> bool {
    let fields = split(s, ':');
    let gap = first_empty(fields, 1);
    if gap >= fields.len() {
        is_run(fields, true) && run_values(fields).len() == 8
    } else {
        &&& gap + 1 < fields.len()
        &&& is_run(before_gap(fields, gap), false)
        &&& is_run(after_gap(fields, gap), true)
        &&& run_values(before_gap(fields, gap)).len() + run_values(after_gap(fields, gap)).len()
            <= 7
    }
}

/// `n` groups of zero.
pub open spec fn zero_groups(n: int) -> Seq<u16> {
    Seq::new(n as nat, |i: int| 0u16)
}

/// The eight groups of the IPv6 address `s`: a gap stands for as many zero
/// groups as are missing.
pub open spec fn ipv6_groups(s: Seq<char>) -> Seq<u16> {
    let fields = split(s, ':');
    let gap = first_empty(fields, 1);
    if gap >= fields.len() {
        run_values(fields)
    } else {
        let head = run_values(before_gap(fields, gap));
        let tail = run_values(after_gap(fields, gap));
        head + zero_groups(8 - head.len() - tail.len()) + tail
    }
}

/// Whether `s` is what may stand between the brackets: an IPv6 address, or
/// one followed by `%` and a zone, a decimal number that fits 32 bits.
pub open spec fn is_zoned_ipv6(s: Seq<char>) -> bool {
    let parts = split(s, '%');
    &&& 1 <= parts.len() <= 2
    &&& is_ipv6(parts[0])
    &&& parts.len() == 2 ==> is_number(parts[1], 10) && number_value(parts[1], 10) <= u32::MAX
}

/// The zone that `s` names, 0 where it names none.
pub open spec fn zone_of(s: Seq<char>) -> nat {
    let parts = split(s, '%');
    if parts.len() == 2 {
        number_value(parts[1], 10)
    } else {
        0
    }
}

/// Whether `s` begins and ends with a square bracket.
pub open spec fn is_bracketed(s: Seq<char>) -> bool {
    s.len() >= 2 && s[0] == '[' && s.last() == ']'
}

/// What stands between the brackets of `s`.
pub open spec fn unbracketed(s: Seq<char>) -> Seq<char> {
    s.subrange(1, s.len() - 1)
}

/// Whether `s` names a host.
pub open spec fn is_host(s: Seq<char>) -> bool {
    is_ipv4(s) || (is_bracketed(s) && is_zoned_ipv6(unbracketed(s)))
}

/// A host's address.
#[derive(Clone, Copy, Debug, PartialEq, Eq)]
pub enum HostAddress {
    /// The four bytes of an IPv4 address.
    V4([u8; 4]),
    /// The eight groups of an IPv6 address and its zone.
    V6([u16; 8], u32),
}

impl HostAddress {
    /// Whether this is the address that the host text `s` names.
    pub open spec fn names(self, s: Seq<char>) -> bool {
        match self {
            HostAddress::V4(octets) => is_ipv4(s) && octets@ == ipv4_octets(s),
            HostAddress::V6(groups, zone) => {
                &&& !is_ipv4(s)
                &&& groups@ == ipv6_groups(split(unbracketed(s), '%')[0])
                &&& zone == zone_of(unbracketed(s))
            },
        }
    }
}

/// A resolved target: a host's address and a port.
#[derive(Clone, Copy, Debug, PartialEq, Eq)]
pub struct TargetAddress {
    host: HostAddress,
    port: u16,
}

impl TargetAddress {
    /// The host's address.
    pub closed spec fn host_spec(self) -> HostAddress {
        self.host
    }

    /// The port.
    pub closed spec fn port_spec(self) -> u16 {
        self.port
    }

    /// The host's address.
    pub fn host(&self) -> (host: HostAddress)
        ensures
            host == self.host_spec(),
    {
        self.host
    }

    /// The port.
    pub fn port(&self) -> (port: u16)
        ensures
            port == self.port_spec(),
    {
        self.port
    }

    /// Whether the host is an IPv4 address.
    pub fn is_ipv4(&self) -> (v4: bool)
        ensures
            v4 == (self.host_spec() is V4),
    {
        match self.host {
            HostAddress::V4(_) => true,
            HostAddress::V6(_, _) => false,
        }
    }
}

/// A hexadecimal group holds no dot, so it is no dotted address.
pub proof fn lemma_group_is_not_ipv4(s: Seq<char>)
    requires
        is_group(s),
    ensures
        !is_ipv4(s),
{
    assert forall|i: int| 0 <= i < s.len() implies s[i] != '.' by {
        assert(digit(s[i], 16) is Some);
    }
    assert(free_of(s, '.'));
    lemma_split_without_separator(s, '.');
}

/// Reads `chars[from..to]` as one part of a dotted address.
fn octet_between(chars: &Vec<char>, from: usize, to: usize) -> (octet: Option<u8>)
    requires
        from <= to <= chars.len(),
    ensures
        octet is Some <==> is_octet(chars@.subrange(from as int, to as int)),
        octet matches Some(v) ==> v == number_value(chars@.subrange(from as int, to as int), 10),
{
    match number_between(chars, from, to, 10, 255) {
        None => None,
        Some(v) => {
            assert(chars@.subrange(from as int, to as int)[0] == chars@[from as int]);
            if to - from > 1 && chars[from] == '0' {
                None
            } else {
                Some(v as u8)
            }
        },
    }
}

/// Reads `chars[from..to]` as an IPv4 address.
fn ipv4_between(chars: &Vec<char>, from: usize, to: usize) -> (octets: Option<[u8; 4]>)
    requires
        from <= to <= chars.len(),
    ensures
        octets is Some <==> is_ipv4(chars@.subrange(from as int, to as int)),
        octets matches Some(o) ==> o@ == ipv4_octets(chars@.subrange(from as int, to as int)),
{
    let ghost whole = chars@.subrange(from as int, to as int);
    let bounds = field_bounds(chars, from, to, '.');
    if bounds.len() != 4 {
        proof {
            assert(fields_of(chars@, bounds@).len() == bounds.len());
        }
        return None;
    }
    let ghost parts = split(whole, '.');
    proof {
        assert(fields_of(chars@, bounds@).len() == bounds.len());
        assert forall|i: int| 0 <= i < 4 implies parts[i] == chars@.subrange(
            bounds[i].0 as int,
            bounds[i].1 as int,
        ) by {
            assert(fields_of(chars@, bounds@)[i] == parts[i]);
        }
    }
    let a = octet_between(chars, bounds[0].0, bounds[0].1);
    let b = octet_between(chars, bounds[1].0, bounds[1].1);
    let c = octet_between(chars, bounds[2].0, bounds[2].1);
    let d = octet_between(chars, bounds[3].0, bounds[3].1);
    match (a, b, c, d) {
        (Some(a), Some(b), Some(c), Some(d)) => {
            let octets: [u8; 4] = [a, b, c, d];
            proof {
                assert(octets@ =~= ipv4_octets(whole));
                assert forall|i: int| 0 <= i < 4 implies is_octet(#[trigger] parts[i]) by {
                    assert(i == 0 || i == 1 || i == 2 || i == 3);
                }
            }
            Some(octets)
        },
        _ => {
            proof {
                assert(!is_octet(parts[0]) || !is_octet(parts[1]) || !is_octet(parts[2])
                    || !is_octet(parts[3]));
            }
            None
        },
    }
}

/// Reads `chars[from..to]` as one hexadecimal group.
fn group_between(chars: &Vec<char>, from: usize, to: usize) -> (group: Option<u16>)
    requires
        from <= to <= chars.len(),
    ensures
        group is Some <==> is_group(chars@.subrange(from as int, to as int)),
        group matches Some(v) ==> v == number_value(chars@.subrange(from as int, to as int), 16),
{
    if to - from < 1 || to - from > 4 {
        return None;
    }
    proof {
        let s = chars@.subrange(from as int, to as int);
        lemma_number_value_bound(s, 16);
        assert(max_with_digits(0, 16) == 0);
        assert(max_with_digits(1, 16) == 15);
        assert(max_with_digits(2, 16) == 255);
        assert(max_with_digits(3, 16) == 4095);
        assert(max_with_digits(4, 16) == 65535);
    }
    match number_between(chars, from, to, 16, 65535) {
        None => None,
        Some(v) => Some(v as u16),
    }
}

/// Reads the fields `lo..hi` of `bounds` as a run of pieces.
fn run_between(
    chars: &Vec<char>,
    bounds: &Vec<(usize, usize)>,
    lo: usize,
    hi: usize,
    dotted_end: bool,
) -> (groups: Option<Vec<u16>>)
    requires
        lo <= hi <= bounds.len(),
        bounds_within(bounds@, 0, chars.len() as int),
    ensures
        groups is Some <==> is_run(
            fields_of(chars@, bounds@).subrange(lo as int, hi as int),
            dotted_end,
        ),
        groups matches Some(g) ==> g@ == run_values(
            fields_of(chars@, bounds@).subrange(lo as int, hi as int),
        ),
{
    let ghost pieces = fields_of(chars@, bounds@).subrange(lo as int, hi as int);
    let mut groups: Vec<u16> = Vec::new();
    let mut i: usize = lo;
    proof {
        assert(pieces.take(0) =~= Seq::<Seq<char>>::empty());
    }
    while i < hi
        invariant
            lo <= i <= hi <= bounds.len(),
            bounds_within(bounds@, 0, chars.len() as int),
            pieces == fields_of(chars@, bounds@).subrange(lo as int, hi as int),
            is_run(pieces.take(i - lo), false),
            groups@ == run_values(pieces.take(i - lo)),
        decreases hi - i,
    {
        let (from, to) = bounds[i];
        let ghost piece = chars@.subrange(from as int, to as int);
        let ghost seen = pieces.take(i - lo);
        let ghost next = pieces.take(i + 1 - lo);
        proof {
            assert(pieces[i - lo] == piece);
            assert(next.drop_last() =~= seen);
            assert(next.last() == piece);
        }
        match group_between(chars, from, to) {
            Some(v) => {
                groups.push(v);
                proof {
                    assert(groups@ =~= run_values(seen) + piece_values(piece));
                    assert forall|j: int| 0 <= j < next.len() implies is_group(
                        #[trigger] next[j],
                    ) by {
                        if j < seen.len() {
                            assert(next[j] == seen[j]);
                        }
                    }
                }
            },
            None => {
                if !dotted_end || i + 1 != hi {
                    return None;
                }
                match ipv4_between(chars, from, to) {
                    None => {
                        return None;
                    },
                    Some(o) => {
                        let high: u16 = (o[0] as u16) * 256 + (o[1] as u16);
                        let low: u16 = (o[2] as u16) * 256 + (o[3] as u16);
                        groups.push(high);
                        groups.push(low);
                        proof {
                            assert(next =~= pieces);
                            assert(groups@ =~= run_values(seen) + piece_values(piece));
                            assert forall|j: int| 0 <= j < pieces.len() implies is_group(
                                #[trigger] pieces[j],
                            ) || (j == pieces.len() - 1 && is_ipv4(pieces[j])) by {
                                if j < seen.len() {
                                    assert(pieces[j] == seen[j]);
                                }
                            }
                        }
                        return Some(groups);
                    },
                }
            },
        }
        i = i + 1;
    }
    proof {
        assert(pieces.take(hi - lo) =~= pieces);
    }
    Some(groups)
}

/// The position of the first empty field after the first field.
fn gap_position(chars: &Vec<char>, bounds: &Vec<(usize, usize)>) -> (gap: usize)
    requires
        bounds.len() >= 1,
        bounds_within(bounds@, 0, chars.len() as int),
    ensures
        gap == first_empty(fields_of(chars@, bounds@), 1),
        1 <= gap <= bounds.len(),
{
    let ghost fields = fields_of(chars@, bounds@);
    let mut k: usize = 1;
    while k < bounds.len() && bounds[k].0 != bounds[k].1
        invariant
            1 <= k <= bounds.len(),
            bounds_within(bounds@, 0, chars.len() as int),
            fields == fields_of(chars@, bounds@),
            first_empty(fields, 1) == first_empty(fields, k as int),
        decreases bounds.len() - k,
    {
        proof {
            assert(fields[k as int].len() == bounds[k as int].1 - bounds[k as int].0);
        }
        k = k + 1;
    }
    proof {
        if k < bounds.len() {
            assert(fields[k as int].len() == bounds[k as int].1 - bounds[k as int].0);
        }
    }
    k
}

/// Reads `chars[from..to]` as an IPv6 address.
fn ipv6_between(chars: &Vec<char>, from: usize, to: usize) -> (groups: Option<[u16; 8]>)
    requires
        from <= to <= chars.len(),
    ensures
        groups is Some <==> is_ipv6(chars@.subrange(from as int, to as int)),
        groups matches Some(g) ==> g@ == ipv6_groups(chars@.subrange(from as int, to as int)),
{
    let ghost whole = chars@.subrange(from as int, to as int);
    let bounds = field_bounds(chars, from, to, ':');
    let ghost fields = fields_of(chars@, bounds@);
    proof {
        lemma_split_nonempty(whole, ':');
        assert(fields.len() == bounds.len());
    }
    let n: usize = bounds.len();
    let gap = gap_position(chars, &bounds);
    let all: Vec<u16> = if gap >= n {
        proof {
            assert(fields.subrange(0, n as int) =~= fields);
        }
        match run_between(chars, &bounds, 0, n, true) {
            None => {
                return None;
            },
            Some(g) => g,
        }
    } else {
        if gap + 1 >= n {
            return None;
        }
        proof {
            assert(fields[0].len() == bounds[0].1 - bounds[0].0);
            assert(fields[gap + 1].len() == bounds[gap + 1].1 - bounds[gap + 1].0);
            assert(fields.subrange(1, 1) =~= Seq::<Seq<char>>::empty());
            assert(fields.subrange(gap + 1, gap + 1) =~= Seq::<Seq<char>>::empty());
        }
        let head_from: usize = if gap == 1 && bounds[0].0 == bounds[0].1 {
            1
        } else {
            0
        };
        let tail_to: usize = if gap + 2 == n && bounds[gap + 1].0 == bounds[gap + 1].1 {
            gap + 1
        } else {
            n
        };
        let head = match run_between(chars, &bounds, head_from, gap, false) {
            None => {
                return None;
            },
            Some(g) => g,
        };
        let tail = match run_between(chars, &bounds, gap + 1, tail_to, true) {
            None => {
                return None;
            },
            Some(g) => g,
        };
        if head.len() > 7 || tail.len() > 7 - head.len() {
            return None;
        }
        let missing: usize = 8 - head.len() - tail.len();
        let mut all: Vec<u16> = head;
        let mut z: usize = 0;
        while z < missing
            invariant
                z <= missing,
                all@ == head@ + zero_groups(z as int),
            decreases missing - z,
        {
            all.push(0);
            z = z + 1;
            proof {
                assert(all@ =~= head@ + zero_groups(z as int));
            }
        }
        let mut t: usize = 0;
        while t < tail.len()
            invariant
                t <= tail.len(),
                all@ == head@ + zero_groups(missing as int) + tail@.take(t as int),
            decreases tail.len() - t,
        {
            all.push(tail[t]);
            t = t + 1;
            proof {
                assert(all@ =~= head@ + zero_groups(missing as int) + tail@.take(t as int));
            }
        }
        proof {
            assert(tail@.take(tail.len() as int) =~= tail@);
        }
        all
    };
    if all.len() != 8 {
        return None;
    }
    let groups: [u16; 8] = [all[0], all[1], all[2], all[3], all[4], all[5], all[6], all[7]];
    proof {
        assert(groups@ =~= all@);
    }
    Some(groups)
}

/// Reads `chars[from..to]` as an IPv6 address with an optional zone.
fn zoned_ipv6_between(chars: &Vec<char>, from: usize, to: usize) -> (address: Option<
    ([u16; 8], u32),
>)
    requires
        from <= to <= chars.len(),
    ensures
        address is Some <==> is_zoned_ipv6(chars@.subrange(from as int, to as int)),
        address matches Some(a) ==> a.0@ == ipv6_groups(
            split(chars@.subrange(from as int, to as int), '%')[0],
        ) && a.1 == zone_of(chars@.subrange(from as int, to as int)),
{
    let ghost whole = chars@.subrange(from as int, to as int);
    let bounds = field_bounds(chars, from, to, '%');
    let ghost parts = fields_of(chars@, bounds@);
    proof {
        assert(parts.len() == bounds.len());
    }
    if bounds.len() < 1 || bounds.len() > 2 {
        return None;
    }
    proof {
        assert(parts[0] == chars@.subrange(bounds[0].0 as int, bounds[0].1 as int));
    }
    let groups = match ipv6_between(chars, bounds[0].0, bounds[0].1) {
        None => {
            return None;
        },
        Some(g) => g,
    };
    if bounds.len() == 1 {
        return Some((groups, 0));
    }
    proof {
        assert(parts[1] == chars@.subrange(bounds[1].0 as int, bounds[1].1 as int));
    }
    match number_between(chars, bounds[1].0, bounds[1].1, 10, 0xffff_ffff) {
        None => None,
        Some(zone) => Some((groups, zone as u32)),
    }
}

/// Resolves a host and a port to a target address, without looking anything
/// up. The host must be an address as `is_host` says, and the port must lie
/// between 0 and 65535; anything else is an invalid address.
pub fn resolve(host: &str, port: i64) -> (target: Result<TargetAddress, TrafficError>)
    ensures
        target is Ok <==> is_host(host@) && 0 <= port <= MAX_PORT,
        target matches Ok(t) ==> t.port_spec() == port && t.host_spec().names(host@),
        target matches Err(e) ==> e == TrafficError::InvalidAddress,
{
    if port < 0 || port > MAX_PORT {
        return Err(TrafficError::InvalidAddress);
    }
    let chars = chars_of(host);
    let n: usize = chars.len();
    proof {
        assert(chars@.subrange(0, n as int) =~= host@);
    }
    match ipv4_between(&chars, 0, n) {
        Some(octets) => Ok(TargetAddress { host: HostAddress::V4(octets), port: port as u16 }),
        None => {
            if n < 2 || chars[0] != '[' || chars[n - 1] != ']' {
                return Err(TrafficError::InvalidAddress);
            }
            match zoned_ipv6_between(&chars, 1, n - 1) {
                None => Err(TrafficError::InvalidAddress),
                Some((groups, zone)) => Ok(
                    TargetAddress { host: HostAddress::V6(groups, zone), port: port as u16 },
                ),
            }
        },
    }
}

/// Resolves a host and a port that is still text. The port must be a decimal
/// number, which one plus sign may precede.
pub fn resolve_text(host: &str, port: &str) -> (target: Result<TargetAddress, TrafficError>)
    ensures
        target is Ok <==> is_host(host@) && is_number(without_plus(port@), 10) && number_value(
            without_plus(port@),
            10,
        ) <= MAX_PORT,
        target matches Ok(t) ==> t.port_spec() == number_value(without_plus(port@), 10)
            && t.host_spec().names(host@),
        target matches Err(e) ==> e == TrafficError::InvalidAddress,
{
    match parse_unsigned(port, 65535) {
        None => Err(TrafficError::InvalidAddress),
        Some(number) => resolve(host, number as i64),
    }
}

/// The empty text names no host, so no port makes it resolve.
pub proof fn lemma_empty_host_is_invalid()
    ensures
        !is_host(Seq::<char>::empty()),
{
    assert(split(Seq::<char>::empty(), '.').len() == 1);
}

/// A number of three digits or more that does not begin with a zero is at
/// least a hundred.
proof fn lemma_long_numbers_are_large(s: Seq<char>)
    requires
        all_digits(s, 10),
        s.len() >= 3,
        s[0] != '0',
    ensures
        number_value(s, 10) >= 100,
    decreases s.len(),
{
    let shorter = s.drop_last();
    assert forall|i: int| 0 <= i < shorter.len() implies (#[trigger] digit(shorter[i], 10))
        is Some by {
        assert(shorter[i] == s[i]);
    }
    if s.len() == 3 {
        let first = shorter.drop_last();
        assert(digit(s[0], 10) is Some);
        assert(first.last() == s[0]);
        assert(first.drop_last().len() == 0);
        assert(number_value(first.drop_last(), 10) == 0);
        assert(number_value(first, 10) >= 1);
        assert(number_value(shorter, 10) >= 10);
    } else {
        lemma_long_numbers_are_large(shorter);
    }
}

/// One part of a dotted address has three digits at most.
pub proof fn lemma_octet_is_short(s: Seq<char>)
    requires
        is_octet(s),
    ensures
        1 <= s.len() <= 3,
{
    if s.len() >= 4 {
        let shorter = s.drop_last();
        assert forall|i: int| 0 <= i < shorter.len() implies (#[trigger] digit(shorter[i], 10))
            is Some by {
            assert(shorter[i] == s[i]);
        }
        lemma_long_numbers_are_large(shorter);
    }
}

} // verus!
