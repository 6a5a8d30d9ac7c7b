use vstd::prelude::*;
use vstd::string::StringSliceAdditionalSpecFns;

verus! {

/// ASCII code of the digit `0`.
pub open spec fn zero_code() -> u8 {
    48
}

/// ASCII code of the dot separating the octets of an address.
pub open spec fn dot_code() -> u8 {
    46
}

pub open spec fn is_dec_digit(b: u8) -> bool {
    48 <= b <= 57
}

pub open spec fn all_dec_digits(p: Seq<u8>) -> bool {
    forall|k: int| 0 <= k < p.len() ==> is_dec_digit(#[trigger] p[k])
}

/// Value of a sequence of decimal digit bytes, most significant first.
pub open spec fn dec_nat(p: Seq<u8>) -> nat
    decreases p.len(),
{
    if p.len() == 0 {
        0
    } else {
        dec_nat(p.drop_last()) * 10 + (p.last() - zero_code()) as nat
    }
}

/// A nonempty run of digits whose value is at most `max`.
pub open spec fn valid_dec(p: Seq<u8>, max: nat) -> bool {
    &&& p.len() >= 1
    &&& all_dec_digits(p)
    &&& dec_nat(p) <= max
}

/// Extending a digit run to the right never decreases its value.
proof fn lemma_dec_nat_prefix_le(p: Seq<u8>, i: int, j: int)
    requires
        0 <= i <= j <= p.len(),
    ensures
        dec_nat(p.subrange(0, i)) <= dec_nat(p.subrange(0, j)),
    decreases j - i,
{
    if i < j {
        lemma_dec_nat_prefix_le(p, i, j - 1);
        let q = p.subrange(0, j);
        assert(q.drop_last() =~= p.subrange(0, j - 1));
    }
}

/// Parse the digit run `b[i..j]` as a decimal number of value at most `max`.
pub fn parse_dec(b: &[u8], i: usize, j: usize, max: u32) -> (r: Option<u32>)
    requires
        i <= j <= b@.len(),
    ensures
        r is Some <==> valid_dec(b@.subrange(i as int, j as int), max as nat),
        r is Some ==> r->Some_0 as nat == dec_nat(b@.subrange(i as int, j as int)),
{
    if i == j {
        return None;
    }
    let mut acc: u32 = 0;
    let mut k: usize = i;
    while k < j
        invariant
            i <= k <= j <= b@.len(),
            acc as nat == dec_nat(b@.subrange(i as int, k as int)),
            acc <= max,
            max <= u32::MAX,
            all_dec_digits(b@.subrange(i as int, k as int)),
        decreases j - k,
    {
        let d = b[k];
        if d < 48 || d > 57 {
            proof {
                let p = b@.subrange(i as int, j as int);
                assert(!is_dec_digit(p[k - i]));
            }
            return None;
        }
        proof {
            assert(b@.subrange(i as int, (k + 1) as int).drop_last() =~= b@.subrange(
                i as int,
                k as int,
            ));
            assert(b@.subrange(i as int, (k + 1) as int).last() == b@[k as int]);
        }
        let next: u64 = (acc as u64) * 10 + ((d - 48) as u64);
        if next > max as u64 {
            proof {
                let p = b@.subrange(i as int, j as int);
                assert(p.subrange(0, (k + 1 - i) as int) =~= b@.subrange(i as int, (k + 1) as int));
                assert(p.subrange(0, p.len() as int) =~= p);
                lemma_dec_nat_prefix_le(p, k + 1 - i, p.len() as int);
            }
            return None;
        }
        acc = next as u32;
        k = k + 1;
    }
    proof {
        assert(b@.subrange(i as int, j as int) =~= b@.subrange(i as int, k as int));
    }
    Some(acc)
}

/// A nonempty digit run for a 16-bit port number; leading zeros are accepted.
pub open spec fn valid_port_literal(p: Seq<u8>) -> bool {
    valid_dec(p, 65535)
}

/// Parse a whole string as a port number.
pub fn parse_u16(s: &str) -> (r: Option<u16>)
    ensures
        r is Some <==> valid_port_literal(s.spec_bytes()),
        r is Some ==> r->Some_0 as nat == dec_nat(s.spec_bytes()),
{
    let b = s.as_bytes();
    proof {
        assert(b@.subrange(0, b@.len() as int) =~= b@);
    }
    match parse_dec(b, 0, b.len(), 65535) {
        Some(v) => Some(v as u16),
        None => None,
    }
}

/// One address octet: digits, no leading zero, value at most 255.
pub open spec fn valid_octet(p: Seq<u8>) -> bool {
    &&& valid_dec(p, 255)
    &&& (p.len() > 1 ==> p[0] != zero_code())
}

/// First position at or after `i` holding a dot, or the length if there is none.
pub open spec fn first_dot_from(p: Seq<u8>, i: int) -> int
    decreases p.len() - i,
{
    if i < 0 || i >= p.len() {
        p.len() as int
    } else if p[i] == dot_code() {
        i
    } else {
        first_dot_from(p, i + 1)
    }
}

proof fn lemma_first_dot_from_bounds(p: Seq<u8>, i: int)
    requires
        0 <= i <= p.len(),
    ensures
        i <= first_dot_from(p, i) <= p.len(),
        first_dot_from(p, i) < p.len() ==> p[first_dot_from(p, i)] == dot_code(),
        forall|k: int| i <= k < first_dot_from(p, i) ==> p[k] != dot_code(),
    decreases p.len() - i,
{
    if i < p.len() && p[i] != dot_code() {
        lemma_first_dot_from_bounds(p, i + 1);
    }
}

/// Find the first dot at or after `i`, returning the length if there is none.
fn find_dot(b: &[u8], i: usize) -> (j: usize)
    requires
        i <= b@.len(),
    ensures
        j == first_dot_from(b@, i as int),
        i <= j <= b@.len(),
    decreases b@.len() - i,
{
    proof {
        lemma_first_dot_from_bounds(b@, i as int);
    }
    if i == b.len() {
        i
    } else if b[i] == 46 {
        i
    } else {
        find_dot(b, i + 1)
    }
}

/// An address literal in dotted-quad form: four valid octets joined by dots.
pub open spec fn valid_ipv4_literal(p: Seq<u8>) -> bool {
    let d1 = first_dot_from(p, 0);
    let d2 = first_dot_from(p, d1 + 1);
    let d3 = first_dot_from(p, d2 + 1);
    let d4 = first_dot_from(p, d3 + 1);
    &&& d1 < p.len()
    &&& d2 < p.len()
    &&& d3 < p.len()
    &&& d4 == p.len()
    &&& valid_octet(p.subrange(0, d1))
    &&& valid_octet(p.subrange(d1 + 1, d2))
    &&& valid_octet(p.subrange(d2 + 1, d3))
    &&& valid_octet(p.subrange(d3 + 1, p.len() as int))
}

/// The four octet values of a valid dotted-quad literal.
pub open spec fn ipv4_octets(p: Seq<u8>) -> (nat, nat, nat, nat) {
    let d1 = first_dot_from(p, 0);
    let d2 = first_dot_from(p, d1 + 1);
    let d3 = first_dot_from(p, d2 + 1);
    (
        dec_nat(p.subrange(0, d1)),
        dec_nat(p.subrange(d1 + 1, d2)),
        dec_nat(p.subrange(d2 + 1, d3)),
        dec_nat(p.subrange(d3 + 1, p.len() as int)),
    )
}

/// A parsed host address: four octets, or eight 16-bit groups with a
/// zone index (zero when none was given).
#[derive(Clone, Copy, Debug, PartialEq, Eq)]
pub enum HostAddr {
    V4 { o1: u8, o2: u8, o3: u8, o4: u8 },
    V6 {
        g1: u16,
        g2: u16,
        g3: u16,
        g4: u16,
        g5: u16,
        g6: u16,
        g7: u16,
        g8: u16,
        scope: u32,
    },
}

impl HostAddr {
    /// The numeric parts of the address, in order: the four octets, or
    /// the eight groups.
    pub open spec fn groups(self) -> Seq<nat> {
        match self {
            HostAddr::V4 { o1, o2, o3, o4 } => seq![o1 as nat, o2 as nat, o3 as nat, o4 as nat],
            HostAddr::V6 { g1, g2, g3, g4, g5, g6, g7, g8, .. } => seq![
                g1 as nat,
                g2 as nat,
                g3 as nat,
                g4 as nat,
                g5 as nat,
                g6 as nat,
                g7 as nat,
                g8 as nat,
            ],
        }
    }

    /// The zone index of an IPv6 address; zero for a dotted-quad one.
    pub open spec fn zone(self) -> nat {
        match self {
            HostAddr::V4 { .. } => 0,
            HostAddr::V6 { scope, .. } => scope as nat,
        }
    }
}

/// The four octet values of a valid dotted-quad literal, as a sequence.
pub open spec fn octet_seq(t: (nat, nat, nat, nat)) -> Seq<nat> {
    seq![t.0, t.1, t.2, t.3]
}

/// Parse an address in dotted-quad form; one octet too large, a leading zero,
/// an empty part, or a wrong number of parts all reject the string.
pub fn parse_ipv4(s: &str) -> (r: Option<HostAddr>)
    ensures
        r is Some <==> valid_ipv4_literal(s.spec_bytes()),
        r is Some ==> r->Some_0 is V4 && r->Some_0.groups() == octet_seq(
            ipv4_octets(s.spec_bytes()),
        ),
{
    match parse_quad(s.as_bytes()) {
        Some((o1, o2, o3, o4)) => {
            let h = HostAddr::V4 { o1, o2, o3, o4 };
            proof {
                assert(h.groups() =~= octet_seq(ipv4_octets(s.spec_bytes())));
            }
            Some(h)
        },
        None => None,
    }
}

/// Parse a whole byte slice as a dotted-quad literal.
fn parse_quad(b: &[u8]) -> (r: Option<(u8, u8, u8, u8)>)
    ensures
        r is Some <==> valid_ipv4_literal(b@),
        r is Some ==> ((r->0).0 as nat, (r->0).1 as nat, (r->0).2 as nat, (r->0).3 as nat)
            == ipv4_octets(b@),
{
    let d1 = find_dot(b, 0);
    if d1 == b.len() {
        return None;
    }
    let d2 = find_dot(b, d1 + 1);
    if d2 == b.len() {
        return None;
    }
    let d3 = find_dot(b, d2 + 1);
    if d3 == b.len() {
        return None;
    }
    let d4 = find_dot(b, d3 + 1);
    if d4 != b.len() {
        return None;
    }
    let p1 = parse_octet(b, 0, d1);
    let p2 = parse_octet(b, d1 + 1, d2);
    let p3 = parse_octet(b, d2 + 1, d3);
    let p4 = parse_octet(b, d3 + 1, b.len());
    match (p1, p2, p3, p4) {
        (Some(o1), Some(o2), Some(o3), Some(o4)) => Some((o1, o2, o3, o4)),
        _ => None,
    }
}

/// ASCII code of the colon separating the groups of an IPv6 address.
pub open spec fn colon_code() -> u8 {
    58
}

/// ASCII codes of the brackets around an IPv6 host.
pub open spec fn bracket_open_code() -> u8 {
    91
}

pub open spec fn bracket_close_code() -> u8 {
    93
}

pub open spec fn is_hex_digit(b: u8) -> bool {
    (48 <= b <= 57) || (97 <= b <= 102) || (65 <= b <= 70)
}

pub open spec fn hex_val(b: u8) -> nat {
    if 48 <= b <= 57 {
        (b - 48) as nat
    } else if 97 <= b <= 102 {
        (b - 87) as nat
    } else {
        (b - 55) as nat
    }
}

pub open spec fn all_hex_digits(p: Seq<u8>) -> bool {
    forall|k: int| 0 <= k < p.len() ==> is_hex_digit(#[trigger] p[k])
}

/// Value of a sequence of hexadecimal digit bytes, most significant first.
pub open spec fn hex_nat(p: Seq<u8>) -> nat
    decreases p.len(),
{
    if p.len() == 0 {
        0
    } else {
        hex_nat(p.drop_last()) * 16 + hex_val(p.last())
    }
}

/// One address group: one to four hexadecimal digits.
pub open spec fn valid_hex16(p: Seq<u8>) -> bool {
    &&& 1 <= p.len() <= 4
    &&& all_hex_digits(p)
}

pub open spec fn pow16(n: nat) -> nat
    decreases n,
{
    if n == 0 {
        1
    } else {
        16 * pow16((n - 1) as nat)
    }
}

/// A run of hexadecimal digits stays under sixteen to its length.
proof fn lemma_hex_nat_bound(p: Seq<u8>)
    requires
        all_hex_digits(p),
    ensures
        hex_nat(p) < pow16(p.len()),
    decreases p.len(),
{
    if p.len() > 0 {
        assert(all_hex_digits(p.drop_last())) by {
            assert(forall|k: int|
                0 <= k < p.len() - 1 ==> p.drop_last()[k] == #[trigger] p[k]);
        }
        lemma_hex_nat_bound(p.drop_last());
        assert(is_hex_digit(p.last()));
        assert(hex_val(p.last()) <= 15);
    }
}

/// First position in `[i, j)` holding a colon, or `j` if there is none.
pub open spec fn first_colon_in(p: Seq<u8>, i: int, j: int) -> int
    decreases j - i,
{
    if i < 0 || i >= j || j > p.len() {
        j
    } else if p[i] == colon_code() {
        i
    } else {
        first_colon_in(p, i + 1, j)
    }
}

proof fn lemma_first_colon_in_bounds(p: Seq<u8>, i: int, j: int)
    requires
        0 <= i <= j <= p.len(),
    ensures
        i <= first_colon_in(p, i, j) <= j,
        first_colon_in(p, i, j) < j ==> p[first_colon_in(p, i, j)] == colon_code(),
        forall|k: int| i <= k < first_colon_in(p, i, j) ==> p[k] != colon_code(),
    decreases j - i,
{
    if i < j && p[i] != colon_code() {
        lemma_first_colon_in_bounds(p, i + 1, j);
    }
}

/// Find the first colon in `[i, j)`, returning `j` if there is none.
fn find_colon(b: &[u8], i: usize, j: usize) -> (c: usize)
    requires
        i <= j <= b@.len(),
    ensures
        c == first_colon_in(b@, i as int, j as int),
        i <= c <= j,
    decreases j - i,
{
    proof {
        lemma_first_colon_in_bounds(b@, i as int, j as int);
    }
    if i == j {
        j
    } else if b[i] == 58 {
        i
    } else {
        find_colon(b, i + 1, j)
    }
}

/// First position in `[i, j)` starting two adjacent colons, or `j` if
/// there is none.
pub open spec fn first_dcolon_in(p: Seq<u8>, i: int, j: int) -> int
    decreases j - i,
{
    if i < 0 || i + 1 >= j || j > p.len() {
        j
    } else if p[i] == colon_code() && p[i + 1] == colon_code() {
        i
    } else {
        first_dcolon_in(p, i + 1, j)
    }
}

proof fn lemma_first_dcolon_in_bounds(p: Seq<u8>, i: int, j: int)
    requires
        0 <= i <= j <= p.len(),
    ensures
        i <= first_dcolon_in(p, i, j) <= j,
        first_dcolon_in(p, i, j) < j ==> first_dcolon_in(p, i, j) + 1 < j && p[first_dcolon_in(
            p,
            i,
            j,
        )] == colon_code() && p[first_dcolon_in(p, i, j) + 1] == colon_code(),
    decreases j - i,
{
    if i + 1 < j && !(p[i] == colon_code() && p[i + 1] == colon_code()) {
        lemma_first_dcolon_in_bounds(p, i + 1, j);
    }
}

/// Find the first `::` in `[i, j)`, returning `j` if there is none.
fn find_dcolon(b: &[u8], i: usize, j: usize) -> (c: usize)
    requires
        i <= j <= b@.len(),
    ensures
        c == first_dcolon_in(b@, i as int, j as int),
        i <= c <= j,
    decreases j - i,
{
    proof {
        lemma_first_dcolon_in_bounds(b@, i as int, j as int);
    }
    if j - i < 2 {
        j
    } else if b[i] == 58 && b[i + 1] == 58 {
        i
    } else {
        find_dcolon(b, i + 1, j)
    }
}

/// The colon-separated hexadecimal groups in `[i, j)`: their values in
/// order, or nothing when a part is empty or not hexadecimal.
pub open spec fn hex_groups_in(p: Seq<u8>, i: int, j: int) -> Option<Seq<nat>>
    decreases j - i,
    when 0 <= i <= j <= p.len()
    via hex_groups_in_decreases
{
    let c = first_colon_in(p, i, j);
    if !valid_hex16(p.subrange(i, c)) {
        None
    } else if c == j {
        Some(seq![hex_nat(p.subrange(i, c))])
    } else {
        match hex_groups_in(p, c + 1, j) {
            Some(rest) => Some(seq![hex_nat(p.subrange(i, c))] + rest),
            None => None,
        }
    }
}

#[via_fn]
proof fn hex_groups_in_decreases(p: Seq<u8>, i: int, j: int) {
    lemma_first_colon_in_bounds(p, i, j);
}

/// The colon-separated groups in `[i, j)` where the final part may
/// instead be a dotted-quad tail standing for the last two groups.
pub open spec fn tail_groups_in(p: Seq<u8>, i: int, j: int) -> Option<Seq<nat>>
    decreases j - i,
    when 0 <= i <= j <= p.len()
    via tail_groups_in_decreases
{
    let c = first_colon_in(p, i, j);
    if c == j {
        if valid_hex16(p.subrange(i, c)) {
            Some(seq![hex_nat(p.subrange(i, c))])
        } else if valid_ipv4_literal(p.subrange(i, j)) {
            Some(
                seq![
                    ipv4_octets(p.subrange(i, j)).0 * 256 + ipv4_octets(p.subrange(i, j)).1,
                    ipv4_octets(p.subrange(i, j)).2 * 256 + ipv4_octets(p.subrange(i, j)).3,
                ],
            )
        } else {
            None
        }
    } else if !valid_hex16(p.subrange(i, c)) {
        None
    } else {
        match tail_groups_in(p, c + 1, j) {
            Some(rest) => Some(seq![hex_nat(p.subrange(i, c))] + rest),
            None => None,
        }
    }
}

#[via_fn]
proof fn tail_groups_in_decreases(p: Seq<u8>, i: int, j: int) {
    lemma_first_colon_in_bounds(p, i, j);
}

/// An address in IPv6 group notation over `[i, j)`: eight groups, or
/// fewer with one `::` standing for the elided zero groups, where the
/// final part may be a dotted-quad tail standing for the last two
/// groups. Zone suffixes are not part of this grammar.
pub open spec fn valid_ipv6_in(p: Seq<u8>, i: int, j: int) -> bool {
    let d = first_dcolon_in(p, i, j);
    if d == j {
        match tail_groups_in(p, i, j) {
            Some(g) => g.len() == 8,
            None => false,
        }
    } else {
        let left = if d == i {
            Some(Seq::<nat>::empty())
        } else {
            hex_groups_in(p, i, d)
        };
        let right = if d + 2 == j {
            Some(Seq::<nat>::empty())
        } else {
            tail_groups_in(p, d + 2, j)
        };
        match (left, right) {
            (Some(l), Some(r)) => l.len() + r.len() <= 7,
            _ => false,
        }
    }
}

/// The eight group values, zeros written in for the elision.
pub open spec fn ipv6_groups_in(p: Seq<u8>, i: int, j: int) -> Seq<nat> {
    let d = first_dcolon_in(p, i, j);
    if d == j {
        tail_groups_in(p, i, j)->0
    } else {
        let l = if d == i {
            Seq::<nat>::empty()
        } else {
            hex_groups_in(p, i, d)->0
        };
        let r = if d + 2 == j {
            Seq::<nat>::empty()
        } else {
            tail_groups_in(p, d + 2, j)->0
        };
        l + Seq::new((8 - l.len() - r.len()) as nat, |k: int| 0nat) + r
    }
}

/// Parse the group `b[i..j]` as one to four hexadecimal digits.
fn parse_hex16(b: &[u8], i: usize, j: usize) -> (r: Option<u16>)
    requires
        i <= j <= b@.len(),
    ensures
        r is Some <==> valid_hex16(b@.subrange(i as int, j as int)),
        r is Some ==> r->Some_0 as nat == hex_nat(b@.subrange(i as int, j as int)),
{
    if j - i < 1 || j - i > 4 {
        return None;
    }
    let mut acc: u32 = 0;
    let mut k: usize = i;
    while k < j
        invariant
            i <= k <= j <= b@.len(),
            1 <= j - i <= 4,
            acc as nat == hex_nat(b@.subrange(i as int, k as int)),
            all_hex_digits(b@.subrange(i as int, k as int)),
            acc < 65536,
        decreases j - k,
    {
        let d = b[k];
        let v: u32;
        if 48 <= d && d <= 57 {
            v = (d - 48) as u32;
        } else if 97 <= d && d <= 102 {
            v = (d - 87) as u32;
        } else if 65 <= d && d <= 70 {
            v = (d - 55) as u32;
        } else {
            proof {
                let p = b@.subrange(i as int, j as int);
                assert(!is_hex_digit(p[k - i]));
            }
            return None;
        }
        proof {
            assert(b@.subrange(i as int, (k + 1) as int).drop_last() =~= b@.subrange(
                i as int,
                k as int,
            ));
            assert(b@.subrange(i as int, (k + 1) as int).last() == b@[k as int]);
            lemma_hex_nat_bound(b@.subrange(i as int, k as int));
            assert(pow16(0) == 1);
            assert(pow16(1) == 16);
            assert(pow16(2) == 256);
            assert(pow16(3) == 4096);
            assert(v as nat == hex_val(b@[k as int]));
        }
        acc = acc * 16 + v;
        k = k + 1;
    }
    proof {
        assert(b@.subrange(i as int, j as int) =~= b@.subrange(i as int, k as int));
    }
    Some(acc as u16)
}

/// Parse the colon-separated groups in `b[i..j]`.
fn parse_groups(b: &[u8], i: usize, j: usize) -> (r: Option<Vec<u16>>)
    requires
        i <= j <= b@.len(),
    ensures
        r is Some <==> hex_groups_in(b@, i as int, j as int) is Some,
        r is Some ==> ({
            let g = hex_groups_in(b@, i as int, j as int)->0;
            &&& r->0@.len() == g.len()
            &&& forall|k: int| 0 <= k < g.len() ==> r->0@[k] as nat == #[trigger] g[k]
        }),
    decreases j - i,
{
    let c = find_colon(b, i, j);
    let v = match parse_hex16(b, i, c) {
        Some(v) => v,
        None => {
            return None;
        },
    };
    if c == j {
        let mut out: Vec<u16> = Vec::new();
        out.push(v);
        Some(out)
    } else {
        match parse_groups(b, c + 1, j) {
            Some(mut rest) => {
                rest.insert(0, v);
                proof {
                    let g = hex_groups_in(b@, i as int, j as int)->0;
                    let gr = hex_groups_in(b@, (c + 1) as int, j as int)->0;
                    assert(g =~= seq![hex_nat(b@.subrange(i as int, c as int))] + gr);
                    assert(forall|k: int|
                        0 <= k < g.len() ==> rest@[k] as nat == #[trigger] g[k]);
                }
                Some(rest)
            },
            None => None,
        }
    }
}

/// Parse the colon-separated groups in `b[i..j]`, the final part
/// possibly a dotted-quad tail standing for the last two groups.
fn parse_tail_groups(b: &[u8], i: usize, j: usize) -> (r: Option<Vec<u16>>)
    requires
        i <= j <= b@.len(),
    ensures
        r is Some <==> tail_groups_in(b@, i as int, j as int) is Some,
        r is Some ==> ({
            let g = tail_groups_in(b@, i as int, j as int)->0;
            &&& r->0@.len() == g.len()
            &&& forall|k: int| 0 <= k < g.len() ==> r->0@[k] as nat == #[trigger] g[k]
        }),
    decreases j - i,
{
    let c = find_colon(b, i, j);
    if c == j {
        match parse_hex16(b, i, c) {
            Some(v) => {
                let mut out: Vec<u16> = Vec::new();
                out.push(v);
                Some(out)
            },
            None => {
                let part = vstd::slice::slice_subrange(b, i, j);
                match parse_quad(part) {
                    Some((o1, o2, o3, o4)) => {
                        let mut out: Vec<u16> = Vec::new();
                        out.push((o1 as u16) * 256 + (o2 as u16));
                        out.push((o3 as u16) * 256 + (o4 as u16));
                        proof {
                            let g = tail_groups_in(b@, i as int, j as int)->0;
                            assert(out@[0] as nat == g[0] && out@[1] as nat == g[1]);
                        }
                        Some(out)
                    },
                    None => None,
                }
            },
        }
    } else {
        let v = match parse_hex16(b, i, c) {
            Some(v) => v,
            None => {
                return None;
            },
        };
        match parse_tail_groups(b, c + 1, j) {
            Some(mut rest) => {
                rest.insert(0, v);
                proof {
                    let g = tail_groups_in(b@, i as int, j as int)->0;
                    let gr = tail_groups_in(b@, (c + 1) as int, j as int)->0;
                    assert(g =~= seq![hex_nat(b@.subrange(i as int, c as int))] + gr);
                    assert(forall|k: int|
                        0 <= k < g.len() ==> rest@[k] as nat == #[trigger] g[k]);
                }
                Some(rest)
            },
            None => None,
        }
    }
}

/// Parse the IPv6 group notation in `b[i..j]`.
fn parse_ipv6_in(b: &[u8], i: usize, j: usize, scope: u32) -> (r: Option<HostAddr>)
    requires
        i <= j <= b@.len(),
    ensures
        r is Some <==> valid_ipv6_in(b@, i as int, j as int),
        r is Some ==> r->Some_0 is V6 && r->Some_0.groups() == ipv6_groups_in(
            b@,
            i as int,
            j as int,
        ) && r->Some_0.zone() == scope as nat,
{
    let ghost gspec = ipv6_groups_in(b@, i as int, j as int);
    proof {
        lemma_first_dcolon_in_bounds(b@, i as int, j as int);
    }
    let d = find_dcolon(b, i, j);
    let all: Vec<u16>;
    if d == j {
        let groups = match parse_tail_groups(b, i, j) {
            Some(g) => g,
            None => {
                return None;
            },
        };
        if groups.len() != 8 {
            return None;
        }
        all = groups;
    } else {
        let left: Vec<u16> = if d == i {
            Vec::new()
        } else {
            match parse_groups(b, i, d) {
                Some(g) => g,
                None => {
                    return None;
                },
            }
        };
        let right: Vec<u16> = if d + 2 == j {
            Vec::new()
        } else {
            match parse_tail_groups(b, d + 2, j) {
                Some(g) => g,
                None => {
                    return None;
                },
            }
        };
        if left.len() > 7 {
            return None;
        }
        if right.len() > 7 - left.len() {
            return None;
        }
        let ghost lg = left@;
        let ghost rg = right@;
        let zeros: usize = 8 - left.len() - right.len();
        let mut built = left;
        let mut z: usize = 0;
        while z < zeros
            invariant
                z <= zeros,
                built@.len() == lg.len() + z,
                built@.subrange(0, lg.len() as int) =~= lg,
                forall|k: int| lg.len() <= k < built@.len() ==> built@[k] == 0u16,
            decreases zeros - z,
        {
            built.push(0);
            z = z + 1;
        }
        let mut t: usize = 0;
        while t < right.len()
            invariant
                t <= rg.len(),
                right@ == rg,
                built@.len() == lg.len() + zeros + t,
                built@.subrange(0, lg.len() as int) =~= lg,
                forall|k: int| lg.len() <= k < lg.len() + zeros ==> built@[k] == 0u16,
                built@.subrange((lg.len() + zeros) as int, built@.len() as int) =~= rg.subrange(
                    0,
                    t as int,
                ),
            decreases rg.len() - t,
        {
            built.push(right[t]);
            t = t + 1;
        }
        proof {
            assert(rg.subrange(0, rg.len() as int) =~= rg);
            let l = ipv6_left(b@, i as int, j as int);
            let rr = ipv6_right(b@, i as int, j as int);
            assert(gspec == l + Seq::new((8 - l.len() - rr.len()) as nat, |k: int| 0nat) + rr);
            assert(l.len() == lg.len() && rr.len() == rg.len());
            assert(built@.len() == 8);
            assert(forall|k: int| 0 <= k < built@.len() ==> built@[k] as nat == #[trigger] gspec[k])
                by {
                assert(forall|k: int|
                    0 <= k < lg.len() ==> built@[k] == lg[k] && built@[k] as nat == #[trigger] l[k]);
                assert(forall|k: int|
                    lg.len() + zeros <= k < 8 ==> built@[k] == rg[k - lg.len() - zeros]
                        && built@[k] as nat == #[trigger] rr[k - l.len() - zeros]);
            }
        }
        all = built;
    }
    let h = HostAddr::V6 {
        g1: all[0],
        g2: all[1],
        g3: all[2],
        g4: all[3],
        g5: all[4],
        g6: all[5],
        g7: all[6],
        g8: all[7],
        scope,
    };
    proof {
        assert(h.groups() =~= gspec);
    }
    Some(h)
}

/// The explicit groups to the left and right of the elision; empty
/// sequences where that side is absent or the literal is invalid.
pub open spec fn ipv6_left(p: Seq<u8>, i: int, j: int) -> Seq<nat> {
    let d = first_dcolon_in(p, i, j);
    if d == i {
        Seq::<nat>::empty()
    } else {
        hex_groups_in(p, i, d)->0
    }
}

pub open spec fn ipv6_right(p: Seq<u8>, i: int, j: int) -> Seq<nat> {
    let d = first_dcolon_in(p, i, j);
    if d + 2 == j {
        Seq::<nat>::empty()
    } else {
        tail_groups_in(p, d + 2, j)->0
    }
}

/// ASCII code of the percent sign opening a zone suffix.
pub open spec fn percent_code() -> u8 {
    37
}

/// First position in `[i, j)` holding a percent sign, or `j` if there
/// is none.
pub open spec fn first_pct_in(p: Seq<u8>, i: int, j: int) -> int
    decreases j - i,
{
    if i < 0 || i >= j || j > p.len() {
        j
    } else if p[i] == percent_code() {
        i
    } else {
        first_pct_in(p, i + 1, j)
    }
}

proof fn lemma_first_pct_in_bounds(p: Seq<u8>, i: int, j: int)
    requires
        0 <= i <= j <= p.len(),
    ensures
        i <= first_pct_in(p, i, j) <= j,
        first_pct_in(p, i, j) < j ==> p[first_pct_in(p, i, j)] == percent_code(),
        forall|k: int| i <= k < first_pct_in(p, i, j) ==> p[k] != percent_code(),
    decreases j - i,
{
    if i < j && p[i] != percent_code() {
        lemma_first_pct_in_bounds(p, i + 1, j);
    }
}

/// Find the first percent sign in `[i, j)`, returning `j` if there is
/// none.
fn find_pct(b: &[u8], i: usize, j: usize) -> (c: usize)
    requires
        i <= j <= b@.len(),
    ensures
        c == first_pct_in(b@, i as int, j as int),
        i <= c <= j,
    decreases j - i,
{
    proof {
        lemma_first_pct_in_bounds(b@, i as int, j as int);
    }
    if i == j {
        j
    } else if b[i] == 37 {
        i
    } else {
        find_pct(b, i + 1, j)
    }
}

/// Where the address part of a bracketed IPv6 literal ends: at the
/// first percent sign, or at the closing bracket.
pub open spec fn ipv6_inner_end(p: Seq<u8>) -> int {
    first_pct_in(p, 1, p.len() - 1)
}

/// The zone index given after the percent sign, zero when none is
/// given.
pub open spec fn ipv6_zone(p: Seq<u8>) -> nat {
    if ipv6_inner_end(p) < p.len() - 1 {
        dec_nat(p.subrange(ipv6_inner_end(p) + 1, p.len() - 1))
    } else {
        0
    }
}

/// An IPv6 host literal: the group notation in square brackets, with an
/// optional decimal zone index after a percent sign.
pub open spec fn valid_ipv6_host_literal(p: Seq<u8>) -> bool {
    &&& p.len() >= 2
    &&& p[0] == bracket_open_code()
    &&& p[p.len() - 1] == bracket_close_code()
    &&& valid_ipv6_in(p, 1, ipv6_inner_end(p))
    &&& (ipv6_inner_end(p) < p.len() - 1 ==> valid_dec(
        p.subrange(ipv6_inner_end(p) + 1, p.len() - 1),
        u32::MAX as nat,
    ))
}

/// A host literal: a dotted-quad address, or an IPv6 address in square
/// brackets.
pub open spec fn valid_host_literal(p: Seq<u8>) -> bool {
    valid_ipv4_literal(p) || valid_ipv6_host_literal(p)
}

/// What a parsed host stands for, given the literal it came from.
pub open spec fn host_matches(h: HostAddr, p: Seq<u8>) -> bool {
    if valid_ipv4_literal(p) {
        h is V4 && h.groups() == octet_seq(ipv4_octets(p))
    } else {
        &&& h is V6
        &&& h.groups() == ipv6_groups_in(p, 1, ipv6_inner_end(p))
        &&& h.zone() == ipv6_zone(p)
    }
}

/// A literal that opens with a bracket is no dotted-quad address.
proof fn lemma_bracket_not_ipv4(p: Seq<u8>)
    requires
        p.len() >= 1,
        p[0] == bracket_open_code(),
    ensures
        !valid_ipv4_literal(p),
{
    if valid_ipv4_literal(p) {
        lemma_first_dot_from_bounds(p, 0);
        let d1 = first_dot_from(p, 0);
        assert(valid_octet(p.subrange(0, d1)));
        assert(p.subrange(0, d1).len() >= 1);
        assert(is_dec_digit(p.subrange(0, d1)[0]));
        assert(p.subrange(0, d1)[0] == p[0]);
    }
}

/// Parse a host: a dotted-quad address, or an IPv6 address in square
/// brackets, as the main bind address takes them.
pub fn parse_host(s: &str) -> (r: Option<HostAddr>)
    ensures
        r is Some <==> valid_host_literal(s.spec_bytes()),
        r is Some ==> host_matches(r->Some_0, s.spec_bytes()),
{
    let b = s.as_bytes();
    if b.len() >= 2 && b[0] == 91 {
        proof {
            lemma_bracket_not_ipv4(b@);
        }
        if b[b.len() - 1] != 93 {
            return None;
        }
        let inner_end = find_pct(b, 1, b.len() - 1);
        let scope: u32 = if inner_end == b.len() - 1 {
            0
        } else {
            match parse_dec(b, inner_end + 1, b.len() - 1, u32::MAX) {
                Some(v) => v,
                None => {
                    return None;
                },
            }
        };
        parse_ipv6_in(b, 1, inner_end, scope)
    } else {
        parse_ipv4(s)
    }
}

/// Parse the octet `b[i..j]`, rejecting leading zeros.
fn parse_octet(b: &[u8], i: usize, j: usize) -> (r: Option<u8>)
    requires
        i <= j <= b@.len(),
    ensures
        r is Some <==> valid_octet(b@.subrange(i as int, j as int)),
        r is Some ==> r->Some_0 as nat == dec_nat(b@.subrange(i as int, j as int)),
{
    if i == j {
        return None;
    }
    if j - i > 1 && b[i] == 48 {
        return None;
    }
    match parse_dec(b, i, j, 255) {
        Some(v) => Some(v as u8),
        None => None,
    }
}

} // verus!
