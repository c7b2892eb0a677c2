use crate::error::RingError;
use crate::layout::{be_bytes_u16, native_u16, push_all, push_native_u16};
use vstd::prelude::*;
use vstd::string::StringSliceAdditionalSpecFns;

verus! {

/// The bytes of a decimal digit, `'0'` to `'9'`.
pub open spec fn is_digit(b: u8) -> bool {
    48 <= b <= 57
}

/// The value of a string of decimal digits.
pub open spec fn decimal_value(s: Seq<u8>) -> nat
    decreases s.len(),
{
    if s.len() == 0 {
        0
    } else {
        decimal_value(s.drop_last()) * 10 + (s.last() - 48) as nat
    }
}

/// The pieces of `s` between its `sep` bytes, in order; `s` without a `sep`
/// is one piece.
pub open spec fn split_by(s: Seq<u8>, sep: u8) -> Seq<Seq<u8>>
    decreases s.len(),
{
    if s.len() == 0 {
        seq![Seq::<u8>::empty()]
    } else {
        let rest = split_by(s.drop_last(), sep);
        if s.last() == sep {
            rest.push(Seq::<u8>::empty())
        } else {
            rest.update(rest.len() - 1, rest.last().push(s.last()))
        }
    }
}

/// One field of a dotted IPv4 address: one to three decimal digits, no
/// leading zero unless the field is `0` itself, and a value of at most 255.
pub open spec fn is_octet_field(f: Seq<u8>) -> bool {
    &&& 1 <= f.len() <= 3
    &&& forall|i: int| 0 <= i < f.len() ==> is_digit(#[trigger] f[i])
    &&& (f.len() > 1 ==> f[0] != 48u8)
    &&& decimal_value(f) <= 255
}

/// The four octets that a dotted IPv4 address denotes, or `None` where the
/// text is not one: exactly four dot-separated octet fields.
pub open spec fn parse_ipv4(s: Seq<u8>) -> Option<Seq<u8>> {
    let fields = split_by(s, 46u8);
    if fields.len() == 4 && forall|j: int| 0 <= j < 4 ==> is_octet_field(#[trigger] fields[j]) {
        Some(Seq::new(4, |j: int| decimal_value(fields[j]) as u8))
    } else {
        None
    }
}

/// The views of a sequence of byte vectors.
pub open spec fn views(v: Seq<Vec<u8>>) -> Seq<Seq<u8>> {
    v.map_values(|f: Vec<u8>| f@)
}

/// Cuts `s` at its `sep` bytes.
fn split_on(s: &[u8], sep: u8) -> (r: Vec<Vec<u8>>)
    ensures
        views(r@) == split_by(s@, sep),
{
    let mut done: Vec<Vec<u8>> = Vec::new();
    let mut cur: Vec<u8> = Vec::new();
    let mut i: usize = 0;
    assert(s@.subrange(0, 0) =~= Seq::<u8>::empty());
    assert(views(done@).push(cur@) =~= seq![Seq::<u8>::empty()]);
    while i < s.len()
        invariant
            0 <= i <= s@.len(),
            split_by(s@.subrange(0, i as int), sep) == views(done@).push(cur@),
        decreases s@.len() - i,
    {
        let b = s[i];
        let ghost before = views(done@).push(cur@);
        assert(s@.subrange(0, i + 1).drop_last() =~= s@.subrange(0, i as int));
        if b == sep {
            let ghost old_done = done@;
            done.push(cur);
            cur = Vec::new();
            assert(views(done@) =~= before);
            assert(views(done@).push(cur@) =~= before.push(Seq::<u8>::empty()));
        } else {
            cur.push(b);
            assert(views(done@).push(cur@) =~= before.update(
                before.len() - 1,
                before.last().push(b),
            ));
        }
        i = i + 1;
    }
    assert(s@.subrange(0, s@.len() as int) =~= s@);
    let ghost fin = views(done@).push(cur@);
    done.push(cur);
    assert(views(done@) =~= fin);
    done
}

/// The value of one field of a dotted IPv4 address, or `None` where it is
/// not a valid one.
fn octet_field_value(f: &[u8]) -> (r: Option<u8>)
    ensures
        r matches Some(v) ==> is_octet_field(f@) && v == decimal_value(f@),
        r is None ==> !is_octet_field(f@),
{
    if f.len() == 0 || f.len() > 3 {
        return None;
    }
    if f.len() > 1 && f[0] == 48u8 {
        return None;
    }
    let mut v: u32 = 0;
    let mut i: usize = 0;
    assert(f@.subrange(0, 0) =~= Seq::<u8>::empty());
    while i < f.len()
        invariant
            1 <= f@.len() <= 3,
            0 <= i <= f@.len(),
            v == decimal_value(f@.subrange(0, i as int)),
            i == 0 ==> v == 0,
            i <= 1 ==> v < 10,
            i <= 2 ==> v < 100,
            v < 1000,
            forall|k: int| 0 <= k < i ==> is_digit(#[trigger] f@[k]),
        decreases f@.len() - i,
    {
        let b = f[i];
        if b < 48u8 || b > 57u8 {
            return None;
        }
        assert(f@.subrange(0, i + 1).drop_last() =~= f@.subrange(0, i as int));
        v = v * 10 + (b - 48u8) as u32;
        i = i + 1;
    }
    assert(f@.subrange(0, f@.len() as int) =~= f@);
    if v > 255 {
        None
    } else {
        Some(v as u8)
    }
}

/// The four octets of a dotted IPv4 address, or `None` where `s` is not one.
pub fn parse_ipv4_octets(s: &[u8]) -> (r: Option<[u8; 4]>)
    ensures
        r matches Some(o) ==> parse_ipv4(s@) == Some(o@),
        r is None ==> parse_ipv4(s@) is None,
{
    let fields = split_on(s, 46u8);
    let ghost fs = split_by(s@, 46u8);
    assert(fields@.len() == fs.len());
    if fields.len() != 4 {
        return None;
    }
    assert(fs[0] == fields@[0]@ && fs[1] == fields@[1]@ && fs[2] == fields@[2]@ && fs[3]
        == fields@[3]@);
    let a = match octet_field_value(fields[0].as_slice()) {
        Some(x) => x,
        None => return None,
    };
    let b = match octet_field_value(fields[1].as_slice()) {
        Some(x) => x,
        None => return None,
    };
    let c = match octet_field_value(fields[2].as_slice()) {
        Some(x) => x,
        None => return None,
    };
    let d = match octet_field_value(fields[3].as_slice()) {
        Some(x) => x,
        None => return None,
    };
    let o: [u8; 4] = [a, b, c, d];
    assert(forall|j: int| 0 <= j < 4 ==> is_octet_field(#[trigger] fs[j]));
    assert(o@ =~= Seq::new(4, |j: int| decimal_value(fs[j]) as u8));
    Some(o)
}

/// A hexadecimal digit, in either case.
pub open spec fn is_hex_digit(b: u8) -> bool {
    (48 <= b <= 57) || (65 <= b <= 70) || (97 <= b <= 102)
}

/// The value of a hexadecimal digit.
pub open spec fn hex_digit_value(b: u8) -> nat {
    if 48 <= b <= 57 {
        (b - 48) as nat
    } else if 65 <= b <= 70 {
        (b - 55) as nat
    } else {
        (b - 87) as nat
    }
}

/// The value of a string of hexadecimal digits.
pub open spec fn hex_value(s: Seq<u8>) -> nat
    decreases s.len(),
{
    if s.len() == 0 {
        0
    } else {
        hex_value(s.drop_last()) * 16 + hex_digit_value(s.last())
    }
}

/// One group of an IPv6 address: one to four hexadecimal digits.
pub open spec fn is_hex_field(f: Seq<u8>) -> bool {
    &&& 1 <= f.len() <= 4
    &&& forall|i: int| 0 <= i < f.len() ==> is_hex_digit(#[trigger] f[i])
}

/// The groups that hexadecimal fields denote.
pub open spec fn hex_groups(ps: Seq<Seq<u8>>) -> Seq<u16> {
    Seq::new(ps.len(), |j: int| hex_value(ps[j]) as u16)
}

/// The 16-bit groups that colon-separated `ps` denote: each a hexadecimal
/// field, except that where `v4_last` the last may be a dotted IPv4 address,
/// which stands for two groups. `None` where a piece is neither.
pub open spec fn groups_of(ps: Seq<Seq<u8>>, v4_last: bool) -> Option<Seq<u16>> {
    if forall|j: int| 0 <= j < ps.len() ==> is_hex_field(#[trigger] ps[j]) {
        Some(hex_groups(ps))
    } else if v4_last && ps.len() > 0 && (forall|j: int|
        0 <= j < ps.len() - 1 ==> is_hex_field(#[trigger] ps[j])) && parse_ipv4(ps.last()) is Some {
        let o = parse_ipv4(ps.last())->Some_0;
        Some(
            hex_groups(ps.drop_last()).push((o[0] * 256 + o[1]) as u16).push(
                (o[2] * 256 + o[3]) as u16,
            ),
        )
    } else {
        None
    }
}

/// The colon-separated pieces of `s`; none for an empty `s`.
pub open spec fn colon_pieces(s: Seq<u8>) -> Seq<Seq<u8>> {
    if s.len() == 0 {
        Seq::empty()
    } else {
        split_by(s, 58u8)
    }
}

pub open spec fn is_double_colon_at(s: Seq<u8>, i: int) -> bool {
    0 <= i && i + 1 < s.len() && s[i] == 58u8 && s[i + 1] == 58u8
}

/// `i` is where the first `"::"` of `s` begins.
pub open spec fn is_first_double_colon(s: Seq<u8>, i: int) -> bool {
    is_double_colon_at(s, i) && forall|j: int| 0 <= j < i ==> !is_double_colon_at(s, j)
}

/// The eight groups that a textual IPv6 address denotes, or `None` where the
/// text is not one. Without `"::"` it is eight groups, the last two of which
/// may be written as a dotted IPv4 address. With one, the groups before its
/// first `"::"` (hexadecimal only) and those after it (the last may again be
/// IPv4) number at most seven, and zeros stand for the ones left out.
pub open spec fn parse_ipv6_groups(s: Seq<u8>) -> Option<Seq<u16>> {
    if exists|i: int| is_first_double_colon(s, i) {
        let i = choose|i: int| is_first_double_colon(s, i);
        let head = groups_of(colon_pieces(s.subrange(0, i)), false);
        let tail = groups_of(colon_pieces(s.subrange(i + 2, s.len() as int)), true);
        if head is Some && tail is Some && head->Some_0.len() + tail->Some_0.len() <= 7 {
            let h = head->Some_0;
            let t = tail->Some_0;
            Some(h + Seq::new((8 - h.len() - t.len()) as nat, |k: int| 0u16) + t)
        } else {
            None
        }
    } else {
        match groups_of(colon_pieces(s), true) {
            Some(g) => if g.len() == 8 {
                Some(g)
            } else {
                None
            },
            None => None,
        }
    }
}

/// The sixteen octets of eight groups, each group most significant byte first.
pub open spec fn octets_of_groups(g: Seq<u16>) -> Seq<u8> {
    Seq::new(16, |k: int| if k % 2 == 0 { (g[k / 2] >> 8u16) as u8 } else { g[k / 2] as u8 })
}

/// The sixteen octets that a textual IPv6 address denotes, or `None` where
/// the text is not one.
pub open spec fn parse_ipv6(s: Seq<u8>) -> Option<Seq<u8>> {
    match parse_ipv6_groups(s) {
        Some(g) => Some(octets_of_groups(g)),
        None => None,
    }
}

/// The value of one group of an IPv6 address, or `None` where it is not a
/// valid one.
fn hex_field_value(f: &[u8]) -> (r: Option<u16>)
    ensures
        r matches Some(v) ==> is_hex_field(f@) && v == hex_value(f@),
        r is None ==> !is_hex_field(f@),
{
    if f.len() == 0 || f.len() > 4 {
        return None;
    }
    let mut v: u32 = 0;
    let mut i: usize = 0;
    assert(f@.subrange(0, 0) =~= Seq::<u8>::empty());
    while i < f.len()
        invariant
            1 <= f@.len() <= 4,
            0 <= i <= f@.len(),
            v == hex_value(f@.subrange(0, i as int)),
            i == 0 ==> v == 0,
            i <= 1 ==> v < 16,
            i <= 2 ==> v < 256,
            i <= 3 ==> v < 4096,
            v < 65536,
            forall|k: int| 0 <= k < i ==> is_hex_digit(#[trigger] f@[k]),
        decreases f@.len() - i,
    {
        let b = f[i];
        let d: u32 = if 48u8 <= b && b <= 57u8 {
            (b - 48u8) as u32
        } else if 65u8 <= b && b <= 70u8 {
            (b - 55u8) as u32
        } else if 97u8 <= b && b <= 102u8 {
            (b - 87u8) as u32
        } else {
            return None;
        };
        assert(f@.subrange(0, i + 1).drop_last() =~= f@.subrange(0, i as int));
        v = v * 16 + d;
        i = i + 1;
    }
    assert(f@.subrange(0, f@.len() as int) =~= f@);
    Some(v as u16)
}

/// The groups that the pieces `ps` denote; see `groups_of`.
fn groups_from_pieces(ps: &Vec<Vec<u8>>, v4_last: bool) -> (r: Option<Vec<u16>>)
    ensures
        match groups_of(views(ps@), v4_last) {
            Some(g) => r matches Some(v) && v@ == g,
            None => r is None,
        },
{
    let ghost vs = views(ps@);
    let n = ps.len();
    let mut out: Vec<u16> = Vec::new();
    let mut i: usize = 0;
    while i < n
        invariant
            n == ps@.len(),
            vs == views(ps@),
            0 <= i <= n,
            out@ == hex_groups(vs.subrange(0, i as int)),
            forall|j: int| 0 <= j < i ==> is_hex_field(#[trigger] vs[j]),
        decreases n - i,
    {
        assert(vs[i as int] == ps@[i as int]@);
        match hex_field_value(ps[i].as_slice()) {
            Some(g) => {
                out.push(g);
                assert(out@ =~= hex_groups(vs.subrange(0, i + 1)));
            },
            None => {
                assert(!(forall|j: int| 0 <= j < vs.len() ==> is_hex_field(#[trigger] vs[j])));
                if v4_last && i + 1 == n {
                    match parse_ipv4_octets(ps[i].as_slice()) {
                        Some(o) => {
                            out.push((o[0] as u16) * 256 + (o[1] as u16));
                            out.push((o[2] as u16) * 256 + (o[3] as u16));
                            assert(vs.drop_last() =~= vs.subrange(0, i as int));
                            return Some(out);
                        },
                        None => {
                            return None;
                        },
                    }
                }
                assert(!(forall|j: int|
                    0 <= j < vs.len() - 1 ==> is_hex_field(#[trigger] vs[j])) || !v4_last);
                return None;
            },
        }
        i = i + 1;
    }
    assert(vs.subrange(0, n as int) =~= vs);
    Some(out)
}

/// The bytes of `s` from `a` up to `b`.
fn copy_range(s: &[u8], a: usize, b: usize) -> (r: Vec<u8>)
    requires
        a <= b <= s@.len(),
    ensures
        r@ == s@.subrange(a as int, b as int),
{
    let mut v: Vec<u8> = Vec::new();
    let mut i: usize = a;
    while i < b
        invariant
            a <= i <= b,
            b <= s@.len(),
            v@ == s@.subrange(a as int, i as int),
        decreases b - i,
    {
        v.push(s[i]);
        i = i + 1;
        assert(v@ =~= s@.subrange(a as int, i as int));
    }
    v
}

/// The colon-separated pieces of `s`; see `colon_pieces`.
fn colon_pieces_of(s: &[u8]) -> (r: Vec<Vec<u8>>)
    ensures
        views(r@) == colon_pieces(s@),
{
    if s.len() == 0 {
        let r: Vec<Vec<u8>> = Vec::new();
        assert(views(r@) =~= Seq::<Seq<u8>>::empty());
        r
    } else {
        split_on(s, 58u8)
    }
}

/// Where the first `"::"` of `s` begins, if anywhere.
fn find_double_colon(s: &[u8]) -> (r: Option<usize>)
    ensures
        r matches Some(i) ==> is_first_double_colon(s@, i as int),
        r is None ==> forall|i: int| !is_double_colon_at(s@, i),
{
    let mut i: usize = 0;
    while i < s.len()
        invariant
            0 <= i <= s@.len(),
            forall|j: int| 0 <= j < i ==> !is_double_colon_at(s@, j),
        decreases s@.len() - i,
    {
        if i + 1 < s.len() && s[i] == 58u8 && s[i + 1] == 58u8 {
            return Some(i);
        }
        i = i + 1;
    }
    None
}

/// `h`, then `zeros` zero groups, then `t`.
fn join_groups(h: &Vec<u16>, zeros: usize, t: &Vec<u16>) -> (r: Vec<u16>)
    ensures
        r@ == h@ + Seq::new(zeros as nat, |k: int| 0u16) + t@,
{
    let mut v: Vec<u16> = Vec::new();
    let mut i: usize = 0;
    while i < h.len()
        invariant
            0 <= i <= h@.len(),
            v@ == h@.subrange(0, i as int),
        decreases h@.len() - i,
    {
        v.push(h[i]);
        i = i + 1;
        assert(v@ =~= h@.subrange(0, i as int));
    }
    assert(h@.subrange(0, h@.len() as int) =~= h@);
    let mut k: usize = 0;
    while k < zeros
        invariant
            0 <= k <= zeros,
            v@ == h@ + Seq::new(k as nat, |q: int| 0u16),
        decreases zeros - k,
    {
        v.push(0u16);
        k = k + 1;
        assert(v@ =~= h@ + Seq::new(k as nat, |q: int| 0u16));
    }
    let ghost mid = v@;
    let mut j: usize = 0;
    while j < t.len()
        invariant
            0 <= j <= t@.len(),
            v@ == mid + t@.subrange(0, j as int),
        decreases t@.len() - j,
    {
        v.push(t[j]);
        j = j + 1;
        assert(v@ =~= mid + t@.subrange(0, j as int));
    }
    assert(t@.subrange(0, t@.len() as int) =~= t@);
    v
}

/// The sixteen octets of eight groups.
fn octets_from_groups(g: &Vec<u16>) -> (r: [u8; 16])
    requires
        g@.len() == 8,
    ensures
        r@ == octets_of_groups(g@),
{
    let r: [u8; 16] = [
        (g[0] >> 8u16) as u8,
        g[0] as u8,
        (g[1] >> 8u16) as u8,
        g[1] as u8,
        (g[2] >> 8u16) as u8,
        g[2] as u8,
        (g[3] >> 8u16) as u8,
        g[3] as u8,
        (g[4] >> 8u16) as u8,
        g[4] as u8,
        (g[5] >> 8u16) as u8,
        g[5] as u8,
        (g[6] >> 8u16) as u8,
        g[6] as u8,
        (g[7] >> 8u16) as u8,
        g[7] as u8,
    ];
    assert(r@ =~= octets_of_groups(g@));
    r
}

/// The sixteen octets of a textual IPv6 address, or `None` where `s` is not
/// one.
pub fn parse_ipv6_octets(s: &[u8]) -> (r: Option<[u8; 16]>)
    ensures
        r matches Some(o) ==> parse_ipv6(s@) == Some(o@),
        r is None ==> parse_ipv6(s@) is None,
{
    match find_double_colon(s) {
        Some(i) => {
            proof {
                assert forall|j: int| is_first_double_colon(s@, j) implies j == i as int by {
                    if j < i as int {
                        assert(is_double_colon_at(s@, j));
                    } else if j > i as int {
                        assert(!is_double_colon_at(s@, i as int));
                    }
                }
            }
            let n = s.len();
            assert(is_double_colon_at(s@, i as int));
            let head = copy_range(s, 0, i);
            let tail = copy_range(s, i + 2, n);
            let hp = colon_pieces_of(head.as_slice());
            let tp = colon_pieces_of(tail.as_slice());
            let hg = match groups_from_pieces(&hp, false) {
                Some(g) => g,
                None => return None,
            };
            let tg = match groups_from_pieces(&tp, true) {
                Some(g) => g,
                None => return None,
            };
            if hg.len() > 7 || tg.len() > 7 - hg.len() {
                return None;
            }
            let groups = join_groups(&hg, 8 - hg.len() - tg.len(), &tg);
            Some(octets_from_groups(&groups))
        },
        None => {
            let ps = colon_pieces_of(s);
            let g = match groups_from_pieces(&ps, true) {
                Some(g) => g,
                None => return None,
            };
            if g.len() != 8 {
                return None;
            }
            Some(octets_from_groups(&g))
        },
    }
}

/// The address family of a socket address.
#[derive(Debug, Clone, Copy, PartialEq, Eq, Structural)]
pub enum AddrFamily {
    V4,
    V6,
}

/// Relies on `libc::AF_INET`: the IPv4 address family, 2 on Linux.
#[verifier::external_body]
fn af_inet() -> (r: u16)
    ensures
        r == 2,
{
    libc::AF_INET as u16
}

/// Relies on `libc::AF_INET6`: the IPv6 address family, 10 on Linux.
#[verifier::external_body]
fn af_inet6() -> (r: u16)
    ensures
        r == 10,
{
    libc::AF_INET6 as u16
}

/// The kernel's IPv4 socket address (16 bytes): the family in the machine's
/// byte order, the port in network byte order, the four octets, eight zeros.
pub open spec fn is_sockaddr_in(s: Seq<u8>, octets: Seq<u8>, port: u16) -> bool {
    &&& s.len() == 16
    &&& native_u16(s.subrange(0, 2), 2)
    &&& s.subrange(2, 4) == be_bytes_u16(port)
    &&& s.subrange(4, 8) == octets
    &&& s.subrange(8, 16) == Seq::new(8, |i: int| 0u8)
}

/// The kernel's IPv6 socket address (28 bytes): the family in the machine's
/// byte order, the port in network byte order, a zero flow label, the sixteen
/// octets, a zero scope identifier.
pub open spec fn is_sockaddr_in6(s: Seq<u8>, octets: Seq<u8>, port: u16) -> bool {
    &&& s.len() == 28
    &&& native_u16(s.subrange(0, 2), 10)
    &&& s.subrange(2, 4) == be_bytes_u16(port)
    &&& s.subrange(4, 8) == Seq::new(4, |i: int| 0u8)
    &&& s.subrange(8, 24) == octets
    &&& s.subrange(24, 28) == Seq::new(4, |i: int| 0u8)
}

/// A socket address, held in the layout the kernel reads.
pub struct SockAddr {
    family: AddrFamily,
    layout: Vec<u8>,
}

/// Appends `n` zero bytes.
fn push_zeros(v: &mut Vec<u8>, n: usize)
    ensures
        final(v)@ == old(v)@ + Seq::new(n as nat, |i: int| 0u8),
{
    let mut i: usize = 0;
    while i < n
        invariant
            0 <= i <= n,
            v@ == old(v)@ + Seq::new(i as nat, |k: int| 0u8),
        decreases n - i,
    {
        v.push(0u8);
        i = i + 1;
        assert(v@ == old(v)@ + Seq::new(i as nat, |k: int| 0u8));
    }
}

/// Appends `x` in network byte order.
fn push_be_u16(v: &mut Vec<u8>, x: u16)
    ensures
        final(v)@ == old(v)@ + be_bytes_u16(x),
{
    v.push((x >> 8u16) as u8);
    v.push(x as u8);
    assert(v@ == old(v)@ + be_bytes_u16(x));
}

impl SockAddr {
    /// The layout's length is the one of the family's kernel structure.
    #[verifier::type_invariant]
    spec fn well_formed(self) -> bool {
        match self.family {
            AddrFamily::V4 => self.layout@.len() == 16,
            AddrFamily::V6 => self.layout@.len() == 28,
        }
    }

    pub closed spec fn spec_family(&self) -> AddrFamily {
        self.family
    }

    /// The bytes the kernel reads.
    pub closed spec fn layout(&self) -> Seq<u8> {
        self.layout@
    }

    /// The IPv4 socket address whose dotted text is `ip`, with `port`; fails
    /// with `InvalidAddress` where `ip` is not a dotted IPv4 address.
    pub fn v4(ip: &str, port: u16) -> (r: Result<Self, RingError>)
        ensures
            match parse_ipv4(ip.spec_bytes()) {
                Some(o) => r matches Ok(a) && a.spec_family() == AddrFamily::V4
                    && is_sockaddr_in(a.layout(), o, port),
                None => r == Err::<Self, RingError>(RingError::InvalidAddress),
            },
    {
        match parse_ipv4_octets(ip.as_bytes()) {
            Some(o) => Ok(SockAddr::from_v4_octets(o, port)),
            None => Err(RingError::InvalidAddress),
        }
    }

    /// The IPv6 socket address whose text is `ip`, with `port`; fails with
    /// `InvalidAddress` where `ip` is not a textual IPv6 address.
    pub fn v6(ip: &str, port: u16) -> (r: Result<Self, RingError>)
        ensures
            match parse_ipv6(ip.spec_bytes()) {
                Some(o) => r matches Ok(a) && a.spec_family() == AddrFamily::V6
                    && is_sockaddr_in6(a.layout(), o, port),
                None => r == Err::<Self, RingError>(RingError::InvalidAddress),
            },
    {
        match parse_ipv6_octets(ip.as_bytes()) {
            Some(o) => Ok(SockAddr::from_v6_octets(o, port)),
            None => Err(RingError::InvalidAddress),
        }
    }

    /// The IPv4 socket address of `octets` and `port`.
    pub fn from_v4_octets(octets: [u8; 4], port: u16) -> (r: Self)
        ensures
            r.spec_family() == AddrFamily::V4,
            is_sockaddr_in(r.layout(), octets@, port),
    {
        let mut v: Vec<u8> = Vec::new();
        push_native_u16(&mut v, af_inet());
        let ghost f = v@;
        push_be_u16(&mut v, port);
        let ghost a = v@;
        assert(a.subrange(0, 2) =~= f.subrange(0, 2));
        assert(a.subrange(2, 4) =~= be_bytes_u16(port));
        push_all(&mut v, &octets);
        let ghost b = v@;
        push_zeros(&mut v, 8);
        assert(v@.subrange(0, 2) == a.subrange(0, 2));
        assert(v@.subrange(2, 4) == a.subrange(2, 4));
        assert(v@.subrange(4, 8) == b.subrange(4, 8));
        assert(b.subrange(4, 8) =~= octets@);
        assert(v@.subrange(8, 16) =~= Seq::new(8, |i: int| 0u8));
        SockAddr { family: AddrFamily::V4, layout: v }
    }

    /// The IPv6 socket address of `octets` and `port`.
    pub fn from_v6_octets(octets: [u8; 16], port: u16) -> (r: Self)
        ensures
            r.spec_family() == AddrFamily::V6,
            is_sockaddr_in6(r.layout(), octets@, port),
    {
        let mut v: Vec<u8> = Vec::new();
        push_native_u16(&mut v, af_inet6());
        let ghost f = v@;
        push_be_u16(&mut v, port);
        let ghost a = v@;
        assert(a.subrange(0, 2) =~= f.subrange(0, 2));
        assert(a.subrange(2, 4) =~= be_bytes_u16(port));
        push_zeros(&mut v, 4);
        let ghost b = v@;
        push_all(&mut v, &octets);
        let ghost c = v@;
        push_zeros(&mut v, 4);
        assert(v@.subrange(0, 2) == a.subrange(0, 2));
        assert(v@.subrange(2, 4) == a.subrange(2, 4));
        assert(v@.subrange(4, 8) == b.subrange(4, 8));
        assert(v@.subrange(8, 24) == c.subrange(8, 24));
        assert(b.subrange(4, 8) =~= Seq::new(4, |i: int| 0u8));
        assert(c.subrange(8, 24) =~= octets@);
        assert(v@.subrange(24, 28) =~= Seq::new(4, |i: int| 0u8));
        SockAddr { family: AddrFamily::V6, layout: v }
    }

    pub fn family(&self) -> (r: AddrFamily)
        ensures
            r == self.spec_family(),
    {
        self.family
    }

    /// The bytes to hand to the kernel, and their number.
    pub fn as_bytes_and_len(&self) -> (r: (&[u8], u32))
        ensures
            r.0@ == self.layout(),
            r.1 == self.layout().len(),
    {
        proof {
            use_type_invariant(self);
        }
        (self.layout.as_slice(), self.layout.len() as u32)
    }

    /// A second socket address with the same family and layout.
    pub fn duplicate(&self) -> (r: Self)
        ensures
            r.spec_family() == self.spec_family(),
            r.layout() == self.layout(),
    {
        proof {
            use_type_invariant(self);
        }
        let mut v: Vec<u8> = Vec::new();
        push_all(&mut v, self.layout.as_slice());
        SockAddr { family: self.family, layout: v }
    }

    /// Gives up the bytes, for pinning.
    pub fn into_layout(self) -> (r: Vec<u8>)
        ensures
            r@ == self.layout(),
    {
        self.layout
    }
}

} // verus!
