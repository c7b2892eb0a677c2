use vstd::prelude::*;

verus! {

/// The two bytes of `x`, least significant first.
pub open spec fn le_bytes_u16(x: u16) -> Seq<u8> {
    seq![x as u8, (x >> 8u16) as u8]
}

/// The two bytes of `x`, most significant first.
pub open spec fn be_bytes_u16(x: u16) -> Seq<u8> {
    seq![(x >> 8u16) as u8, x as u8]
}

/// The eight bytes of `x`, least significant first.
pub open spec fn le_bytes_u64(x: u64) -> Seq<u8> {
    seq![
        x as u8,
        (x >> 8u64) as u8,
        (x >> 16u64) as u8,
        (x >> 24u64) as u8,
        (x >> 32u64) as u8,
        (x >> 40u64) as u8,
        (x >> 48u64) as u8,
        (x >> 56u64) as u8,
    ]
}

/// The eight bytes of `x`, most significant first.
pub open spec fn be_bytes_u64(x: u64) -> Seq<u8> {
    seq![
        (x >> 56u64) as u8,
        (x >> 48u64) as u8,
        (x >> 40u64) as u8,
        (x >> 32u64) as u8,
        (x >> 24u64) as u8,
        (x >> 16u64) as u8,
        (x >> 8u64) as u8,
        x as u8,
    ]
}

/// `s` holds the bytes of `x` in one of the two byte orders a machine may use.
pub open spec fn native_u16(s: Seq<u8>, x: u16) -> bool {
    s == le_bytes_u16(x) || s == be_bytes_u16(x)
}

/// `s` holds the bytes of `x` in one of the two byte orders a machine may use.
pub open spec fn native_u64(s: Seq<u8>, x: u64) -> bool {
    s == le_bytes_u64(x) || s == be_bytes_u64(x)
}

/// Relies on `u16::to_ne_bytes`: the bytes of `x` in the machine's byte order,
/// which is little or big endian.
#[verifier::external_body]
fn u16_native_bytes(x: u16) -> (r: [u8; 2])
    ensures
        native_u16(r@, x),
{
    x.to_ne_bytes()
}

/// Relies on `u64::to_ne_bytes`: the bytes of `x` in the machine's byte order,
/// which is little or big endian.
#[verifier::external_body]
fn u64_native_bytes(x: u64) -> (r: [u8; 8])
    ensures
        native_u64(r@, x),
{
    x.to_ne_bytes()
}

/// Appends the bytes of `s` to `v`.
pub fn push_all(v: &mut Vec<u8>, s: &[u8])
    ensures
        final(v)@ == old(v)@ + s@,
{
    let mut i: usize = 0;
    while i < s.len()
        invariant
            0 <= i <= s@.len(),
            v@ == old(v)@ + s@.subrange(0, i as int),
        decreases s@.len() - i,
    {
        v.push(s[i]);
        i = i + 1;
        assert(s@.subrange(0, i as int) == s@.subrange(0, i - 1 as int).push(s@[i - 1]));
    }
    assert(s@.subrange(0, s@.len() as int) == s@);
}

/// Appends `x` in the machine's byte order.
pub fn push_native_u16(v: &mut Vec<u8>, x: u16)
    ensures
        final(v)@.len() == old(v)@.len() + 2,
        final(v)@.subrange(0, old(v)@.len() as int) == old(v)@,
        native_u16(final(v)@.subrange(old(v)@.len() as int, (old(v)@.len() + 2) as int), x),
{
    let b = u16_native_bytes(x);
    push_all(v, &b);
    assert(final(v)@.subrange(old(v)@.len() as int, (old(v)@.len() + 2) as int) == b@);
}

/// Appends `x` in the machine's byte order.
pub fn push_native_u64(v: &mut Vec<u8>, x: u64)
    ensures
        final(v)@.len() == old(v)@.len() + 8,
        final(v)@.subrange(0, old(v)@.len() as int) == old(v)@,
        native_u64(final(v)@.subrange(old(v)@.len() as int, (old(v)@.len() + 8) as int), x),
{
    let b = u64_native_bytes(x);
    push_all(v, &b);
    assert(final(v)@.subrange(old(v)@.len() as int, (old(v)@.len() + 8) as int) == b@);
}

/// The kernel's timeout specification: seconds, then nanoseconds, each as a
/// 64-bit integer in the machine's byte order.
pub open spec fn is_timespec_layout(s: Seq<u8>, sec: u64, nsec: u32) -> bool {
    &&& s.len() == 16
    &&& native_u64(s.subrange(0, 8), sec)
    &&& native_u64(s.subrange(8, 16), nsec as u64)
}

/// Lays out a timeout of `sec` seconds and `nsec` nanoseconds as the kernel
/// reads it.
pub fn timespec_layout(sec: u64, nsec: u32) -> (r: Vec<u8>)
    ensures
        is_timespec_layout(r@, sec, nsec),
{
    let mut v: Vec<u8> = Vec::new();
    push_native_u64(&mut v, sec);
    let ghost first = v@;
    push_native_u64(&mut v, nsec as u64);
    assert(v@.subrange(0, 8) == first.subrange(0, 8));
    v
}

} // verus!
