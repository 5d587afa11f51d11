use vstd::prelude::*;

verus! {

/// The unsigned value of four little-endian bytes starting at `at`.
pub open spec fn le_u32(b: Seq<u8>, at: int) -> nat {
    (b[at] + 256 * b[at + 1] + 65536 * b[at + 2] + 16777216 * b[at + 3]) as nat
}

/// The signed (two's complement) value of four little-endian bytes
/// starting at `at`.
pub open spec fn le_i32(b: Seq<u8>, at: int) -> int {
    if le_u32(b, at) >= 0x8000_0000 {
        le_u32(b, at) - 0x1_0000_0000
    } else {
        le_u32(b, at) as int
    }
}

/// The unsigned 32-bit pattern of a signed value.
pub open spec fn unsigned_pattern(v: int) -> nat {
    if v < 0 {
        (v + 0x1_0000_0000) as nat
    } else {
        v as nat
    }
}

/// The four little-endian bytes of a 32-bit value, as `to_le_bytes` gives
/// them.
pub open spec fn le_bytes(v: int) -> Seq<u8> {
    let u = unsigned_pattern(v);
    seq![(u % 256) as u8, ((u / 256) % 256) as u8, ((u / 65536) % 256) as u8, ((u / 16777216)
        % 256) as u8]
}

/// Reading back the bytes of a signed 32-bit value gives the value.
pub proof fn lemma_le_i32_round_trip(v: i32)
    ensures
        le_bytes(v as int).len() == 4,
        le_i32(le_bytes(v as int), 0) == v,
        le_u32(le_bytes(v as int), 0) == unsigned_pattern(v as int),
{
    let u = unsigned_pattern(v as int);
    assert(u < 0x1_0000_0000);
    let b = le_bytes(v as int);
    assert(le_u32(b, 0) == u) by (nonlinear_arith)
        requires
            u < 0x1_0000_0000,
            b[0] == u % 256,
            b[1] == (u / 256) % 256,
            b[2] == (u / 65536) % 256,
            b[3] == (u / 16777216) % 256,
    ;
}

/// Reading back the bytes of an unsigned 32-bit value gives the value.
pub proof fn lemma_le_u32_round_trip(v: u32)
    ensures
        le_bytes(v as int).len() == 4,
        le_u32(le_bytes(v as int), 0) == v,
{
    let u = unsigned_pattern(v as int);
    let b = le_bytes(v as int);
    assert(le_u32(b, 0) == u) by (nonlinear_arith)
        requires
            u < 0x1_0000_0000,
            b[0] == u % 256,
            b[1] == (u / 256) % 256,
            b[2] == (u / 65536) % 256,
            b[3] == (u / 16777216) % 256,
    ;
}

/// The four bytes at `at` read as a little-endian signed value.
pub fn read_le_i32(b: &[u8], at: usize) -> (v: i32)
    requires
        at + 4 <= b@.len(),
    ensures
        v as int == le_i32(b@, at as int),
{
    let u: u64 = b[at] as u64 + 256 * (b[at + 1] as u64) + 65536 * (b[at + 2] as u64) + 16777216 * (
    b[at + 3] as u64);
    assert(u == le_u32(b@, at as int));
    if u >= 0x8000_0000 {
        let w: i64 = u as i64 - 0x1_0000_0000;
        w as i32
    } else {
        u as i32
    }
}

/// The four bytes at `at` read as a little-endian unsigned value.
pub fn read_le_u32(b: &[u8], at: usize) -> (v: u32)
    requires
        at + 4 <= b@.len(),
    ensures
        v as nat == le_u32(b@, at as int),
{
    let u: u64 = b[at] as u64 + 256 * (b[at + 1] as u64) + 65536 * (b[at + 2] as u64) + 16777216 * (
    b[at + 3] as u64);
    u as u32
}

/// Appends the four little-endian bytes of a signed value.
pub fn push_le_i32(out: &mut Vec<u8>, v: i32)
    ensures
        final(out)@ == old(out)@ + le_bytes(v as int),
{
    let u: u64 = if v < 0 {
        (v as i64 + 0x1_0000_0000) as u64
    } else {
        v as u64
    };
    assert(u == unsigned_pattern(v as int));
    let ghost start = out@;
    out.push((u % 256) as u8);
    out.push(((u / 256) % 256) as u8);
    out.push(((u / 65536) % 256) as u8);
    out.push(((u / 16777216) % 256) as u8);
    assert(out@ == start + le_bytes(v as int));
}

} // verus!
