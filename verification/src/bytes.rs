//! Little-endian readers over byte slices.
//!
//! Every reader takes the slice and a byte offset and returns the value
//! together with the offset just past it, or `None` when the slice is too
//! short.
use vstd::prelude::*;

verus! {

/// The unsigned value of `n` bytes of `s` starting at `pos`, least
/// significant byte first.
pub open spec fn le_uint(s: Seq<u8>, pos: int, n: nat) -> nat
    decreases n,
{
    if n == 0 {
        0
    } else {
        (s[pos] as nat) + 256 * le_uint(s, pos + 1, (n - 1) as nat)
    }
}

/// The little-endian number that the four bytes of `s` at `p` spell.
pub open spec fn le_bytes4(s: Seq<u8>, p: int) -> int {
    s[p] + 256 * s[p + 1] + 65536 * s[p + 2] + 16777216 * s[p + 3]
}

/// The two's complement reading of an unsigned value taken modulo `m`
/// (`m` is 2 to the power of the width in bits).
pub open spec fn as_signed(v: nat, m: int) -> int {
    if v >= m / 2 {
        v - m
    } else {
        v as int
    }
}

proof fn lemma_le_uint_unfold(s: Seq<u8>, pos: int)
    ensures
        le_uint(s, pos, 1) == s[pos] as nat,
        le_uint(s, pos, 2) == s[pos] + 256 * s[pos + 1],
        le_uint(s, pos, 4) == s[pos] + 256 * s[pos + 1] + 65536 * s[pos + 2] + 16777216 * s[pos + 3],
        le_uint(s, pos, 8) == s[pos] + 256 * s[pos + 1] + 65536 * s[pos + 2] + 16777216 * s[pos + 3]
            + 4294967296 * s[pos + 4] + 1099511627776 * s[pos + 5] + 281474976710656 * s[pos + 6]
            + 72057594037927936 * s[pos + 7],
{
    reveal_with_fuel(le_uint, 9);
}

/// Reads one byte.
pub fn read_u8(data: &[u8], pos: usize) -> (r: Option<(u8, usize)>)
    ensures
        r is Some <==> pos + 1 <= data@.len(),
        r matches Some((v, np)) ==> v as nat == le_uint(data@, pos as int, 1) && np == pos + 1,
{
    proof {
        lemma_le_uint_unfold(data@, pos as int);
    }
    if pos < data.len() {
        Some((data[pos], pos + 1))
    } else {
        None
    }
}

/// Reads a little-endian `u16`.
pub fn read_u16(data: &[u8], pos: usize) -> (r: Option<(u16, usize)>)
    ensures
        r is Some <==> pos + 2 <= data@.len(),
        r matches Some((v, np)) ==> v as nat == le_uint(data@, pos as int, 2) && np == pos + 2,
{
    proof {
        lemma_le_uint_unfold(data@, pos as int);
    }
    if pos <= data.len() && 2 <= data.len() - pos {
        let v: u16 = data[pos] as u16 + 256 * (data[pos + 1] as u16);
        Some((v, pos + 2))
    } else {
        None
    }
}

/// Reads a little-endian `u32`.
pub fn read_u32(data: &[u8], pos: usize) -> (r: Option<(u32, usize)>)
    ensures
        r is Some <==> pos + 4 <= data@.len(),
        r matches Some((v, np)) ==> v as nat == le_uint(data@, pos as int, 4) && np == pos + 4,
{
    proof {
        lemma_le_uint_unfold(data@, pos as int);
    }
    if pos <= data.len() && 4 <= data.len() - pos {
        let v: u32 = data[pos] as u32 + 256 * (data[pos + 1] as u32) + 65536 * (data[pos + 2] as u32)
            + 16777216 * (data[pos + 3] as u32);
        Some((v, pos + 4))
    } else {
        None
    }
}

/// Reads a little-endian `u64`.
pub fn read_u64(data: &[u8], pos: usize) -> (r: Option<(u64, usize)>)
    ensures
        r is Some <==> pos + 8 <= data@.len(),
        r matches Some((v, np)) ==> v as nat == le_uint(data@, pos as int, 8) && np == pos + 8,
{
    proof {
        lemma_le_uint_unfold(data@, pos as int);
    }
    if pos <= data.len() && 8 <= data.len() - pos {
        let v: u64 = data[pos] as u64 + 256 * (data[pos + 1] as u64) + 65536 * (data[pos + 2] as u64)
            + 16777216 * (data[pos + 3] as u64) + 4294967296 * (data[pos + 4] as u64)
            + 1099511627776 * (data[pos + 5] as u64) + 281474976710656 * (data[pos + 6] as u64)
            + 72057594037927936 * (data[pos + 7] as u64);
        Some((v, pos + 8))
    } else {
        None
    }
}

/// Reads a two's complement `i8`.
pub fn read_i8(data: &[u8], pos: usize) -> (r: Option<(i8, usize)>)
    ensures
        r is Some <==> pos + 1 <= data@.len(),
        r matches Some((v, np)) ==> v as int == as_signed(le_uint(data@, pos as int, 1), 256) && np
            == pos + 1,
{
    match read_u8(data, pos) {
        Some((u, np)) => {
            let v: i8 = if u >= 128 {
                (u as i16 - 256) as i8
            } else {
                u as i8
            };
            Some((v, np))
        },
        None => None,
    }
}

/// Reads a little-endian two's complement `i16`.
pub fn read_i16(data: &[u8], pos: usize) -> (r: Option<(i16, usize)>)
    ensures
        r is Some <==> pos + 2 <= data@.len(),
        r matches Some((v, np)) ==> v as int == as_signed(le_uint(data@, pos as int, 2), 0x1_0000) && np
            == pos + 2,
{
    match read_u16(data, pos) {
        Some((u, np)) => {
            let v: i16 = if u >= 32768 {
                (u as i32 - 65536) as i16
            } else {
                u as i16
            };
            Some((v, np))
        },
        None => None,
    }
}

/// Reads a little-endian two's complement `i32`.
pub fn read_i32(data: &[u8], pos: usize) -> (r: Option<(i32, usize)>)
    ensures
        r is Some <==> pos + 4 <= data@.len(),
        r matches Some((v, np)) ==> v as int == as_signed(le_uint(data@, pos as int, 4), 0x1_0000_0000) && np
            == pos + 4,
{
    match read_u32(data, pos) {
        Some((u, np)) => {
            let v: i32 = if u >= 0x8000_0000 {
                (u as i64 - 0x1_0000_0000) as i32
            } else {
                u as i32
            };
            Some((v, np))
        },
        None => None,
    }
}

/// Reads a little-endian two's complement `i64`.
pub fn read_i64(data: &[u8], pos: usize) -> (r: Option<(i64, usize)>)
    ensures
        r is Some <==> pos + 8 <= data@.len(),
        r matches Some((v, np)) ==> v as int == as_signed(le_uint(data@, pos as int, 8), 0x1_0000_0000_0000_0000) && np
            == pos + 8,
{
    match read_u64(data, pos) {
        Some((u, np)) => {
            let v: i64 = if u >= 0x8000_0000_0000_0000 {
                (u as i128 - 0x1_0000_0000_0000_0000) as i64
            } else {
                u as i64
            };
            Some((v, np))
        },
        None => None,
    }
}

/// Copies `n` bytes starting at `pos`.
pub fn take(data: &[u8], pos: usize, n: usize) -> (r: Option<(Vec<u8>, usize)>)
    ensures
        r is Some <==> pos + n <= data@.len(),
        r matches Some((v, np)) ==> v@ == data@.subrange(pos as int, pos + n) && np == pos + n,
{
    if pos <= data.len() && n <= data.len() - pos {
        let mut out: Vec<u8> = Vec::with_capacity(n);
        let end = pos + n;
        let mut i: usize = pos;
        while i < end
            invariant
                end == pos + n,
                pos <= i <= end <= data@.len(),
                out@ == data@.subrange(pos as int, i as int),
            decreases end - i,
        {
            out.push(data[i]);
            i = i + 1;
        }
        Some((out, pos + n))
    } else {
        None
    }
}


/// The `n` little-endian `u32` values of `s` that start at `pos`.
pub open spec fn u32_seq(s: Seq<u8>, pos: int, n: nat) -> Seq<u32> {
    Seq::new(n, |i: int| le_uint(s, pos + 4 * i, 4) as u32)
}

/// Reads a `u32` count and then that many `u32` values.
pub fn read_u32_list(data: &[u8], pos: usize) -> (r: Option<(Vec<u32>, usize)>)
    ensures
        r is Some <==> pos + 4 <= data@.len() && pos + 4 + 4 * le_uint(data@, pos as int, 4) <= data@.len(),
        r matches Some((v, np)) ==> v@ == u32_seq(data@, pos + 4, le_uint(data@, pos as int, 4))
            && np == pos + 4 + 4 * le_uint(data@, pos as int, 4),
{
    let (n, p) = match read_u32(data, pos) {
        Some(x) => x,
        None => return None,
    };
    if (data.len() - p) / 4 < n as usize {
        return None;
    }
    let mut out: Vec<u32> = Vec::new();
    let mut k: u32 = 0;
    let mut q: usize = p;
    while k < n
        invariant
            k <= n,
            p == pos + 4,
            n as nat == le_uint(data@, pos as int, 4),
            p + 4 * (n as int) <= data@.len(),
            q == p + 4 * (k as int),
            out@ == u32_seq(data@, p as int, k as nat),
        decreases n - k,
    {
        let (v, nq) = match read_u32(data, q) {
            Some(x) => x,
            None => return None,
        };
        proof {
            assert(out@.push(v) =~= u32_seq(data@, p as int, (k + 1) as nat));
        }
        out.push(v);
        q = nq;
        k = k + 1;
    }
    Some((out, q))
}

} // verus!
