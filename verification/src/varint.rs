//! Variable-width integers of the compact level encoding. An unsigned value
//! up to 250 is one byte; larger values carry a marker byte (251, 252, 253)
//! followed by their 2-, 4- or 8-byte little-endian form. Signed values are
//! first folded to unsigned by the zigzag mapping. Decoding accepts any
//! well-formed byte shape, also a wider-than-necessary one.

use vstd::arithmetic::div_mod::lemma_fundamental_div_mod;
use vstd::assert_seqs_equal;
use vstd::prelude::*;

verus! {

/// 256 to the `n`th power.
pub open spec fn pow256(n: nat) -> int
    decreases n,
{
    if n == 0 {
        1
    } else {
        256 * pow256((n - 1) as nat)
    }
}

/// The `n`-byte little-endian form of `v`.
pub open spec fn spec_le_bytes(v: int, n: nat) -> Seq<u8>
    decreases n,
{
    if n == 0 {
        Seq::empty()
    } else {
        seq![(v % 256) as u8] + spec_le_bytes(v / 256, (n - 1) as nat)
    }
}

/// The value of the `n` little-endian bytes of `b` starting at `i`.
pub open spec fn spec_le(b: Seq<u8>, i: int, n: nat) -> int
    decreases n,
{
    if n == 0 {
        0
    } else {
        b[i] + 256 * spec_le(b, i + 1, (n - 1) as nat)
    }
}

/// The marker byte threshold: values up to this stand alone.
pub const SINGLE_BYTE_MAX: u8 = 250;

/// The bytes of `v` in the variable-width encoding.
pub open spec fn spec_varint(v: u64) -> Seq<u8> {
    if v <= SINGLE_BYTE_MAX as u64 {
        seq![v as u8]
    } else if v <= 0xFFFF {
        seq![251u8] + spec_le_bytes(v as int, 2)
    } else if v <= 0xFFFF_FFFF {
        seq![252u8] + spec_le_bytes(v as int, 4)
    } else {
        seq![253u8] + spec_le_bytes(v as int, 8)
    }
}

/// What reading a variable-width integer at `i` yields: the value and the
/// position after it, or nothing when the bytes run out or the marker is
/// foreign (254 and 255 belong to no shape this format defines).
pub open spec fn spec_parse_varint(b: Seq<u8>, i: int) -> Option<(u64, int)> {
    if 0 <= i < b.len() {
        let d = b[i];
        if d <= 250 {
            Some((d as u64, i + 1))
        } else if d == 251 && i + 3 <= b.len() {
            Some((spec_le(b, i + 1, 2) as u64, i + 3))
        } else if d == 252 && i + 5 <= b.len() {
            Some((spec_le(b, i + 1, 4) as u64, i + 5))
        } else if d == 253 && i + 9 <= b.len() {
            Some((spec_le(b, i + 1, 8) as u64, i + 9))
        } else {
            None
        }
    } else {
        None
    }
}

/// The zigzag fold of a signed value onto the unsigned line:
/// 0, -1, 1, -2, 2, ... map to 0, 1, 2, 3, 4, ...
pub open spec fn spec_zigzag(x: int) -> int {
    if x >= 0 {
        2 * x
    } else {
        -2 * x - 1
    }
}

/// The inverse of the zigzag fold.
pub open spec fn spec_unzigzag(v: int) -> int {
    if v % 2 == 0 {
        v / 2
    } else {
        -((v + 1) / 2)
    }
}

/// The bytes of a signed 32-bit value: its zigzag fold, variable-width.
pub open spec fn spec_varint_i32(x: i32) -> Seq<u8> {
    spec_varint(spec_zigzag(x as int) as u64)
}

/// What reading a signed 32-bit value at `i` yields; a value outside the
/// 32-bit range is refused.
pub open spec fn spec_parse_i32(b: Seq<u8>, i: int) -> Option<(i32, int)> {
    match spec_parse_varint(b, i) {
        Some((v, j)) => {
            let x = spec_unzigzag(v as int);
            if i32::MIN <= x <= i32::MAX {
                Some((x as i32, j))
            } else {
                None
            }
        },
        None => None,
    }
}

/// Unfolding the zigzag fold gives the value back.
pub proof fn lemma_zigzag_roundtrip(x: int)
    ensures
        spec_unzigzag(spec_zigzag(x)) == x,
{
    if x >= 0 {
        assert((2 * x) % 2 == 0);
        assert((2 * x) / 2 == x);
    } else {
        assert((-2 * x - 1) % 2 == 1);
        assert((-2 * x - 1 + 1) / 2 == -x);
    }
}

/// The zigzag fold of a 32-bit value fits in 32 unsigned bits.
pub proof fn lemma_zigzag_bounds(x: i32)
    ensures
        0 <= spec_zigzag(x as int) <= 0xFFFF_FFFF,
{
}

/// Little-endian bytes hold their value and nothing else.
pub proof fn lemma_le_roundtrip(b: Seq<u8>, i: int, v: int, n: nat)
    requires
        0 <= v < pow256(n),
        0 <= i,
        i + n <= b.len(),
        b.subrange(i, i + n) == spec_le_bytes(v, n),
    ensures
        spec_le(b, i, n) == v,
    decreases n,
{
    if n == 0 {
        assert(pow256(0) == 1);
    } else {
        let m: nat = (n - 1) as nat;
        assert(spec_le_bytes(v, n) == seq![(v % 256) as u8] + spec_le_bytes(v / 256, m));
        assert(b[i] == b.subrange(i, i + n)[0]);
        assert(b[i] == (v % 256) as u8);
        assert_seqs_equal!(b.subrange(i + 1, i + n) == spec_le_bytes(v / 256, m), k => {
            assert(b.subrange(i + 1, i + n)[k] == b.subrange(i, i + n)[k + 1]);
            assert(b.subrange(i, i + n)[k + 1] == spec_le_bytes(v, n)[k + 1]);
        });
        assert(v / 256 < pow256(m)) by (nonlinear_arith)
            requires
                0 <= v < pow256(n),
                pow256(n) == 256 * pow256(m),
        ;
        lemma_le_roundtrip(b, i + 1, v / 256, m);
        lemma_fundamental_div_mod(v, 256);
    }
}

/// The `n`-byte form is `n` bytes long.
pub proof fn lemma_le_bytes_len(v: int, n: nat)
    ensures
        spec_le_bytes(v, n).len() == n,
    decreases n,
{
    if n > 0 {
        lemma_le_bytes_len(v / 256, (n - 1) as nat);
    }
}

/// The value of `n` little-endian bytes is nonnegative and below 256^n.
pub proof fn lemma_le_bounds(b: Seq<u8>, i: int, n: nat)
    ensures
        0 <= spec_le(b, i, n) < pow256(n),
    decreases n,
{
    if n == 0 {
    } else {
        let m: nat = (n - 1) as nat;
        lemma_le_bounds(b, i + 1, m);
        assert(b[i] < 256);
        assert(b[i] + 256 * spec_le(b, i + 1, m) < 256 * pow256(m)) by (nonlinear_arith)
            requires
                0 <= spec_le(b, i + 1, m) < pow256(m),
                0 <= b[i] < 256,
        ;
    }
}

/// Spells out the powers of 256 the format's shapes use.
pub proof fn lemma_pow256_values()
    ensures
        pow256(0) == 1,
        pow256(1) == 0x100,
        pow256(2) == 0x1_0000,
        pow256(3) == 0x100_0000,
        pow256(4) == 0x1_0000_0000,
        pow256(5) == 0x100_0000_0000,
        pow256(6) == 0x1_0000_0000_0000,
        pow256(7) == 0x100_0000_0000_0000,
        pow256(8) == 0x1_0000_0000_0000_0000,
{
    assert(pow256(0) == 1);
    assert(pow256(1) == 0x100);
    assert(pow256(2) == 0x1_0000);
    assert(pow256(3) == 0x100_0000);
    assert(pow256(4) == 0x1_0000_0000);
    assert(pow256(5) == 0x100_0000_0000);
    assert(pow256(6) == 0x1_0000_0000_0000);
    assert(pow256(7) == 0x100_0000_0000_0000);
    assert(pow256(8) == 0x1_0000_0000_0000_0000);
}

/// Reading back an embedded variable-width integer yields the encoded value
/// and stops right after it.
pub proof fn lemma_varint_roundtrip(b: Seq<u8>, i: int, v: u64)
    requires
        0 <= i,
        i + spec_varint(v).len() <= b.len(),
        b.subrange(i, i + spec_varint(v).len()) == spec_varint(v),
    ensures
        spec_parse_varint(b, i) == Some((v, i + spec_varint(v).len())),
{
    lemma_pow256_values();
    if v <= 250 {
        assert(b[i] == b.subrange(i, i + 1)[0]);
    } else {
        let n: nat = if v <= 0xFFFF {
            2
        } else if v <= 0xFFFF_FFFF {
            4
        } else {
            8
        };
        let enc = spec_varint(v);
        lemma_le_bytes_len(v as int, n);
        assert(enc == seq![enc[0]] + spec_le_bytes(v as int, n));
        assert(enc.len() == 1 + n);
        assert(b[i] == b.subrange(i, i + enc.len())[0]);
        assert_seqs_equal!(b.subrange(i + 1, i + 1 + n) == spec_le_bytes(v as int, n), k => {
            assert(b.subrange(i + 1, i + 1 + n)[k] == b.subrange(i, i + enc.len())[k + 1]);
            assert(b.subrange(i, i + enc.len())[k + 1] == enc[k + 1]);
        });
        lemma_le_roundtrip(b, i + 1, v as int, n);
    }
}

/// Appends the `n`-byte little-endian form of `v`.
fn push_le_bytes(out: &mut Vec<u8>, v: u64, n: usize)
    ensures
        final(out)@ == old(out)@ + spec_le_bytes(v as int, n as nat),
{
    let mut x: u64 = v;
    let mut k: usize = 0;
    while k < n
        invariant
            0 <= k <= n,
            old(out)@ + spec_le_bytes(v as int, n as nat) == out@ + spec_le_bytes(
                x as int,
                (n - k) as nat,
            ),
        decreases n - k,
    {
        let ghost rest = (n - k) as nat;
        out.push((x % 256) as u8);
        proof {
            assert(spec_le_bytes(x as int, rest) == seq![(x as int % 256) as u8] + spec_le_bytes(
                x as int / 256,
                (rest - 1) as nat,
            ));
            assert((x as int) % 256 == (x % 256) as int);
            assert((x as int) / 256 == (x / 256) as int);
        }
        x = x / 256;
        k = k + 1;
    }
    proof {
        assert(spec_le_bytes(x as int, 0) == Seq::<u8>::empty());
        assert(out@ + Seq::<u8>::empty() =~= out@);
        assert(old(out)@ + spec_le_bytes(v as int, n as nat) =~= out@);
    }
}

/// Appends the variable-width form of `v`.
pub fn encode_varint(out: &mut Vec<u8>, v: u64)
    ensures
        final(out)@ == old(out)@ + spec_varint(v),
{
    if v <= 250 {
        out.push(v as u8);
        proof {
            assert(old(out)@ + spec_varint(v) =~= out@);
        }
    } else if v <= 0xFFFF {
        out.push(251);
        push_le_bytes(out, v, 2);
        proof {
            assert(out@ =~= old(out)@ + spec_varint(v));
        }
    } else if v <= 0xFFFF_FFFF {
        out.push(252);
        push_le_bytes(out, v, 4);
        proof {
            assert(out@ =~= old(out)@ + spec_varint(v));
        }
    } else {
        out.push(253);
        push_le_bytes(out, v, 8);
        proof {
            assert(out@ =~= old(out)@ + spec_varint(v));
        }
    }
}

/// Appends the variable-width form of a signed 32-bit value.
pub fn encode_varint_i32(out: &mut Vec<u8>, x: i32)
    ensures
        final(out)@ == old(out)@ + spec_varint_i32(x),
{
    let xi: i64 = x as i64;
    let z: u64 = if xi >= 0 {
        (2 * xi) as u64
    } else {
        let m: i64 = -xi;
        (2 * m - 1) as u64
    };
    proof {
        assert(z == spec_zigzag(x as int));
    }
    encode_varint(out, z);
}

/// Reads the `n` little-endian bytes at `pos` back into a value.
fn read_le_bytes(b: &Vec<u8>, pos: usize, n: usize) -> (r: u64)
    requires
        n <= 8,
        pos + n <= b@.len(),
    ensures
        r == spec_le(b@, pos as int, n as nat),
{
    proof {
        lemma_pow256_values();
    }
    let len: usize = b.len();
    let mut acc: u64 = 0;
    let mut k: usize = n;
    while k > 0
        invariant
            0 <= k <= n <= 8,
            pos + n <= b@.len(),
            len == b@.len(),
            acc == spec_le(b@, pos + k, (n - k) as nat),
            acc < pow256((n - k) as nat),
            pow256(0) == 1,
            pow256(1) == 0x100,
            pow256(2) == 0x1_0000,
            pow256(3) == 0x100_0000,
            pow256(4) == 0x1_0000_0000,
            pow256(5) == 0x100_0000_0000,
            pow256(6) == 0x1_0000_0000_0000,
            pow256(7) == 0x100_0000_0000_0000,
            pow256(8) == 0x1_0000_0000_0000_0000,
        decreases k,
    {
        k = k - 1;
        let byte: u8 = b[pos + k];
        proof {
            assert(acc * 256 + byte < pow256((n - k) as nat)) by (nonlinear_arith)
                requires
                    acc < pow256((n - k - 1) as nat),
                    pow256((n - k) as nat) == 256 * pow256((n - k - 1) as nat),
                    byte < 256,
                    acc >= 0,
            ;
        }
        acc = acc * 256 + (byte as u64);
        proof {
            lemma_le_bounds(b@, pos + k + 1, (n - k - 1) as nat);
            assert(spec_le(b@, pos + k, (n - k) as nat) == b@[pos + k] + 256 * spec_le(
                b@,
                pos + k + 1,
                (n - k - 1) as nat,
            ));
        }
    }
    acc
}

/// Reads one variable-width integer at `pos`; yields the value and the
/// position after it, or nothing on truncated input or a foreign marker.
pub fn read_varint(b: &Vec<u8>, pos: usize) -> (r: Option<(u64, usize)>)
    ensures
        match r {
            Some((v, p)) => spec_parse_varint(b@, pos as int) == Some((v, p as int)),
            None => spec_parse_varint(b@, pos as int) is None,
        },
{
    if pos >= b.len() {
        return None;
    }
    let d: u8 = b[pos];
    if d <= 250 {
        Some((d as u64, pos + 1))
    } else if d == 251 {
        if b.len() - pos >= 3 {
            let v = read_le_bytes(b, pos + 1, 2);
            proof {
                lemma_le_bounds(b@, pos + 1, 2);
            }
            Some((v, pos + 3))
        } else {
            None
        }
    } else if d == 252 {
        if b.len() - pos >= 5 {
            let v = read_le_bytes(b, pos + 1, 4);
            proof {
                lemma_le_bounds(b@, pos + 1, 4);
            }
            Some((v, pos + 5))
        } else {
            None
        }
    } else if d == 253 {
        if b.len() - pos >= 9 {
            let v = read_le_bytes(b, pos + 1, 8);
            proof {
                lemma_le_bounds(b@, pos + 1, 8);
                lemma_pow256_values();
            }
            Some((v, pos + 9))
        } else {
            None
        }
    } else {
        None
    }
}

/// Reads one signed 32-bit value at `pos`.
pub fn read_varint_i32(b: &Vec<u8>, pos: usize) -> (r: Option<(i32, usize)>)
    ensures
        match r {
            Some((x, p)) => spec_parse_i32(b@, pos as int) == Some((x, p as int)),
            None => spec_parse_i32(b@, pos as int) is None,
        },
{
    let Some((v, p)) = read_varint(b, pos) else {
        return None;
    };
    let x: i64 = if v % 2 == 0 {
        (v / 2) as i64
    } else {
        -((v / 2) as i64) - 1
    };
    proof {
        assert(v % 2 != 0 ==> (v as int + 1) / 2 == v as int / 2 + 1);
        assert(x == spec_unzigzag(v as int));
    }
    if x >= -0x8000_0000i64 && x <= 0x7FFF_FFFFi64 {
        Some((x as i32, p))
    } else {
        None
    }
}

/// Reading back an embedded signed 32-bit value yields it unchanged.
pub proof fn lemma_varint_i32_roundtrip(b: Seq<u8>, i: int, x: i32)
    requires
        0 <= i,
        i + spec_varint_i32(x).len() <= b.len(),
        b.subrange(i, i + spec_varint_i32(x).len()) == spec_varint_i32(x),
    ensures
        spec_parse_i32(b, i) == Some((x, i + spec_varint_i32(x).len())),
{
    lemma_zigzag_bounds(x);
    let z: u64 = spec_zigzag(x as int) as u64;
    lemma_varint_roundtrip(b, i, z);
    lemma_zigzag_roundtrip(x as int);
}

} // verus!
