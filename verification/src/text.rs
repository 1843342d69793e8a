//! The text level encoding: a structured, human-editable form with two named
//! fields, `start` and `objects`, where each object entry's keyword tag
//! selects the schema that follows. Keywords are matched without regard to
//! case, whitespace may stand between tokens, and every list entry ends with
//! a comma. The printer emits one canonical form: lowercase, space-free,
//! with trailing commas.

use crate::collectable::{Collectable, CollectableType, CollectableV, SpawnType, SpawnTypeV};
use crate::levels::{Level, LevelV, MapObject, MapObjectV};
use crate::tile_map::{GridPos, MapBox, TerrainMaterial};
use vstd::arithmetic::div_mod::lemma_fundamental_div_mod;
use vstd::prelude::*;

verus! {

/// A byte that counts as whitespace between tokens.
pub open spec fn spec_is_ws(c: u8) -> bool {
    c == 32 || c == 9 || c == 10 || c == 13
}

/// A decimal digit byte.
pub open spec fn spec_is_digit(c: u8) -> bool {
    48 <= c <= 57
}

/// A byte that may stand in a keyword.
pub open spec fn spec_is_ident(c: u8) -> bool {
    (97 <= c <= 122) || (65 <= c <= 90) || c == 95
}

/// The lowercase fold of one byte.
pub open spec fn spec_lower(c: u8) -> u8 {
    if 65 <= c <= 90 {
        (c + 32) as u8
    } else {
        c
    }
}

/// The lowercase fold of a byte string.
pub open spec fn spec_lower_seq(s: Seq<u8>) -> Seq<u8> {
    Seq::new(s.len(), |i: int| spec_lower(s[i]))
}

/// A byte string in which no byte is an uppercase letter folds to itself.
pub proof fn lemma_lower_seq_id(s: Seq<u8>)
    requires
        forall|k: int| 0 <= k < s.len() ==> !(65 <= #[trigger] s[k] <= 90),
    ensures
        spec_lower_seq(s) =~= s,
{
}

/// The first position at or after `i` that holds no whitespace.
pub open spec fn spec_skip_ws(b: Seq<u8>, i: int) -> int
    decreases b.len() - i,
{
    if 0 <= i < b.len() && spec_is_ws(b[i]) {
        spec_skip_ws(b, i + 1)
    } else {
        i
    }
}

/// The first position at or after `i` that holds no digit.
pub open spec fn spec_digits_end(b: Seq<u8>, i: int) -> int
    decreases b.len() - i,
{
    if 0 <= i < b.len() && spec_is_digit(b[i]) {
        spec_digits_end(b, i + 1)
    } else {
        i
    }
}

/// The first position at or after `i` that holds no keyword byte.
pub open spec fn spec_ident_end(b: Seq<u8>, i: int) -> int
    decreases b.len() - i,
{
    if 0 <= i < b.len() && spec_is_ident(b[i]) {
        spec_ident_end(b, i + 1)
    } else {
        i
    }
}

/// Scanning digits over a run of digits ends exactly where the run ends.
pub proof fn lemma_digits_end_of_run(b: Seq<u8>, i: int, j: int)
    requires
        0 <= i <= j <= b.len(),
        forall|k: int| i <= k < j ==> spec_is_digit(#[trigger] b[k]),
        j < b.len() ==> !spec_is_digit(b[j]),
    ensures
        spec_digits_end(b, i) == j,
    decreases j - i,
{
    if i < j {
        lemma_digits_end_of_run(b, i + 1, j);
    }
}

/// Scanning keyword bytes over a run of them ends exactly where the run
/// ends.
pub proof fn lemma_ident_end_of_run(b: Seq<u8>, i: int, j: int)
    requires
        0 <= i <= j <= b.len(),
        forall|k: int| i <= k < j ==> spec_is_ident(#[trigger] b[k]),
        j < b.len() ==> !spec_is_ident(b[j]),
    ensures
        spec_ident_end(b, i) == j,
    decreases j - i,
{
    if i < j {
        lemma_ident_end_of_run(b, i + 1, j);
    }
}

/// The value of a run of decimal digit bytes, most significant first.
pub open spec fn spec_dec_value(s: Seq<u8>) -> int
    decreases s.len(),
{
    if s.len() == 0 {
        0
    } else {
        spec_dec_value(s.drop_last()) * 10 + (s.last() - 48)
    }
}

/// The decimal digit bytes of a value, most significant first.
pub open spec fn spec_dec_bytes(v: int) -> Seq<u8>
    decreases v,
{
    if v < 10 {
        seq![(48 + if v >= 0 { v } else { 0 }) as u8]
    } else {
        spec_dec_bytes(v / 10) + seq![(48 + v % 10) as u8]
    }
}

/// Decimal printing always yields at least one byte, all of them digits.
pub proof fn lemma_dec_bytes_digits(v: int)
    ensures
        spec_dec_bytes(v).len() >= 1,
        forall|k: int|
            0 <= k < spec_dec_bytes(v).len() ==> spec_is_digit(#[trigger] spec_dec_bytes(v)[k]),
    decreases v,
{
    if v >= 10 {
        lemma_dec_bytes_digits(v / 10);
    }
}

/// Reading printed decimal digits back yields the printed value.
pub proof fn lemma_dec_value_roundtrip(v: int)
    requires
        v >= 0,
    ensures
        spec_dec_value(spec_dec_bytes(v)) == v,
    decreases v,
{
    if v < 10 {
        let s = spec_dec_bytes(v);
        assert(s =~= seq![(48 + v) as u8]);
        assert(s.len() == 1);
        assert(s.drop_last() =~= Seq::<u8>::empty());
        assert(spec_dec_value(Seq::<u8>::empty()) == 0);
        assert(s.last() == (48 + v) as u8);
        assert(spec_dec_value(s) == spec_dec_value(s.drop_last()) * 10 + (s.last() - 48));
    } else {
        lemma_dec_value_roundtrip(v / 10);
        let s = spec_dec_bytes(v);
        assert(s == spec_dec_bytes(v / 10) + seq![(48 + v % 10) as u8]);
        assert(s.len() == spec_dec_bytes(v / 10).len() + 1);
        assert(s.drop_last() =~= spec_dec_bytes(v / 10));
        assert(s.last() == (48 + v % 10) as u8);
        assert(spec_dec_value(s) == spec_dec_value(s.drop_last()) * 10 + (s.last() - 48));
        assert(0 <= v % 10 < 10);
        assert((48 + v % 10) as u8 - 48 == v % 10);
        lemma_fundamental_div_mod(v, 10);
    }
}

/// The value of a digit run is never negative.
pub proof fn lemma_dec_value_nonneg(s: Seq<u8>)
    requires
        forall|k: int| 0 <= k < s.len() ==> spec_is_digit(#[trigger] s[k]),
    ensures
        spec_dec_value(s) >= 0,
    decreases s.len(),
{
    if s.len() > 0 {
        assert(forall|k: int|
            0 <= k < s.drop_last().len() ==> spec_is_digit(#[trigger] s.drop_last()[k]));
        lemma_dec_value_nonneg(s.drop_last());
        assert(spec_dec_value(s.drop_last()) * 10 >= 0) by (nonlinear_arith)
            requires
                spec_dec_value(s.drop_last()) >= 0,
        ;
    }
}

/// Skips whitespace in the live text.
pub fn skip_ws(b: &Vec<u8>, i: usize) -> (r: usize)
    requires
        i <= b@.len(),
    ensures
        r == spec_skip_ws(b@, i as int),
        i <= r <= b@.len(),
{
    let mut cur: usize = i;
    while cur < b.len() && (b[cur] == 32 || b[cur] == 9 || b[cur] == 10 || b[cur] == 13)
        invariant
            i <= cur <= b@.len(),
            spec_skip_ws(b@, i as int) == spec_skip_ws(b@, cur as int),
        decreases b@.len() - cur,
    {
        cur = cur + 1;
    }
    cur
}

/// What scanning digits at `i` (no whitespace skip) yields: the unbounded
/// decimal value and the position after the run; nothing without a digit.
pub open spec fn spec_parse_digits(b: Seq<u8>, i: int) -> Option<(int, int)> {
    if 0 <= i <= b.len() {
        let e = spec_digits_end(b, i);
        if e > i {
            Some((spec_dec_value(b.subrange(i, e)), e))
        } else {
            None
        }
    } else {
        None
    }
}

/// What reading a signed 32-bit decimal at `i` yields: optional minus sign,
/// digits, and a 32-bit range check.
pub open spec fn spec_t_parse_i32(b: Seq<u8>, i: int) -> Option<(i32, int)> {
    let j = spec_skip_ws(b, i);
    if j < b.len() && b[j] == 45 {
        match spec_parse_digits(b, j + 1) {
            Some((v, e)) => if v <= 0x8000_0000 {
                Some(((-v) as i32, e))
            } else {
                None
            },
            None => None,
        }
    } else {
        match spec_parse_digits(b, j) {
            Some((v, e)) => if v <= 0x7FFF_FFFF {
                Some((v as i32, e))
            } else {
                None
            },
            None => None,
        }
    }
}

/// What reading an unsigned machine-size decimal at `i` yields.
pub open spec fn spec_t_parse_usize(b: Seq<u8>, i: int) -> Option<(usize, int)> {
    let j = spec_skip_ws(b, i);
    match spec_parse_digits(b, j) {
        Some((v, e)) => if v <= usize::MAX {
            Some((v as usize, e))
        } else {
            None
        },
        None => None,
    }
}

/// What reading a keyword at `i` yields: its bytes folded to lowercase, and
/// the position after it.
pub open spec fn spec_t_parse_ident(b: Seq<u8>, i: int) -> Option<(Seq<u8>, int)> {
    let j = spec_skip_ws(b, i);
    let e = spec_ident_end(b, j);
    if e > j {
        Some((spec_lower_seq(b.subrange(j, e)), e))
    } else {
        None
    }
}

/// What expecting one punctuation byte at `i` yields: the position after it,
/// when it stands there past any whitespace.
pub open spec fn spec_t_expect(b: Seq<u8>, i: int, c: u8) -> Option<int> {
    let j = spec_skip_ws(b, i);
    if j < b.len() && b[j] == c {
        Some(j + 1)
    } else {
        None
    }
}

/// Scans a digit run (no whitespace skip); `r.0` carries the value, or
/// nothing when the value outgrows the machine.
fn scan_digits(b: &Vec<u8>, i: usize) -> (r: Option<(Option<u64>, usize)>)
    requires
        i <= b@.len(),
    ensures
        match r {
            Some((val, e)) => {
                &&& spec_parse_digits(b@, i as int) matches Some((v, e2)) && e2 == e as int
                    && match val {
                    Some(u) => v == u,
                    None => v > u64::MAX,
                }
                &&& i < e <= b@.len()
            },
            None => spec_parse_digits(b@, i as int) is None,
        },
{
    if i >= b.len() || !(48 <= b[i] && b[i] <= 57) {
        return None;
    }
    let mut cur: usize = i;
    let mut acc: Option<u64> = Some(0);
    proof {
        assert(b@.subrange(i as int, i as int) =~= Seq::<u8>::empty());
    }
    while cur < b.len() && 48 <= b[cur] && b[cur] <= 57
        invariant
            i <= cur <= b@.len(),
            forall|k: int| i <= k < cur ==> spec_is_digit(#[trigger] b@[k]),
            match acc {
                Some(u) => spec_dec_value(b@.subrange(i as int, cur as int)) == u,
                None => spec_dec_value(b@.subrange(i as int, cur as int)) > u64::MAX,
            },
        decreases b@.len() - cur,
    {
        let d: u8 = b[cur];
        let ghost prefix = b@.subrange(i as int, cur as int);
        let ghost prefix2 = b@.subrange(i as int, cur + 1);
        proof {
            assert(prefix2.drop_last() =~= prefix);
            assert(prefix2.last() == b@[cur as int]);
            assert(spec_dec_value(prefix2) == spec_dec_value(prefix) * 10 + (d - 48));
            lemma_dec_value_nonneg(prefix);
        }
        acc = match acc {
            Some(u) => {
                if u <= (u64::MAX - (d - 48) as u64) / 10 {
                    Some(u * 10 + (d - 48) as u64)
                } else {
                    proof {
                        assert(spec_dec_value(prefix2) > u64::MAX) by (nonlinear_arith)
                            requires
                                spec_dec_value(prefix2) == spec_dec_value(prefix) * 10 + (d - 48),
                                spec_dec_value(prefix) == u,
                                u > (u64::MAX - (d - 48) as u64) / 10,
                                48 <= d <= 57,
                        ;
                    }
                    None
                }
            },
            None => {
                proof {
                    assert(spec_dec_value(prefix2) > u64::MAX) by (nonlinear_arith)
                        requires
                            spec_dec_value(prefix2) == spec_dec_value(prefix) * 10 + (d - 48),
                            spec_dec_value(prefix) > u64::MAX,
                            48 <= d <= 57,
                    ;
                }
                None
            },
        };
        cur = cur + 1;
    }
    proof {
        lemma_digits_end_of_run(b@, i as int, cur as int);
    }
    Some((acc, cur))
}

/// Reads a signed 32-bit decimal.
pub fn parse_i32_text(b: &Vec<u8>, i: usize) -> (r: Option<(i32, usize)>)
    requires
        i <= b@.len(),
    ensures
        match r {
            Some((x, e)) => spec_t_parse_i32(b@, i as int) == Some((x, e as int)) && i < e
                <= b@.len(),
            None => spec_t_parse_i32(b@, i as int) is None,
        },
{
    let j = skip_ws(b, i);
    if j < b.len() && b[j] == 45 {
        let Some((val, e)) = scan_digits(b, j + 1) else {
            return None;
        };
        let Some(u) = val else {
            return None;
        };
        if u <= 0x8000_0000u64 {
            Some(((-(u as i64)) as i32, e))
        } else {
            None
        }
    } else {
        let Some((val, e)) = scan_digits(b, j) else {
            return None;
        };
        let Some(u) = val else {
            return None;
        };
        if u <= 0x7FFF_FFFFu64 {
            Some((u as i32, e))
        } else {
            None
        }
    }
}

/// Reads an unsigned machine-size decimal.
pub fn parse_usize_text(b: &Vec<u8>, i: usize) -> (r: Option<(usize, usize)>)
    requires
        i <= b@.len(),
    ensures
        match r {
            Some((x, e)) => spec_t_parse_usize(b@, i as int) == Some((x, e as int)) && i < e
                <= b@.len(),
            None => spec_t_parse_usize(b@, i as int) is None,
        },
{
    let j = skip_ws(b, i);
    let Some((val, e)) = scan_digits(b, j) else {
        return None;
    };
    let Some(u) = val else {
        return None;
    };
    if u <= usize::MAX as u64 {
        Some((u as usize, e))
    } else {
        None
    }
}

/// Reads a keyword, folded to lowercase.
pub fn parse_ident(b: &Vec<u8>, i: usize) -> (r: Option<(Vec<u8>, usize)>)
    requires
        i <= b@.len(),
    ensures
        match r {
            Some((id, e)) => spec_t_parse_ident(b@, i as int) == Some((id@, e as int)) && i < e
                <= b@.len(),
            None => spec_t_parse_ident(b@, i as int) is None,
        },
{
    let j = skip_ws(b, i);
    let mut cur: usize = j;
    let mut id: Vec<u8> = Vec::new();
    while cur < b.len() && ((97 <= b[cur] && b[cur] <= 122) || (65 <= b[cur] && b[cur] <= 90)
        || b[cur] == 95)
        invariant
            j <= cur <= b@.len(),
            forall|k: int| j <= k < cur ==> spec_is_ident(#[trigger] b@[k]),
            id@.len() == cur - j,
            forall|k: int| 0 <= k < id@.len() ==> #[trigger] id@[k] == spec_lower(b@[j + k]),
        decreases b@.len() - cur,
    {
        let c: u8 = b[cur];
        let lc: u8 = if 65 <= c && c <= 90 {
            c + 32
        } else {
            c
        };
        id.push(lc);
        cur = cur + 1;
    }
    proof {
        lemma_ident_end_of_run(b@, j as int, cur as int);
    }
    if cur == j {
        None
    } else {
        proof {
            assert(id@ =~= spec_lower_seq(b@.subrange(j as int, cur as int)));
        }
        Some((id, cur))
    }
}

/// Expects one punctuation byte.
pub fn expect_byte(b: &Vec<u8>, i: usize, c: u8) -> (r: Option<usize>)
    requires
        i <= b@.len(),
    ensures
        match r {
            Some(e) => spec_t_expect(b@, i as int, c) == Some(e as int) && i < e <= b@.len(),
            None => spec_t_expect(b@, i as int, c) is None,
        },
{
    let j = skip_ws(b, i);
    if j < b.len() && b[j] == c {
        Some(j + 1)
    } else {
        None
    }
}

/// Appends the decimal digits of a value.
pub fn push_dec(out: &mut Vec<u8>, v: u64)
    ensures
        final(out)@ == old(out)@ + spec_dec_bytes(v as int),
    decreases v,
{
    if v < 10 {
        out.push((48 + v) as u8);
        proof {
            assert(out@ =~= old(out)@ + spec_dec_bytes(v as int));
        }
    } else {
        push_dec(out, v / 10);
        out.push((48 + (v % 10)) as u8);
        proof {
            assert((v as int) / 10 == (v / 10) as int);
            assert((v as int) % 10 == (v % 10) as int);
            assert(out@ =~= old(out)@ + spec_dec_bytes(v as int));
        }
    }
}

/// The text of a signed 32-bit value: a minus sign where negative, then
/// decimal digits.
pub open spec fn spec_print_i32(x: int) -> Seq<u8> {
    if x < 0 {
        seq![45u8] + spec_dec_bytes(-x)
    } else {
        spec_dec_bytes(x)
    }
}

/// Appends the text of a signed 32-bit value.
pub fn push_i32(out: &mut Vec<u8>, x: i32)
    ensures
        final(out)@ == old(out)@ + spec_print_i32(x as int),
{
    if x < 0 {
        out.push(45);
        let m: i64 = -(x as i64);
        push_dec(out, m as u64);
        proof {
            assert(out@ =~= old(out)@ + spec_print_i32(x as int));
        }
    } else {
        push_dec(out, x as u64);
    }
}

/// Reading back embedded printed digits yields the printed value, provided
/// no further digit follows them.
pub proof fn lemma_parse_digits_embed(b: Seq<u8>, i: int, v: int)
    requires
        v >= 0,
        0 <= i,
        i + spec_dec_bytes(v).len() <= b.len(),
        b.subrange(i, i + spec_dec_bytes(v).len()) == spec_dec_bytes(v),
        i + spec_dec_bytes(v).len() < b.len() ==> !spec_is_digit(
            b[i + spec_dec_bytes(v).len()],
        ),
    ensures
        spec_parse_digits(b, i) == Some((v, i + spec_dec_bytes(v).len())),
{
    let enc = spec_dec_bytes(v);
    lemma_dec_bytes_digits(v);
    assert(forall|k: int| i <= k < i + enc.len() ==> spec_is_digit(#[trigger] b[k])) by {
        assert(forall|k: int|
            i <= k < i + enc.len() ==> b[k] == b.subrange(i, i + enc.len())[k - i]);
    }
    lemma_digits_end_of_run(b, i, i + enc.len());
    assert(b.subrange(i, i + enc.len()) == enc);
    lemma_dec_value_roundtrip(v);
}

/// Reading back an embedded printed signed value yields it unchanged,
/// provided no further digit follows it.
pub proof fn lemma_parse_i32_embed(b: Seq<u8>, i: int, x: i32)
    requires
        0 <= i,
        i + spec_print_i32(x as int).len() <= b.len(),
        b.subrange(i, i + spec_print_i32(x as int).len()) == spec_print_i32(x as int),
        i + spec_print_i32(x as int).len() < b.len() ==> !spec_is_digit(
            b[i + spec_print_i32(x as int).len()],
        ),
    ensures
        spec_t_parse_i32(b, i) == Some((x, i + spec_print_i32(x as int).len())),
{
    let enc = spec_print_i32(x as int);
    lemma_dec_bytes_digits(x as int);
    lemma_dec_bytes_digits(-(x as int));
    if x < 0 {
        assert(b[i] == b.subrange(i, i + enc.len())[0]);
        assert(b[i] == 45);
        assert(!spec_is_ws(b[i]));
        assert(spec_skip_ws(b, i) == i);
        let d = spec_dec_bytes(-(x as int));
        vstd::assert_seqs_equal!(b.subrange(i + 1, i + 1 + d.len() as int) == d, k => {
            assert(b.subrange(i + 1, i + 1 + d.len() as int)[k]
                == b.subrange(i, i + enc.len())[k + 1]);
            assert(b.subrange(i, i + enc.len())[k + 1] == enc[k + 1]);
        });
        lemma_parse_digits_embed(b, i + 1, -(x as int));
    } else {
        assert(b[i] == b.subrange(i, i + enc.len())[0]);
        assert(spec_is_digit(b[i]));
        assert(!spec_is_ws(b[i]));
        assert(spec_skip_ws(b, i) == i);
        assert(b[i] != 45);
        lemma_parse_digits_embed(b, i, x as int);
    }
}

/// Reading back an embedded printed unsigned value yields it unchanged,
/// provided no further digit follows it.
pub proof fn lemma_parse_usize_embed(b: Seq<u8>, i: int, v: usize)
    requires
        0 <= i,
        i + spec_dec_bytes(v as int).len() <= b.len(),
        b.subrange(i, i + spec_dec_bytes(v as int).len()) == spec_dec_bytes(v as int),
        i + spec_dec_bytes(v as int).len() < b.len() ==> !spec_is_digit(
            b[i + spec_dec_bytes(v as int).len()],
        ),
    ensures
        spec_t_parse_usize(b, i) == Some((v, i + spec_dec_bytes(v as int).len())),
{
    lemma_dec_bytes_digits(v as int);
    assert(b[i] == b.subrange(i, i + spec_dec_bytes(v as int).len())[0]);
    assert(spec_is_digit(b[i]));
    assert(!spec_is_ws(b[i]));
    assert(spec_skip_ws(b, i) == i);
    lemma_parse_digits_embed(b, i, v as int);
}

/// Reading back an embedded lowercase keyword yields it unchanged, provided
/// no further keyword byte follows it.
pub proof fn lemma_parse_ident_embed(b: Seq<u8>, i: int, kw: Seq<u8>)
    requires
        kw.len() >= 1,
        forall|k: int| 0 <= k < kw.len() ==> spec_is_ident(#[trigger] kw[k]),
        forall|k: int| 0 <= k < kw.len() ==> !(65 <= #[trigger] kw[k] <= 90),
        0 <= i,
        i + kw.len() <= b.len(),
        b.subrange(i, i + kw.len()) == kw,
        i + kw.len() < b.len() ==> !spec_is_ident(b[i + kw.len()]),
    ensures
        spec_t_parse_ident(b, i) == Some((kw, i + kw.len())),
{
    assert(forall|k: int| i <= k < i + kw.len() ==> spec_is_ident(#[trigger] b[k])) by {
        assert(forall|k: int|
            i <= k < i + kw.len() ==> b[k] == b.subrange(i, i + kw.len())[k - i]);
    }
    assert(b[i] == b.subrange(i, i + kw.len())[0]);
    assert(!spec_is_ws(b[i]));
    assert(spec_skip_ws(b, i) == i);
    lemma_ident_end_of_run(b, i, i + kw.len());
    lemma_lower_seq_id(kw);
    assert(spec_lower_seq(b.subrange(i, i + kw.len())) == spec_lower_seq(kw));
}

/// Reading back an embedded punctuation byte steps right past it.
pub proof fn lemma_expect_embed(b: Seq<u8>, i: int, c: u8)
    requires
        0 <= i < b.len(),
        b[i] == c,
        !spec_is_ws(c),
    ensures
        spec_t_expect(b, i, c) == Some(i + 1),
{
    assert(spec_skip_ws(b, i) == i);
}


/// The fixed keyword vocabulary of the text form, lowercase.
pub open spec fn kw_start() -> Seq<u8> {
    seq![115u8, 116u8, 97u8, 114u8, 116u8]
}

pub open spec fn kw_objects() -> Seq<u8> {
    seq![111u8, 98u8, 106u8, 101u8, 99u8, 116u8, 115u8]
}

pub open spec fn kw_box() -> Seq<u8> {
    seq![98u8, 111u8, 120u8]
}

pub open spec fn kw_collectable() -> Seq<u8> {
    seq![99u8, 111u8, 108u8, 108u8, 101u8, 99u8, 116u8, 97u8, 98u8, 108u8, 101u8]
}

pub open spec fn kw_gold() -> Seq<u8> {
    seq![103u8, 111u8, 108u8, 100u8]
}

pub open spec fn kw_brick() -> Seq<u8> {
    seq![98u8, 114u8, 105u8, 99u8, 107u8]
}

pub open spec fn kw_copper() -> Seq<u8> {
    seq![99u8, 111u8, 112u8, 112u8, 101u8, 114u8]
}

pub open spec fn kw_iron() -> Seq<u8> {
    seq![105u8, 114u8, 111u8, 110u8]
}

pub open spec fn kw_clay() -> Seq<u8> {
    seq![99u8, 108u8, 97u8, 121u8]
}

pub open spec fn kw_strawberry() -> Seq<u8> {
    seq![115u8, 116u8, 114u8, 97u8, 119u8, 98u8, 101u8, 114u8, 114u8, 121u8]
}

pub open spec fn kw_bananan() -> Seq<u8> {
    seq![98u8, 97u8, 110u8, 97u8, 110u8, 97u8, 110u8]
}

pub open spec fn kw_none() -> Seq<u8> {
    seq![110u8, 111u8, 110u8, 101u8]
}

pub open spec fn kw_random_range() -> Seq<u8> {
    seq![114u8, 97u8, 110u8, 100u8, 111u8, 109u8, 95u8, 114u8, 97u8, 110u8, 103u8, 101u8]
}

pub open spec fn kw_random_points() -> Seq<u8> {
    seq![114u8, 97u8, 110u8, 100u8, 111u8, 109u8, 95u8, 112u8, 111u8, 105u8, 110u8, 116u8, 115u8]
}

pub open spec fn kw_fixed() -> Seq<u8> {
    seq![102u8, 105u8, 120u8, 101u8, 100u8]
}

pub open spec fn kw_order() -> Seq<u8> {
    seq![111u8, 114u8, 100u8, 101u8, 114u8]
}

pub open spec fn kw_order_dec() -> Seq<u8> {
    seq![111u8, 114u8, 100u8, 101u8, 114u8, 95u8, 100u8, 101u8, 99u8]
}

pub open spec fn kw_random_points_dec() -> Seq<u8> {
    seq![114u8, 97u8, 110u8, 100u8, 111u8, 109u8, 95u8, 112u8, 111u8, 105u8, 110u8, 116u8, 115u8, 95u8, 100u8, 101u8, 99u8]
}

fn id_is_start(id: &Vec<u8>) -> (r: bool)
    ensures
        r == (id@ =~= kw_start()),
{
    id.len() == 5 && id[0] == 115u8 && id[1] == 116u8 && id[2] == 97u8 && id[3] == 114u8 && id[4] == 116u8
}

fn id_is_objects(id: &Vec<u8>) -> (r: bool)
    ensures
        r == (id@ =~= kw_objects()),
{
    id.len() == 7 && id[0] == 111u8 && id[1] == 98u8 && id[2] == 106u8 && id[3] == 101u8 && id[4] == 99u8 && id[5] == 116u8 && id[6] == 115u8
}

fn id_is_box(id: &Vec<u8>) -> (r: bool)
    ensures
        r == (id@ =~= kw_box()),
{
    id.len() == 3 && id[0] == 98u8 && id[1] == 111u8 && id[2] == 120u8
}

fn id_is_collectable(id: &Vec<u8>) -> (r: bool)
    ensures
        r == (id@ =~= kw_collectable()),
{
    id.len() == 11 && id[0] == 99u8 && id[1] == 111u8 && id[2] == 108u8 && id[3] == 108u8 && id[4] == 101u8 && id[5] == 99u8 && id[6] == 116u8 && id[7] == 97u8 && id[8] == 98u8 && id[9] == 108u8 && id[10] == 101u8
}

fn id_is_gold(id: &Vec<u8>) -> (r: bool)
    ensures
        r == (id@ =~= kw_gold()),
{
    id.len() == 4 && id[0] == 103u8 && id[1] == 111u8 && id[2] == 108u8 && id[3] == 100u8
}

fn id_is_brick(id: &Vec<u8>) -> (r: bool)
    ensures
        r == (id@ =~= kw_brick()),
{
    id.len() == 5 && id[0] == 98u8 && id[1] == 114u8 && id[2] == 105u8 && id[3] == 99u8 && id[4] == 107u8
}

fn id_is_copper(id: &Vec<u8>) -> (r: bool)
    ensures
        r == (id@ =~= kw_copper()),
{
    id.len() == 6 && id[0] == 99u8 && id[1] == 111u8 && id[2] == 112u8 && id[3] == 112u8 && id[4] == 101u8 && id[5] == 114u8
}

fn id_is_iron(id: &Vec<u8>) -> (r: bool)
    ensures
        r == (id@ =~= kw_iron()),
{
    id.len() == 4 && id[0] == 105u8 && id[1] == 114u8 && id[2] == 111u8 && id[3] == 110u8
}

fn id_is_clay(id: &Vec<u8>) -> (r: bool)
    ensures
        r == (id@ =~= kw_clay()),
{
    id.len() == 4 && id[0] == 99u8 && id[1] == 108u8 && id[2] == 97u8 && id[3] == 121u8
}

fn id_is_strawberry(id: &Vec<u8>) -> (r: bool)
    ensures
        r == (id@ =~= kw_strawberry()),
{
    id.len() == 10 && id[0] == 115u8 && id[1] == 116u8 && id[2] == 114u8 && id[3] == 97u8 && id[4] == 119u8 && id[5] == 98u8 && id[6] == 101u8 && id[7] == 114u8 && id[8] == 114u8 && id[9] == 121u8
}

fn id_is_bananan(id: &Vec<u8>) -> (r: bool)
    ensures
        r == (id@ =~= kw_bananan()),
{
    id.len() == 7 && id[0] == 98u8 && id[1] == 97u8 && id[2] == 110u8 && id[3] == 97u8 && id[4] == 110u8 && id[5] == 97u8 && id[6] == 110u8
}

fn id_is_none(id: &Vec<u8>) -> (r: bool)
    ensures
        r == (id@ =~= kw_none()),
{
    id.len() == 4 && id[0] == 110u8 && id[1] == 111u8 && id[2] == 110u8 && id[3] == 101u8
}

fn id_is_random_range(id: &Vec<u8>) -> (r: bool)
    ensures
        r == (id@ =~= kw_random_range()),
{
    id.len() == 12 && id[0] == 114u8 && id[1] == 97u8 && id[2] == 110u8 && id[3] == 100u8 && id[4] == 111u8 && id[5] == 109u8 && id[6] == 95u8 && id[7] == 114u8 && id[8] == 97u8 && id[9] == 110u8 && id[10] == 103u8 && id[11] == 101u8
}

fn id_is_random_points(id: &Vec<u8>) -> (r: bool)
    ensures
        r == (id@ =~= kw_random_points()),
{
    id.len() == 13 && id[0] == 114u8 && id[1] == 97u8 && id[2] == 110u8 && id[3] == 100u8 && id[4] == 111u8 && id[5] == 109u8 && id[6] == 95u8 && id[7] == 112u8 && id[8] == 111u8 && id[9] == 105u8 && id[10] == 110u8 && id[11] == 116u8 && id[12] == 115u8
}

fn id_is_fixed(id: &Vec<u8>) -> (r: bool)
    ensures
        r == (id@ =~= kw_fixed()),
{
    id.len() == 5 && id[0] == 102u8 && id[1] == 105u8 && id[2] == 120u8 && id[3] == 101u8 && id[4] == 100u8
}

fn id_is_order(id: &Vec<u8>) -> (r: bool)
    ensures
        r == (id@ =~= kw_order()),
{
    id.len() == 5 && id[0] == 111u8 && id[1] == 114u8 && id[2] == 100u8 && id[3] == 101u8 && id[4] == 114u8
}

fn id_is_order_dec(id: &Vec<u8>) -> (r: bool)
    ensures
        r == (id@ =~= kw_order_dec()),
{
    id.len() == 9 && id[0] == 111u8 && id[1] == 114u8 && id[2] == 100u8 && id[3] == 101u8 && id[4] == 114u8 && id[5] == 95u8 && id[6] == 100u8 && id[7] == 101u8 && id[8] == 99u8
}

fn id_is_random_points_dec(id: &Vec<u8>) -> (r: bool)
    ensures
        r == (id@ =~= kw_random_points_dec()),
{
    id.len() == 17 && id[0] == 114u8 && id[1] == 97u8 && id[2] == 110u8 && id[3] == 100u8 && id[4] == 111u8 && id[5] == 109u8 && id[6] == 95u8 && id[7] == 112u8 && id[8] == 111u8 && id[9] == 105u8 && id[10] == 110u8 && id[11] == 116u8 && id[12] == 115u8 && id[13] == 95u8 && id[14] == 100u8 && id[15] == 101u8 && id[16] == 99u8
}


/// The text of a grid position.
pub open spec fn spec_t_print_pos(p: GridPos) -> Seq<u8> {
    seq![40u8] + (spec_print_i32(p.x as int) + (seq![44u8] + (spec_print_i32(p.y as int) + seq![
        41u8,
    ])))
}

/// The text of the positions of a list, each followed by a comma.
pub open spec fn spec_t_print_pos_items(l: Seq<GridPos>) -> Seq<u8>
    decreases l.len(),
{
    if l.len() == 0 {
        Seq::empty()
    } else {
        spec_t_print_pos(l[0]) + (seq![44u8] + spec_t_print_pos_items(l.drop_first()))
    }
}

/// The text of a position list: brackets around its items.
pub open spec fn spec_t_print_list(l: Seq<GridPos>) -> Seq<u8> {
    seq![91u8] + (spec_t_print_pos_items(l) + seq![93u8])
}

/// The keyword of a material.
pub open spec fn spec_t_print_material(m: TerrainMaterial) -> Seq<u8> {
    match m {
        TerrainMaterial::Gold => kw_gold(),
        TerrainMaterial::Brick => kw_brick(),
        TerrainMaterial::Copper => kw_copper(),
        TerrainMaterial::Iron => kw_iron(),
        TerrainMaterial::Clay => kw_clay(),
    }
}

/// The keyword of a collectable kind.
pub open spec fn spec_t_print_collectable_type(c: CollectableType) -> Seq<u8> {
    match c {
        CollectableType::Strawberry => kw_strawberry(),
        CollectableType::Bananan => kw_bananan(),
    }
}

/// The text of a placement strategy: its keyword, then its parenthesised
/// configuration.
pub open spec fn spec_t_print_spawn(s: SpawnTypeV) -> Seq<u8> {
    match s {
        SpawnTypeV::NoSpawn => kw_none(),
        SpawnTypeV::RandomRange(a, b) => kw_random_range() + (seq![40u8] + (spec_t_print_pos(a)
            + (seq![44u8] + (spec_t_print_pos(b) + seq![41u8])))),
        SpawnTypeV::RandomPoints(l) => kw_random_points() + (seq![40u8] + (spec_t_print_list(l)
            + seq![41u8])),
        SpawnTypeV::Fixed(p) => kw_fixed() + (seq![40u8] + (spec_t_print_pos(p) + seq![41u8])),
        SpawnTypeV::Order(l, idx) => kw_order() + (seq![40u8] + (spec_t_print_list(l) + (seq![
            44u8,
        ] + (spec_dec_bytes(idx as int) + seq![41u8])))),
        SpawnTypeV::OrderDec(l) => kw_order_dec() + (seq![40u8] + (spec_t_print_list(l) + seq![
            41u8,
        ])),
        SpawnTypeV::RandomPointsDec(l) => kw_random_points_dec() + (seq![40u8] + (
        spec_t_print_list(l) + seq![41u8])),
    }
}

/// The text of a terrain block: offset triple, width, height, material.
pub open spec fn spec_t_print_box(x: MapBox) -> Seq<u8> {
    seq![40u8] + ((seq![40u8] + (spec_print_i32(x.offset.x as int) + (seq![44u8] + (spec_print_i32(
        x.offset.y as int,
    ) + (seq![44u8] + (spec_print_i32(x.offset.z as int) + seq![41u8])))))) + (seq![44u8] + (
    spec_print_i32(x.width as int) + (seq![44u8] + (spec_print_i32(x.height as int) + (seq![44u8]
        + (spec_t_print_material(x.material) + seq![41u8])))))))
}

/// The text of a collectable: its kind, then its strategy.
pub open spec fn spec_t_print_collectable(c: CollectableV) -> Seq<u8> {
    seq![40u8] + (spec_t_print_collectable_type(c.collectable_type) + (seq![44u8] + (
    spec_t_print_spawn(c.spawn_type) + seq![41u8])))
}

/// The text of one placed object: its tag keyword, a colon, its fields.
pub open spec fn spec_t_print_object(o: MapObjectV) -> Seq<u8> {
    match o {
        MapObjectV::Box(x) => kw_box() + (seq![58u8] + spec_t_print_box(x)),
        MapObjectV::Collectable(c) => kw_collectable() + (seq![58u8] + spec_t_print_collectable(
            c,
        )),
    }
}

/// The text of the objects of a level, each followed by a comma.
pub open spec fn spec_t_print_objects(l: Seq<MapObjectV>) -> Seq<u8>
    decreases l.len(),
{
    if l.len() == 0 {
        Seq::empty()
    } else {
        spec_t_print_object(l[0]) + (seq![44u8] + spec_t_print_objects(l.drop_first()))
    }
}

/// The whole canonical text of a level.
pub open spec fn spec_t_print_level(l: LevelV) -> Seq<u8> {
    seq![40u8] + (kw_start() + (seq![58u8] + (spec_t_print_pos(l.player_start) + (seq![44u8] + (
    kw_objects() + (seq![58u8] + (seq![123u8] + (spec_t_print_objects(l.objects) + (seq![125u8]
        + seq![41u8])))))))))
}

/// Appends the text of a grid position.
fn t_push_pos(out: &mut Vec<u8>, p: GridPos)
    ensures
        final(out)@ == old(out)@ + spec_t_print_pos(p),
{
    out.push(40u8);
    push_i32(out, p.x);
    out.push(44u8);
    push_i32(out, p.y);
    out.push(41u8);
    proof {
        assert(out@ =~= old(out)@ + spec_t_print_pos(p));
    }
}

/// Appends the text of a position list.
fn t_push_list(out: &mut Vec<u8>, l: &Vec<GridPos>)
    ensures
        final(out)@ == old(out)@ + spec_t_print_list(l@),
{
    out.push(91u8);
    let ghost head = out@;
    let mut i: usize = 0;
    proof {
        assert(l@.skip(0) =~= l@);
    }
    while i < l.len()
        invariant
            0 <= i <= l@.len(),
            out@ + spec_t_print_pos_items(l@.skip(i as int)) == head + spec_t_print_pos_items(
                l@,
            ),
        decreases l@.len() - i,
    {
        let ghost before = out@;
        let ghost rest = l@.skip(i as int);
        t_push_pos(out, l[i]);
        out.push(44u8);
        proof {
            assert(rest.len() > 0);
            assert(rest[0] == l@[i as int]);
            assert(rest.drop_first() =~= l@.skip(i + 1));
            assert(out@ + spec_t_print_pos_items(l@.skip(i + 1)) =~= before
                + spec_t_print_pos_items(rest));
        }
        i = i + 1;
    }
    out.push(93u8);
    proof {
        assert(l@.skip(l@.len() as int) =~= Seq::<GridPos>::empty());
        assert(out@ =~= old(out)@ + spec_t_print_list(l@));
    }
}

/// Appends a material keyword.
fn t_push_material(out: &mut Vec<u8>, m: TerrainMaterial)
    ensures
        final(out)@ == old(out)@ + spec_t_print_material(m),
{
    match m {
        TerrainMaterial::Gold => {
            out.push(103u8);
            out.push(111u8);
            out.push(108u8);
            out.push(100u8);
        },
        TerrainMaterial::Brick => {
            out.push(98u8);
            out.push(114u8);
            out.push(105u8);
            out.push(99u8);
            out.push(107u8);
        },
        TerrainMaterial::Copper => {
            out.push(99u8);
            out.push(111u8);
            out.push(112u8);
            out.push(112u8);
            out.push(101u8);
            out.push(114u8);
        },
        TerrainMaterial::Iron => {
            out.push(105u8);
            out.push(114u8);
            out.push(111u8);
            out.push(110u8);
        },
        TerrainMaterial::Clay => {
            out.push(99u8);
            out.push(108u8);
            out.push(97u8);
            out.push(121u8);
        },
    }
    proof {
        assert(out@ =~= old(out)@ + spec_t_print_material(m));
    }
}

fn t_push_kw_none(out: &mut Vec<u8>)
    ensures
        final(out)@ == old(out)@ + kw_none(),
{
    out.push(110u8);
    out.push(111u8);
    out.push(110u8);
    out.push(101u8);
    proof {
        assert(out@ =~= old(out)@ + kw_none());
    }
}

fn t_push_kw_random_range(out: &mut Vec<u8>)
    ensures
        final(out)@ == old(out)@ + kw_random_range(),
{
    out.push(114u8);
    out.push(97u8);
    out.push(110u8);
    out.push(100u8);
    out.push(111u8);
    out.push(109u8);
    out.push(95u8);
    out.push(114u8);
    out.push(97u8);
    out.push(110u8);
    out.push(103u8);
    out.push(101u8);
    proof {
        assert(out@ =~= old(out)@ + kw_random_range());
    }
}

fn t_push_kw_random_points(out: &mut Vec<u8>)
    ensures
        final(out)@ == old(out)@ + kw_random_points(),
{
    out.push(114u8);
    out.push(97u8);
    out.push(110u8);
    out.push(100u8);
    out.push(111u8);
    out.push(109u8);
    out.push(95u8);
    out.push(112u8);
    out.push(111u8);
    out.push(105u8);
    out.push(110u8);
    out.push(116u8);
    out.push(115u8);
    proof {
        assert(out@ =~= old(out)@ + kw_random_points());
    }
}

fn t_push_kw_fixed(out: &mut Vec<u8>)
    ensures
        final(out)@ == old(out)@ + kw_fixed(),
{
    out.push(102u8);
    out.push(105u8);
    out.push(120u8);
    out.push(101u8);
    out.push(100u8);
    proof {
        assert(out@ =~= old(out)@ + kw_fixed());
    }
}

fn t_push_kw_order(out: &mut Vec<u8>)
    ensures
        final(out)@ == old(out)@ + kw_order(),
{
    out.push(111u8);
    out.push(114u8);
    out.push(100u8);
    out.push(101u8);
    out.push(114u8);
    proof {
        assert(out@ =~= old(out)@ + kw_order());
    }
}

fn t_push_kw_order_dec(out: &mut Vec<u8>)
    ensures
        final(out)@ == old(out)@ + kw_order_dec(),
{
    out.push(111u8);
    out.push(114u8);
    out.push(100u8);
    out.push(101u8);
    out.push(114u8);
    out.push(95u8);
    out.push(100u8);
    out.push(101u8);
    out.push(99u8);
    proof {
        assert(out@ =~= old(out)@ + kw_order_dec());
    }
}

fn t_push_kw_random_points_dec(out: &mut Vec<u8>)
    ensures
        final(out)@ == old(out)@ + kw_random_points_dec(),
{
    out.push(114u8);
    out.push(97u8);
    out.push(110u8);
    out.push(100u8);
    out.push(111u8);
    out.push(109u8);
    out.push(95u8);
    out.push(112u8);
    out.push(111u8);
    out.push(105u8);
    out.push(110u8);
    out.push(116u8);
    out.push(115u8);
    out.push(95u8);
    out.push(100u8);
    out.push(101u8);
    out.push(99u8);
    proof {
        assert(out@ =~= old(out)@ + kw_random_points_dec());
    }
}

fn t_push_spawn_random_range(out: &mut Vec<u8>, a: GridPos, b: GridPos)
    ensures
        final(out)@ == old(out)@ + spec_t_print_spawn(SpawnTypeV::RandomRange(a, b)),
{
    t_push_kw_random_range(out);
    out.push(40u8);
    t_push_pos(out, a);
    out.push(44u8);
    t_push_pos(out, b);
    out.push(41u8);
    proof {
        assert(out@ =~= old(out)@ + spec_t_print_spawn(SpawnTypeV::RandomRange(a, b)));
    }
}

fn t_push_spawn_random_points(out: &mut Vec<u8>, l: &Vec<GridPos>)
    ensures
        final(out)@ == old(out)@ + spec_t_print_spawn(SpawnTypeV::RandomPoints(l@)),
{
    t_push_kw_random_points(out);
    out.push(40u8);
    t_push_list(out, l);
    out.push(41u8);
    proof {
        assert(out@ =~= old(out)@ + spec_t_print_spawn(SpawnTypeV::RandomPoints(l@)));
    }
}

fn t_push_spawn_fixed(out: &mut Vec<u8>, p: GridPos)
    ensures
        final(out)@ == old(out)@ + spec_t_print_spawn(SpawnTypeV::Fixed(p)),
{
    t_push_kw_fixed(out);
    out.push(40u8);
    t_push_pos(out, p);
    out.push(41u8);
    proof {
        assert(out@ =~= old(out)@ + spec_t_print_spawn(SpawnTypeV::Fixed(p)));
    }
}

fn t_push_spawn_order(out: &mut Vec<u8>, l: &Vec<GridPos>, idx: usize)
    ensures
        final(out)@ == old(out)@ + spec_t_print_spawn(SpawnTypeV::Order(l@, idx)),
{
    t_push_kw_order(out);
    out.push(40u8);
    t_push_list(out, l);
    out.push(44u8);
    push_dec(out, idx as u64);
    out.push(41u8);
    proof {
        assert(out@ =~= old(out)@ + spec_t_print_spawn(SpawnTypeV::Order(l@, idx)));
    }
}

fn t_push_spawn_order_dec(out: &mut Vec<u8>, l: &Vec<GridPos>)
    ensures
        final(out)@ == old(out)@ + spec_t_print_spawn(SpawnTypeV::OrderDec(l@)),
{
    t_push_kw_order_dec(out);
    out.push(40u8);
    t_push_list(out, l);
    out.push(41u8);
    proof {
        assert(out@ =~= old(out)@ + spec_t_print_spawn(SpawnTypeV::OrderDec(l@)));
    }
}

fn t_push_spawn_random_points_dec(out: &mut Vec<u8>, l: &Vec<GridPos>)
    ensures
        final(out)@ == old(out)@ + spec_t_print_spawn(SpawnTypeV::RandomPointsDec(l@)),
{
    t_push_kw_random_points_dec(out);
    out.push(40u8);
    t_push_list(out, l);
    out.push(41u8);
    proof {
        assert(out@ =~= old(out)@ + spec_t_print_spawn(SpawnTypeV::RandomPointsDec(l@)));
    }
}

/// Appends the text of a placement strategy.
fn t_push_spawn(out: &mut Vec<u8>, s: &SpawnType)
    ensures
        final(out)@ == old(out)@ + spec_t_print_spawn(s@),
{
    match s {
        SpawnType::NoSpawn => {
            t_push_kw_none(out);
            proof {
                assert(out@ =~= old(out)@ + spec_t_print_spawn(s@));
            }
        },
        SpawnType::RandomRange(a, b) => t_push_spawn_random_range(out, *a, *b),
        SpawnType::RandomPoints(l) => t_push_spawn_random_points(out, l),
        SpawnType::Fixed(p) => t_push_spawn_fixed(out, *p),
        SpawnType::Order(l, idx) => t_push_spawn_order(out, l, *idx),
        SpawnType::OrderDec(l) => t_push_spawn_order_dec(out, l),
        SpawnType::RandomPointsDec(l) => t_push_spawn_random_points_dec(out, l),
    }
}

fn t_push_kw_box(out: &mut Vec<u8>)
    ensures
        final(out)@ == old(out)@ + kw_box(),
{
    out.push(98u8);
    out.push(111u8);
    out.push(120u8);
    proof {
        assert(out@ =~= old(out)@ + kw_box());
    }
}

fn t_push_kw_collectable(out: &mut Vec<u8>)
    ensures
        final(out)@ == old(out)@ + kw_collectable(),
{
    out.push(99u8);
    out.push(111u8);
    out.push(108u8);
    out.push(108u8);
    out.push(101u8);
    out.push(99u8);
    out.push(116u8);
    out.push(97u8);
    out.push(98u8);
    out.push(108u8);
    out.push(101u8);
    proof {
        assert(out@ =~= old(out)@ + kw_collectable());
    }
}

fn t_push_kw_strawberry(out: &mut Vec<u8>)
    ensures
        final(out)@ == old(out)@ + kw_strawberry(),
{
    out.push(115u8);
    out.push(116u8);
    out.push(114u8);
    out.push(97u8);
    out.push(119u8);
    out.push(98u8);
    out.push(101u8);
    out.push(114u8);
    out.push(114u8);
    out.push(121u8);
    proof {
        assert(out@ =~= old(out)@ + kw_strawberry());
    }
}

fn t_push_kw_bananan(out: &mut Vec<u8>)
    ensures
        final(out)@ == old(out)@ + kw_bananan(),
{
    out.push(98u8);
    out.push(97u8);
    out.push(110u8);
    out.push(97u8);
    out.push(110u8);
    out.push(97u8);
    out.push(110u8);
    proof {
        assert(out@ =~= old(out)@ + kw_bananan());
    }
}

fn t_push_box(out: &mut Vec<u8>, x: &MapBox)
    ensures
        final(out)@ == old(out)@ + spec_t_print_box(*x),
{
    out.push(40u8);
    out.push(40u8);
    push_i32(out, x.offset.x);
    out.push(44u8);
    push_i32(out, x.offset.y);
    out.push(44u8);
    push_i32(out, x.offset.z);
    out.push(41u8);
    out.push(44u8);
    push_i32(out, x.width);
    out.push(44u8);
    push_i32(out, x.height);
    out.push(44u8);
    t_push_material(out, x.material);
    out.push(41u8);
    proof {
        assert(out@ =~= old(out)@ + spec_t_print_box(*x));
    }
}

fn t_push_collectable(out: &mut Vec<u8>, c: &Collectable)
    ensures
        final(out)@ == old(out)@ + spec_t_print_collectable(c@),
{
    out.push(40u8);
    match c.collectable_type {
        CollectableType::Strawberry => t_push_kw_strawberry(out),
        CollectableType::Bananan => t_push_kw_bananan(out),
    }
    out.push(44u8);
    t_push_spawn(out, &c.spawn_type);
    out.push(41u8);
    proof {
        assert(out@ =~= old(out)@ + spec_t_print_collectable(c@));
    }
}

/// Appends the text of one placed object.
fn t_push_object(out: &mut Vec<u8>, o: &MapObject)
    ensures
        final(out)@ == old(out)@ + spec_t_print_object(o@),
{
    match o {
        MapObject::Box(x) => {
            t_push_kw_box(out);
            out.push(58u8);
            t_push_box(out, x);
            proof {
                assert(out@ =~= old(out)@ + spec_t_print_object(o@));
            }
        },
        MapObject::Collectable(c) => {
            t_push_kw_collectable(out);
            out.push(58u8);
            t_push_collectable(out, c);
            proof {
                assert(out@ =~= old(out)@ + spec_t_print_object(o@));
            }
        },
    }
}

impl Level {
    /// The canonical text of this level: lowercase keywords, no whitespace,
    /// trailing commas after every entry.
    pub fn to_text(&self) -> (r: Vec<u8>)
        ensures
            r@ == spec_t_print_level(self@),
    {
        let mut out: Vec<u8> = Vec::new();
        out.push(40u8);
        out.push(115u8);
        out.push(116u8);
        out.push(97u8);
        out.push(114u8);
        out.push(116u8);
        out.push(58u8);
        t_push_pos(&mut out, self.player_start);
        out.push(44u8);
        out.push(111u8);
        out.push(98u8);
        out.push(106u8);
        out.push(101u8);
        out.push(99u8);
        out.push(116u8);
        out.push(115u8);
        out.push(58u8);
        out.push(123u8);
        let ghost head = out@;
        let mut i: usize = 0;
        proof {
            assert(self@.objects.skip(0) =~= self@.objects);
        }
        while i < self.objects.len()
            invariant
                0 <= i <= self.objects@.len(),
                out@ + spec_t_print_objects(self@.objects.skip(i as int)) == head
                    + spec_t_print_objects(self@.objects),
            decreases self.objects@.len() - i,
        {
            let ghost before = out@;
            let ghost rest = self@.objects.skip(i as int);
            proof {
                assert(self@.objects.len() == self.objects@.len());
            }
            t_push_object(&mut out, &self.objects[i]);
            out.push(44u8);
            proof {
                assert(rest.len() > 0);
                assert(rest[0] == self@.objects[i as int]);
                assert(self@.objects[i as int] == self.objects@[i as int]@);
                assert(rest.drop_first() =~= self@.objects.skip(i + 1));
                assert(out@ + spec_t_print_objects(self@.objects.skip(i + 1)) =~= before
                    + spec_t_print_objects(rest));
            }
            i = i + 1;
        }
        out.push(125u8);
        out.push(41u8);
        proof {
            assert(self@.objects.skip(self@.objects.len() as int) =~= Seq::<MapObjectV>::empty());
            assert(out@ =~= spec_t_print_level(self@));
        }
        out
    }
}

/// What reading a parenthesised grid position at `i` yields.
pub open spec fn spec_t_parse_pos(b: Seq<u8>, i: int) -> Option<(GridPos, int)> {
    match spec_t_expect(b, i, 40u8) {
        Some(j) => match spec_t_parse_i32(b, j) {
            Some((x, k)) => match spec_t_expect(b, k, 44u8) {
                Some(m) => match spec_t_parse_i32(b, m) {
                    Some((y, n)) => match spec_t_expect(b, n, 41u8) {
                        Some(e) => Some((GridPos { x, y }, e)),
                        None => None,
                    },
                    None => None,
                },
                None => None,
            },
            None => None,
        },
        None => None,
    }
}

/// What reading list items at `i` yields: entries each closed by a comma,
/// until the closing bracket. The fuel bounds how many entries can stand
/// before the bracket.
pub open spec fn spec_t_parse_pos_items(b: Seq<u8>, i: int, fuel: nat) -> Option<
    (Seq<GridPos>, int),
>
    decreases fuel,
{
    match spec_t_expect(b, i, 93u8) {
        Some(j) => Some((Seq::empty(), j)),
        None => if fuel == 0 {
            None
        } else {
            match spec_t_parse_pos(b, i) {
                Some((p, j)) => match spec_t_expect(b, j, 44u8) {
                    Some(k) => match spec_t_parse_pos_items(b, k, (fuel - 1) as nat) {
                        Some((rest, e)) => Some((seq![p] + rest, e)),
                        None => None,
                    },
                    None => None,
                },
                None => None,
            }
        },
    }
}

/// What reading a bracketed position list at `i` yields.
pub open spec fn spec_t_parse_list(b: Seq<u8>, i: int, fuel: nat) -> Option<(Seq<GridPos>, int)> {
    match spec_t_expect(b, i, 91u8) {
        Some(j) => spec_t_parse_pos_items(b, j, fuel),
        None => None,
    }
}

/// The material a keyword names, if it names one.
pub open spec fn spec_material_of_kw(s: Seq<u8>) -> Option<TerrainMaterial> {
    if s == kw_gold() {
        Some(TerrainMaterial::Gold)
    } else if s == kw_brick() {
        Some(TerrainMaterial::Brick)
    } else if s == kw_copper() {
        Some(TerrainMaterial::Copper)
    } else if s == kw_iron() {
        Some(TerrainMaterial::Iron)
    } else if s == kw_clay() {
        Some(TerrainMaterial::Clay)
    } else {
        None
    }
}

/// The collectable kind a keyword names, if it names one.
pub open spec fn spec_collectable_type_of_kw(s: Seq<u8>) -> Option<CollectableType> {
    if s == kw_strawberry() {
        Some(CollectableType::Strawberry)
    } else if s == kw_bananan() {
        Some(CollectableType::Bananan)
    } else {
        None
    }
}

/// What reading a placement strategy at `i` yields: its keyword selects the
/// parenthesised configuration that follows.
pub open spec fn spec_t_parse_spawn(b: Seq<u8>, i: int, fuel: nat) -> Option<(SpawnTypeV, int)> {
    match spec_t_parse_ident(b, i) {
        Some((id, j)) => {
            if id == kw_none() {
                Some((SpawnTypeV::NoSpawn, j))
            } else if id == kw_random_range() {
                match spec_t_expect(b, j, 40u8) {
                    Some(k) => match spec_t_parse_pos(b, k) {
                        Some((a, m)) => match spec_t_expect(b, m, 44u8) {
                            Some(n) => match spec_t_parse_pos(b, n) {
                                Some((c, q)) => match spec_t_expect(b, q, 41u8) {
                                    Some(e) => Some((SpawnTypeV::RandomRange(a, c), e)),
                                    None => None,
                                },
                                None => None,
                            },
                            None => None,
                        },
                        None => None,
                    },
                    None => None,
                }
            } else if id == kw_random_points() {
                match spec_t_expect(b, j, 40u8) {
                    Some(k) => match spec_t_parse_list(b, k, fuel) {
                        Some((l, m)) => match spec_t_expect(b, m, 41u8) {
                            Some(e) => Some((SpawnTypeV::RandomPoints(l), e)),
                            None => None,
                        },
                        None => None,
                    },
                    None => None,
                }
            } else if id == kw_fixed() {
                match spec_t_expect(b, j, 40u8) {
                    Some(k) => match spec_t_parse_pos(b, k) {
                        Some((p, m)) => match spec_t_expect(b, m, 41u8) {
                            Some(e) => Some((SpawnTypeV::Fixed(p), e)),
                            None => None,
                        },
                        None => None,
                    },
                    None => None,
                }
            } else if id == kw_order() {
                match spec_t_expect(b, j, 40u8) {
                    Some(k) => match spec_t_parse_list(b, k, fuel) {
                        Some((l, m)) => match spec_t_expect(b, m, 44u8) {
                            Some(n) => match spec_t_parse_usize(b, n) {
                                Some((idx, q)) => match spec_t_expect(b, q, 41u8) {
                                    Some(e) => Some((SpawnTypeV::Order(l, idx), e)),
                                    None => None,
                                },
                                None => None,
                            },
                            None => None,
                        },
                        None => None,
                    },
                    None => None,
                }
            } else if id == kw_order_dec() {
                match spec_t_expect(b, j, 40u8) {
                    Some(k) => match spec_t_parse_list(b, k, fuel) {
                        Some((l, m)) => match spec_t_expect(b, m, 41u8) {
                            Some(e) => Some((SpawnTypeV::OrderDec(l), e)),
                            None => None,
                        },
                        None => None,
                    },
                    None => None,
                }
            } else if id == kw_random_points_dec() {
                match spec_t_expect(b, j, 40u8) {
                    Some(k) => match spec_t_parse_list(b, k, fuel) {
                        Some((l, m)) => match spec_t_expect(b, m, 41u8) {
                            Some(e) => Some((SpawnTypeV::RandomPointsDec(l), e)),
                            None => None,
                        },
                        None => None,
                    },
                    None => None,
                }
            } else {
                None
            }
        },
        None => None,
    }
}

/// What reading a terrain block's fields at `i` yields.
pub open spec fn spec_t_parse_box(b: Seq<u8>, i: int) -> Option<(MapBox, int)> {
    match spec_t_expect(b, i, 40u8) {
        Some(i1) => match spec_t_expect(b, i1, 40u8) {
            Some(i2) => match spec_t_parse_i32(b, i2) {
                Some((x, i3)) => match spec_t_expect(b, i3, 44u8) {
                    Some(i4) => match spec_t_parse_i32(b, i4) {
                        Some((y, i5)) => match spec_t_expect(b, i5, 44u8) {
                            Some(i6) => match spec_t_parse_i32(b, i6) {
                                Some((z, i7)) => match spec_t_expect(b, i7, 41u8) {
                                    Some(i8) => match spec_t_expect(b, i8, 44u8) {
                                        Some(i9) => match spec_t_parse_i32(b, i9) {
                                            Some((w, i10)) => match spec_t_expect(b, i10, 44u8) {
                                                Some(i11) => match spec_t_parse_i32(b, i11) {
                                                    Some((h, i12)) => match spec_t_expect(
                                                        b,
                                                        i12,
                                                        44u8,
                                                    ) {
                                                        Some(i13) => match spec_t_parse_ident(
                                                            b,
                                                            i13,
                                                        ) {
                                                            Some((mid, i14)) => match spec_material_of_kw(
                                                                mid,
                                                            ) {
                                                                Some(m) => match spec_t_expect(
                                                                    b,
                                                                    i14,
                                                                    41u8,
                                                                ) {
                                                                    Some(e) => Some(
                                                                        (
                                                                            MapBox {
                                                                                offset: crate::tile_map::GridOffset {
                                                                                    x,
                                                                                    y,
                                                                                    z,
                                                                                },
                                                                                width: w,
                                                                                height: h,
                                                                                material: m,
                                                                            },
                                                                            e,
                                                                        ),
                                                                    ),
                                                                    None => None,
                                                                },
                                                                None => None,
                                                            },
                                                            None => None,
                                                        },
                                                        None => None,
                                                    },
                                                    None => None,
                                                },
                                                None => None,
                                            },
                                            None => None,
                                        },
                                        None => None,
                                    },
                                    None => None,
                                },
                                None => None,
                            },
                            None => None,
                        },
                        None => None,
                    },
                    None => None,
                },
                None => None,
            },
            None => None,
        },
        None => None,
    }
}

/// What reading a collectable's fields at `i` yields.
pub open spec fn spec_t_parse_collectable(b: Seq<u8>, i: int, fuel: nat) -> Option<
    (CollectableV, int),
> {
    match spec_t_expect(b, i, 40u8) {
        Some(i1) => match spec_t_parse_ident(b, i1) {
            Some((cid, i2)) => match spec_collectable_type_of_kw(cid) {
                Some(ct) => match spec_t_expect(b, i2, 44u8) {
                    Some(i3) => match spec_t_parse_spawn(b, i3, fuel) {
                        Some((st, i4)) => match spec_t_expect(b, i4, 41u8) {
                            Some(e) => Some(
                                (CollectableV { collectable_type: ct, spawn_type: st }, e),
                            ),
                            None => None,
                        },
                        None => None,
                    },
                    None => None,
                },
                None => None,
            },
            None => None,
        },
        None => None,
    }
}

/// What reading one placed object at `i` yields: its tag keyword selects the
/// schema after the colon.
pub open spec fn spec_t_parse_object(b: Seq<u8>, i: int, fuel: nat) -> Option<(MapObjectV, int)> {
    match spec_t_parse_ident(b, i) {
        Some((id, j)) => {
            if id == kw_box() {
                match spec_t_expect(b, j, 58u8) {
                    Some(k) => match spec_t_parse_box(b, k) {
                        Some((x, e)) => Some((MapObjectV::Box(x), e)),
                        None => None,
                    },
                    None => None,
                }
            } else if id == kw_collectable() {
                match spec_t_expect(b, j, 58u8) {
                    Some(k) => match spec_t_parse_collectable(b, k, fuel) {
                        Some((c, e)) => Some((MapObjectV::Collectable(c), e)),
                        None => None,
                    },
                    None => None,
                }
            } else {
                None
            }
        },
        None => None,
    }
}

/// What reading object entries at `i` yields: entries each closed by a
/// comma, until the closing brace.
pub open spec fn spec_t_parse_object_items(b: Seq<u8>, i: int, fuel: nat) -> Option<
    (Seq<MapObjectV>, int),
>
    decreases fuel,
{
    match spec_t_expect(b, i, 125u8) {
        Some(j) => Some((Seq::empty(), j)),
        None => if fuel == 0 {
            None
        } else {
            match spec_t_parse_object(b, i, fuel) {
                Some((o, j)) => match spec_t_expect(b, j, 44u8) {
                    Some(k) => match spec_t_parse_object_items(b, k, (fuel - 1) as nat) {
                        Some((rest, e)) => Some((seq![o] + rest, e)),
                        None => None,
                    },
                    None => None,
                },
                None => None,
            }
        },
    }
}

/// What decoding a whole text yields: the level, or nothing when the text is
/// not one whole level in this form.
pub open spec fn spec_t_parse_level(b: Seq<u8>) -> Option<LevelV> {
    match spec_t_expect(b, 0, 40u8) {
        Some(i1) => match spec_t_parse_ident(b, i1) {
            Some((id1, i2)) => if id1 == kw_start() {
                match spec_t_expect(b, i2, 58u8) {
                    Some(i3) => match spec_t_parse_pos(b, i3) {
                        Some((start, i4)) => match spec_t_expect(b, i4, 44u8) {
                            Some(i5) => match spec_t_parse_ident(b, i5) {
                                Some((id2, i6)) => if id2 == kw_objects() {
                                    match spec_t_expect(b, i6, 58u8) {
                                        Some(i7) => match spec_t_expect(b, i7, 123u8) {
                                            Some(i8) => match spec_t_parse_object_items(
                                                b,
                                                i8,
                                                b.len(),
                                            ) {
                                                Some((objs, i9)) => match spec_t_expect(
                                                    b,
                                                    i9,
                                                    41u8,
                                                ) {
                                                    Some(i10) => if spec_skip_ws(b, i10)
                                                        == b.len() {
                                                        Some(
                                                            LevelV {
                                                                player_start: start,
                                                                objects: objs,
                                                            },
                                                        )
                                                    } else {
                                                        None
                                                    },
                                                    None => None,
                                                },
                                                None => None,
                                            },
                                            None => None,
                                        },
                                        None => None,
                                    }
                                } else {
                                    None
                                },
                                None => None,
                            },
                            None => None,
                        },
                        None => None,
                    },
                    None => None,
                }
            } else {
                None
            },
            None => None,
        },
        None => None,
    }
}

/// Reads a parenthesised grid position.
fn read_pos_t(b: &Vec<u8>, i: usize) -> (r: Option<(GridPos, usize)>)
    requires
        i <= b@.len(),
    ensures
        match r {
            Some((p, e)) => spec_t_parse_pos(b@, i as int) == Some((p, e as int)) && i < e
                <= b@.len(),
            None => spec_t_parse_pos(b@, i as int) is None,
        },
{
    let Some(j) = expect_byte(b, i, 40) else {
        return None;
    };
    let Some((x, k)) = parse_i32_text(b, j) else {
        return None;
    };
    let Some(m) = expect_byte(b, k, 44) else {
        return None;
    };
    let Some((y, n)) = parse_i32_text(b, m) else {
        return None;
    };
    let Some(e) = expect_byte(b, n, 41) else {
        return None;
    };
    Some((GridPos { x, y }, e))
}

/// Reads list items up to the closing bracket.
fn read_pos_items(b: &Vec<u8>, i: usize, fuel: usize) -> (r: Option<(Vec<GridPos>, usize)>)
    requires
        i <= b@.len(),
    ensures
        match r {
            Some((l, e)) => spec_t_parse_pos_items(b@, i as int, fuel as nat) == Some(
                (l@, e as int),
            ) && e <= b@.len(),
            None => spec_t_parse_pos_items(b@, i as int, fuel as nat) is None,
        },
    decreases fuel,
{
    if let Some(j) = expect_byte(b, i, 93) {
        let out: Vec<GridPos> = Vec::new();
        proof {
            assert(out@ =~= Seq::<GridPos>::empty());
        }
        return Some((out, j));
    }
    if fuel == 0 {
        return None;
    }
    let Some((p, j)) = read_pos_t(b, i) else {
        return None;
    };
    let Some(k) = expect_byte(b, j, 44) else {
        return None;
    };
    let Some((mut rest, e)) = read_pos_items(b, k, fuel - 1) else {
        return None;
    };
    let ghost rest0 = rest@;
    rest.insert(0, p);
    proof {
        assert(rest@ =~= seq![p] + rest0);
    }
    Some((rest, e))
}

/// Reads a bracketed position list.
fn read_list_t(b: &Vec<u8>, i: usize, fuel: usize) -> (r: Option<(Vec<GridPos>, usize)>)
    requires
        i <= b@.len(),
    ensures
        match r {
            Some((l, e)) => spec_t_parse_list(b@, i as int, fuel as nat) == Some(
                (l@, e as int),
            ) && e <= b@.len(),
            None => spec_t_parse_list(b@, i as int, fuel as nat) is None,
        },
{
    let Some(j) = expect_byte(b, i, 91) else {
        return None;
    };
    read_pos_items(b, j, fuel)
}

/// Reads a placement strategy.
fn read_spawn_t(b: &Vec<u8>, i: usize, fuel: usize) -> (r: Option<(SpawnType, usize)>)
    requires
        i <= b@.len(),
    ensures
        match r {
            Some((st, e)) => spec_t_parse_spawn(b@, i as int, fuel as nat) == Some(
                (st@, e as int),
            ) && e <= b@.len(),
            None => spec_t_parse_spawn(b@, i as int, fuel as nat) is None,
        },
{
    let Some((id, j)) = parse_ident(b, i) else {
        return None;
    };
    if id_is_none(&id) {
        Some((SpawnType::NoSpawn, j))
    } else if id_is_random_range(&id) {
        let Some(k) = expect_byte(b, j, 40) else {
            return None;
        };
        let Some((a, m)) = read_pos_t(b, k) else {
            return None;
        };
        let Some(n) = expect_byte(b, m, 44) else {
            return None;
        };
        let Some((c, q)) = read_pos_t(b, n) else {
            return None;
        };
        let Some(e) = expect_byte(b, q, 41) else {
            return None;
        };
        Some((SpawnType::RandomRange(a, c), e))
    } else if id_is_random_points(&id) {
        let Some(k) = expect_byte(b, j, 40) else {
            return None;
        };
        let Some((l, m)) = read_list_t(b, k, fuel) else {
            return None;
        };
        let Some(e) = expect_byte(b, m, 41) else {
            return None;
        };
        Some((SpawnType::RandomPoints(l), e))
    } else if id_is_fixed(&id) {
        let Some(k) = expect_byte(b, j, 40) else {
            return None;
        };
        let Some((p, m)) = read_pos_t(b, k) else {
            return None;
        };
        let Some(e) = expect_byte(b, m, 41) else {
            return None;
        };
        Some((SpawnType::Fixed(p), e))
    } else if id_is_order(&id) {
        let Some(k) = expect_byte(b, j, 40) else {
            return None;
        };
        let Some((l, m)) = read_list_t(b, k, fuel) else {
            return None;
        };
        let Some(n) = expect_byte(b, m, 44) else {
            return None;
        };
        let Some((idx, q)) = parse_usize_text(b, n) else {
            return None;
        };
        let Some(e) = expect_byte(b, q, 41) else {
            return None;
        };
        Some((SpawnType::Order(l, idx), e))
    } else if id_is_order_dec(&id) {
        let Some(k) = expect_byte(b, j, 40) else {
            return None;
        };
        let Some((l, m)) = read_list_t(b, k, fuel) else {
            return None;
        };
        let Some(e) = expect_byte(b, m, 41) else {
            return None;
        };
        Some((SpawnType::OrderDec(l), e))
    } else if id_is_random_points_dec(&id) {
        let Some(k) = expect_byte(b, j, 40) else {
            return None;
        };
        let Some((l, m)) = read_list_t(b, k, fuel) else {
            return None;
        };
        let Some(e) = expect_byte(b, m, 41) else {
            return None;
        };
        Some((SpawnType::RandomPointsDec(l), e))
    } else {
        None
    }
}

/// Reads a terrain block's fields.
#[verifier::rlimit(60)]
fn read_box_t(b: &Vec<u8>, i: usize) -> (r: Option<(MapBox, usize)>)
    requires
        i <= b@.len(),
    ensures
        match r {
            Some((x, e)) => spec_t_parse_box(b@, i as int) == Some((x, e as int)) && e
                <= b@.len(),
            None => spec_t_parse_box(b@, i as int) is None,
        },
{
    let Some(i1) = expect_byte(b, i, 40) else {
        return None;
    };
    let Some(i2) = expect_byte(b, i1, 40) else {
        return None;
    };
    let Some((x, i3)) = parse_i32_text(b, i2) else {
        return None;
    };
    let Some(i4) = expect_byte(b, i3, 44) else {
        return None;
    };
    let Some((y, i5)) = parse_i32_text(b, i4) else {
        return None;
    };
    let Some(i6) = expect_byte(b, i5, 44) else {
        return None;
    };
    let Some((z, i7)) = parse_i32_text(b, i6) else {
        return None;
    };
    let Some(i8) = expect_byte(b, i7, 41) else {
        return None;
    };
    let Some(i9) = expect_byte(b, i8, 44) else {
        return None;
    };
    let Some((w, i10)) = parse_i32_text(b, i9) else {
        return None;
    };
    let Some(i11) = expect_byte(b, i10, 44) else {
        return None;
    };
    let Some((h, i12)) = parse_i32_text(b, i11) else {
        return None;
    };
    let Some(i13) = expect_byte(b, i12, 44) else {
        return None;
    };
    let Some((mid, i14)) = parse_ident(b, i13) else {
        return None;
    };
    let material = if id_is_gold(&mid) {
        TerrainMaterial::Gold
    } else if id_is_brick(&mid) {
        TerrainMaterial::Brick
    } else if id_is_copper(&mid) {
        TerrainMaterial::Copper
    } else if id_is_iron(&mid) {
        TerrainMaterial::Iron
    } else if id_is_clay(&mid) {
        TerrainMaterial::Clay
    } else {
        return None;
    };
    let Some(e) = expect_byte(b, i14, 41) else {
        return None;
    };
    Some(
        (
            MapBox {
                offset: crate::tile_map::GridOffset { x, y, z },
                width: w,
                height: h,
                material,
            },
            e,
        ),
    )
}

/// Reads a collectable's fields.
fn read_collectable_t(b: &Vec<u8>, i: usize, fuel: usize) -> (r: Option<(Collectable, usize)>)
    requires
        i <= b@.len(),
    ensures
        match r {
            Some((c, e)) => spec_t_parse_collectable(b@, i as int, fuel as nat) == Some(
                (c@, e as int),
            ) && e <= b@.len(),
            None => spec_t_parse_collectable(b@, i as int, fuel as nat) is None,
        },
{
    let Some(i1) = expect_byte(b, i, 40) else {
        return None;
    };
    let Some((cid, i2)) = parse_ident(b, i1) else {
        return None;
    };
    let ct = if id_is_strawberry(&cid) {
        CollectableType::Strawberry
    } else if id_is_bananan(&cid) {
        CollectableType::Bananan
    } else {
        return None;
    };
    let Some(i3) = expect_byte(b, i2, 44) else {
        return None;
    };
    let Some((st, i4)) = read_spawn_t(b, i3, fuel) else {
        return None;
    };
    let Some(e) = expect_byte(b, i4, 41) else {
        return None;
    };
    Some((Collectable { collectable_type: ct, spawn_type: st }, e))
}

/// Reads one placed object.
fn read_object_t(b: &Vec<u8>, i: usize, fuel: usize) -> (r: Option<(MapObject, usize)>)
    requires
        i <= b@.len(),
    ensures
        match r {
            Some((o, e)) => spec_t_parse_object(b@, i as int, fuel as nat) == Some(
                (o@, e as int),
            ) && e <= b@.len(),
            None => spec_t_parse_object(b@, i as int, fuel as nat) is None,
        },
{
    let Some((id, j)) = parse_ident(b, i) else {
        return None;
    };
    if id_is_box(&id) {
        let Some(k) = expect_byte(b, j, 58) else {
            return None;
        };
        let Some((x, e)) = read_box_t(b, k) else {
            return None;
        };
        Some((MapObject::Box(x), e))
    } else if id_is_collectable(&id) {
        let Some(k) = expect_byte(b, j, 58) else {
            return None;
        };
        let Some((c, e)) = read_collectable_t(b, k, fuel) else {
            return None;
        };
        Some((MapObject::Collectable(c), e))
    } else {
        None
    }
}

/// Reads object entries up to the closing brace.
fn read_object_items(b: &Vec<u8>, i: usize, fuel: usize) -> (r: Option<(Vec<MapObject>, usize)>)
    requires
        i <= b@.len(),
    ensures
        match r {
            Some((l, e)) => spec_t_parse_object_items(b@, i as int, fuel as nat) == Some(
                (crate::codec::spec_deep_objects(l@), e as int),
            ) && e <= b@.len(),
            None => spec_t_parse_object_items(b@, i as int, fuel as nat) is None,
        },
    decreases fuel,
{
    if let Some(j) = expect_byte(b, i, 125) {
        let out: Vec<MapObject> = Vec::new();
        proof {
            assert(crate::codec::spec_deep_objects(out@) =~= Seq::<MapObjectV>::empty());
        }
        return Some((out, j));
    }
    if fuel == 0 {
        return None;
    }
    let Some((o, j)) = read_object_t(b, i, fuel) else {
        return None;
    };
    let Some(k) = expect_byte(b, j, 44) else {
        return None;
    };
    let Some((mut rest, e)) = read_object_items(b, k, fuel - 1) else {
        return None;
    };
    let ghost rest0 = rest@;
    rest.insert(0, o);
    proof {
        assert(crate::codec::spec_deep_objects(rest@) =~= seq![o@] + crate::codec::spec_deep_objects(
            rest0,
        ));
    }
    Some((rest, e))
}

impl Level {
    /// Decodes level text back into a level, or nothing when the text is not
    /// one whole level in this form. Whitespace between tokens and keyword
    /// case do not matter.
    pub fn from_text(b: &Vec<u8>) -> (r: Option<Level>)
        ensures
            match r {
                Some(l) => spec_t_parse_level(b@) == Some(l@),
                None => spec_t_parse_level(b@) is None,
            },
    {
        let Some(i1) = expect_byte(b, 0, 40) else {
            return None;
        };
        let Some((id1, i2)) = parse_ident(b, i1) else {
            return None;
        };
        if !id_is_start(&id1) {
            return None;
        }
        let Some(i3) = expect_byte(b, i2, 58) else {
            return None;
        };
        let Some((start, i4)) = read_pos_t(b, i3) else {
            return None;
        };
        let Some(i5) = expect_byte(b, i4, 44) else {
            return None;
        };
        let Some((id2, i6)) = parse_ident(b, i5) else {
            return None;
        };
        if !id_is_objects(&id2) {
            return None;
        }
        let Some(i7) = expect_byte(b, i6, 58) else {
            return None;
        };
        let Some(i8) = expect_byte(b, i7, 123) else {
            return None;
        };
        let Some((objs, i9)) = read_object_items(b, i8, b.len()) else {
            return None;
        };
        let Some(i10) = expect_byte(b, i9, 41) else {
            return None;
        };
        if skip_ws(b, i10) != b.len() {
            return None;
        }
        let level = Level { player_start: start, objects: objs };
        proof {
            assert(level@.objects =~= crate::codec::spec_deep_objects(level.objects@));
        }
        Some(level)
    }
}

/// Splitting an embedded concatenation: each half stands embedded at its
/// own offset.
proof fn lemma_t_split(b: Seq<u8>, i: int, s1: Seq<u8>, s2: Seq<u8>)
    requires
        0 <= i,
        i + s1.len() + s2.len() <= b.len(),
        b.subrange(i, i + s1.len() + s2.len()) == s1 + s2,
    ensures
        b.subrange(i, i + s1.len()) == s1,
        b.subrange(i + s1.len(), i + s1.len() + s2.len()) == s2,
{
    let whole = b.subrange(i, i + s1.len() + s2.len());
    vstd::assert_seqs_equal!(b.subrange(i, i + s1.len()) == s1, k => {
        assert(b.subrange(i, i + s1.len())[k] == whole[k]);
        assert(whole[k] == (s1 + s2)[k]);
    });
    vstd::assert_seqs_equal!(b.subrange(i + s1.len(), i + s1.len() + s2.len()) == s2, k => {
        assert(b.subrange(i + s1.len(), i + s1.len() + s2.len())[k] == whole[k + s1.len()]);
        assert(whole[k + s1.len()] == (s1 + s2)[k + s1.len()]);
    });
}


/// Every keyword of the vocabulary is nonempty, made of keyword bytes, and
/// already lowercase.
pub open spec fn spec_kw_wf(s: Seq<u8>) -> bool {
    &&& s.len() >= 1
    &&& forall|k: int|
        0 <= k < s.len() ==> spec_is_ident(#[trigger] s[k]) && !(65 <= s[k] <= 90) && !spec_is_ws(
            s[k],
        )
}

proof fn lemma_kw_wf_start()
    ensures
        spec_kw_wf(kw_start()),
{
}

proof fn lemma_kw_wf_objects()
    ensures
        spec_kw_wf(kw_objects()),
{
}

proof fn lemma_kw_wf_box()
    ensures
        spec_kw_wf(kw_box()),
{
}

proof fn lemma_kw_wf_collectable()
    ensures
        spec_kw_wf(kw_collectable()),
{
}

proof fn lemma_kw_wf_gold()
    ensures
        spec_kw_wf(kw_gold()),
{
}

proof fn lemma_kw_wf_brick()
    ensures
        spec_kw_wf(kw_brick()),
{
}

proof fn lemma_kw_wf_copper()
    ensures
        spec_kw_wf(kw_copper()),
{
}

proof fn lemma_kw_wf_iron()
    ensures
        spec_kw_wf(kw_iron()),
{
}

proof fn lemma_kw_wf_clay()
    ensures
        spec_kw_wf(kw_clay()),
{
}

proof fn lemma_kw_wf_strawberry()
    ensures
        spec_kw_wf(kw_strawberry()),
{
}

proof fn lemma_kw_wf_bananan()
    ensures
        spec_kw_wf(kw_bananan()),
{
}

proof fn lemma_kw_wf_none()
    ensures
        spec_kw_wf(kw_none()),
{
}

proof fn lemma_kw_wf_random_range()
    ensures
        spec_kw_wf(kw_random_range()),
{
}

proof fn lemma_kw_wf_random_points()
    ensures
        spec_kw_wf(kw_random_points()),
{
}

proof fn lemma_kw_wf_fixed()
    ensures
        spec_kw_wf(kw_fixed()),
{
}

proof fn lemma_kw_wf_order()
    ensures
        spec_kw_wf(kw_order()),
{
}

proof fn lemma_kw_wf_order_dec()
    ensures
        spec_kw_wf(kw_order_dec()),
{
}

proof fn lemma_kw_wf_random_points_dec()
    ensures
        spec_kw_wf(kw_random_points_dec()),
{
}

/// Reading back an embedded printed position yields it unchanged.
proof fn lemma_t_pos_rt(b: Seq<u8>, i: int, p: GridPos)
    requires
        0 <= i,
        i + spec_t_print_pos(p).len() <= b.len(),
        b.subrange(i, i + spec_t_print_pos(p).len()) == spec_t_print_pos(p),
    ensures
        spec_t_parse_pos(b, i) == Some((p, i + spec_t_print_pos(p).len())),
{
    let px = spec_print_i32(p.x as int);
    let py = spec_print_i32(p.y as int);
    let r1 = px + (seq![44u8] + (py + seq![41u8]));
    lemma_t_split(b, i, seq![40u8], r1);
    assert(b[i] == 40) by {
        assert(b.subrange(i, i + 1)[0] == b[i]);
    }
    lemma_expect_embed(b, i, 40);
    let i1 = i + 1;
    lemma_t_split(b, i1, px, seq![44u8] + (py + seq![41u8]));
    let i2 = i1 + px.len();
    lemma_t_split(b, i2, seq![44u8], py + seq![41u8]);
    assert(b[i2] == 44) by {
        assert(b.subrange(i2, i2 + 1)[0] == b[i2]);
    }
    lemma_parse_i32_embed(b, i1, p.x);
    lemma_expect_embed(b, i2, 44);
    let i3 = i2 + 1;
    lemma_t_split(b, i3, py, seq![41u8]);
    let i4 = i3 + py.len();
    assert(b[i4] == 41) by {
        assert(b.subrange(i4, i4 + 1)[0] == b[i4]);
    }
    lemma_parse_i32_embed(b, i3, p.y);
    lemma_expect_embed(b, i4, 41);
}

/// Each printed list item takes at least one byte.
proof fn lemma_t_pos_items_min_len(l: Seq<GridPos>)
    ensures
        spec_t_print_pos_items(l).len() >= l.len(),
    decreases l.len(),
{
    if l.len() > 0 {
        lemma_t_pos_items_min_len(l.drop_first());
    }
}

/// Reading back embedded printed list items, with the closing bracket right
/// after them, yields the items and steps past the bracket.
proof fn lemma_t_pos_items_rt(b: Seq<u8>, i: int, l: Seq<GridPos>, fuel: nat)
    requires
        fuel >= l.len(),
        0 <= i,
        i + spec_t_print_pos_items(l).len() + 1 <= b.len(),
        b.subrange(i, i + spec_t_print_pos_items(l).len()) == spec_t_print_pos_items(l),
        b[i + spec_t_print_pos_items(l).len()] == 93,
    ensures
        spec_t_parse_pos_items(b, i, fuel) == Some((l, i + spec_t_print_pos_items(l).len() + 1)),
    decreases l.len(),
{
    if l.len() == 0 {
        assert(spec_t_print_pos_items(l).len() == 0);
        lemma_expect_embed(b, i, 93);
        assert(l =~= Seq::<GridPos>::empty());
    } else {
        let e0 = spec_t_print_pos(l[0]);
        let rest = seq![44u8] + spec_t_print_pos_items(l.drop_first());
        assert(spec_t_print_pos_items(l) == e0 + rest);
        lemma_t_split(b, i, e0, rest);
        assert(b[i] == 40) by {
            assert(b.subrange(i, i + e0.len())[0] == b[i]);
            assert(e0[0] == 40);
        }
        assert(spec_t_expect(b, i, 93) is None) by {
            assert(!spec_is_ws(b[i]));
            assert(spec_skip_ws(b, i) == i);
        }
        lemma_t_pos_rt(b, i, l[0]);
        let i1 = i + e0.len();
        lemma_t_split(b, i1, seq![44u8], spec_t_print_pos_items(l.drop_first()));
        assert(b[i1] == 44) by {
            assert(b.subrange(i1, i1 + 1)[0] == b[i1]);
        }
        lemma_expect_embed(b, i1, 44);
        lemma_t_pos_items_rt(b, i1 + 1, l.drop_first(), (fuel - 1) as nat);
        assert(seq![l[0]] + l.drop_first() =~= l);
    }
}

/// Reading back an embedded printed list yields it unchanged.
proof fn lemma_t_list_rt(b: Seq<u8>, i: int, l: Seq<GridPos>, fuel: nat)
    requires
        fuel >= l.len(),
        0 <= i,
        i + spec_t_print_list(l).len() <= b.len(),
        b.subrange(i, i + spec_t_print_list(l).len()) == spec_t_print_list(l),
    ensures
        spec_t_parse_list(b, i, fuel) == Some((l, i + spec_t_print_list(l).len())),
{
    let items = spec_t_print_pos_items(l);
    lemma_t_split(b, i, seq![91u8], items + seq![93u8]);
    assert(b[i] == 91) by {
        assert(b.subrange(i, i + 1)[0] == b[i]);
    }
    lemma_expect_embed(b, i, 91);
    lemma_t_split(b, i + 1, items, seq![93u8]);
    assert(b[i + 1 + items.len()] == 93) by {
        assert(b.subrange(i + 1 + items.len(), i + 1 + items.len() + 1)[0] == b[i + 1
            + items.len()]);
    }
    lemma_t_pos_items_rt(b, i + 1, l, fuel);
}

/// Reading back an embedded printed keyword yields it unchanged, provided no
/// keyword byte follows it.
proof fn lemma_t_kw_rt(b: Seq<u8>, i: int, kw: Seq<u8>)
    requires
        spec_kw_wf(kw),
        0 <= i,
        i + kw.len() <= b.len(),
        b.subrange(i, i + kw.len()) == kw,
        i + kw.len() < b.len() ==> !spec_is_ident(b[i + kw.len()]),
    ensures
        spec_t_parse_ident(b, i) == Some((kw, i + kw.len())),
{
    lemma_parse_ident_embed(b, i, kw);
}

proof fn lemma_t_spawn_rt_nospawn(b: Seq<u8>, i: int, st: SpawnTypeV, fuel: nat)
    requires
        fuel >= spec_t_print_spawn(st).len(),
        0 <= i,
        i + spec_t_print_spawn(st).len() <= b.len(),
        b.subrange(i, i + spec_t_print_spawn(st).len()) == spec_t_print_spawn(st),
        i + spec_t_print_spawn(st).len() < b.len() ==> !spec_is_ident(
            b[i + spec_t_print_spawn(st).len()],
        ),
        st is NoSpawn,
    ensures
        spec_t_parse_spawn(b, i, fuel) == Some((st, i + spec_t_print_spawn(st).len())),
{
    lemma_kw_wf_none();
    lemma_t_kw_rt(b, i, kw_none());
}

proof fn lemma_t_spawn_rt_randomrange(b: Seq<u8>, i: int, st: SpawnTypeV, fuel: nat)
    requires
        fuel >= spec_t_print_spawn(st).len(),
        0 <= i,
        i + spec_t_print_spawn(st).len() <= b.len(),
        b.subrange(i, i + spec_t_print_spawn(st).len()) == spec_t_print_spawn(st),
        i + spec_t_print_spawn(st).len() < b.len() ==> !spec_is_ident(
            b[i + spec_t_print_spawn(st).len()],
        ),
        st matches SpawnTypeV::RandomRange(p, q),
    ensures
        spec_t_parse_spawn(b, i, fuel) == Some((st, i + spec_t_print_spawn(st).len())),
{
    let p = st->RandomRange_0;
    let q = st->RandomRange_1;
    lemma_kw_wf_random_range();
    let kw = kw_random_range();
    let pa = spec_t_print_pos(p);
    let pb = spec_t_print_pos(q);
    let tail = seq![40u8] + (pa + (seq![44u8] + (pb + seq![41u8])));
    lemma_t_split(b, i, kw, tail);
    assert(b[i + kw.len()] == 40) by {
        assert(b.subrange(i + kw.len(), i + kw.len() + tail.len())[0] == b[i
            + kw.len()]);
    }
    lemma_t_kw_rt(b, i, kw);
    let j = i + kw.len();
    lemma_t_split(b, j, seq![40u8], pa + (seq![44u8] + (pb + seq![41u8])));
    lemma_expect_embed(b, j, 40);
    let j1 = j + 1;
    lemma_t_split(b, j1, pa, seq![44u8] + (pb + seq![41u8]));
    lemma_t_pos_rt(b, j1, p);
    let j2 = j1 + pa.len();
    lemma_t_split(b, j2, seq![44u8], pb + seq![41u8]);
    assert(b[j2] == 44) by {
        assert(b.subrange(j2, j2 + 1)[0] == b[j2]);
    }
    lemma_expect_embed(b, j2, 44);
    let j3 = j2 + 1;
    lemma_t_split(b, j3, pb, seq![41u8]);
    lemma_t_pos_rt(b, j3, q);
    let j4 = j3 + pb.len();
    assert(b[j4] == 41) by {
        assert(b.subrange(j4, j4 + 1)[0] == b[j4]);
    }
    lemma_expect_embed(b, j4, 41);
}

proof fn lemma_t_spawn_rt_randompoints(b: Seq<u8>, i: int, st: SpawnTypeV, fuel: nat)
    requires
        fuel >= spec_t_print_spawn(st).len(),
        0 <= i,
        i + spec_t_print_spawn(st).len() <= b.len(),
        b.subrange(i, i + spec_t_print_spawn(st).len()) == spec_t_print_spawn(st),
        i + spec_t_print_spawn(st).len() < b.len() ==> !spec_is_ident(
            b[i + spec_t_print_spawn(st).len()],
        ),
        st matches SpawnTypeV::RandomPoints(l),
    ensures
        spec_t_parse_spawn(b, i, fuel) == Some((st, i + spec_t_print_spawn(st).len())),
{
    let l = st->RandomPoints_0;
    lemma_kw_wf_random_points();
    let kw = kw_random_points();
    let el = spec_t_print_list(l);
    let tail = seq![40u8] + (el + seq![41u8]);
    lemma_t_split(b, i, kw, tail);
    assert(b[i + kw.len()] == 40) by {
        assert(b.subrange(i + kw.len(), i + kw.len() + tail.len())[0] == b[i
            + kw.len()]);
    }
    lemma_t_kw_rt(b, i, kw);
    let j = i + kw.len();
    lemma_t_split(b, j, seq![40u8], el + seq![41u8]);
    lemma_expect_embed(b, j, 40);
    let j1 = j + 1;
    lemma_t_split(b, j1, el, seq![41u8]);
    lemma_t_pos_items_min_len(l);
    lemma_t_list_rt(b, j1, l, fuel);
    let j2 = j1 + el.len();
    assert(b[j2] == 41) by {
        assert(b.subrange(j2, j2 + 1)[0] == b[j2]);
    }
    lemma_expect_embed(b, j2, 41);
    assert(kw != kw_none());
}

proof fn lemma_t_spawn_rt_fixed(b: Seq<u8>, i: int, st: SpawnTypeV, fuel: nat)
    requires
        fuel >= spec_t_print_spawn(st).len(),
        0 <= i,
        i + spec_t_print_spawn(st).len() <= b.len(),
        b.subrange(i, i + spec_t_print_spawn(st).len()) == spec_t_print_spawn(st),
        i + spec_t_print_spawn(st).len() < b.len() ==> !spec_is_ident(
            b[i + spec_t_print_spawn(st).len()],
        ),
        st matches SpawnTypeV::Fixed(p),
    ensures
        spec_t_parse_spawn(b, i, fuel) == Some((st, i + spec_t_print_spawn(st).len())),
{
    let p = st->Fixed_0;
    lemma_kw_wf_fixed();
    let kw = kw_fixed();
    let pa = spec_t_print_pos(p);
    let tail = seq![40u8] + (pa + seq![41u8]);
    lemma_t_split(b, i, kw, tail);
    assert(b[i + kw.len()] == 40) by {
        assert(b.subrange(i + kw.len(), i + kw.len() + tail.len())[0] == b[i
            + kw.len()]);
    }
    lemma_t_kw_rt(b, i, kw);
    let j = i + kw.len();
    lemma_t_split(b, j, seq![40u8], pa + seq![41u8]);
    lemma_expect_embed(b, j, 40);
    let j1 = j + 1;
    lemma_t_split(b, j1, pa, seq![41u8]);
    lemma_t_pos_rt(b, j1, p);
    let j2 = j1 + pa.len();
    assert(b[j2] == 41) by {
        assert(b.subrange(j2, j2 + 1)[0] == b[j2]);
    }
    lemma_expect_embed(b, j2, 41);
}

proof fn lemma_t_spawn_rt_order(b: Seq<u8>, i: int, st: SpawnTypeV, fuel: nat)
    requires
        fuel >= spec_t_print_spawn(st).len(),
        0 <= i,
        i + spec_t_print_spawn(st).len() <= b.len(),
        b.subrange(i, i + spec_t_print_spawn(st).len()) == spec_t_print_spawn(st),
        i + spec_t_print_spawn(st).len() < b.len() ==> !spec_is_ident(
            b[i + spec_t_print_spawn(st).len()],
        ),
        st matches SpawnTypeV::Order(l, idx),
    ensures
        spec_t_parse_spawn(b, i, fuel) == Some((st, i + spec_t_print_spawn(st).len())),
{
    let l = st->Order_0;
    let idx = st->Order_1;
    lemma_kw_wf_order();
    let kw = kw_order();
    let el = spec_t_print_list(l);
    let en = spec_dec_bytes(idx as int);
    let tail = seq![40u8] + (el + (seq![44u8] + (en + seq![41u8])));
    lemma_t_split(b, i, kw, tail);
    assert(b[i + kw.len()] == 40) by {
        assert(b.subrange(i + kw.len(), i + kw.len() + tail.len())[0] == b[i
            + kw.len()]);
    }
    lemma_t_kw_rt(b, i, kw);
    let j = i + kw.len();
    lemma_t_split(b, j, seq![40u8], el + (seq![44u8] + (en + seq![41u8])));
    lemma_expect_embed(b, j, 40);
    let j1 = j + 1;
    lemma_t_split(b, j1, el, seq![44u8] + (en + seq![41u8]));
    lemma_t_pos_items_min_len(l);
    lemma_t_list_rt(b, j1, l, fuel);
    let j2 = j1 + el.len();
    lemma_t_split(b, j2, seq![44u8], en + seq![41u8]);
    assert(b[j2] == 44) by {
        assert(b.subrange(j2, j2 + 1)[0] == b[j2]);
    }
    lemma_expect_embed(b, j2, 44);
    let j3 = j2 + 1;
    lemma_t_split(b, j3, en, seq![41u8]);
    let j4 = j3 + en.len();
    assert(b[j4] == 41) by {
        assert(b.subrange(j4, j4 + 1)[0] == b[j4]);
    }
    lemma_parse_usize_embed(b, j3, idx);
    lemma_expect_embed(b, j4, 41);
}

proof fn lemma_t_spawn_rt_orderdec(b: Seq<u8>, i: int, st: SpawnTypeV, fuel: nat)
    requires
        fuel >= spec_t_print_spawn(st).len(),
        0 <= i,
        i + spec_t_print_spawn(st).len() <= b.len(),
        b.subrange(i, i + spec_t_print_spawn(st).len()) == spec_t_print_spawn(st),
        i + spec_t_print_spawn(st).len() < b.len() ==> !spec_is_ident(
            b[i + spec_t_print_spawn(st).len()],
        ),
        st matches SpawnTypeV::OrderDec(l),
    ensures
        spec_t_parse_spawn(b, i, fuel) == Some((st, i + spec_t_print_spawn(st).len())),
{
    let l = st->OrderDec_0;
    lemma_kw_wf_order_dec();
    let kw = kw_order_dec();
    let el = spec_t_print_list(l);
    let tail = seq![40u8] + (el + seq![41u8]);
    lemma_t_split(b, i, kw, tail);
    assert(b[i + kw.len()] == 40) by {
        assert(b.subrange(i + kw.len(), i + kw.len() + tail.len())[0] == b[i
            + kw.len()]);
    }
    lemma_t_kw_rt(b, i, kw);
    let j = i + kw.len();
    lemma_t_split(b, j, seq![40u8], el + seq![41u8]);
    lemma_expect_embed(b, j, 40);
    let j1 = j + 1;
    lemma_t_split(b, j1, el, seq![41u8]);
    lemma_t_pos_items_min_len(l);
    lemma_t_list_rt(b, j1, l, fuel);
    let j2 = j1 + el.len();
    assert(b[j2] == 41) by {
        assert(b.subrange(j2, j2 + 1)[0] == b[j2]);
    }
    lemma_expect_embed(b, j2, 41);
}

proof fn lemma_t_spawn_rt_randompointsdec(b: Seq<u8>, i: int, st: SpawnTypeV, fuel: nat)
    requires
        fuel >= spec_t_print_spawn(st).len(),
        0 <= i,
        i + spec_t_print_spawn(st).len() <= b.len(),
        b.subrange(i, i + spec_t_print_spawn(st).len()) == spec_t_print_spawn(st),
        i + spec_t_print_spawn(st).len() < b.len() ==> !spec_is_ident(
            b[i + spec_t_print_spawn(st).len()],
        ),
        st matches SpawnTypeV::RandomPointsDec(l),
    ensures
        spec_t_parse_spawn(b, i, fuel) == Some((st, i + spec_t_print_spawn(st).len())),
{
    let l = st->RandomPointsDec_0;
    lemma_kw_wf_random_points_dec();
    let kw = kw_random_points_dec();
    let el = spec_t_print_list(l);
    let tail = seq![40u8] + (el + seq![41u8]);
    lemma_t_split(b, i, kw, tail);
    assert(b[i + kw.len()] == 40) by {
        assert(b.subrange(i + kw.len(), i + kw.len() + tail.len())[0] == b[i
            + kw.len()]);
    }
    lemma_t_kw_rt(b, i, kw);
    let j = i + kw.len();
    lemma_t_split(b, j, seq![40u8], el + seq![41u8]);
    lemma_expect_embed(b, j, 40);
    let j1 = j + 1;
    lemma_t_split(b, j1, el, seq![41u8]);
    lemma_t_pos_items_min_len(l);
    lemma_t_list_rt(b, j1, l, fuel);
    let j2 = j1 + el.len();
    assert(b[j2] == 41) by {
        assert(b.subrange(j2, j2 + 1)[0] == b[j2]);
    }
    lemma_expect_embed(b, j2, 41);
}

/// Reading back an embedded printed strategy yields it unchanged, provided
/// no keyword byte follows it.
proof fn lemma_t_spawn_rt(b: Seq<u8>, i: int, st: SpawnTypeV, fuel: nat)
    requires
        fuel >= spec_t_print_spawn(st).len(),
        0 <= i,
        i + spec_t_print_spawn(st).len() <= b.len(),
        b.subrange(i, i + spec_t_print_spawn(st).len()) == spec_t_print_spawn(st),
        i + spec_t_print_spawn(st).len() < b.len() ==> !spec_is_ident(
            b[i + spec_t_print_spawn(st).len()],
        ),
    ensures
        spec_t_parse_spawn(b, i, fuel) == Some((st, i + spec_t_print_spawn(st).len())),
{
    match st {
        SpawnTypeV::NoSpawn => lemma_t_spawn_rt_nospawn(b, i, st, fuel),
        SpawnTypeV::RandomRange(..) => lemma_t_spawn_rt_randomrange(b, i, st, fuel),
        SpawnTypeV::RandomPoints(..) => lemma_t_spawn_rt_randompoints(b, i, st, fuel),
        SpawnTypeV::Fixed(..) => lemma_t_spawn_rt_fixed(b, i, st, fuel),
        SpawnTypeV::Order(..) => lemma_t_spawn_rt_order(b, i, st, fuel),
        SpawnTypeV::OrderDec(..) => lemma_t_spawn_rt_orderdec(b, i, st, fuel),
        SpawnTypeV::RandomPointsDec(..) => lemma_t_spawn_rt_randompointsdec(b, i, st, fuel),
    }
}

/// Reading back an embedded printed terrain block yields it unchanged.
#[verifier::rlimit(100)]
proof fn lemma_t_box_rt(b: Seq<u8>, i: int, x: MapBox)
    requires
        0 <= i,
        i + spec_t_print_box(x).len() <= b.len(),
        b.subrange(i, i + spec_t_print_box(x).len()) == spec_t_print_box(x),
    ensures
        spec_t_parse_box(b, i) == Some((x, i + spec_t_print_box(x).len())),
{
    match x.material {
        TerrainMaterial::Gold => lemma_kw_wf_gold(),
        TerrainMaterial::Brick => lemma_kw_wf_brick(),
        TerrainMaterial::Copper => lemma_kw_wf_copper(),
        TerrainMaterial::Iron => lemma_kw_wf_iron(),
        TerrainMaterial::Clay => lemma_kw_wf_clay(),
    }
    let ex = spec_print_i32(x.offset.x as int);
    let ey = spec_print_i32(x.offset.y as int);
    let ez = spec_print_i32(x.offset.z as int);
    let ew = spec_print_i32(x.width as int);
    let eh = spec_print_i32(x.height as int);
    let em = spec_t_print_material(x.material);
    let inner = seq![40u8] + (ex + (seq![44u8] + (ey + (seq![44u8] + (ez + seq![41u8])))));
    let tail = seq![44u8] + (ew + (seq![44u8] + (eh + (seq![44u8] + (em + seq![41u8])))));
    assert(spec_t_print_box(x) == seq![40u8] + (inner + tail));
    lemma_t_split(b, i, seq![40u8], inner + tail);
    assert(b[i] == 40) by {
        assert(b.subrange(i, i + 1)[0] == b[i]);
    }
    lemma_expect_embed(b, i, 40);
    let i1 = i + 1;
    lemma_t_split(b, i1, inner, tail);
    lemma_t_split(b, i1, seq![40u8], ex + (seq![44u8] + (ey + (seq![44u8] + (ez + seq![41u8])))));
    assert(b[i1] == 40) by {
        assert(b.subrange(i1, i1 + 1)[0] == b[i1]);
    }
    lemma_expect_embed(b, i1, 40);
    let i2 = i1 + 1;
    lemma_t_split(b, i2, ex, seq![44u8] + (ey + (seq![44u8] + (ez + seq![41u8]))));
    let i3 = i2 + ex.len();
    lemma_t_split(b, i3, seq![44u8], ey + (seq![44u8] + (ez + seq![41u8])));
    assert(b[i3] == 44) by {
        assert(b.subrange(i3, i3 + 1)[0] == b[i3]);
    }
    lemma_parse_i32_embed(b, i2, x.offset.x);
    lemma_expect_embed(b, i3, 44);
    let i4 = i3 + 1;
    lemma_t_split(b, i4, ey, seq![44u8] + (ez + seq![41u8]));
    let i5 = i4 + ey.len();
    lemma_t_split(b, i5, seq![44u8], ez + seq![41u8]);
    assert(b[i5] == 44) by {
        assert(b.subrange(i5, i5 + 1)[0] == b[i5]);
    }
    lemma_parse_i32_embed(b, i4, x.offset.y);
    lemma_expect_embed(b, i5, 44);
    let i6 = i5 + 1;
    lemma_t_split(b, i6, ez, seq![41u8]);
    let i7 = i6 + ez.len();
    assert(b[i7] == 41) by {
        assert(b.subrange(i7, i7 + 1)[0] == b[i7]);
    }
    lemma_parse_i32_embed(b, i6, x.offset.z);
    lemma_expect_embed(b, i7, 41);
    let i8 = i7 + 1;
    assert(i8 == i1 + inner.len());
    lemma_t_split(b, i8, seq![44u8], ew + (seq![44u8] + (eh + (seq![44u8] + (em + seq![41u8])))));
    assert(b[i8] == 44) by {
        assert(b.subrange(i8, i8 + 1)[0] == b[i8]);
    }
    lemma_expect_embed(b, i8, 44);
    let i9 = i8 + 1;
    lemma_t_split(b, i9, ew, seq![44u8] + (eh + (seq![44u8] + (em + seq![41u8]))));
    let i10 = i9 + ew.len();
    lemma_t_split(b, i10, seq![44u8], eh + (seq![44u8] + (em + seq![41u8])));
    assert(b[i10] == 44) by {
        assert(b.subrange(i10, i10 + 1)[0] == b[i10]);
    }
    lemma_parse_i32_embed(b, i9, x.width);
    lemma_expect_embed(b, i10, 44);
    let i11 = i10 + 1;
    lemma_t_split(b, i11, eh, seq![44u8] + (em + seq![41u8]));
    let i12 = i11 + eh.len();
    lemma_t_split(b, i12, seq![44u8], em + seq![41u8]);
    assert(b[i12] == 44) by {
        assert(b.subrange(i12, i12 + 1)[0] == b[i12]);
    }
    lemma_parse_i32_embed(b, i11, x.height);
    lemma_expect_embed(b, i12, 44);
    let i13 = i12 + 1;
    lemma_t_split(b, i13, em, seq![41u8]);
    let i14 = i13 + em.len();
    assert(b[i14] == 41) by {
        assert(b.subrange(i14, i14 + 1)[0] == b[i14]);
    }
    lemma_t_kw_rt(b, i13, em);
    assert(spec_material_of_kw(em) == Some(x.material));
    lemma_expect_embed(b, i14, 41);
}

/// Reading back an embedded printed collectable yields it unchanged.
proof fn lemma_t_collectable_rt(b: Seq<u8>, i: int, c: CollectableV, fuel: nat)
    requires
        fuel >= spec_t_print_collectable(c).len(),
        0 <= i,
        i + spec_t_print_collectable(c).len() <= b.len(),
        b.subrange(i, i + spec_t_print_collectable(c).len()) == spec_t_print_collectable(c),
    ensures
        spec_t_parse_collectable(b, i, fuel) == Some((c, i + spec_t_print_collectable(c).len())),
{
    match c.collectable_type {
        CollectableType::Strawberry => lemma_kw_wf_strawberry(),
        CollectableType::Bananan => lemma_kw_wf_bananan(),
    }
    let ec = spec_t_print_collectable_type(c.collectable_type);
    let es = spec_t_print_spawn(c.spawn_type);
    let tail = ec + (seq![44u8] + (es + seq![41u8]));
    lemma_t_split(b, i, seq![40u8], tail);
    assert(b[i] == 40) by {
        assert(b.subrange(i, i + 1)[0] == b[i]);
    }
    lemma_expect_embed(b, i, 40);
    let i1 = i + 1;
    lemma_t_split(b, i1, ec, seq![44u8] + (es + seq![41u8]));
    let i2 = i1 + ec.len();
    lemma_t_split(b, i2, seq![44u8], es + seq![41u8]);
    assert(b[i2] == 44) by {
        assert(b.subrange(i2, i2 + 1)[0] == b[i2]);
    }
    lemma_t_kw_rt(b, i1, ec);
    assert(spec_collectable_type_of_kw(ec) == Some(c.collectable_type));
    lemma_expect_embed(b, i2, 44);
    let i3 = i2 + 1;
    lemma_t_split(b, i3, es, seq![41u8]);
    let i4 = i3 + es.len();
    assert(b[i4] == 41) by {
        assert(b.subrange(i4, i4 + 1)[0] == b[i4]);
    }
    assert(!spec_is_ident(41u8));
    lemma_t_spawn_rt(b, i3, c.spawn_type, fuel);
    lemma_expect_embed(b, i4, 41);
}

/// Reading back one embedded printed object yields it unchanged.
#[verifier::rlimit(100)]
proof fn lemma_t_object_rt(b: Seq<u8>, i: int, o: MapObjectV, fuel: nat)
    requires
        fuel >= spec_t_print_object(o).len(),
        0 <= i,
        i + spec_t_print_object(o).len() <= b.len(),
        b.subrange(i, i + spec_t_print_object(o).len()) == spec_t_print_object(o),
    ensures
        spec_t_parse_object(b, i, fuel) == Some((o, i + spec_t_print_object(o).len())),
{
    lemma_kw_wf_box();
    lemma_kw_wf_collectable();
    match o {
        MapObjectV::Box(x) => {
            let kw = kw_box();
            let eb = spec_t_print_box(x);
            lemma_t_split(b, i, kw, seq![58u8] + eb);
            let j = i + kw.len();
            lemma_t_split(b, j, seq![58u8], eb);
            assert(b[j] == 58) by {
                assert(b.subrange(j, j + 1)[0] == b[j]);
            }
            lemma_t_kw_rt(b, i, kw);
            lemma_expect_embed(b, j, 58);
            lemma_t_box_rt(b, j + 1, x);
            assert(kw_box() != kw_collectable());
        },
        MapObjectV::Collectable(c) => {
            let kw = kw_collectable();
            let ec = spec_t_print_collectable(c);
            lemma_t_split(b, i, kw, seq![58u8] + ec);
            let j = i + kw.len();
            lemma_t_split(b, j, seq![58u8], ec);
            assert(b[j] == 58) by {
                assert(b.subrange(j, j + 1)[0] == b[j]);
            }
            lemma_t_kw_rt(b, i, kw);
            lemma_expect_embed(b, j, 58);
            lemma_t_collectable_rt(b, j + 1, c, fuel);
            assert(kw_box() != kw_collectable());
        },
    }
}

/// Each printed object entry takes at least one byte.
proof fn lemma_t_objects_min_len(l: Seq<MapObjectV>)
    ensures
        spec_t_print_objects(l).len() >= l.len(),
    decreases l.len(),
{
    if l.len() > 0 {
        lemma_t_objects_min_len(l.drop_first());
    }
}

/// Reading back embedded printed object entries, with the closing brace
/// right after them, yields the objects and steps past the brace.
#[verifier::rlimit(100)]
proof fn lemma_t_object_items_rt(b: Seq<u8>, i: int, l: Seq<MapObjectV>, fuel: nat)
    requires
        fuel >= spec_t_print_objects(l).len(),
        0 <= i,
        i + spec_t_print_objects(l).len() + 1 <= b.len(),
        b.subrange(i, i + spec_t_print_objects(l).len()) == spec_t_print_objects(l),
        b[i + spec_t_print_objects(l).len()] == 125,
    ensures
        spec_t_parse_object_items(b, i, fuel) == Some(
            (l, i + spec_t_print_objects(l).len() + 1),
        ),
    decreases l.len(),
{
    if l.len() == 0 {
        assert(spec_t_print_objects(l).len() == 0);
        lemma_expect_embed(b, i, 125);
        assert(l =~= Seq::<MapObjectV>::empty());
    } else {
        let e0 = spec_t_print_object(l[0]);
        let rest = seq![44u8] + spec_t_print_objects(l.drop_first());
        assert(spec_t_print_objects(l) == e0 + rest);
        lemma_t_split(b, i, e0, rest);
        assert(e0.len() >= 1);
        assert(b[i] == e0[0]) by {
            assert(b.subrange(i, i + e0.len())[0] == b[i]);
        }
        assert(b[i] == 98 || b[i] == 99) by {
            match l[0] {
                MapObjectV::Box(_) => {
                    assert(e0[0] == kw_box()[0]);
                },
                MapObjectV::Collectable(_) => {
                    assert(e0[0] == kw_collectable()[0]);
                },
            }
        }
        assert(spec_t_expect(b, i, 125) is None) by {
            assert(!spec_is_ws(b[i]));
            assert(spec_skip_ws(b, i) == i);
        }
        lemma_t_object_rt(b, i, l[0], fuel);
        let i1 = i + e0.len();
        lemma_t_split(b, i1, seq![44u8], spec_t_print_objects(l.drop_first()));
        assert(b[i1] == 44) by {
            assert(b.subrange(i1, i1 + 1)[0] == b[i1]);
        }
        lemma_expect_embed(b, i1, 44);
        lemma_t_object_items_rt(b, i1 + 1, l.drop_first(), (fuel - 1) as nat);
        assert(seq![l[0]] + l.drop_first() =~= l);
    }
}

/// The round trip of the text encoding: for every level, decoding its
/// printed text yields that level back — in particular an equal start, an
/// equal object count, and equal per-index object kinds.
/// Consumes one punctuation byte at the head of the remaining text.
proof fn lemma_chain_punct(b: Seq<u8>, i: int, c: u8, rest: Seq<u8>)
    requires
        0 <= i,
        !spec_is_ws(c),
        b.len() == i + 1 + rest.len(),
        b.subrange(i, b.len() as int) == seq![c] + rest,
    ensures
        spec_t_expect(b, i, c) == Some(i + 1),
        b.subrange(i + 1, b.len() as int) == rest,
{
    assert(b[i] == c) by {
        assert(b.subrange(i, b.len() as int)[0] == b[i]);
    }
    lemma_expect_embed(b, i, c);
    vstd::assert_seqs_equal!(b.subrange(i + 1, b.len() as int) == rest, k => {
        assert(b.subrange(i + 1, b.len() as int)[k] == b.subrange(i, b.len() as int)[k + 1]);
    });
}

/// Consumes one keyword at the head of the remaining text.
proof fn lemma_chain_kw(b: Seq<u8>, i: int, kw: Seq<u8>, rest: Seq<u8>)
    requires
        0 <= i,
        spec_kw_wf(kw),
        b.len() == i + kw.len() + rest.len(),
        b.subrange(i, b.len() as int) == kw + rest,
        rest.len() > 0 ==> !spec_is_ident(rest[0]),
    ensures
        spec_t_parse_ident(b, i) == Some((kw, i + kw.len())),
        b.subrange(i + kw.len(), b.len() as int) == rest,
{
    vstd::assert_seqs_equal!(b.subrange(i, i + kw.len() as int) == kw, k => {
        assert(b.subrange(i, i + kw.len() as int)[k] == b.subrange(i, b.len() as int)[k]);
    });
    vstd::assert_seqs_equal!(b.subrange(i + kw.len(), b.len() as int) == rest, k => {
        assert(b.subrange(i + kw.len(), b.len() as int)[k] == b.subrange(i, b.len() as int)[k
            + kw.len()]);
    });
    if rest.len() > 0 {
        assert(b[i + kw.len()] == rest[0]) by {
            assert(b.subrange(i + kw.len(), b.len() as int)[0] == b[i + kw.len()]);
        }
    }
    lemma_parse_ident_embed(b, i, kw);
}

/// Consumes one printed position at the head of the remaining text.
proof fn lemma_chain_pos(b: Seq<u8>, i: int, p: GridPos, rest: Seq<u8>)
    requires
        0 <= i,
        b.len() == i + spec_t_print_pos(p).len() + rest.len(),
        b.subrange(i, b.len() as int) == spec_t_print_pos(p) + rest,
    ensures
        spec_t_parse_pos(b, i) == Some((p, i + spec_t_print_pos(p).len())),
        b.subrange(i + spec_t_print_pos(p).len(), b.len() as int) == rest,
{
    let ep = spec_t_print_pos(p);
    vstd::assert_seqs_equal!(b.subrange(i, i + ep.len() as int) == ep, k => {
        assert(b.subrange(i, i + ep.len() as int)[k] == b.subrange(i, b.len() as int)[k]);
    });
    vstd::assert_seqs_equal!(b.subrange(i + ep.len(), b.len() as int) == rest, k => {
        assert(b.subrange(i + ep.len(), b.len() as int)[k] == b.subrange(i, b.len() as int)[k
            + ep.len()]);
    });
    lemma_t_pos_rt(b, i, p);
}

/// The `start` half of a level text parses as expected, and the tail after
/// its comma stands embedded right after it.
proof fn lemma_text_rt_start(b: Seq<u8>, p: GridPos, t: Seq<u8>)
    requires
        b == seq![40u8] + (kw_start() + (seq![58u8] + (spec_t_print_pos(p) + (seq![44u8] + t)))),
    ensures
        ({
            let ep = spec_t_print_pos(p);
            let i2 = 1 + kw_start().len() as int;
            let i3 = i2 + 1;
            let i4 = i3 + ep.len() as int;
            let i5 = i4 + 1;
            &&& spec_t_expect(b, 0, 40u8) == Some(1int)
            &&& spec_t_parse_ident(b, 1) == Some((kw_start(), i2))
            &&& spec_t_expect(b, i2, 58u8) == Some(i3)
            &&& spec_t_parse_pos(b, i3) == Some((p, i4))
            &&& spec_t_expect(b, i4, 44u8) == Some(i5)
            &&& b.len() == i5 + t.len()
            &&& b.subrange(i5, b.len() as int) == t
        }),
{
    lemma_kw_wf_start();
    let ep = spec_t_print_pos(p);
    let r4 = seq![44u8] + t;
    let r3 = ep + r4;
    let r2 = seq![58u8] + r3;
    let r1 = kw_start() + r2;
    assert(b.subrange(0, b.len() as int) =~= b);
    lemma_chain_punct(b, 0, 40u8, r1);
    assert(r2[0] == 58) by {
        assert(r2 == seq![58u8] + r3);
    }
    lemma_chain_kw(b, 1, kw_start(), r2);
    let i2 = 1 + kw_start().len() as int;
    lemma_chain_punct(b, i2, 58u8, r3);
    let i3 = i2 + 1;
    lemma_chain_pos(b, i3, p, r4);
    let i4 = i3 + ep.len() as int;
    lemma_chain_punct(b, i4, 44u8, t);
}

/// The `objects` half: from the field keyword, through the colon and brace,
/// the entries stand embedded with the closing brace, parenthesis, and end
/// of text after them.
proof fn lemma_text_rt_objhead(b: Seq<u8>, i5: int, eo: Seq<u8>)
    requires
        0 <= i5,
        b.subrange(i5, b.len() as int) == kw_objects() + (seq![58u8] + (seq![123u8] + (eo + (
        seq![125u8] + seq![41u8])))),
        b.len() == i5 + kw_objects().len() + eo.len() + 4,
    ensures
        ({
            let i6 = i5 + kw_objects().len() as int;
            let i7 = i6 + 1;
            let i8 = i7 + 1;
            &&& spec_t_parse_ident(b, i5) == Some((kw_objects(), i6))
            &&& spec_t_expect(b, i6, 58u8) == Some(i7)
            &&& spec_t_expect(b, i7, 123u8) == Some(i8)
            &&& b.subrange(i8, i8 + eo.len() as int) == eo
            &&& b[i8 + eo.len() as int] == 125
            &&& b[i8 + eo.len() as int + 1] == 41
            &&& b.len() == i8 + eo.len() + 2
        }),
{
    lemma_kw_wf_objects();
    let r9 = seq![125u8] + seq![41u8];
    let r8 = eo + r9;
    let r7 = seq![123u8] + r8;
    let r6 = seq![58u8] + r7;
    assert(r6[0] == 58) by {
        assert(r6 == seq![58u8] + r7);
    }
    lemma_chain_kw(b, i5, kw_objects(), r6);
    let i6 = i5 + kw_objects().len() as int;
    lemma_chain_punct(b, i6, 58u8, r7);
    let i7 = i6 + 1;
    lemma_chain_punct(b, i7, 123u8, r8);
    let i8 = i7 + 1;
    vstd::assert_seqs_equal!(b.subrange(i8, i8 + eo.len() as int) == eo, k => {
        assert(b.subrange(i8, i8 + eo.len() as int)[k] == b.subrange(i8, b.len() as int)[k]);
    });
    assert(b[i8 + eo.len() as int] == 125) by {
        assert(b.subrange(i8, b.len() as int)[eo.len() as int] == b[i8 + eo.len() as int]);
        assert(r8[eo.len() as int] == r9[0]);
    }
    assert(b[i8 + eo.len() as int + 1] == 41) by {
        assert(b.subrange(i8, b.len() as int)[eo.len() as int + 1] == b[i8 + eo.len() as int
            + 1]);
        assert(r8[eo.len() as int + 1] == r9[1]);
    }
}

/// The round trip of the text encoding: for every level, decoding its
/// printed text yields that level back — in particular an equal start, an
/// equal object count, and equal per-index object kinds.
#[verifier::rlimit(100)]
#[verifier::spinoff_prover]
pub proof fn lemma_text_round_trip(l: LevelV)
    ensures
        spec_t_parse_level(spec_t_print_level(l)) == Some(l),
        spec_t_parse_level(spec_t_print_level(l)) matches Some(m)
            && crate::levels::spec_level_equivalent(m, l),
{
    let b = spec_t_print_level(l);
    let ep = spec_t_print_pos(l.player_start);
    let eo = spec_t_print_objects(l.objects);
    let t = kw_objects() + (seq![58u8] + (seq![123u8] + (eo + (seq![125u8] + seq![41u8]))));
    lemma_text_rt_start(b, l.player_start, t);
    let i2 = 1 + kw_start().len() as int;
    let i3 = i2 + 1;
    let i4 = i3 + ep.len() as int;
    let i5 = i4 + 1;
    assert(b.len() == i5 + kw_objects().len() + eo.len() + 4);
    lemma_text_rt_objhead(b, i5, eo);
    let i6 = i5 + kw_objects().len() as int;
    let i7 = i6 + 1;
    let i8 = i7 + 1;
    let i9 = i8 + eo.len() as int;
    lemma_t_objects_min_len(l.objects);
    lemma_t_object_items_rt(b, i8, l.objects, b.len());
    let i10 = i9 + 1;
    lemma_expect_embed(b, i10, 41);
    assert(i10 + 1 == b.len());
    assert(spec_skip_ws(b, i10 + 1) == b.len());
    let parsed = spec_t_parse_level(b);
    assert(parsed is Some);
    assert(parsed->0.player_start == l.player_start);
    assert(parsed->0.objects == l.objects);
    assert(parsed->0 =~= l);
    assert(crate::levels::spec_level_equivalent(l, l));
}


} // verus!

