//! Serialisation of events and threats: a fixed-stride binary format with
//! a proved round trip.
//!
//! A record is flattened into a vector of numbers (field values, tags,
//! lengths) and a vector of characters (every string, concatenated), each
//! written with a leading count; numbers take eight bytes little-endian,
//! characters four.  Decoding any encoding gives back the record it came
//! from: see the `ensures` of [`decode_event`] and [`decode_threat`].

use vstd::prelude::*;

use crate::types::{
    EventDetails, EventDetailsV, EventType, FileEvent, FileEventV, MemoryEvent, MemoryEventV,
    NetworkEvent, NetworkEventV, ProcessEvent, ProcessEventV, RootkitEvent, RootkitEventV,
    Severity, SystemEvent, SystemEventV, Threat, ThreatType, ThreatV, UserEvent, UserEventV,
};

verus! {

/// 256 to the `k`.
pub open spec fn pow256(k: nat) -> int
    decreases k,
{
    if k == 0 {
        1
    } else {
        256 * pow256((k - 1) as nat)
    }
}

proof fn lemma_pow256_pos(k: nat)
    ensures
        pow256(k) >= 1,
    decreases k,
{
    if k > 0 {
        lemma_pow256_pos((k - 1) as nat);
    }
}

proof fn lemma_pow256_mono(a: nat, b: nat)
    requires
        a <= b,
    ensures
        pow256(a) <= pow256(b),
    decreases b,
{
    if a < b {
        lemma_pow256_mono(a, (b - 1) as nat);
        lemma_pow256_pos((b - 1) as nat);
    }
}

proof fn lemma_pow256_8()
    ensures
        pow256(2) == 0x10000,
        pow256(4) == 0x1_0000_0000,
        pow256(7) == 0x100_0000_0000_0000,
        pow256(8) == 0x1_0000_0000_0000_0000,
{
    assert(pow256(0) == 1);
    assert(pow256(1) == 256);
    assert(pow256(2) == 0x10000);
    assert(pow256(3) == 0x100_0000);
    assert(pow256(4) == 0x1_0000_0000);
    assert(pow256(5) == 0x100_0000_0000);
    assert(pow256(6) == 0x1_0000_0000_0000);
    assert(pow256(7) == 0x100_0000_0000_0000);
    assert(pow256(8) == 0x1_0000_0000_0000_0000);
}

/// A non-negative number as `k` bytes, least significant first.
pub open spec fn enc_le(n: int, k: nat) -> Seq<u8>
    decreases k,
{
    if k == 0 {
        Seq::empty()
    } else {
        seq![(n % 256) as u8] + enc_le(n / 256, (k - 1) as nat)
    }
}

/// The number held by `k` bytes of `b` starting at `pos`.
pub open spec fn dec_le(b: Seq<u8>, pos: int, k: nat) -> int
    decreases k,
{
    if k == 0 {
        0
    } else {
        b[pos] + 256 * dec_le(b, pos + 1, (k - 1) as nat)
    }
}

proof fn lemma_enc_le_len(n: int, k: nat)
    ensures
        enc_le(n, k).len() == k,
    decreases k,
{
    if k > 0 {
        lemma_enc_le_len(n / 256, (k - 1) as nat);
    }
}

/// Decoding an encoding gives the number back.
proof fn lemma_le_round(b: Seq<u8>, pos: int, n: int, k: nat)
    requires
        0 <= n < pow256(k),
        0 <= pos,
        pos + k <= b.len(),
        b.subrange(pos, pos + k) == enc_le(n, k),
    ensures
        dec_le(b, pos, k) == n,
    decreases k,
{
    lemma_enc_le_len(n, k);
    if k > 0 {
        lemma_enc_le_len(n / 256, (k - 1) as nat);
        assert(b.subrange(pos, pos + k)[0] == b[pos]);
        assert(b[pos] == n % 256);
        assert(b.subrange(pos + 1, pos + k) =~= b.subrange(pos, pos + k).subrange(1, k as int));
        assert(b.subrange(pos, pos + k).subrange(1, k as int) =~= enc_le(n / 256, (k - 1) as nat));
        lemma_pow256_pos((k - 1) as nat);
        assert(n / 256 < pow256((k - 1) as nat)) by (nonlinear_arith)
            requires
                0 <= n,
                n < 256 * pow256((k - 1) as nat),
                pow256((k - 1) as nat) >= 1,
        {}
        lemma_le_round(b, pos + 1, n / 256, (k - 1) as nat);
    }
}

/// Any `k` bytes decode to a number that encodes back to the same bytes,
/// and the number is below 256 to the `k`.
proof fn lemma_le_enc_dec(b: Seq<u8>, pos: int, k: nat)
    requires
        0 <= pos,
        pos + k <= b.len(),
    ensures
        0 <= dec_le(b, pos, k) < pow256(k),
        enc_le(dec_le(b, pos, k), k) == b.subrange(pos, pos + k),
    decreases k,
{
    if k == 0 {
        assert(enc_le(0, 0) =~= b.subrange(pos, pos));
    } else {
        lemma_le_enc_dec(b, pos + 1, (k - 1) as nat);
        let rest = dec_le(b, pos + 1, (k - 1) as nat);
        let d = b[pos] + 256 * rest;
        assert(0 <= d < 256 * pow256((k - 1) as nat)) by (nonlinear_arith)
            requires
                d == b[pos] + 256 * rest,
                0 <= b[pos] < 256,
                0 <= rest,
                rest < pow256((k - 1) as nat),
        {}
        assert(d % 256 == b[pos] && d / 256 == rest) by (nonlinear_arith)
            requires
                d == b[pos] + 256 * rest,
                0 <= b[pos] < 256,
                0 <= rest,
        {}
        lemma_enc_le_len(rest, (k - 1) as nat);
        assert(enc_le(d, k) =~= b.subrange(pos, pos + k));
    }
}

/// Encode a number as `k` little-endian bytes.
fn enc_le_vec(n: u64, k: usize) -> (r: Vec<u8>)
    ensures
        r@ == enc_le(n as int, k as nat),
    decreases k,
{
    if k == 0 {
        let r: Vec<u8> = Vec::new();
        proof {
            assert(r@ =~= enc_le(n as int, 0));
        }
        r
    } else {
        let mut v: Vec<u8> = Vec::new();
        v.push((n % 256) as u8);
        let mut rest = enc_le_vec(n / 256, k - 1);
        v.append(&mut rest);
        proof {
            assert(v@ =~= enc_le(n as int, k as nat));
        }
        v
    }
}

/// Decode `k` little-endian bytes at `pos`.
fn dec_le_vec(bytes: &Vec<u8>, pos: usize, k: usize) -> (r: u64)
    requires
        k <= 8,
        pos + k <= bytes@.len(),
    ensures
        r == dec_le(bytes@, pos as int, k as nat),
    decreases k,
{
    if k == 0 {
        0
    } else {
        let _bytes_len: usize = bytes.len();
        let rest = dec_le_vec(bytes, pos + 1, k - 1);
        proof {
            lemma_le_enc_dec(bytes@, pos + 1, (k - 1) as nat);
            lemma_pow256_mono((k - 1) as nat, 7);
            lemma_pow256_8();
        }
        bytes[pos] as u64 + 256 * rest
    }
}

/// The numbers of a record, flattened: eight bytes each.
pub open spec fn nums_flat(v: Seq<u64>) -> Seq<u8>
    decreases v.len(),
{
    if v.len() == 0 {
        Seq::empty()
    } else {
        nums_flat(v.drop_last()) + enc_le(v.last() as int, 8)
    }
}

/// The characters of a record, flattened: four bytes each.
pub open spec fn chars_flat(v: Seq<char>) -> Seq<u8>
    decreases v.len(),
{
    if v.len() == 0 {
        Seq::empty()
    } else {
        chars_flat(v.drop_last()) + enc_le(v.last() as u32 as int, 4)
    }
}

proof fn lemma_nums_flat_len(v: Seq<u64>)
    ensures
        nums_flat(v).len() == 8 * v.len(),
    decreases v.len(),
{
    if v.len() > 0 {
        lemma_nums_flat_len(v.drop_last());
        lemma_enc_le_len(v.last() as int, 8);
    }
}

proof fn lemma_chars_flat_len(v: Seq<char>)
    ensures
        chars_flat(v).len() == 4 * v.len(),
    decreases v.len(),
{
    if v.len() > 0 {
        lemma_chars_flat_len(v.drop_last());
        lemma_enc_le_len(v.last() as u32 as int, 4);
    }
}

proof fn lemma_nums_flat_index(v: Seq<u64>, i: int)
    requires
        0 <= i < v.len(),
    ensures
        nums_flat(v).len() == 8 * v.len(),
        nums_flat(v).subrange(8 * i, 8 * i + 8) == enc_le(v[i] as int, 8),
    decreases v.len(),
{
    lemma_nums_flat_len(v);
    lemma_enc_le_len(v.last() as int, 8);
    if i == v.len() - 1 {
        lemma_nums_flat_len(v.drop_last());
        assert(nums_flat(v).subrange(8 * i, 8 * i + 8) =~= enc_le(v.last() as int, 8));
    } else {
        lemma_nums_flat_index(v.drop_last(), i);
        lemma_nums_flat_len(v.drop_last());
        assert(nums_flat(v).subrange(8 * i, 8 * i + 8) =~= nums_flat(v.drop_last()).subrange(
            8 * i,
            8 * i + 8,
        ));
    }
}

proof fn lemma_chars_flat_index(v: Seq<char>, i: int)
    requires
        0 <= i < v.len(),
    ensures
        chars_flat(v).len() == 4 * v.len(),
        chars_flat(v).subrange(4 * i, 4 * i + 4) == enc_le(v[i] as u32 as int, 4),
    decreases v.len(),
{
    lemma_chars_flat_len(v);
    lemma_enc_le_len(v.last() as u32 as int, 4);
    if i == v.len() - 1 {
        lemma_chars_flat_len(v.drop_last());
        assert(chars_flat(v).subrange(4 * i, 4 * i + 4) =~= enc_le(v.last() as u32 as int, 4));
    } else {
        lemma_chars_flat_index(v.drop_last(), i);
        lemma_chars_flat_len(v.drop_last());
        assert(chars_flat(v).subrange(4 * i, 4 * i + 4) =~= chars_flat(v.drop_last()).subrange(
            4 * i,
            4 * i + 4,
        ));
    }
}

/// A counted vector of numbers on the wire.
pub open spec fn enc_nums(v: Seq<u64>) -> Seq<u8> {
    enc_le(v.len() as int, 8) + nums_flat(v)
}

/// A counted vector of characters on the wire.
pub open spec fn enc_chars(v: Seq<char>) -> Seq<u8> {
    enc_le(v.len() as int, 8) + chars_flat(v)
}

/// `v` is encoded at `pos` of `b`.
pub open spec fn nums_enc_at(b: Seq<u8>, pos: int, v: Seq<u64>) -> bool {
    &&& v.len() <= usize::MAX
    &&& 0 <= pos
    &&& pos + 8 + 8 * v.len() <= b.len()
    &&& b.subrange(pos, pos + 8 + 8 * v.len()) == enc_nums(v)
}

/// `v` is encoded at `pos` of `b`.
pub open spec fn chars_enc_at(b: Seq<u8>, pos: int, v: Seq<char>) -> bool {
    &&& v.len() <= usize::MAX
    &&& 0 <= pos
    &&& pos + 8 + 4 * v.len() <= b.len()
    &&& b.subrange(pos, pos + 8 + 4 * v.len()) == enc_chars(v)
}

/// Encode a vector of numbers.
fn enc_nums_vec(v: &Vec<u64>) -> (r: Vec<u8>)
    ensures
        r@ == enc_nums(v@),
{
    let mut out = enc_le_vec(v.len() as u64, 8);
    let n = v.len();
    let mut i: usize = 0;
    while i < n
        invariant
            n == v@.len(),
            i <= n,
            out@ == enc_le(n as int, 8) + nums_flat(v@.take(i as int)),
        decreases n - i,
    {
        let mut block = enc_le_vec(v[i], 8);
        out.append(&mut block);
        proof {
            assert(v@.take(i + 1).drop_last() =~= v@.take(i as int));
            assert(out@ =~= enc_le(n as int, 8) + nums_flat(v@.take(i + 1)));
        }
        i += 1;
    }
    proof {
        assert(v@.take(n as int) =~= v@);
    }
    out
}

/// Encode a vector of characters.
fn enc_chars_vec(v: &Vec<char>) -> (r: Vec<u8>)
    ensures
        r@ == enc_chars(v@),
{
    let mut out = enc_le_vec(v.len() as u64, 8);
    let n = v.len();
    let mut i: usize = 0;
    while i < n
        invariant
            n == v@.len(),
            i <= n,
            out@ == enc_le(n as int, 8) + chars_flat(v@.take(i as int)),
        decreases n - i,
    {
        let mut block = enc_le_vec(v[i] as u32 as u64, 4);
        out.append(&mut block);
        proof {
            assert(v@.take(i + 1).drop_last() =~= v@.take(i as int));
            assert(out@ =~= enc_le(n as int, 8) + chars_flat(v@.take(i + 1)));
        }
        i += 1;
    }
    proof {
        assert(v@.take(n as int) =~= v@);
    }
    out
}

/// Decode a counted vector of numbers at `pos`.  Whatever vector was
/// encoded there comes back exactly.
fn dec_nums_at(bytes: &Vec<u8>, pos: usize) -> (r: Option<(Vec<u64>, usize)>)
    ensures
        forall|xs: Seq<u64>|
            #[trigger] nums_enc_at(bytes@, pos as int, xs) ==> (r matches Some(v) && v.0@ == xs
                && v.1 == pos + 8 + 8 * xs.len()),
{
    let len = bytes.len();
    if len < 8 || pos > len - 8 {
        return None;
    }
    let cnt64 = dec_le_vec(bytes, pos, 8);
    let body = pos + 8;
    let avail = (len - body) / 8;
    proof {
        lemma_pow256_8();
        assert forall|xs: Seq<u64>| #[trigger] nums_enc_at(bytes@, pos as int, xs) implies cnt64
            == xs.len() by {
            lemma_enc_le_len(xs.len() as int, 8);
            lemma_nums_flat_len(xs);
            assert(bytes@.subrange(pos as int, pos + 8) =~= enc_nums(xs).subrange(0, 8));
            assert(enc_nums(xs).subrange(0, 8) =~= enc_le(xs.len() as int, 8));
            lemma_le_round(bytes@, pos as int, xs.len() as int, 8);
        }
    }
    if cnt64 > avail as u64 {
        return None;
    }
    let cnt = cnt64 as usize;
    let mut out: Vec<u64> = Vec::new();
    let mut j: usize = 0;
    while j < cnt
        invariant
            len == bytes@.len(),
            body == pos + 8,
            body + 8 * cnt <= len,
            j <= cnt,
            out@.len() == j,
            forall|jj: int|
                0 <= jj < j ==> enc_le(out@[jj] as int, 8) == bytes@.subrange(
                    body + 8 * jj,
                    body + 8 * jj + 8,
                ),
        decreases cnt - j,
    {
        let val = dec_le_vec(bytes, body + 8 * j, 8);
        proof {
            lemma_le_enc_dec(bytes@, body + 8 * j, 8);
        }
        out.push(val);
        j += 1;
    }
    let end = body + 8 * cnt;
    proof {
        assert forall|xs: Seq<u64>| #[trigger] nums_enc_at(bytes@, pos as int, xs) implies (out@
            == xs && end == pos + 8 + 8 * xs.len()) by {
            lemma_enc_le_len(xs.len() as int, 8);
            lemma_nums_flat_len(xs);
            assert(cnt == xs.len());
            assert forall|jj: int| 0 <= jj < cnt implies out@[jj] == xs[jj] by {
                lemma_nums_flat_index(xs, jj);
                assert(bytes@.subrange(body + 8 * jj, body + 8 * jj + 8) =~= enc_nums(xs).subrange(
                    8 + 8 * jj,
                    8 + 8 * jj + 8,
                ));
                assert(enc_nums(xs).subrange(8 + 8 * jj, 8 + 8 * jj + 8) =~= nums_flat(
                    xs,
                ).subrange(8 * jj, 8 * jj + 8));
                lemma_le_round(bytes@, body + 8 * jj, xs[jj] as int, 8);
                lemma_le_round(bytes@, body + 8 * jj, out@[jj] as int, 8);
            }
            assert(out@ =~= xs);
        }
    }
    Some((out, end))
}

/// Decode a counted vector of characters at `pos`.  Whatever vector was
/// encoded there comes back exactly.
fn dec_chars_at(bytes: &Vec<u8>, pos: usize) -> (r: Option<(Vec<char>, usize)>)
    ensures
        forall|xs: Seq<char>|
            #[trigger] chars_enc_at(bytes@, pos as int, xs) ==> (r matches Some(v) && v.0@ == xs
                && v.1 == pos + 8 + 4 * xs.len()),
{
    broadcast use vstd::utf8::char_is_scalar, vstd::utf8::char_u32_cast;

    let len = bytes.len();
    if len < 8 || pos > len - 8 {
        return None;
    }
    let cnt64 = dec_le_vec(bytes, pos, 8);
    let body = pos + 8;
    let avail = (len - body) / 4;
    proof {
        lemma_pow256_8();
        assert forall|xs: Seq<char>| #[trigger] chars_enc_at(bytes@, pos as int, xs) implies cnt64
            == xs.len() by {
            lemma_enc_le_len(xs.len() as int, 8);
            lemma_chars_flat_len(xs);
            assert(bytes@.subrange(pos as int, pos + 8) =~= enc_chars(xs).subrange(0, 8));
            assert(enc_chars(xs).subrange(0, 8) =~= enc_le(xs.len() as int, 8));
            lemma_le_round(bytes@, pos as int, xs.len() as int, 8);
        }
    }
    if cnt64 > avail as u64 {
        return None;
    }
    let cnt = cnt64 as usize;
    let mut out: Vec<char> = Vec::new();
    let mut j: usize = 0;
    while j < cnt
        invariant
            len == bytes@.len(),
            body == pos + 8,
            body + 4 * cnt <= len,
            j <= cnt,
            out@.len() == j,
            cnt64 == dec_le(bytes@, pos as int, 8),
            cnt == cnt64,
            forall|jj: int|
                0 <= jj < j ==> enc_le(out@[jj] as u32 as int, 4) == bytes@.subrange(
                    body + 4 * jj,
                    body + 4 * jj + 4,
                ),
            forall|xs: Seq<char>|
                #[trigger] chars_enc_at(bytes@, pos as int, xs) ==> cnt == xs.len(),
        decreases cnt - j,
    {
        let val = dec_le_vec(bytes, body + 4 * j, 4);
        proof {
            lemma_le_enc_dec(bytes@, body + 4 * j, 4);
            lemma_pow256_8();
        }
        match char_from_u32(val as u32) {
            Some(c) => {
                out.push(c);
            },
            None => {
                proof {
                    assert forall|xs: Seq<char>| !chars_enc_at(bytes@, pos as int, xs) by {
                        if chars_enc_at(bytes@, pos as int, xs) {
                            lemma_chars_flat_index(xs, j as int);
                            lemma_enc_le_len(xs.len() as int, 8);
                            assert(bytes@.subrange(body + 4 * j, body + 4 * j + 4)
                                =~= enc_chars(xs).subrange(8 + 4 * j, 8 + 4 * j + 4));
                            assert(enc_chars(xs).subrange(8 + 4 * j, 8 + 4 * j + 4) =~= chars_flat(
                                xs,
                            ).subrange(4 * j, 4 * j + 4));
                            lemma_le_round(bytes@, body + 4 * j, xs[j as int] as u32 as int, 4);
                            assert(val as u32 == xs[j as int] as u32);
                            vstd::utf8::char_is_scalar(xs[j as int]);
                        }
                    }
                }
                return None;
            },
        }
        j += 1;
    }
    let end = body + 4 * cnt;
    proof {
        assert forall|xs: Seq<char>| #[trigger] chars_enc_at(bytes@, pos as int, xs) implies (out@
            == xs && end == pos + 8 + 4 * xs.len()) by {
            lemma_enc_le_len(xs.len() as int, 8);
            lemma_chars_flat_len(xs);
            assert(cnt == xs.len());
            assert forall|jj: int| 0 <= jj < cnt implies out@[jj] == xs[jj] by {
                lemma_chars_flat_index(xs, jj);
                assert(bytes@.subrange(body + 4 * jj, body + 4 * jj + 4) =~= enc_chars(
                    xs,
                ).subrange(8 + 4 * jj, 8 + 4 * jj + 4));
                assert(enc_chars(xs).subrange(8 + 4 * jj, 8 + 4 * jj + 4) =~= chars_flat(
                    xs,
                ).subrange(4 * jj, 4 * jj + 4));
                lemma_le_round(bytes@, body + 4 * jj, xs[jj] as u32 as int, 4);
                lemma_le_round(bytes@, body + 4 * jj, out@[jj] as u32 as int, 4);
                assert(out@[jj] as u32 == xs[jj] as u32);
                vstd::utf8::char_u32_cast(xs[jj], out@[jj] as u32);
                vstd::utf8::char_u32_cast(out@[jj], out@[jj] as u32);
            }
            assert(out@ =~= xs);
        }
    }
    Some((out, end))
}

/// The lengths of a list of strings, as wire numbers.
pub open spec fn lens_of(items: Seq<Seq<char>>) -> Seq<u64> {
    items.map_values(|s: Seq<char>| s.len() as u64)
}

/// A list of strings, concatenated.
pub open spec fn flatten_strs(items: Seq<Seq<char>>) -> Seq<char>
    decreases items.len(),
{
    if items.len() == 0 {
        Seq::empty()
    } else {
        flatten_strs(items.drop_last()) + items.last()
    }
}

/// Sum of a list of wire numbers.
pub open spec fn sum_u64(v: Seq<u64>) -> int
    decreases v.len(),
{
    if v.len() == 0 {
        0
    } else {
        sum_u64(v.drop_last()) + v.last()
    }
}

/// Cutting a character sequence along a list of lengths, starting at
/// `start`.
pub open spec fn slice_strs(cs: Seq<char>, lens: Seq<u64>, start: int) -> Seq<Seq<char>>
    decreases lens.len(),
{
    if lens.len() == 0 {
        Seq::empty()
    } else {
        seq![cs.subrange(start, start + lens.first())] + slice_strs(
            cs,
            lens.skip(1),
            start + lens.first(),
        )
    }
}

proof fn lemma_flatten_front(items: Seq<Seq<char>>)
    requires
        items.len() > 0,
    ensures
        flatten_strs(items) == items.first() + flatten_strs(items.skip(1)),
    decreases items.len(),
{
    if items.len() == 1 {
        assert(items.skip(1) =~= Seq::<Seq<char>>::empty());
        assert(items.drop_last() =~= Seq::<Seq<char>>::empty());
        assert(flatten_strs(Seq::<Seq<char>>::empty()) =~= Seq::<char>::empty());
        assert(flatten_strs(items) == flatten_strs(items.drop_last()) + items.last());
        assert(flatten_strs(items) =~= items.first() + flatten_strs(items.skip(1)));
    } else {
        lemma_flatten_front(items.drop_last());
        let s1 = items.skip(1);
        assert(s1.len() == items.len() - 1);
        assert(s1.drop_last() =~= items.drop_last().skip(1));
        assert(s1.last() == items.last());
        assert(items.drop_last().first() == items.first());
        assert(flatten_strs(s1) == flatten_strs(s1.drop_last()) + s1.last());
        assert(flatten_strs(s1) == flatten_strs(items.drop_last().skip(1)) + items.last());
        assert(flatten_strs(items.drop_last()) == items.first() + flatten_strs(
            items.drop_last().skip(1),
        ));
        assert(flatten_strs(items) == flatten_strs(items.drop_last()) + items.last());
        assert(flatten_strs(items) =~= items.first() + flatten_strs(s1));
    }
}

proof fn lemma_flatten_sum(items: Seq<Seq<char>>)
    requires
        forall|i: int| 0 <= i < items.len() ==> #[trigger] items[i].len() <= usize::MAX,
    ensures
        flatten_strs(items).len() == sum_u64(lens_of(items)),
        sum_u64(lens_of(items)) >= 0,
    decreases items.len(),
{
    if items.len() > 0 {
        lemma_flatten_sum(items.drop_last());
        assert(lens_of(items).drop_last() =~= lens_of(items.drop_last()));
        assert(lens_of(items).last() == items.last().len() as u64);
    }
}

proof fn lemma_sum_take_le(v: Seq<u64>, i: int)
    requires
        0 <= i <= v.len(),
    ensures
        0 <= sum_u64(v.take(i)) <= sum_u64(v),
    decreases v.len() - i,
{
    if i == v.len() {
        assert(v.take(i) =~= v);
        assert(sum_u64(v) >= 0) by {
            lemma_sum_nonneg(v);
        }
    } else {
        lemma_sum_take_le(v, i + 1);
        lemma_sum_nonneg(v.take(i));
        assert(v.take(i + 1).drop_last() =~= v.take(i));
        assert(v.take(i + 1).last() == v[i]);
    }
}

proof fn lemma_sum_nonneg(v: Seq<u64>)
    ensures
        sum_u64(v) >= 0,
    decreases v.len(),
{
    if v.len() > 0 {
        lemma_sum_nonneg(v.drop_last());
    }
}

/// Cutting the concatenation of a list along the list's own lengths gives
/// the list back.
proof fn lemma_slice_flatten(cs: Seq<char>, items: Seq<Seq<char>>, start: int)
    requires
        forall|i: int| 0 <= i < items.len() ==> #[trigger] items[i].len() <= usize::MAX,
        0 <= start,
        start + flatten_strs(items).len() <= cs.len(),
        cs.subrange(start, start + flatten_strs(items).len() as int) == flatten_strs(items),
    ensures
        slice_strs(cs, lens_of(items), start) == items,
    decreases items.len(),
{
    if items.len() == 0 {
        assert(slice_strs(cs, lens_of(items), start) =~= items);
    } else {
        lemma_flatten_front(items);
        let head = items.first();
        let tail = items.skip(1);
        let fl = flatten_strs(items);
        assert(forall|i: int| 0 <= i < tail.len() ==> #[trigger] tail[i].len() <= usize::MAX);
        assert(cs.subrange(start, start + head.len() as int) =~= head) by {
            assert(cs.subrange(start, start + fl.len() as int).subrange(0, head.len() as int)
                =~= cs.subrange(start, start + head.len() as int));
            assert(fl.subrange(0, head.len() as int) =~= head);
        }
        assert(cs.subrange(
            start + head.len() as int,
            start + head.len() + flatten_strs(tail).len(),
        ) =~= flatten_strs(tail)) by {
            assert(fl.subrange(head.len() as int, fl.len() as int) =~= flatten_strs(tail));
            assert(cs.subrange(start, start + fl.len() as int).subrange(
                head.len() as int,
                fl.len() as int,
            ) =~= cs.subrange(start + head.len() as int, start + fl.len() as int));
        }
        lemma_slice_flatten(cs, tail, start + head.len() as int);
        assert(lens_of(items).first() == head.len() as u64);
        assert(lens_of(items).skip(1) =~= lens_of(tail));
        assert(slice_strs(cs, lens_of(items), start) =~= items);
    }
}

/// A counted list of strings on the wire: the lengths, then the characters.
pub open spec fn enc_strs(items: Seq<Seq<char>>) -> Seq<u8> {
    enc_nums(lens_of(items)) + enc_chars(flatten_strs(items))
}

/// `items` is encoded at `pos` of `b`.
pub open spec fn strs_enc_at(b: Seq<u8>, pos: int, items: Seq<Seq<char>>) -> bool {
    &&& items.len() <= usize::MAX
    &&& forall|i: int| 0 <= i < items.len() ==> #[trigger] items[i].len() <= usize::MAX
    &&& flatten_strs(items).len() <= usize::MAX
    &&& 0 <= pos
    &&& pos + enc_strs(items).len() <= b.len()
    &&& b.subrange(pos, pos + enc_strs(items).len() as int) == enc_strs(items)
}

/// Encode a list of strings.
fn enc_strs_vec(items: &Vec<String>) -> (r: Vec<u8>)
    ensures
        r@ == enc_strs(items.deep_view()),
        strs_enc_at(r@, 0, items.deep_view()),
{
    let n = items.len();
    let mut lens: Vec<u64> = Vec::new();
    let mut flat: Vec<char> = Vec::new();
    let mut i: usize = 0;
    while i < n
        invariant
            n == items@.len(),
            i <= n,
            lens@ =~= lens_of(items.deep_view().take(i as int)),
            flat@ =~= flatten_strs(items.deep_view().take(i as int)),
            forall|k: int| 0 <= k < i ==> #[trigger] items.deep_view()[k].len() <= usize::MAX,
        decreases n - i,
    {
        let s = &items[i];
        let slen = s.as_str().unicode_len();
        lens.push(slen as u64);
        let mut j: usize = 0;
        let ghost flat0 = flat@;
        while j < slen
            invariant
                slen == s@.len(),
                j <= slen,
                flat@ =~= flat0 + s@.take(j as int),
            decreases slen - j,
        {
            flat.push(s.as_str().get_char(j));
            proof {
                assert(s@.take(j + 1) =~= s@.take(j as int).push(s@[j as int]));
            }
            j += 1;
        }
        proof {
            assert(s@.take(slen as int) =~= s@);
            assert(items.deep_view().take(i + 1).drop_last() =~= items.deep_view().take(i as int));
            assert(items.deep_view().take(i + 1).last() == items@[i as int]@);
            assert(lens@ =~= lens_of(items.deep_view().take(i + 1)));
            assert(flat@ =~= flatten_strs(items.deep_view().take(i + 1)));
        }
        i += 1;
    }
    proof {
        assert(items.deep_view().take(n as int) =~= items.deep_view());
    }
    let total_chars = flat.len();
    let mut out = enc_nums_vec(&lens);
    let mut tail = enc_chars_vec(&flat);
    out.append(&mut tail);
    proof {
        let dv = items.deep_view();
        assert(dv.len() <= usize::MAX);
        assert(flatten_strs(dv).len() == total_chars);
        assert(out@ =~= enc_strs(dv));
        assert(out@.subrange(0, enc_strs(dv).len() as int) =~= enc_strs(dv));
        assert(strs_enc_at(out@, 0, dv));
    }
    out
}

/// Decode a counted list of strings at `pos`.  Whatever list was encoded
/// there comes back exactly.
fn dec_strs_at(bytes: &Vec<u8>, pos: usize) -> (r: Option<(Vec<String>, usize)>)
    ensures
        forall|items: Seq<Seq<char>>|
            #[trigger] strs_enc_at(bytes@, pos as int, items) ==> (r matches Some(v)
                && v.0.deep_view() == items && v.1 == pos + enc_strs(items).len()),
{
    let r1 = dec_nums_at(bytes, pos);
    let (lens, pos2) = match r1 {
        Some(v) => v,
        None => {
            proof {
                assert forall|items: Seq<Seq<char>>| !strs_enc_at(bytes@, pos as int, items) by {
                    if strs_enc_at(bytes@, pos as int, items) {
                        lemma_strs_pieces(bytes@, pos as int, items);
                    }
                }
            }
            return None;
        },
    };
    let r2 = dec_chars_at(bytes, pos2);
    let (flat, pos3) = match r2 {
        Some(v) => v,
        None => {
            proof {
                assert forall|items: Seq<Seq<char>>| !strs_enc_at(bytes@, pos as int, items) by {
                    if strs_enc_at(bytes@, pos as int, items) {
                        lemma_strs_pieces(bytes@, pos as int, items);
                    }
                }
            }
            return None;
        },
    };
    proof {
        assert forall|items: Seq<Seq<char>>| #[trigger] strs_enc_at(bytes@, pos as int, items)
            implies (lens@ == lens_of(items) && flat@ == flatten_strs(items) && pos3 == pos
            + enc_strs(items).len()) by {
            lemma_strs_pieces(bytes@, pos as int, items);
        }
    }
    let mut out: Vec<String> = Vec::new();
    let mut start: usize = 0;
    let n = lens.len();
    let flat_len = flat.len();
    let mut i: usize = 0;
    while i < n
        invariant
            n == lens@.len(),
            flat_len == flat@.len(),
            i <= n,
            start == sum_u64(lens@.take(i as int)),
            start <= flat_len,
            out.deep_view() =~= slice_strs_prefix(flat@, lens@, i as int),
            forall|items: Seq<Seq<char>>|
                #[trigger] strs_enc_at(bytes@, pos as int, items) ==> (lens@ == lens_of(items)
                    && flat@ == flatten_strs(items)),
        decreases n - i,
    {
        let l64 = lens[i];
        if l64 > (flat_len - start) as u64 {
            proof {
                assert forall|items: Seq<Seq<char>>| !strs_enc_at(bytes@, pos as int, items) by {
                    if strs_enc_at(bytes@, pos as int, items) {
                        lemma_flatten_sum(items);
                        lemma_sum_chunk(lens_of(items), i as int);
                    }
                }
            }
            return None;
        }
        let l = l64 as usize;
        let mut piece: Vec<char> = Vec::new();
        let mut j: usize = 0;
        while j < l
            invariant
                l == l64,
                flat_len == flat@.len(),
                start + l <= flat@.len(),
                j <= l,
                piece@ =~= flat@.subrange(start as int, start + j),
            decreases l - j,
        {
            piece.push(flat[start + j]);
            proof {
                assert(flat@.subrange(start as int, start + j + 1) =~= flat@.subrange(
                    start as int,
                    start + j,
                ).push(flat@[start + j]));
            }
            j += 1;
        }
        let s = string_from_chars(piece);
        out.push(s);
        proof {
            assert(lens@.take(i + 1).drop_last() =~= lens@.take(i as int));
            assert(lens@.take(i + 1).last() == lens@[i as int]);
            assert(out.deep_view() =~= slice_strs_prefix(flat@, lens@, i + 1)) by {
                lemma_slice_prefix_step(flat@, lens@, i as int, sum_u64(lens@.take(i as int)));
            }
        }
        start = start + l;
    proof {
            lemma_sum_take_le(lens@, i + 1);
        }
        i += 1;
    }
    proof {
        assert forall|items: Seq<Seq<char>>| #[trigger] strs_enc_at(bytes@, pos as int, items)
            implies (out.deep_view() == items && pos3 == pos + enc_strs(items).len()) by {
            lemma_strs_pieces(bytes@, pos as int, items);
            assert(lens@ == lens_of(items));
            assert(flat@ == flatten_strs(items));
            assert(flat@.subrange(0, flatten_strs(items).len() as int) =~= flat@);
            lemma_slice_flatten(flat@, items, 0);
            assert(lens@.take(n as int) =~= lens@);
            lemma_slice_prefix_full(flat@, lens@);
            assert(out.deep_view() == slice_strs(flat@, lens@, 0));
        }
    }
    Some((out, pos3))
}

/// The first `k` cuts of `cs` along `lens`.
pub open spec fn slice_strs_prefix(cs: Seq<char>, lens: Seq<u64>, k: int) -> Seq<Seq<char>> {
    slice_strs(cs, lens.take(k), 0)
}

/// Appending one cut: slicing one more length appends one more window.
proof fn lemma_slice_prefix_step(cs: Seq<char>, lens: Seq<u64>, i: int, off: int)
    requires
        0 <= i < lens.len(),
        off == sum_u64(lens.take(i)),
    ensures
        slice_strs(cs, lens.take(i + 1), 0) == slice_strs(cs, lens.take(i), 0).push(
            cs.subrange(off, off + lens[i]),
        ),
    decreases i,
{
    lemma_slice_prefix_step_gen(cs, lens.take(i + 1), 0);
    assert(lens.take(i + 1).drop_last() =~= lens.take(i));
    assert(lens.take(i + 1).last() == lens[i]);
    assert(sum_u64(lens.take(i)) == off);
}

/// Slicing along `lens` equals slicing along all but the last length, then
/// one more window at the sum of the others.
proof fn lemma_slice_prefix_step_gen(cs: Seq<char>, lens: Seq<u64>, start: int)
    requires
        lens.len() > 0,
    ensures
        slice_strs(cs, lens, start) == slice_strs(cs, lens.drop_last(), start).push(
            cs.subrange(
                start + sum_u64(lens.drop_last()),
                start + sum_u64(lens.drop_last()) + lens.last(),
            ),
        ),
    decreases lens.len(),
{
    if lens.len() == 1 {
        assert(lens.drop_last() =~= Seq::<u64>::empty());
        assert(lens.skip(1) =~= Seq::<u64>::empty());
        assert(slice_strs(cs, Seq::<u64>::empty(), start + lens.first()) =~= Seq::<
            Seq<char>,
        >::empty());
        assert(slice_strs(cs, Seq::<u64>::empty(), start) =~= Seq::<Seq<char>>::empty());
        assert(sum_u64(Seq::<u64>::empty()) == 0);
        assert(slice_strs(cs, lens, start) == seq![
            cs.subrange(start, start + lens.first()),
        ] + slice_strs(cs, lens.skip(1), start + lens.first()));
        assert(lens.first() == lens.last());
        assert(slice_strs(cs, lens, start) =~= slice_strs(cs, lens.drop_last(), start).push(
            cs.subrange(
                start + sum_u64(lens.drop_last()),
                start + sum_u64(lens.drop_last()) + lens.last(),
            ),
        ));
    } else {
        lemma_slice_prefix_step_gen(cs, lens.skip(1), start + lens.first());
        let dl = lens.drop_last();
        let s1 = lens.skip(1);
        assert(s1.len() == lens.len() - 1);
        assert(s1.drop_last() =~= dl.skip(1));
        assert(s1.last() == lens.last());
        assert(dl.first() == lens.first());
        lemma_sum_front(dl);
        assert(sum_u64(s1.drop_last()) == sum_u64(dl.skip(1)));
        assert(sum_u64(dl) == lens.first() + sum_u64(dl.skip(1)));
        let w_final = cs.subrange(start + sum_u64(dl), start + sum_u64(dl) + lens.last());
        assert(slice_strs(cs, s1, start + lens.first()) == slice_strs(
            cs,
            dl.skip(1),
            start + lens.first(),
        ).push(w_final));
        assert(slice_strs(cs, lens, start) == seq![
            cs.subrange(start, start + lens.first()),
        ] + slice_strs(cs, s1, start + lens.first()));
        assert(slice_strs(cs, dl, start) == seq![cs.subrange(start, start + lens.first())]
            + slice_strs(cs, dl.skip(1), start + lens.first()));
        assert(slice_strs(cs, lens, start) =~= slice_strs(cs, dl, start).push(w_final));
        assert(slice_strs(cs, lens, start) =~= slice_strs(cs, lens.drop_last(), start).push(
            cs.subrange(
                start + sum_u64(lens.drop_last()),
                start + sum_u64(lens.drop_last()) + lens.last(),
            ),
        ));
    }
}

proof fn lemma_sum_front(v: Seq<u64>)
    requires
        v.len() > 0,
    ensures
        sum_u64(v) == v.first() + sum_u64(v.skip(1)),
    decreases v.len(),
{
    if v.len() == 1 {
        assert(v.skip(1) =~= Seq::<u64>::empty());
        assert(v.drop_last() =~= Seq::<u64>::empty());
    } else {
        lemma_sum_front(v.drop_last());
        assert(v.skip(1).drop_last() =~= v.drop_last().skip(1));
        assert(v.drop_last().first() == v.first());
        assert(v.skip(1).last() == v.last());
    }
}

proof fn lemma_slice_prefix_full(cs: Seq<char>, lens: Seq<u64>)
    ensures
        slice_strs(cs, lens.take(lens.len() as int), 0) == slice_strs(cs, lens, 0),
{
    assert(lens.take(lens.len() as int) =~= lens);
}

/// Prefix sums never pass the total.
proof fn lemma_sum_chunk(v: Seq<u64>, i: int)
    requires
        0 <= i < v.len(),
    ensures
        sum_u64(v.take(i)) + v[i] <= sum_u64(v),
{
    lemma_sum_take_le(v, i + 1);
    assert(v.take(i + 1).drop_last() =~= v.take(i));
    assert(v.take(i + 1).last() == v[i]);
}

/// The two pieces of a string-list encoding sit at their own positions.
proof fn lemma_strs_pieces(b: Seq<u8>, pos: int, items: Seq<Seq<char>>)
    requires
        strs_enc_at(b, pos, items),
    ensures
        nums_enc_at(b, pos, lens_of(items)),
        chars_enc_at(b, pos + 8 + 8 * items.len(), flatten_strs(items)),
        enc_strs(items).len() == 16 + 8 * items.len() + 4 * flatten_strs(items).len(),
{
    let lens = lens_of(items);
    let flat = flatten_strs(items);
    lemma_enc_le_len(lens.len() as int, 8);
    lemma_enc_le_len(flat.len() as int, 8);
    lemma_nums_flat_len(lens);
    lemma_chars_flat_len(flat);
    assert(b.subrange(pos, pos + 8 + 8 * lens.len()) =~= enc_nums(lens)) by {
        assert(enc_strs(items).subrange(0, 8 + 8 * lens.len() as int) =~= enc_nums(lens));
        assert(b.subrange(pos, pos + enc_strs(items).len() as int).subrange(
            0,
            8 + 8 * lens.len() as int,
        ) =~= b.subrange(pos, pos + 8 + 8 * lens.len()));
    }
    let cpos = pos + 8 + 8 * lens.len();
    assert(b.subrange(cpos, cpos + 8 + 4 * flat.len()) =~= enc_chars(flat)) by {
        assert(enc_strs(items).subrange(
            8 + 8 * lens.len() as int,
            enc_strs(items).len() as int,
        ) =~= enc_chars(flat));
        assert(b.subrange(pos, pos + enc_strs(items).len() as int).subrange(
            8 + 8 * lens.len() as int,
            enc_strs(items).len() as int,
        ) =~= b.subrange(cpos, cpos + 8 + 4 * flat.len()));
    }
}

/// Relies on `char::from_u32`: a Unicode scalar value converts to its
/// character; anything else gives nothing back.
#[verifier::external_body]
fn char_from_u32(v: u32) -> (r: Option<char>)
    ensures
        match r {
            Some(c) => c as u32 == v,
            None => !vstd::utf8::is_scalar(v),
        },
{
    char::from_u32(v)
}

/// Relies on `String::from_iter` (through `collect`): the string holds
/// exactly the characters of the vector, in order.
#[verifier::external_body]
fn string_from_chars(v: Vec<char>) -> (r: String)
    ensures
        r@ == v@,
{
    v.into_iter().collect()
}


/// Wire tag of an event kind.
pub open spec fn event_type_tag(t: EventType) -> u64 {
    match t {
        EventType::ProcessCreated => 0,
        EventType::ProcessTerminated => 1,
        EventType::ProcessModified => 2,
        EventType::FileCreated => 3,
        EventType::FileModified => 4,
        EventType::FileDeleted => 5,
        EventType::FileAccessed => 6,
        EventType::NetworkConnection => 7,
        EventType::NetworkDnsQuery => 8,
        EventType::NetworkHttpRequest => 9,
        EventType::MemoryInjection => 10,
        EventType::MemoryAllocation => 11,
        EventType::UserLogin => 12,
        EventType::UserLogout => 13,
        EventType::UserElevation => 14,
        EventType::RootkitDetected => 15,
        EventType::SuspiciousBehavior => 16,
    }
}

/// The event kind a wire tag names, if any.
pub open spec fn event_type_from_tag(n: u64) -> Option<EventType> {
    if n == 0 {
        Some(EventType::ProcessCreated)
    } else if n == 1 {
        Some(EventType::ProcessTerminated)
    } else if n == 2 {
        Some(EventType::ProcessModified)
    } else if n == 3 {
        Some(EventType::FileCreated)
    } else if n == 4 {
        Some(EventType::FileModified)
    } else if n == 5 {
        Some(EventType::FileDeleted)
    } else if n == 6 {
        Some(EventType::FileAccessed)
    } else if n == 7 {
        Some(EventType::NetworkConnection)
    } else if n == 8 {
        Some(EventType::NetworkDnsQuery)
    } else if n == 9 {
        Some(EventType::NetworkHttpRequest)
    } else if n == 10 {
        Some(EventType::MemoryInjection)
    } else if n == 11 {
        Some(EventType::MemoryAllocation)
    } else if n == 12 {
        Some(EventType::UserLogin)
    } else if n == 13 {
        Some(EventType::UserLogout)
    } else if n == 14 {
        Some(EventType::UserElevation)
    } else if n == 15 {
        Some(EventType::RootkitDetected)
    } else if n == 16 {
        Some(EventType::SuspiciousBehavior)
    } else {
        None
    }
}

/// Wire tag of a severity.
pub open spec fn severity_tag(s: Severity) -> u64 {
    match s {
        Severity::Info => 0,
        Severity::Low => 1,
        Severity::Medium => 2,
        Severity::High => 3,
        Severity::Critical => 4,
    }
}

/// The severity a wire tag names, if any.
pub open spec fn severity_from_tag(n: u64) -> Option<Severity> {
    if n == 0 {
        Some(Severity::Info)
    } else if n == 1 {
        Some(Severity::Low)
    } else if n == 2 {
        Some(Severity::Medium)
    } else if n == 3 {
        Some(Severity::High)
    } else if n == 4 {
        Some(Severity::Critical)
    } else {
        None
    }
}

/// Wire tag of a payload family.
pub open spec fn details_tag(d: EventDetailsV) -> u64 {
    match d {
        EventDetailsV::Process(_) => 0,
        EventDetailsV::File(_) => 1,
        EventDetailsV::Network(_) => 2,
        EventDetailsV::Memory(_) => 3,
        EventDetailsV::User(_) => 4,
        EventDetailsV::Rootkit(_) => 5,
    }
}

/// Wire flag and value of an optional number.
pub open spec fn opt_flag(o: Option<u32>) -> u64 {
    if o is Some {
        1
    } else {
        0
    }
}

/// Wire value of an optional number.
pub open spec fn opt_val(o: Option<u32>) -> u64 {
    match o {
        Some(v) => v as u64,
        None => 0,
    }
}

/// Wire flag of an optional string.
pub open spec fn opt_str_flag(o: Option<Seq<char>>) -> u64 {
    if o is Some {
        1
    } else {
        0
    }
}

/// Wire form of an optional string: the string, or empty.
pub open spec fn opt_str(o: Option<Seq<char>>) -> Seq<char> {
    match o {
        Some(s) => s,
        None => Seq::empty(),
    }
}

/// The payload's numbers on the wire.
pub open spec fn payload_nums(d: EventDetailsV) -> Seq<u64> {
    match d {
        EventDetailsV::Process(p) => seq![
            p.pid as u64,
            opt_flag(p.ppid),
            opt_val(p.ppid),
            p.uid as u64,
        ],
        EventDetailsV::File(f) => seq![
            f.process_pid as u64,
            opt_flag(f.permissions),
            opt_val(f.permissions),
        ],
        EventDetailsV::Network(n) => seq![
            n.src_port as u64,
            n.dst_port as u64,
            opt_flag(n.process_pid),
            opt_val(n.process_pid),
            opt_str_flag(n.process_name),
            n.bytes_sent,
            n.bytes_received,
        ],
        EventDetailsV::Memory(m) => seq![m.process_pid as u64, m.address, m.size],
        EventDetailsV::User(u) => seq![
            u.uid as u64,
            opt_str_flag(u.terminal),
            opt_str_flag(u.remote_ip),
        ],
        EventDetailsV::Rootkit(r) => seq![
            opt_str_flag(r.affected_path),
            opt_str_flag(r.affected_process),
        ],
    }
}

/// The payload's strings on the wire, in a fixed order.
pub open spec fn payload_strs(d: EventDetailsV) -> Seq<Seq<char>> {
    match d {
        EventDetailsV::Process(p) => seq![p.name, p.path, p.user] + p.cmdline,
        EventDetailsV::File(f) => seq![f.path, f.operation, f.process_name, f.user],
        EventDetailsV::Network(n) => seq![
            n.protocol,
            n.src_ip,
            n.dst_ip,
            opt_str(n.process_name),
        ],
        EventDetailsV::Memory(m) => seq![m.process_name, m.operation, m.permissions],
        EventDetailsV::User(u) => seq![
            u.username,
            u.action,
            opt_str(u.terminal),
            opt_str(u.remote_ip),
        ],
        EventDetailsV::Rootkit(r) => seq![
            r.detection_type,
            r.description,
            opt_str(r.affected_path),
            opt_str(r.affected_process),
        ],
    }
}

/// An event's numbers on the wire.
pub open spec fn event_nums(e: SystemEventV) -> Seq<u64> {
    seq![e.timestamp, event_type_tag(e.event_type), severity_tag(e.severity), details_tag(
        e.details,
    )] + payload_nums(e.details)
}

/// An event's strings on the wire.
pub open spec fn event_strs(e: SystemEventV) -> Seq<Seq<char>> {
    seq![e.id, e.source] + payload_strs(e.details)
}

/// The payload a wire tag, numbers and strings describe, if they are
/// coherent.
pub open spec fn details_of_wire(tag: u64, pn: Seq<u64>, ps: Seq<Seq<char>>) -> Option<
    EventDetailsV,
> {
    if tag == 0 {
        if pn.len() == 4 && ps.len() >= 3 && pn[0] <= u32::MAX && pn[3] <= u32::MAX && (pn[1] == 0
            || pn[1] == 1) && pn[2] <= u32::MAX {
            Some(
                EventDetailsV::Process(
                    ProcessEventV {
                        pid: pn[0] as u32,
                        ppid: if pn[1] == 1 {
                            Some(pn[2] as u32)
                        } else {
                            None
                        },
                        name: ps[0],
                        path: ps[1],
                        cmdline: ps.skip(3),
                        user: ps[2],
                        uid: pn[3] as u32,
                    },
                ),
            )
        } else {
            None
        }
    } else if tag == 1 {
        if pn.len() == 3 && ps.len() == 4 && pn[0] <= u32::MAX && (pn[1] == 0 || pn[1] == 1)
            && pn[2] <= u32::MAX {
            Some(
                EventDetailsV::File(
                    FileEventV {
                        path: ps[0],
                        operation: ps[1],
                        process_pid: pn[0] as u32,
                        process_name: ps[2],
                        user: ps[3],
                        permissions: if pn[1] == 1 {
                            Some(pn[2] as u32)
                        } else {
                            None
                        },
                    },
                ),
            )
        } else {
            None
        }
    } else if tag == 2 {
        if pn.len() == 7 && ps.len() == 4 && pn[0] <= u16::MAX && pn[1] <= u16::MAX && (pn[2] == 0
            || pn[2] == 1) && pn[3] <= u32::MAX && (pn[4] == 0 || pn[4] == 1) {
            Some(
                EventDetailsV::Network(
                    NetworkEventV {
                        protocol: ps[0],
                        src_ip: ps[1],
                        src_port: pn[0] as u16,
                        dst_ip: ps[2],
                        dst_port: pn[1] as u16,
                        process_pid: if pn[2] == 1 {
                            Some(pn[3] as u32)
                        } else {
                            None
                        },
                        process_name: if pn[4] == 1 {
                            Some(ps[3])
                        } else {
                            None
                        },
                        bytes_sent: pn[5],
                        bytes_received: pn[6],
                    },
                ),
            )
        } else {
            None
        }
    } else if tag == 3 {
        if pn.len() == 3 && ps.len() == 3 && pn[0] <= u32::MAX {
            Some(
                EventDetailsV::Memory(
                    MemoryEventV {
                        process_pid: pn[0] as u32,
                        process_name: ps[0],
                        operation: ps[1],
                        address: pn[1],
                        size: pn[2],
                        permissions: ps[2],
                    },
                ),
            )
        } else {
            None
        }
    } else if tag == 4 {
        if pn.len() == 3 && ps.len() == 4 && pn[0] <= u32::MAX && (pn[1] == 0 || pn[1] == 1) && (
        pn[2] == 0 || pn[2] == 1) {
            Some(
                EventDetailsV::User(
                    UserEventV {
                        username: ps[0],
                        uid: pn[0] as u32,
                        action: ps[1],
                        terminal: if pn[1] == 1 {
                            Some(ps[2])
                        } else {
                            None
                        },
                        remote_ip: if pn[2] == 1 {
                            Some(ps[3])
                        } else {
                            None
                        },
                    },
                ),
            )
        } else {
            None
        }
    } else if tag == 5 {
        if pn.len() == 2 && ps.len() == 4 && (pn[0] == 0 || pn[0] == 1) && (pn[1] == 0 || pn[1]
            == 1) {
            Some(
                EventDetailsV::Rootkit(
                    RootkitEventV {
                        detection_type: ps[0],
                        description: ps[1],
                        affected_path: if pn[0] == 1 {
                            Some(ps[2])
                        } else {
                            None
                        },
                        affected_process: if pn[1] == 1 {
                            Some(ps[3])
                        } else {
                            None
                        },
                    },
                ),
            )
        } else {
            None
        }
    } else {
        None
    }
}

/// The event a wire record describes, if it is coherent.
pub open spec fn event_of_wire(nums: Seq<u64>, strs: Seq<Seq<char>>) -> Option<SystemEventV> {
    if nums.len() >= 4 && strs.len() >= 2 {
        match (event_type_from_tag(nums[1]), severity_from_tag(nums[2])) {
            (Some(et), Some(sev)) => match details_of_wire(nums[3], nums.skip(4), strs.skip(2)) {
                Some(d) => Some(
                    SystemEventV {
                        id: strs[0],
                        timestamp: nums[0],
                        event_type: et,
                        severity: sev,
                        source: strs[1],
                        details: d,
                    },
                ),
                None => None,
            },
            _ => None,
        }
    } else {
        None
    }
}

/// Reading an event's own wire record back gives the event.
pub proof fn lemma_event_wire_round(e: SystemEventV)
    ensures
        event_of_wire(event_nums(e), event_strs(e)) == Some(e),
{
    let nums = event_nums(e);
    let strs = event_strs(e);
    assert(nums.skip(4) =~= payload_nums(e.details));
    assert(strs.skip(2) =~= payload_strs(e.details));
    match e.details {
        EventDetailsV::Process(p) => {
            assert(payload_strs(e.details).skip(3) =~= p.cmdline);
            assert(details_of_wire(0, payload_nums(e.details), payload_strs(e.details))
                matches Some(d) && d =~~= e.details);
        },
        EventDetailsV::File(f) => {
            assert(details_of_wire(1, payload_nums(e.details), payload_strs(e.details))
                matches Some(d) && d =~~= e.details);
        },
        EventDetailsV::Network(n) => {
            assert(details_of_wire(2, payload_nums(e.details), payload_strs(e.details))
                matches Some(d) && d =~~= e.details);
        },
        EventDetailsV::Memory(m) => {
            assert(details_of_wire(3, payload_nums(e.details), payload_strs(e.details))
                matches Some(d) && d =~~= e.details);
        },
        EventDetailsV::User(u) => {
            assert(details_of_wire(4, payload_nums(e.details), payload_strs(e.details))
                matches Some(d) && d =~~= e.details);
        },
        EventDetailsV::Rootkit(r) => {
            assert(details_of_wire(5, payload_nums(e.details), payload_strs(e.details))
                matches Some(d) && d =~~= e.details);
        },
    }
    assert(event_of_wire(nums, strs) matches Some(ev) && ev =~~= e);
}

/// An event on the wire: its numbers, then its strings.
pub open spec fn enc_event(e: SystemEventV) -> Seq<u8> {
    enc_nums(event_nums(e)) + enc_strs(event_strs(e))
}

/// `e` is encoded at `pos` of `b`: both pieces sit at their positions.
pub open spec fn event_enc_at(b: Seq<u8>, pos: int, e: SystemEventV) -> bool {
    &&& nums_enc_at(b, pos, event_nums(e))
    &&& strs_enc_at(b, pos + 8 + 8 * event_nums(e).len(), event_strs(e))
    &&& enc_event(e).len() == 8 + 8 * event_nums(e).len() + enc_strs(event_strs(e)).len()
}


/// Flatten an event into its wire numbers and strings.
fn event_to_wire(event: &SystemEvent) -> (r: (Vec<u64>, Vec<String>))
    ensures
        r.0@ == event_nums(event.deep_view()),
        r.1.deep_view() == event_strs(event.deep_view()),
{
    let ghost e = event.deep_view();
    let mut nums: Vec<u64> = Vec::new();
    let mut strs: Vec<String> = Vec::new();
    nums.push(event.timestamp);
    nums.push(event_type_tag_exec(event.event_type));
    nums.push(severity_tag_exec(event.severity));
    strs.push(event.id.clone());
    strs.push(event.source.clone());
    match &event.details {
        EventDetails::Process(p) => {
            nums.push(0);
            nums.push(p.pid as u64);
            match p.ppid {
                Some(pp) => {
                    nums.push(1);
                    nums.push(pp as u64);
                },
                None => {
                    nums.push(0);
                    nums.push(0);
                },
            }
            nums.push(p.uid as u64);
            strs.push(p.name.clone());
            strs.push(p.path.clone());
            strs.push(p.user.clone());
            let n = p.cmdline.len();
            let mut i: usize = 0;
            while i < n
                invariant
                    e == event.deep_view(),
                    e.details == EventDetailsV::Process(p.deep_view()),
                    n == p.cmdline@.len(),
                    i <= n,
                    nums@ =~= event_nums(e),
                    strs.deep_view() =~= seq![e.id, e.source] + seq![
                        e.details->Process_0.name,
                        e.details->Process_0.path,
                        e.details->Process_0.user,
                    ] + e.details->Process_0.cmdline.take(i as int),
                decreases n - i,
            {
                let ghost sb = strs.deep_view();
                strs.push(p.cmdline[i].clone());
                proof {
                    assert(strs.deep_view() =~= sb.push(p.cmdline@[i as int]@));
                    assert(e.details->Process_0.cmdline.take(i + 1)
                        =~= e.details->Process_0.cmdline.take(i as int).push(
                        p.cmdline@[i as int]@,
                    ));
                    assert(strs.deep_view() =~= seq![e.id, e.source] + seq![
                        e.details->Process_0.name,
                        e.details->Process_0.path,
                        e.details->Process_0.user,
                    ] + e.details->Process_0.cmdline.take(i + 1));
                }
                i += 1;
            }
            proof {
                assert(e.details->Process_0.cmdline.take(n as int) =~= e.details
                    ->Process_0.cmdline);
                assert(strs.deep_view() =~= event_strs(e));
            }
        },
        EventDetails::File(f) => {
            nums.push(1);
            nums.push(f.process_pid as u64);
            match f.permissions {
                Some(m) => {
                    nums.push(1);
                    nums.push(m as u64);
                },
                None => {
                    nums.push(0);
                    nums.push(0);
                },
            }
            strs.push(f.path.clone());
            strs.push(f.operation.clone());
            strs.push(f.process_name.clone());
            strs.push(f.user.clone());
            proof {
                assert(nums@ =~= event_nums(e));
                assert(strs.deep_view() =~= event_strs(e));
            }
        },
        EventDetails::Network(n) => {
            nums.push(2);
            nums.push(n.src_port as u64);
            nums.push(n.dst_port as u64);
            match n.process_pid {
                Some(pp) => {
                    nums.push(1);
                    nums.push(pp as u64);
                },
                None => {
                    nums.push(0);
                    nums.push(0);
                },
            }
            match &n.process_name {
                Some(_) => nums.push(1),
                None => nums.push(0),
            }
            nums.push(n.bytes_sent);
            nums.push(n.bytes_received);
            strs.push(n.protocol.clone());
            strs.push(n.src_ip.clone());
            strs.push(n.dst_ip.clone());
            match &n.process_name {
                Some(pn) => strs.push(pn.clone()),
                None => strs.push(String::new()),
            }
            proof {
                assert(nums@ =~= event_nums(e));
                assert(strs.deep_view() =~= event_strs(e));
            }
        },
        EventDetails::Memory(m) => {
            nums.push(3);
            nums.push(m.process_pid as u64);
            nums.push(m.address);
            nums.push(m.size);
            strs.push(m.process_name.clone());
            strs.push(m.operation.clone());
            strs.push(m.permissions.clone());
            proof {
                assert(nums@ =~= event_nums(e));
                assert(strs.deep_view() =~= event_strs(e));
            }
        },
        EventDetails::User(u) => {
            nums.push(4);
            nums.push(u.uid as u64);
            match &u.terminal {
                Some(_) => nums.push(1),
                None => nums.push(0),
            }
            match &u.remote_ip {
                Some(_) => nums.push(1),
                None => nums.push(0),
            }
            strs.push(u.username.clone());
            strs.push(u.action.clone());
            match &u.terminal {
                Some(t) => strs.push(t.clone()),
                None => strs.push(String::new()),
            }
            match &u.remote_ip {
                Some(t) => strs.push(t.clone()),
                None => strs.push(String::new()),
            }
            proof {
                assert(nums@ =~= event_nums(e));
                assert(strs.deep_view() =~= event_strs(e));
            }
        },
        EventDetails::Rootkit(k) => {
            nums.push(5);
            match &k.affected_path {
                Some(_) => nums.push(1),
                None => nums.push(0),
            }
            match &k.affected_process {
                Some(_) => nums.push(1),
                None => nums.push(0),
            }
            strs.push(k.detection_type.clone());
            strs.push(k.description.clone());
            match &k.affected_path {
                Some(t) => strs.push(t.clone()),
                None => strs.push(String::new()),
            }
            match &k.affected_process {
                Some(t) => strs.push(t.clone()),
                None => strs.push(String::new()),
            }
            proof {
                assert(nums@ =~= event_nums(e));
                assert(strs.deep_view() =~= event_strs(e));
            }
        },
    }
    (nums, strs)
}

/// Wire tag of an event kind, executable form.
fn event_type_tag_exec(t: EventType) -> (r: u64)
    ensures
        r == event_type_tag(t),
{
    match t {
        EventType::ProcessCreated => 0,
        EventType::ProcessTerminated => 1,
        EventType::ProcessModified => 2,
        EventType::FileCreated => 3,
        EventType::FileModified => 4,
        EventType::FileDeleted => 5,
        EventType::FileAccessed => 6,
        EventType::NetworkConnection => 7,
        EventType::NetworkDnsQuery => 8,
        EventType::NetworkHttpRequest => 9,
        EventType::MemoryInjection => 10,
        EventType::MemoryAllocation => 11,
        EventType::UserLogin => 12,
        EventType::UserLogout => 13,
        EventType::UserElevation => 14,
        EventType::RootkitDetected => 15,
        EventType::SuspiciousBehavior => 16,
    }
}

/// The event kind a wire tag names, executable form.
fn event_type_from_tag_exec(n: u64) -> (r: Option<EventType>)
    ensures
        (r == event_type_from_tag(n)),
{
    if n == 0 {
        Some(EventType::ProcessCreated)
    } else if n == 1 {
        Some(EventType::ProcessTerminated)
    } else if n == 2 {
        Some(EventType::ProcessModified)
    } else if n == 3 {
        Some(EventType::FileCreated)
    } else if n == 4 {
        Some(EventType::FileModified)
    } else if n == 5 {
        Some(EventType::FileDeleted)
    } else if n == 6 {
        Some(EventType::FileAccessed)
    } else if n == 7 {
        Some(EventType::NetworkConnection)
    } else if n == 8 {
        Some(EventType::NetworkDnsQuery)
    } else if n == 9 {
        Some(EventType::NetworkHttpRequest)
    } else if n == 10 {
        Some(EventType::MemoryInjection)
    } else if n == 11 {
        Some(EventType::MemoryAllocation)
    } else if n == 12 {
        Some(EventType::UserLogin)
    } else if n == 13 {
        Some(EventType::UserLogout)
    } else if n == 14 {
        Some(EventType::UserElevation)
    } else if n == 15 {
        Some(EventType::RootkitDetected)
    } else if n == 16 {
        Some(EventType::SuspiciousBehavior)
    } else {
        None
    }
}

/// Wire tag of a severity, executable form.
fn severity_tag_exec(s: Severity) -> (r: u64)
    ensures
        r == severity_tag(s),
{
    match s {
        Severity::Info => 0,
        Severity::Low => 1,
        Severity::Medium => 2,
        Severity::High => 3,
        Severity::Critical => 4,
    }
}

/// The severity a wire tag names, executable form.
fn severity_from_tag_exec(n: u64) -> (res: Option<Severity>)
    ensures
        (res == severity_from_tag(n)),
{
    if n == 0 {
        Some(Severity::Info)
    } else if n == 1 {
        Some(Severity::Low)
    } else if n == 2 {
        Some(Severity::Medium)
    } else if n == 3 {
        Some(Severity::High)
    } else if n == 4 {
        Some(Severity::Critical)
    } else {
        None
    }
}


/// Rebuild an event from its wire record.
#[verifier::rlimit(80)]
fn event_of_wire_exec(nums: &Vec<u64>, strs: &Vec<String>) -> (r: Option<SystemEvent>)
    ensures
        match r {
            Some(ev) => event_of_wire(nums@, strs.deep_view()) == Some(ev.deep_view()),
            None => event_of_wire(nums@, strs.deep_view()) is None,
        },
{
    let nn = nums.len();
    let sn = strs.len();
    if nn < 4 || sn < 2 {
        return None;
    }
    let et = match event_type_from_tag_exec(nums[1]) {
        Some(t) => t,
        None => {
            return None;
        },
    };
    let sev = match severity_from_tag_exec(nums[2]) {
        Some(t) => t,
        None => {
            return None;
        },
    };
    let ghost pn = nums@.skip(4);
    let ghost ps = strs.deep_view().skip(2);
    proof {
        assert(pn.len() == nn - 4);
        assert(ps.len() == sn - 2);
        assert(forall|j: int| 0 <= j < pn.len() ==> pn[j] == nums@[4 + j]);
        assert(forall|j: int| 0 <= j < ps.len() ==> ps[j] == strs.deep_view()[2 + j]);
    }
    let tag = nums[3];
    let details: EventDetails = if tag == 0 {
        if nn - 4 == 4 && sn - 2 >= 3 && nums[4] <= u32::MAX as u64 && nums[7] <= u32::MAX as u64
            && (nums[5] == 0 || nums[5] == 1) && nums[6] <= u32::MAX as u64 {
            let mut cmdline: Vec<String> = Vec::new();
            let mut j: usize = 5;
            while j < sn
                invariant
                    sn == strs@.len(),
                    5 <= j <= sn,
                    cmdline.deep_view() =~= strs.deep_view().subrange(5, j as int),
                decreases sn - j,
            {
                let ghost cb = cmdline.deep_view();
                cmdline.push(strs[j].clone());
                proof {
                    assert(cmdline.deep_view() =~= cb.push(strs@[j as int]@));
                    assert(strs.deep_view().subrange(5, j + 1) =~= strs.deep_view().subrange(
                        5,
                        j as int,
                    ).push(strs.deep_view()[j as int]));
                }
                j += 1;
            }
            proof {
                assert(strs.deep_view().subrange(5, sn as int) =~= ps.skip(3));
            }
            EventDetails::Process(
                ProcessEvent {
                    pid: nums[4] as u32,
                    ppid: if nums[5] == 1 {
                        Some(nums[6] as u32)
                    } else {
                        None
                    },
                    name: strs[2].clone(),
                    path: strs[3].clone(),
                    cmdline,
                    user: strs[4].clone(),
                    uid: nums[7] as u32,
                },
            )
        } else {
            return None;
        }
    } else if tag == 1 {
        if nn - 4 == 3 && sn - 2 == 4 && nums[4] <= u32::MAX as u64 && (nums[5] == 0 || nums[5]
            == 1) && nums[6] <= u32::MAX as u64 {
            EventDetails::File(
                FileEvent {
                    path: strs[2].clone(),
                    operation: strs[3].clone(),
                    process_pid: nums[4] as u32,
                    process_name: strs[4].clone(),
                    user: strs[5].clone(),
                    permissions: if nums[5] == 1 {
                        Some(nums[6] as u32)
                    } else {
                        None
                    },
                },
            )
        } else {
            return None;
        }
    } else if tag == 2 {
        if nn - 4 == 7 && sn - 2 == 4 && nums[4] <= u16::MAX as u64 && nums[5] <= u16::MAX as u64
            && (nums[6] == 0 || nums[6] == 1) && nums[7] <= u32::MAX as u64 && (nums[8] == 0
            || nums[8] == 1) {
            EventDetails::Network(
                NetworkEvent {
                    protocol: strs[2].clone(),
                    src_ip: strs[3].clone(),
                    src_port: nums[4] as u16,
                    dst_ip: strs[4].clone(),
                    dst_port: nums[5] as u16,
                    process_pid: if nums[6] == 1 {
                        Some(nums[7] as u32)
                    } else {
                        None
                    },
                    process_name: if nums[8] == 1 {
                        Some(strs[5].clone())
                    } else {
                        None
                    },
                    bytes_sent: nums[9],
                    bytes_received: nums[10],
                },
            )
        } else {
            return None;
        }
    } else if tag == 3 {
        if nn - 4 == 3 && sn - 2 == 3 && nums[4] <= u32::MAX as u64 {
            EventDetails::Memory(
                MemoryEvent {
                    process_pid: nums[4] as u32,
                    process_name: strs[2].clone(),
                    operation: strs[3].clone(),
                    address: nums[5],
                    size: nums[6],
                    permissions: strs[4].clone(),
                },
            )
        } else {
            return None;
        }
    } else if tag == 4 {
        if nn - 4 == 3 && sn - 2 == 4 && nums[4] <= u32::MAX as u64 && (nums[5] == 0 || nums[5]
            == 1) && (nums[6] == 0 || nums[6] == 1) {
            EventDetails::User(
                UserEvent {
                    username: strs[2].clone(),
                    uid: nums[4] as u32,
                    action: strs[3].clone(),
                    terminal: if nums[5] == 1 {
                        Some(strs[4].clone())
                    } else {
                        None
                    },
                    remote_ip: if nums[6] == 1 {
                        Some(strs[5].clone())
                    } else {
                        None
                    },
                },
            )
        } else {
            return None;
        }
    } else if tag == 5 {
        if nn - 4 == 2 && sn - 2 == 4 && (nums[4] == 0 || nums[4] == 1) && (nums[5] == 0 || nums[5]
            == 1) {
            EventDetails::Rootkit(
                RootkitEvent {
                    detection_type: strs[2].clone(),
                    description: strs[3].clone(),
                    affected_path: if nums[4] == 1 {
                        Some(strs[4].clone())
                    } else {
                        None
                    },
                    affected_process: if nums[5] == 1 {
                        Some(strs[5].clone())
                    } else {
                        None
                    },
                },
            )
        } else {
            return None;
        }
    } else {
        return None;
    };
    proof {
        assert(details_of_wire(tag, pn, ps) == Some(details.deep_view()));
    }
    let ev = SystemEvent {
        id: strs[0].clone(),
        timestamp: nums[0],
        event_type: et,
        severity: sev,
        source: strs[1].clone(),
        details,
    };
    proof {
        assert(event_of_wire(nums@, strs.deep_view()) matches Some(x) && x =~~= ev.deep_view());
    }
    Some(ev)
}

/// Serialise an event.
pub fn encode_event(event: &SystemEvent) -> (r: Vec<u8>)
    ensures
        r@ == enc_event(event.deep_view()),
        event_enc_at(r@, 0, event.deep_view()),
{
    let ghost e = event.deep_view();
    let wire = event_to_wire(event);
    let (nums, strs) = wire;
    let mut out = enc_nums_vec(&nums);
    let mut tail = enc_strs_vec(&strs);
    let ghost tl = tail@;
    out.append(&mut tail);
    proof {
        lemma_enc_le_len(nums@.len() as int, 8);
        lemma_nums_flat_len(nums@);
        assert(out@ =~= enc_event(e));
        assert(out@.subrange(0, 8 + 8 * nums@.len() as int) =~= enc_nums(nums@));
        assert(nums_enc_at(out@, 0, event_nums(e)));
        assert(out@.subrange(8 + 8 * nums@.len() as int, out@.len() as int) =~= tl);
        assert(tl.subrange(0, enc_strs(event_strs(e)).len() as int) =~= tl);
        assert(out@.subrange(
            8 + 8 * nums@.len() as int,
            8 + 8 * nums@.len() as int + enc_strs(event_strs(e)).len() as int,
        ) =~= enc_strs(event_strs(e)));
        assert(strs_enc_at(out@, 8 + 8 * event_nums(e).len() as int, event_strs(e)));
        assert(event_enc_at(out@, 0, e));
    }
    out
}

/// Deserialise an event at `pos`.  Whatever event was encoded there comes
/// back exactly, with the position just past it.
fn dec_event_at(bytes: &Vec<u8>, pos: usize) -> (r: Option<(SystemEvent, usize)>)
    ensures
        forall|ev: SystemEventV|
            #[trigger] event_enc_at(bytes@, pos as int, ev) ==> (r matches Some(v)
                && v.0.deep_view() == ev && v.1 == pos + enc_event(ev).len()),
{
    let r1 = dec_nums_at(bytes, pos);
    let (nums, pos2) = match r1 {
        Some(v) => v,
        None => {
            return None;
        },
    };
    let r2 = dec_strs_at(bytes, pos2);
    let (strs, pos3) = match r2 {
        Some(v) => v,
        None => {
            proof {
                assert forall|ev: SystemEventV| !event_enc_at(bytes@, pos as int, ev) by {
                    if event_enc_at(bytes@, pos as int, ev) {
                        assert(nums@ == event_nums(ev));
                        assert(pos2 == pos + 8 + 8 * event_nums(ev).len());
                    }
                }
            }
            return None;
        },
    };
    let r3 = event_of_wire_exec(&nums, &strs);
    match r3 {
        Some(ev) => {
            proof {
                assert forall|x: SystemEventV| #[trigger] event_enc_at(bytes@, pos as int, x)
                    implies (ev.deep_view() == x && pos3 == pos + enc_event(x).len()) by {
                    lemma_event_wire_round(x);
                    assert(nums@ == event_nums(x));
                    assert(strs.deep_view() == event_strs(x));
                }
            }
            Some((ev, pos3))
        },
        None => {
            proof {
                assert forall|ev: SystemEventV| !event_enc_at(bytes@, pos as int, ev) by {
                    if event_enc_at(bytes@, pos as int, ev) {
                        lemma_event_wire_round(ev);
                        assert(nums@ == event_nums(ev));
                        assert(strs.deep_view() == event_strs(ev));
                    }
                }
            }
            None
        },
    }
}

/// Deserialise an event.  Decoding any event's encoding gives that event
/// back: together with [`encode_event`] this is the round trip.
pub fn decode_event(bytes: &Vec<u8>) -> (r: Option<SystemEvent>)
    ensures
        forall|ev: SystemEventV|
            #[trigger] event_enc_at(bytes@, 0, ev) ==> (r matches Some(x) && x.deep_view() == ev),
{
    match dec_event_at(bytes, 0) {
        Some(v) => Some(v.0),
        None => None,
    }
}


/// Wire tag of a threat kind.
pub open spec fn threat_type_tag(t: ThreatType) -> u64 {
    match t {
        ThreatType::Malware => 0,
        ThreatType::Ransomware => 1,
        ThreatType::Rootkit => 2,
        ThreatType::PrivilegeEscalation => 3,
        ThreatType::LateralMovement => 4,
        ThreatType::DataExfiltration => 5,
        ThreatType::SuspiciousProcess => 6,
        ThreatType::SuspiciousNetwork => 7,
        ThreatType::AnomalousBehavior => 8,
    }
}

/// The threat kind a wire tag names, if any.
pub open spec fn threat_type_from_tag(n: u64) -> Option<ThreatType> {
    if n == 0 {
        Some(ThreatType::Malware)
    } else if n == 1 {
        Some(ThreatType::Ransomware)
    } else if n == 2 {
        Some(ThreatType::Rootkit)
    } else if n == 3 {
        Some(ThreatType::PrivilegeEscalation)
    } else if n == 4 {
        Some(ThreatType::LateralMovement)
    } else if n == 5 {
        Some(ThreatType::DataExfiltration)
    } else if n == 6 {
        Some(ThreatType::SuspiciousProcess)
    } else if n == 7 {
        Some(ThreatType::SuspiciousNetwork)
    } else if n == 8 {
        Some(ThreatType::AnomalousBehavior)
    } else {
        None
    }
}

/// The wire numbers of a list of events: for each, the sizes of its own
/// wire record, then the record's numbers.
pub open spec fn events_blocks_nums(list: Seq<SystemEventV>) -> Seq<u64>
    decreases list.len(),
{
    if list.len() == 0 {
        Seq::empty()
    } else {
        seq![
            event_nums(list.first()).len() as u64,
            event_strs(list.first()).len() as u64,
        ] + event_nums(list.first()) + events_blocks_nums(list.skip(1))
    }
}

/// The wire strings of a list of events, concatenated.
pub open spec fn events_blocks_strs(list: Seq<SystemEventV>) -> Seq<Seq<char>>
    decreases list.len(),
{
    if list.len() == 0 {
        Seq::empty()
    } else {
        event_strs(list.first()) + events_blocks_strs(list.skip(1))
    }
}

/// Every event's wire record has sizes a machine word can hold.
pub open spec fn events_bounded(list: Seq<SystemEventV>) -> bool {
    forall|i: int|
        0 <= i < list.len() ==> (#[trigger] event_nums(list[i]).len() <= usize::MAX && event_strs(
            list[i],
        ).len() <= usize::MAX)
}

/// The list of events a wire tail describes, if it is coherent.
pub open spec fn events_of_wire(nums: Seq<u64>, strs: Seq<Seq<char>>, cnt: u64) -> Option<
    Seq<SystemEventV>,
>
    decreases cnt,
{
    if cnt == 0 {
        Some(Seq::empty())
    } else if nums.len() >= 2 && 2 + nums[0] <= nums.len() && nums[1] <= strs.len() {
        match event_of_wire(nums.subrange(2, 2 + nums[0] as int), strs.subrange(0, nums[1] as int)) {
            Some(e) => match events_of_wire(
                nums.skip(2 + nums[0] as int),
                strs.skip(nums[1] as int),
                (cnt - 1) as u64,
            ) {
                Some(rest) => Some(seq![e] + rest),
                None => None,
            },
            None => None,
        }
    } else {
        None
    }
}

/// Reading a list of events' own wire blocks back gives the list.
proof fn lemma_events_wire_round(list: Seq<SystemEventV>)
    requires
        events_bounded(list),
        list.len() <= usize::MAX,
    ensures
        events_of_wire(events_blocks_nums(list), events_blocks_strs(list), list.len() as u64)
            == Some(list),
    decreases list.len(),
{
    if list.len() > 0 {
        let e = list.first();
        let bn = events_blocks_nums(list);
        let bs = events_blocks_strs(list);
        let en = event_nums(e);
        let es = event_strs(e);
        assert(bn[0] == en.len() as u64);
        assert(bn[1] == es.len() as u64);
        assert(bn.subrange(2, 2 + en.len() as int) =~= en);
        assert(bs.subrange(0, es.len() as int) =~= es);
        lemma_event_wire_round(e);
        assert(bn.skip(2 + en.len() as int) =~= events_blocks_nums(list.skip(1)));
        assert(bs.skip(es.len() as int) =~= events_blocks_strs(list.skip(1)));
        assert(events_bounded(list.skip(1)));
        lemma_events_wire_round(list.skip(1));
        assert(seq![e] + list.skip(1) =~= list);
    }
}

/// A threat's numbers on the wire: header, then the events' blocks.
pub open spec fn threat_nums(t: ThreatV) -> Seq<u64> {
    seq![
        t.timestamp,
        threat_type_tag(t.threat_type),
        severity_tag(t.severity),
        t.score as u64,
        t.ioc_matches.len() as u64,
        t.rule_matches.len() as u64,
        t.events.len() as u64,
    ] + events_blocks_nums(t.events)
}

/// A threat's strings on the wire: id, description, the match lists, then
/// the events' strings.
pub open spec fn threat_strs(t: ThreatV) -> Seq<Seq<char>> {
    seq![t.id, t.description] + t.ioc_matches + t.rule_matches + events_blocks_strs(t.events)
}

/// Sizes a threat's wire record must respect.
pub open spec fn threat_wire_bounded(t: ThreatV) -> bool {
    &&& t.ioc_matches.len() <= usize::MAX
    &&& t.rule_matches.len() <= usize::MAX
    &&& t.events.len() <= usize::MAX
    &&& 2 + t.ioc_matches.len() + t.rule_matches.len() <= usize::MAX
    &&& events_bounded(t.events)
}

/// The threat a wire record describes, if it is coherent.
pub open spec fn threat_of_wire(nums: Seq<u64>, strs: Seq<Seq<char>>) -> Option<ThreatV> {
    if nums.len() >= 7 && strs.len() >= 2 && nums[3] <= u32::MAX && nums[4] + nums[5] + 2
        <= strs.len() {
        match (threat_type_from_tag(nums[1]), severity_from_tag(nums[2])) {
            (Some(tt), Some(sev)) => match events_of_wire(
                nums.skip(7),
                strs.skip(2 + nums[4] as int + nums[5] as int),
                nums[6],
            ) {
                Some(events) => Some(
                    ThreatV {
                        id: strs[0],
                        timestamp: nums[0],
                        threat_type: tt,
                        severity: sev,
                        score: nums[3] as u32,
                        description: strs[1],
                        events,
                        ioc_matches: strs.subrange(2, 2 + nums[4] as int),
                        rule_matches: strs.subrange(
                            2 + nums[4] as int,
                            2 + nums[4] as int + nums[5] as int,
                        ),
                    },
                ),
                None => None,
            },
            _ => None,
        }
    } else {
        None
    }
}

/// Reading a threat's own wire record back gives the threat.
pub proof fn lemma_threat_wire_round(t: ThreatV)
    requires
        threat_wire_bounded(t),
    ensures
        threat_of_wire(threat_nums(t), threat_strs(t)) == Some(t),
{
    let nums = threat_nums(t);
    let strs = threat_strs(t);
    let ic = t.ioc_matches.len() as int;
    let rc = t.rule_matches.len() as int;
    assert(nums.skip(7) =~= events_blocks_nums(t.events));
    assert(strs.skip(2 + ic + rc) =~= events_blocks_strs(t.events));
    lemma_events_wire_round(t.events);
    assert(strs.subrange(2, 2 + ic) =~= t.ioc_matches);
    assert(strs.subrange(2 + ic, 2 + ic + rc) =~= t.rule_matches);
    assert(threat_of_wire(nums, strs) matches Some(x) && x =~~= t);
}

/// A threat on the wire: its numbers, then its strings.
pub open spec fn enc_threat(t: ThreatV) -> Seq<u8> {
    enc_nums(threat_nums(t)) + enc_strs(threat_strs(t))
}

/// `t` is encoded at `pos` of `b`.
pub open spec fn threat_enc_at(b: Seq<u8>, pos: int, t: ThreatV) -> bool {
    &&& nums_enc_at(b, pos, threat_nums(t))
    &&& strs_enc_at(b, pos + 8 + 8 * threat_nums(t).len(), threat_strs(t))
    &&& threat_wire_bounded(t)
    &&& enc_threat(t).len() == 8 + 8 * threat_nums(t).len() + enc_strs(threat_strs(t)).len()
}

proof fn lemma_events_blocks_push(list: Seq<SystemEventV>, e: SystemEventV)
    ensures
        events_blocks_nums(list.push(e)) == events_blocks_nums(list) + seq![
            event_nums(e).len() as u64,
            event_strs(e).len() as u64,
        ] + event_nums(e),
        events_blocks_strs(list.push(e)) == events_blocks_strs(list) + event_strs(e),
    decreases list.len(),
{
    if list.len() == 0 {
        assert(list.push(e).skip(1) =~= Seq::<SystemEventV>::empty());
        assert(list.push(e).first() == e);
        assert(events_blocks_nums(Seq::<SystemEventV>::empty()) =~= Seq::<u64>::empty());
        assert(events_blocks_strs(Seq::<SystemEventV>::empty()) =~= Seq::<Seq<char>>::empty());
        assert(events_blocks_nums(list.push(e).skip(1)) == events_blocks_nums(
            Seq::<SystemEventV>::empty(),
        ));
        assert(events_blocks_strs(list.push(e).skip(1)) == events_blocks_strs(
            Seq::<SystemEventV>::empty(),
        ));
        assert(events_blocks_nums(list.push(e)) =~= events_blocks_nums(list) + seq![
            event_nums(e).len() as u64,
            event_strs(e).len() as u64,
        ] + event_nums(e));
        assert(events_blocks_strs(list.push(e)) =~= events_blocks_strs(list) + event_strs(e));
    } else {
        lemma_events_blocks_push(list.skip(1), e);
        assert(list.push(e).skip(1) =~= list.skip(1).push(e));
        assert(list.push(e).first() == list.first());
        assert(events_blocks_nums(list.push(e)) =~= events_blocks_nums(list) + seq![
            event_nums(e).len() as u64,
            event_strs(e).len() as u64,
        ] + event_nums(e));
        assert(events_blocks_strs(list.push(e)) =~= events_blocks_strs(list) + event_strs(e));
    }
}

/// Flatten a threat into its wire numbers and strings.
fn threat_to_wire(threat: &Threat) -> (r: (Vec<u64>, Vec<String>))
    ensures
        r.0@ == threat_nums(threat.deep_view()),
        r.1.deep_view() == threat_strs(threat.deep_view()),
        threat_wire_bounded(threat.deep_view()),
{
    let ghost t = threat.deep_view();
    let mut nums: Vec<u64> = Vec::new();
    let mut strs: Vec<String> = Vec::new();
    nums.push(threat.timestamp);
    nums.push(threat_type_tag_exec(threat.threat_type));
    nums.push(severity_tag_exec(threat.severity));
    nums.push(threat.score as u64);
    nums.push(threat.ioc_matches.len() as u64);
    nums.push(threat.rule_matches.len() as u64);
    nums.push(threat.events.len() as u64);
    strs.push(threat.id.clone());
    strs.push(threat.description.clone());
    let ghost header = seq![t.id, t.description];
    let n1 = threat.ioc_matches.len();
    let mut i: usize = 0;
    while i < n1
        invariant
            t == threat.deep_view(),
            n1 == threat.ioc_matches@.len(),
            i <= n1,
            strs.deep_view() =~= seq![t.id, t.description] + t.ioc_matches.take(i as int),
        decreases n1 - i,
    {
        let ghost sb = strs.deep_view();
        strs.push(threat.ioc_matches[i].clone());
        proof {
            assert(strs.deep_view() =~= sb.push(threat.ioc_matches@[i as int]@));
            assert(t.ioc_matches.take(i + 1) =~= t.ioc_matches.take(i as int).push(
                t.ioc_matches[i as int],
            ));
        }
        i += 1;
    }
    proof {
        assert(t.ioc_matches.take(n1 as int) =~= t.ioc_matches);
    }
    let n2 = threat.rule_matches.len();
    let mut i: usize = 0;
    while i < n2
        invariant
            t == threat.deep_view(),
            n2 == threat.rule_matches@.len(),
            i <= n2,
            strs.deep_view() =~= seq![t.id, t.description] + t.ioc_matches
                + t.rule_matches.take(i as int),
        decreases n2 - i,
    {
        let ghost sb = strs.deep_view();
        strs.push(threat.rule_matches[i].clone());
        proof {
            assert(strs.deep_view() =~= sb.push(threat.rule_matches@[i as int]@));
            assert(t.rule_matches.take(i + 1) =~= t.rule_matches.take(i as int).push(
                t.rule_matches[i as int],
            ));
        }
        i += 1;
    }
    proof {
        assert(t.rule_matches.take(n2 as int) =~= t.rule_matches);
    }
    let n3 = threat.events.len();
    let mut i: usize = 0;
    while i < n3
        invariant
            t == threat.deep_view(),
            n3 == threat.events@.len(),
            i <= n3,
            nums@ =~= seq![
                t.timestamp,
                threat_type_tag(t.threat_type),
                severity_tag(t.severity),
                t.score as u64,
                t.ioc_matches.len() as u64,
                t.rule_matches.len() as u64,
                t.events.len() as u64,
            ] + events_blocks_nums(t.events.take(i as int)),
            strs.deep_view() =~= seq![t.id, t.description] + t.ioc_matches + t.rule_matches
                + events_blocks_strs(t.events.take(i as int)),
            events_bounded(t.events.take(i as int)),
        decreases n3 - i,
    {
        let wire = event_to_wire(&threat.events[i]);
        let (mut en, mut es) = wire;
        proof {
            assert(threat.events@[i as int].deep_view() == t.events[i as int]);
        }
        nums.push(en.len() as u64);
        nums.push(es.len() as u64);
        let ghost nb = nums@;
        let ghost sb = strs.deep_view();
        nums.append(&mut en);
        strs.append(&mut es);
        proof {
            lemma_events_blocks_push(t.events.take(i as int), t.events[i as int]);
            assert(t.events.take(i + 1) =~= t.events.take(i as int).push(t.events[i as int]));
            assert(nums@ =~= nb + event_nums(t.events[i as int]));
            assert(strs.deep_view() =~= sb + event_strs(t.events[i as int]));
            assert(event_nums(t.events[i as int]).len() <= usize::MAX);
            assert(event_strs(t.events[i as int]).len() <= usize::MAX);
            assert forall|k: int|
                0 <= k < i + 1 implies (#[trigger] event_nums(t.events.take(i + 1)[k]).len()
                <= usize::MAX && event_strs(t.events.take(i + 1)[k]).len() <= usize::MAX) by {
                assert(t.events.take(i + 1)[k] == t.events[k]);
                if k < i {
                    assert(t.events.take(i as int)[k] == t.events[k]);
                    assert(event_nums(t.events.take(i as int)[k]).len() <= usize::MAX);
                    assert(event_strs(t.events.take(i as int)[k]).len() <= usize::MAX);
                }
            }
            assert(nums@ =~= seq![
                t.timestamp,
                threat_type_tag(t.threat_type),
                severity_tag(t.severity),
                t.score as u64,
                t.ioc_matches.len() as u64,
                t.rule_matches.len() as u64,
                t.events.len() as u64,
            ] + events_blocks_nums(t.events.take(i + 1)));
            assert(strs.deep_view() =~= seq![t.id, t.description] + t.ioc_matches + t.rule_matches
                + events_blocks_strs(t.events.take(i + 1)));
            assert(events_bounded(t.events.take(i + 1)));
        }
        i += 1;
    }
    let total_strs = strs.len();
    proof {
        assert(t.events.take(n3 as int) =~= t.events);
        assert(nums@ =~= threat_nums(t));
        assert(strs.deep_view() =~= threat_strs(t));
        assert(2 + t.ioc_matches.len() + t.rule_matches.len() <= strs.deep_view().len());
    }
    (nums, strs)
}

/// Wire tag of a threat kind, executable form.
fn threat_type_tag_exec(t: ThreatType) -> (r: u64)
    ensures
        r == threat_type_tag(t),
{
    match t {
        ThreatType::Malware => 0,
        ThreatType::Ransomware => 1,
        ThreatType::Rootkit => 2,
        ThreatType::PrivilegeEscalation => 3,
        ThreatType::LateralMovement => 4,
        ThreatType::DataExfiltration => 5,
        ThreatType::SuspiciousProcess => 6,
        ThreatType::SuspiciousNetwork => 7,
        ThreatType::AnomalousBehavior => 8,
    }
}

/// The threat kind a wire tag names, executable form.
fn threat_type_from_tag_exec(n: u64) -> (r: Option<ThreatType>)
    ensures
        r == threat_type_from_tag(n),
{
    if n == 0 {
        Some(ThreatType::Malware)
    } else if n == 1 {
        Some(ThreatType::Ransomware)
    } else if n == 2 {
        Some(ThreatType::Rootkit)
    } else if n == 3 {
        Some(ThreatType::PrivilegeEscalation)
    } else if n == 4 {
        Some(ThreatType::LateralMovement)
    } else if n == 5 {
        Some(ThreatType::DataExfiltration)
    } else if n == 6 {
        Some(ThreatType::SuspiciousProcess)
    } else if n == 7 {
        Some(ThreatType::SuspiciousNetwork)
    } else if n == 8 {
        Some(ThreatType::AnomalousBehavior)
    } else {
        None
    }
}

/// Serialise a threat.
pub fn encode_threat(threat: &Threat) -> (r: Vec<u8>)
    ensures
        r@ == enc_threat(threat.deep_view()),
        threat_enc_at(r@, 0, threat.deep_view()),
{
    let ghost t = threat.deep_view();
    let wire = threat_to_wire(threat);
    let (nums, strs) = wire;
    let _nums_len: usize = nums.len();
    let _strs_len: usize = strs.len();
    let mut out = enc_nums_vec(&nums);
    let mut tail = enc_strs_vec(&strs);
    let ghost tl = tail@;
    out.append(&mut tail);
    proof {
        lemma_enc_le_len(nums@.len() as int, 8);
        lemma_nums_flat_len(nums@);
        assert(out@ =~= enc_threat(t));
        assert(out@.subrange(0, 8 + 8 * nums@.len() as int) =~= enc_nums(nums@));
        assert(nums_enc_at(out@, 0, threat_nums(t)));
        assert(out@.subrange(8 + 8 * nums@.len() as int, out@.len() as int) =~= tl);
        assert(tl.subrange(0, enc_strs(threat_strs(t)).len() as int) =~= tl);
        assert(out@.subrange(
            8 + 8 * nums@.len() as int,
            8 + 8 * nums@.len() as int + enc_strs(threat_strs(t)).len() as int,
        ) =~= enc_strs(threat_strs(t)));
        assert(strs_enc_at(out@, 8 + 8 * threat_nums(t).len() as int, threat_strs(t)));
        assert(threat_enc_at(out@, 0, t));
    }
    out
}


/// Copy a window of numbers.
fn copy_nums(nums: &Vec<u64>, start: usize, end: usize) -> (r: Vec<u64>)
    requires
        start <= end <= nums@.len(),
    ensures
        r@ == nums@.subrange(start as int, end as int),
{
    let mut out: Vec<u64> = Vec::new();
    let mut i: usize = start;
    while i < end
        invariant
            start <= i <= end <= nums@.len(),
            out@ =~= nums@.subrange(start as int, i as int),
        decreases end - i,
    {
        out.push(nums[i]);
        proof {
            assert(nums@.subrange(start as int, i + 1) =~= nums@.subrange(
                start as int,
                i as int,
            ).push(nums@[i as int]));
        }
        i += 1;
    }
    out
}

/// Copy a window of strings.
fn copy_strs(strs: &Vec<String>, start: usize, end: usize) -> (r: Vec<String>)
    requires
        start <= end <= strs@.len(),
    ensures
        r.deep_view() == strs.deep_view().subrange(start as int, end as int),
{
    let mut out: Vec<String> = Vec::new();
    let mut i: usize = start;
    while i < end
        invariant
            start <= i <= end <= strs@.len(),
            out.deep_view() =~= strs.deep_view().subrange(start as int, i as int),
        decreases end - i,
    {
        let ghost ob = out.deep_view();
        out.push(strs[i].clone());
        proof {
            assert(out.deep_view() =~= ob.push(strs@[i as int]@));
            assert(strs.deep_view().subrange(start as int, i + 1) =~= strs.deep_view().subrange(
                start as int,
                i as int,
            ).push(strs.deep_view()[i as int]));
        }
        i += 1;
    }
    proof {
        assert(out.deep_view() =~= strs.deep_view().subrange(start as int, end as int));
    }
    out
}

/// Rebuild a threat from its wire record.
#[verifier::rlimit(100)]
fn threat_of_wire_exec(nums: &Vec<u64>, strs: &Vec<String>) -> (r: Option<Threat>)
    ensures
        match r {
            Some(t) => threat_of_wire(nums@, strs.deep_view()) == Some(t.deep_view()),
            None => threat_of_wire(nums@, strs.deep_view()) is None,
        },
{
    let nn = nums.len();
    let sn = strs.len();
    if nn < 7 || sn < 2 {
        return None;
    }
    if nums[3] > u32::MAX as u64 {
        return None;
    }
    let ic64 = nums[4];
    let rc64 = nums[5];
    if ic64 > (sn - 2) as u64 {
        return None;
    }
    let ic = ic64 as usize;
    if rc64 > (sn - 2 - ic) as u64 {
        return None;
    }
    let rc = rc64 as usize;
    let tt = match threat_type_from_tag_exec(nums[1]) {
        Some(t) => t,
        None => {
            return None;
        },
    };
    let sev = match severity_from_tag_exec(nums[2]) {
        Some(t) => t,
        None => {
            return None;
        },
    };
    let ioc_matches = copy_strs(strs, 2, 2 + ic);
    let rule_matches = copy_strs(strs, 2 + ic, 2 + ic + rc);
    let evcnt = nums[6];
    let base_s: usize = 2 + ic + rc;
    let mut events: Vec<SystemEvent> = Vec::new();
    let mut ni: usize = 7;
    let mut si: usize = base_s;
    let mut k: u64 = 0;
    proof {
        assert(nums@.skip(7) =~= nums@.skip(ni as int));
        assert(strs.deep_view().skip(base_s as int) =~= strs.deep_view().skip(si as int));
    }
    while k < evcnt
        invariant
            nn == nums@.len(),
            sn == strs@.len(),
            nn >= 7,
            sn >= 2,
            7 <= ni <= nn,
            base_s <= si <= sn,
            base_s == 2 + ic + rc,
            ic == nums@[4],
            rc == nums@[5],
            evcnt == nums@[6],
            k <= evcnt,
            events_of_wire(nums@.skip(7), strs.deep_view().skip(base_s as int), evcnt) == (
            match events_of_wire(
                nums@.skip(ni as int),
                strs.deep_view().skip(si as int),
                (evcnt - k) as u64,
            ) {
                Some(rest) => Some(events.deep_view() + rest),
                None => None::<Seq<SystemEventV>>,
            }),
        decreases evcnt - k,
    {
        let ghost cur_nums = nums@.skip(ni as int);
        let ghost cur_strs = strs.deep_view().skip(si as int);
        proof {
            assert(cur_nums.len() == nn - ni);
            assert(cur_strs.len() == sn - si);
            assert(forall|j: int| 0 <= j < cur_nums.len() ==> cur_nums[j] == nums@[ni + j]);
        }
        if nn - ni < 2 {
            proof {
                assert(events_of_wire(cur_nums, cur_strs, (evcnt - k) as u64) is None);
                assert(events_of_wire(
                    nums@.skip(7),
                    strs.deep_view().skip(base_s as int),
                    evcnt,
                ) is None);
            }
            return None;
        }
        let nl64 = nums[ni];
        if nl64 > (nn - ni - 2) as u64 {
            proof {
                assert(events_of_wire(cur_nums, cur_strs, (evcnt - k) as u64) is None);
                assert(events_of_wire(
                    nums@.skip(7),
                    strs.deep_view().skip(base_s as int),
                    evcnt,
                ) is None);
            }
            return None;
        }
        let nl = nl64 as usize;
        let sl64 = nums[ni + 1];
        if sl64 > (sn - si) as u64 {
            proof {
                assert(events_of_wire(cur_nums, cur_strs, (evcnt - k) as u64) is None);
                assert(events_of_wire(
                    nums@.skip(7),
                    strs.deep_view().skip(base_s as int),
                    evcnt,
                ) is None);
            }
            return None;
        }
        let sl = sl64 as usize;
        let sub_nums = copy_nums(nums, ni + 2, ni + 2 + nl);
        let sub_strs = copy_strs(strs, si, si + sl);
        proof {
            assert(sub_nums@ =~= cur_nums.subrange(2, 2 + nl as int));
            assert(sub_strs.deep_view() =~= cur_strs.subrange(0, sl as int));
        }
        let ev = match event_of_wire_exec(&sub_nums, &sub_strs) {
            Some(e) => e,
            None => {
                proof {
                    assert(events_of_wire(cur_nums, cur_strs, (evcnt - k) as u64) is None);
                    assert(events_of_wire(
                        nums@.skip(7),
                        strs.deep_view().skip(base_s as int),
                        evcnt,
                    ) is None);
                }
                return None;
            },
        };
        let ghost events_before = events.deep_view();
        events.push(ev);
        proof {
            assert(events.deep_view() =~= events_before.push(ev.deep_view()));
            assert(event_of_wire(cur_nums.subrange(2, 2 + nl as int), cur_strs.subrange(
                0,
                sl as int,
            )) == Some(ev.deep_view()));
            assert(cur_nums.skip(2 + nl as int) =~= nums@.skip(ni + 2 + nl as int));
            assert(cur_strs.skip(sl as int) =~= strs.deep_view().skip(si + sl as int));
            assert forall|rest: Seq<SystemEventV>| true implies #[trigger] (events_before + (seq![
                ev.deep_view(),
            ] + rest)) =~= events.deep_view() + rest by {}
        }
        ni = ni + 2 + nl;
        si = si + sl;
        k = k + 1;
    }
    proof {
        assert(events_of_wire(nums@.skip(ni as int), strs.deep_view().skip(si as int), 0)
            == Some(Seq::<SystemEventV>::empty()));
        assert(events.deep_view() + Seq::<SystemEventV>::empty() =~= events.deep_view());
        assert(events_of_wire(nums@.skip(7), strs.deep_view().skip(base_s as int), evcnt) == Some(
            events.deep_view(),
        ));
    }
    let t = Threat {
        id: strs[0].clone(),
        timestamp: nums[0],
        threat_type: tt,
        severity: sev,
        score: nums[3] as u32,
        description: strs[1].clone(),
        events,
        ioc_matches,
        rule_matches,
    };
    proof {
        assert(threat_of_wire(nums@, strs.deep_view()) matches Some(x) && x =~~= t.deep_view());
    }
    Some(t)
}

/// Deserialise a threat at `pos`.  Whatever threat was encoded there comes
/// back exactly.
fn dec_threat_at(bytes: &Vec<u8>, pos: usize) -> (r: Option<(Threat, usize)>)
    ensures
        forall|t: ThreatV|
            #[trigger] threat_enc_at(bytes@, pos as int, t) ==> (r matches Some(v)
                && v.0.deep_view() == t && v.1 == pos + enc_threat(t).len()),
{
    let r1 = dec_nums_at(bytes, pos);
    let (nums, pos2) = match r1 {
        Some(v) => v,
        None => {
            return None;
        },
    };
    let r2 = dec_strs_at(bytes, pos2);
    let (strs, pos3) = match r2 {
        Some(v) => v,
        None => {
            proof {
                assert forall|t: ThreatV| !threat_enc_at(bytes@, pos as int, t) by {
                    if threat_enc_at(bytes@, pos as int, t) {
                        assert(nums@ == threat_nums(t));
                        assert(pos2 == pos + 8 + 8 * threat_nums(t).len());
                    }
                }
            }
            return None;
        },
    };
    let r3 = threat_of_wire_exec(&nums, &strs);
    match r3 {
        Some(t) => {
            proof {
                assert forall|x: ThreatV| #[trigger] threat_enc_at(bytes@, pos as int, x) implies (
                t.deep_view() == x && pos3 == pos + enc_threat(x).len()) by {
                    lemma_threat_wire_round(x);
                    assert(nums@ == threat_nums(x));
                    assert(strs.deep_view() == threat_strs(x));
                }
            }
            Some((t, pos3))
        },
        None => {
            proof {
                assert forall|t: ThreatV| !threat_enc_at(bytes@, pos as int, t) by {
                    if threat_enc_at(bytes@, pos as int, t) {
                        lemma_threat_wire_round(t);
                        assert(nums@ == threat_nums(t));
                        assert(strs.deep_view() == threat_strs(t));
                    }
                }
            }
            None
        },
    }
}

/// Deserialise a threat.  Decoding any threat's encoding gives that threat
/// back: together with [`encode_threat`] this is the round trip.
pub fn decode_threat(bytes: &Vec<u8>) -> (r: Option<Threat>)
    ensures
        forall|t: ThreatV|
            #[trigger] threat_enc_at(bytes@, 0, t) ==> (r matches Some(x) && x.deep_view() == t),
{
    match dec_threat_at(bytes, 0) {
        Some(v) => Some(v.0),
        None => None,
    }
}

} // verus!
