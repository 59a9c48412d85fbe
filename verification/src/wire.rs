//! Byte-level primitives shared by every record codec: integer encode/decode
//! under a chosen byte order, and the running modulo-256 checksum.

use vstd::prelude::*;

verus! {

/// Byte order for every integer of one stream, chosen once at construction.
#[derive(Debug, PartialEq, Eq, Copy, Clone, Structural)]
pub enum Endianness {
    Little,
    Big,
}

/// 256 raised to `n`: the number of values an `n`-byte field can hold.
pub open spec fn pow256(n: nat) -> int
    decreases n,
{
    if n == 0 {
        1
    } else {
        256 * pow256((n - 1) as nat)
    }
}

/// Value of a byte sequence read as a little-endian integer.
pub open spec fn le_value(s: Seq<u8>) -> int
    decreases s.len(),
{
    if s.len() == 0 {
        0
    } else {
        s[0] + 256 * le_value(s.drop_first())
    }
}

/// Value of a byte sequence read as a big-endian integer.
pub open spec fn be_value(s: Seq<u8>) -> int
    decreases s.len(),
{
    if s.len() == 0 {
        0
    } else {
        s.last() + 256 * be_value(s.drop_last())
    }
}

/// Value of a byte sequence under the chosen byte order.
pub open spec fn word_value(e: Endianness, s: Seq<u8>) -> int {
    match e {
        Endianness::Little => le_value(s),
        Endianness::Big => be_value(s),
    }
}

/// The `n` low bytes of `v`, least significant first.
pub open spec fn le_bytes(v: int, n: nat) -> Seq<u8>
    decreases n,
{
    if n == 0 {
        Seq::empty()
    } else {
        seq![(v % 256) as u8] + le_bytes(v / 256, (n - 1) as nat)
    }
}

/// The `n` low bytes of `v`, most significant first.
pub open spec fn be_bytes(v: int, n: nat) -> Seq<u8>
    decreases n,
{
    if n == 0 {
        Seq::empty()
    } else {
        be_bytes(v / 256, (n - 1) as nat).push((v % 256) as u8)
    }
}

/// The `n`-byte encoding of `v` under the chosen byte order.
pub open spec fn word_bytes(e: Endianness, v: int, n: nat) -> Seq<u8> {
    match e {
        Endianness::Little => le_bytes(v, n),
        Endianness::Big => be_bytes(v, n),
    }
}

pub proof fn lemma_pow256_monotone(a: nat, b: nat)
    requires
        a <= b,
    ensures
        0 < pow256(a) <= pow256(b),
    decreases b,
{
    if b > 0 {
        if a == b {
            lemma_pow256_monotone((a - 1) as nat, (b - 1) as nat);
        } else {
            lemma_pow256_monotone(a, (b - 1) as nat);
        }
    }
}

pub proof fn lemma_le_bytes_len(v: int, n: nat)
    ensures
        le_bytes(v, n).len() == n,
    decreases n,
{
    if n > 0 {
        lemma_le_bytes_len(v / 256, (n - 1) as nat);
    }
}

pub proof fn lemma_be_bytes_len(v: int, n: nat)
    ensures
        be_bytes(v, n).len() == n,
    decreases n,
{
    if n > 0 {
        lemma_be_bytes_len(v / 256, (n - 1) as nat);
    }
}

pub proof fn lemma_word_bytes_len(e: Endianness, v: int, n: nat)
    ensures
        word_bytes(e, v, n).len() == n,
{
    lemma_le_bytes_len(v, n);
    lemma_be_bytes_len(v, n);
}

pub proof fn lemma_le_value_bound(s: Seq<u8>)
    ensures
        0 <= le_value(s) < pow256(s.len()),
    decreases s.len(),
{
    if s.len() == 0 {
    } else {
        lemma_le_value_bound(s.drop_first());
    }
}

pub proof fn lemma_be_value_bound(s: Seq<u8>)
    ensures
        0 <= be_value(s) < pow256(s.len()),
    decreases s.len(),
{
    if s.len() == 0 {
    } else {
        lemma_be_value_bound(s.drop_last());
    }
}

pub proof fn lemma_word_value_bound(e: Endianness, s: Seq<u8>)
    ensures
        0 <= word_value(e, s) < pow256(s.len()),
{
    lemma_le_value_bound(s);
    lemma_be_value_bound(s);
}

/// Reading back the little-endian bytes of a value in range yields that value.
pub proof fn lemma_le_value_of_bytes(v: int, n: nat)
    requires
        0 <= v < pow256(n),
    ensures
        le_value(le_bytes(v, n)) == v,
    decreases n,
{
    if n == 0 {
    } else {
        lemma_le_bytes_len(v / 256, (n - 1) as nat);
        assert(le_bytes(v, n).drop_first() =~= le_bytes(v / 256, (n - 1) as nat));
        lemma_le_value_of_bytes(v / 256, (n - 1) as nat);
    }
}

/// Reading back the big-endian bytes of a value in range yields that value.
pub proof fn lemma_be_value_of_bytes(v: int, n: nat)
    requires
        0 <= v < pow256(n),
    ensures
        be_value(be_bytes(v, n)) == v,
    decreases n,
{
    if n == 0 {
    } else {
        lemma_be_bytes_len(v / 256, (n - 1) as nat);
        assert(be_bytes(v, n).drop_last() =~= be_bytes(v / 256, (n - 1) as nat));
        lemma_be_value_of_bytes(v / 256, (n - 1) as nat);
    }
}

pub proof fn lemma_word_value_of_bytes(e: Endianness, v: int, n: nat)
    requires
        0 <= v < pow256(n),
    ensures
        word_value(e, word_bytes(e, v, n)) == v,
{
    lemma_le_value_of_bytes(v, n);
    lemma_be_value_of_bytes(v, n);
}

/// Re-encoding the value of a byte sequence yields the same bytes.
pub proof fn lemma_le_bytes_of_value(s: Seq<u8>)
    ensures
        le_bytes(le_value(s), s.len()) == s,
    decreases s.len(),
{
    if s.len() == 0 {
        assert(le_bytes(le_value(s), s.len()) =~= s);
    } else {
        let v = le_value(s);
        lemma_le_value_bound(s.drop_first());
        assert(v % 256 == s[0] && v / 256 == le_value(s.drop_first())) by {
            vstd::arithmetic::div_mod::lemma_fundamental_div_mod_converse(
                v,
                256,
                le_value(s.drop_first()),
                s[0] as int,
            );
        };
        lemma_le_bytes_of_value(s.drop_first());
        assert(le_bytes(v, s.len()) =~= s);
    }
}

pub proof fn lemma_be_bytes_of_value(s: Seq<u8>)
    ensures
        be_bytes(be_value(s), s.len()) == s,
    decreases s.len(),
{
    if s.len() == 0 {
        assert(be_bytes(be_value(s), s.len()) =~= s);
    } else {
        let v = be_value(s);
        lemma_be_value_bound(s.drop_last());
        assert(v % 256 == s.last() && v / 256 == be_value(s.drop_last())) by {
            vstd::arithmetic::div_mod::lemma_fundamental_div_mod_converse(
                v,
                256,
                be_value(s.drop_last()),
                s.last() as int,
            );
        };
        lemma_be_bytes_of_value(s.drop_last());
        assert(be_bytes(v, s.len()) =~= s);
    }
}

pub proof fn lemma_word_bytes_of_value(e: Endianness, s: Seq<u8>)
    ensures
        word_bytes(e, word_value(e, s), s.len()) == s,
{
    lemma_le_bytes_of_value(s);
    lemma_be_bytes_of_value(s);
}

proof fn lemma_pow256_16_fits()
    ensures
        pow256(16) == 0x100000000000000000000000000000000,
{
    reveal_with_fuel(pow256, 17);
}

fn read_uint_le(b: &Vec<u8>, i: usize, n: usize) -> (r: u128)
    requires
        i + n <= b.len(),
        n <= 16,
    ensures
        r == le_value(b@.subrange(i as int, i + n)),
    decreases n,
{
    if n == 0 {
        proof {
            assert(b@.subrange(i as int, i as int) =~= Seq::<u8>::empty());
        }
        0
    } else {
        let rest = read_uint_le(b, i + 1, n - 1);
        proof {
            let s = b@.subrange(i as int, i + n);
            assert(s.drop_first() =~= b@.subrange(i + 1, i + 1 + (n - 1)));
            lemma_le_value_bound(s.drop_first());
            lemma_pow256_monotone((n - 1) as nat, 15);
            lemma_pow256_16_fits();
            assert(pow256(16) == 256 * pow256(15));
        }
        b[i] as u128 + 256 * rest
    }
}

fn read_uint_be(b: &Vec<u8>, i: usize, n: usize) -> (r: u128)
    requires
        i + n <= b.len(),
        n <= 16,
    ensures
        r == be_value(b@.subrange(i as int, i + n)),
    decreases n,
{
    if n == 0 {
        proof {
            assert(b@.subrange(i as int, i as int) =~= Seq::<u8>::empty());
        }
        0
    } else {
        let rest = read_uint_be(b, i, n - 1);
        proof {
            let s = b@.subrange(i as int, i + n);
            assert(s.drop_last() =~= b@.subrange(i as int, i + (n - 1)));
            assert(s.last() == b@[i + n - 1]);
            lemma_be_value_bound(s.drop_last());
            lemma_pow256_monotone((n - 1) as nat, 15);
            lemma_pow256_16_fits();
            assert(pow256(16) == 256 * pow256(15));
        }
        256 * rest + b[i + n - 1] as u128
    }
}

/// Read the `n`-byte integer stored at offset `i` under byte order `e`.
pub fn read_uint(e: Endianness, b: &Vec<u8>, i: usize, n: usize) -> (r: u128)
    requires
        i + n <= b.len(),
        n <= 16,
    ensures
        r == word_value(e, b@.subrange(i as int, i + n)),
{
    match e {
        Endianness::Little => read_uint_le(b, i, n),
        Endianness::Big => read_uint_be(b, i, n),
    }
}

fn write_uint_le(out: &mut Vec<u8>, v: u128, n: usize)
    requires
        n <= 16,
    ensures
        final(out)@ == old(out)@ + le_bytes(v as int, n as nat),
    decreases n,
{
    if n == 0 {
        proof {
            assert(out@ =~= out@ + le_bytes(v as int, 0));
        }
    } else {
        out.push((v % 256) as u8);
        write_uint_le(out, v / 256, n - 1);
        proof {
            assert(final(out)@ =~= old(out)@ + le_bytes(v as int, n as nat));
        }
    }
}

fn write_uint_be(out: &mut Vec<u8>, v: u128, n: usize)
    requires
        n <= 16,
    ensures
        final(out)@ == old(out)@ + be_bytes(v as int, n as nat),
    decreases n,
{
    if n == 0 {
        proof {
            assert(out@ =~= out@ + be_bytes(v as int, 0));
        }
    } else {
        write_uint_be(out, v / 256, n - 1);
        out.push((v % 256) as u8);
        proof {
            assert(final(out)@ =~= old(out)@ + be_bytes(v as int, n as nat));
        }
    }
}

/// Append the `n`-byte encoding of `v` under byte order `e`.
pub fn write_uint(e: Endianness, out: &mut Vec<u8>, v: u128, n: usize)
    requires
        n <= 16,
        v < pow256(n as nat),
    ensures
        final(out)@ == old(out)@ + word_bytes(e, v as int, n as nat),
{
    match e {
        Endianness::Little => write_uint_le(out, v, n),
        Endianness::Big => write_uint_be(out, v, n),
    }
}

/// Read the 16-bit integer stored at offset `i`.
pub fn read_u16(e: Endianness, b: &Vec<u8>, i: usize) -> (r: u16)
    requires
        i + 2 <= b.len(),
    ensures
        r == word_value(e, b@.subrange(i as int, i + 2)),
{
    let v = read_uint(e, b, i, 2);
    proof {
        lemma_word_value_bound(e, b@.subrange(i as int, i + 2));
        reveal_with_fuel(pow256, 3);
    }
    v as u16
}

/// Append the 2-byte encoding of `v`.
pub fn write_u16(e: Endianness, out: &mut Vec<u8>, v: u16)
    ensures
        final(out)@ == old(out)@ + word_bytes(e, v as int, 2),
{
    proof {
        reveal_with_fuel(pow256, 3);
    }
    write_uint(e, out, v as u128, 2);
}

/// Plain integer sum of a byte sequence, before any reduction modulo 256.
pub open spec fn byte_sum_int(s: Seq<u8>) -> int
    decreases s.len(),
{
    if s.len() == 0 {
        0
    } else {
        byte_sum_int(s.drop_last()) + s.last()
    }
}

/// Running checksum: the wrapping sum of a byte sequence, modulo 256.
pub open spec fn byte_sum(s: Seq<u8>) -> u8 {
    (byte_sum_int(s) % 256) as u8
}

pub proof fn lemma_byte_sum_int_nonneg(s: Seq<u8>)
    ensures
        byte_sum_int(s) >= 0,
    decreases s.len(),
{
    if s.len() > 0 {
        lemma_byte_sum_int_nonneg(s.drop_last());
    }
}

pub proof fn lemma_byte_sum_int_append(a: Seq<u8>, b: Seq<u8>)
    ensures
        byte_sum_int(a + b) == byte_sum_int(a) + byte_sum_int(b),
    decreases b.len(),
{
    if b.len() == 0 {
        assert(a + b =~= a);
    } else {
        assert((a + b).drop_last() =~= a + b.drop_last());
        assert((a + b).last() == b.last());
        lemma_byte_sum_int_append(a, b.drop_last());
    }
}

pub proof fn lemma_byte_sum_push(s: Seq<u8>, x: u8)
    ensures
        byte_sum(s.push(x)) == ((byte_sum(s) as int + x as int) % 256) as u8,
{
    assert(s.push(x).drop_last() =~= s);
    assert(s.push(x).last() == x);
    lemma_byte_sum_int_nonneg(s);
    vstd::arithmetic::div_mod::lemma_add_mod_noop(byte_sum_int(s), x as int, 256);
    vstd::arithmetic::div_mod::lemma_small_mod(x as nat, 256);
}

/// The sum of a concatenation is the modular sum of the parts' sums.
pub proof fn lemma_byte_sum_append(a: Seq<u8>, b: Seq<u8>)
    ensures
        byte_sum(a + b) == ((byte_sum(a) as int + byte_sum(b) as int) % 256) as u8,
{
    lemma_byte_sum_int_append(a, b);
    lemma_byte_sum_int_nonneg(a);
    lemma_byte_sum_int_nonneg(b);
    vstd::arithmetic::div_mod::lemma_add_mod_noop(byte_sum_int(a), byte_sum_int(b), 256);
}

/// Law: a checksum byte equal to the wrapping negation of the running sum
/// closes a checkpoint, and it is the only byte value that does.
pub proof fn lemma_checksum_closes(b: Seq<u8>, c: u8, k: u8)
    requires
        c == (256 - byte_sum(b) as int) % 256,
    ensures
        byte_sum(b.push(c)) == 0,
        k != c ==> byte_sum(b.push(k)) != 0,
{
    lemma_byte_sum_push(b, c);
    lemma_byte_sum_push(b, k);
}

/// Fold the bytes of `b[from..to]` into a running sum `init`.
pub fn sum_range(b: &Vec<u8>, from: usize, to: usize, init: u8) -> (r: u8)
    requires
        from <= to <= b.len(),
    ensures
        r == ((init as int + byte_sum(b@.subrange(from as int, to as int)) as int) % 256) as u8,
{
    let mut s = init;
    let mut k = from;
    proof {
        assert(b@.subrange(from as int, from as int) =~= Seq::<u8>::empty());
    }
    while k < to
        invariant
            from <= k <= to <= b.len(),
            s == ((init as int + byte_sum(b@.subrange(from as int, k as int)) as int) % 256) as u8,
        decreases to - k,
    {
        proof {
            assert(b@.subrange(from as int, k + 1) =~= b@.subrange(from as int, k as int).push(
                b@[k as int],
            ));
            lemma_byte_sum_push(b@.subrange(from as int, k as int), b@[k as int]);
            let s0 = byte_sum(b@.subrange(from as int, k as int)) as int;
            vstd::arithmetic::div_mod::lemma_add_mod_noop(init as int + s0, b@[k as int] as int, 256);
            vstd::arithmetic::div_mod::lemma_add_mod_noop(init as int, s0, 256);
            vstd::arithmetic::div_mod::lemma_small_mod(b@[k as int] as nat, 256);
        }
        s = ((s as u16 + b[k] as u16) % 256) as u8;
        k = k + 1;
    }
    s
}

} // verus!
