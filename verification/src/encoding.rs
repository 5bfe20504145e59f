//! Big-endian byte strings read as natural numbers, and the fixed-width,
//! zero-padded slots in which the precompiles carry them.

use vstd::arithmetic::div_mod::*;
use vstd::arithmetic::power::*;
use vstd::prelude::*;

verus! {

/// The natural number that `bytes` spells in base 256, most significant byte first.
/// The empty string spells zero.
pub open spec fn be_value(bytes: Seq<u8>) -> nat
    decreases bytes.len(),
{
    if bytes.len() == 0 {
        0
    } else {
        be_value(bytes.drop_last()) * 256 + bytes.last() as nat
    }
}

/// The `width` low-order base-256 digits of `value`, most significant first:
/// `value` right-aligned in a slot of `width` bytes, zero-padded on the left.
pub open spec fn be_bytes(value: nat, width: nat) -> Seq<u8>
    decreases width,
{
    if width == 0 {
        Seq::empty()
    } else {
        be_bytes(value / 256, (width - 1) as nat).push((value % 256) as u8)
    }
}

/// `n` zero bytes.
pub open spec fn zeros(n: nat) -> Seq<u8> {
    Seq::new(n, |i: int| 0u8)
}

/// `bytes` cut, or extended with zero bytes on the right, to exactly `n` bytes.
pub open spec fn zero_extend(bytes: Seq<u8>, n: nat) -> Seq<u8> {
    Seq::new(
        n,
        |i: int|
            if i < bytes.len() {
                bytes[i]
            } else {
                0u8
            },
    )
}

/// `buf` with its first `data.len()` bytes replaced by `data`; what lies
/// behind them stays as it was.
pub open spec fn overwrite_prefix(buf: Seq<u8>, data: Seq<u8>) -> Seq<u8> {
    data + buf.skip(data.len() as int)
}

/// `buf` with the bytes from `start` on, `data.len()` of them, replaced by `data`.
pub open spec fn overwrite_at(buf: Seq<u8>, start: int, data: Seq<u8>) -> Seq<u8> {
    buf.take(start) + data + buf.skip(start + data.len())
}

/// What a caller's read-only buffer holds; nothing where the caller passed none.
pub open spec fn bytes_of(buf: Option<&[u8]>) -> Option<Seq<u8>> {
    match buf {
        Some(b) => Some(b@),
        None => None,
    }
}

/// What a caller's output buffer holds before the call; nothing where the
/// caller passed none.
pub open spec fn bytes_of_mut(buf: Option<&mut [u8]>) -> Option<Seq<u8>> {
    match buf {
        Some(b) => Some(b@),
        None => None,
    }
}

/// What an output buffer holds after a call: `before`, untouched, if the
/// call was refused; else `result` over its first bytes.
pub open spec fn buffer_after(accepted: bool, before: Seq<u8>, result: Seq<u8>) -> Seq<u8> {
    if accepted {
        overwrite_prefix(before, result)
    } else {
        before
    }
}

/// The 32-byte word that stands for a truth value: 31 zero bytes, then 1 or 0.
pub open spec fn bool_word(flag: bool) -> Seq<u8> {
    zeros(31).push(
        if flag {
            1u8
        } else {
            0u8
        },
    )
}

/// Zero bytes spell zero.
pub proof fn lemma_be_value_zeros(n: nat)
    ensures
        be_value(zeros(n)) == 0,
    decreases n,
{
    if n > 0 {
        assert(zeros(n).drop_last() =~= zeros((n - 1) as nat));
        lemma_be_value_zeros((n - 1) as nat);
    }
}

/// A byte string spells zero exactly when every byte of it is zero.
pub proof fn lemma_be_value_zero_iff(bytes: Seq<u8>)
    ensures
        be_value(bytes) == 0 <==> (forall|i: int| 0 <= i < bytes.len() ==> bytes[i] == 0u8),
    decreases bytes.len(),
{
    if bytes.len() > 0 {
        let front = bytes.drop_last();
        lemma_be_value_zero_iff(front);
        if be_value(bytes) == 0 {
            assert(be_value(front) == 0 && bytes.last() == 0u8);
            assert forall|i: int| 0 <= i < bytes.len() implies bytes[i] == 0u8 by {
                if i < front.len() {
                    assert(front[i] == bytes[i]);
                }
            }
        }
        if forall|i: int| 0 <= i < bytes.len() ==> bytes[i] == 0u8 {
            assert forall|i: int| 0 <= i < front.len() implies front[i] == 0u8 by {
                assert(front[i] == bytes[i]);
            }
            assert(bytes.last() == bytes[bytes.len() - 1]);
        }
    }
}

/// Zero bytes in front of a byte string do not change the number it spells.
pub proof fn lemma_be_value_leading_zeros(k: nat, bytes: Seq<u8>)
    ensures
        be_value(zeros(k) + bytes) == be_value(bytes),
    decreases bytes.len(),
{
    if bytes.len() == 0 {
        assert(zeros(k) + bytes =~= zeros(k));
        lemma_be_value_zeros(k);
    } else {
        let whole = zeros(k) + bytes;
        assert(whole.drop_last() =~= zeros(k) + bytes.drop_last());
        assert(whole.last() == bytes.last());
        lemma_be_value_leading_zeros(k, bytes.drop_last());
    }
}

/// A slot of `width` bytes is `width` bytes long.
pub proof fn lemma_be_bytes_len(value: nat, width: nat)
    ensures
        be_bytes(value, width).len() == width,
    decreases width,
{
    if width > 0 {
        lemma_be_bytes_len(value / 256, (width - 1) as nat);
    }
}

/// A slot that holds zero is all zero bytes.
pub proof fn lemma_be_bytes_zero(width: nat)
    ensures
        be_bytes(0, width) == zeros(width),
    decreases width,
{
    if width > 0 {
        lemma_be_bytes_zero((width - 1) as nat);
        assert(0nat / 256 == 0 && 0nat % 256 == 0);
        assert(be_bytes(0, width) =~= zeros(width));
    }
}

/// Right-aligning the number that `bytes` spells in a slot `pad` bytes wider
/// than `bytes` gives `pad` zero bytes followed by `bytes` itself.
pub proof fn lemma_be_bytes_of_value(bytes: Seq<u8>, pad: nat)
    ensures
        be_bytes(be_value(bytes), bytes.len() + pad) == zeros(pad) + bytes,
    decreases bytes.len(),
{
    if bytes.len() == 0 {
        lemma_be_bytes_zero(pad);
        assert(zeros(pad) + bytes =~= zeros(pad));
    } else {
        let front = bytes.drop_last();
        let v = be_value(bytes);
        assert(v == be_value(front) * 256 + bytes.last() as nat);
        lemma_fundamental_div_mod_converse(
            v as int,
            256,
            be_value(front) as int,
            bytes.last() as int,
        );
        lemma_be_bytes_of_value(front, pad);
        assert((bytes.len() + pad - 1) as nat == front.len() + pad);
        assert(be_bytes(v, bytes.len() + pad) == be_bytes(v / 256, front.len() + pad).push(
            (v % 256) as u8,
        ));
        assert((zeros(pad) + front).push(bytes.last()) =~= zeros(pad) + bytes);
    }
}

/// A string of `n` bytes spells a number below `256^n`.
pub proof fn lemma_be_value_bound(bytes: Seq<u8>)
    ensures
        be_value(bytes) < pow(256, bytes.len()),
    decreases bytes.len(),
{
    reveal(pow);
    if bytes.len() > 0 {
        lemma_be_value_bound(bytes.drop_last());
        let hi = be_value(bytes.drop_last()) as int;
        let p = pow(256, (bytes.len() - 1) as nat);
        assert(hi + 1 <= p);
        assert((hi + 1) * 256 <= p * 256) by (nonlinear_arith)
            requires
                hi + 1 <= p,
        ;
        assert(pow(256, bytes.len()) == 256 * p);
    }
}

/// Reading back a slot gives the number that was written, as far as the slot
/// can hold it: modulo `256^width`.
pub proof fn lemma_be_value_of_bytes(value: nat, width: nat)
    ensures
        be_value(be_bytes(value, width)) == value % (pow(256, width) as nat),
    decreases width,
{
    reveal(pow);
    if width == 0 {
        assert(pow(256, 0) == 1);
    } else {
        let w1 = (width - 1) as nat;
        let slot = be_bytes(value, width);
        lemma_be_value_of_bytes(value / 256, w1);
        assert(slot.drop_last() =~= be_bytes(value / 256, w1));
        assert(slot.last() == (value % 256) as u8);
        lemma_pow_positive(256, w1);
        let p = pow(256, w1);
        assert(pow(256, width) == 256 * p);
        lemma_breakdown(value as int, 256, p);
        assert(be_value(slot) == ((value / 256) % (p as nat)) * 256 + value % 256);
        assert(256 * ((value as int / 256) % p) == ((value as int / 256) % p) * 256)
            by (nonlinear_arith);
    }
}

/// A number that fits in a slot is read back from it unchanged.
pub proof fn lemma_be_round_trip(value: nat, width: nat)
    requires
        value < pow(256, width),
    ensures
        be_value(be_bytes(value, width)) == value,
{
    lemma_be_value_of_bytes(value, width);
    lemma_small_mod(value, pow(256, width) as nat);
}

/// Whether `bytes` spells zero, that is, whether every byte is zero.
pub fn is_zero(bytes: &[u8]) -> (r: bool)
    ensures
        r == (be_value(bytes@) == 0),
{
    let mut i: usize = 0;
    while i < bytes.len()
        invariant
            i <= bytes@.len(),
            forall|j: int| 0 <= j < i ==> bytes@[j] == 0u8,
        decreases bytes@.len() - i,
    {
        if bytes[i] != 0 {
            proof {
                lemma_be_value_zero_iff(bytes@);
            }
            return false;
        }
        i += 1;
    }
    proof {
        lemma_be_value_zero_iff(bytes@);
    }
    true
}

/// The first `n` bytes of `bytes`, with zero bytes in place of those that
/// `bytes` is too short to give.
pub fn zero_extended(bytes: &[u8], n: usize) -> (r: Vec<u8>)
    ensures
        r@ == zero_extend(bytes@, n as nat),
{
    let mut r: Vec<u8> = Vec::new();
    let mut i: usize = 0;
    while i < n
        invariant
            i <= n,
            r@.len() == i,
            forall|j: int| 0 <= j < i ==> r@[j] == zero_extend(bytes@, n as nat)[j],
        decreases n - i,
    {
        if i < bytes.len() {
            r.push(bytes[i]);
        } else {
            r.push(0);
        }
        i += 1;
    }
    assert(r@ =~= zero_extend(bytes@, n as nat));
    r
}

/// Sets the first `n` bytes of `out` to zero.
pub fn write_zeros(out: &mut [u8], n: usize)
    requires
        n <= old(out).len(),
    ensures
        final(out)@ == overwrite_prefix(old(out)@, zeros(n as nat)),
        final(out)@.len() == old(out)@.len(),
{
    let mut i: usize = 0;
    while i < n
        invariant
            i <= n <= out@.len(),
            out@.len() == old(out)@.len(),
            forall|j: int| 0 <= j < i ==> out@[j] == 0u8,
            forall|j: int| i <= j < out@.len() ==> out@[j] == old(out)@[j],
        decreases n - i,
    {
        out[i] = 0;
        i += 1;
    }
    assert(out@ =~= overwrite_prefix(old(out)@, zeros(n as nat)));
}

/// Writes the 32-byte word for `flag` at the start of `out`.
pub fn write_bool_word(out: &mut [u8], flag: bool)
    requires
        old(out).len() >= 32,
    ensures
        final(out)@ == overwrite_prefix(old(out)@, bool_word(flag)),
        final(out)@.len() == old(out)@.len(),
{
    write_zeros(out, 32);
    if flag {
        out[31] = 1;
    }
    assert(out@ =~= overwrite_prefix(old(out)@, bool_word(flag)));
}

/// Writes the number that `bytes` spells into the slot of `width` bytes that
/// begins at `start`: right-aligned, zero-padded on the left.
pub fn write_right_aligned(out: &mut [u8], start: usize, width: usize, bytes: &[u8])
    requires
        bytes.len() <= width,
        start + width <= old(out).len(),
    ensures
        final(out)@ == overwrite_at(
            old(out)@,
            start as int,
            be_bytes(be_value(bytes@), width as nat),
        ),
        final(out)@.len() == old(out)@.len(),
{
    let pad: usize = width - bytes.len();
    let ghost slot = zeros(pad as nat) + bytes@;
    let mut i: usize = 0;
    while i < width
        invariant
            i <= width,
            pad + bytes@.len() == width,
            start + width <= out.len(),
            out@.len() == old(out)@.len(),
            slot == zeros(pad as nat) + bytes@,
            forall|j: int| 0 <= j < start ==> out@[j] == old(out)@[j],
            forall|j: int| start <= j < start + i ==> out@[j] == slot[j - start],
            forall|j: int| start + i <= j < out@.len() ==> out@[j] == old(out)@[j],
        decreases width - i,
    {
        if i < pad {
            out[start + i] = 0;
        } else {
            out[start + i] = bytes[i - pad];
        }
        i += 1;
    }
    proof {
        lemma_be_bytes_of_value(bytes@, pad as nat);
        assert(out@ =~= overwrite_at(old(out)@, start as int, slot));
    }
}

} // verus!
