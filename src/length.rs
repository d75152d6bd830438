//! The determinate length field: short form below 128, minimal long form above.
use vstd::prelude::*;
use crate::error::Error;
use crate::model::{be_min, be_value, lemma_be_min_fits, length_bytes, parse_length};
use crate::reader::Reader;
use crate::writer::Writer;

verus! {

/// Number of bytes in the minimal big-endian form of `n`.
fn magnitude_len(n: usize) -> (r: usize)
    ensures
        r == be_min(n as nat).len(),
        r <= 8,
{
    proof {
        lemma_be_min_fits(n as nat);
    }
    let mut m: usize = n;
    let mut k: usize = 0;
    while m > 0
        invariant
            be_min(n as nat).len() == k + be_min(m as nat).len(),
            be_min(n as nat).len() <= 8,
        decreases m,
    {
        m = m / 256;
        k = k + 1;
    }
    k
}

/// How many bytes `write_length` emits for `n`.
pub fn length_size(n: usize) -> (r: usize)
    ensures
        r == length_bytes(n as nat).len(),
        1 <= r <= 9,
{
    proof {
        lemma_be_min_fits(n as nat);
    }
    if n < 128 {
        1
    } else {
        1 + magnitude_len(n)
    }
}

fn push_magnitude(n: usize, w: &mut Writer)
    requires
        old(w).wf(),
        old(w).room() >= be_min(n as nat).len(),
    ensures
        final(w).wf(),
        final(w).cap() == old(w).cap(),
        final(w)@ == old(w)@ + be_min(n as nat),
    decreases n,
{
    if n > 0 {
        push_magnitude(n / 256, w);
        w.push((n % 256) as u8);
    }
}

/// Writes the canonical length field for `n`; fails, and writes nothing, where it does
/// not fit.
pub fn write_length(n: usize, w: &mut Writer) -> (r: Result<(), Error>)
    requires
        old(w).wf(),
    ensures
        final(w).wf(),
        final(w).cap() == old(w).cap(),
        old(w).room() >= length_bytes(n as nat).len() ==> r is Ok && final(w)@ == old(w)@
            + length_bytes(n as nat),
        old(w).room() < length_bytes(n as nat).len() ==> r == Err::<(), Error>(
            Error::BufferOverflow,
        ) && final(w)@ == old(w)@,
{
    if length_size(n) > w.remaining() {
        return Err(Error::BufferOverflow);
    }
    push_length(n, w);
    Ok(())
}

/// Writes the length field for `n`, which is known to fit.
pub(crate) fn push_length(n: usize, w: &mut Writer)
    requires
        old(w).wf(),
        old(w).room() >= length_bytes(n as nat).len(),
    ensures
        final(w).wf(),
        final(w).cap() == old(w).cap(),
        final(w)@ == old(w)@ + length_bytes(n as nat),
{
    if n < 128 {
        w.push(n as u8);
        assert(old(w)@.push(n as u8) =~= old(w)@ + length_bytes(n as nat));
    } else {
        let k = magnitude_len(n);
        w.push(0x80u8 + k as u8);
        push_magnitude(n, w);
        assert(final(w)@ =~= old(w)@ + length_bytes(n as nat));
    }
}

/// Reads a length field. On success gives the length and the absolute range
/// `[start, end)` the field occupies.
pub fn read_length(reader: &mut Reader) -> (r: Result<(usize, core::ops::Range<usize>), Error>)
    requires
        old(reader).wf(),
    ensures
        old(reader).moved(final(reader)),
        match parse_length(old(reader).remaining()) {
            Ok((n, k)) => {
                &&& r is Ok
                &&& r.unwrap().0 == n
                &&& r.unwrap().1.start == old(reader).pos()
                &&& r.unwrap().1.end == old(reader).pos() + k
                &&& final(reader).pos() == old(reader).pos() + k
            },
            Err(e) => r == Err::<(usize, core::ops::Range<usize>), Error>(e),
        },
{
    let start = reader.position();
    let ghost s = reader.remaining();
    let first = reader.read_byte()?;
    if first < 0x80 {
        return Ok((first as usize, start..reader.position()));
    }
    let k = (first - 0x80) as usize;
    if k == 0 {
        return Err(Error::InvalidLength);
    }
    let bytes = reader.read_slice(k)?;
    assert(bytes@ =~= s.subrange(1, 1 + k as int));
    let mut value: usize = 0;
    let mut i: usize = 0;
    while i < k
        invariant
            i <= k == bytes@.len(),
            value == be_value(bytes@.subrange(0, i as int)),
            old(reader).moved(reader),
            reader.pos() == start + 1 + k,
            bytes@ == s.subrange(1, 1 + k as int),
            s == old(reader).remaining(),
            s.len() >= 1 + k,
            s[0] == first,
            k == first - 0x80,
        decreases k - i,
    {
        let b = bytes[i];
        proof {
            assert(bytes@.subrange(0, i + 1).drop_last() =~= bytes@.subrange(0, i as int));
            lemma_be_value_prefix(bytes@, (i + 1) as nat);
        }
        if value > (usize::MAX - b as usize) / 256 {
            proof {
                assert(value * 256 + b > usize::MAX) by (nonlinear_arith)
                    requires
                        value > (usize::MAX - b as usize) / 256,
                        b <= 255,
                ;
                assert(be_value(bytes@.subrange(0, i + 1)) > usize::MAX);
                lemma_be_value_prefix_le(bytes@, (i + 1) as nat, k as nat);
                assert(bytes@.subrange(0, k as int) =~= bytes@);
                assert(be_value(s.subrange(1, 1 + k as int)) > usize::MAX);
            }
            return Err(Error::InvalidLength);
        }
        value = value * 256 + b as usize;
        i = i + 1;
    }
    assert(bytes@.subrange(0, k as int) =~= bytes@);
    Ok((value, start..reader.position()))
}

proof fn lemma_be_value_prefix(s: Seq<u8>, i: nat)
    requires
        1 <= i <= s.len(),
    ensures
        be_value(s.subrange(0, i as int)) == be_value(s.subrange(0, i - 1)) * 256 + s[i - 1] as nat,
{
    assert(s.subrange(0, i as int).drop_last() =~= s.subrange(0, i - 1));
}

/// A longer prefix never spells a smaller number.
proof fn lemma_be_value_prefix_le(s: Seq<u8>, i: nat, j: nat)
    requires
        i <= j <= s.len(),
    ensures
        be_value(s.subrange(0, i as int)) <= be_value(s.subrange(0, j as int)),
    decreases j - i,
{
    if i < j {
        lemma_be_value_prefix_le(s, i, (j - 1) as nat);
        lemma_be_value_prefix(s, j);
    }
}

} // verus!
