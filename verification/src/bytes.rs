//! Copying of bytes between buffers.
use vstd::prelude::*;

verus! {

/// Overwrite the first `n` bytes of `buf` with those of `data`.
pub fn copy_into(buf: &mut [u8], data: &[u8], n: usize)
    requires
        n <= old(buf)@.len(),
        n <= data@.len(),
    ensures
        final(buf)@ == data@.take(n as int) + old(buf)@.skip(n as int),
{
    let ghost before = buf@;
    let mut i: usize = 0;
    while i < n
        invariant
            i <= n <= buf@.len(),
            n <= data@.len(),
            buf@.len() == before.len(),
            forall|k: int| 0 <= k < i ==> buf@[k] == data@[k],
            forall|k: int| i <= k < buf@.len() ==> buf@[k] == before[k],
        decreases n - i,
    {
        buf[i] = data[i];
        i = i + 1;
    }
    assert(buf@ =~= data@.take(n as int) + before.skip(n as int));
}

/// The bytes of `data`, owned.
pub fn to_vec(data: &[u8]) -> (r: Vec<u8>)
    ensures
        r@ == data@,
{
    let mut out: Vec<u8> = Vec::new();
    let mut i: usize = 0;
    while i < data.len()
        invariant
            i <= data@.len(),
            out@ == data@.take(i as int),
        decreases data@.len() - i,
    {
        out.push(data[i]);
        assert(data@.take(i + 1) =~= data@.take(i as int).push(data@[i as int]));
        i = i + 1;
    }
    assert(data@.take(i as int) =~= data@);
    out
}

/// Append the bytes of `data` from `from` on to `out`.
pub fn append_from(out: &mut Vec<u8>, data: &[u8], from: usize)
    requires
        from <= data@.len(),
    ensures
        final(out)@ == old(out)@ + data@.skip(from as int),
{
    let ghost before = out@;
    let mut i: usize = from;
    assert(out@ =~= before + data@.subrange(from as int, from as int));
    while i < data.len()
        invariant
            from <= i <= data@.len(),
            out@ == before + data@.subrange(from as int, i as int),
        decreases data@.len() - i,
    {
        out.push(data[i]);
        assert(out@ =~= before + data@.subrange(from as int, i + 1));
        i = i + 1;
    }
    assert(data@.subrange(from as int, i as int) =~= data@.skip(from as int));
}

/// Pad `out` with zeros up to `len`.
pub fn pad_to(out: &mut Vec<u8>, len: usize)
    requires
        old(out)@.len() <= len,
    ensures
        final(out)@ == old(out)@ + zeros(len - old(out)@.len()),
{
    let ghost before = out@;
    assert(out@ =~= before + zeros(0));
    while out.len() < len
        invariant
            before.len() <= out@.len() <= len,
            out@ == before + zeros(out@.len() - before.len()),
        decreases len - out@.len(),
    {
        out.push(0);
        assert(out@ =~= before + zeros(out@.len() - before.len()));
    }
}

/// That many zero bytes.
pub open spec fn zeros(n: int) -> Seq<u8> {
    Seq::new(n as nat, |i: int| 0u8)
}

} // verus!
