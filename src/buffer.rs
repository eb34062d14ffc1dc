use vstd::prelude::*;

verus! {

/// Writes `src` over `dst[at..at + src.len()]`, leaving the other bytes as they were.
pub fn copy_into(dst: &mut [u8], at: usize, src: &[u8])
    requires
        at + src@.len() <= old(dst)@.len(),
    ensures
        final(dst)@ == old(dst)@.take(at as int) + src@ + old(dst)@.skip(at + src@.len()),
{
    let ghost orig = dst@;
    let n = src.len();
    let dlen = dst.len();
    let mut i: usize = 0;
    while i < n
        invariant
            dlen == orig.len(),
            n == src@.len(),
            at + n <= orig.len(),
            dst@.len() == orig.len(),
            i <= n,
            forall|j: int| 0 <= j < at ==> dst@[j] == orig[j],
            forall|j: int| 0 <= j < i ==> dst@[at + j] == src@[j],
            forall|j: int| at + i <= j < orig.len() ==> dst@[j] == orig[j],
        decreases n - i,
    {
        dst[at + i] = src[i];
        i = i + 1;
    }
    assert(dst@ =~= orig.take(at as int) + src@ + orig.skip(at + n));
}

/// A half-open range `start..end` of a buffer.
#[derive(Clone, Copy, Debug, PartialEq, Eq, Structural)]
pub struct BufRange {
    pub start: usize,
    pub end: usize,
}

/// A fixed-size byte buffer that records and handshakes are staged in.
pub struct SharedBuf {
    size: usize,
    inner: Vec<u8>,
}

impl View for SharedBuf {
    type V = Seq<u8>;

    closed spec fn view(&self) -> Seq<u8> {
        self.inner@
    }
}

impl SharedBuf {
    /// The buffer's fixed size.
    pub closed spec fn spec_size(&self) -> nat {
        self.size as nat
    }

    /// The contents have the buffer's size.
    pub open spec fn wf(&self) -> bool {
        self@.len() == self.spec_size()
    }

    /// A zeroed buffer of `size` bytes.
    pub fn new(size: usize) -> (r: SharedBuf)
        ensures
            r.wf(),
            r.spec_size() == size,
            r@ == Seq::new(size as nat, |i: int| 0u8),
    {
        let inner = vec![0u8; size];
        assert(inner@ =~= Seq::new(size as nat, |i: int| 0u8));
        SharedBuf { size, inner }
    }

    pub fn size(&self) -> (r: usize)
        ensures
            r == self.spec_size(),
    {
        self.size
    }

    pub fn get_ref(&self) -> (r: &[u8])
        ensures
            r@ == self@,
    {
        self.inner.as_slice()
    }

    /// The whole buffer, to write through.
    pub fn get_mut(&mut self) -> (r: &mut [u8])
        ensures
            r@ == old(self)@,
            final(self)@ == final(r)@,
            final(self).spec_size() == old(self).spec_size(),
    {
        self.inner.as_mut_slice()
    }

    pub fn get_ref_from(&self, from: usize) -> (r: &[u8])
        requires
            self.wf(),
            from <= self.spec_size(),
        ensures
            r@ == self@.skip(from as int),
    {
        let all = self.inner.as_slice();
        vstd::slice::slice_subrange(all, from, all.len())
    }

    /// The bytes from `from` on, to write through.
    pub fn get_mut_from(&mut self, from: usize) -> (r: &mut [u8])
        requires
            old(self).wf(),
            from <= old(self).spec_size(),
        ensures
            r@ == old(self)@.skip(from as int),
            final(self).spec_size() == old(self).spec_size(),
            final(self)@ == old(self)@.take(from as int) + final(r)@,
    {
        let (_, tail) = self.inner.as_mut_slice().split_at_mut(from);
        tail
    }

    pub fn get_ref_to(&self, to: usize) -> (r: &[u8])
        requires
            self.wf(),
            to <= self.spec_size(),
        ensures
            r@ == self@.take(to as int),
    {
        vstd::slice::slice_subrange(self.inner.as_slice(), 0, to)
    }

    /// The first `to` bytes, to write through.
    pub fn get_mut_to(&mut self, to: usize) -> (r: &mut [u8])
        requires
            old(self).wf(),
            to <= old(self).spec_size(),
        ensures
            r@ == old(self)@.take(to as int),
            final(self).spec_size() == old(self).spec_size(),
            final(self)@ == final(r)@ + old(self)@.skip(to as int),
    {
        let (head, _) = self.inner.as_mut_slice().split_at_mut(to);
        head
    }

    pub fn get_ref_range(&self, range: BufRange) -> (r: &[u8])
        requires
            self.wf(),
            range.start <= range.end <= self.spec_size(),
        ensures
            r@ == self@.subrange(range.start as int, range.end as int),
    {
        vstd::slice::slice_subrange(self.inner.as_slice(), range.start, range.end)
    }

    /// The bytes of `range`, to write through.
    pub fn get_mut_range(&mut self, range: BufRange) -> (r: &mut [u8])
        requires
            old(self).wf(),
            range.start <= range.end <= old(self).spec_size(),
        ensures
            r@ == old(self)@.subrange(range.start as int, range.end as int),
            final(self).spec_size() == old(self).spec_size(),
            final(self)@ == old(self)@.take(range.start as int) + final(r)@ + old(self)@.skip(
                range.end as int,
            ),
    {
        let (head, _) = self.inner.as_mut_slice().split_at_mut(range.end);
        let (_, mid) = head.split_at_mut(range.start);
        mid
    }

    /// Writes `slice` over the bytes of `range`, which it must fill exactly.
    pub fn copy_from_slice(&mut self, range: BufRange, slice: &[u8])
        requires
            old(self).wf(),
            range.start <= range.end <= old(self).spec_size(),
            slice@.len() == range.end - range.start,
        ensures
            final(self).wf(),
            final(self).spec_size() == old(self).spec_size(),
            final(self)@ == old(self)@.take(range.start as int) + slice@ + old(self)@.skip(
                range.end as int,
            ),
    {
        copy_into(self.inner.as_mut_slice(), range.start, slice);
    }
}

} // verus!
