//! Append store: offset-addressable append and read over one logical byte
//! file, with a write buffer that is always flushed before a read so that a
//! read issued after an append, in program order, observes the appended
//! bytes.
//!
//! The store models the backing file as the pair of byte regions a buffered
//! writer creates: the bytes already handed to the file (`durable` here) and
//! the bytes still sitting in the write buffer. Every operation's contract is
//! stated over that pair, so the central hazard — a reader and a writer
//! holding diverging buffered views of one file — is ruled out by proof: a
//! read only ever consults the file region after the buffer has been drained
//! into it.

use vstd::prelude::*;

verus! {

/// Why a store operation failed.
#[derive(Clone, Copy, Debug, PartialEq, Eq, Structural)]
pub enum StoreError {
    /// The store has been closed; only construction and closing work then.
    StoreClosed,
    /// A read asked for a byte range that ends past the store's size.
    OffsetOutOfRange,
    /// An underlying file operation failed. The in-memory model of the
    /// backing file never fails, so no method here returns this; an adapter
    /// driving a real file maps its write, seek, read and sync failures
    /// onto it.
    IoError,
    /// Fewer bytes than asked for could be read although the range check
    /// passed: the backing file is shorter than `size`, which only an
    /// external actor truncating the file can cause. A fatal invariant
    /// violation for an adapter driving a real file; the in-memory model
    /// never produces it.
    ShortRead,
}

/// The abstract state of a store: whether it is open, the bytes the backing
/// file already holds, and the bytes still waiting in the write buffer.
#[verifier::ext_equal]
pub struct StoreView {
    pub is_open: bool,
    pub durable: Seq<u8>,
    pub buffered: Seq<u8>,
}

impl StoreView {
    /// Every byte appended so far, in append order: the flushed region
    /// followed by the still-buffered region.
    pub open spec fn contents(self) -> Seq<u8> {
        self.durable + self.buffered
    }

    /// The store's logical size: the offset the next append will return.
    pub open spec fn size(self) -> nat {
        self.contents().len()
    }

    /// The state of a freshly created store: open, with an empty file and an
    /// empty write buffer.
    pub open spec fn fresh() -> StoreView {
        StoreView { is_open: true, durable: Seq::empty(), buffered: Seq::empty() }
    }
}

/// The state after appending `data`: the bytes join the write buffer.
pub open spec fn spec_append(v: StoreView, data: Seq<u8>) -> StoreView {
    StoreView { buffered: v.buffered + data, ..v }
}

/// The state after a flush: the buffer has been drained into the file.
pub open spec fn spec_sync(v: StoreView) -> StoreView {
    StoreView { durable: v.contents(), buffered: Seq::empty(), ..v }
}

/// What a read of `length` bytes at `offset` returns: the bytes of that
/// range of the contents, or the error the arguments force.
pub open spec fn spec_read(v: StoreView, offset: int, length: int) -> Result<Seq<u8>, StoreError> {
    if !v.is_open {
        Err(StoreError::StoreClosed)
    } else if offset + length > v.size() {
        Err(StoreError::OffsetOutOfRange)
    } else {
        Ok(v.contents().subrange(offset, offset + length))
    }
}

/// The state after appending every element of `batch`, in order.
pub open spec fn spec_append_all(v: StoreView, batch: Seq<Seq<u8>>) -> StoreView
    decreases batch.len(),
{
    if batch.len() == 0 {
        v
    } else {
        spec_append_all(spec_append(v, batch[0]), batch.drop_first())
    }
}

/// The start offset that the `i + 1`-th append of `batch` returns when the
/// appends are issued in order against a store in state `v`: the store's
/// size once the first `i` elements have been applied.
pub open spec fn spec_offset(v: StoreView, batch: Seq<Seq<u8>>, i: int) -> nat
    recommends
        0 <= i <= batch.len(),
{
    spec_append_all(v, batch.take(i)).size()
}

/// Appending a batch and then one more element is the same as appending the
/// batch extended by that element.
pub proof fn lemma_append_all_push(v: StoreView, batch: Seq<Seq<u8>>, data: Seq<u8>)
    ensures
        spec_append_all(v, batch.push(data)) == spec_append(spec_append_all(v, batch), data),
    decreases batch.len(),
{
    if batch.len() == 0 {
        assert(batch.push(data)[0] == data);
        assert(batch.push(data).drop_first() =~= batch);
        assert(spec_append_all(v, batch.push(data))
            == spec_append_all(spec_append(v, data), batch));
        assert(spec_append_all(spec_append(v, data), batch) == spec_append(v, data));
    } else {
        assert(batch.push(data).drop_first() =~= batch.drop_first().push(data));
        lemma_append_all_push(spec_append(v, batch[0]), batch.drop_first(), data);
    }
}

/// Offset contiguity: over any sequence of appends against an open store,
/// each start offset is the previous start offset plus the previous
/// append's byte count, so the offsets partition the file into contiguous,
/// non-overlapping ranges; and against a fresh store the first offset is 0.
pub proof fn lemma_offsets_contiguous(v: StoreView, batch: Seq<Seq<u8>>, i: int)
    requires
        v.is_open,
        0 <= i < batch.len(),
    ensures
        spec_offset(v, batch, i + 1) == spec_offset(v, batch, i) + batch[i].len(),
        spec_offset(StoreView::fresh(), batch, 0) == 0,
{
    assert(batch.take(i + 1) =~= batch.take(i).push(batch[i]));
    lemma_append_all_push(v, batch.take(i), batch[i]);
    let w = spec_append_all(v, batch.take(i));
    assert(spec_append(w, batch[i]).contents() =~= w.contents() + batch[i]);
    assert(batch.take(0) =~= Seq::<Seq<u8>>::empty());
}

/// Read after write: a read of exactly the range that an append produced —
/// starting at the returned offset, as long as the appended data — returns
/// exactly the appended bytes, with no `sync` in between.
pub proof fn lemma_read_after_append(v: StoreView, data: Seq<u8>)
    requires
        v.is_open,
    ensures
        spec_read(spec_append(v, data), v.size() as int, data.len() as int)
            == Ok::<Seq<u8>, StoreError>(data),
{
    let w = spec_append(v, data);
    assert(w.contents() =~= v.contents() + data);
    assert(w.contents().subrange(v.size() as int, v.size() + data.len() as int) =~= data);
}

/// Out-of-range rejection: a read whose range ends past the store's size
/// always fails with `OffsetOutOfRange` and returns no data at all.
pub proof fn lemma_read_out_of_range(v: StoreView, offset: int, length: int)
    requires
        v.is_open,
        offset + length > v.size(),
    ensures
        spec_read(v, offset, length) == Err::<Seq<u8>, StoreError>(StoreError::OffsetOutOfRange),
{
}

/// Idempotence of `sync`: flushing a store that was just flushed changes
/// nothing — two syncs in a row leave exactly the state one leaves.
pub proof fn lemma_sync_idempotent(v: StoreView)
    ensures
        spec_sync(spec_sync(v)) == spec_sync(v),
{
    assert(spec_sync(v).contents() =~= v.contents());
    assert(spec_sync(spec_sync(v)) =~= spec_sync(v));
}

/// An append-only byte store over one logical file: appends go through a
/// write buffer, reads address any range of the bytes appended so far, and
/// `size` counts every byte appended.
pub struct Store {
    durable: Vec<u8>,
    buffered: Vec<u8>,
    size: u64,
    is_open: bool,
}

impl View for Store {
    type V = StoreView;

    closed spec fn view(&self) -> StoreView {
        StoreView { is_open: self.is_open, durable: self.durable@, buffered: self.buffered@ }
    }
}

impl Store {
    /// The `size` counter always equals the byte length of the contents,
    /// and a closed store has already flushed its buffer.
    pub closed spec fn wf(self) -> bool {
        &&& self.size == self@.size()
        &&& !self@.is_open ==> self@.buffered == Seq::<u8>::empty()
    }

    /// Creates a fresh, open, empty store.
    pub fn new() -> (s: Store)
        ensures
            s.wf(),
            s@ == StoreView::fresh(),
    {
        let s = Store { durable: Vec::new(), buffered: Vec::new(), size: 0, is_open: true };
        proof {
            assert(s@ =~= StoreView::fresh());
        }
        s
    }

    /// The store's logical size: the number of bytes appended so far.
    pub fn size(&self) -> (n: u64)
        requires
            self.wf(),
        ensures
            n == self@.size(),
    {
        self.size
    }

    /// Whether the store is still open.
    pub fn is_open(&self) -> (b: bool)
        ensures
            b == self@.is_open,
    {
        self.is_open
    }

    /// Appends `data` after everything appended so far and returns
    /// `(start_offset, bytes_written)`: the offset the data begins at — the
    /// store's size before the call — and how many bytes were appended.
    ///
    /// On an open store the append always applies in full, in program order;
    /// the bytes sit in the write buffer until a flush, but `size` already
    /// counts them. On a closed store nothing changes and `StoreClosed` is
    /// returned. An empty `data` is a permitted no-op returning
    /// `(size, 0)`.
    pub fn append(&mut self, data: &[u8]) -> (r: Result<(u64, u64), StoreError>)
        requires
            old(self).wf(),
            old(self)@.size() + data@.len() <= u64::MAX,
        ensures
            final(self).wf(),
            old(self)@.is_open ==> {
                &&& r == Ok::<(u64, u64), StoreError>(
                    ((old(self)@.size() as u64), (data@.len() as u64)),
                )
                &&& final(self)@ == spec_append(old(self)@, data@)
            },
            !old(self)@.is_open ==> {
                &&& r == Err::<(u64, u64), StoreError>(StoreError::StoreClosed)
                &&& final(self)@ == old(self)@
            },
    {
        if !self.is_open {
            return Err(StoreError::StoreClosed);
        }
        let start: u64 = self.size;
        let count: u64 = data.len() as u64;
        let mut incoming = vstd::slice::slice_to_vec(data);
        self.buffered.append(&mut incoming);
        self.size = start + count;
        proof {
            assert(self@ =~= spec_append(old(self)@, data@));
        }
        Ok((start, count))
    }

    /// Drains the write buffer into the backing file region, after which
    /// every appended byte is part of the durable contents. The observable
    /// contents, the size, and the open flag do not change. Fails only with
    /// `StoreClosed` on a closed store; when nothing is pending it is a
    /// no-op, so a repeated call has no further effect.
    pub fn sync(&mut self) -> (r: Result<(), StoreError>)
        requires
            old(self).wf(),
        ensures
            final(self).wf(),
            old(self)@.is_open ==> {
                &&& r == Ok::<(), StoreError>(())
                &&& final(self)@ == spec_sync(old(self)@)
            },
            !old(self)@.is_open ==> {
                &&& r == Err::<(), StoreError>(StoreError::StoreClosed)
                &&& final(self)@ == old(self)@
            },
    {
        if !self.is_open {
            return Err(StoreError::StoreClosed);
        }
        self.flush();
        Ok(())
    }

    /// Moves every buffered byte into the durable region.
    fn flush(&mut self)
        requires
            old(self).wf(),
        ensures
            final(self).wf(),
            final(self)@ == spec_sync(old(self)@),
    {
        self.durable.append(&mut self.buffered);
        proof {
            assert(self@ =~= spec_sync(old(self)@));
        }
    }

    /// Reads exactly `length` bytes starting at byte `offset` of the
    /// contents.
    ///
    /// The write buffer is flushed first, so a read issued after an append
    /// observes that append's bytes even without an intervening `sync`; on
    /// success the store's state is exactly the synced state. A range ending
    /// past `size` is rejected whole with `OffsetOutOfRange` — no partial
    /// data is ever returned — and a closed store rejects with `StoreClosed`;
    /// in both error cases the store is unchanged.
    pub fn read(&mut self, offset: u64, length: u64) -> (r: Result<Vec<u8>, StoreError>)
        requires
            old(self).wf(),
        ensures
            final(self).wf(),
            match r {
                Ok(bytes) => {
                    &&& spec_read(old(self)@, offset as int, length as int) matches Ok(s)
                        && bytes@ == s
                    &&& final(self)@ == spec_sync(old(self)@)
                },
                Err(e) => {
                    &&& spec_read(old(self)@, offset as int, length as int)
                        == Err::<Seq<u8>, StoreError>(e)
                    &&& final(self)@ == old(self)@
                },
            },
    {
        if !self.is_open {
            return Err(StoreError::StoreClosed);
        }
        if length > self.size || offset > self.size - length {
            return Err(StoreError::OffsetOutOfRange);
        }
        self.flush();
        proof {
            assert(self@.contents() =~= old(self)@.contents());
            assert(self.durable@ =~= old(self)@.contents());
        }
        let dlen: usize = self.durable.len();
        assert(offset + length <= dlen);
        let lo: usize = offset as usize;
        let hi: usize = (offset + length) as usize;
        let bytes = vstd::slice::slice_to_vec(
            vstd::slice::slice_subrange(self.durable.as_slice(), lo, hi),
        );
        Ok(bytes)
    }

    /// Closes the store, flushing any buffered data first: after the call
    /// the buffer is empty, the contents are unchanged, and every operation
    /// but another close fails with `StoreClosed`. Closing a closed store is
    /// a no-op.
    pub fn close(&mut self)
        requires
            old(self).wf(),
        ensures
            final(self).wf(),
            final(self)@ == (StoreView {
                is_open: false,
                durable: old(self)@.contents(),
                buffered: Seq::empty(),
            }),
            old(self)@.is_open || final(self)@ == old(self)@,
    {
        if self.is_open {
            self.flush();
        }
        self.is_open = false;
        proof {
            assert(self@ =~= (StoreView {
                is_open: false,
                durable: old(self)@.contents(),
                buffered: Seq::empty(),
            }));
        }
    }
}

} // verus!
