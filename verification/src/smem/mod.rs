pub mod in_memory;
pub mod windows;

use vstd::prelude::*;
use crate::error::{SMemError, SMemResult};
use crate::pod::{
    lemma_decode_encode_seq, lemma_encode_seq_len, lemma_slot_in_range, spec_decode_seq,
    spec_encode_seq, spec_update_bytes, spec_zeros, PodValue,
};
use self::in_memory::InMemorySMemIF;

verus! {

/// Whether `size` bytes from `pos` on lie within `capacity` bytes.
pub open spec fn spec_fits(pos: u64, size: nat, capacity: nat) -> bool {
    pos + size <= capacity
}

/// The error for an access of `size` bytes at `pos` beyond `capacity`.
pub open spec fn spec_out_of_bounds(pos: u64, size: nat, capacity: nat) -> SMemError {
    SMemError::OutOfBounds { pos, size: size as u64, capacity: capacity as u64 }
}

/// What a write of `data` at `pos` does: within bounds it succeeds and puts
/// `data` there; beyond them it fails with `OutOfBounds` and changes nothing.
pub open spec fn spec_write_outcome(
    before: Seq<u8>,
    after: Seq<u8>,
    pos: u64,
    data: Seq<u8>,
    r: SMemResult<()>,
) -> bool {
    if spec_fits(pos, data.len(), before.len()) {
        &&& r is Ok
        &&& after == spec_update_bytes(before, pos as int, data)
    } else {
        &&& r == Err::<(), SMemError>(spec_out_of_bounds(pos, data.len(), before.len()))
        &&& after == before
    }
}

/// What reading a value of type `T` at `pos` gives.
pub open spec fn spec_read_value<T: PodValue>(contents: Seq<u8>, pos: u64) -> SMemResult<T> {
    if T::spec_size() == 0 {
        Ok(T::spec_from_bytes(Seq::empty()))
    } else if spec_fits(pos, T::spec_size(), contents.len()) {
        Ok(T::spec_from_bytes(contents.subrange(pos as int, pos + T::spec_size())))
    } else {
        Err(spec_out_of_bounds(pos, T::spec_size(), contents.len()))
    }
}

/// What reading `count` values of type `T` from `pos` on gives.
pub open spec fn spec_read_array<T: PodValue>(contents: Seq<u8>, pos: u64, count: nat) -> SMemResult<
    Seq<T>,
> {
    if count == 0 {
        Ok(Seq::empty())
    } else if spec_fits(pos, count * T::spec_size(), contents.len()) {
        Ok(
            spec_decode_seq::<T>(
                contents.subrange(pos as int, pos + count * T::spec_size()),
                count,
            ),
        )
    } else {
        Err(spec_out_of_bounds(pos, count * T::spec_size(), contents.len()))
    }
}

/// Reading a value back from where it was written gives the value: a write
/// of `v` at `pos` that succeeds is read back as `v` from `pos`.
pub proof fn lemma_read_value_after_write<T: PodValue>(contents: Seq<u8>, pos: u64, v: T)
    requires
        spec_fits(pos, T::spec_size(), contents.len()),
    ensures
        spec_read_value::<T>(spec_update_bytes(contents, pos as int, v.spec_to_bytes()), pos)
            == Ok::<T, SMemError>(v),
{
    T::lemma_pod_laws();
    let after = spec_update_bytes(contents, pos as int, v.spec_to_bytes());
    assert(after.subrange(pos as int, pos + T::spec_size()) =~= v.spec_to_bytes());
    if T::spec_size() == 0 {
        assert(v.spec_to_bytes() =~= Seq::<u8>::empty());
    }
}

/// Reading an array back from where it was written gives the array: a write
/// of `values` at `pos` that succeeds is read back as `values` from `pos`.
pub proof fn lemma_read_array_after_write<T: PodValue>(contents: Seq<u8>, pos: u64, values: Seq<T>)
    requires
        values.len() > 0,
        spec_fits(pos, spec_encode_seq(values).len(), contents.len()),
    ensures
        spec_read_array::<T>(
            spec_update_bytes(contents, pos as int, spec_encode_seq(values)),
            pos,
            values.len(),
        ) == Ok::<Seq<T>, SMemError>(values),
{
    lemma_encode_seq_len(values);
    lemma_decode_encode_seq(values);
    let after = spec_update_bytes(contents, pos as int, spec_encode_seq(values));
    assert(after.subrange(pos as int, pos + values.len() * T::spec_size()) =~= spec_encode_seq(
        values,
    ));
}

/// A write changes only the bytes it covers: bytes outside
/// `pos .. pos + data.len()` keep their value.
pub proof fn lemma_write_leaves_rest(contents: Seq<u8>, pos: u64, data: Seq<u8>, i: int)
    requires
        spec_fits(pos, data.len(), contents.len()),
        0 <= i < contents.len(),
        !(pos <= i < pos + data.len()),
    ensures
        spec_update_bytes(contents, pos as int, data).len() == contents.len(),
        spec_update_bytes(contents, pos as int, data)[i] == contents[i],
{
}

/// A write over part of a stored value is read back as the value whose
/// bytes are the old ones with the written bytes in place: writing `xb` at
/// `o` within the value `v` at the start of the region gives `w` when `w`'s
/// bytes are `v`'s with `xb` at `o`.
pub proof fn lemma_partial_write<T: PodValue>(region: Seq<u8>, o: int, xb: Seq<u8>, v: T, w: T)
    requires
        T::spec_size() > 0,
        region.len() >= T::spec_size(),
        0 <= o,
        o + xb.len() <= T::spec_size(),
        spec_read_value::<T>(region, 0) == Ok::<T, SMemError>(v),
        w.spec_to_bytes() == spec_update_bytes(v.spec_to_bytes(), o, xb),
    ensures
        spec_read_value::<T>(spec_update_bytes(region, o, xb), 0) == Ok::<T, SMemError>(w),
{
    T::lemma_pod_laws();
    let size = T::spec_size() as int;
    let b0 = region.subrange(0, size);
    assert(v.spec_to_bytes() == b0);
    assert(spec_update_bytes(region, o, xb).subrange(0, size) =~= spec_update_bytes(b0, o, xb));
}

/// Validates that a read/write at `pos` with `size` bytes fits within `capacity`.
pub fn validate_bounds(pos: u64, size: u64, capacity: u64) -> (r: SMemResult<()>)
    ensures
        r is Ok <==> spec_fits(pos, size as nat, capacity as nat),
        r is Err ==> r == Err::<(), SMemError>((SMemError::OutOfBounds { pos, size, capacity })),
{
    match pos.checked_add(size) {
        Some(end) => {
            if end > capacity {
                Err(SMemError::OutOfBounds { pos, size, capacity })
            } else {
                Ok(())
            }
        },
        None => Err(SMemError::OutOfBounds { pos, size, capacity }),
    }
}

/// Core shared memory interface: byte-level access to a named region.
///
/// The contracts describe the region as this handle sees it. A region that
/// other processes map too can change between two calls through their
/// writes; the contracts then hold for the calls of a handle that is the
/// region's only writer.
pub trait SMemIF: Sized {
    /// The name of the region.
    spec fn spec_name(&self) -> Seq<char>;

    /// The bytes of the region; their number is the capacity.
    spec fn spec_contents(&self) -> Seq<u8>;

    /// Whether this handle created the region (rather than opened it).
    spec fn spec_newly_created(&self) -> bool;

    /// Whether the backend can create or open the region named `name` of
    /// `capacity` bytes: where it can, `open_or_create` succeeds.
    spec fn spec_can_open(name: Seq<char>, capacity: u64) -> bool;

    /// Creates the region named `name` of `capacity` bytes, or opens it
    /// where another handle created it already. A region this call created
    /// holds zero bytes; an opened one holds what was written to it. Whether
    /// the backend can create or open it (memory, names, permissions) is the
    /// backend's to decide.
    fn open_or_create(name: &str, capacity: u64) -> (r: SMemResult<Self>)
        ensures
            Self::spec_can_open(name@, capacity) ==> r is Ok,
            r matches Ok(s) ==> {
                &&& s.spec_name() == name@
                &&& s.spec_contents().len() == capacity
                &&& s.spec_newly_created() ==> s.spec_contents() == spec_zeros(capacity as nat)
            },
    ;

    /// Returns the name of the shared memory region.
    fn name(&self) -> (r: &str)
        ensures
            r@ == self.spec_name(),
    ;

    /// Returns the capacity in bytes.
    fn capacity(&self) -> (r: u64)
        ensures
            r == self.spec_contents().len(),
    ;

    /// Returns true if this instance created the shared memory (vs. opening existing).
    fn is_newly_created(&self) -> (r: bool)
        ensures
            r == self.spec_newly_created(),
    ;

    /// Reads `buf.len()` bytes from offset `pos` into `buf`.
    fn read_bytes(&self, pos: u64, buf: &mut [u8]) -> (r: SMemResult<()>)
        ensures
            spec_fits(pos, old(buf)@.len(), self.spec_contents().len()) ==> {
                &&& r is Ok
                &&& final(buf)@ == self.spec_contents().subrange(
                    pos as int,
                    pos + old(buf)@.len(),
                )
            },
            !spec_fits(pos, old(buf)@.len(), self.spec_contents().len()) ==> {
                &&& r == Err::<(), SMemError>(
                    spec_out_of_bounds(pos, old(buf)@.len(), self.spec_contents().len()),
                )
                &&& final(buf)@ == old(buf)@
            },
    ;

    /// Writes `data` at offset `pos`.
    fn write_bytes(&mut self, pos: u64, data: &[u8]) -> (r: SMemResult<()>)
        ensures
            final(self).spec_name() == old(self).spec_name(),
            final(self).spec_newly_created() == old(self).spec_newly_created(),
            spec_write_outcome(
                old(self).spec_contents(),
                final(self).spec_contents(),
                pos,
                data@,
                r,
            ),
    ;
}

/// Typed read/write on top of the byte-level `SMemIF`.
///
/// Automatically implemented for all `SMemIF` implementors.
pub trait SMemIFExt: SMemIF {
    /// Reads a value of type `T` at byte offset `pos`.
    fn read_value<T: PodValue>(&self, pos: u64) -> (r: SMemResult<T>)
        ensures
            r == spec_read_value::<T>(self.spec_contents(), pos),
    {
        proof {
            T::lemma_pod_laws();
        }
        let size = T::size_of();
        if size == 0 {
            let z = T::zeroed();
            proof {
                assert(z.spec_to_bytes() =~= Seq::<u8>::empty());
            }
            return Ok(z);
        }
        let mut buf: Vec<u8> = vec![0u8; size];
        let res = self.read_bytes(pos, buf.as_mut_slice());
        match res {
            Ok(()) => Ok(T::from_bytes(buf.as_slice())),
            Err(e) => Err(e),
        }
    }

    /// Writes `value` at byte offset `pos`.
    fn write_value<T: PodValue>(&mut self, pos: u64, value: &T) -> (r: SMemResult<()>)
        ensures
            final(self).spec_name() == old(self).spec_name(),
            final(self).spec_newly_created() == old(self).spec_newly_created(),
            spec_write_outcome(
                old(self).spec_contents(),
                final(self).spec_contents(),
                pos,
                value.spec_to_bytes(),
                r,
            ),
    {
        let bytes = value.to_bytes();
        self.write_bytes(pos, bytes.as_slice())
    }

    /// Reads `count` values of type `T` lying one after the other from `pos` on.
    fn read_array<T: PodValue>(&self, pos: u64, count: usize) -> (r: SMemResult<Vec<T>>)
        requires
            count * T::spec_size() <= usize::MAX,
        ensures
            match r {
                Ok(v) => spec_read_array::<T>(self.spec_contents(), pos, count as nat) == Ok::<
                    Seq<T>,
                    SMemError,
                >(v@),
                Err(e) => spec_read_array::<T>(self.spec_contents(), pos, count as nat) == Err::<
                    Seq<T>,
                    SMemError,
                >(e),
            },
    {
        proof {
            T::lemma_pod_laws();
        }
        if count == 0 {
            return Ok(Vec::new());
        }
        let s = T::size_of();
        let total = count * s;
        let mut buf: Vec<u8> = vec![0u8; total];
        let res = self.read_bytes(pos, buf.as_mut_slice());
        match res {
            Ok(()) => {},
            Err(e) => {
                return Err(e);
            },
        }
        let ghost bytes = buf@;
        let mut out: Vec<T> = Vec::new();
        for i in 0..count
            invariant
                s == T::spec_size(),
                total == count * s,
                buf@ == bytes,
                bytes.len() == total,
                out@ == spec_decode_seq::<T>(bytes, count as nat).take(i as int),
        {
            proof {
                lemma_slot_in_range(i as int, count as int, s as int);
            }
            let start = i * s;
            let e = T::from_bytes(&buf.as_slice()[start..start + s]);
            out.push(e);
            assert(out@ =~= spec_decode_seq::<T>(bytes, count as nat).take(i + 1));
        }
        assert(out@ =~= spec_decode_seq::<T>(bytes, count as nat));
        Ok(out)
    }

    /// Writes the values of `values` one after the other from `pos` on.
    fn write_array<T: PodValue>(&mut self, pos: u64, values: &[T]) -> (r: SMemResult<()>)
        requires
            values@.len() * T::spec_size() <= usize::MAX,
        ensures
            final(self).spec_name() == old(self).spec_name(),
            final(self).spec_newly_created() == old(self).spec_newly_created(),
            values@.len() == 0 ==> r is Ok && final(self).spec_contents() == old(
                self,
            ).spec_contents(),
            values@.len() > 0 ==> spec_write_outcome(
                old(self).spec_contents(),
                final(self).spec_contents(),
                pos,
                spec_encode_seq(values@),
                r,
            ),
    {
        if values.len() == 0 {
            return Ok(());
        }
        let mut bytes: Vec<u8> = Vec::new();
        for i in 0..values.len()
            invariant
                bytes@ == spec_encode_seq(values@.take(i as int)),
        {
            let mut b = values[i].to_bytes();
            bytes.append(&mut b);
            assert(values@.take(i + 1).drop_last() =~= values@.take(i as int));
        }
        assert(values@.take(values@.len() as int) =~= values@);
        self.write_bytes(pos, bytes.as_slice())
    }
}

impl<S: SMemIF> SMemIFExt for S {

}

/// Creates or opens the shared memory region named `name` of `capacity`
/// bytes with the backend `S` (for `InMemorySMemIF`, a new zeroed region in
/// this process; for a platform backend, a region shared between processes).
pub fn open_or_create<S: SMemIF>(name: &str, capacity: u64) -> (r: SMemResult<S>)
    ensures
        S::spec_can_open(name@, capacity) ==> r is Ok,
        r matches Ok(s) ==> {
            &&& s.spec_name() == name@
            &&& s.spec_contents().len() == capacity
            &&& s.spec_newly_created() ==> s.spec_contents() == spec_zeros(capacity as nat)
        },
{
    S::open_or_create(name, capacity)
}

/// Creates an in-memory (non-IPC) shared memory region of `capacity` zero bytes.
pub fn open_in_memory(name: &str, capacity: u64) -> (r: InMemorySMemIF)
    ensures
        r.spec_name() == name@,
        r.spec_contents() == Seq::new((capacity as usize) as nat, |i: int| 0u8),
        r.spec_newly_created(),
{
    InMemorySMemIF::new(name, capacity)
}

} // verus!
