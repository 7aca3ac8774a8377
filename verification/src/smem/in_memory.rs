use vstd::prelude::*;
use crate::error::{SMemError, SMemResult};
use crate::pod::{spec_update_bytes, spec_zeros};
use crate::smem::{validate_bounds, SMemIF};

verus! {

/// In-memory shared memory implementation.
///
/// Does not provide inter-process communication: all data stays within
/// the current process. Used as the portable backend and for testing.
pub struct InMemorySMemIF {
    name: String,
    data: Vec<u8>,
}

impl InMemorySMemIF {
    /// Creates a new in-memory region with the given name and `capacity`
    /// zero bytes.
    pub fn new(name: &str, capacity: u64) -> (r: Self)
        ensures
            r.spec_name() == name@,
            r.spec_contents() == Seq::new((capacity as usize) as nat, |i: int| 0u8),
            r.spec_newly_created(),
    {
        let data: Vec<u8> = vec![0u8; capacity as usize];
        let r = InMemorySMemIF { name: name.to_owned(), data };
        assert(r.data@ =~= Seq::new((capacity as usize) as nat, |i: int| 0u8));
        r
    }
}

impl SMemIF for InMemorySMemIF {
    closed spec fn spec_name(&self) -> Seq<char> {
        self.name@
    }

    closed spec fn spec_contents(&self) -> Seq<u8> {
        self.data@
    }

    open spec fn spec_newly_created(&self) -> bool {
        true
    }

    /// Any region that fits in the address space.
    open spec fn spec_can_open(name: Seq<char>, capacity: u64) -> bool {
        capacity <= usize::MAX
    }

    /// Always creates a new zeroed region (nothing is shared between
    /// handles); a capacity beyond the address space fails with
    /// `OutOfBounds`.
    fn open_or_create(name: &str, capacity: u64) -> (r: SMemResult<Self>)
        ensures
            capacity <= usize::MAX ==> (r matches Ok(s) && s.spec_newly_created()),
            capacity > usize::MAX ==> r == Err::<Self, SMemError>(
                (SMemError::OutOfBounds { pos: 0, size: capacity, capacity: usize::MAX as u64 }),
            ),
    {
        if capacity > usize::MAX as u64 {
            return Err(SMemError::OutOfBounds { pos: 0, size: capacity, capacity: usize::MAX as u64 });
        }
        let r = InMemorySMemIF::new(name, capacity);
        assert(r.spec_contents() =~= spec_zeros(capacity as nat));
        Ok(r)
    }

    fn name(&self) -> (r: &str) {
        self.name.as_str()
    }

    fn capacity(&self) -> (r: u64) {
        self.data.len() as u64
    }

    fn is_newly_created(&self) -> (r: bool) {
        true
    }

    fn read_bytes(&self, pos: u64, buf: &mut [u8]) -> (r: SMemResult<()>) {
        let size = buf.len() as u64;
        let ghost buf0 = buf@;
        match validate_bounds(pos, size, self.data.len() as u64) {
            Ok(()) => {},
            Err(e) => {
                return Err(e);
            },
        }
        let start = pos as usize;
        let n = buf.len();
        for i in 0..n
            invariant
                n == buf0.len(),
                buf@.len() == n,
                start + n <= self.data@.len(),
                self.data@.len() <= usize::MAX,
                forall|j: int| 0 <= j < i ==> buf@[j] == self.data@[start + j],
        {
            buf[i] = self.data[start + i];
        }
        assert(buf@ =~= self.data@.subrange(pos as int, pos + buf0.len()));
        Ok(())
    }

    fn write_bytes(&mut self, pos: u64, data: &[u8]) -> (r: SMemResult<()>) {
        let size = data.len() as u64;
        match validate_bounds(pos, size, self.data.len() as u64) {
            Ok(()) => {},
            Err(e) => {
                return Err(e);
            },
        }
        let start = pos as usize;
        let n = data.len();
        let ghost before = self.data@;
        let ghost name0 = self.name@;
        for i in 0..n
            invariant
                start + n <= before.len(),
                before.len() <= usize::MAX,
                self.name@ == name0,
                n == data@.len(),
                self.data@.len() == before.len(),
                forall|j: int|
                    0 <= j < self.data@.len() ==> #[trigger] self.data@[j] == if start <= j < start
                        + i {
                        data@[j - start]
                    } else {
                        before[j]
                    },
        {
            self.data.set(start + i, data[i]);
        }
        assert(self.data@ =~= spec_update_bytes(before, pos as int, data@));
        Ok(())
    }
}

} // verus!
