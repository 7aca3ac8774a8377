use vstd::prelude::*;
use crate::error::{SMemError, SMemResult};
use crate::pod::{spec_update_bytes, spec_zeros, PodValue};
use crate::smem::in_memory::InMemorySMemIF;
use crate::smem::{
    lemma_read_value_after_write, open_in_memory, spec_read_value, spec_write_outcome, SMemIF,
    SMemIFExt,
};
use crate::types::PAGE_SIZE;

verus! {

/// The capacity of the region of a single value of type `T`: its size, but
/// at least one page.
pub open spec fn spec_struct_capacity<T: PodValue>() -> nat {
    if T::spec_size() > PAGE_SIZE {
        T::spec_size()
    } else {
        PAGE_SIZE as nat
    }
}

/// Controller for a single struct value in shared memory, with a cache of
/// the value last read or written. `S` is the backend of the region.
pub struct SMemCtrler<T: PodValue, S: SMemIF = InMemorySMemIF> {
    smem: Option<S>,
    cached: T,
}

impl<T: PodValue, S: SMemIF> SMemCtrler<T, S> {
    /// The bytes of the region, if there is one.
    pub closed spec fn spec_region(&self) -> Option<Seq<u8>> {
        match self.smem {
            Some(s) => Some(s.spec_contents()),
            None => None,
        }
    }

    /// The name of the region, if there is one.
    pub closed spec fn spec_region_name(&self) -> Option<Seq<char>> {
        match self.smem {
            Some(s) => Some(s.spec_name()),
            None => None,
        }
    }

    /// Whether there is a region and this controller created it (rather
    /// than opened one that existed).
    pub closed spec fn spec_region_created(&self) -> bool {
        self.smem matches Some(s) && s.spec_newly_created()
    }

    /// The cached value.
    pub closed spec fn spec_cached(&self) -> T {
        self.cached
    }

    /// The region, where there is one, holds at least one value.
    pub open spec fn wf(&self) -> bool {
        self.spec_region() matches Some(bytes) ==> T::spec_size() <= bytes.len()
    }

    /// What `read` returns: `NotInitialized` without a region, else the value
    /// whose bytes lie at the start of the region.
    pub open spec fn spec_read_result(&self) -> SMemResult<T> {
        match self.spec_region() {
            None => Err(SMemError::NotInitialized),
            Some(bytes) => spec_read_value::<T>(bytes, 0),
        }
    }

    /// What `read` does: returns `spec_read_result()`, keeps the region and
    /// caches the value read (an error keeps the cache).
    pub open spec fn spec_read_post(&self, after: Self, r: SMemResult<T>) -> bool {
        &&& after.wf()
        &&& r == self.spec_read_result()
        &&& self.spec_region() is Some ==> r is Ok
        &&& after.spec_region() == self.spec_region()
        &&& after.spec_region_name() == self.spec_region_name()
        &&& r matches Ok(v) ==> after.spec_cached() == v
        &&& r is Err ==> after.spec_cached() == self.spec_cached()
    }

    /// What `write(value)` does: without a region it fails with
    /// `NotInitialized` and changes nothing; with one it puts the bytes of
    /// `value` at the start of the region, caches `value`, and `read` then
    /// gives `value` back.
    pub open spec fn spec_write_post(&self, after: Self, value: T, r: SMemResult<()>) -> bool {
        &&& after.wf()
        &&& after.spec_region_name() == self.spec_region_name()
        &&& self.spec_region() is None ==> r == Err::<(), SMemError>(SMemError::NotInitialized)
            && after.spec_region() is None && after.spec_cached() == self.spec_cached()
        &&& self.spec_region() matches Some(bytes) ==> r is Ok && after.spec_region() == Some(
            spec_update_bytes(bytes, 0, value.spec_to_bytes()),
        ) && after.spec_cached() == value
        &&& r is Ok ==> after.spec_read_result() == Ok::<T, SMemError>(value)
    }

    fn capacity() -> (r: u64)
        ensures
            r == spec_struct_capacity::<T>(),
            T::spec_size() <= r <= u32::MAX,
    {
        proof {
            T::lemma_pod_laws();
        }
        let size = T::size_of() as u64;
        if size > PAGE_SIZE {
            size
        } else {
            PAGE_SIZE
        }
    }

    /// Creates a controller backed by the shared memory region named `name`
    /// of at least one page (created zeroed, or opened where it exists),
    /// with a zero cached value.
    pub fn new(name: &str) -> (r: SMemResult<Self>)
        ensures
            S::spec_can_open(name@, spec_struct_capacity::<T>() as u64) ==> r is Ok,
            r matches Ok(c) ==> {
                &&& c.wf()
                &&& c.spec_region() matches Some(b) && b.len() == spec_struct_capacity::<T>()
                &&& c.spec_region_created() ==> c.spec_region() == Some(
                    spec_zeros(spec_struct_capacity::<T>()),
                )
                &&& c.spec_region_name() == Some(name@)
                &&& c.spec_cached().spec_to_bytes() == spec_zeros(T::spec_size())
            },
    {
        let capacity = Self::capacity();
        match S::open_or_create(name, capacity) {
            Ok(smem) => Ok(SMemCtrler { smem: Some(smem), cached: T::zeroed() }),
            Err(e) => Err(e),
        }
    }

    /// Creates a controller with no backing store (cache only).
    pub fn no_smem() -> (r: Self)
        ensures
            r.wf(),
            r.spec_region() is None,
            r.spec_cached().spec_to_bytes() == spec_zeros(T::spec_size()),
    {
        SMemCtrler { smem: None, cached: T::zeroed() }
    }

    /// Reads the value from shared memory and updates the cache.
    pub fn read(&mut self) -> (r: SMemResult<T>)
        requires
            old(self).wf(),
        ensures
            old(self).spec_read_post(*final(self), r),
    {
        proof {
            T::lemma_pod_laws();
        }
        match &self.smem {
            None => Err(SMemError::NotInitialized),
            Some(s) => {
                let value: T = match s.read_value::<T>(0) {
                    Ok(v) => v,
                    Err(e) => {
                        return Err(e);
                    },
                };
                self.cached = value;
                Ok(value)
            },
        }
    }

    /// Writes `value` to shared memory and updates the cache. Without a
    /// region it fails with `NotInitialized` and changes nothing.
    pub fn write(&mut self, value: &T) -> (r: SMemResult<()>)
        requires
            old(self).wf(),
        ensures
            old(self).spec_write_post(*final(self), *value, r),
    {
        proof {
            T::lemma_pod_laws();
        }
        match &mut self.smem {
            None => Err(SMemError::NotInitialized),
            Some(s) => {
                let ghost before = s.spec_contents();
                let res = s.write_value(0, value);
                match res {
                    Ok(()) => {},
                    Err(e) => {
                        return Err(e);
                    },
                }
                proof {
                    lemma_read_value_after_write::<T>(before, 0, *value);
                }
                self.cached = *value;
                Ok(())
            },
        }
    }

    /// Writes `field` at byte offset `offset` of the region (a sub-field of
    /// the struct), then re-reads the whole struct into the cache.
    pub fn write_field<F: PodValue>(&mut self, offset: u64, field: &F) -> (r: SMemResult<()>)
        requires
            old(self).wf(),
        ensures
            final(self).wf(),
            final(self).spec_region_name() == old(self).spec_region_name(),
            old(self).spec_region() is None ==> r == Err::<(), SMemError>(SMemError::NotInitialized)
                && final(self).spec_region() is None && final(self).spec_cached() == old(self).spec_cached(),
            old(self).spec_region() matches Some(bytes) ==> spec_write_outcome(
                bytes,
                final(self).spec_region()->0,
                offset,
                field.spec_to_bytes(),
                r,
            ) && final(self).spec_region() is Some,
            r is Ok ==> final(self).spec_read_result() == Ok::<T, SMemError>(
                final(self).spec_cached(),
            ),
            r is Err ==> final(self).spec_cached() == old(self).spec_cached(),
    {
        proof {
            T::lemma_pod_laws();
        }
        match &mut self.smem {
            None => Err(SMemError::NotInitialized),
            Some(s) => {
                let res = s.write_value(offset, field);
                match res {
                    Ok(()) => {},
                    Err(e) => {
                        return Err(e);
                    },
                }
                match s.read_value::<T>(0) {
                    Ok(v) => {
                        self.cached = v;
                    },
                    Err(_) => {},
                }
                Ok(())
            },
        }
    }

    /// Tries to read, returning `None` on error.
    pub fn try_read(&mut self) -> (r: Option<T>)
        requires
            old(self).wf(),
        ensures
            final(self).wf(),
            final(self).spec_region() == old(self).spec_region(),
            final(self).spec_region_name() == old(self).spec_region_name(),
            r == old(self).spec_read_result().ok(),
            r matches Some(v) ==> final(self).spec_cached() == v,
            r is None ==> final(self).spec_cached() == old(self).spec_cached(),
    {
        self.read().ok()
    }

    /// Tries to write, returning `false` on error.
    pub fn try_write(&mut self, value: &T) -> (r: bool)
        requires
            old(self).wf(),
        ensures
            final(self).wf(),
            final(self).spec_region_name() == old(self).spec_region_name(),
            r == old(self).spec_region() is Some,
            old(self).spec_region() is None ==> final(self).spec_region() is None
                && final(self).spec_cached() == old(self).spec_cached(),
            old(self).spec_region() matches Some(bytes) ==> final(self).spec_region() == Some(
                spec_update_bytes(bytes, 0, value.spec_to_bytes()),
            ) && final(self).spec_cached() == *value,
            r ==> final(self).spec_read_result() == Ok::<T, SMemError>(*value),
    {
        self.write(value).is_ok()
    }

    /// The cached value, without reading from shared memory.
    pub fn cached_value(&self) -> (r: T)
        ensures
            r == self.spec_cached(),
    {
        self.cached
    }
}

impl<T: PodValue> SMemCtrler<T, InMemorySMemIF> {
    /// Creates a controller using in-memory storage (no IPC).
    pub fn in_memory(name: &str) -> (r: Self)
        ensures
            r.wf(),
            r.spec_region() == Some(spec_zeros(spec_struct_capacity::<T>())),
            r.spec_region_name() == Some(name@),
            r.spec_region_created(),
            r.spec_cached().spec_to_bytes() == spec_zeros(T::spec_size()),
    {
        let capacity = Self::capacity();
        let c = SMemCtrler { smem: Some(open_in_memory(name, capacity)), cached: T::zeroed() };
        assert(c.spec_region()->0 =~= spec_zeros(spec_struct_capacity::<T>()));
        c
    }
}

} // verus!
