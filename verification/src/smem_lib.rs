use vstd::prelude::*;
use crate::controller::struct_ctrler::spec_struct_capacity;
use crate::controller::{ArrayDataSMemCtrler, SMemCtrler};
use crate::error::{SMemError, SMemResult};
use crate::pod::{spec_update_bytes, spec_zeros, PodValue};
use crate::smem::in_memory::InMemorySMemIF;
use crate::smem::{lemma_partial_write, SMemIF};
use crate::types::bsmd::{
    BSMD_OFFSET_HANDLE_DATA, BSMD_OFFSET_SPEC_DATA, BSMD_OFFSET_STATE_DATA,
    BSMD_OFFSET_VERSION_NUM,
};
use crate::types::names;
use crate::types::{BIDSSharedMemoryData, Hand, OpenD, Spec, State, PAGE_SIZE};

verus! {

/// High-level BIDS shared memory library.
///
/// Provides access to all BIDS shared memory regions:
/// - `BSMD` (BIDSSharedMemoryData): main vehicle data
/// - `OpenD`: OpenBVE extended data
/// - `Panel`: panel data (int array)
/// - `Sound`: sound data (int array)
///
/// `S` is the backend of the regions.
pub struct SMemLib<S: SMemIF = InMemorySMemIF> {
    smc_bsmd: SMemCtrler<BIDSSharedMemoryData, S>,
    smc_open_d: SMemCtrler<OpenD, S>,
    smc_panel: ArrayDataSMemCtrler<i32, S>,
    smc_sound: ArrayDataSMemCtrler<i32, S>,
}

/// What a struct controller holds right after it was made over the region
/// named `name`: a region of the struct's capacity, zeroed where the
/// controller created it, and a zero cached value.
pub open spec fn spec_fresh_struct<T: PodValue, S: SMemIF>(c: SMemCtrler<T, S>, name: Seq<char>) -> bool {
    &&& c.wf()
    &&& c.spec_region_name() == Some(name)
    &&& c.spec_region() matches Some(b) && b.len() == spec_struct_capacity::<T>()
    &&& c.spec_region_created() ==> c.spec_region() == Some(spec_zeros(spec_struct_capacity::<T>()))
    &&& c.spec_cached().spec_to_bytes() == spec_zeros(T::spec_size())
}

/// What an array controller holds right after it was made over the region
/// named `name`: a page, zeroed where the controller created it, no other
/// region, and an empty cache.
pub open spec fn spec_fresh_array<T: PodValue, S: SMemIF>(c: ArrayDataSMemCtrler<T, S>, name: Seq<char>) -> bool {
    &&& c.wf()
    &&& c.spec_name() == name
    &&& c.spec_primary_name() == name
    &&& c.spec_primary_created() ==> c.spec_primary() == spec_zeros(PAGE_SIZE as nat)
    &&& c.spec_length_region() is None
    &&& c.spec_large() is None
    &&& c.spec_cached() == Seq::<T>::empty()
}

impl<S: SMemIF> SMemLib<S> {
    /// The controller of the `BSMD` region.
    pub closed spec fn spec_bsmd(&self) -> SMemCtrler<BIDSSharedMemoryData, S> {
        self.smc_bsmd
    }

    /// The controller of the `OpenD` region.
    pub closed spec fn spec_open_d(&self) -> SMemCtrler<OpenD, S> {
        self.smc_open_d
    }

    /// The controller of the panel array.
    pub closed spec fn spec_panel(&self) -> ArrayDataSMemCtrler<i32, S> {
        self.smc_panel
    }

    /// The controller of the sound array.
    pub closed spec fn spec_sound(&self) -> ArrayDataSMemCtrler<i32, S> {
        self.smc_sound
    }

    /// All four controllers are well formed and both struct controllers have
    /// a region.
    pub open spec fn wf(&self) -> bool {
        &&& self.spec_bsmd().wf()
        &&& self.spec_bsmd().spec_region() is Some
        &&& self.spec_open_d().wf()
        &&& self.spec_open_d().spec_region() is Some
        &&& self.spec_panel().wf()
        &&& self.spec_sound().wf()
    }

    /// Creates a new `SMemLib` over the regions named in `names` (each
    /// created zeroed, or opened where it exists), with empty caches.
    pub fn new() -> (r: SMemResult<Self>)
        ensures
            S::spec_can_open(names::BSMD@, spec_struct_capacity::<BIDSSharedMemoryData>() as u64)
                && S::spec_can_open(names::OPEN_D@, spec_struct_capacity::<OpenD>() as u64)
                && S::spec_can_open(names::PANEL@, PAGE_SIZE) && S::spec_can_open(
                names::SOUND@,
                PAGE_SIZE,
            ) ==> r is Ok,
            r matches Ok(lib) ==> {
                &&& lib.wf()
                &&& spec_fresh_struct(lib.spec_bsmd(), names::BSMD@)
                &&& spec_fresh_struct(lib.spec_open_d(), names::OPEN_D@)
                &&& spec_fresh_array(lib.spec_panel(), names::PANEL@)
                &&& spec_fresh_array(lib.spec_sound(), names::SOUND@)
            },
    {
        let smc_bsmd = match SMemCtrler::new(names::BSMD) {
            Ok(c) => c,
            Err(e) => {
                return Err(e);
            },
        };
        let smc_open_d = match SMemCtrler::new(names::OPEN_D) {
            Ok(c) => c,
            Err(e) => {
                return Err(e);
            },
        };
        let smc_panel = match ArrayDataSMemCtrler::new(names::PANEL) {
            Ok(c) => c,
            Err(e) => {
                return Err(e);
            },
        };
        let smc_sound = match ArrayDataSMemCtrler::new(names::SOUND) {
            Ok(c) => c,
            Err(e) => {
                return Err(e);
            },
        };
        Ok(SMemLib { smc_bsmd, smc_open_d, smc_panel, smc_sound })
    }

    /// Reads `BIDSSharedMemoryData` from shared memory.
    pub fn read_bsmd(&mut self) -> (r: SMemResult<BIDSSharedMemoryData>)
        requires
            old(self).wf(),
        ensures
            final(self).wf(),
            r is Ok,
            old(self).spec_bsmd().spec_read_post(final(self).spec_bsmd(), r),
            final(self).spec_open_d() == old(self).spec_open_d(),
            final(self).spec_panel() == old(self).spec_panel(),
            final(self).spec_sound() == old(self).spec_sound(),
    {
        self.smc_bsmd.read()
    }

    /// Writes `BIDSSharedMemoryData` to shared memory.
    pub fn write_bsmd(&mut self, data: &BIDSSharedMemoryData) -> (r: SMemResult<()>)
        requires
            old(self).wf(),
        ensures
            final(self).wf(),
            r is Ok,
            old(self).spec_bsmd().spec_write_post(final(self).spec_bsmd(), *data, r),
            final(self).spec_open_d() == old(self).spec_open_d(),
            final(self).spec_panel() == old(self).spec_panel(),
            final(self).spec_sound() == old(self).spec_sound(),
    {
        self.smc_bsmd.write(data)
    }

    /// Writes only the `spec_data` field of BSMD (partial update).
    pub fn write_spec(&mut self, spec: &Spec) -> (r: SMemResult<()>)
        requires
            old(self).wf(),
        ensures
            final(self).wf(),
            r is Ok,
            final(self).spec_bsmd().spec_region() == Some(
                spec_update_bytes(
                    old(self).spec_bsmd().spec_region()->0,
                    BSMD_OFFSET_SPEC_DATA as int,
                    spec.spec_to_bytes(),
                ),
            ),
            final(self).spec_bsmd().spec_region_name() == old(self).spec_bsmd().spec_region_name(),
            final(self).spec_bsmd().spec_read_result() == Ok::<BIDSSharedMemoryData, SMemError>(
                (BIDSSharedMemoryData {
                    spec_data: *spec,
                    ..old(self).spec_bsmd().spec_read_result()->Ok_0
                }),
            ),
            final(self).spec_bsmd().spec_cached() == final(self).spec_bsmd().spec_read_result()->Ok_0,
            final(self).spec_open_d() == old(self).spec_open_d(),
            final(self).spec_panel() == old(self).spec_panel(),
            final(self).spec_sound() == old(self).spec_sound(),
    {
        proof {
            BIDSSharedMemoryData::lemma_pod_laws();
            Spec::lemma_pod_laws();
            let v = self.smc_bsmd.spec_read_result()->Ok_0;
            BIDSSharedMemoryData::lemma_update_spec_data(v, *spec);
            lemma_partial_write::<BIDSSharedMemoryData>(
                self.smc_bsmd.spec_region()->0,
                BSMD_OFFSET_SPEC_DATA as int,
                spec.spec_to_bytes(),
                v,
                BIDSSharedMemoryData { spec_data: *spec, ..v },
            );
        }
        self.smc_bsmd.write_field(BSMD_OFFSET_SPEC_DATA as u64, spec)
    }
    /// Writes only the `state_data` field of BSMD (partial update).
    pub fn write_state(&mut self, state: &State) -> (r: SMemResult<()>)
        requires
            old(self).wf(),
        ensures
            final(self).wf(),
            r is Ok,
            final(self).spec_bsmd().spec_region() == Some(
                spec_update_bytes(
                    old(self).spec_bsmd().spec_region()->0,
                    BSMD_OFFSET_STATE_DATA as int,
                    state.spec_to_bytes(),
                ),
            ),
            final(self).spec_bsmd().spec_region_name() == old(self).spec_bsmd().spec_region_name(),
            final(self).spec_bsmd().spec_read_result() == Ok::<BIDSSharedMemoryData, SMemError>(
                (BIDSSharedMemoryData {
                    state_data: *state,
                    ..old(self).spec_bsmd().spec_read_result()->Ok_0
                }),
            ),
            final(self).spec_bsmd().spec_cached() == final(self).spec_bsmd().spec_read_result()->Ok_0,
            final(self).spec_open_d() == old(self).spec_open_d(),
            final(self).spec_panel() == old(self).spec_panel(),
            final(self).spec_sound() == old(self).spec_sound(),
    {
        proof {
            BIDSSharedMemoryData::lemma_pod_laws();
            State::lemma_pod_laws();
            let v = self.smc_bsmd.spec_read_result()->Ok_0;
            BIDSSharedMemoryData::lemma_update_state_data(v, *state);
            lemma_partial_write::<BIDSSharedMemoryData>(
                self.smc_bsmd.spec_region()->0,
                BSMD_OFFSET_STATE_DATA as int,
                state.spec_to_bytes(),
                v,
                BIDSSharedMemoryData { state_data: *state, ..v },
            );
        }
        self.smc_bsmd.write_field(BSMD_OFFSET_STATE_DATA as u64, state)
    }
    /// Writes only the `handle_data` field of BSMD (partial update).
    pub fn write_handle(&mut self, hand: &Hand) -> (r: SMemResult<()>)
        requires
            old(self).wf(),
        ensures
            final(self).wf(),
            r is Ok,
            final(self).spec_bsmd().spec_region() == Some(
                spec_update_bytes(
                    old(self).spec_bsmd().spec_region()->0,
                    BSMD_OFFSET_HANDLE_DATA as int,
                    hand.spec_to_bytes(),
                ),
            ),
            final(self).spec_bsmd().spec_region_name() == old(self).spec_bsmd().spec_region_name(),
            final(self).spec_bsmd().spec_read_result() == Ok::<BIDSSharedMemoryData, SMemError>(
                (BIDSSharedMemoryData {
                    handle_data: *hand,
                    ..old(self).spec_bsmd().spec_read_result()->Ok_0
                }),
            ),
            final(self).spec_bsmd().spec_cached() == final(self).spec_bsmd().spec_read_result()->Ok_0,
            final(self).spec_open_d() == old(self).spec_open_d(),
            final(self).spec_panel() == old(self).spec_panel(),
            final(self).spec_sound() == old(self).spec_sound(),
    {
        proof {
            BIDSSharedMemoryData::lemma_pod_laws();
            Hand::lemma_pod_laws();
            let v = self.smc_bsmd.spec_read_result()->Ok_0;
            BIDSSharedMemoryData::lemma_update_handle_data(v, *hand);
            lemma_partial_write::<BIDSSharedMemoryData>(
                self.smc_bsmd.spec_region()->0,
                BSMD_OFFSET_HANDLE_DATA as int,
                hand.spec_to_bytes(),
                v,
                BIDSSharedMemoryData { handle_data: *hand, ..v },
            );
        }
        self.smc_bsmd.write_field(BSMD_OFFSET_HANDLE_DATA as u64, hand)
    }
    /// Writes only the `version_num` field of BSMD (partial update).
    pub fn write_version(&mut self, ver: i32) -> (r: SMemResult<()>)
        requires
            old(self).wf(),
        ensures
            final(self).wf(),
            r is Ok,
            final(self).spec_bsmd().spec_region() == Some(
                spec_update_bytes(
                    old(self).spec_bsmd().spec_region()->0,
                    BSMD_OFFSET_VERSION_NUM as int,
                    ver.spec_to_bytes(),
                ),
            ),
            final(self).spec_bsmd().spec_region_name() == old(self).spec_bsmd().spec_region_name(),
            final(self).spec_bsmd().spec_read_result() == Ok::<BIDSSharedMemoryData, SMemError>(
                (BIDSSharedMemoryData {
                    version_num: ver,
                    ..old(self).spec_bsmd().spec_read_result()->Ok_0
                }),
            ),
            final(self).spec_bsmd().spec_cached() == final(self).spec_bsmd().spec_read_result()->Ok_0,
            final(self).spec_open_d() == old(self).spec_open_d(),
            final(self).spec_panel() == old(self).spec_panel(),
            final(self).spec_sound() == old(self).spec_sound(),
    {
        proof {
            BIDSSharedMemoryData::lemma_pod_laws();
            i32::lemma_pod_laws();
            let v = self.smc_bsmd.spec_read_result()->Ok_0;
            BIDSSharedMemoryData::lemma_update_version_num(v, ver);
            lemma_partial_write::<BIDSSharedMemoryData>(
                self.smc_bsmd.spec_region()->0,
                BSMD_OFFSET_VERSION_NUM as int,
                ver.spec_to_bytes(),
                v,
                BIDSSharedMemoryData { version_num: ver, ..v },
            );
        }
        self.smc_bsmd.write_field(BSMD_OFFSET_VERSION_NUM as u64, &ver)
    }

    /// Reads `OpenD` from shared memory.
    pub fn read_open_d(&mut self) -> (r: SMemResult<OpenD>)
        requires
            old(self).wf(),
        ensures
            final(self).wf(),
            r is Ok,
            old(self).spec_open_d().spec_read_post(final(self).spec_open_d(), r),
            final(self).spec_bsmd() == old(self).spec_bsmd(),
            final(self).spec_panel() == old(self).spec_panel(),
            final(self).spec_sound() == old(self).spec_sound(),
    {
        self.smc_open_d.read()
    }

    /// Writes `OpenD` to shared memory.
    pub fn write_open_d(&mut self, data: &OpenD) -> (r: SMemResult<()>)
        requires
            old(self).wf(),
        ensures
            final(self).wf(),
            r is Ok,
            old(self).spec_open_d().spec_write_post(final(self).spec_open_d(), *data, r),
            final(self).spec_bsmd() == old(self).spec_bsmd(),
            final(self).spec_panel() == old(self).spec_panel(),
            final(self).spec_sound() == old(self).spec_sound(),
    {
        self.smc_open_d.write(data)
    }

    /// Reads the panel data array from shared memory.
    pub fn read_panel(&mut self) -> (r: SMemResult<Vec<i32>>)
        requires
            old(self).wf(),
        ensures
            final(self).wf(),
            old(self).spec_panel().spec_read_post(
                final(self).spec_panel(),
                match r {
                    Ok(v) => Ok::<Seq<i32>, SMemError>(v@),
                    Err(e) => Err::<Seq<i32>, SMemError>(e),
                },
            ),
            final(self).spec_bsmd() == old(self).spec_bsmd(),
            final(self).spec_open_d() == old(self).spec_open_d(),
            final(self).spec_sound() == old(self).spec_sound(),
    {
        self.smc_panel.read()
    }

    /// Writes the panel data array to shared memory.
    pub fn write_panel(&mut self, data: &[i32]) -> (r: SMemResult<()>)
        requires
            old(self).wf(),
            data@.len() * 4 <= usize::MAX,
        ensures
            final(self).wf(),
            old(self).spec_panel().spec_write_post(final(self).spec_panel(), data@, r),
            final(self).spec_bsmd() == old(self).spec_bsmd(),
            final(self).spec_open_d() == old(self).spec_open_d(),
            final(self).spec_sound() == old(self).spec_sound(),
    {
        self.smc_panel.write(data)
    }

    /// Reads the sound data array from shared memory.
    pub fn read_sound(&mut self) -> (r: SMemResult<Vec<i32>>)
        requires
            old(self).wf(),
        ensures
            final(self).wf(),
            old(self).spec_sound().spec_read_post(
                final(self).spec_sound(),
                match r {
                    Ok(v) => Ok::<Seq<i32>, SMemError>(v@),
                    Err(e) => Err::<Seq<i32>, SMemError>(e),
                },
            ),
            final(self).spec_bsmd() == old(self).spec_bsmd(),
            final(self).spec_open_d() == old(self).spec_open_d(),
            final(self).spec_panel() == old(self).spec_panel(),
    {
        self.smc_sound.read()
    }

    /// Writes the sound data array to shared memory.
    pub fn write_sound(&mut self, data: &[i32]) -> (r: SMemResult<()>)
        requires
            old(self).wf(),
            data@.len() * 4 <= usize::MAX,
        ensures
            final(self).wf(),
            old(self).spec_sound().spec_write_post(final(self).spec_sound(), data@, r),
            final(self).spec_bsmd() == old(self).spec_bsmd(),
            final(self).spec_open_d() == old(self).spec_open_d(),
            final(self).spec_panel() == old(self).spec_panel(),
    {
        self.smc_sound.write(data)
    }
}

impl SMemLib<InMemorySMemIF> {
    /// Creates a new `SMemLib` using in-memory storage (no IPC): zeroed
    /// regions, empty arrays and empty caches.
    pub fn in_memory() -> (r: Self)
        ensures
            r.wf(),
            spec_fresh_struct(r.spec_bsmd(), names::BSMD@),
            r.spec_bsmd().spec_region() == Some(
                spec_zeros(spec_struct_capacity::<BIDSSharedMemoryData>()),
            ),
            spec_fresh_struct(r.spec_open_d(), names::OPEN_D@),
            r.spec_open_d().spec_region() == Some(spec_zeros(spec_struct_capacity::<OpenD>())),
            spec_fresh_array(r.spec_panel(), names::PANEL@),
            r.spec_panel().spec_primary() == spec_zeros(PAGE_SIZE as nat),
            r.spec_panel().spec_read_result() == Ok::<Seq<i32>, SMemError>(Seq::empty()),
            spec_fresh_array(r.spec_sound(), names::SOUND@),
            r.spec_sound().spec_primary() == spec_zeros(PAGE_SIZE as nat),
            r.spec_sound().spec_read_result() == Ok::<Seq<i32>, SMemError>(Seq::empty()),
    {
        SMemLib {
            smc_bsmd: SMemCtrler::in_memory(names::BSMD),
            smc_open_d: SMemCtrler::in_memory(names::OPEN_D),
            smc_panel: ArrayDataSMemCtrler::in_memory(names::PANEL),
            smc_sound: ArrayDataSMemCtrler::in_memory(names::SOUND),
        }
    }
}

} // verus!
