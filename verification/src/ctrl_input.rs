use vstd::prelude::*;
use crate::controller::array_ctrler::spec_elem_max_count;
use crate::controller::struct_ctrler::spec_struct_capacity;
use crate::controller::{ArrayDataSMemCtrler, SMemCtrler};
use crate::error::{SMemError, SMemResult};
use crate::pod::{spec_zeros, PodValue};
use crate::smem::in_memory::InMemorySMemIF;
use crate::smem::SMemIF;
use crate::types::names;
use crate::types::{Hands, PAGE_SIZE};

verus! {

/// Maximum number of key inputs.
pub const KEY_ARRAY_SIZE_MAX: usize = 128;

/// The key states that the raw bytes `raw` stand for: key `i` is pressed
/// when byte `i` exists and is not zero.
pub open spec fn spec_keys_from_raw(raw: Seq<u8>) -> Seq<bool> {
    Seq::new(KEY_ARRAY_SIZE_MAX as nat, |i: int| i < raw.len() && raw[i] != 0)
}

/// The raw bytes stored for the key states `keys`: one byte (1 or 0) per
/// key, for at most `KEY_ARRAY_SIZE_MAX` keys.
pub open spec fn spec_raw_from_keys(keys: Seq<bool>) -> Seq<u8> {
    let n = if keys.len() < KEY_ARRAY_SIZE_MAX {
        keys.len()
    } else {
        KEY_ARRAY_SIZE_MAX as nat
    };
    Seq::new(
        n,
        |i: int|
            if keys[i] {
                1u8
            } else {
                0u8
            },
    )
}

/// Key states survive the trip through their raw bytes: what `write_keys`
/// stores for `keys`, `read_keys` gives back as `keys` (cut to
/// `KEY_ARRAY_SIZE_MAX` keys, the rest unpressed).
pub proof fn lemma_keys_round_trip(keys: Seq<bool>)
    ensures
        spec_keys_from_raw(spec_raw_from_keys(keys)) == Seq::new(
            KEY_ARRAY_SIZE_MAX as nat,
            |i: int| i < keys.len() && keys[i],
        ),
{
    assert(spec_keys_from_raw(spec_raw_from_keys(keys)) =~= Seq::new(
        KEY_ARRAY_SIZE_MAX as nat,
        |i: int| i < keys.len() && keys[i],
    ));
}

/// What reading key `index` gives where no region is missing: the key is
/// pressed when its byte is not zero.
pub open spec fn spec_key_result<S: SMemIF>(keys: ArrayDataSMemCtrler<u8, S>, index: usize) -> SMemResult<bool> {
    match keys.spec_at_result(index) {
        Ok(b) => Ok(b != 0),
        Err(e) => Err(e),
    }
}

/// The bytes stored for key states: one per key, in the keys' order, 1 for
/// a pressed key and 0 for a released one, for at most
/// `KEY_ARRAY_SIZE_MAX` keys.
pub proof fn lemma_raw_keys_layout(keys: Seq<bool>)
    ensures
        spec_raw_from_keys(keys).len() == (if keys.len() < KEY_ARRAY_SIZE_MAX {
            keys.len()
        } else {
            KEY_ARRAY_SIZE_MAX as nat
        }),
        forall|i: int|
            0 <= i < spec_raw_from_keys(keys).len() ==> #[trigger] spec_raw_from_keys(keys)[i] == (
            if keys[i] {
                1u8
            } else {
                0u8
            }),
{
}

/// Key `i` read from the bytes is byte `i`: pressed where that byte exists
/// and is not zero.
pub proof fn lemma_keys_from_raw_layout(raw: Seq<u8>)
    ensures
        spec_keys_from_raw(raw).len() == KEY_ARRAY_SIZE_MAX,
        forall|i: int|
            0 <= i < KEY_ARRAY_SIZE_MAX ==> #[trigger] spec_keys_from_raw(raw)[i] == (i < raw.len()
                && raw[i] != 0),
{
}

/// A key written with `write_keys` is read back by `read_key`: after
/// `write_keys(keys)`, `read_key(index)` gives `keys[index]` for an index
/// below the number of keys written (at most `KEY_ARRAY_SIZE_MAX`), and
/// `IndexOutOfRange` beyond it.
pub proof fn lemma_read_key_after_write_keys<S: SMemIF>(
    before: CtrlInput<S>,
    written: CtrlInput<S>,
    keys: Seq<bool>,
    after: CtrlInput<S>,
    index: usize,
    r: SMemResult<bool>,
)
    requires
        before.wf(),
        before.spec_write_keys_post(written, keys, Ok(())),
        written.spec_read_key_post(after, index, r),
    ensures
        index < keys.len() && index < KEY_ARRAY_SIZE_MAX ==> r == Ok::<bool, SMemError>(
            keys[index as int],
        ),
        index >= KEY_ARRAY_SIZE_MAX ==> r == Err::<bool, SMemError>(
            (SMemError::IndexOutOfRange { index, length: KEY_ARRAY_SIZE_MAX }),
        ),
        keys.len() <= index < KEY_ARRAY_SIZE_MAX ==> r == Err::<bool, SMemError>(
            (SMemError::IndexOutOfRange { index, length: keys.len() as usize }),
        ),
{
    let raw = spec_raw_from_keys(keys);
    assert(raw.len() <= KEY_ARRAY_SIZE_MAX);
    assert(spec_elem_max_count::<u8>() == 4092);
}

/// `read_keys` and `read_key` agree: on the same stored keys, key `index`
/// of what `read_keys` gives is what `read_key(index)` gives, and a key
/// beyond the stored count reads as released.
pub proof fn lemma_read_keys_agrees_with_read_key<S: SMemIF>(
    c: CtrlInput<S>,
    after_all: CtrlInput<S>,
    all: SMemResult<[bool; KEY_ARRAY_SIZE_MAX]>,
    after_one: CtrlInput<S>,
    index: usize,
    one: SMemResult<bool>,
)
    requires
        c.wf(),
        !c.spec_keys().spec_missing_region(),
        c.spec_read_keys_post(after_all, all),
        c.spec_read_key_post(after_one, index, one),
        index < KEY_ARRAY_SIZE_MAX,
        all is Ok,
    ensures
        index < c.spec_keys().spec_count() ==> one == Ok::<bool, SMemError>(
            all->Ok_0@[index as int],
        ),
        index >= c.spec_keys().spec_count() ==> !all->Ok_0@[index as int] && one == Err::<
            bool,
            SMemError,
        >((SMemError::IndexOutOfRange { index, length: c.spec_keys().spec_count() as usize })),
{
}

/// Input control for BIDS shared memory.
///
/// Provides access to:
/// - Key input: 128 boolean values stored as `u8` (0 or 1) in shared memory.
/// - Handle input: `Hands` struct for extended handle data.
///
/// `S` is the backend of the regions.
pub struct CtrlInput<S: SMemIF = InMemorySMemIF> {
    smc_key: ArrayDataSMemCtrler<u8, S>,
    smc_hand: SMemCtrler<Hands, S>,
}

impl<S: SMemIF> CtrlInput<S> {
    /// The controller of the key array.
    pub closed spec fn spec_keys(&self) -> ArrayDataSMemCtrler<u8, S> {
        self.smc_key
    }

    /// The controller of the handle data.
    pub closed spec fn spec_hands(&self) -> SMemCtrler<Hands, S> {
        self.smc_hand
    }

    /// Both controllers are well formed and the handle controller has a region.
    pub open spec fn wf(&self) -> bool {
        &&& self.spec_keys().wf()
        &&& self.spec_hands().wf()
        &&& self.spec_hands().spec_region() is Some
    }

    /// What `read_keys` does: reads the key array as `read` does and gives
    /// key `i` pressed where byte `i` of the array read is not zero.
    pub open spec fn spec_read_keys_post(
        &self,
        after: Self,
        r: SMemResult<[bool; KEY_ARRAY_SIZE_MAX]>,
    ) -> bool {
        &&& after.wf()
        &&& after.spec_hands() == self.spec_hands()
        &&& self.spec_keys().spec_read_post(
            after.spec_keys(),
            match r {
                Ok(_) => Ok::<Seq<u8>, SMemError>(after.spec_keys().spec_cached()),
                Err(e) => Err::<Seq<u8>, SMemError>(e),
            },
        )
        &&& r matches Ok(keys) ==> keys@ == spec_keys_from_raw(after.spec_keys().spec_cached())
    }

    /// What `write_keys(keys)` does: writes one byte per key (at most
    /// `KEY_ARRAY_SIZE_MAX`) as the key array, and succeeds.
    pub open spec fn spec_write_keys_post(&self, after: Self, keys: Seq<bool>, r: SMemResult<()>) -> bool {
        &&& after.wf()
        &&& r is Ok
        &&& after.spec_hands() == self.spec_hands()
        &&& self.spec_keys().spec_write_post(after.spec_keys(), spec_raw_from_keys(keys), r)
    }

    /// What `read_key(index)` does: refuses an index beyond
    /// `KEY_ARRAY_SIZE_MAX`, else reads element `index` of the key array as
    /// `read_at` does and gives whether it is not zero.
    pub open spec fn spec_read_key_post(&self, after: Self, index: usize, r: SMemResult<bool>) -> bool {
        &&& after.wf()
        &&& after.spec_hands() == self.spec_hands()
        &&& index >= KEY_ARRAY_SIZE_MAX ==> {
            &&& r == Err::<bool, SMemError>(
                (SMemError::IndexOutOfRange { index, length: KEY_ARRAY_SIZE_MAX }),
            )
            &&& after.spec_keys() == self.spec_keys()
        }
        &&& index < KEY_ARRAY_SIZE_MAX ==> {
            &&& self.spec_keys().spec_reads_only(after.spec_keys())
            &&& after.spec_keys().spec_cached() == self.spec_keys().spec_cached()
            &&& !self.spec_keys().spec_missing_region() ==> r == spec_key_result(
                self.spec_keys(),
                index,
            )
            &&& r == spec_key_result(after.spec_keys(), index) || (r is Err
                && after.spec_keys().spec_open_refused())
        }
    }

    /// Creates a new `CtrlInput` over the regions named in `names` (each
    /// created zeroed, or opened where it exists), with empty caches.
    pub fn new() -> (r: SMemResult<Self>)
        ensures
            S::spec_can_open(names::CTRL_KEY@, PAGE_SIZE) && S::spec_can_open(
                names::CTRL_HAND@,
                spec_struct_capacity::<Hands>() as u64,
            ) ==> r is Ok,
            r matches Ok(c) ==> {
                &&& c.wf()
                &&& c.spec_keys().spec_name() == names::CTRL_KEY@
                &&& c.spec_keys().spec_primary_name() == names::CTRL_KEY@
                &&& c.spec_keys().spec_primary_created() ==> c.spec_keys().spec_primary()
                    == spec_zeros(PAGE_SIZE as nat)
                &&& c.spec_keys().spec_length_region() is None
                &&& c.spec_keys().spec_large() is None
                &&& c.spec_keys().spec_cached() == Seq::<u8>::empty()
                &&& c.spec_hands().spec_region_name() == Some(names::CTRL_HAND@)
                &&& c.spec_hands().spec_region() matches Some(b) && b.len()
                    == spec_struct_capacity::<Hands>()
                &&& c.spec_hands().spec_region_created() ==> c.spec_hands().spec_region() == Some(
                    spec_zeros(spec_struct_capacity::<Hands>()),
                )
                &&& c.spec_hands().spec_cached() == Hands::spec_zero()
            },
    {
        let smc_key = match ArrayDataSMemCtrler::new(names::CTRL_KEY) {
            Ok(c) => c,
            Err(e) => {
                return Err(e);
            },
        };
        let smc_hand = match SMemCtrler::new(names::CTRL_HAND) {
            Ok(c) => c,
            Err(e) => {
                return Err(e);
            },
        };
        proof {
            Hands::lemma_zero_image();
            Hands::lemma_pod_laws();
        }
        Ok(CtrlInput { smc_key, smc_hand })
    }

    /// Reads all key states from shared memory.
    pub fn read_keys(&mut self) -> (r: SMemResult<[bool; KEY_ARRAY_SIZE_MAX]>)
        requires
            old(self).wf(),
        ensures
            old(self).spec_read_keys_post(*final(self), r),
    {
        let raw = match self.smc_key.read() {
            Ok(v) => v,
            Err(e) => {
                return Err(e);
            },
        };
        let mut result = [false; 128];
        let n = if raw.len() < KEY_ARRAY_SIZE_MAX {
            raw.len()
        } else {
            KEY_ARRAY_SIZE_MAX
        };
        for i in 0..n
            invariant
                n <= raw@.len(),
                n <= KEY_ARRAY_SIZE_MAX,
                result@.len() == KEY_ARRAY_SIZE_MAX,
                forall|j: int|
                    0 <= j < KEY_ARRAY_SIZE_MAX ==> #[trigger] result@[j] == (j < i && raw@[j]
                        != 0),
        {
            result[i] = raw[i] != 0;
        }
        assert(result@ =~= spec_keys_from_raw(raw@));
        Ok(result)
    }

    /// Writes all key states to shared memory (at most `KEY_ARRAY_SIZE_MAX`).
    pub fn write_keys(&mut self, keys: &[bool]) -> (r: SMemResult<()>)
        requires
            old(self).wf(),
        ensures
            old(self).spec_write_keys_post(*final(self), keys@, r),
    {
        let n = if keys.len() < KEY_ARRAY_SIZE_MAX {
            keys.len()
        } else {
            KEY_ARRAY_SIZE_MAX
        };
        let mut raw: Vec<u8> = Vec::new();
        for i in 0..n
            invariant
                n <= keys@.len(),
                n <= KEY_ARRAY_SIZE_MAX,
                raw@ == spec_raw_from_keys(keys@).take(i as int),
        {
            raw.push(if keys[i] { 1u8 } else { 0u8 });
            assert(raw@ =~= spec_raw_from_keys(keys@).take(i + 1));
        }
        assert(raw@ =~= spec_raw_from_keys(keys@));
        self.smc_key.write(raw.as_slice())
    }

    /// Reads a single key state by index.
    pub fn read_key(&mut self, index: usize) -> (r: SMemResult<bool>)
        requires
            old(self).wf(),
        ensures
            old(self).spec_read_key_post(*final(self), index, r),
    {
        if index >= KEY_ARRAY_SIZE_MAX {
            return Err(SMemError::IndexOutOfRange { index, length: KEY_ARRAY_SIZE_MAX });
        }
        match self.smc_key.read_at(index) {
            Ok(v) => Ok(v != 0),
            Err(e) => Err(e),
        }
    }

    /// Writes a single key state by index. A refused index stores nothing.
    pub fn write_key(&mut self, index: usize, value: bool) -> (r: SMemResult<()>)
        requires
            old(self).wf(),
        ensures
            final(self).wf(),
            final(self).spec_hands() == old(self).spec_hands(),
            index >= KEY_ARRAY_SIZE_MAX ==> {
                &&& r == Err::<(), SMemError>(
                    (SMemError::IndexOutOfRange { index, length: KEY_ARRAY_SIZE_MAX }),
                )
                &&& final(self).spec_keys() == old(self).spec_keys()
            },
            index < KEY_ARRAY_SIZE_MAX ==> old(self).spec_keys().spec_write_at_post(
                final(self).spec_keys(),
                index,
                if value {
                    1u8
                } else {
                    0u8
                },
                r,
            ),
            r is Err && !old(self).spec_keys().spec_missing_region() ==> final(self).spec_keys()
                .spec_read_result() == old(self).spec_keys().spec_read_result(),
    {
        if index >= KEY_ARRAY_SIZE_MAX {
            return Err(SMemError::IndexOutOfRange { index, length: KEY_ARRAY_SIZE_MAX });
        }
        let byte: u8 = if value { 1 } else { 0 };
        self.smc_key.write_at(index, &byte)
    }

    /// Reads the handle data from shared memory.
    pub fn read_hands(&mut self) -> (r: SMemResult<Hands>)
        requires
            old(self).wf(),
        ensures
            final(self).wf(),
            r is Ok,
            old(self).spec_hands().spec_read_post(final(self).spec_hands(), r),
            final(self).spec_keys() == old(self).spec_keys(),
    {
        self.smc_hand.read()
    }

    /// Writes the handle data to shared memory.
    pub fn write_hands(&mut self, hands: &Hands) -> (r: SMemResult<()>)
        requires
            old(self).wf(),
        ensures
            final(self).wf(),
            r is Ok,
            old(self).spec_hands().spec_write_post(final(self).spec_hands(), *hands, r),
            final(self).spec_keys() == old(self).spec_keys(),
    {
        self.smc_hand.write(hands)
    }
}

impl CtrlInput<InMemorySMemIF> {
    /// Creates a new `CtrlInput` using in-memory storage (no IPC): no key
    /// stored and zero handle data.
    pub fn in_memory() -> (r: Self)
        ensures
            r.wf(),
            r.spec_keys().spec_name() == names::CTRL_KEY@,
            r.spec_keys().spec_primary() == spec_zeros(PAGE_SIZE as nat),
            r.spec_keys().spec_length_region() is None,
            r.spec_keys().spec_large() is None,
            r.spec_keys().spec_cached() == Seq::<u8>::empty(),
            r.spec_keys().spec_count() == 0,
            !r.spec_keys().spec_missing_region(),
            r.spec_keys().spec_read_result() == Ok::<Seq<u8>, SMemError>(Seq::empty()),
            r.spec_hands().spec_region_name() == Some(names::CTRL_HAND@),
            r.spec_hands().spec_region() == Some(spec_zeros(spec_struct_capacity::<Hands>())),
            r.spec_hands().spec_cached() == Hands::spec_zero(),
    {
        let smc_key = ArrayDataSMemCtrler::in_memory(names::CTRL_KEY);
        let smc_hand = SMemCtrler::in_memory(names::CTRL_HAND);
        proof {
            Hands::lemma_zero_image();
            Hands::lemma_pod_laws();
        }
        CtrlInput { smc_key, smc_hand }
    }
}

} // verus!
