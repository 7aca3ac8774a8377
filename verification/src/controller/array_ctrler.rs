use vstd::prelude::*;
use vstd::slice::slice_to_vec;
use crate::error::{SMemError, SMemResult};
use crate::pod::scalar::{lemma_i32_round_trip, lemma_zero_bytes};
use crate::pod::{
    lemma_decode_encode_seq, lemma_decode_seq_update, lemma_encode_seq_len, lemma_slot_in_range,
    spec_decode_seq, spec_encode_seq, spec_update_bytes, spec_zeros, PodValue,
};
use crate::smem::in_memory::InMemorySMemIF;
use crate::smem::{lemma_read_array_after_write, open_in_memory, SMemIF, SMemIFExt};
use crate::types::PAGE_SIZE;

verus! {

/// The character of decimal digit `d`.
pub open spec fn spec_digit_char(d: nat) -> char {
    seq!['0', '1', '2', '3', '4', '5', '6', '7', '8', '9'][d as int]
}

/// The decimal representation of `n`, without leading zeros.
pub open spec fn spec_decimal(n: nat) -> Seq<char>
    decreases n,
{
    if n < 10 {
        seq![spec_digit_char(n)]
    } else {
        spec_decimal(n / 10).push(spec_digit_char(n % 10))
    }
}

/// The number that the decimal digits `s` stand for (most significant
/// first).
pub open spec fn spec_digits_value(s: Seq<char>) -> int
    decreases s.len(),
{
    if s.len() == 0 {
        0
    } else {
        spec_digits_value(s.drop_last()) * 10 + (s.last() as int - '0' as int)
    }
}

proof fn lemma_digit_char_value(d: nat)
    requires
        d < 10,
    ensures
        '0' <= spec_digit_char(d) <= '9',
        spec_digit_char(d) as int - '0' as int == d,
{
    let digits = seq!['0', '1', '2', '3', '4', '5', '6', '7', '8', '9'];
    assert(digits[0] == '0' && digits[1] == '1' && digits[2] == '2' && digits[3] == '3');
    assert(digits[4] == '4' && digits[5] == '5' && digits[6] == '6' && digits[7] == '7');
    assert(digits[8] == '8' && digits[9] == '9');
}

/// `spec_decimal(n)` is the decimal numeral of `n`: it is made of the digits
/// `0` to `9`, stands for `n`, and starts with `0` only for `n == 0`.
pub proof fn lemma_decimal_is_numeral(n: nat)
    ensures
        spec_decimal(n).len() > 0,
        forall|i: int|
            0 <= i < spec_decimal(n).len() ==> '0' <= #[trigger] spec_decimal(n)[i] <= '9',
        spec_digits_value(spec_decimal(n)) == n,
        spec_decimal(n)[0] == '0' ==> n == 0,
    decreases n,
{
    lemma_digit_char_value(n % 10);
    let d = spec_decimal(n);
    if n < 10 {
        assert(d.drop_last().len() == 0);
        assert(spec_digits_value(d.drop_last()) == 0);
        assert(d.last() == spec_digit_char(n));
    } else {
        lemma_decimal_is_numeral(n / 10);
        assert(d.drop_last() =~= spec_decimal(n / 10));
        assert(d.last() == spec_digit_char(n % 10));
        assert(d[0] == spec_decimal(n / 10)[0]);
        assert((n / 10) * 10 + n % 10 == n);
    }
}

/// The name of the separate region that holds an array of `count` elements
/// of the array named `name`: `"{name}_{count}"`.
pub open spec fn spec_large_array_name(name: Seq<char>, count: nat) -> Seq<char> {
    name + seq!['_'] + spec_decimal(count)
}

/// The number of elements of type `T` that fit in the primary region after
/// the `i32` length prefix.
pub open spec fn spec_elem_max_count<T: PodValue>() -> nat {
    if T::spec_size() > 0 {
        ((PAGE_SIZE - 4) as nat) / T::spec_size()
    } else {
        0
    }
}

/// The error for an array of `size` bytes that cannot be held in memory.
pub open spec fn spec_too_large(size: nat) -> SMemError {
    SMemError::OutOfBounds { pos: 0, size: size as u64, capacity: usize::MAX as u64 }
}

fn digit_str(d: usize) -> (r: &'static str)
    requires
        d < 10,
    ensures
        r@ == seq![spec_digit_char(d as nat)],
{
    match d {
        0 => {
            proof {
                reveal_strlit("0");
            }
            "0"
        },
        1 => {
            proof {
                reveal_strlit("1");
            }
            "1"
        },
        2 => {
            proof {
                reveal_strlit("2");
            }
            "2"
        },
        3 => {
            proof {
                reveal_strlit("3");
            }
            "3"
        },
        4 => {
            proof {
                reveal_strlit("4");
            }
            "4"
        },
        5 => {
            proof {
                reveal_strlit("5");
            }
            "5"
        },
        6 => {
            proof {
                reveal_strlit("6");
            }
            "6"
        },
        7 => {
            proof {
                reveal_strlit("7");
            }
            "7"
        },
        8 => {
            proof {
                reveal_strlit("8");
            }
            "8"
        },
        _ => {
            proof {
                reveal_strlit("9");
            }
            "9"
        },
    }
}

fn append_decimal(s: &mut String, n: usize)
    ensures
        final(s)@ == old(s)@ + spec_decimal(n as nat),
    decreases n,
{
    if n < 10 {
        s.append(digit_str(n));
    } else {
        append_decimal(s, n / 10);
        s.append(digit_str(n % 10));
        assert(final(s)@ =~= old(s)@ + spec_decimal(n as nat));
    }
}

/// The name of the region that holds the length of a large array of the
/// array named `name`: `"{name}_length"`.
pub open spec fn spec_length_name(name: Seq<char>) -> Seq<char> {
    name + seq!['_', 'l', 'e', 'n', 'g', 't', 'h']
}

/// The name of the length region of an array: `"{name}_length"`.
fn length_region_name(name: &str) -> (r: String)
    ensures
        r@ == spec_length_name(name@),
{
    let mut s = String::from_str(name);
    proof {
        reveal_strlit("_length");
    }
    s.append("_length");
    assert(s@ =~= spec_length_name(name@));
    s
}

/// The name of the separate region of an array: `"{name}_{count}"`.
fn large_array_name(name: &str, count: usize) -> (r: String)
    ensures
        r@ == spec_large_array_name(name@, count as nat),
{
    let mut s = String::from_str(name);
    proof {
        reveal_strlit("_");
    }
    s.append("_");
    append_decimal(&mut s, count);
    assert(s@ =~= spec_large_array_name(name@, count as nat));
    s
}

proof fn lemma_small_tier_fits<T: PodValue>(n: nat)
    requires
        0 < n <= spec_elem_max_count::<T>(),
    ensures
        T::spec_size() > 0,
        4 + n * T::spec_size() <= PAGE_SIZE,
{
    let s = T::spec_size() as int;
    let q = 4092int / s;
    assert(q * s <= 4092) by (nonlinear_arith)
        requires
            s > 0,
            q == 4092int / s,
    ;
    assert(n * s <= q * s) by (nonlinear_arith)
        requires
            n <= q,
            s > 0,
    ;
}

proof fn lemma_zero_length()
    ensures
        i32::spec_from_bytes(spec_zeros(4)) == 0i32,
{
    lemma_zero_bytes();
    lemma_i32_round_trip(0);
    assert(spec_zeros(4) =~= Seq::new(4, |i: int| 0u8));
}

proof fn lemma_elem_max_count_bound<T: PodValue>()
    ensures
        spec_elem_max_count::<T>() <= 4092,
{
    if T::spec_size() > 0 {
        let s = T::spec_size() as int;
        assert(4092int / s <= 4092) by (nonlinear_arith)
            requires
                s > 0,
        ;
    }
}

/// Controller for array data in shared memory.
///
/// Two-tier storage:
/// - small arrays: `[i32 length][T; length]` in the primary region of one
///   page, up to `(PAGE_SIZE - 4) / size_of::<T>()` elements;
/// - large arrays: the length as an `i32` in the region `"{name}_length"`,
///   the elements in the region `"{name}_{count}"`, reopened when the
///   length changes. The primary region's prefix then holds the length too,
///   beyond the small-tier maximum, which tells readers to look there.
///
/// `S` is the backend of the regions.
pub struct ArrayDataSMemCtrler<T: PodValue, S: SMemIF = InMemorySMemIF> {
    name: String,
    smem: S,
    smem_length: Option<S>,
    smem_array: Option<S>,
    current_large_count: usize,
    cached: Vec<T>,
    elem_max_count: usize,
}

impl<T: PodValue, S: SMemIF> ArrayDataSMemCtrler<T, S> {
    /// The name of the array.
    pub closed spec fn spec_name(&self) -> Seq<char> {
        self.name@
    }

    /// The bytes of the primary region.
    pub closed spec fn spec_primary(&self) -> Seq<u8> {
        self.smem.spec_contents()
    }

    /// The name of the primary region.
    pub closed spec fn spec_primary_name(&self) -> Seq<char> {
        self.smem.spec_name()
    }

    /// Whether this controller created the primary region (rather than
    /// opened one that existed).
    pub closed spec fn spec_primary_created(&self) -> bool {
        self.smem.spec_newly_created()
    }

    /// The bytes of the length region of large arrays, once it is open.
    pub closed spec fn spec_length_region(&self) -> Option<Seq<u8>> {
        match self.smem_length {
            Some(a) => Some(a.spec_contents()),
            None => None,
        }
    }

    /// The name of the length region, once it is open.
    pub closed spec fn spec_length_region_name(&self) -> Option<Seq<char>> {
        match self.smem_length {
            Some(a) => Some(a.spec_name()),
            None => None,
        }
    }

    /// The bytes of the separate region for large arrays, if there is one.
    pub closed spec fn spec_large(&self) -> Option<Seq<u8>> {
        match self.smem_array {
            Some(a) => Some(a.spec_contents()),
            None => None,
        }
    }

    /// The name of the separate region for large arrays, if there is one.
    pub closed spec fn spec_large_region_name(&self) -> Option<Seq<char>> {
        match self.smem_array {
            Some(a) => Some(a.spec_name()),
            None => None,
        }
    }

    /// The element count the separate region was opened for.
    pub closed spec fn spec_large_count(&self) -> nat {
        self.current_large_count as nat
    }

    /// The cached array.
    pub closed spec fn spec_cached(&self) -> Seq<T> {
        self.cached@
    }

    /// The maximum element count of the small tier.
    pub closed spec fn spec_max_inline(&self) -> nat {
        self.elem_max_count as nat
    }

    /// The primary region is one page; the length region, where it is open,
    /// is four bytes named `"{name}_length"`; the separate region, where
    /// there is one, has room for exactly the count it was opened for and is
    /// named after it.
    pub open spec fn wf(&self) -> bool {
        &&& self.spec_primary().len() == PAGE_SIZE
        &&& self.spec_max_inline() == spec_elem_max_count::<T>()
        &&& self.spec_length_region() is Some <==> self.spec_length_region_name() is Some
        &&& self.spec_length_region() matches Some(b) ==> b.len() == 4
        &&& self.spec_length_region_name() matches Some(nm) ==> nm == spec_length_name(
            self.spec_name(),
        )
        &&& self.spec_large() is Some <==> self.spec_large_region_name() is Some
        &&& self.spec_large() matches Some(b) ==> b.len() == self.spec_large_count()
            * T::spec_size() && b.len() <= usize::MAX
        &&& self.spec_large_region_name() matches Some(nm) ==> nm == spec_large_array_name(
            self.spec_name(),
            self.spec_large_count(),
        )
    }

    /// The `i32` at the start of the primary region.
    pub open spec fn spec_prefix(&self) -> i32 {
        i32::spec_from_bytes(self.spec_primary().subrange(0, 4))
    }

    /// Whether the prefix marks a large array (beyond the small tier).
    pub open spec fn spec_is_large(&self) -> bool {
        self.spec_prefix() > spec_elem_max_count::<T>()
    }

    /// The stored element count: the prefix for a small array, the length
    /// region's `i32` for a large one (zero while that region is not open);
    /// a negative length counts as zero.
    pub open spec fn spec_count(&self) -> nat {
        let length = if !self.spec_is_large() {
            self.spec_prefix()
        } else {
            match self.spec_length_region() {
                Some(b) => i32::spec_from_bytes(b),
                None => 0i32,
            }
        };
        if length < 0 {
            0
        } else {
            length as nat
        }
    }

    /// Whether reaching the stored elements needs a region that is not open:
    /// the length region of a large array, or the separate region for the
    /// stored count.
    pub open spec fn spec_missing_region(&self) -> bool {
        &&& self.spec_is_large()
        &&& self.spec_length_region() is None || (self.spec_count() > 0 && self.spec_count()
            * T::spec_size() <= usize::MAX && !(self.spec_large_count() == self.spec_count()
            && self.spec_large() is Some))
    }

    /// Whether a region is missing because the backend refuses to open it:
    /// the length region, or else the separate region for the stored count.
    pub open spec fn spec_open_refused(&self) -> bool {
        &&& self.spec_missing_region()
        &&& match self.spec_length_region() {
            None => !S::spec_can_open(spec_length_name(self.spec_name()), 4),
            Some(_) => !S::spec_can_open(
                spec_large_array_name(self.spec_name(), self.spec_count()),
                (self.spec_count() * T::spec_size()) as u64,
            ),
        }
    }

    /// What `read` returns where no region is missing.
    pub open spec fn spec_read_result(&self) -> SMemResult<Seq<T>> {
        let n = self.spec_count();
        let s = T::spec_size();
        if n == 0 {
            Ok(Seq::empty())
        } else if !self.spec_is_large() {
            Ok(spec_decode_seq::<T>(self.spec_primary().subrange(4, 4 + n * s as int), n))
        } else if n * s > usize::MAX {
            Err(spec_too_large(n * s))
        } else {
            match self.spec_large() {
                Some(b) => Ok(spec_decode_seq::<T>(b, n)),
                None => Err(SMemError::NotInitialized),
            }
        }
    }

    /// What `read_at(index)` returns where no region is missing.
    pub open spec fn spec_at_result(&self, index: usize) -> SMemResult<T> {
        if index >= self.spec_count() {
            Err(SMemError::IndexOutOfRange { index, length: self.spec_count() as usize })
        } else {
            match self.spec_read_result() {
                Ok(v) => Ok(v[index as int]),
                Err(e) => Err(e),
            }
        }
    }

    /// How a call that only reads changes the regions: the primary region
    /// stays; an open length region stays; the separate region stays or is
    /// replaced by the one for the stored count; where no region was
    /// missing, nothing changes.
    pub open spec fn spec_reads_only(&self, after: Self) -> bool {
        &&& after.wf()
        &&& after.spec_name() == self.spec_name()
        &&& after.spec_primary() == self.spec_primary()
        &&& after.spec_primary_name() == self.spec_primary_name()
        &&& self.spec_length_region() is Some ==> after.spec_length_region()
            == self.spec_length_region()
        &&& (after.spec_large() == self.spec_large() && after.spec_large_count()
            == self.spec_large_count()) || (after.spec_large() is Some && after.spec_large_count()
            == after.spec_count())
        &&& !self.spec_missing_region() ==> {
            &&& after.spec_length_region() == self.spec_length_region()
            &&& after.spec_large() == self.spec_large()
            &&& after.spec_large_count() == self.spec_large_count()
        }
    }

    /// What `read` does: where no region is missing it returns
    /// `spec_read_result()` and changes no region; otherwise it opens what
    /// it needs and returns what the regions then hold, or fails because a
    /// region could not be opened. It caches the array read (an error keeps
    /// the cache).
    pub open spec fn spec_read_post(&self, after: Self, r: SMemResult<Seq<T>>) -> bool {
        &&& self.spec_reads_only(after)
        &&& !self.spec_missing_region() ==> r == self.spec_read_result()
        &&& r == after.spec_read_result() || (r is Err && after.spec_open_refused())
        &&& r matches Ok(v) ==> after.spec_cached() == v
        &&& r is Err ==> after.spec_cached() == self.spec_cached()
    }

    /// What `write(values)` does: the length goes into the `i32` prefix; up
    /// to `spec_elem_max_count` elements follow it in the primary region;
    /// more go, with their length, into the length region and a separate
    /// region opened for their count (kept when it already was); it fails
    /// only where one of those could not be opened. On success the array is
    /// cached, and `read` then gives it back (for at most `i32::MAX`
    /// elements, whose count an `i32` can hold).
    pub open spec fn spec_write_post(&self, after: Self, values: Seq<T>, r: SMemResult<()>) -> bool {
        let n = values.len();
        let length_bytes = (n as i32).spec_to_bytes();
        let with_length = spec_update_bytes(self.spec_primary(), 0, length_bytes);
        &&& after.wf()
        &&& after.spec_name() == self.spec_name()
        &&& after.spec_primary_name() == self.spec_primary_name()
        &&& r is Ok ==> after.spec_cached() == values
        &&& r is Err ==> after.spec_cached() == self.spec_cached()
        &&& n <= spec_elem_max_count::<T>() ==> {
            &&& r is Ok
            &&& after.spec_primary() == (if n == 0 {
                with_length
            } else {
                spec_update_bytes(with_length, 4, spec_encode_seq(values))
            })
            &&& after.spec_length_region() == self.spec_length_region()
            &&& after.spec_large() == self.spec_large()
            &&& after.spec_large_count() == self.spec_large_count()
        }
        &&& n > spec_elem_max_count::<T>() ==> {
            &&& after.spec_primary() == with_length
            &&& self.spec_length_region() is Some ==> after.spec_length_region() is Some
            &&& r is Ok ==> {
                &&& after.spec_length_region() == Some(length_bytes)
                &&& after.spec_large() == Some(spec_encode_seq(values))
                &&& after.spec_large_count() == n
            }
            &&& r is Err ==> {
                ||| after.spec_length_region() is None && !S::spec_can_open(
                    spec_length_name(self.spec_name()),
                    4,
                )
                ||| after.spec_length_region() is Some && !(after.spec_large_count() == n
                    && after.spec_large() is Some) && !S::spec_can_open(
                    spec_large_array_name(self.spec_name(), n),
                    (n * T::spec_size()) as u64,
                )
            }
        }
        &&& n <= i32::MAX && r is Ok ==> after.spec_read_result() == Ok::<Seq<T>, SMemError>(
            values,
        ) && !after.spec_missing_region()
    }

    /// What `read_at(index)` does: the regions change as for `read`; where
    /// no region is missing it returns `spec_at_result(index)`; otherwise it
    /// returns what the regions then hold give, or fails because a region
    /// could not be opened.
    pub open spec fn spec_read_at_post(&self, after: Self, index: usize, r: SMemResult<T>) -> bool {
        &&& self.spec_reads_only(after)
        &&& after.spec_cached() == self.spec_cached()
        &&& !self.spec_missing_region() ==> r == self.spec_at_result(index)
        &&& r == after.spec_at_result(index) || (r is Err && after.spec_open_refused())
    }

    /// What `write_at(index, value)` does: where no region is missing, it
    /// fails as `read_at` would and changes nothing, or puts the bytes of
    /// `value` in the slot of element `index`; otherwise, on success, the
    /// array the regions then hold has `value` at `index`, and on failure no
    /// bytes were written.
    pub open spec fn spec_write_at_post(
        &self,
        after: Self,
        index: usize,
        value: T,
        r: SMemResult<()>,
    ) -> bool {
        &&& after.wf()
        &&& after.spec_name() == self.spec_name()
        &&& after.spec_primary_name() == self.spec_primary_name()
        &&& after.spec_cached() == self.spec_cached()
        &&& self.spec_length_region() is Some ==> after.spec_length_region()
            == self.spec_length_region()
        &&& !self.spec_missing_region() ==> match self.spec_at_result(index) {
            Err(e) => {
                &&& r == Err::<(), SMemError>(e)
                &&& after.spec_primary() == self.spec_primary()
                &&& after.spec_length_region() == self.spec_length_region()
                &&& after.spec_large() == self.spec_large()
                &&& after.spec_large_count() == self.spec_large_count()
            },
            Ok(_) => {
                &&& r is Ok
                &&& after.spec_length_region() == self.spec_length_region()
                &&& after.spec_large_count() == self.spec_large_count()
                &&& after.spec_read_result() == Ok::<Seq<T>, SMemError>(
                    self.spec_read_result()->Ok_0.update(index as int, value),
                )
                &&& !self.spec_is_large() ==> {
                    &&& after.spec_primary() == spec_update_bytes(
                        self.spec_primary(),
                        4 + index * T::spec_size(),
                        value.spec_to_bytes(),
                    )
                    &&& after.spec_large() == self.spec_large()
                }
                &&& self.spec_is_large() ==> {
                    &&& after.spec_primary() == self.spec_primary()
                    &&& after.spec_large() == Some(
                        spec_update_bytes(
                            self.spec_large()->0,
                            index * T::spec_size(),
                            value.spec_to_bytes(),
                        ),
                    )
                }
            },
        }
        &&& r is Ok ==> {
            &&& !after.spec_missing_region()
            &&& after.spec_read_result() matches Ok(v) && index < v.len() && v[index as int]
                == value
        }
        &&& r is Err ==> {
            &&& after.spec_primary() == self.spec_primary()
            &&& after.spec_large() == self.spec_large()
            &&& after.spec_large_count() == self.spec_large_count()
            &&& (after.spec_at_result(index) matches Err(e) && r == Err::<(), SMemError>(e))
                || after.spec_open_refused()
        }
    }

    fn make(name: &str, smem: S) -> (r: Self)
        requires
            smem.spec_contents().len() == PAGE_SIZE,
        ensures
            r.wf(),
            r.spec_name() == name@,
            r.spec_primary() == smem.spec_contents(),
            r.spec_primary_name() == smem.spec_name(),
            r.spec_primary_created() == smem.spec_newly_created(),
            r.spec_length_region() is None,
            r.spec_large() is None,
            r.spec_large_count() == 0,
            r.spec_cached() == Seq::<T>::empty(),
    {
        proof {
            T::lemma_pod_laws();
        }
        let elem_size = T::size_of();
        let elem_max_count = if elem_size > 0 {
            (PAGE_SIZE as usize - 4) / elem_size
        } else {
            0
        };
        ArrayDataSMemCtrler {
            name: name.to_owned(),
            smem,
            smem_length: None,
            smem_array: None,
            current_large_count: 0,
            cached: Vec::new(),
            elem_max_count,
        }
    }

    /// Creates a controller backed by the shared memory region of one page
    /// named `name` (created zeroed, which holds an empty array, or opened
    /// where it exists), with an empty cache.
    pub fn new(name: &str) -> (r: SMemResult<Self>)
        ensures
            S::spec_can_open(name@, PAGE_SIZE) ==> r is Ok,
            r matches Ok(c) ==> {
                &&& c.wf()
                &&& c.spec_name() == name@
                &&& c.spec_primary_name() == name@
                &&& c.spec_primary_created() ==> c.spec_primary() == spec_zeros(PAGE_SIZE as nat)
                &&& c.spec_length_region() is None
                &&& c.spec_large() is None
                &&& c.spec_large_count() == 0
                &&& c.spec_cached() == Seq::<T>::empty()
            },
    {
        match S::open_or_create(name, PAGE_SIZE) {
            Ok(smem) => Ok(Self::make(name, smem)),
            Err(e) => Err(e),
        }
    }

    /// Reads the prefix.
    fn stored_prefix(&self) -> (r: i32)
        requires
            self.wf(),
        ensures
            r == self.spec_prefix(),
    {
        match self.smem.read_value::<i32>(0) {
            Ok(l) => l,
            Err(_) => 0,
        }
    }

    /// Opens the length region unless it is open.
    fn ensure_length_smem(&mut self) -> (r: SMemResult<()>)
        requires
            old(self).wf(),
        ensures
            final(self).wf(),
            final(self).spec_name() == old(self).spec_name(),
            final(self).spec_primary() == old(self).spec_primary(),
            final(self).spec_primary_name() == old(self).spec_primary_name(),
            final(self).spec_large() == old(self).spec_large(),
            final(self).spec_large_count() == old(self).spec_large_count(),
            final(self).spec_cached() == old(self).spec_cached(),
            old(self).spec_length_region() is Some ==> r is Ok && final(self).spec_length_region()
                == old(self).spec_length_region(),
            r is Ok ==> final(self).spec_length_region() is Some,
            r is Err ==> final(self).spec_length_region() is None && !S::spec_can_open(
                spec_length_name(old(self).spec_name()),
                4,
            ),
    {
        if self.smem_length.is_some() {
            return Ok(());
        }
        let nm = length_region_name(self.name.as_str());
        match S::open_or_create(nm.as_str(), 4) {
            Ok(s) => {
                self.smem_length = Some(s);
                Ok(())
            },
            Err(e) => Err(e),
        }
    }

    /// Reads the stored count and whether the array is large, opening the
    /// length region where a large array needs it.
    fn stored_count(&mut self) -> (r: SMemResult<(usize, bool)>)
        requires
            old(self).wf(),
        ensures
            final(self).wf(),
            final(self).spec_name() == old(self).spec_name(),
            final(self).spec_primary() == old(self).spec_primary(),
            final(self).spec_primary_name() == old(self).spec_primary_name(),
            final(self).spec_large() == old(self).spec_large(),
            final(self).spec_large_count() == old(self).spec_large_count(),
            final(self).spec_cached() == old(self).spec_cached(),
            old(self).spec_length_region() is Some ==> final(self).spec_length_region() == old(
                self,
            ).spec_length_region(),
            !old(self).spec_is_large() ==> final(self).spec_length_region() == old(
                self,
            ).spec_length_region(),
            !old(self).spec_is_large() || old(self).spec_length_region() is Some ==> r is Ok,
            r matches Ok(p) ==> {
                &&& p.0 == final(self).spec_count()
                &&& p.1 == final(self).spec_is_large()
                &&& p.0 <= i32::MAX
                &&& p.1 ==> final(self).spec_length_region() is Some
            },
            r is Err ==> final(self).spec_is_large() && final(self).spec_length_region() is None
                && !S::spec_can_open(spec_length_name(old(self).spec_name()), 4),
    {
        proof {
            lemma_elem_max_count_bound::<T>();
            i32::lemma_pod_laws();
        }
        let prefix = self.stored_prefix();
        let max = self.elem_max_count as i32;
        let length: i32 = if prefix <= max {
            prefix
        } else {
            match self.ensure_length_smem() {
                Ok(()) => {},
                Err(e) => {
                    return Err(e);
                },
            }
            match &self.smem_length {
                Some(a) => {
                    assert(a.spec_contents().subrange(0, 4) =~= a.spec_contents());
                    match a.read_value::<i32>(0) {
                        Ok(l) => l,
                        Err(_) => 0,
                    }
                },
                None => 0,
            }
        };
        let count: usize = if length < 0 {
            0
        } else {
            length as usize
        };
        Ok((count, prefix > max))
    }

    /// Makes sure the separate region is open for `count` elements: keeps it
    /// when it was opened for `count`, else opens the one named
    /// `"{name}_{count}"`. Fails where its size is beyond the address space
    /// or it cannot be opened, and then changes nothing.
    fn ensure_large_array_smem(&mut self, count: usize) -> (r: SMemResult<()>)
        requires
            old(self).wf(),
            count * T::spec_size() <= u64::MAX,
        ensures
            final(self).wf(),
            final(self).spec_name() == old(self).spec_name(),
            final(self).spec_primary() == old(self).spec_primary(),
            final(self).spec_primary_name() == old(self).spec_primary_name(),
            final(self).spec_length_region() == old(self).spec_length_region(),
            final(self).spec_cached() == old(self).spec_cached(),
            old(self).spec_large_count() == count && old(self).spec_large() is Some ==> r is Ok
                && final(self).spec_large() == old(self).spec_large(),
            count * T::spec_size() > usize::MAX ==> r == Err::<(), SMemError>(
                spec_too_large((count * T::spec_size()) as nat),
            ),
            r is Ok ==> final(self).spec_large() is Some && final(self).spec_large_count() == count,
            r is Err ==> final(self).spec_large() == old(self).spec_large()
                && final(self).spec_large_count() == old(self).spec_large_count(),
            r is Err && count * T::spec_size() <= usize::MAX ==> !S::spec_can_open(
                spec_large_array_name(old(self).spec_name(), count as nat),
                (count * T::spec_size()) as u64,
            ),
            (final(self).spec_large() == old(self).spec_large() && final(self).spec_large_count()
                == old(self).spec_large_count()) || final(self).spec_large_count() == count,
    {
        proof {
            T::lemma_pod_laws();
        }
        if self.current_large_count == count && self.smem_array.is_some() {
            return Ok(());
        }
        let elem_size = T::size_of();
        let capacity: u64 = count as u64 * elem_size as u64;
        if capacity > usize::MAX as u64 {
            return Err(SMemError::OutOfBounds { pos: 0, size: capacity, capacity: usize::MAX as u64 });
        }
        let array_name = large_array_name(self.name.as_str(), count);
        let new_smem = match S::open_or_create(array_name.as_str(), capacity) {
            Ok(s) => s,
            Err(e) => {
                return Err(e);
            },
        };
        self.smem_array = Some(new_smem);
        self.current_large_count = count;
        Ok(())
    }

    /// Reads the entire array from shared memory and caches it.
    pub fn read(&mut self) -> (r: SMemResult<Vec<T>>)
        requires
            old(self).wf(),
        ensures
            old(self).spec_read_post(
                *final(self),
                match r {
                    Ok(v) => Ok::<Seq<T>, SMemError>(v@),
                    Err(e) => Err::<Seq<T>, SMemError>(e),
                },
            ),
    {
        proof {
            T::lemma_pod_laws();
            lemma_elem_max_count_bound::<T>();
        }
        let (count, large) = match self.stored_count() {
            Ok(p) => p,
            Err(e) => {
                return Err(e);
            },
        };
        if count == 0 {
            self.cached = Vec::new();
            return Ok(Vec::new());
        }
        let values = if !large {
            proof {
                lemma_small_tier_fits::<T>(count as nat);
            }
            match self.smem.read_array::<T>(4, count) {
                Ok(v) => v,
                Err(e) => {
                    return Err(e);
                },
            }
        } else {
            assert(count * T::spec_size() <= u64::MAX) by (nonlinear_arith)
                requires
                    count <= i32::MAX,
                    T::spec_size() <= u32::MAX,
            ;
            match self.ensure_large_array_smem(count) {
                Ok(()) => {},
                Err(e) => {
                    return Err(e);
                },
            }
            match &self.smem_array {
                Some(a) => {
                    assert(a.spec_contents().subrange(0, (count * T::spec_size()) as int)
                        =~= a.spec_contents());
                    match a.read_array::<T>(0, count) {
                        Ok(v) => v,
                        Err(e) => {
                            return Err(e);
                        },
                    }
                },
                None => {
                    return Err(SMemError::NotInitialized);
                },
            }
        };
        self.cached = slice_to_vec(values.as_slice());
        Ok(values)
    }

    /// Writes the entire array to shared memory and caches it: its length
    /// as an `i32` prefix, then its elements after the prefix (small
    /// arrays) or, with the length, in the regions of large arrays.
    pub fn write(&mut self, values: &[T]) -> (r: SMemResult<()>)
        requires
            old(self).wf(),
            values@.len() * T::spec_size() <= usize::MAX,
        ensures
            old(self).spec_write_post(*final(self), values@, r),
    {
        proof {
            T::lemma_pod_laws();
            i32::lemma_pod_laws();
            lemma_encode_seq_len(values@);
            lemma_decode_encode_seq(values@);
            lemma_elem_max_count_bound::<T>();
        }
        let count = values.len();
        let length = #[verifier::truncate] (count as i32);
        let ghost primary0 = self.smem.spec_contents();
        match self.smem.write_value::<i32>(0, &length) {
            Ok(()) => {},
            Err(e) => {
                return Err(e);
            },
        }
        let ghost with_length = self.smem.spec_contents();
        proof {
            assert(with_length.subrange(0, 4) =~= length.spec_to_bytes());
        }
        if count == 0 {
            self.cached = Vec::new();
            assert(values@ =~= Seq::<T>::empty());
            return Ok(());
        }
        if count <= self.elem_max_count {
            proof {
                lemma_small_tier_fits::<T>(count as nat);
            }
            match self.smem.write_array::<T>(4, values) {
                Ok(()) => {},
                Err(e) => {
                    return Err(e);
                },
            }
            proof {
                let after = self.smem.spec_contents();
                assert(after.subrange(0, 4) =~= with_length.subrange(0, 4));
                lemma_read_array_after_write::<T>(with_length, 4, values@);
            }
        } else {
            match self.ensure_length_smem() {
                Ok(()) => {},
                Err(e) => {
                    return Err(e);
                },
            }
            match &mut self.smem_length {
                Some(a) => {
                    match a.write_value::<i32>(0, &length) {
                        Ok(()) => {},
                        Err(e) => {
                            return Err(e);
                        },
                    }
                    assert(a.spec_contents() =~= length.spec_to_bytes());
                },
                None => {
                    return Err(SMemError::NotInitialized);
                },
            }
            match self.ensure_large_array_smem(count) {
                Ok(()) => {},
                Err(e) => {
                    return Err(e);
                },
            }
            match &mut self.smem_array {
                Some(a) => {
                    match a.write_array::<T>(0, values) {
                        Ok(()) => {},
                        Err(e) => {
                            return Err(e);
                        },
                    }
                    assert(a.spec_contents() =~= spec_encode_seq(values@));
                },
                None => {
                    return Err(SMemError::NotInitialized);
                },
            }
        }
        self.cached = slice_to_vec(values);
        Ok(())
    }

    /// Reads the element at `index`.
    pub fn read_at(&mut self, index: usize) -> (r: SMemResult<T>)
        requires
            old(self).wf(),
        ensures
            old(self).spec_read_at_post(*final(self), index, r),
    {
        proof {
            T::lemma_pod_laws();
            lemma_elem_max_count_bound::<T>();
        }
        let (count, large) = match self.stored_count() {
            Ok(p) => p,
            Err(e) => {
                return Err(e);
            },
        };
        if index >= count {
            return Err(SMemError::IndexOutOfRange { index, length: count });
        }
        let elem_size = T::size_of();
        let ghost s = elem_size as int;
        proof {
            lemma_slot_in_range(index as int, count as int, elem_size as int);
        }
        if !large {
            proof {
                lemma_small_tier_fits::<T>(count as nat);
                let p = self.spec_primary();
                assert(p.subrange(4, 4 + count * s).subrange(index * s, index * s + s) =~= p.subrange(
                    4 + index * s,
                    4 + index * s + s,
                ));
            }
            let offset = 4 + index as u64 * elem_size as u64;
            self.smem.read_value::<T>(offset)
        } else {
            assert(count * T::spec_size() <= u64::MAX) by (nonlinear_arith)
                requires
                    count <= i32::MAX,
                    T::spec_size() <= u32::MAX,
            ;
            match self.ensure_large_array_smem(count) {
                Ok(()) => {},
                Err(e) => {
                    return Err(e);
                },
            }
            match &self.smem_array {
                Some(a) => {
                    let ghost region = a.spec_contents();
                    proof {
                        if elem_size == 0 {
                            assert(region.subrange(index * s, index * s + s) =~= Seq::<
                                u8,
                            >::empty());
                        }
                    }
                    a.read_value::<T>(index as u64 * elem_size as u64)
                },
                None => Err(SMemError::NotInitialized),
            }
        }
    }

    /// Writes the element at `index` (the array must have been written with
    /// a sufficient length first).
    pub fn write_at(&mut self, index: usize, value: &T) -> (r: SMemResult<()>)
        requires
            old(self).wf(),
        ensures
            old(self).spec_write_at_post(*final(self), index, *value, r),
    {
        proof {
            T::lemma_pod_laws();
            lemma_elem_max_count_bound::<T>();
        }
        let (count, large) = match self.stored_count() {
            Ok(p) => p,
            Err(e) => {
                return Err(e);
            },
        };
        if index >= count {
            return Err(SMemError::IndexOutOfRange { index, length: count });
        }
        let elem_size = T::size_of();
        let ghost s = elem_size as int;
        proof {
            lemma_slot_in_range(index as int, count as int, s);
        }
        if !large {
            proof {
                lemma_small_tier_fits::<T>(count as nat);
            }
            let ghost p0 = self.smem.spec_contents();
            let offset = 4 + index as u64 * elem_size as u64;
            let res = self.smem.write_value::<T>(offset, value);
            proof {
                let p1 = self.smem.spec_contents();
                assert(p1.subrange(0, 4) =~= p0.subrange(0, 4));
                let old_region = p0.subrange(4, 4 + count * s);
                assert(p1.subrange(4, 4 + count * s) =~= spec_update_bytes(
                    old_region,
                    index * s,
                    value.spec_to_bytes(),
                ));
                lemma_decode_seq_update::<T>(old_region, count as nat, index as int, *value);
            }
            res
        } else {
            assert(count * T::spec_size() <= u64::MAX) by (nonlinear_arith)
                requires
                    count <= i32::MAX,
                    T::spec_size() <= u32::MAX,
            ;
            match self.ensure_large_array_smem(count) {
                Ok(()) => {},
                Err(e) => {
                    return Err(e);
                },
            }
            match &mut self.smem_array {
                Some(a) => {
                    let ghost a0 = a.spec_contents();
                    let res = a.write_value::<T>(index as u64 * elem_size as u64, value);
                    proof {
                        lemma_decode_seq_update::<T>(a0, count as nat, index as int, *value);
                    }
                    res
                },
                None => Err(SMemError::NotInitialized),
            }
        }
    }

    /// The cached array, without reading from shared memory.
    pub fn cached_value(&self) -> (r: Vec<T>)
        ensures
            r@ == self.spec_cached(),
    {
        slice_to_vec(self.cached.as_slice())
    }
}

impl<T: PodValue> ArrayDataSMemCtrler<T, InMemorySMemIF> {
    /// Creates a controller using in-memory storage (no IPC): a zeroed page,
    /// which holds an empty array, and an empty cache.
    pub fn in_memory(name: &str) -> (r: Self)
        ensures
            r.wf(),
            r.spec_name() == name@,
            r.spec_primary() == spec_zeros(PAGE_SIZE as nat),
            r.spec_primary_name() == name@,
            r.spec_primary_created(),
            r.spec_length_region() is None,
            r.spec_large() is None,
            r.spec_large_count() == 0,
            r.spec_cached() == Seq::<T>::empty(),
            r.spec_count() == 0,
            !r.spec_missing_region(),
            r.spec_read_result() == Ok::<Seq<T>, SMemError>(Seq::empty()),
    {
        let smem = open_in_memory(name, PAGE_SIZE);
        assert(smem.spec_contents() =~= spec_zeros(PAGE_SIZE as nat));
        proof {
            lemma_zero_length();
            assert(smem.spec_contents().subrange(0, 4) =~= spec_zeros(4));
        }
        Self::make(name, smem)
    }
}

/// An array written is read back: after a `write` of `values` that
/// succeeded, a `read` returns `values`, caches them, and changes no region
/// (for at most `i32::MAX` elements, whose count the stored `i32` holds).
pub proof fn lemma_array_read_after_write<T: PodValue, S: SMemIF>(
    before: ArrayDataSMemCtrler<T, S>,
    written: ArrayDataSMemCtrler<T, S>,
    values: Seq<T>,
    read: ArrayDataSMemCtrler<T, S>,
    r: SMemResult<Seq<T>>,
)
    requires
        before.wf(),
        values.len() <= i32::MAX,
        before.spec_write_post(written, values, Ok(())),
        written.spec_read_post(read, r),
    ensures
        r == Ok::<Seq<T>, SMemError>(values),
        read.spec_cached() == values,
        read.spec_read_result() == Ok::<Seq<T>, SMemError>(values),
{
}

/// An element of an array written is read back: after a `write` of
/// `values` that succeeded, `read_at(index)` gives `values[index]` for an
/// index below their count and `IndexOutOfRange` with that count above it,
/// and changes neither the regions nor the cache (for at most `i32::MAX`
/// elements).
pub proof fn lemma_array_read_at_after_write<T: PodValue, S: SMemIF>(
    before: ArrayDataSMemCtrler<T, S>,
    written: ArrayDataSMemCtrler<T, S>,
    values: Seq<T>,
    after: ArrayDataSMemCtrler<T, S>,
    index: usize,
    r: SMemResult<T>,
)
    requires
        before.wf(),
        values.len() <= i32::MAX,
        before.spec_write_post(written, values, Ok(())),
        written.spec_read_at_post(after, index, r),
    ensures
        index < values.len() ==> r == Ok::<T, SMemError>(values[index as int]),
        index >= values.len() ==> r == Err::<T, SMemError>(
            (SMemError::IndexOutOfRange { index, length: values.len() as usize }),
        ),
        after.spec_read_result() == Ok::<Seq<T>, SMemError>(values),
        after.spec_cached() == values,
{
}

/// One element of an array written can be replaced: after a `write` of
/// `values` that succeeded, `write_at(index, value)` succeeds for an index
/// below their count and the array read is then `values` with `value` at
/// `index`; above it, it fails with `IndexOutOfRange` and the array read is
/// still `values` (for at most `i32::MAX` elements).
pub proof fn lemma_array_write_at_after_write<T: PodValue, S: SMemIF>(
    before: ArrayDataSMemCtrler<T, S>,
    written: ArrayDataSMemCtrler<T, S>,
    values: Seq<T>,
    after: ArrayDataSMemCtrler<T, S>,
    index: usize,
    value: T,
    r: SMemResult<()>,
)
    requires
        before.wf(),
        values.len() <= i32::MAX,
        before.spec_write_post(written, values, Ok(())),
        written.spec_write_at_post(after, index, value, r),
    ensures
        index < values.len() ==> r is Ok && after.spec_read_result() == Ok::<Seq<T>, SMemError>(
            values.update(index as int, value),
        ),
        index >= values.len() ==> r == Err::<(), SMemError>(
            (SMemError::IndexOutOfRange { index, length: values.len() as usize }),
        ) && after.spec_read_result() == Ok::<Seq<T>, SMemError>(values),
        after.spec_cached() == values,
{
}

/// The small tier holds exactly the counts whose elements fit in the page
/// after the 4-byte length: `spec_elem_max_count` is the largest `n` with
/// `4 + n * size <= PAGE_SIZE` (none for zero-sized elements).
pub proof fn lemma_elem_max_count_is_largest_fit<T: PodValue>()
    ensures
        T::spec_size() > 0 ==> 4 + spec_elem_max_count::<T>() * T::spec_size() <= PAGE_SIZE,
        T::spec_size() > 0 ==> 4 + (spec_elem_max_count::<T>() + 1) * T::spec_size() > PAGE_SIZE,
        T::spec_size() == 0 ==> spec_elem_max_count::<T>() == 0,
{
    if T::spec_size() > 0 {
        let s = T::spec_size() as int;
        let q = 4092int / s;
        assert(q * s <= 4092 < q * s + s) by (nonlinear_arith)
            requires
                s > 0,
                q == 4092int / s,
        ;
        assert((q + 1) * s == q * s + s) by (nonlinear_arith);
    }
}

/// An array of elements of non-zero size that fit in the page after the
/// length is written inline: the write succeeds, the primary region holds the length and then
/// the elements' bytes from offset 4, and no other region changes.
pub proof fn lemma_write_inline_when_fits<T: PodValue, S: SMemIF>(
    before: ArrayDataSMemCtrler<T, S>,
    after: ArrayDataSMemCtrler<T, S>,
    values: Seq<T>,
    r: SMemResult<()>,
)
    requires
        before.wf(),
        before.spec_write_post(after, values, r),
        T::spec_size() > 0,
        0 < values.len(),
        4 + values.len() * T::spec_size() <= PAGE_SIZE,
    ensures
        r is Ok,
        after.spec_primary() == spec_update_bytes(
            spec_update_bytes(before.spec_primary(), 0, (values.len() as i32).spec_to_bytes()),
            4,
            spec_encode_seq(values),
        ),
        after.spec_length_region() == before.spec_length_region(),
        after.spec_large() == before.spec_large(),
{
    lemma_elem_max_count_is_largest_fit::<T>();
    let n = values.len() as int;
    let s = T::spec_size() as int;
    let m = spec_elem_max_count::<T>() as int;
    if s > 0 && n > m {
        assert(n * s >= (m + 1) * s) by (nonlinear_arith)
            requires
                n >= m + 1,
                s > 0,
        ;
    }
}

} // verus!
