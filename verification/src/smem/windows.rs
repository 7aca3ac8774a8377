//! Platform-independent pieces of the Windows (named memory-mapped file)
//! backend: the rounding of a capacity to whole pages and the encoding of a
//! region name as a null-terminated UTF-16 string.
use vstd::prelude::*;
use crate::types::PAGE_SIZE;

verus! {

/// The UTF-16 code units of `c`.
pub open spec fn spec_utf16_char(c: char) -> Seq<u16> {
    let cp = c as u32;
    if cp < 0x10000 {
        seq![cp as u16]
    } else {
        let v = (cp - 0x10000) as u32;
        seq![(0xD800 + (v >> 10)) as u16, (0xDC00 + (v & 0x3FF)) as u16]
    }
}

/// The UTF-16 encoding of `s`.
pub open spec fn spec_utf16(s: Seq<char>) -> Seq<u16>
    decreases s.len(),
{
    if s.len() == 0 {
        Seq::empty()
    } else {
        spec_utf16(s.drop_last()) + spec_utf16_char(s.last())
    }
}

/// The smallest positive multiple of `PAGE_SIZE` that is at least `size`.
pub open spec fn spec_round_up_to_page(size: nat) -> nat {
    if size == 0 {
        PAGE_SIZE as nat
    } else {
        (((size + PAGE_SIZE - 1) as nat) / (PAGE_SIZE as nat)) * (PAGE_SIZE as nat)
    }
}

/// Rounds `size` up to a whole number of pages (at least one page).
pub fn round_up_to_page(size: u64) -> (r: u64)
    requires
        size <= u64::MAX - (PAGE_SIZE - 1),
    ensures
        r == spec_round_up_to_page(size as nat),
        r % PAGE_SIZE == 0,
        r > 0,
        r >= size,
        size > 0 ==> r < size + PAGE_SIZE,
{
    let page = PAGE_SIZE;
    if size == 0 {
        return page;
    }
    let q = (size - 1) / page;
    assert(q * 4096 <= size - 1 < q * 4096 + 4096) by (nonlinear_arith)
        requires
            q == (size - 1) / 4096,
            size > 0,
    ;
    assert((size + 4095) / 4096 == q + 1) by (nonlinear_arith)
        requires
            q * 4096 <= size - 1 < q * 4096 + 4096,
    ;
    let r = q * page + page;
    assert(r % 4096 == 0) by (nonlinear_arith)
        requires
            r == q * 4096 + 4096,
    ;
    assert(r == (q + 1) * 4096) by (nonlinear_arith)
        requires
            r == q * 4096 + 4096,
    ;
    r
}

/// `s` as UTF-16 code units followed by a terminating zero.
pub fn to_wide_string(s: &str) -> (r: Vec<u16>)
    ensures
        r@ == spec_utf16(s@).push(0u16),
{
    let mut out: Vec<u16> = Vec::new();
    let n = s.unicode_len();
    for i in 0..n
        invariant
            n == s@.len(),
            out@ == spec_utf16(s@.take(i as int)),
    {
        let c = s.get_char(i);
        let cp = c as u32;
        if cp < 0x10000 {
            out.push(cp as u16);
        } else {
            let v = cp - 0x10000;
            assert((v >> 10) <= 0x3FF && (v & 0x3FF) <= 0x3FF) by (bit_vector)
                requires
                    v <= 0xFFFFF,
            ;
            out.push((0xD800 + (v >> 10)) as u16);
            out.push((0xDC00 + (v & 0x3FF)) as u16);
        }
        assert(s@.take(i + 1).drop_last() =~= s@.take(i as int));
        assert(out@ =~= spec_utf16(s@.take(i + 1)));
    }
    assert(s@.take(n as int) =~= s@);
    out.push(0);
    out
}

} // verus!
