//! Huge-page selection policy.
//!
//! A mapping request names a huge-page class; the class is a pure sizing
//! policy chosen from the requested byte size alone, so that large transfers
//! pay less address-translation overhead while small ones keep allocation
//! granularity.
use vstd::prelude::*;

verus! {

/// One mebibyte.
pub const MB: usize = 1024 * 1024;

/// One gibibyte.
pub const GB: usize = 1024 * 1024 * 1024;

/// Requests at or above this many kilobytes prefer a dedicated huge-page
/// class when one is advertised by the system.
pub const HUGE_SELECT_THRESHOLD_KB: usize = 1024 * 1024;

/// A huge-page class for a mapping request.
///
/// The class only names a sizing policy; it owns nothing. `Selected` defers
/// the concrete size to the system's advertised list (see
/// [`choose_hugepage_size`]), `Dynamic` asks for an explicit size in
/// kilobytes.
#[derive(Debug, Clone, Copy, PartialEq, Eq, Structural)]
pub enum HugePageClass {
    /// The smallest huge-page size the system supports.
    Smallest,
    /// A size picked from the system's advertised huge-page sizes.
    Selected,
    /// The largest huge-page size the system supports.
    Largest,
    /// An explicit size in kilobytes.
    Dynamic { kilobytes: usize },
}

/// The class [`select`] returns for a request of `size` bytes.
pub open spec fn spec_select(size: usize) -> HugePageClass {
    if size < MB {
        HugePageClass::Smallest
    } else if size <= GB {
        HugePageClass::Selected
    } else {
        HugePageClass::Largest
    }
}

/// Choose a huge-page class for a mapping of `size` bytes.
///
/// Sizes below one mebibyte stay on the smallest class, where mapping
/// overhead is not worth a large page; sizes from one mebibyte up to one
/// gibibyte pick from the system's advertised sizes; anything larger takes
/// the largest class.
pub fn select(size: usize) -> (r: HugePageClass)
    ensures
        r == spec_select(size),
{
    if size < MB {
        HugePageClass::Smallest
    } else if size <= GB {
        HugePageClass::Selected
    } else {
        HugePageClass::Largest
    }
}

/// The first entry of `sizes` that is at least [`HUGE_SELECT_THRESHOLD_KB`],
/// scanning front to back.
pub open spec fn spec_first_large(sizes: Seq<usize>) -> Option<usize>
    decreases sizes.len(),
{
    if sizes.len() == 0 {
        None
    } else if sizes[0] >= HUGE_SELECT_THRESHOLD_KB {
        Some(sizes[0])
    } else {
        spec_first_large(sizes.skip(1))
    }
}

/// The size [`choose_hugepage_size`] picks from an advertised list.
pub open spec fn spec_chosen_hugepage_size(sizes: Seq<usize>) -> Option<usize> {
    match spec_first_large(sizes) {
        Some(v) => Some(v),
        None => if sizes.len() >= 2 {
            Some(sizes[1])
        } else if sizes.len() == 1 {
            Some(sizes[0])
        } else {
            None
        },
    }
}

/// Pick a huge-page size, in kilobytes, from the system's advertised list
/// (ordered smallest to largest).
///
/// The first size at or above [`HUGE_SELECT_THRESHOLD_KB`] wins; when none
/// qualifies the second-smallest is taken, then the smallest; an empty list
/// yields nothing.
pub fn choose_hugepage_size(sizes: &[usize]) -> (r: Option<usize>)
    ensures
        r == spec_chosen_hugepage_size(sizes@),
{
    match choose_hugepage_index(sizes) {
        Some(i) => Some(sizes[i]),
        None => None,
    }
}

/// Like [`choose_hugepage_size`], but return the position of the chosen size
/// in the list instead of the size itself.
pub fn choose_hugepage_index(sizes: &[usize]) -> (r: Option<usize>)
    ensures
        match spec_chosen_hugepage_size(sizes@) {
            Some(v) => r is Some && r->0 < sizes@.len() && sizes@[r->0 as int] == v,
            None => r is None,
        },
{
    let n = sizes.len();
    let mut i: usize = 0;
    proof {
        assert(sizes@.skip(0) =~= sizes@);
    }
    while i < n
        invariant
            i <= n,
            n == sizes@.len(),
            spec_first_large(sizes@) == spec_first_large(sizes@.skip(i as int)),
        decreases n - i,
    {
        proof {
            assert(sizes@.skip(i as int)[0] == sizes@[i as int]);
            assert(sizes@.skip(i as int).skip(1) =~= sizes@.skip(i as int + 1));
        }
        if sizes[i] >= HUGE_SELECT_THRESHOLD_KB {
            return Some(i);
        }
        i = i + 1;
    }
    proof {
        assert(sizes@.skip(n as int).len() == 0);
    }
    if n >= 2 {
        Some(1)
    } else if n == 1 {
        Some(0)
    } else {
        None
    }
}

} // verus!
