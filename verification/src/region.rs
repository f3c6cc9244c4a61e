//! Temporary, memory-resident mapped regions.
//!
//! When only one side of a transfer can be mapped, the work is relayed
//! through an anonymous memory file — a process-private file with no path —
//! mapped read-write. For large regions a huge-page backed file is tried
//! first and quietly replaced by a standard one when the system refuses it.
use vstd::prelude::*;

use crate::hugepages::{select, choose_hugepage_index, HugePageClass, MB};

verus! {

#[verifier::external_type_specification]
#[verifier::external_body]
#[verifier::reject_recursive_types(T)]
pub struct ExMappedFile<T>(mapped_file::MappedFile<T>);

#[verifier::external_type_specification]
#[verifier::external_body]
pub struct ExMemoryFile(mapped_file::file::memory::MemoryFile);

#[verifier::external_type_specification]
#[verifier::external_body]
pub struct ExMapHugeFlag(mapped_file::hugetlb::MapHugeFlag);

/// The bytes an anonymous memory file holds.
pub uninterp spec fn memfile_bytes(f: mapped_file::file::memory::MemoryFile) -> Seq<u8>;

/// The bytes a mapping over an anonymous memory file exposes.
pub uninterp spec fn region_bytes(
    m: mapped_file::MappedFile<mapped_file::file::memory::MemoryFile>,
) -> Seq<u8>;

/// A sequence of `n` zero bytes.
pub open spec fn zeros(n: nat) -> Seq<u8> {
    Seq::new(n, |i: int| 0u8)
}

/// Relies on `MemoryFile::with_size`: a fresh anonymous memory file
/// (`memfd_create`), extended with `ftruncate` to exactly `size` bytes,
/// which a fresh file reads back as zeros.
#[verifier::external_body]
fn memfile_with_size(size: usize) -> (r: Result<
    mapped_file::file::memory::MemoryFile,
    std::io::Error,
>)
    ensures
        r is Ok ==> memfile_bytes(r->Ok_0) == zeros(size as nat),
{
    mapped_file::file::memory::MemoryFile::with_size(size)
}

/// Relies on `MemoryFile::with_size_hugetlb`: as `with_size`, but the file is
/// backed by huge pages of the class the flag names.
#[verifier::external_body]
fn memfile_with_size_hugetlb(size: usize, flag: &mapped_file::hugetlb::MapHugeFlag) -> (r: Result<
    mapped_file::file::memory::MemoryFile,
    std::io::Error,
>)
    ensures
        r is Ok ==> memfile_bytes(r->Ok_0) == zeros(size as nat),
{
    mapped_file::file::memory::MemoryFile::with_size_hugetlb(size, *flag)
}

/// The selection policy in the callback shape `HugePage::Selected` expects:
/// a reference into the advertised list at the chosen position.
fn hugepage_entry(sizes: &[usize]) -> (r: Option<&usize>)
    ensures
        match crate::hugepages::spec_chosen_hugepage_size(sizes@) {
            Some(v) => r is Some && *r->0 == v,
            None => r is None,
        },
{
    match choose_hugepage_index(sizes) {
        Some(i) => Some(&sizes[i]),
        None => None,
    }
}

/// Relies on `HugePage::compute_huge`: the `MAP_HUGE_*` flag for a huge-page
/// class, read from the sizes the system advertises; `None` when the system
/// offers nothing suitable. The result depends on the machine, so nothing is
/// stated of it.
#[verifier::external_body]
fn compute_huge_flag(class: &HugePageClass) -> (r: Option<mapped_file::hugetlb::MapHugeFlag>) {
    let page = match class {
        HugePageClass::Smallest => mapped_file::hugetlb::HugePage::Smallest,
        HugePageClass::Selected => mapped_file::hugetlb::HugePage::Selected(hugepage_entry),
        HugePageClass::Largest => mapped_file::hugetlb::HugePage::Largest,
        HugePageClass::Dynamic { kilobytes } => mapped_file::hugetlb::HugePage::Dynamic {
            kilobytes: *kilobytes,
        },
    };
    page.compute_huge()
}

/// Relies on `MappedFile::new`: a read-write shared mapping of exactly `size`
/// bytes over the file, exposing the file's first `size` bytes; writes land
/// in the file. The requires keeps every mapped page backed by the file, so
/// that access through the mapping cannot fault.
#[verifier::external_body]
fn map_memfile(
    file: mapped_file::file::memory::MemoryFile,
    size: usize,
    huge: Option<&mapped_file::hugetlb::MapHugeFlag>,
) -> (r: Result<
    mapped_file::MappedFile<mapped_file::file::memory::MemoryFile>,
    std::io::Error,
>)
    requires
        size <= memfile_bytes(file).len(),
    ensures
        r is Ok ==> region_bytes(r->Ok_0) == memfile_bytes(file).take(size as int),
{
    match huge {
        Some(flag) => mapped_file::MappedFile::new(
            file,
            size,
            mapped_file::Perm::ReadWrite,
            mapped_file::Flags::Shared.with_hugetlb(mapped_file::hugetlb::HugePage::Static(*flag)),
        ),
        None => mapped_file::MappedFile::new(
            file,
            size,
            mapped_file::Perm::ReadWrite,
            mapped_file::Flags::Shared,
        ),
    }
}

/// Relies on `MappedFile::as_slice` over the whole mapping: the mapping's
/// bytes, copied out.
#[verifier::external_body]
fn region_to_vec(m: &mapped_file::MappedFile<mapped_file::file::memory::MemoryFile>) -> (r: Vec<
    u8,
>)
    ensures
        r@ == region_bytes(*m),
{
    m.as_slice().to_vec()
}

/// Relies on `MappedFile::as_slice_mut` and `copy_from_slice`: overwrite the
/// front of the mapping with the given bytes, leaving the rest untouched.
#[verifier::external_body]
fn region_store(
    m: &mut mapped_file::MappedFile<mapped_file::file::memory::MemoryFile>,
    bytes: &[u8],
)
    requires
        bytes@.len() <= region_bytes(*old(m)).len(),
    ensures
        region_bytes(*final(m)) == bytes@ + region_bytes(*old(m)).skip(bytes@.len() as int),
{
    m.as_slice_mut()[..bytes.len()].copy_from_slice(bytes);
}

/// Relies on `MappedFile::advise`: a hint to the memory manager about the
/// expected access pattern; it never changes the mapping's contents, and a
/// refused hint is ignored.
#[verifier::external_body]
fn region_advise_sequential(
    m: &mut mapped_file::MappedFile<mapped_file::file::memory::MemoryFile>,
    needed: Option<bool>,
)
    ensures
        region_bytes(*final(m)) == region_bytes(*old(m)),
{
    let _ = m.advise(mapped_file::Advice::Sequential, needed);
}

/// A temporary relay region of a fixed size.
///
/// A zero-sized region maps nothing (a zero-length mapping is degenerate but
/// valid); any other size owns a read-write shared mapping over an anonymous
/// memory file of exactly that size.
pub struct TempRegion {
    size: usize,
    map: Option<mapped_file::MappedFile<mapped_file::file::memory::MemoryFile>>,
}

impl TempRegion {
    /// The region's recorded size matches what its mapping exposes.
    pub closed spec fn wf(&self) -> bool {
        match self.map {
            Some(m) => region_bytes(m).len() == self.size && self.size > 0,
            None => self.size == 0,
        }
    }

    /// The bytes the region holds.
    pub closed spec fn bytes(&self) -> Seq<u8> {
        match self.map {
            Some(m) => region_bytes(m),
            None => Seq::empty(),
        }
    }

    /// A region of no bytes.
    pub fn empty() -> (r: TempRegion)
        ensures
            r.wf(),
            r.bytes() == Seq::<u8>::empty(),
    {
        TempRegion { size: 0, map: None }
    }

    /// How many bytes the region holds.
    pub fn len(&self) -> (r: usize)
        requires
            self.wf(),
        ensures
            r == self.bytes().len(),
    {
        proof {
            if self.map is None {
                assert(self.bytes().len() == 0);
            }
        }
        self.size
    }

    /// Overwrite the front of the region with `bytes`, leaving the rest as
    /// it was.
    pub fn store(&mut self, bytes: &[u8])
        requires
            old(self).wf(),
            bytes@.len() <= old(self).bytes().len(),
        ensures
            final(self).wf(),
            final(self).bytes() == bytes@ + old(self).bytes().skip(bytes@.len() as int),
    {
        match &mut self.map {
            Some(m) => {
                region_store(m, bytes);
            },
            None => {
                proof {
                    assert(bytes@ + old(self).bytes().skip(bytes@.len() as int) =~= Seq::<
                        u8,
                    >::empty());
                }
            },
        }
    }

    /// The region's bytes, copied out.
    pub fn to_vec(&self) -> (r: Vec<u8>)
        requires
            self.wf(),
        ensures
            r@ == self.bytes(),
    {
        match &self.map {
            Some(m) => region_to_vec(m),
            None => {
                let v: Vec<u8> = Vec::new();
                proof {
                    assert(v@ =~= self.bytes());
                }
                v
            },
        }
    }

    /// Hint that the region will be walked sequentially.
    pub fn advise_sequential(&mut self, needed: Option<bool>)
        requires
            old(self).wf(),
        ensures
            final(self).wf(),
            final(self).bytes() == old(self).bytes(),
    {
        match &mut self.map {
            Some(m) => {
                region_advise_sequential(m, needed);
            },
            None => {},
        }
    }
}

/// Create and map a temporary memory file of `size` bytes, zero-filled.
///
/// Sizes above one mebibyte try a huge-page backed file first, choosing the
/// class [`select`] names; when the system refuses the huge-page file or its
/// mapping, a standard anonymous file of the same size quietly takes its
/// place, and only a failure of that standard path surfaces as an error. The
/// returned flag says whether huge pages back the region.
pub fn create_sized_temp_mapping(size: usize) -> (r: Result<(TempRegion, bool), std::io::Error>)
    ensures
        size == 0 ==> r is Ok,
        r is Ok ==> r->Ok_0.0.wf() && r->Ok_0.0.bytes() == zeros(size as nat),
        r is Ok && r->Ok_0.1 ==> size > MB,
{
    if size == 0 {
        let region = TempRegion::empty();
        proof {
            assert(region.bytes() =~= zeros(0));
        }
        return Ok((region, false));
    }
    if size > MB {
        let class = select(size);
        match compute_huge_flag(&class) {
            Some(flag) => {
                match memfile_with_size_hugetlb(size, &flag) {
                    Ok(file) => {
                        proof {
                            assert(zeros(size as nat).take(size as int) =~= zeros(size as nat));
                        }
                        match map_memfile(file, size, Some(&flag)) {
                            Ok(m) => {
                                return Ok((TempRegion { size, map: Some(m) }, true));
                            },
                            Err(_) => {},
                        }
                    },
                    Err(_) => {},
                }
            },
            None => {},
        }
    }
    let file = memfile_with_size(size)?;
    proof {
        assert(zeros(size as nat).take(size as int) =~= zeros(size as nat));
    }
    let m = map_memfile(file, size, None)?;
    Ok((TempRegion { size, map: Some(m) }, false))
}

/// Create and map a temporary memory file of `size` bytes, zero-filled,
/// reporting only the region.
pub fn create_sized_basic_mapping(size: usize) -> (r: Result<TempRegion, std::io::Error>)
    ensures
        size == 0 ==> r is Ok,
        r is Ok ==> r->Ok_0.wf() && r->Ok_0.bytes() == zeros(size as nat),
{
    match create_sized_temp_mapping(size) {
        Ok((region, _)) => Ok(region),
        Err(e) => Err(e),
    }
}

} // verus!
