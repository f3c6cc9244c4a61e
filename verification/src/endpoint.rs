//! The endpoint model.
//!
//! An endpoint is a byte source or sink behind a descriptor: a regular file
//! reports a fixed length and can usually be extended and mapped; a pipe,
//! socket or terminal reports no length, cannot grow in place and cannot be
//! mapped. The model holds, as plain values, exactly what the strategy
//! selection and the executor read of an endpoint: its current contents, its
//! stream position, and the four capabilities that decide the plan.
use vstd::prelude::*;

verus! {

/// The largest length a descriptor can be extended to in one call.
pub const MAX_GROW: u64 = 0x7fff_ffff_ffff_ffff;

/// A byte endpoint: contents plus the capabilities the planner probes.
#[derive(Debug)]
pub struct Endpoint {
    /// The bytes the endpoint currently holds (for a stream: the bytes it
    /// will deliver or has accepted).
    pub data: Vec<u8>,
    /// The current stream position; reads and writes start here.
    pub pos: usize,
    /// Whether the endpoint reports a fixed, known length (a regular file).
    pub sized: bool,
    /// Whether the endpoint's length can be extended in place.
    pub growable: bool,
    /// Whether the kernel would accept a memory mapping over it.
    pub mappable: bool,
    /// Whether its descriptor is open for both reading and writing.
    pub rw: bool,
}

impl Endpoint {
    /// The stream position never passes the end of the contents.
    pub open spec fn wf(&self) -> bool {
        self.pos <= self.data@.len()
    }

    /// An endpoint with the given contents and capabilities, at position
    /// zero.
    pub fn new(data: Vec<u8>, sized: bool, growable: bool, mappable: bool, rw: bool) -> (r:
        Endpoint)
        ensures
            r.wf(),
            r.data@ == data@,
            r.pos == 0,
            r.sized == sized,
            r.growable == growable,
            r.mappable == mappable,
            r.rw == rw,
    {
        Endpoint { data, pos: 0, sized, growable, mappable, rw }
    }

    /// A regular file open read-write: sized, growable and mappable.
    pub fn regular_file(data: Vec<u8>) -> (r: Endpoint)
        ensures
            r.wf(),
            r.data@ == data@,
            r.pos == 0,
            r.sized && r.growable && r.mappable && r.rw,
    {
        Endpoint::new(data, true, true, true, true)
    }

    /// A pipe: unsized, not growable, not mappable.
    pub fn pipe(data: Vec<u8>) -> (r: Endpoint)
        ensures
            r.wf(),
            r.data@ == data@,
            r.pos == 0,
            !r.sized && !r.growable && !r.mappable && !r.rw,
    {
        Endpoint::new(data, false, false, false, false)
    }

    /// How many bytes remain between the position and the end.
    pub open spec fn spec_remaining(&self) -> nat {
        (self.data@.len() - self.pos) as nat
    }
}

/// The length the size probe reports: the exact current length of a sized
/// endpoint, nothing for one whose length cannot be known ahead of time.
pub open spec fn spec_size_of(e: Endpoint) -> Option<usize> {
    if e.sized {
        Some(e.data.len())
    } else {
        None
    }
}

/// Probe an endpoint's length.
///
/// A sized endpoint (a regular file) reports its exact current length; a
/// pipe, socket or terminal reports nothing.
pub fn raw_file_size(e: &Endpoint) -> (r: Option<usize>)
    ensures
        r == spec_size_of(*e),
{
    if e.sized {
        Some(e.data.len())
    } else {
        None
    }
}

/// Whether [`try_map_to`] succeeds: the length already covers the target, or
/// the endpoint can be extended and the target is representable.
pub open spec fn spec_grow_ok(e: Endpoint, target: usize) -> bool {
    (e.sized && e.data@.len() >= target) || (e.growable && target as u64 <= MAX_GROW)
}

/// The contents after a successful [`try_map_to`]: unchanged when the length
/// already covers the target, otherwise extended with zero bytes to exactly
/// the target.
pub open spec fn spec_grown(e: Endpoint, target: usize) -> Seq<u8> {
    if e.data@.len() >= target {
        e.data@
    } else {
        e.data@ + Seq::new((target - e.data@.len()) as nat, |i: int| 0u8)
    }
}

/// Grow an endpoint so it can be mapped at `target` bytes.
///
/// When the endpoint's known length already covers the target this succeeds
/// without touching it. Otherwise the endpoint is extended with zero bytes to
/// exactly the target — possible only where it is growable. A `false` answer
/// means "this endpoint cannot be mapped at this size", never a fatal error,
/// and leaves the endpoint exactly as it was.
pub fn try_map_to(e: &mut Endpoint, target: usize) -> (r: bool)
    requires
        old(e).wf(),
    ensures
        final(e).wf(),
        r == spec_grow_ok(*old(e), target),
        r ==> final(e).data@ == spec_grown(*old(e), target),
        !r ==> final(e).data@ == old(e).data@,
        final(e).pos == old(e).pos,
        final(e).sized == old(e).sized,
        final(e).growable == old(e).growable,
        final(e).mappable == old(e).mappable,
        final(e).rw == old(e).rw,
{
    if e.sized && e.data.len() >= target {
        return true;
    }
    if e.growable && target as u64 <= MAX_GROW {
        while e.data.len() < target
            invariant
                old(e).data@.len() <= e.data@.len(),
                e.data@.len() <= target || e.data@.len() == old(e).data@.len(),
                e.data@ == spec_grown(*old(e), target).take(e.data@.len() as int),
                e.pos == old(e).pos,
                e.sized == old(e).sized,
                e.growable == old(e).growable,
                e.mappable == old(e).mappable,
                e.rw == old(e).rw,
            decreases target - e.data@.len(),
        {
            proof {
                assert(spec_grown(*old(e), target).len() == target || old(e).data@.len()
                    >= target);
            }
            e.data.push(0u8);
            proof {
                assert(e.data@ =~= spec_grown(*old(e), target).take(e.data@.len() as int));
            }
        }
        proof {
            if old(e).data@.len() < target {
                assert(e.data@ =~= spec_grown(*old(e), target));
            } else {
                assert(e.data@ =~= old(e).data@);
                assert(e.data@ =~= spec_grown(*old(e), target));
            }
        }
        true
    } else {
        false
    }
}

/// Re-derive a read-write descriptor for the same object, keeping the stream
/// position.
///
/// The re-derivation goes through the process's own descriptor table and
/// needs a seekable descriptor naming a reopenable object, so exactly the
/// sized endpoints qualify. On success the endpoint is read-write at the same
/// position with the same contents; on failure it is handed back untouched,
/// to be treated as unmappable — never half-substituted.
pub fn reopen_rw(e: &mut Endpoint) -> (r: bool)
    requires
        old(e).wf(),
    ensures
        final(e).wf(),
        r == old(e).sized,
        r ==> *final(e) == (Endpoint { rw: true, ..*old(e) }),
        !r ==> *final(e) == *old(e),
{
    if e.sized {
        e.rw = true;
        true
    } else {
        false
    }
}

/// The contents of a stream after writing `bytes` at position `pos`:
/// overwriting what is there and extending past the end as needed.
pub open spec fn spec_write_at(data: Seq<u8>, pos: nat, bytes: Seq<u8>) -> Seq<u8> {
    Seq::new(
        if data.len() >= pos + bytes.len() {
            data.len()
        } else {
            pos + bytes.len()
        },
        |i: int|
            if pos <= i < pos + bytes.len() {
                bytes[i - pos]
            } else {
                data[i]
            },
    )
}

/// Law: writing `a` and then `b` right after it is one write of `a` followed
/// by `b`.
pub proof fn lemma_write_at_append(data: Seq<u8>, pos: nat, a: Seq<u8>, b: Seq<u8>)
    ensures
        spec_write_at(spec_write_at(data, pos, a), pos + a.len(), b) == spec_write_at(
            data,
            pos,
            a + b,
        ),
{
    let once = spec_write_at(data, pos, a);
    let lhs = spec_write_at(once, pos + a.len(), b);
    let rhs = spec_write_at(data, pos, a + b);
    assert(lhs.len() == rhs.len());
    assert forall|i: int| 0 <= i < lhs.len() implies lhs[i] == rhs[i] by {
        if pos <= i < pos + a.len() {
            assert((a + b)[i - pos] == a[i - pos]);
        } else if pos + a.len() <= i < pos + a.len() + b.len() {
            assert((a + b)[i - pos] == b[i - pos - a.len()]);
        }
    }
    assert(lhs =~= rhs);
}

/// Write `bytes` to the endpoint at its current position, as an ordinary
/// stream write: overwrite in place, extend at the end, and move the
/// position past what was written.
pub fn write_to_endpoint(e: &mut Endpoint, bytes: &[u8]) -> (r: usize)
    requires
        old(e).wf(),
        old(e).pos + bytes@.len() <= usize::MAX,
    ensures
        final(e).wf(),
        r == bytes@.len(),
        final(e).data@ == spec_write_at(old(e).data@, old(e).pos as nat, bytes@),
        final(e).pos == old(e).pos + bytes@.len(),
        final(e).sized == old(e).sized,
        final(e).growable == old(e).growable,
        final(e).mappable == old(e).mappable,
        final(e).rw == old(e).rw,
{
    let ghost target = spec_write_at(old(e).data@, old(e).pos as nat, bytes@);
    let n = bytes.len();
    let mut i: usize = 0;
    while i < n
        invariant
            i <= n,
            n == bytes@.len(),
            e.pos == old(e).pos,
            e.pos + n <= usize::MAX,
            e.sized == old(e).sized,
            e.growable == old(e).growable,
            e.mappable == old(e).mappable,
            e.rw == old(e).rw,
            target == spec_write_at(old(e).data@, old(e).pos as nat, bytes@),
            target.len() >= old(e).data@.len(),
            target.len() == if old(e).data@.len() >= old(e).pos + n {
                old(e).data@.len() as int
            } else {
                old(e).pos + n
            },
            e.data@.len() == if old(e).data@.len() >= old(e).pos + i {
                old(e).data@.len() as int
            } else {
                old(e).pos + i
            },
            forall|j: int| 0 <= j < e.data@.len() && !(old(e).pos <= j < old(e).pos + n)
                ==> e.data@[j] == target[j],
            forall|j: int| old(e).pos <= j < old(e).pos + i ==> e.data@[j] == target[j],
            old(e).pos <= e.data@.len(),
        decreases n - i,
    {
        let at = e.pos + i;
        if at < e.data.len() {
            e.data.set(at, bytes[i]);
        } else {
            e.data.push(bytes[i]);
        }
        i = i + 1;
    }
    e.pos = e.pos + n;
    proof {
        assert(e.data@ =~= target);
    }
    n
}

/// Read up to `limit` bytes from the endpoint's current position, moving the
/// position past them. An empty answer means end of input.
pub fn read_chunk(e: &mut Endpoint, limit: usize) -> (r: Vec<u8>)
    requires
        old(e).wf(),
        limit > 0,
    ensures
        final(e).wf(),
        r@.len() == if old(e).spec_remaining() < limit {
            old(e).spec_remaining()
        } else {
            limit as nat
        },
        r@ == old(e).data@.subrange(old(e).pos as int, old(e).pos + r@.len()),
        final(e).data@ == old(e).data@,
        final(e).pos == old(e).pos + r@.len(),
        final(e).sized == old(e).sized,
        final(e).growable == old(e).growable,
        final(e).mappable == old(e).mappable,
        final(e).rw == old(e).rw,
{
    let mut out: Vec<u8> = Vec::new();
    let end = if e.data.len() - e.pos < limit {
        e.data.len()
    } else {
        e.pos + limit
    };
    let mut i: usize = e.pos;
    while i < end
        invariant
            e.pos <= i <= end <= e.data@.len(),
            *e == *old(e),
            out@.len() == i - e.pos,
            out@ == e.data@.subrange(e.pos as int, i as int),
        decreases end - i,
    {
        let b = e.data[i];
        out.push(b);
        proof {
            assert(out@ =~= e.data@.subrange(e.pos as int, i + 1));
        }
        i = i + 1;
    }
    e.pos = end;
    out
}

/// Read everything from the endpoint's current position to its end, moving
/// the position to the end.
pub fn read_to_end(e: &mut Endpoint) -> (r: Vec<u8>)
    requires
        old(e).wf(),
    ensures
        final(e).wf(),
        r@ == old(e).data@.skip(old(e).pos as int),
        final(e).data@ == old(e).data@,
        final(e).pos == old(e).data@.len(),
        final(e).sized == old(e).sized,
        final(e).growable == old(e).growable,
        final(e).mappable == old(e).mappable,
        final(e).rw == old(e).rw,
{
    let mut out: Vec<u8> = Vec::new();
    let mut i: usize = e.pos;
    while i < e.data.len()
        invariant
            e.pos <= i <= e.data@.len(),
            *e == *old(e),
            out@ == e.data@.subrange(e.pos as int, i as int),
        decreases e.data@.len() - i,
    {
        let b = e.data[i];
        out.push(b);
        proof {
            assert(out@ =~= e.data@.subrange(e.pos as int, i + 1));
        }
        i = i + 1;
    }
    e.pos = e.data.len();
    proof {
        assert(out@ =~= old(e).data@.skip(old(e).pos as int));
    }
    out
}

} // verus!
