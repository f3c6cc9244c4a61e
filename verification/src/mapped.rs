//! Strategy selection and execution over memory mappings.
//!
//! Given two endpoints, the planner probes sizes, attempts mappings and
//! growth, and combines the outcomes into exactly one of four strategies: map
//! both sides, map one side and relay through a temporary region, or stream
//! in chunks when nothing can be mapped. A failed attempt always hands the
//! endpoint back unchanged in ownership, so falling back never leaks or
//! double-owns a resource.
use vstd::prelude::*;

use crate::cha::{xor_stream, StreamCipher};
use crate::endpoint::{
    raw_file_size,
    read_chunk,
    read_to_end,
    reopen_rw,
    spec_grow_ok,
    spec_grown,
    spec_write_at,
    try_map_to,
    write_to_endpoint,
    Endpoint,
};
use crate::region::{create_sized_basic_mapping, create_sized_temp_mapping, zeros, TempRegion};

verus! {

/// How a processing run went wrong.
#[derive(Debug)]
pub enum ProcessErrorKind {
    /// No more precise cause is known.
    Unknown,
    /// An operating-system error.
    IO(std::io::Error),
}

/// A fatal processing error, with an optional caller-supplied context note.
#[derive(Debug)]
pub struct ProcessError {
    kind: ProcessErrorKind,
    context: Option<String>,
}

impl ProcessError {
    /// Whether the error carries an operating-system cause.
    pub closed spec fn spec_is_io(&self) -> bool {
        self.kind is IO
    }

    /// The context note, as the contracts see it.
    pub closed spec fn spec_context(&self) -> Option<Seq<char>> {
        match self.context {
            Some(s) => Some(s@),
            None => None,
        }
    }

    /// An error with no known cause and no context.
    pub fn unknown() -> (r: ProcessError)
        ensures
            !r.spec_is_io(),
            r.spec_context() is None,
    {
        ProcessError { kind: ProcessErrorKind::Unknown, context: None }
    }

    /// The error's kind.
    pub fn kind(&self) -> (r: &ProcessErrorKind)
        ensures
            (*r is IO) == self.spec_is_io(),
    {
        &self.kind
    }

    /// The context note, if one was attached.
    pub fn context(&self) -> (r: Option<&String>)
        ensures
            match r {
                Some(s) => self.spec_context() == Some(s@),
                None => self.spec_context() is None,
            },
    {
        self.context.as_ref()
    }

    /// The context note, mutably.
    pub fn context_mut(&mut self) -> (r: Option<&mut String>)
        ensures
            final(self).spec_is_io() == old(self).spec_is_io(),
            r is Some <==> old(self).spec_context() is Some,
            r is None ==> *final(self) == *old(self),
            r matches Some(s) ==> old(self).spec_context() == Some(s@)
                && final(self).spec_context() == Some(final(s)@),
    {
        self.context.as_mut()
    }

    /// Consume the error into its context note.
    pub fn into_context(self) -> (r: Option<String>)
        ensures
            match r {
                Some(s) => self.spec_context() == Some(s@),
                None => self.spec_context() is None,
            },
    {
        self.context
    }
}

impl From<std::io::Error> for ProcessError {
    /// An operating-system error, with no context.
    fn from(from: std::io::Error) -> (r: ProcessError) {
        ProcessError { kind: ProcessErrorKind::IO(from), context: None }
    }
}

impl vstd::std_specs::convert::FromSpecImpl<std::io::Error> for ProcessError {
    open spec fn obeys_from_spec() -> bool {
        true
    }

    closed spec fn from_spec(from: std::io::Error) -> ProcessError {
        (ProcessError { kind: ProcessErrorKind::IO(from), context: None })
    }
}

/// Law: converting an operating-system error yields an error of that kind,
/// with no context note attached.
pub proof fn lemma_from_io_error(e: std::io::Error)
    ensures
        ({
            let r = <ProcessError as vstd::std_specs::convert::FromSpec<
                std::io::Error,
            >>::from_spec(e);
            r.spec_is_io() && r.spec_context() is None
        }),
{
}

/// A read-only, private mapping over an input endpoint.
///
/// The mapping exposes the endpoint's whole contents; being private, nothing
/// done through it is ever observed by the endpoint.
pub struct MappedInput {
    /// The endpoint the mapping covers; released unchanged when the mapping
    /// is consumed.
    pub ep: Endpoint,
}

impl MappedInput {
    /// The mapping keeps its endpoint well-formed.
    pub open spec fn wf(&self) -> bool {
        self.ep.wf()
    }

    /// The bytes the mapping exposes.
    pub open spec fn bytes(&self) -> Seq<u8> {
        self.ep.data@
    }
}

/// A read-write, shared mapping of `size` bytes over an output endpoint.
///
/// Being shared, every write through the mapping lands in the endpoint's
/// contents.
pub struct MappedOutput {
    /// The endpoint the mapping covers.
    pub ep: Endpoint,
    /// How many bytes the mapping spans.
    pub size: usize,
}

impl MappedOutput {
    /// The mapping spans no more than the endpoint holds.
    pub open spec fn wf(&self) -> bool {
        self.ep.wf() && self.size <= self.ep.data@.len()
    }

    /// The bytes the mapping exposes.
    pub open spec fn bytes(&self) -> Seq<u8> {
        self.ep.data@.take(self.size as int)
    }
}

/// Whether a read-only private mapping of an input endpoint succeeds: its
/// length must be known and the kernel must accept the mapping.
pub open spec fn spec_input_maps(e: Endpoint) -> bool {
    e.sized && e.mappable
}

/// Attempt a read-only private mapping of an input endpoint at its probed
/// size.
///
/// On failure the endpoint comes back exactly as it went in — the caller
/// keeps sole ownership and can fall back to another strategy.
pub fn try_map_sized(e: Endpoint) -> (r: Result<MappedInput, Endpoint>)
    requires
        e.wf(),
    ensures
        r is Ok <==> spec_input_maps(e),
        r is Ok ==> r->Ok_0.wf() && r->Ok_0.ep == e,
        r is Err ==> r->Err_0 == e,
{
    if e.sized && e.mappable {
        Ok(MappedInput { ep: e })
    } else {
        Err(e)
    }
}

/// Whether growing to `n` and then mapping an output endpoint read-write and
/// shared succeeds. With descriptor re-opening enabled the endpoint must be
/// seekable (sized) for the re-open to land; without it the descriptor must
/// already be open read-write.
pub open spec fn spec_output_maps(e: Endpoint, n: usize, allow_reopen: bool) -> bool {
    spec_grow_ok(e, n) && (allow_reopen ==> e.sized) && e.mappable && (allow_reopen || e.rw)
}

/// The output endpoint as it stands after a failed [`map_size_or`]: growth
/// that happened before the failing step stays, as does a successful
/// descriptor re-open, but nothing is mapped and nothing is half-done.
pub open spec fn spec_failed_output_data(e: Endpoint, n: usize) -> Seq<u8> {
    if spec_grow_ok(e, n) {
        spec_grown(e, n)
    } else {
        e.data@
    }
}

/// Whether a failed [`map_size_or`] leaves the descriptor re-opened
/// read-write.
pub open spec fn spec_failed_output_rw(e: Endpoint, n: usize, allow_reopen: bool) -> bool {
    e.rw || (allow_reopen && spec_grow_ok(e, n) && e.sized)
}

/// Grow an output endpoint to `size` bytes and map it read-write, shared.
///
/// With `allow_reopen` the endpoint's descriptor is first re-derived with
/// read-write access (an explicit opt-in; see [`reopen_rw`]). Any failure
/// hands the endpoint back unmapped: growth already performed stays — the
/// output may have been extended — but ownership returns whole to the
/// caller.
pub fn map_size_or(e: Endpoint, size: usize, allow_reopen: bool) -> (r: Result<
    MappedOutput,
    Endpoint,
>)
    requires
        e.wf(),
    ensures
        r is Ok <==> spec_output_maps(e, size, allow_reopen),
        r is Ok ==> ({
            let m = r->Ok_0;
            m.wf() && m.size == size && m.ep.data@ == spec_grown(e, size) && m.ep.pos == e.pos
                && m.ep.sized == e.sized && m.ep.growable == e.growable && m.ep.mappable
                == e.mappable && m.ep.rw == (e.rw || allow_reopen)
        }),
        r is Err ==> ({
            let b = r->Err_0;
            b.wf() && b.data@ == spec_failed_output_data(e, size) && b.pos == e.pos && b.sized
                == e.sized && b.growable == e.growable && b.mappable == e.mappable && b.rw
                == spec_failed_output_rw(e, size, allow_reopen)
        }),
{
    let mut e = e;
    if !try_map_to(&mut e, size) {
        return Err(e);
    }
    if allow_reopen {
        if !reopen_rw(&mut e) {
            return Err(e);
        }
    }
    if e.mappable && e.rw {
        Ok(MappedOutput { ep: e, size })
    } else {
        Err(e)
    }
}

/// Probe an endpoint's size and pass the endpoint on with it; an endpoint
/// whose size cannot be known is handed back instead.
pub fn sized_then_or(e: Endpoint) -> (r: Result<(Endpoint, usize), Endpoint>)
    requires
        e.wf(),
    ensures
        r is Ok <==> e.sized,
        r is Ok ==> r->Ok_0.0 == e && r->Ok_0.1 == e.data@.len(),
        r is Err ==> r->Err_0 == e,
{
    match raw_file_size(&e) {
        Some(size) => Ok((e, size)),
        None => Err(e),
    }
}

/// The four mutually exclusive execution strategies, by name.
#[derive(Debug, Clone, Copy, PartialEq, Eq, Structural)]
pub enum PlanKind {
    /// Both endpoints mapped directly.
    Both,
    /// Input mapped; output reached by copying a temporary region out.
    Input,
    /// Output mapped; input staged into a temporary region first.
    Output,
    /// Chunked buffered streaming; no mapping involved.
    Neither,
}

/// The candidate size for the output side: the input's probed size when
/// known, else the output's own probed size, else nothing.
pub open spec fn spec_candidate_size(input: Endpoint, output: Endpoint) -> Option<usize> {
    if input.sized {
        Some(input.data@.len() as usize)
    } else if output.sized {
        Some(output.data@.len() as usize)
    } else {
        None
    }
}

/// The strategy the planner picks for this endpoint pair: a pure function of
/// the two endpoints' state and the re-open opt-in.
pub open spec fn spec_plan_variant(input: Endpoint, output: Endpoint, allow_reopen: bool)
    -> PlanKind {
    let im = spec_input_maps(input);
    let om = match spec_candidate_size(input, output) {
        Some(n) => spec_output_maps(output, n, allow_reopen),
        None => false,
    };
    if im && om {
        PlanKind::Both
    } else if im {
        PlanKind::Input
    } else if om {
        PlanKind::Output
    } else {
        PlanKind::Neither
    }
}

/// The size of the temporary relay region a one-sided strategy allocates.
pub open spec fn spec_temp_size(input: Endpoint, output: Endpoint) -> nat {
    if input.sized {
        input.data@.len()
    } else if output.sized {
        output.data@.len()
    } else {
        0
    }
}

/// Law: plan selection is idempotent — two selections over endpoints in the
/// same state name the same strategy.
pub proof fn lemma_plan_selection_idempotent(
    input1: Endpoint,
    output1: Endpoint,
    input2: Endpoint,
    output2: Endpoint,
    allow_reopen: bool,
)
    requires
        input1 == input2,
        output1 == output2,
    ensures
        spec_plan_variant(input1, output1, allow_reopen) == spec_plan_variant(
            input2,
            output2,
            allow_reopen,
        ),
{
}

/// Law: a zero-length input over otherwise mappable endpoints takes the
/// whole-buffer strategy, with two zero-length mappings.
pub proof fn lemma_zero_length_input_yields_both(
    input: Endpoint,
    output: Endpoint,
    allow_reopen: bool,
)
    requires
        input.data@.len() == 0,
        spec_input_maps(input),
        spec_output_maps(output, 0, allow_reopen),
    ensures
        spec_plan_variant(input, output, allow_reopen) == PlanKind::Both,
{
}

/// Law: executing the whole-buffer strategy over a zero-length input is a
/// correct no-op — nothing is processed and the output keeps its contents.
pub proof fn lemma_zero_length_both_is_no_op(
    min: MappedInput,
    mout: MappedOutput,
    key: Seq<u8>,
    iv: Seq<u8>,
    start: nat,
)
    requires
        min.bytes().len() == 0,
    ensures
        spec_exec_processed(OpTable::Both(min, mout)) == 0,
        spec_exec_written(OpTable::Both(min, mout), key, iv, start) == mout.ep.data@,
{
    assert(xor_stream(key, iv, start, min.bytes().take(0)) =~= Seq::<u8>::empty());
    assert(mout.ep.data@.skip(0) =~= mout.ep.data@);
    assert(spec_exec_written(OpTable::Both(min, mout), key, iv, start) =~= mout.ep.data@);
}

/// Law: when neither endpoint's size can be probed, the plan always resolves
/// to the streaming fallback — the one strategy with nothing to allocate.
pub proof fn lemma_unprobed_endpoints_stream(
    input: Endpoint,
    output: Endpoint,
    allow_reopen: bool,
)
    requires
        !input.sized,
        !output.sized,
    ensures
        spec_plan_variant(input, output, allow_reopen) == PlanKind::Neither,
{
}

/// How a mapped operation should optimally take place.
pub enum OpTable {
    /// Both input and output are mapped.
    Both(MappedInput, MappedOutput),
    /// Input is mapped, but output is not: work lands in a temporary region,
    /// then is copied to the raw output.
    Input(MappedInput, TempRegion, Endpoint),
    /// Output is mapped, but input is not: raw input is staged into a
    /// temporary region, then transformed into the mapped output.
    Output(Endpoint, TempRegion, MappedOutput),
    /// Streaming mode: reads and writes only.
    Neither(Endpoint, Endpoint),
}

impl OpTable {
    /// Every payload is well-formed.
    pub open spec fn wf(&self) -> bool {
        match self {
            OpTable::Both(min, mout) => min.wf() && mout.wf(),
            OpTable::Input(min, temp, out) => min.wf() && temp.wf() && out.wf(),
            OpTable::Output(inp, temp, mout) => inp.wf() && temp.wf() && mout.wf(),
            OpTable::Neither(a, b) => a.wf() && b.wf(),
        }
    }

    /// The strategy this plan names.
    pub open spec fn spec_kind(&self) -> PlanKind {
        match self {
            OpTable::Both(..) => PlanKind::Both,
            OpTable::Input(..) => PlanKind::Input,
            OpTable::Output(..) => PlanKind::Output,
            OpTable::Neither(..) => PlanKind::Neither,
        }
    }

    /// The strategy this plan names.
    pub fn kind(&self) -> (r: PlanKind)
        ensures
            r == self.spec_kind(),
    {
        match self {
            OpTable::Both(..) => PlanKind::Both,
            OpTable::Input(..) => PlanKind::Input,
            OpTable::Output(..) => PlanKind::Output,
            OpTable::Neither(..) => PlanKind::Neither,
        }
    }

    /// Consume into either a mapping line, or the in/out pair if neither side
    /// is mapped.
    pub fn only_mapped(self) -> (r: Result<OpTable, (Endpoint, Endpoint)>)
        ensures
            self matches OpTable::Neither(a, b) ==> r == Result::<
                OpTable,
                (Endpoint, Endpoint),
            >::Err((a, b)),
            !(self is Neither) ==> r == Result::<OpTable, (Endpoint, Endpoint)>::Ok(self),
    {
        match self {
            OpTable::Neither(t, u) => Err((t, u)),
            this => Ok(this),
        }
    }
}

/// Build the optimal call table for moving `input` through the transform into
/// `output`.
///
/// The input side is probed and mapped read-only when possible; the output is
/// grown to the candidate size and mapped read-write shared when possible
/// (optionally re-opening its descriptor first, an explicit opt-in); the two
/// outcomes combine into exactly one strategy. A one-sided strategy allocates
/// its temporary relay region here, at the known size, and only that
/// allocation can fail — when nothing is mappable the chunked fallback is
/// picked, which allocates nothing and so cannot fail.
pub fn try_create_process(input: Endpoint, output: Endpoint, allow_reopen: bool) -> (r: Result<
    OpTable,
    ProcessError,
>)
    requires
        input.wf(),
        output.wf(),
    ensures
        r is Ok ==> r->Ok_0.wf() && r->Ok_0.spec_kind() == spec_plan_variant(
            input,
            output,
            allow_reopen,
        ),
        spec_plan_variant(input, output, allow_reopen) == PlanKind::Both ==> r is Ok,
        spec_plan_variant(input, output, allow_reopen) == PlanKind::Neither ==> r is Ok,
        r is Err ==> r->Err_0.spec_is_io(),
        r is Ok ==> match r->Ok_0 {
            OpTable::Both(min, mout) => min.ep == input && mout.size == spec_candidate_size(
                input,
                output,
            )->0 && mout.ep.data@ == spec_grown(output, mout.size) && mout.ep.pos == output.pos,
            OpTable::Input(min, temp, sout) => min.ep == input && temp.bytes() == zeros(
                spec_temp_size(input, output),
            ) && sout.data@ == spec_failed_output_data(
                output,
                spec_candidate_size(input, output)->0,
            ) && sout.pos == output.pos && sout.sized == output.sized && sout.growable
                == output.growable && sout.mappable == output.mappable && sout.rw
                == spec_failed_output_rw(
                output,
                spec_candidate_size(input, output)->0,
                allow_reopen,
            ),
            OpTable::Output(sin, temp, mout) => sin == input && temp.bytes() == zeros(
                spec_temp_size(input, output),
            ) && mout.size == spec_candidate_size(input, output)->0 && mout.ep.data@
                == spec_grown(output, mout.size) && mout.ep.pos == output.pos,
            OpTable::Neither(a, b) => a == input && b.pos == output.pos && b.sized
                == output.sized && b.growable == output.growable && b.mappable
                == output.mappable && b.data@ == (match spec_candidate_size(input, output) {
                Some(n) => spec_failed_output_data(output, n),
                None => output.data@,
            }) && b.rw == (match spec_candidate_size(input, output) {
                Some(n) => spec_failed_output_rw(output, n, allow_reopen),
                None => output.rw,
            }),
        },
{
    let (input_res, buffsz) = match sized_then_or(input) {
        Ok((e, isz)) => (try_map_sized(e), Some(isz)),
        Err(e) => (Err(e), None),
    };
    let candidate: Option<usize> = match buffsz {
        Some(n) => Some(n),
        None => raw_file_size(&output),
    };
    let output_res: Result<MappedOutput, Endpoint> = match candidate {
        Some(n) => map_size_or(output, n, allow_reopen),
        None => Err(output),
    };
    match (input_res, output_res) {
        (Ok(min), Ok(mout)) => Ok(OpTable::Both(min, mout)),
        (Ok(min), Err(sout)) => {
            let isz = min.ep.data.len();
            match create_sized_temp_mapping(isz) {
                Ok((temp, _)) => Ok(OpTable::Input(min, temp, sout)),
                Err(e) => Err(ProcessError::from(e)),
            }
        },
        (Err(sin), Ok(mout)) => {
            let osz = mout.size;
            match create_sized_basic_mapping(osz) {
                Ok(temp) => Ok(OpTable::Output(sin, temp, mout)),
                Err(e) => Err(ProcessError::from(e)),
            }
        },
        (Err(sin), Err(sout)) => Ok(OpTable::Neither(sin, sout)),
    }
}

/// The chunk size of the streaming fallback.
pub const BUFFER_SIZE: usize = 1024 * 1024;

/// The most bytes one cipher update accepts.
pub const UPDATE_MAX: usize = 0x7fff_ffff;

/// What executing a plan leaves behind: the byte count and the two endpoints,
/// released from their mappings.
#[derive(Debug)]
pub struct ExecOutcome {
    /// How many bytes went through the transform.
    pub processed: usize,
    /// The input endpoint, handed back.
    pub input: Endpoint,
    /// The output endpoint, holding the transformed bytes.
    pub output: Endpoint,
}

/// The smaller of two lengths.
pub open spec fn spec_min(a: nat, b: nat) -> nat {
    if a <= b {
        a
    } else {
        b
    }
}

/// How many bytes executing the plan feeds through the transform: the whole
/// remaining input for the streaming fallback, and the length both sides can
/// serve for the mapped strategies.
pub open spec fn spec_exec_processed(plan: OpTable) -> nat {
    match plan {
        OpTable::Both(min, mout) => spec_min(min.bytes().len(), mout.size as nat),
        OpTable::Input(min, temp, _) => spec_min(min.bytes().len(), temp.bytes().len()),
        OpTable::Output(_, temp, mout) => spec_min(temp.bytes().len(), mout.size as nat),
        OpTable::Neither(sin, _) => sin.spec_remaining(),
    }
}

/// The temporary region's contents after the raw input is staged into it:
/// the input's remaining bytes, then whatever the region held past them.
pub open spec fn spec_staged_temp(sin: Endpoint, temp: TempRegion) -> Seq<u8> {
    sin.data@.skip(sin.pos as int) + temp.bytes().skip(sin.spec_remaining() as int)
}

/// The output endpoint's full contents after executing the plan with a
/// cipher keyed `key`/`iv` standing at keystream position `start`.
pub open spec fn spec_exec_written(plan: OpTable, key: Seq<u8>, iv: Seq<u8>, start: nat) -> Seq<
    u8,
> {
    let n = spec_exec_processed(plan) as int;
    match plan {
        OpTable::Both(min, mout) => xor_stream(key, iv, start, min.bytes().take(n))
            + mout.ep.data@.skip(n),
        OpTable::Input(min, temp, out) => spec_write_at(
            out.data@,
            out.pos as nat,
            xor_stream(key, iv, start, min.bytes().take(n)) + temp.bytes().skip(n),
        ),
        OpTable::Output(sin, temp, mout) => xor_stream(
            key,
            iv,
            start,
            spec_staged_temp(sin, temp).take(n),
        ) + mout.ep.data@.skip(n),
        OpTable::Neither(sin, sout) => spec_write_at(
            sout.data@,
            sout.pos as nat,
            xor_stream(key, iv, start, sin.data@.skip(sin.pos as int)),
        ),
    }
}

/// `data` with its front replaced by `prefix`, in place.
fn splice_prefix(data: Vec<u8>, prefix: &[u8]) -> (r: Vec<u8>)
    requires
        prefix@.len() <= data@.len(),
    ensures
        r@ == prefix@ + data@.skip(prefix@.len() as int),
{
    let ghost data0 = data@;
    let mut data = data;
    let n = prefix.len();
    let mut i: usize = 0;
    while i < n
        invariant
            i <= n,
            n == prefix@.len() <= data@.len(),
            data@.len() == data0.len(),
            forall|j: int| 0 <= j < i ==> data@[j] == prefix@[j],
            forall|j: int| i <= j < data@.len() ==> data@[j] == data0[j],
        decreases n - i,
    {
        data.set(i, prefix[i]);
        i = i + 1;
    }
    proof {
        assert(data@ =~= prefix@ + data0.skip(n as int));
    }
    data
}

fn exec_both(min: MappedInput, mout: MappedOutput, c: &mut StreamCipher) -> (r: Result<
    ExecOutcome,
    ProcessError,
>)
    requires
        min.wf(),
        mout.wf(),
        spec_min(min.bytes().len(), mout.size as nat) <= UPDATE_MAX,
    ensures
        final(c).spec_key() == old(c).spec_key(),
        final(c).spec_iv() == old(c).spec_iv(),
        r is Err ==> r->Err_0.spec_is_io(),
        r is Ok ==> ({
            let o = r->Ok_0;
            let n = spec_min(min.bytes().len(), mout.size as nat);
            o.processed == n && o.input == min.ep && o.output.data@ == xor_stream(
                old(c).spec_key(),
                old(c).spec_iv(),
                old(c).spec_pos(),
                min.bytes().take(n as int),
            ) + mout.ep.data@.skip(n as int) && o.output.pos == mout.ep.pos && o.output.sized
                == mout.ep.sized && o.output.growable == mout.ep.growable && o.output.mappable
                == mout.ep.mappable && o.output.rw == mout.ep.rw && o.output.wf()
                && final(c).spec_pos() == old(c).spec_pos() + n
        }),
{
    let n = if min.ep.data.len() <= mout.size {
        min.ep.data.len()
    } else {
        mout.size
    };
    let src = vstd::slice::slice_subrange(min.ep.data.as_slice(), 0, n);
    proof {
        assert(src@ =~= min.bytes().take(n as int));
    }
    let transformed = match c.update(src) {
        Ok(v) => v,
        Err(e) => {
            return Err(ProcessError::from(e));
        },
    };
    let mut out_ep = mout.ep;
    out_ep.data = splice_prefix(out_ep.data, transformed.as_slice());
    Ok(ExecOutcome { processed: n, input: min.ep, output: out_ep })
}

fn exec_input(min: MappedInput, temp: TempRegion, out: Endpoint, c: &mut StreamCipher) -> (r:
    Result<ExecOutcome, ProcessError>)
    requires
        min.wf(),
        temp.wf(),
        out.wf(),
        spec_min(min.bytes().len(), temp.bytes().len()) <= UPDATE_MAX,
        out.pos + temp.bytes().len() <= usize::MAX,
    ensures
        final(c).spec_key() == old(c).spec_key(),
        final(c).spec_iv() == old(c).spec_iv(),
        r is Err ==> r->Err_0.spec_is_io(),
        r is Ok ==> ({
            let o = r->Ok_0;
            let n = spec_min(min.bytes().len(), temp.bytes().len());
            o.processed == n && o.input == min.ep && o.output.data@ == spec_write_at(
                out.data@,
                out.pos as nat,
                xor_stream(
                    old(c).spec_key(),
                    old(c).spec_iv(),
                    old(c).spec_pos(),
                    min.bytes().take(n as int),
                ) + temp.bytes().skip(n as int),
            ) && o.output.pos == out.pos + temp.bytes().len() && o.output.sized == out.sized
                && o.output.growable == out.growable && o.output.mappable == out.mappable
                && o.output.rw == out.rw && o.output.wf() && final(c).spec_pos() == old(
                c,
            ).spec_pos() + n
        }),
{
    let mut temp = temp;
    temp.advise_sequential(None);
    let n = if min.ep.data.len() <= temp.len() {
        min.ep.data.len()
    } else {
        temp.len()
    };
    let src = vstd::slice::slice_subrange(min.ep.data.as_slice(), 0, n);
    proof {
        assert(src@ =~= min.bytes().take(n as int));
    }
    let transformed = match c.update(src) {
        Ok(v) => v,
        Err(e) => {
            return Err(ProcessError::from(e));
        },
    };
    temp.store(transformed.as_slice());
    let staged = temp.to_vec();
    let mut out = out;
    write_to_endpoint(&mut out, staged.as_slice());
    Ok(ExecOutcome { processed: n, input: min.ep, output: out })
}

fn exec_output(sin: Endpoint, temp: TempRegion, mout: MappedOutput, c: &mut StreamCipher) -> (r:
    Result<ExecOutcome, ProcessError>)
    requires
        sin.wf(),
        temp.wf(),
        mout.wf(),
        spec_min(temp.bytes().len(), mout.size as nat) <= UPDATE_MAX,
    ensures
        final(c).spec_key() == old(c).spec_key(),
        final(c).spec_iv() == old(c).spec_iv(),
        sin.spec_remaining() > temp.bytes().len() ==> r is Err && !r->Err_0.spec_is_io(),
        r is Err ==> r->Err_0.spec_is_io() || sin.spec_remaining() > temp.bytes().len(),
        r is Ok ==> ({
            let o = r->Ok_0;
            let n = spec_min(temp.bytes().len(), mout.size as nat);
            o.processed == n && o.input.data@ == sin.data@ && o.input.pos == sin.data@.len()
                && o.input.sized == sin.sized && o.input.growable == sin.growable
                && o.input.mappable == sin.mappable && o.input.rw == sin.rw && o.output.data@
                == xor_stream(
                old(c).spec_key(),
                old(c).spec_iv(),
                old(c).spec_pos(),
                spec_staged_temp(sin, temp).take(n as int),
            ) + mout.ep.data@.skip(n as int) && o.output.pos == mout.ep.pos && o.output.sized
                == mout.ep.sized && o.output.growable == mout.ep.growable && o.output.mappable
                == mout.ep.mappable && o.output.rw == mout.ep.rw && o.output.wf()
                && final(c).spec_pos() == old(c).spec_pos() + n
        }),
{
    let ghost sin0 = sin;
    let mut temp = temp;
    temp.advise_sequential(Some(true));
    let ghost temp0 = temp;
    let mut sin = sin;
    let staged = read_to_end(&mut sin);
    if staged.len() > temp.len() {
        return Err(ProcessError::unknown());
    }
    temp.store(staged.as_slice());
    proof {
        assert(temp.bytes() =~= spec_staged_temp(sin0, temp0));
    }
    let n = if temp.len() <= mout.size {
        temp.len()
    } else {
        mout.size
    };
    let buf = temp.to_vec();
    let src = vstd::slice::slice_subrange(buf.as_slice(), 0, n);
    proof {
        assert(src@ =~= spec_staged_temp(sin0, temp0).take(n as int));
    }
    let transformed = match c.update(src) {
        Ok(v) => v,
        Err(e) => {
            return Err(ProcessError::from(e));
        },
    };
    let mut out_ep = mout.ep;
    out_ep.data = splice_prefix(out_ep.data, transformed.as_slice());
    Ok(ExecOutcome { processed: n, input: sin, output: out_ep })
}

fn exec_neither(sin: Endpoint, sout: Endpoint, c: &mut StreamCipher) -> (r: Result<
    ExecOutcome,
    ProcessError,
>)
    requires
        sin.wf(),
        sout.wf(),
        sout.pos + sin.spec_remaining() <= usize::MAX,
    ensures
        final(c).spec_key() == old(c).spec_key(),
        final(c).spec_iv() == old(c).spec_iv(),
        r is Err ==> r->Err_0.spec_is_io(),
        r is Ok ==> ({
            let o = r->Ok_0;
            o.processed == sin.spec_remaining() && o.input.data@ == sin.data@ && o.input.pos
                == sin.data@.len() && o.input.sized == sin.sized && o.input.growable
                == sin.growable && o.input.mappable == sin.mappable && o.input.rw == sin.rw
                && o.output.data@ == spec_write_at(
                sout.data@,
                sout.pos as nat,
                xor_stream(
                    old(c).spec_key(),
                    old(c).spec_iv(),
                    old(c).spec_pos(),
                    sin.data@.skip(sin.pos as int),
                ),
            ) && o.output.pos == sout.pos + sin.spec_remaining() && o.output.sized == sout.sized
                && o.output.growable == sout.growable && o.output.mappable == sout.mappable
                && o.output.rw == sout.rw && o.output.wf() && final(c).spec_pos() == old(
                c,
            ).spec_pos() + sin.spec_remaining()
        }),
{
    let ghost key = old(c).spec_key();
    let ghost iv = old(c).spec_iv();
    let ghost start = old(c).spec_pos();
    let ghost p0: int = sin.pos as int;
    let ghost out0 = sout.data@;
    let ghost outp0: nat = sout.pos as nat;
    let ghost sin_e = sin;
    let ghost sout_e = sout;
    let mut sin = sin;
    let mut sout = sout;
    let mut read: usize = 0;
    proof {
        assert(xor_stream(key, iv, start, sin.data@.subrange(p0, p0)) =~= Seq::<u8>::empty());
        assert(spec_write_at(out0, outp0, Seq::<u8>::empty()) =~= out0);
    }
    while sin.pos < sin.data.len()
        invariant
            sin.wf(),
            sout.wf(),
            sin.data@ == sin_e.data@,
            sin.sized == sin_e.sized,
            sin.growable == sin_e.growable,
            sin.mappable == sin_e.mappable,
            sin.rw == sin_e.rw,
            0 <= p0 <= sin.pos <= sin.data@.len(),
            read == sin.pos - p0,
            key == old(c).spec_key(),
            iv == old(c).spec_iv(),
            c.spec_key() == key,
            c.spec_iv() == iv,
            c.spec_pos() == start + read,
            sout.pos == outp0 + read,
            sout.pos + (sin.data@.len() - sin.pos) <= usize::MAX,
            sout.data@ == spec_write_at(
                out0,
                outp0,
                xor_stream(key, iv, start, sin.data@.subrange(p0, sin.pos as int)),
            ),
            sout.sized == sout_e.sized,
            sout.growable == sout_e.growable,
            sout.mappable == sout_e.mappable,
            sout.rw == sout_e.rw,
        decreases sin.data@.len() - sin.pos,
    {
        let ghost pos_before: int = sin.pos as int;
        let ghost consumed = sin.data@.subrange(p0, pos_before);
        let chunk = crate::endpoint::read_chunk(&mut sin, BUFFER_SIZE);
        let m = chunk.len();
        let transformed = match c.update(chunk.as_slice()) {
            Ok(v) => v,
            Err(e) => {
                return Err(ProcessError::from(e));
            },
        };
        proof {
            assert(transformed@ =~= xor_stream(key, iv, (start + read) as nat, chunk@));
        }
        write_to_endpoint(&mut sout, transformed.as_slice());
        proof {
            crate::cha::lemma_xor_stream_concat(key, iv, start, consumed, chunk@);
            crate::endpoint::lemma_write_at_append(
                out0,
                outp0,
                xor_stream(key, iv, start, consumed),
                xor_stream(key, iv, start + consumed.len(), chunk@),
            );
            assert(consumed + chunk@ =~= sin.data@.subrange(p0, pos_before + m));
        }
        read = read + m;
    }
    proof {
        assert(sin.data@.subrange(p0, sin.data@.len() as int) =~= sin.data@.skip(p0));
    }
    Ok(ExecOutcome { processed: read, input: sin, output: sout })
}

impl OpTable {
    /// Execute this plan: stage, transform and finalise per its strategy.
    ///
    /// Every strategy feeds the bytes both sides can serve through the cipher
    /// exactly once, in order, and leaves the transformed bytes in the output
    /// endpoint: the mapped strategies transform the whole buffer in one
    /// update, the streaming fallback walks the input in chunks of at most
    /// [`BUFFER_SIZE`] bytes until a read comes back empty. The answer is the
    /// number of bytes processed, beside the two endpoints released from
    /// their mappings.
    pub fn execute(self, c: &mut StreamCipher) -> (r: Result<ExecOutcome, ProcessError>)
        requires
            self.wf(),
            !(self is Neither) ==> spec_exec_processed(self) <= UPDATE_MAX,
            self matches OpTable::Input(_, temp, out) ==> out.pos + temp.bytes().len()
                <= usize::MAX,
            self matches OpTable::Neither(sin, sout) ==> sout.pos + sin.spec_remaining()
                <= usize::MAX,
        ensures
            final(c).spec_key() == old(c).spec_key(),
            final(c).spec_iv() == old(c).spec_iv(),
            r is Ok ==> r->Ok_0.processed == spec_exec_processed(self),
            r is Ok ==> r->Ok_0.output.data@ == spec_exec_written(
                self,
                old(c).spec_key(),
                old(c).spec_iv(),
                old(c).spec_pos(),
            ),
            r is Ok ==> final(c).spec_pos() == old(c).spec_pos() + spec_exec_processed(self),
            r is Ok ==> r->Ok_0.output.wf(),
            self matches OpTable::Output(sin, temp, _) && sin.spec_remaining()
                > temp.bytes().len() ==> r is Err,
            r is Err ==> r->Err_0.spec_is_io() || (self matches OpTable::Output(sin, temp, _)
                && sin.spec_remaining() > temp.bytes().len()),
            r is Ok ==> match self {
                OpTable::Both(min, mout) => r->Ok_0.input == min.ep && r->Ok_0.output.pos
                    == mout.ep.pos,
                OpTable::Input(min, temp, out) => r->Ok_0.input == min.ep && r->Ok_0.output.pos
                    == out.pos + temp.bytes().len(),
                OpTable::Output(sin, _, mout) => r->Ok_0.input.data@ == sin.data@
                    && r->Ok_0.input.pos == sin.data@.len() && r->Ok_0.output.pos == mout.ep.pos,
                OpTable::Neither(sin, sout) => r->Ok_0.input.data@ == sin.data@
                    && r->Ok_0.input.pos == sin.data@.len() && r->Ok_0.output.pos == sout.pos
                    + sin.spec_remaining(),
            },
    {
        match self {
            OpTable::Both(min, mout) => exec_both(min, mout, c),
            OpTable::Input(min, temp, out) => exec_input(min, temp, out, c),
            OpTable::Output(sin, temp, mout) => exec_output(sin, temp, mout, c),
            OpTable::Neither(sin, sout) => exec_neither(sin, sout, c),
        }
    }
}

/// Build the plan for this endpoint pair and execute it in one go.
///
/// Whichever of the four strategies the planner picks, a successful run
/// feeds the input's whole contents through the cipher exactly once, in
/// order, so the output's front holds exactly the transformed input. When
/// the output starts no longer than the input, that is the whole story: the
/// output holds exactly the transform and the count is the input's length.
/// A longer pre-existing output keeps its tail (the mapped-output strategy,
/// which stages into a region sized by the output's own probe, transforms
/// the staged zero padding after the input as well, and counts it). The run
/// fails only on an operating-system or cipher error, or when the
/// mapped-output strategy meets an input that outruns its relay region —
/// possible only with an output probed shorter than the input delivers.
pub fn try_process(c: &mut StreamCipher, input: Endpoint, output: Endpoint, allow_reopen: bool)
    -> (r: Result<ExecOutcome, ProcessError>)
    requires
        input.wf(),
        output.wf(),
        input.pos == 0,
        output.pos == 0,
        input.data@.len() <= UPDATE_MAX,
        output.data@.len() <= UPDATE_MAX,
    ensures
        final(c).spec_key() == old(c).spec_key(),
        final(c).spec_iv() == old(c).spec_iv(),
        r is Ok ==> r->Ok_0.output.data@.take(input.data@.len() as int) == xor_stream(
            old(c).spec_key(),
            old(c).spec_iv(),
            old(c).spec_pos(),
            input.data@,
        ),
        r is Ok ==> r->Ok_0.processed == (if spec_plan_variant(input, output, allow_reopen)
            == PlanKind::Output {
            spec_temp_size(input, output)
        } else {
            input.data@.len()
        }),
        r is Ok ==> final(c).spec_pos() == old(c).spec_pos() + r->Ok_0.processed,
        r is Ok && output.data@.len() <= input.data@.len() ==> r->Ok_0.processed
            == input.data@.len() && r->Ok_0.output.data@ == xor_stream(
            old(c).spec_key(),
            old(c).spec_iv(),
            old(c).spec_pos(),
            input.data@,
        ),
        r is Err ==> r->Err_0.spec_is_io() || (spec_plan_variant(input, output, allow_reopen)
            == PlanKind::Output && output.data@.len() < input.data@.len()),
{
    let ghost key = old(c).spec_key();
    let ghost iv = old(c).spec_iv();
    let ghost start = old(c).spec_pos();
    let ghost in0 = input;
    let ghost out0 = output;
    let plan = match try_create_process(input, output, allow_reopen) {
        Ok(p) => p,
        Err(e) => {
            return Err(e);
        },
    };
    let ghost gplan = plan;
    proof {
        let n = in0.data@.len() as int;
        match gplan {
            OpTable::Both(min, mout) => {
                assert(mout.size == n);
                assert(spec_exec_processed(gplan) == n);
            },
            OpTable::Input(min, temp, sout) => {
                assert(in0.sized);
                assert(temp.bytes().len() == n);
                assert(spec_exec_processed(gplan) == n);
            },
            OpTable::Output(sin, temp, mout) => {
                assert(temp.bytes().len() == mout.size);
                assert(spec_exec_processed(gplan) == mout.size);
                assert(mout.size as nat == spec_temp_size(in0, out0));
            },
            OpTable::Neither(..) => {},
        }
    }
    let r = match plan.execute(c) {
        Ok(o) => o,
        Err(e) => {
            proof {
                if !e.spec_is_io() {
                    match gplan {
                        OpTable::Output(sin, temp, _) => {
                            assert(sin.spec_remaining() > temp.bytes().len());
                            assert(sin == in0 && in0.pos == 0);
                            assert(temp.bytes().len() == spec_temp_size(in0, out0));
                            assert(!in0.sized);
                        },
                        _ => {
                            assert(false);
                        },
                    }
                }
            }
            return Err(e);
        },
    };
    proof {
        let n = in0.data@.len() as int;
        let expected = xor_stream(key, iv, start, in0.data@);
        match gplan {
            OpTable::Both(min, mout) => {
                assert(min.bytes().take(n) =~= in0.data@);
                assert(r.output.data@.take(n) =~= expected);
                if out0.data@.len() <= in0.data@.len() {
                    assert(mout.ep.data@.len() == n);
                    assert(mout.ep.data@.skip(n) =~= Seq::<u8>::empty());
                    assert(r.output.data@ =~= expected);
                }
            },
            OpTable::Input(min, temp, sout) => {
                assert(min.bytes().take(n) =~= in0.data@);
                assert(temp.bytes().skip(n) =~= Seq::<u8>::empty());
                assert(r.output.data@.take(n) =~= expected);
                if out0.data@.len() <= in0.data@.len() {
                    assert(sout.data@.len() <= n);
                    assert(r.output.data@ =~= expected);
                }
            },
            OpTable::Output(sin, temp, mout) => {
                // A successful run staged the whole input, so the input fits
                // the relay region, which spans the candidate size.
                let m = mout.size as int;
                assert(sin.spec_remaining() <= temp.bytes().len());
                assert(n <= m);
                assert(spec_staged_temp(sin, temp).take(m).take(n) =~= in0.data@);
                assert(r.output.data@.take(n) =~= expected);
                if out0.data@.len() <= in0.data@.len() {
                    assert(m == n);
                    assert(spec_staged_temp(sin, temp).take(n) =~= in0.data@);
                    assert(mout.ep.data@.len() == m);
                    assert(mout.ep.data@.skip(m) =~= Seq::<u8>::empty());
                    assert(r.output.data@ =~= expected);
                }
            },
            OpTable::Neither(sin, sout) => {
                assert(sin.data@.skip(0) =~= in0.data@);
                assert(r.output.data@.take(n) =~= expected);
                if out0.data@.len() <= in0.data@.len() {
                    assert(sout.data@.len() <= n);
                    assert(r.output.data@ =~= expected);
                }
            },
        }
    }
    Ok(r)
}

/// Law: two runs with the same keys, each starting its cipher at position
/// zero — one over any content, the next over the first run's output —
/// reproduce the content exactly, whatever strategy either run takes: every
/// strategy's successful run writes the transform of its input at the
/// output's front, and the transform undoes itself.
pub proof fn lemma_round_trip_across_strategies(key: Seq<u8>, iv: Seq<u8>, c: Seq<u8>, e: Seq<u8>)
    requires
        e == xor_stream(key, iv, 0, c),
    ensures
        xor_stream(key, iv, 0, e) == c,
{
    crate::cha::lemma_xor_stream_round_trip(key, iv, 0, c);
}

/// Law: over equivalent endpoints of any length, the whole-buffer strategy
/// and the chunked streaming strategy produce byte-identical output — each
/// writes exactly the transform of the input, whatever that length is.
///
/// "Equivalent" means: the mapped input exposes the same bytes the stream
/// input has left to deliver, the output mapping spans exactly that length,
/// and the stream output appends at its end.
pub proof fn lemma_neither_matches_both(
    min: MappedInput,
    mout: MappedOutput,
    sin: Endpoint,
    sout: Endpoint,
    key: Seq<u8>,
    iv: Seq<u8>,
    start: nat,
)
    requires
        min.bytes() == sin.data@.skip(sin.pos as int),
        mout.size as nat == min.bytes().len(),
        mout.ep.data@.len() == mout.size,
        sout.data@.len() == sout.pos,
    ensures
        spec_exec_written(OpTable::Both(min, mout), key, iv, start) == spec_exec_written(
            OpTable::Neither(sin, sout),
            key,
            iv,
            start,
        ).skip(sout.pos as int),
        spec_exec_written(OpTable::Both(min, mout), key, iv, start) == xor_stream(
            key,
            iv,
            start,
            min.bytes(),
        ),
{
    let n = spec_exec_processed(OpTable::Both(min, mout)) as int;
    assert(n == min.bytes().len());
    assert(min.bytes().take(n) =~= min.bytes());
    assert(mout.ep.data@.skip(n) =~= Seq::<u8>::empty());
    let both = spec_exec_written(OpTable::Both(min, mout), key, iv, start);
    assert(both =~= xor_stream(key, iv, start, min.bytes()));
    let neither = spec_exec_written(OpTable::Neither(sin, sout), key, iv, start);
    assert(neither.skip(sout.pos as int) =~= xor_stream(key, iv, start, min.bytes()));
}

} // verus!
