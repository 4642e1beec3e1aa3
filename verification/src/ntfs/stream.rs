//! Logical data streams over resident bytes or cluster runs, and the plan
//! by which a read of such a stream is served:
//!
//! ```text
//! file byte offset -> VCN -> run -> LCN -> volume byte offset
//! ```
//!
//! Sparse runs and bytes beyond the initialized size read as zero; bytes
//! beyond the logical size are never exposed; a VCN with no run is an
//! error rather than zeros.

use vstd::prelude::*;

use crate::ntfs::assemble::{insert_run, run_le, sort_by};
use crate::ntfs::error::NtfsError;
use crate::ntfs::runlist::{run_clusters, run_vcn, NtfsRun};

verus! {

/// How one part of a read is served.
#[derive(Debug, Clone, Copy, PartialEq, Eq, Structural)]
pub enum ReadPiece {
    /// `len` zero bytes.
    Zero(usize),
    /// `len` bytes of the resident value from index `start`.
    Resident {
        /// First index in the value.
        start: usize,
        /// Number of bytes.
        len: usize,
    },
    /// `len` bytes of the volume from byte `offset`.
    Volume {
        /// Volume byte offset.
        offset: u64,
        /// Number of bytes.
        len: usize,
    },
}

/// What backs a stream.
#[derive(Debug, Clone)]
pub enum StreamBacking {
    /// The bytes themselves.
    Resident(Vec<u8>),
    /// Cluster runs of the volume.
    Runs {
        /// Bytes per cluster (at least one).
        cluster_size: u64,
        /// The runs, in VCN order.
        runs: Vec<NtfsRun>,
        /// Bytes actually written (at most the length).
        initialized_size: u64,
    },
}

/// A stream mapping file offsets to bytes of its backing.
#[derive(Debug, Clone)]
pub struct NtfsDataStream {
    backing: StreamBacking,
    len: u64,
}

/// Number of bytes a piece serves.
pub open spec fn piece_len(p: ReadPiece) -> int {
    match p {
        ReadPiece::Zero(n) => n as int,
        ReadPiece::Resident { len, .. } => len as int,
        ReadPiece::Volume { len, .. } => len as int,
    }
}

/// Number of bytes the pieces serve together.
pub open spec fn plan_len(plan: Seq<ReadPiece>) -> int
    decreases plan.len(),
{
    if plan.len() == 0 {
        0
    } else {
        piece_len(plan[0]) + plan_len(plan.skip(1))
    }
}

/// Where byte `k` of the bytes served by `plan` comes from: `(false, 0)`
/// for a zero, `(true, i)` for byte `i` of the backing (the resident value
/// or the volume).
pub open spec fn plan_source(plan: Seq<ReadPiece>, k: int) -> (bool, int)
    decreases plan.len(),
{
    if plan.len() == 0 {
        (false, 0)
    } else if k < piece_len(plan[0]) {
        match plan[0] {
            ReadPiece::Zero(_) => (false, 0),
            ReadPiece::Resident { start, .. } => (true, start + k),
            ReadPiece::Volume { offset, .. } => (true, offset + k),
        }
    } else {
        plan_source(plan.skip(1), k - piece_len(plan[0]))
    }
}

/// The VCN just past a run, saturated at `u64::MAX`.
pub open spec fn run_end(r: NtfsRun) -> int {
    if run_vcn(r) + run_clusters(r) > u64::MAX {
        u64::MAX as int
    } else {
        run_vcn(r) + run_clusters(r)
    }
}

/// The index of the last run of `runs` starting at or before `vcn`, or -1.
pub open spec fn last_run_at(runs: Seq<NtfsRun>, vcn: int) -> int
    decreases runs.len(),
{
    if runs.len() == 0 {
        -1
    } else if run_vcn(runs.last()) <= vcn {
        runs.len() - 1
    } else {
        last_run_at(runs.drop_last(), vcn)
    }
}

/// The last run starting at or before `vcn` does so, and every run after
/// it starts later.
pub proof fn lemma_last_run_at(runs: Seq<NtfsRun>, vcn: int)
    ensures
        -1 <= last_run_at(runs, vcn) < runs.len(),
        last_run_at(runs, vcn) >= 0 ==> run_vcn(runs[last_run_at(runs, vcn)]) <= vcn,
        forall|j: int| last_run_at(runs, vcn) < j < runs.len() ==> run_vcn(#[trigger] runs[j]) > vcn,
    decreases runs.len(),
{
    if runs.len() > 0 && run_vcn(runs.last()) > vcn {
        let t = runs.drop_last();
        lemma_last_run_at(t, vcn);
        assert forall|j: int| last_run_at(runs, vcn) < j < runs.len() implies run_vcn(#[trigger] runs[j]) > vcn by {
            if j < runs.len() - 1 {
                assert(runs[j] == t[j]);
            }
        }
    }
}

/// The run holding `vcn`: the last run starting at or before it, when it
/// reaches past it.
pub open spec fn run_for(runs: Seq<NtfsRun>, vcn: int) -> Option<int> {
    let i = last_run_at(runs, vcn);
    if i >= 0 && vcn < run_end(runs[i]) {
        Some(i)
    } else {
        None
    }
}

/// Where byte `p` of a stream over `runs` with clusters of `cs` bytes and
/// `init` initialized bytes comes from (see [`plan_source`]); `None` when no
/// run holds its VCN.
pub open spec fn run_source(runs: Seq<NtfsRun>, cs: int, init: int, p: int) -> Option<(bool, int)> {
    match run_for(runs, p / cs) {
        None => None,
        Some(i) => match runs[i] {
            NtfsRun::Sparse { .. } => Some((false, 0)),
            NtfsRun::Data { vcn, lcn, .. } => if p >= init {
                Some((false, 0))
            } else {
                Some((true, lcn * cs + (p - vcn * cs)))
            },
        },
    }
}

/// A byte at `pos` in the run of `c` clusters of `cs` bytes from VCN `v`
/// (by its VCN) lies inside the run's bytes.
pub proof fn lemma_chunk(pos: int, cs: int, v: int, c: int)
    requires
        cs > 0,
        pos >= 0,
        v >= 0,
        v <= pos / cs,
        pos / cs < v + c,
    ensures
        v * cs <= pos,
        pos - v * cs < c * cs,
{
    vstd::arithmetic::div_mod::lemma_fundamental_div_mod(pos, cs);
    let q = pos / cs;
    assert(v * cs <= q * cs) by (nonlinear_arith)
        requires
            v <= q,
            cs > 0,
    ;
    assert((q + 1) * cs <= (v + c) * cs) by (nonlinear_arith)
        requires
            q + 1 <= v + c,
            cs > 0,
    ;
    assert(pos % cs < cs);
    assert(cs * q == q * cs) by (nonlinear_arith);
    assert((q + 1) * cs == q * cs + cs) by (nonlinear_arith);
    assert((v + c) * cs == v * cs + c * cs) by (nonlinear_arith);
}

/// The pieces serving one run's part of a read at `pos`: `chunk` bytes from
/// run `r`, of which the part below `init` comes from the volume.
pub open spec fn chunk_pieces(r: NtfsRun, cs: int, init: int, pos: int, within: int, chunk: int) -> Result<
    Seq<ReadPiece>,
    NtfsError,
> {
    match r {
        NtfsRun::Sparse { .. } => Ok(seq![ReadPiece::Zero(chunk as usize)]),
        NtfsRun::Data { lcn, .. } => if pos >= init {
            Ok(seq![ReadPiece::Zero(chunk as usize)])
        } else {
            let readable = vstd::math::min(init - pos, chunk);
            if lcn * cs > u64::MAX || lcn * cs + within > u64::MAX {
                Err(NtfsError::Overflow)
            } else if readable < chunk {
                Ok(
                    seq![
                        ReadPiece::Volume { offset: (lcn * cs + within) as u64, len: readable as usize },
                        ReadPiece::Zero((chunk - readable) as usize),
                    ],
                )
            } else {
                Ok(seq![ReadPiece::Volume { offset: (lcn * cs + within) as u64, len: readable as usize }])
            }
        },
    }
}

/// The first part of serving `remaining` bytes from byte `pos` of a stream
/// over `runs` (clusters of `cs` bytes, `init` initialized bytes): the
/// pieces serving the bytes held by the run holding the first byte's VCN,
/// up to that run's end, and their number; an error for a VCN no run holds,
/// or for byte offsets that do not fit in 64 bits.
pub open spec fn first_step(runs: Seq<NtfsRun>, cs: int, init: int, pos: int, remaining: int) -> Result<
    (Seq<ReadPiece>, int),
    NtfsError,
> {
    match run_for(runs, pos / cs) {
        None => Err(NtfsError::MissingExtent { vcn: (pos / cs) as u64 }),
        Some(i) => {
            let r = runs[i];
            if run_vcn(r) * cs > u64::MAX || run_clusters(r) * cs > u64::MAX {
                Err(NtfsError::Overflow)
            } else {
                let within = pos - run_vcn(r) * cs;
                let chunk = vstd::math::min(run_clusters(r) * cs - within, remaining);
                match chunk_pieces(r, cs, init, pos, within, chunk) {
                    Err(e) => Err(e),
                    Ok(p) => Ok((p, chunk)),
                }
            }
        },
    }
}

/// Each first step serves at least one byte, and no more than asked.
pub proof fn lemma_first_step_progress(runs: Seq<NtfsRun>, cs: int, init: int, pos: int, remaining: int)
    requires
        remaining > 0,
        cs > 0,
        pos >= 0,
    ensures
        first_step(runs, cs, init, pos, remaining) matches Ok((p, chunk)) ==> 1 <= chunk <= remaining,
{
    lemma_last_run_at(runs, pos / cs);
    match run_for(runs, pos / cs) {
        Some(i) => {
            let r = runs[i];
            lemma_chunk(pos, cs, run_vcn(r) as int, run_clusters(r) as int);
        },
        None => {},
    }
}

/// How `remaining` bytes from byte `pos` of a stream over `runs` (clusters
/// of `cs` bytes, `init` initialized bytes) are served: first step after
/// first step (see [`first_step`]), the first error ending the plan.
pub open spec fn plan_from(runs: Seq<NtfsRun>, cs: int, init: int, pos: int, remaining: int) -> Result<
    Seq<ReadPiece>,
    NtfsError,
>
    decreases remaining,
{
    if remaining <= 0 || cs <= 0 || pos < 0 {
        Ok(Seq::empty())
    } else {
        proof {
            lemma_first_step_progress(runs, cs, init, pos, remaining);
        }
        match first_step(runs, cs, init, pos, remaining) {
            Err(e) => Err(e),
            Ok((p, chunk)) => then_plan(p, plan_from(runs, cs, init, pos + chunk, remaining - chunk)),
        }
    }
}

/// `p` followed by the pieces of `r`, or the error of `r`.
pub open spec fn then_plan(p: Seq<ReadPiece>, r: Result<Seq<ReadPiece>, NtfsError>) -> Result<
    Seq<ReadPiece>,
    NtfsError,
> {
    match r {
        Ok(q) => Ok(p + q),
        Err(e) => Err(e),
    }
}

impl NtfsDataStream {
    /// The backing.
    pub closed spec fn spec_backing(&self) -> StreamBacking {
        self.backing
    }

    /// The logical length.
    pub closed spec fn spec_len(&self) -> u64 {
        self.len
    }

    /// Whether the stream is well formed: a resident value of the stream's
    /// length, or runs in VCN order with clusters of at least one byte and
    /// no more initialized bytes than the length.
    pub open spec fn wf(&self) -> bool {
        match self.spec_backing() {
            StreamBacking::Resident(v) => v@.len() == self.spec_len() && self.spec_len() <= usize::MAX,
            StreamBacking::Runs { cluster_size, runs, initialized_size } => {
                &&& cluster_size >= 1
                &&& initialized_size <= self.spec_len()
                &&& forall|i: int, j: int|
                    0 <= i <= j < runs@.len() ==> run_vcn(#[trigger] runs@[i]) <= run_vcn(
                        #[trigger] runs@[j],
                    )
            },
        }
    }

    /// A stream over resident bytes.
    pub fn resident(value: Vec<u8>) -> (s: Self)
        ensures
            s.wf(),
            s.spec_len() == value@.len(),
            s.spec_backing() matches StreamBacking::Resident(v) && v@ == value@,
    {
        let len = value.len() as u64;
        NtfsDataStream { backing: StreamBacking::Resident(value), len }
    }

    /// A stream of `len` bytes over `runs` (put in VCN order, stably) with
    /// clusters of `cluster_size` bytes (one when zero), of which the first
    /// `initialized_size` (at most `len`) were written.
    pub fn non_resident(cluster_size: u32, runs: Vec<NtfsRun>, len: u64, initialized_size: u64) -> (s:
        Self)
        ensures
            s.wf(),
            s.spec_len() == len,
            s.spec_backing() matches StreamBacking::Runs { cluster_size: c, runs: r, initialized_size: i }
                && c == (if cluster_size == 0 {
                1
            } else {
                cluster_size as u64
            }) && r@ == sort_by(runs@, |a: NtfsRun, b: NtfsRun| run_le(a, b)) && i == vstd::math::min(
                initialized_size as int,
                len as int,
            ),
    {
        let ghost orig = runs@;
        let ghost le = |a: NtfsRun, b: NtfsRun| run_le(a, b);
        let n = runs.len();
        let mut sorted: Vec<NtfsRun> = Vec::new();
        let mut i: usize = 0;
        while i < n
            invariant
                n == orig.len(),
                runs@ == orig,
                i <= n,
                le == (|a: NtfsRun, b: NtfsRun| run_le(a, b)),
                sorted@ == sort_by(orig.take(i as int), le),
                forall|a: int, b: int|
                    0 <= a <= b < sorted@.len() ==> run_vcn(#[trigger] sorted@[a]) <= run_vcn(
                        #[trigger] sorted@[b],
                    ),
            decreases n - i,
        {
            assert(orig.take(i + 1).drop_last() =~= orig.take(i as int));
            assert(orig.take(i + 1).last() == runs@[i as int]);
            let ghost before = sorted@;
            let x = runs[i];
            insert_run(&mut sorted, x);
            proof {
                lemma_insert_keeps_sorted(before, x);
            }
            i = i + 1;
        }
        assert(orig.take(n as int) =~= orig);
        let cs: u64 = if cluster_size == 0 {
            1
        } else {
            cluster_size as u64
        };
        let init = if initialized_size < len {
            initialized_size
        } else {
            len
        };
        NtfsDataStream {
            backing: StreamBacking::Runs { cluster_size: cs, runs: sorted, initialized_size: init },
            len,
        }
    }

    /// Logical length in bytes.
    pub fn len(&self) -> (n: u64)
        ensures
            n == self.spec_len(),
    {
        self.len
    }

    /// Whether the stream is empty.
    pub fn is_empty(&self) -> (b: bool)
        ensures
            b == (self.spec_len() == 0),
    {
        self.len == 0
    }

    /// Whether the stream is resident.
    pub fn is_resident(&self) -> (b: bool)
        ensures
            b == (self.spec_backing() is Resident),
    {
        match &self.backing {
            StreamBacking::Resident(_) => true,
            StreamBacking::Runs { .. } => false,
        }
    }

    /// The runs backing a non-resident stream (empty when resident).
    pub fn runs(&self) -> (r: &[NtfsRun])
        ensures
            r@ == match self.spec_backing() {
                StreamBacking::Resident(_) => Seq::<NtfsRun>::empty(),
                StreamBacking::Runs { runs, .. } => runs@,
            },
    {
        match &self.backing {
            StreamBacking::Resident(_) => &[],
            StreamBacking::Runs { runs, .. } => runs.as_slice(),
        }
    }

    /// The resident value (none for a non-resident stream).
    pub fn resident_value(&self) -> (v: Option<&[u8]>)
        ensures
            match self.spec_backing() {
                StreamBacking::Resident(b) => v matches Some(x) && x@ == b@,
                StreamBacking::Runs { .. } => v is None,
            },
    {
        match &self.backing {
            StreamBacking::Resident(b) => Some(b.as_slice()),
            StreamBacking::Runs { .. } => None,
        }
    }
}

/// How a read of up to `buffer_len` bytes from `offset` of `s` is served:
/// nothing at or past the end or for an empty buffer; otherwise the bytes
/// up to the end of the stream or of the buffer, from the resident value,
/// or run by run (see [`plan_from`]).
pub open spec fn read_plan_of(s: NtfsDataStream, offset: u64, buffer_len: usize) -> Result<
    Seq<ReadPiece>,
    NtfsError,
> {
    if offset >= s.spec_len() || buffer_len == 0 {
        Ok(Seq::empty())
    } else {
        let want = vstd::math::min(s.spec_len() - offset, buffer_len as int);
        match s.spec_backing() {
            StreamBacking::Resident(_) => Ok(
                seq![ReadPiece::Resident { start: offset as usize, len: want as usize }],
            ),
            StreamBacking::Runs { cluster_size, runs, initialized_size } => plan_from(
                runs@,
                cluster_size as int,
                initialized_size as int,
                offset as int,
                want,
            ),
        }
    }
}

/// The run holding `vcn` (see [`run_for`]).
fn find_run(runs: &Vec<NtfsRun>, vcn: u64) -> (r: Option<usize>)
    ensures
        r is None <==> run_for(runs@, vcn as int) is None,
        r matches Some(i) ==> run_for(runs@, vcn as int) == Some(i as int) && i < runs@.len(),
{
    let mut k = runs.len();
    assert(runs@.take(k as int) =~= runs@);
    while k > 0 && runs[k - 1].vcn() > vcn
        invariant
            k <= runs@.len(),
            last_run_at(runs@, vcn as int) == last_run_at(runs@.take(k as int), vcn as int),
        decreases k,
    {
        assert(runs@.take(k as int).drop_last() =~= runs@.take(k - 1));
        k = k - 1;
    }
    if k == 0 {
        return None;
    }
    assert(runs@.take(k as int).last() == runs@[k - 1]);
    let i = k - 1;
    proof {
        lemma_last_run_at(runs@, vcn as int);
    }
    if vcn < runs[i].end_vcn() {
        Some(i)
    } else {
        None
    }
}

impl NtfsDataStream {
    /// The plan by which a read of up to `buffer_len` bytes from `offset`
    /// is served (see [`read_plan_of`]).
    pub fn read_plan(&self, offset: u64, buffer_len: usize) -> (r: Result<Vec<ReadPiece>, NtfsError>)
        requires
            self.wf(),
        ensures
            match read_plan_of(*self, offset, buffer_len) {
                Ok(p) => r matches Ok(v) && v@ == p,
                Err(e) => r == Err::<Vec<ReadPiece>, NtfsError>(e),
            },
    {
        if offset >= self.len || buffer_len == 0 {
            return Ok(Vec::new());
        }
        let rest = self.len - offset;
        let want: usize = if rest < buffer_len as u64 {
            rest as usize
        } else {
            buffer_len
        };
        match &self.backing {
            StreamBacking::Resident(_) => {
                let mut v = Vec::new();
                v.push(ReadPiece::Resident { start: offset as usize, len: want });
                Ok(v)
            },
            StreamBacking::Runs { cluster_size, runs, initialized_size } => {
                plan_runs(runs, *cluster_size, *initialized_size, offset, want)
            },
        }
    }
}

/// The first step at `pos` (see [`first_step`]).
fn step(runs: &Vec<NtfsRun>, cs: u64, init: u64, pos: u64, remaining: usize) -> (r: Result<
    (Vec<ReadPiece>, usize),
    NtfsError,
>)
    requires
        cs >= 1,
        remaining > 0,
    ensures
        match first_step(runs@, cs as int, init as int, pos as int, remaining as int) {
            Ok((p, chunk)) => r matches Ok((v, c)) && v@ == p && c == chunk,
            Err(e) => r == Err::<(Vec<ReadPiece>, usize), NtfsError>(e),
        },
{
    let vcn = pos / cs;
    let i = match find_run(runs, vcn) {
        None => {
            return Err(NtfsError::MissingExtent { vcn });
        },
        Some(i) => i,
    };
    let run = runs[i];
    proof {
        lemma_last_run_at(runs@, vcn as int);
        lemma_chunk(pos as int, cs as int, run_vcn(run) as int, run_clusters(run) as int);
    }
    let run_start = match run.vcn().checked_mul(cs) {
        None => {
            return Err(NtfsError::Overflow);
        },
        Some(x) => x,
    };
    let run_len = match run.clusters().checked_mul(cs) {
        None => {
            return Err(NtfsError::Overflow);
        },
        Some(x) => x,
    };
    let within = pos - run_start;
    let avail = run_len - within;
    let chunk: usize = if avail < remaining as u64 {
        avail as usize
    } else {
        remaining
    };
    let mut pieces: Vec<ReadPiece> = Vec::new();
    match run {
        NtfsRun::Sparse { .. } => {
            pieces.push(ReadPiece::Zero(chunk));
        },
        NtfsRun::Data { lcn, .. } => {
            if pos >= init {
                pieces.push(ReadPiece::Zero(chunk));
            } else {
                let readable: usize = if init - pos < chunk as u64 {
                    (init - pos) as usize
                } else {
                    chunk
                };
                let base = match lcn.checked_mul(cs) {
                    None => {
                        return Err(NtfsError::Overflow);
                    },
                    Some(x) => x,
                };
                let physical = match base.checked_add(within) {
                    None => {
                        return Err(NtfsError::Overflow);
                    },
                    Some(x) => x,
                };
                pieces.push(ReadPiece::Volume { offset: physical, len: readable });
                if readable < chunk {
                    pieces.push(ReadPiece::Zero(chunk - readable));
                }
            }
        },
    }
    Ok((pieces, chunk))
}

/// Serves `want` bytes from `offset` run by run (see [`plan_from`]).
fn plan_runs(runs: &Vec<NtfsRun>, cs: u64, init: u64, offset: u64, want: usize) -> (r: Result<
    Vec<ReadPiece>,
    NtfsError,
>)
    requires
        cs >= 1,
        offset + want <= u64::MAX,
    ensures
        match plan_from(runs@, cs as int, init as int, offset as int, want as int) {
            Ok(p) => r matches Ok(v) && v@ == p,
            Err(e) => r == Err::<Vec<ReadPiece>, NtfsError>(e),
        },
{
    let ghost whole = plan_from(runs@, cs as int, init as int, offset as int, want as int);
    let mut pieces: Vec<ReadPiece> = Vec::new();
    let mut done: usize = 0;
    while done < want
        invariant
            cs >= 1,
            offset + want <= u64::MAX,
            done <= want,
            whole == plan_from(runs@, cs as int, init as int, offset as int, want as int),
            whole == then_plan(
                pieces@,
                plan_from(runs@, cs as int, init as int, offset + done, want - done),
            ),
        decreases want - done,
    {
        let pos = offset + done as u64;
        let remaining = want - done;
        proof {
            lemma_first_step_progress(runs@, cs as int, init as int, pos as int, remaining as int);
        }
        let (mut more, chunk) = match step(runs, cs, init, pos, remaining) {
            Err(e) => {
                return Err(e);
            },
            Ok(x) => x,
        };
        let ghost before = pieces@;
        let ghost step_pieces = more@;
        pieces.append(&mut more);
        proof {
            let rest_plan = plan_from(runs@, cs as int, init as int, pos + chunk, remaining - chunk);
            match rest_plan {
                Ok(q) => {
                    assert(before + (step_pieces + q) =~= pieces@ + q);
                },
                Err(_) => {},
            }
        }
        done = done + chunk;
    }
    Ok(pieces)
}

/// Serving `p` then `q` serves as many bytes as both, byte `k` from `p`
/// while it lasts, then from `q`.
pub proof fn lemma_plan_concat(p: Seq<ReadPiece>, q: Seq<ReadPiece>, k: int)
    requires
        0 <= k,
    ensures
        plan_len(p) >= 0,
        plan_len(p + q) == plan_len(p) + plan_len(q),
        k < plan_len(p) ==> plan_source(p + q, k) == plan_source(p, k),
        k >= plan_len(p) ==> plan_source(p + q, k) == plan_source(q, k - plan_len(p)),
    decreases p.len(),
{
    if p.len() == 0 {
        assert(p + q =~= q);
    } else {
        assert((p + q).skip(1) =~= p.skip(1) + q);
        assert((p + q)[0] == p[0]);
        if k >= piece_len(p[0]) {
            lemma_plan_concat(p.skip(1), q, k - piece_len(p[0]));
        } else {
            lemma_plan_concat(p.skip(1), q, 0);
        }
    }
}

/// When run `i` starts at or before `x` and every later run after it, run
/// `i` is the last run starting at or before `x`.
pub proof fn lemma_last_run_is(runs: Seq<NtfsRun>, x: int, i: int)
    requires
        0 <= i < runs.len(),
        run_vcn(runs[i]) <= x,
        forall|j: int| i < j < runs.len() ==> run_vcn(#[trigger] runs[j]) > x,
    ensures
        last_run_at(runs, x) == i,
    decreases runs.len(),
{
    if i < runs.len() - 1 {
        let t = runs.drop_last();
        assert(run_vcn(runs[runs.len() - 1]) > x);
        assert forall|j: int| i < j < t.len() implies run_vcn(#[trigger] t[j]) > x by {
            assert(t[j] == runs[j]);
        }
        assert(t[i] == runs[i]);
        lemma_last_run_is(t, x, i);
    }
}

/// Whether the runs are in VCN order and do not overlap.
pub open spec fn runs_disjoint(runs: Seq<NtfsRun>) -> bool {
    forall|i: int, j: int| 0 <= i < j < runs.len() ==> run_end(#[trigger] runs[i]) <= run_vcn(#[trigger] runs[j])
}

proof fn lemma_div_below(a: int, cs: int, m: int)
    requires
        cs > 0,
        a >= 0,
        a < m * cs,
    ensures
        a / cs < m,
{
    vstd::arithmetic::div_mod::lemma_fundamental_div_mod(a, cs);
    let q = a / cs;
    assert(a % cs >= 0);
    if q >= m {
        assert(cs * q >= m * cs) by (nonlinear_arith)
            requires
                q >= m,
                cs > 0,
        ;
    }
}

/// Serving a read run by run gives every byte from where the stream maps
/// it: its VCN's run, the cluster in that run, the byte in that cluster
/// (zero in a sparse run or past the initialized size); a missing extent
/// is reported for the VCN of a byte no run holds. (Runs in VCN order
/// that do not overlap.)
pub proof fn lemma_plan_sources(runs: Seq<NtfsRun>, cs: int, init: int, pos: int, remaining: int)
    requires
        cs > 0,
        pos >= 0,
        remaining >= 0,
        pos + remaining <= u64::MAX,
        remaining <= usize::MAX,
        runs_disjoint(runs),
    ensures
        plan_from(runs, cs, init, pos, remaining) matches Ok(plan) ==> plan_len(plan) == remaining
            && forall|k: int|
            0 <= k < remaining ==> run_source(runs, cs, init, pos + k) == Some(
                #[trigger] plan_source(plan, k),
            ),
        plan_from(runs, cs, init, pos, remaining) matches Err(NtfsError::MissingExtent { vcn })
            ==> exists|k: int|
            0 <= k < remaining && #[trigger] run_source(runs, cs, init, pos + k) is None && (pos + k)
                / cs == vcn,
    decreases remaining,
{
    if remaining == 0 {
        return;
    }
    lemma_first_step_progress(runs, cs, init, pos, remaining);
    lemma_last_run_at(runs, pos / cs);
    match run_for(runs, pos / cs) {
        None => {
            assert(run_source(runs, cs, init, pos + 0) is None);
            assert((pos + 0) / cs == pos / cs);
        },
        Some(i) => {
            let r = runs[i];
            if run_vcn(r) * cs > u64::MAX || run_clusters(r) * cs > u64::MAX {
                return;
            }
            let within = pos - run_vcn(r) * cs;
            let chunk = vstd::math::min(run_clusters(r) * cs - within, remaining);
            lemma_chunk(pos, cs, run_vcn(r) as int, run_clusters(r) as int);
            match chunk_pieces(r, cs, init, pos, within, chunk) {
                Err(_) => {},
                Ok(p) => {
                    lemma_plan_sources(runs, cs, init, pos + chunk, remaining - chunk);
                    let rest = plan_from(runs, cs, init, pos + chunk, remaining - chunk);
                    assert(plan_len(p) == chunk) by {
                        reveal_with_fuel(plan_len, 3);
                    }
                    match rest {
                        Ok(q) => {
                            lemma_plan_concat(p, q, 0);
                            assert forall|k: int| 0 <= k < remaining implies run_source(
                                runs,
                                cs,
                                init,
                                pos + k,
                            ) == Some(#[trigger] plan_source(p + q, k)) by {
                                lemma_plan_concat(p, q, k);
                                if k < chunk {
                                    let x = (pos + k) / cs;
                                    vstd::arithmetic::div_mod::lemma_div_is_ordered(pos, pos + k, cs);
                                    assert((run_vcn(r) + run_clusters(r)) * cs == run_vcn(r) * cs
                                        + run_clusters(r) * cs) by (nonlinear_arith);
                                    lemma_div_below(pos + k, cs, run_vcn(r) + run_clusters(r));
                                    assert(x <= pos + k) by {
                                        vstd::arithmetic::div_mod::lemma_div_is_ordered(pos + k, pos + k, cs);
                                        vstd::arithmetic::div_mod::lemma_fundamental_div_mod(pos + k, cs);
                                        assert(cs * x >= x) by (nonlinear_arith)
                                            requires
                                                cs >= 1,
                                                x >= 0,
                                        ;
                                    }
                                    assert forall|j: int| i < j < runs.len() implies run_vcn(
                                        #[trigger] runs[j],
                                    ) > x by {
                                        assert(run_end(runs[i]) <= run_vcn(runs[j]));
                                    }
                                    lemma_last_run_is(runs, x, i);
                                    reveal_with_fuel(plan_source, 3);
                                    if p.len() > 1 {
                                        assert(p.skip(1)[0] == p[1]);
                                    }
                                } else {
                                    assert(pos + chunk + (k - chunk) == pos + k);
                                }
                            }
                        },
                        Err(NtfsError::MissingExtent { vcn }) => {
                            let k = choose|k: int|
                                0 <= k < remaining - chunk && #[trigger] run_source(
                                    runs,
                                    cs,
                                    init,
                                    pos + chunk + k,
                                ) is None && (pos + chunk + k) / cs == vcn;
                            assert(run_source(runs, cs, init, pos + (chunk + k)) is None);
                        },
                        Err(_) => {},
                    }
                },
            }
        },
    }
}

/// Where byte `p` of `s` comes from (see [`plan_source`]): byte `p` of a
/// resident value, or as [`run_source`] maps it.
pub open spec fn stream_source(s: NtfsDataStream, p: int) -> Option<(bool, int)> {
    match s.spec_backing() {
        StreamBacking::Resident(_) => Some((true, p)),
        StreamBacking::Runs { cluster_size, runs, initialized_size } => run_source(
            runs@,
            cluster_size as int,
            initialized_size as int,
            p,
        ),
    }
}

/// How many bytes a read of up to `buffer_len` bytes from `offset` of `s`
/// yields: none at or past the end, else up to the end of the stream or of
/// the buffer.
pub open spec fn read_len(s: NtfsDataStream, offset: u64, buffer_len: usize) -> int {
    if offset >= s.spec_len() || buffer_len == 0 {
        0
    } else {
        vstd::math::min(s.spec_len() - offset, buffer_len as int)
    }
}

/// A read of a stream yields [`read_len`] bytes, byte `k` being byte
/// `offset + k` of the stream as the stream maps it (bytes past the logical
/// size are never served); when it fails for a missing extent, some byte
/// of the read has no run. (Runs in VCN order that do not overlap.)
pub proof fn lemma_read_serves(s: NtfsDataStream, offset: u64, buffer_len: usize)
    requires
        s.wf(),
        s.spec_backing() matches StreamBacking::Runs { runs, .. } ==> runs_disjoint(runs@),
    ensures
        read_plan_of(s, offset, buffer_len) matches Ok(plan) ==> plan_len(plan) == read_len(
            s,
            offset,
            buffer_len,
        ) && forall|k: int|
            0 <= k < read_len(s, offset, buffer_len) ==> stream_source(s, offset + k) == Some(
                #[trigger] plan_source(plan, k),
            ),
        read_plan_of(s, offset, buffer_len) matches Err(NtfsError::MissingExtent { vcn }) ==> exists|
            k: int,
        |
            0 <= k < read_len(s, offset, buffer_len) && #[trigger] stream_source(s, offset + k) is None,
{
    let want = read_len(s, offset, buffer_len);
    if want > 0 {
        match s.spec_backing() {
            StreamBacking::Resident(_) => {
                let plan = seq![ReadPiece::Resident { start: offset as usize, len: want as usize }];
                assert(plan.skip(1).len() == 0);
                assert(plan_len(plan) == want) by {
                    reveal_with_fuel(plan_len, 2);
                }
            },
            StreamBacking::Runs { cluster_size, runs, initialized_size } => {
                lemma_plan_sources(
                    runs@,
                    cluster_size as int,
                    initialized_size as int,
                    offset as int,
                    want,
                );
                if read_plan_of(s, offset, buffer_len) is Err {
                    if exists|k: int|
                        0 <= k < want && #[trigger] run_source(
                            runs@,
                            cluster_size as int,
                            initialized_size as int,
                            offset + k,
                        ) is None {
                        let k = choose|k: int|
                            0 <= k < want && #[trigger] run_source(
                                runs@,
                                cluster_size as int,
                                initialized_size as int,
                                offset + k,
                            ) is None;
                        assert(stream_source(s, offset + k) is None);
                    }
                }
            },
        }
    }
}

impl NtfsDataStream {
    /// The length of the buffer a whole read of the stream needs: an error
    /// when the stream is longer than `limit` bytes, or than memory can
    /// address.
    pub fn read_all_len(&self, limit: u64) -> (r: Result<usize, NtfsError>)
        ensures
            self.spec_len() > limit ==> r == Err::<usize, NtfsError>(
                NtfsError::Unsupported("stream exceeds the in-memory limit"),
            ),
            self.spec_len() <= limit && self.spec_len() <= usize::MAX ==> r == Ok::<usize, NtfsError>(
                self.spec_len() as usize,
            ),
            self.spec_len() <= limit && self.spec_len() > usize::MAX ==> r == Err::<usize, NtfsError>(
                NtfsError::Overflow,
            ),
    {
        if self.len > limit {
            return Err(NtfsError::Unsupported("stream exceeds the in-memory limit"));
        }
        if self.len > usize::MAX as u64 {
            return Err(NtfsError::Overflow);
        }
        Ok(self.len as usize)
    }
}

/// Where a seek goes: from the start, the end or the current position.
#[derive(Debug, Clone, Copy, PartialEq, Eq, Structural)]
pub enum SeekTarget {
    /// An absolute position.
    Start(u64),
    /// A distance from the end of the stream.
    End(i64),
    /// A distance from the current position.
    Current(i64),
}

/// `base + d`, when it is a position (not below zero, not past `u64::MAX`).
pub fn add_signed(base: u64, d: i64) -> (r: Option<u64>)
    ensures
        0 <= base + d <= u64::MAX ==> r == Some((base + d) as u64),
        !(0 <= base + d <= u64::MAX) ==> r is None,
{
    if d >= 0 {
        base.checked_add(d as u64)
    } else {
        let m: u64 = ((-(d + 1)) as u64) + 1;
        if m > base {
            None
        } else {
            Some(base - m)
        }
    }
}

/// A reading position over a stream.
#[derive(Debug, Clone)]
pub struct StreamCursor {
    stream: NtfsDataStream,
    pos: u64,
}

impl StreamCursor {
    /// The stream read.
    pub closed spec fn spec_stream(&self) -> NtfsDataStream {
        self.stream
    }

    /// The position.
    pub closed spec fn spec_pos(&self) -> u64 {
        self.pos
    }

    /// A cursor at the start of `stream`.
    pub fn new(stream: NtfsDataStream) -> (c: Self)
        ensures
            c.spec_stream() == stream,
            c.spec_pos() == 0,
    {
        StreamCursor { stream, pos: 0 }
    }

    /// The underlying stream.
    pub fn stream(&self) -> (s: &NtfsDataStream)
        ensures
            *s == self.spec_stream(),
    {
        &self.stream
    }

    /// Current position.
    pub fn position(&self) -> (p: u64)
        ensures
            p == self.spec_pos(),
    {
        self.pos
    }

    /// Moves the cursor: to an absolute position, or by a distance from the
    /// end or the current position; `None` (the cursor unchanged) when the
    /// target is below zero or past `u64::MAX`.
    pub fn seek(&mut self, target: SeekTarget) -> (r: Option<u64>)
        ensures
            final(self).spec_stream() == old(self).spec_stream(),
            ({
                let t: int = match target {
                    SeekTarget::Start(p) => p as int,
                    SeekTarget::End(d) => old(self).spec_stream().spec_len() + d,
                    SeekTarget::Current(d) => old(self).spec_pos() + d,
                };
                if 0 <= t <= u64::MAX {
                    r == Some(t as u64) && final(self).spec_pos() == t
                } else {
                    r is None && final(self).spec_pos() == old(self).spec_pos()
                }
            }),
    {
        let new = match target {
            SeekTarget::Start(p) => Some(p),
            SeekTarget::End(d) => add_signed(self.stream.len(), d),
            SeekTarget::Current(d) => add_signed(self.pos, d),
        };
        match new {
            Some(p) => {
                self.pos = p;
                Some(p)
            },
            None => None,
        }
    }

    /// The plan for reading up to `buffer_len` bytes at the position (see
    /// [`read_plan_of`]).
    pub fn read_plan(&self, buffer_len: usize) -> (r: Result<Vec<ReadPiece>, NtfsError>)
        requires
            self.spec_stream().wf(),
        ensures
            match read_plan_of(self.spec_stream(), self.spec_pos(), buffer_len) {
                Ok(p) => r matches Ok(v) && v@ == p,
                Err(e) => r == Err::<Vec<ReadPiece>, NtfsError>(e),
            },
    {
        self.stream.read_plan(self.pos, buffer_len)
    }

    /// Moves past `n` bytes just read (stopping at `u64::MAX`).
    pub fn advance(&mut self, n: usize)
        ensures
            final(self).spec_stream() == old(self).spec_stream(),
            final(self).spec_pos() == vstd::math::min(old(self).spec_pos() + n, u64::MAX as int),
    {
        self.pos = match self.pos.checked_add(n as u64) {
            Some(p) => p,
            None => u64::MAX,
        };
    }
}

proof fn lemma_insert_keeps_sorted(s: Seq<NtfsRun>, x: NtfsRun)
    requires
        forall|a: int, b: int| 0 <= a <= b < s.len() ==> run_vcn(#[trigger] s[a]) <= run_vcn(#[trigger] s[b]),
    ensures
        ({
            let t = crate::ntfs::assemble::insert_by(s, x, |a: NtfsRun, b: NtfsRun| run_le(a, b));
            &&& t.len() == s.len() + 1
            &&& forall|a: int, b: int|
                0 <= a <= b < t.len() ==> run_vcn(#[trigger] t[a]) <= run_vcn(#[trigger] t[b])
        }),
    decreases s.len(),
{
    let le = |a: NtfsRun, b: NtfsRun| run_le(a, b);
    let t = crate::ntfs::assemble::insert_by(s, x, le);
    if s.len() == 0 {
    } else if le(s.last(), x) {
        assert(t == s.push(x));
        assert(t.len() == s.len() + 1);
        assert forall|a: int, b: int| 0 <= a <= b < t.len() implies run_vcn(#[trigger] t[a]) <= run_vcn(
            #[trigger] t[b],
        ) by {
            if b == s.len() && a < s.len() {
                assert(run_vcn(s[a]) <= run_vcn(s[s.len() - 1]));
            }
        }
    } else {
        let u = crate::ntfs::assemble::insert_by(s.drop_last(), x, le);
        lemma_insert_keeps_sorted(s.drop_last(), x);
        lemma_insert_elements(s.drop_last(), x, 0);
        assert(t == u.push(s.last()));
        assert forall|a: int, b: int| 0 <= a <= b < t.len() implies run_vcn(#[trigger] t[a]) <= run_vcn(
            #[trigger] t[b],
        ) by {
            if b == t.len() - 1 && a < b {
                lemma_insert_elements(s.drop_last(), x, a);
                if u[a] == x {
                } else {
                    let w = choose|w: int| 0 <= w < s.len() - 1 && s.drop_last()[w] == u[a];
                    assert(run_vcn(s[w]) <= run_vcn(s[s.len() - 1]));
                }
            }
        }
    }
}

proof fn lemma_insert_elements(s: Seq<NtfsRun>, x: NtfsRun, a: int)
    requires
        0 <= a < s.len() + 1,
    ensures
        ({
            let t = crate::ntfs::assemble::insert_by(s, x, |a: NtfsRun, b: NtfsRun| run_le(a, b));
            &&& t.len() == s.len() + 1
            &&& t[a] == x || exists|w: int| 0 <= w < s.len() && s[w] == t[a]
        }),
    decreases s.len(),
{
    let le = |a: NtfsRun, b: NtfsRun| run_le(a, b);
    let t = crate::ntfs::assemble::insert_by(s, x, le);
    if s.len() == 0 {
    } else if le(s.last(), x) {
        if a < s.len() {
            assert(s[a] == t[a]);
        }
    } else {
        let u = crate::ntfs::assemble::insert_by(s.drop_last(), x, le);
        lemma_insert_elements(s.drop_last(), x, 0);
        assert(t == u.push(s.last()));
        if a == s.len() {
            assert(t[a] == s[s.len() - 1]);
        } else {
            lemma_insert_elements(s.drop_last(), x, a);
            assert(t[a] == u[a]);
            if u[a] != x {
                let w = choose|w: int| 0 <= w < s.len() - 1 && s.drop_last()[w] == u[a];
                assert(s[w] == t[a]);
            }
        }
    }
}

} // verus!
