//! The firmware-update ingestion pipeline: multipart de-framing of the
//! inbound byte stream, chunk by chunk, and the update session state
//! machine driving the partition-flashing sink through
//! `Receiving -> Finalizing -> {Committed | Aborted}`.

use vstd::prelude::*;
use crate::bytesearch::contains_seq;
use crate::bytesearch::find_bytes;
use crate::bytesearch::find_first;
use crate::bytesearch::find_last;
use crate::bytesearch::lemma_find_first;
use crate::bytesearch::lemma_find_last;
use crate::bytesearch::rfind_bytes;
use vstd::slice::slice_subrange;
use vstd::slice::slice_to_vec;

verus! {

/// The two-byte line break of the multipart envelope.
pub open spec fn crlf() -> Seq<u8> {
    seq![13u8, 10u8]
}

/// The blank line separating a part's header block from its body.
pub open spec fn header_sep() -> Seq<u8> {
    seq![13u8, 10u8, 13u8, 10u8]
}

/// The start of a closing boundary marker: a line break followed by two
/// dashes.
pub open spec fn trail_mark() -> Seq<u8> {
    seq![13u8, 10u8, 45u8, 45u8]
}

/// What survives of one received chunk: bytes before and including the
/// first header/body separator are discarded as multipart headers, bytes
/// from the last closing-marker position onward are discarded as trailer.
/// A chunk without a line break, or without the boundary token, is taken
/// whole — it is a continuation chunk carrying only body bytes. This is a
/// chunk-local strategy: it assumes framing markers do not straddle chunk
/// boundaries.
pub open spec fn deframe(buf: Seq<u8>, boundary: Seq<u8>) -> Seq<u8> {
    if (find_first(buf, crlf()) is None) || (find_first(buf, boundary) is None) {
        buf
    } else {
        let left = match find_first(buf, header_sep()) {
            Some(i) => i + 4,
            None => 0,
        };
        let right = match find_last(buf, trail_mark()) {
            Some(i) => i,
            None => buf.len() as int,
        };
        if left <= right {
            buf.subrange(left, right)
        } else {
            Seq::empty()
        }
    }
}

fn crlf_bytes() -> (v: Vec<u8>)
    ensures
        v@ == crlf(),
{
    let mut v: Vec<u8> = Vec::new();
    v.push(13);
    v.push(10);
    proof {
        assert(v@ =~= crlf());
    }
    v
}

fn header_sep_bytes() -> (v: Vec<u8>)
    ensures
        v@ == header_sep(),
{
    let mut v: Vec<u8> = Vec::new();
    v.push(13);
    v.push(10);
    v.push(13);
    v.push(10);
    proof {
        assert(v@ =~= header_sep());
    }
    v
}

fn trail_mark_bytes() -> (v: Vec<u8>)
    ensures
        v@ == trail_mark(),
{
    let mut v: Vec<u8> = Vec::new();
    v.push(13);
    v.push(10);
    v.push(45);
    v.push(45);
    proof {
        assert(v@ =~= trail_mark());
    }
    v
}

/// Strips the multipart framing a single chunk carries and returns the
/// surviving body bytes.
pub fn extract_payload<'a>(buf: &'a [u8], boundary: &[u8]) -> (r: &'a [u8])
    ensures
        r@ == deframe(buf@, boundary@),
{
    let crlf_v = crlf_bytes();
    if find_bytes(buf, crlf_v.as_slice()).is_none() {
        return buf;
    }
    if find_bytes(buf, boundary).is_none() {
        return buf;
    }
    let n = buf.len();
    let sep_v = header_sep_bytes();
    let left: usize = match find_bytes(buf, sep_v.as_slice()) {
        Some(i) => {
            proof {
                lemma_find_first(buf@, header_sep());
                assert(i + 4 <= n);
            }
            i + 4
        },
        None => 0,
    };
    let trail_v = trail_mark_bytes();
    let right: usize = match rfind_bytes(buf, trail_v.as_slice()) {
        Some(i) => {
            proof {
                lemma_find_last(buf@, trail_mark());
            }
            i
        },
        None => buf.len(),
    };
    if left <= right {
        slice_subrange(buf, left, right)
    } else {
        let empty = slice_subrange(buf, 0, 0);
        proof {
            assert(empty@ =~= Seq::<u8>::empty());
        }
        empty
    }
}

/// The byte that separates attribute and value in a content-type header.
pub open spec fn eq_mark() -> Seq<u8> {
    seq![61u8]
}

/// The boundary token of a content-type header: the bytes after its
/// equals sign, provided the header holds exactly one equals sign.
pub open spec fn boundary_of(header: Seq<u8>) -> Option<Seq<u8>> {
    match find_first(header, eq_mark()) {
        Some(i) => if find_first(header.subrange(i + 1, header.len() as int), eq_mark()) is None {
            Some(header.subrange(i + 1, header.len() as int))
        } else {
            None
        },
        None => None,
    }
}

/// Parses the boundary token out of a content-type header value. Fails
/// exactly when the header does not hold exactly one equals sign.
pub fn get_boundary(content_type: &[u8]) -> (r: Option<Vec<u8>>)
    ensures
        match r {
            Some(b) => boundary_of(content_type@) == Some(b@),
            None => boundary_of(content_type@) is None,
        },
{
    let mut eq_v: Vec<u8> = Vec::new();
    eq_v.push(61);
    proof {
        assert(eq_v@ =~= eq_mark());
    }
    let n = content_type.len();
    match find_bytes(content_type, eq_v.as_slice()) {
        Some(i) => {
            proof {
                lemma_find_first(content_type@, eq_mark());
                assert(i + 1 <= n);
            }
            let rest = slice_subrange(content_type, i + 1, content_type.len());
            if find_bytes(rest, eq_v.as_slice()).is_none() {
                Some(slice_to_vec(rest))
            } else {
                None
            }
        },
        None => None,
    }
}

/// What the startup check decides for the running image.
#[derive(Debug, PartialEq, Eq, Structural, Clone, Copy)]
pub enum OtaValidationAction {
    /// Mark the running image valid, cancelling a pending rollback.
    MarkValid,
    /// Mark it invalid and reboot back to the previous image.
    MarkInvalidAndReboot,
}

/// The post-update validation decision: a freshly booted image that
/// passes its self-check is marked valid; one that fails is rolled back.
pub fn mark_app_valid(ok: bool) -> (a: OtaValidationAction)
    ensures
        a == if ok {
            OtaValidationAction::MarkValid
        } else {
            OtaValidationAction::MarkInvalidAndReboot
        },
{
    if ok {
        OtaValidationAction::MarkValid
    } else {
        OtaValidationAction::MarkInvalidAndReboot
    }
}

/// The phase an update session is in. Transitions are monotonic: no phase
/// is ever revisited, and `Committed` and `Aborted` are final.
#[derive(Debug, PartialEq, Eq, Structural, Clone, Copy)]
pub enum SessionState {
    Receiving,
    Finalizing,
    Committed,
    Aborted,
}

/// Why an update request was rejected or ended without a new image.
#[derive(Debug, PartialEq, Eq, Structural, Clone, Copy)]
pub enum UpdateFault {
    /// The request declared no content length, or a length of zero.
    MissingLength,
    /// The request carried no multipart boundary token.
    MissingBoundary,
    /// The sink failed a write; the counters tell an operator how far the
    /// transfer got before the session aborted.
    WriteFailed { bytes_received: u64, bytes_written: u64 },
    /// The sink failed the final commit; the previous image stays
    /// authoritative.
    CommitFailed,
}

/// The abstract value of an update session.
#[verifier::ext_equal]
pub struct SessionView {
    pub boundary: Seq<u8>,
    pub expected_len: u64,
    pub bytes_received: int,
    pub bytes_written: int,
    pub state: SessionState,
}

/// One observable event in the life of an update session.
pub enum UpdateEvent {
    /// A chunk of the body arrived.
    Chunk(Seq<u8>),
    /// The sink accepted this many payload bytes.
    WriteOk(int),
    /// The sink failed a write.
    WriteErr,
    /// The body was exhausted (a zero-length read).
    EndOfStream,
    /// The sink committed the new image.
    CommitOk,
    /// The sink failed the commit.
    CommitErr,
}

/// How a session moves under one event. Events that a phase does not
/// admit leave the session exactly as it is.
pub open spec fn step(s: SessionView, e: UpdateEvent) -> SessionView {
    match e {
        UpdateEvent::Chunk(c) => if s.state == SessionState::Receiving {
            SessionView { bytes_received: s.bytes_received + c.len(), ..s }
        } else {
            s
        },
        UpdateEvent::WriteOk(n) => if s.state == SessionState::Receiving && 0 <= n
            && s.bytes_written + n <= s.bytes_received {
            SessionView { bytes_written: s.bytes_written + n, ..s }
        } else {
            s
        },
        UpdateEvent::WriteErr => if s.state == SessionState::Receiving {
            SessionView { state: SessionState::Aborted, ..s }
        } else {
            s
        },
        UpdateEvent::EndOfStream => if s.state == SessionState::Receiving {
            SessionView { state: SessionState::Finalizing, ..s }
        } else {
            s
        },
        UpdateEvent::CommitOk => if s.state == SessionState::Finalizing {
            SessionView { state: SessionState::Committed, ..s }
        } else {
            s
        },
        UpdateEvent::CommitErr => if s.state == SessionState::Finalizing {
            SessionView { state: SessionState::Aborted, ..s }
        } else {
            s
        },
    }
}

/// A session run through a whole sequence of events.
pub open spec fn run(s: SessionView, evs: Seq<UpdateEvent>) -> SessionView
    decreases evs.len(),
{
    if evs.len() == 0 {
        s
    } else {
        run(step(s, evs[0]), evs.drop_first())
    }
}

/// The session invariant: the sink never holds more bytes than arrived.
pub open spec fn session_wf(s: SessionView) -> bool {
    0 <= s.bytes_written <= s.bytes_received
}

/// Phases ordered by progress; `Committed` and `Aborted` are equally
/// final.
pub open spec fn state_rank(st: SessionState) -> int {
    match st {
        SessionState::Receiving => 0,
        SessionState::Finalizing => 1,
        SessionState::Committed => 2,
        SessionState::Aborted => 2,
    }
}

/// Every step keeps the session invariant.
pub proof fn lemma_step_preserves_wf(s: SessionView, e: UpdateEvent)
    requires
        session_wf(s),
    ensures
        session_wf(step(s, e)),
{
}

/// No step moves a session backwards, and a final phase never changes:
/// the phases are monotonic and none is revisited.
pub proof fn lemma_step_monotonic(s: SessionView, e: UpdateEvent)
    ensures
        state_rank(step(s, e).state) >= state_rank(s.state),
        s.state == SessionState::Aborted ==> step(s, e) == s,
        s.state == SessionState::Committed ==> step(s, e) == s,
{
}

/// The invariant holds at every point of every run.
pub proof fn lemma_run_preserves_wf(s: SessionView, evs: Seq<UpdateEvent>)
    requires
        session_wf(s),
    ensures
        session_wf(run(s, evs)),
    decreases evs.len(),
{
    if evs.len() > 0 {
        lemma_step_preserves_wf(s, evs[0]);
        lemma_run_preserves_wf(step(s, evs[0]), evs.drop_first());
    }
}

/// No run moves a session backwards through its phases.
pub proof fn lemma_run_monotonic(s: SessionView, evs: Seq<UpdateEvent>)
    ensures
        state_rank(run(s, evs).state) >= state_rank(s.state),
    decreases evs.len(),
{
    if evs.len() > 0 {
        lemma_step_monotonic(s, evs[0]);
        lemma_run_monotonic(step(s, evs[0]), evs.drop_first());
    }
}

/// A session that has aborted stays exactly as it is, whatever events
/// follow; in particular it never reaches `Committed`.
pub proof fn lemma_aborted_is_final(s: SessionView, evs: Seq<UpdateEvent>)
    requires
        s.state == SessionState::Aborted,
    ensures
        run(s, evs) == s,
    decreases evs.len(),
{
    if evs.len() > 0 {
        lemma_aborted_is_final(s, evs.drop_first());
    }
}

/// A write failure aborts the session on the spot: the counters freeze at
/// the last accepted offset, and no later event — in particular no commit
/// — changes the session again.
pub proof fn lemma_write_failure_aborts(s: SessionView, evs: Seq<UpdateEvent>)
    requires
        s.state == SessionState::Receiving,
    ensures
        ({
            let a = step(s, UpdateEvent::WriteErr);
            &&& a.state == SessionState::Aborted
            &&& a.bytes_written == s.bytes_written
            &&& a.bytes_received == s.bytes_received
            &&& run(a, evs) == a
            &&& run(a, evs).state != SessionState::Committed
        }),
{
    lemma_aborted_is_final(step(s, UpdateEvent::WriteErr), evs);
}

/// One update session, created per inbound update request and destroyed
/// when the request handler returns.
#[derive(Debug)]
pub struct UpdateSession {
    boundary: Vec<u8>,
    expected_len: u64,
    bytes_received: u64,
    bytes_written: u64,
    state: SessionState,
}

impl View for UpdateSession {
    type V = SessionView;

    closed spec fn view(&self) -> SessionView {
        SessionView {
            boundary: self.boundary@,
            expected_len: self.expected_len,
            bytes_received: self.bytes_received as int,
            bytes_written: self.bytes_written as int,
            state: self.state,
        }
    }
}

impl UpdateSession {
    /// Opens a session for a request that declared a non-zero content
    /// length and a boundary token; rejects the request before any
    /// partition write otherwise, the missing length reported first.
    pub fn new(content_len: Option<u64>, boundary: Option<Vec<u8>>) -> (r: Result<
        UpdateSession,
        UpdateFault,
    >)
        ensures
            match r {
                Ok(s) => {
                    &&& content_len matches Some(n) && n > 0 && s@.expected_len == n
                    &&& boundary matches Some(b) && s@.boundary == b@
                    &&& s@.bytes_received == 0
                    &&& s@.bytes_written == 0
                    &&& s@.state == SessionState::Receiving
                },
                Err(UpdateFault::MissingLength) => content_len is None || content_len == Some(
                    0u64,
                ),
                Err(UpdateFault::MissingBoundary) => (content_len matches Some(n) && n > 0)
                    && boundary is None,
                Err(_) => false,
            },
    {
        let n = match content_len {
            None => {
                return Err(UpdateFault::MissingLength);
            },
            Some(n) => {
                if n == 0 {
                    return Err(UpdateFault::MissingLength);
                }
                n
            },
        };
        match boundary {
            None => Err(UpdateFault::MissingBoundary),
            Some(b) => Ok(
                UpdateSession {
                    boundary: b,
                    expected_len: n,
                    bytes_received: 0,
                    bytes_written: 0,
                    state: SessionState::Receiving,
                },
            ),
        }
    }

    /// The phase the session is in.
    pub fn state(&self) -> (st: SessionState)
        ensures
            st == self@.state,
    {
        self.state
    }

    /// How many body bytes have arrived.
    pub fn bytes_received(&self) -> (n: u64)
        ensures
            n == self@.bytes_received,
    {
        self.bytes_received
    }

    /// How many payload bytes the sink has accepted.
    pub fn bytes_written(&self) -> (n: u64)
        ensures
            n == self@.bytes_written,
    {
        self.bytes_written
    }

    /// The content length the request declared.
    pub fn expected_len(&self) -> (n: u64)
        ensures
            n == self@.expected_len,
    {
        self.expected_len
    }

    /// Takes one received chunk: counts it and returns the body bytes
    /// surviving de-framing, which the caller hands to the sink.
    pub fn accept_chunk(&mut self, chunk: &[u8]) -> (p: Vec<u8>)
        requires
            old(self)@.state == SessionState::Receiving,
            old(self)@.bytes_received + chunk@.len() <= u64::MAX,
        ensures
            final(self)@ == step(old(self)@, UpdateEvent::Chunk(chunk@)),
            p@ == deframe(chunk@, old(self)@.boundary),
    {
        self.bytes_received = self.bytes_received + chunk.len() as u64;
        let payload = extract_payload(chunk, self.boundary.as_slice());
        proof {
            assert(self@ =~= step(old(self)@, UpdateEvent::Chunk(chunk@)));
        }
        slice_to_vec(payload)
    }

    /// Records that the sink accepted `n` payload bytes.
    pub fn note_write_ok(&mut self, n: u64)
        requires
            old(self)@.state == SessionState::Receiving,
            old(self)@.bytes_written + n <= old(self)@.bytes_received,
        ensures
            final(self)@ == step(old(self)@, UpdateEvent::WriteOk(n as int)),
    {
        self.bytes_written = self.bytes_written + n;
        proof {
            assert(self@ =~= step(old(self)@, UpdateEvent::WriteOk(n as int)));
        }
    }

    /// Records a write failure: the session aborts at once, reporting how
    /// far the transfer got. The sink must be abandoned; no commit ever
    /// follows.
    pub fn note_write_err(&mut self) -> (f: UpdateFault)
        requires
            old(self)@.state == SessionState::Receiving,
        ensures
            final(self)@ == step(old(self)@, UpdateEvent::WriteErr),
            (f matches UpdateFault::WriteFailed { bytes_received, bytes_written } && bytes_received
                == old(self)@.bytes_received && bytes_written == old(self)@.bytes_written),
    {
        self.state = SessionState::Aborted;
        proof {
            assert(self@ =~= step(old(self)@, UpdateEvent::WriteErr));
        }
        UpdateFault::WriteFailed {
            bytes_received: self.bytes_received,
            bytes_written: self.bytes_written,
        }
    }

    /// Records the exhaustion of the body: the session moves to
    /// `Finalizing` and the caller asks the sink to commit.
    pub fn finish(&mut self)
        requires
            old(self)@.state == SessionState::Receiving,
        ensures
            final(self)@ == step(old(self)@, UpdateEvent::EndOfStream),
    {
        self.state = SessionState::Finalizing;
        proof {
            assert(self@ =~= step(old(self)@, UpdateEvent::EndOfStream));
        }
    }

    /// Records a successful commit: the new image is the boot target of
    /// the next restart, which the caller triggers.
    pub fn note_commit_ok(&mut self)
        requires
            old(self)@.state == SessionState::Finalizing,
        ensures
            final(self)@ == step(old(self)@, UpdateEvent::CommitOk),
    {
        self.state = SessionState::Committed;
        proof {
            assert(self@ =~= step(old(self)@, UpdateEvent::CommitOk));
        }
    }

    /// Records a failed commit: the session aborts and the previous image
    /// stays authoritative.
    pub fn note_commit_err(&mut self) -> (f: UpdateFault)
        requires
            old(self)@.state == SessionState::Finalizing,
        ensures
            final(self)@ == step(old(self)@, UpdateEvent::CommitErr),
            f == UpdateFault::CommitFailed,
    {
        self.state = SessionState::Aborted;
        proof {
            assert(self@ =~= step(old(self)@, UpdateEvent::CommitErr));
        }
        UpdateFault::CommitFailed
    }
}

// Reassembly of a chunked multipart body. The three shapes below state
// precisely that a chunk's framing markers lie inside the chunk — the
// chunk-local strategy's working assumption.
/// A chunk carrying only body bytes: it holds no line break or no
/// boundary token.
pub open spec fn interior_chunk(c: Seq<u8>, b: Seq<u8>, p: Seq<u8>) -> bool {
    c == p && ((find_first(c, crlf()) is None) || (find_first(c, b) is None))
}

/// A chunk that opens the part: a header block `h` ending in the
/// header/body separator, followed by body bytes, with no closing marker.
pub open spec fn header_chunk(c: Seq<u8>, b: Seq<u8>, p: Seq<u8>, h: Seq<u8>) -> bool {
    &&& c == h + p
    &&& h.len() >= 4
    &&& find_first(c, header_sep()) == Some(h.len() - 4)
    &&& find_last(c, trail_mark()) is None
    &&& find_first(c, b) is Some
    &&& find_first(c, crlf()) is Some
}

/// A chunk that closes the part: body bytes followed by a trailer `t`
/// opening with the closing marker, with no header/body separator.
pub open spec fn trailer_chunk(c: Seq<u8>, b: Seq<u8>, p: Seq<u8>, t: Seq<u8>) -> bool {
    &&& c == p + t
    &&& find_last(c, trail_mark()) == Some(p.len() as int)
    &&& find_first(c, header_sep()) is None
    &&& find_first(c, b) is Some
    &&& find_first(c, crlf()) is Some
}

/// Whether chunk `c` carries exactly the body bytes `p` under boundary
/// `b`, its framing markers (if any) falling wholly inside the chunk.
pub open spec fn chunk_yields(c: Seq<u8>, b: Seq<u8>, p: Seq<u8>) -> bool {
    ||| interior_chunk(c, b, p)
    ||| exists|h: Seq<u8>| header_chunk(c, b, p, h)
    ||| exists|t: Seq<u8>| trailer_chunk(c, b, p, t)
}

/// A chunk without a line break, or without the boundary token, is an
/// interior chunk: de-framing passes it through whole.
pub proof fn lemma_payload_chunk_is_interior(c: Seq<u8>, b: Seq<u8>)
    requires
        !contains_seq(c, crlf()) || !contains_seq(c, b),
    ensures
        chunk_yields(c, b, c),
        deframe(c, b) == c,
{
    crate::bytesearch::lemma_find_first_absent(c, crlf());
    crate::bytesearch::lemma_find_first_absent(c, b);
}

/// De-framing takes exactly the body bytes out of such a chunk.
pub proof fn lemma_chunk_yields_deframe(c: Seq<u8>, b: Seq<u8>, p: Seq<u8>)
    requires
        chunk_yields(c, b, p),
    ensures
        deframe(c, b) == p,
{
    if interior_chunk(c, b, p) {
    } else if exists|h: Seq<u8>| header_chunk(c, b, p, h) {
        let h = choose|h: Seq<u8>| header_chunk(c, b, p, h);
        assert(c.subrange(h.len() as int, c.len() as int) =~= p);
    } else {
        let t = choose|t: Seq<u8>| trailer_chunk(c, b, p, t);
        assert(c.subrange(0, p.len() as int) =~= p);
    }
}

/// All chunks concatenated.
pub open spec fn concat_seqs(cs: Seq<Seq<u8>>) -> Seq<u8>
    decreases cs.len(),
{
    if cs.len() == 0 {
        Seq::empty()
    } else {
        cs[0] + concat_seqs(cs.drop_first())
    }
}

/// Every chunk de-framed.
pub open spec fn deframe_all(cs: Seq<Seq<u8>>, b: Seq<u8>) -> Seq<Seq<u8>> {
    cs.map_values(|c: Seq<u8>| deframe(c, b))
}

/// Reassembly is exact: for a body split into chunks whose framing
/// markers do not straddle a chunk boundary, the concatenation of the
/// de-framed chunks equals the original payload — no byte lost or
/// duplicated at a chunk seam.
pub proof fn lemma_deframe_reassembly(cs: Seq<Seq<u8>>, ps: Seq<Seq<u8>>, b: Seq<u8>)
    requires
        cs.len() == ps.len(),
        forall|i: int| 0 <= i < cs.len() ==> chunk_yields(cs[i], b, ps[i]),
    ensures
        concat_seqs(deframe_all(cs, b)) == concat_seqs(ps),
    decreases cs.len(),
{
    if cs.len() == 0 {
        assert(deframe_all(cs, b) =~= Seq::<Seq<u8>>::empty());
    } else {
        lemma_chunk_yields_deframe(cs[0], b, ps[0]);
        assert(forall|i: int|
            0 <= i < cs.drop_first().len() ==> chunk_yields(
                cs.drop_first()[i],
                b,
                ps.drop_first()[i],
            ));
        lemma_deframe_reassembly(cs.drop_first(), ps.drop_first(), b);
        assert(deframe_all(cs, b).drop_first() =~= deframe_all(cs.drop_first(), b));
        assert(deframe_all(cs, b)[0] == ps[0]);
        assert(concat_seqs(deframe_all(cs, b)) == deframe_all(cs, b)[0] + concat_seqs(
            deframe_all(cs, b).drop_first(),
        ));
    }
}

} // verus!
