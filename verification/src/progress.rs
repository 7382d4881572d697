//! Progress accounting for a response body read chunk by chunk.
//!
//! A transfer starts from an accepted response (a 2xx status) and the
//! length its `Content-Length` header announces, if any. Each chunk adds
//! its length to the count of bytes received; after each chunk the caller
//! shows a progress line: received, total and percentage when a positive
//! total is known, otherwise the count alone.

use vstd::prelude::*;
use crate::content_length::{content_length, header_bytes, spec_content_length};
use crate::status::{check_status, spec_is_success, StatusError};

verus! {

/// What a progress line shows after a chunk.
#[derive(Debug, Clone, Copy, PartialEq, Eq, Structural)]
pub enum ProgressReport {
    /// A positive total is known: `received` of `total` bytes, `percent` per cent.
    Fraction { received: u64, total: u64, percent: u64 },
    /// No usable total: the number of bytes so far.
    Count { received: u64 },
}

/// The abstract state of a transfer.
pub struct TransferView {
    /// The announced length of the body, if any.
    pub total: Option<u64>,
    /// Bytes received so far.
    pub received: u64,
}

/// The progress line for a transfer in state `v`.
pub open spec fn spec_report(v: TransferView) -> ProgressReport {
    match v.total {
        Some(t) => if t > 0 {
            ProgressReport::Fraction {
                received: v.received,
                total: t,
                percent: (v.received * 100 / (t as int)) as u64,
            }
        } else {
            ProgressReport::Count { received: v.received }
        },
        None => ProgressReport::Count { received: v.received },
    }
}

/// A chunk of `len` bytes can be counted without the count, or the
/// percentage computed from it, leaving the range of `u64`.
pub open spec fn spec_can_record(v: TransferView, len: nat) -> bool {
    &&& v.received + len <= u64::MAX
    &&& (v.total matches Some(t) && t > 0 ==> (v.received + len) * 100 <= u64::MAX)
}

/// The state after counting a chunk of `len` bytes.
pub open spec fn spec_record(v: TransferView, len: nat) -> TransferView {
    TransferView { total: v.total, received: (v.received + len) as u64 }
}

/// Byte counting for a body read chunk by chunk.
pub struct Transfer {
    total: Option<u64>,
    received: u64,
}

impl View for Transfer {
    type V = TransferView;

    closed spec fn view(&self) -> TransferView {
        TransferView { total: self.total, received: self.received }
    }
}

impl Transfer {
    /// A transfer expecting `total` bytes, none received yet.
    pub fn new(total: Option<u64>) -> (t: Transfer)
        ensures
            t@ == (TransferView { total, received: 0 }),
    {
        Transfer { total, received: 0 }
    }

    /// Accept a response: its status must be 2xx; the expected length is
    /// read from its `Content-Length` header value, if any.
    pub fn from_response(status: u16, content_length_header: Option<&[u8]>) -> (res: Result<
        Transfer,
        StatusError,
    >)
        ensures
            res is Ok <==> spec_is_success(status),
            res matches Ok(t) ==> t@ == (TransferView {
                total: spec_content_length(header_bytes(content_length_header)),
                received: 0,
            }),
            res matches Err(e) ==> e.code == status,
    {
        match check_status(status) {
            Ok(()) => Ok(Transfer::new(content_length(content_length_header))),
            Err(e) => Err(e),
        }
    }

    /// The announced length of the body, if any.
    pub fn total(&self) -> (t: Option<u64>)
        ensures
            t == self@.total,
    {
        self.total
    }

    /// Bytes received so far.
    pub fn received(&self) -> (n: u64)
        ensures
            n == self@.received,
    {
        self.received
    }

    /// Whether a chunk of `len` bytes can be counted.
    pub fn can_record(&self, len: usize) -> (b: bool)
        ensures
            b == spec_can_record(self@, len as nat),
    {
        let room = u64::MAX - self.received;
        if len as u64 > room {
            return false;
        }
        let next = self.received + len as u64;
        match self.total {
            Some(t) => if t > 0 {
                next <= u64::MAX / 100
            } else {
                true
            },
            None => true,
        }
    }

    /// Count a chunk of `len` bytes and report the progress line to show.
    pub fn record(&mut self, len: usize) -> (report: ProgressReport)
        requires
            spec_can_record(old(self)@, len as nat),
        ensures
            final(self)@ == spec_record(old(self)@, len as nat),
            report == spec_report(final(self)@),
    {
        self.received = self.received + len as u64;
        self.report()
    }

    /// The progress line for the bytes received so far.
    pub fn report(&self) -> (report: ProgressReport)
        requires
            self@.total matches Some(t) && t > 0 ==> self@.received * 100 <= u64::MAX,
        ensures
            report == spec_report(self@),
    {
        match self.total {
            Some(t) => if t > 0 {
                ProgressReport::Fraction {
                    received: self.received,
                    total: t,
                    percent: self.received * 100 / t,
                }
            } else {
                ProgressReport::Count { received: self.received }
            },
            None => ProgressReport::Count { received: self.received },
        }
    }
}

/// While no more bytes arrive than announced, the percentage shown stays
/// within 100, and it is exactly 100 once all announced bytes have arrived.
pub proof fn percent_reaches_exactly_100(v: TransferView)
    requires
        v.total matches Some(t) && t > 0 && v.received <= t,
    ensures
        spec_report(v) matches ProgressReport::Fraction { percent, .. } && percent <= 100 && (
        v.received == v.total->0 ==> percent == 100),
{
    let t = v.total->0;
    let r = v.received;
    assert(r * 100 / (t as int) <= 100) by (nonlinear_arith)
        requires
            0 <= r <= t,
            t > 0,
    {
        assert(r * 100 <= t * 100);
    }
    assert(r == t ==> r * 100 / (t as int) == 100) by (nonlinear_arith)
        requires
            t > 0,
    ;
}

/// The percentage shown is the whole part of `received * 100 / total`: the
/// largest `p` with `p * total <= received * 100` (for every count whose
/// percentage `report` can compute).
pub proof fn percent_is_floor_of_ratio(v: TransferView)
    requires
        v.total matches Some(t) && t > 0,
        v.received * 100 <= u64::MAX,
    ensures
        spec_report(v) matches ProgressReport::Fraction { received, total, percent } && received
            == v.received && total == v.total->0 && percent * total <= received * 100 < (percent
            + 1) * total,
{
    let t = v.total->0 as int;
    let x = v.received * 100;
    let q = x / t;
    assert(q * t <= x < (q + 1) * t) by (nonlinear_arith)
        requires
            t > 0,
            x >= 0,
            q == x / t,
    ;
    assert(0 <= q);
    assert(q <= x) by (nonlinear_arith)
        requires
            t > 0,
            x >= 0,
            q == x / t,
    ;
}

/// The percentage never goes down as more bytes arrive.
pub proof fn percent_is_monotone(v: TransferView, len: nat)
    requires
        v.total matches Some(t) && t > 0,
        (v.received + len) * 100 <= u64::MAX,
    ensures
        spec_report(v) matches ProgressReport::Fraction { percent: p0, .. } && spec_report(
            spec_record(v, len),
        ) matches ProgressReport::Fraction { percent: p1, .. } && p0 <= p1,
{
    let t = v.total->0 as int;
    let a = v.received * 100;
    let b = (v.received + len) * 100;
    vstd::arithmetic::div_mod::lemma_div_is_ordered(a, b, t);
    assert(a / t <= b / t);
    assert(b / t <= b) by (nonlinear_arith)
        requires
            t > 0,
            b >= 0,
    ;
}

/// The abstract state of a body collected in memory.
pub struct StreamedBodyView {
    pub transfer: TransferView,
    pub body: Seq<u8>,
}

/// The state after taking in one chunk.
pub open spec fn spec_push(v: StreamedBodyView, chunk: Seq<u8>) -> StreamedBodyView {
    StreamedBodyView { transfer: spec_record(v.transfer, chunk.len()), body: v.body + chunk }
}

/// The state after counting chunks of the given lengths, in order.
pub open spec fn spec_record_all(v: TransferView, lens: Seq<nat>) -> TransferView
    decreases lens.len(),
{
    if lens.len() == 0 {
        v
    } else {
        spec_record(spec_record_all(v, lens.drop_last()), lens.last())
    }
}

/// The sum of a sequence of lengths.
pub open spec fn sum_lens(lens: Seq<nat>) -> nat
    decreases lens.len(),
{
    if lens.len() == 0 {
        0
    } else {
        sum_lens(lens.drop_last()) + lens.last()
    }
}

/// The state after taking in the given chunks, in order.
pub open spec fn spec_push_all(v: StreamedBodyView, chunks: Seq<Seq<u8>>) -> StreamedBodyView
    decreases chunks.len(),
{
    if chunks.len() == 0 {
        v
    } else {
        spec_push(spec_push_all(v, chunks.drop_last()), chunks.last())
    }
}

/// The chunks joined end to end.
pub open spec fn concat(chunks: Seq<Seq<u8>>) -> Seq<u8>
    decreases chunks.len(),
{
    if chunks.len() == 0 {
        Seq::empty()
    } else {
        concat(chunks.drop_last()) + chunks.last()
    }
}

/// Counting never loses a byte: after chunks of the given lengths, the
/// count has grown by exactly their sum, and the total is unchanged.
pub proof fn record_counts_every_byte(v: TransferView, lens: Seq<nat>)
    requires
        v.received + sum_lens(lens) <= u64::MAX,
    ensures
        spec_record_all(v, lens).received == v.received + sum_lens(lens),
        spec_record_all(v, lens).total == v.total,
    decreases lens.len(),
{
    if lens.len() > 0 {
        record_counts_every_byte(v, lens.drop_last());
    }
}

/// A body collected from chunks is the chunks joined in order, and its
/// byte count is its length.
pub proof fn collected_body_is_concatenation(v: StreamedBodyView, chunks: Seq<Seq<u8>>)
    requires
        v.transfer.received == v.body.len(),
        v.body.len() + concat(chunks).len() <= u64::MAX,
    ensures
        spec_push_all(v, chunks).body == v.body + concat(chunks),
        spec_push_all(v, chunks).transfer.received == spec_push_all(v, chunks).body.len(),
        spec_push_all(v, chunks).transfer.total == v.transfer.total,
    decreases chunks.len(),
{
    if chunks.len() > 0 {
        let p = chunks.drop_last();
        assert(concat(chunks).len() == concat(p).len() + chunks.last().len());
        collected_body_is_concatenation(v, p);
        assert(v.body + concat(chunks) =~= (v.body + concat(p)) + chunks.last());
    }
}

/// A response body collected in memory chunk by chunk, with its progress count.
pub struct StreamedBody {
    transfer: Transfer,
    body: Vec<u8>,
}

impl View for StreamedBody {
    type V = StreamedBodyView;

    closed spec fn view(&self) -> StreamedBodyView {
        StreamedBodyView { transfer: self.transfer@, body: self.body@ }
    }
}

impl StreamedBody {
    #[verifier::type_invariant]
    closed spec fn inv(self) -> bool {
        self.transfer@.received == self.body@.len()
    }

    /// Accept a response as `Transfer::from_response` does, with an empty body so far.
    pub fn from_response(status: u16, content_length_header: Option<&[u8]>) -> (res: Result<
        StreamedBody,
        StatusError,
    >)
        ensures
            res is Ok <==> spec_is_success(status),
            res matches Ok(b) ==> b@ == (StreamedBodyView {
                transfer: TransferView {
                    total: spec_content_length(header_bytes(content_length_header)),
                    received: 0,
                },
                body: Seq::empty(),
            }),
            res matches Err(e) ==> e.code == status,
    {
        match Transfer::from_response(status, content_length_header) {
            Ok(transfer) => Ok(StreamedBody { transfer, body: Vec::new() }),
            Err(e) => Err(e),
        }
    }

    /// Whether a chunk of `len` bytes can be taken in.
    pub fn can_push(&self, len: usize) -> (b: bool)
        ensures
            b == spec_can_record(self@.transfer, len as nat),
    {
        self.transfer.can_record(len)
    }

    /// Append a chunk to the body, count it, and report the progress line.
    pub fn push_chunk(&mut self, chunk: &[u8]) -> (report: ProgressReport)
        requires
            spec_can_record(old(self)@.transfer, chunk@.len()),
        ensures
            final(self)@ == spec_push(old(self)@, chunk@),
            final(self)@.transfer.received == final(self)@.body.len(),
            report == spec_report(final(self)@.transfer),
    {
        proof {
            use_type_invariant(&*self);
        }
        let mut taken = StreamedBody { transfer: Transfer::new(None), body: Vec::new() };
        std::mem::swap(&mut taken, self);
        let StreamedBody { mut transfer, mut body } = taken;
        body.extend_from_slice(chunk);
        let report = transfer.record(chunk.len());
        assert(body@ =~= old(self)@.body + chunk@);
        assert(transfer@ == spec_record(old(self)@.transfer, chunk@.len()));
        *self = StreamedBody { transfer, body };
        report
    }

    /// Bytes received so far.
    pub fn received(&self) -> (n: u64)
        ensures
            n == self@.transfer.received,
            n == self@.body.len(),
    {
        proof {
            use_type_invariant(self);
        }
        self.transfer.received()
    }

    /// The announced length of the body, if any.
    pub fn total(&self) -> (t: Option<u64>)
        ensures
            t == self@.transfer.total,
    {
        self.transfer.total()
    }

    /// The collected body.
    pub fn into_body(self) -> (body: Vec<u8>)
        ensures
            body@ == self@.body,
    {
        self.body
    }
}

} // verus!
