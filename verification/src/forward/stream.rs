//! Copying between two streams: what is done next, given how the last operation ended.
use vstd::prelude::*;

use crate::flow::error::FlowError;
use crate::flow::SizeHint;

verus! {

/// The content for which room is made at the least.
pub const MIN_CONTENT: usize = 4096;

// ---- One direction ----
/// How far the copying in one direction has come. The names are those of what is waited for.
#[derive(Clone, Copy, PartialEq, Eq, Structural, Debug)]
pub enum ForwardState {
    AwatingSizeHint,
    PollingTxBuf(SizeHint),
    PollingRxBuf,
    Closing,
    Done,
}

/// An operation on one of the two streams.
#[derive(Clone, Copy, PartialEq, Eq, Structural, Debug)]
pub enum ForwardOp {
    /// Ask the source how much there is.
    RequestSize,
    /// Flush the sink while the source has nothing.
    FlushIdle,
    /// Get a buffer of so many bytes from the sink.
    GetTxBuffer(usize),
    /// Hand the buffer to the source.
    CommitRx,
    /// Get the buffer back from the source, filled.
    PollRx,
    /// Hand the buffer, with so many bytes in it, to the sink. The source has ended if `eof`.
    CommitTx { len: usize, eof: bool },
    /// Flush the sink.
    FlushTx { len: usize, eof: bool },
    /// Close the sink.
    CloseTx,
}

/// How an operation ended.
pub enum ForwardEvent {
    /// It has not ended yet.
    Pending,
    /// It ended well.
    Finished,
    /// The source says how much there is.
    Size(SizeHint),
    /// The source filled the buffer with so many bytes.
    Filled(usize),
    /// The source put so many bytes in the buffer, and has ended.
    Ended(usize),
    /// It failed.
    Failed(FlowError),
}

/// What comes of a poll.
pub enum ForwardPoll {
    Pending,
    Ready(Result<(), FlowError>),
}

/// What is done next.
pub enum ForwardNext {
    /// An operation is carried out, and its outcome handed in.
    Do(ForwardOp),
    /// The buffer is handed back to the sink, whatever comes of it, and the poll ends with the
    /// error.
    ReturnBuffer(FlowError),
    /// The poll ends.
    End(ForwardPoll),
}

/// One direction of copying.
pub struct Forward {
    pub state: ForwardState,
    /// How many bytes went through.
    pub written: u64,
}

/// What a poll begins with, in each state.
pub open spec fn first_op(state: ForwardState) -> ForwardNext {
    match state {
        ForwardState::AwatingSizeHint => ForwardNext::Do(ForwardOp::RequestSize),
        ForwardState::PollingTxBuf(hint) => ForwardNext::Do(
            ForwardOp::GetTxBuffer(hint.with_min_content_spec(MIN_CONTENT as nat) as usize),
        ),
        ForwardState::PollingRxBuf => ForwardNext::Do(ForwardOp::PollRx),
        ForwardState::Closing => ForwardNext::Do(ForwardOp::CloseTx),
        ForwardState::Done => ForwardNext::End(ForwardPoll::Ready(Ok(()))),
    }
}

/// Whether `event` is an outcome that `op` can have.
pub open spec fn possible(op: ForwardOp, event: ForwardEvent) -> bool {
    match op {
        ForwardOp::RequestSize => event is Pending || event is Size || event is Failed,
        ForwardOp::FlushIdle => event is Pending || event is Finished || event is Failed,
        ForwardOp::GetTxBuffer(_) => event is Pending || event is Finished || event is Failed,
        ForwardOp::CommitRx => event is Finished || event is Failed,
        ForwardOp::PollRx => event is Pending || event is Filled || event is Ended
            || event is Failed,
        ForwardOp::CommitTx { .. } => event is Finished || event is Failed,
        ForwardOp::FlushTx { .. } => event is Pending || event is Finished || event is Failed,
        ForwardOp::CloseTx => event is Pending || event is Finished || event is Failed,
    }
}

/// The state after `op` ended with `event`.
pub open spec fn state_after(state: ForwardState, op: ForwardOp, event: ForwardEvent) -> ForwardState {
    match (op, event) {
        (ForwardOp::RequestSize, ForwardEvent::Size(hint)) => ForwardState::PollingTxBuf(hint),
        (ForwardOp::CommitRx, ForwardEvent::Finished) => ForwardState::PollingRxBuf,
        (ForwardOp::FlushTx { eof, .. }, ForwardEvent::Finished) => if eof {
            ForwardState::Closing
        } else {
            ForwardState::AwatingSizeHint
        },
        (ForwardOp::CloseTx, ForwardEvent::Finished) => ForwardState::Done,
        _ => state,
    }
}

/// What is done after `op` ended with `event`.
pub open spec fn next_after(state: ForwardState, op: ForwardOp, event: ForwardEvent) -> ForwardNext {
    match (op, event) {
        // While the source has nothing, what the sink holds back is flushed; only a failure of that
        // matters.
        (ForwardOp::RequestSize, ForwardEvent::Pending) => ForwardNext::Do(ForwardOp::FlushIdle),
        (ForwardOp::FlushIdle, ForwardEvent::Failed(error)) => ForwardNext::End(
            ForwardPoll::Ready(Err(error)),
        ),
        (ForwardOp::FlushIdle, _) => ForwardNext::End(ForwardPoll::Pending),
        (ForwardOp::GetTxBuffer(_), ForwardEvent::Finished) => ForwardNext::Do(ForwardOp::CommitRx),
        // A buffer that the source does not take, or gives back with an error, goes back to the
        // sink.
        (ForwardOp::CommitRx, ForwardEvent::Failed(error)) => ForwardNext::ReturnBuffer(
            error,
        ),
        (ForwardOp::PollRx, ForwardEvent::Failed(error)) => ForwardNext::ReturnBuffer(error),
        (ForwardOp::PollRx, ForwardEvent::Filled(len)) => ForwardNext::Do(
            ForwardOp::CommitTx { len, eof: false },
        ),
        (ForwardOp::PollRx, ForwardEvent::Ended(len)) => ForwardNext::Do(
            ForwardOp::CommitTx { len, eof: true },
        ),
        (ForwardOp::CommitTx { len, eof }, ForwardEvent::Finished) => ForwardNext::Do(
            ForwardOp::FlushTx { len, eof },
        ),
        (_, ForwardEvent::Failed(error)) => ForwardNext::End(ForwardPoll::Ready(Err(error))),
        (_, ForwardEvent::Pending) => ForwardNext::End(ForwardPoll::Pending),
        _ => first_op(state_after(state, op, event)),
    }
}

/// How many bytes have gone through once `op` ended with `event`: those that were flushed count.
pub open spec fn counted(op: ForwardOp, event: ForwardEvent) -> u64 {
    match (op, event) {
        (ForwardOp::FlushTx { len, .. }, ForwardEvent::Finished) => len as u64,
        _ => 0,
    }
}

/// Whether the room that a size hint asks for can be told in a `usize`.
pub open spec fn hint_fits(hint: SizeHint) -> bool {
    hint.with_min_content_spec(MIN_CONTENT as nat) <= usize::MAX
}

pub open spec fn state_fits(state: ForwardState) -> bool {
    state matches ForwardState::PollingTxBuf(hint) ==> hint_fits(hint)
}

impl Forward {
    pub fn new(state: ForwardState) -> (f: Forward)
        ensures
            f.state == state,
            f.written == 0,
    {
        Forward { state, written: 0 }
    }

    /// What a poll begins with.
    pub fn start(&self) -> (r: ForwardNext)
        requires
            state_fits(self.state),
        ensures
            r == first_op(self.state),
    {
        match self.state {
            ForwardState::AwatingSizeHint => ForwardNext::Do(ForwardOp::RequestSize),
            ForwardState::PollingTxBuf(hint) => ForwardNext::Do(
                ForwardOp::GetTxBuffer(hint.with_min_content(MIN_CONTENT)),
            ),
            ForwardState::PollingRxBuf => ForwardNext::Do(ForwardOp::PollRx),
            ForwardState::Closing => ForwardNext::Do(ForwardOp::CloseTx),
            ForwardState::Done => ForwardNext::End(ForwardPoll::Ready(Ok(()))),
        }
    }

    /// `op` ended with `event`: what is done next.
    pub fn poll_forward_oneway(&mut self, op: ForwardOp, event: ForwardEvent) -> (r: ForwardNext)
        requires
            possible(op, event),
            state_fits(old(self).state),
            event matches ForwardEvent::Size(hint) ==> hint_fits(hint),
        ensures
            final(self).state == state_after(old(self).state, op, event),
            state_fits(final(self).state),
            final(self).written == old(self).written.wrapping_add(counted(op, event)),
            r == next_after(old(self).state, op, event),
    {
        match (op, event) {
            (ForwardOp::RequestSize, ForwardEvent::Pending) => ForwardNext::Do(
                ForwardOp::FlushIdle,
            ),
            (ForwardOp::RequestSize, ForwardEvent::Size(hint)) => {
                self.state = ForwardState::PollingTxBuf(hint);
                self.start()
            },
            (ForwardOp::FlushIdle, ForwardEvent::Failed(error)) => ForwardNext::End(
                ForwardPoll::Ready(Err(error)),
            ),
            (ForwardOp::FlushIdle, _) => ForwardNext::End(ForwardPoll::Pending),
            (ForwardOp::GetTxBuffer(_), ForwardEvent::Finished) => ForwardNext::Do(ForwardOp::CommitRx),
            (ForwardOp::CommitRx, ForwardEvent::Finished) => {
                self.state = ForwardState::PollingRxBuf;
                self.start()
            },
            (ForwardOp::CommitRx, ForwardEvent::Failed(error)) => ForwardNext::ReturnBuffer(
                error,
            ),
            (ForwardOp::PollRx, ForwardEvent::Failed(error)) => ForwardNext::ReturnBuffer(
                error,
            ),
            (ForwardOp::PollRx, ForwardEvent::Filled(len)) => ForwardNext::Do(
                ForwardOp::CommitTx { len, eof: false },
            ),
            (ForwardOp::PollRx, ForwardEvent::Ended(len)) => ForwardNext::Do(
                ForwardOp::CommitTx { len, eof: true },
            ),
            (ForwardOp::CommitTx { len, eof }, ForwardEvent::Finished) => ForwardNext::Do(
                ForwardOp::FlushTx { len, eof },
            ),
            (ForwardOp::FlushTx { len, eof }, ForwardEvent::Finished) => {
                self.written = self.written.wrapping_add(len as u64);
                self.state = if eof {
                    ForwardState::Closing
                } else {
                    ForwardState::AwatingSizeHint
                };
                self.start()
            },
            (ForwardOp::CloseTx, ForwardEvent::Finished) => {
                self.state = ForwardState::Done;
                self.start()
            },
            (_, ForwardEvent::Failed(error)) => ForwardNext::End(
                ForwardPoll::Ready(Err(error)),
            ),
            (_, ForwardEvent::Pending) => ForwardNext::End(ForwardPoll::Pending),
            _ => self.start(),
        }
    }
}

// ---- Both directions ----
/// What comes of a poll of both directions: it is done when both are, and fails when one does.
pub open spec fn both_spec(downlink: ForwardPoll, uplink: ForwardPoll) -> ForwardPoll {
    match (downlink, uplink) {
        (ForwardPoll::Ready(Ok(_)), ForwardPoll::Ready(Ok(_))) => ForwardPoll::Ready(Ok(())),
        (ForwardPoll::Ready(Err(e)), _) => ForwardPoll::Ready(Err(e)),
        (_, ForwardPoll::Ready(Err(e))) => ForwardPoll::Ready(Err(e)),
        _ => ForwardPoll::Pending,
    }
}

pub fn poll_both(downlink: ForwardPoll, uplink: ForwardPoll) -> (r: ForwardPoll)
    ensures
        r == both_spec(downlink, uplink),
{
    match (downlink, uplink) {
        (ForwardPoll::Ready(Ok(_)), ForwardPoll::Ready(Ok(_))) => ForwardPoll::Ready(Ok(())),
        (ForwardPoll::Ready(Err(e)), _) => ForwardPoll::Ready(Err(e)),
        (_, ForwardPoll::Ready(Err(e))) => ForwardPoll::Ready(Err(e)),
        _ => ForwardPoll::Pending,
    }
}

// ---- The flow from its beginning ----
/// What went through a handler so far, and how many flows it has.
#[derive(Clone, Copy, Debug)]
pub struct StatHandle {
    pub uplink_written: u64,
    pub downlink_written: u64,
    pub tcp_connection_count: u32,
}

/// Opens an outbound for each flow and copies in both directions.
pub struct StreamForwardHandler<O> {
    /// Milliseconds to wait for the first data of a client.
    pub request_timeout: u64,
    pub outbound: O,
    pub stat: StatHandle,
}

/// Where the first data for the outbound comes from.
#[derive(Clone, Copy, PartialEq, Eq, Structural, Debug)]
pub enum FirstData {
    /// It is there already.
    Given,
    /// None is waited for.
    Nothing,
    /// The client is read for at most so many milliseconds.
    Read { timeout_ms: u64 },
}

/// How a client was read for its first data.
#[derive(Clone, Copy, PartialEq, Eq, Structural, Debug)]
pub enum FirstRead {
    /// The time was up before it said how much there is.
    NoSize,
    /// The time was up after it said how much there is: it still holds the buffer.
    NoData(SizeHint),
    /// Data came in time.
    Data,
}

impl<O> StreamForwardHandler<O> {
    /// A flow begins.
    pub fn on_stream(&mut self)
        ensures
            final(self).stat == (StatHandle {
                tcp_connection_count: old(self).stat.tcp_connection_count.wrapping_add(1),
                ..old(self).stat
            }),
            final(self).request_timeout == old(self).request_timeout,
            final(self).outbound == old(self).outbound,
    {
        self.stat.tcp_connection_count = self.stat.tcp_connection_count.wrapping_add(1);
    }

    /// A flow ends.
    pub fn on_stream_end(&mut self)
        ensures
            final(self).stat == (StatHandle {
                tcp_connection_count: old(self).stat.tcp_connection_count.wrapping_sub(1),
                ..old(self).stat
            }),
            final(self).request_timeout == old(self).request_timeout,
            final(self).outbound == old(self).outbound,
    {
        self.stat.tcp_connection_count = self.stat.tcp_connection_count.wrapping_sub(1);
    }

    /// Where the first data for the outbound comes from, given how much came with the flow.
    pub fn first_data(&self, initial_len: usize) -> (r: FirstData)
        ensures
            r == (if initial_len > 0 {
                FirstData::Given
            } else if self.request_timeout == 0 {
                FirstData::Nothing
            } else {
                FirstData::Read { timeout_ms: self.request_timeout }
            }),
    {
        if initial_len > 0 {
            FirstData::Given
        } else if self.request_timeout == 0 {
            FirstData::Nothing
        } else {
            FirstData::Read { timeout_ms: self.request_timeout }
        }
    }
}

/// In which state the copying from the client begins, given how it was read for its first data.
pub fn uplink_state(read: Option<FirstRead>) -> (r: ForwardState)
    ensures
        r == (match read {
            Some(FirstRead::NoData(hint)) => ForwardState::PollingTxBuf(hint),
            _ => ForwardState::AwatingSizeHint,
        }),
{
    match read {
        Some(FirstRead::NoData(hint)) => ForwardState::PollingTxBuf(hint),
        _ => ForwardState::AwatingSizeHint,
    }
}

/// What follows once the outbound was asked for.
pub enum Opened {
    /// There is none: the client is closed normally, and the flow ends with the error.
    CloseAndFail(FlowError),
    /// `reply` bytes go to the client first. Where `rescue`, the buffer that the client still holds
    /// is got back before the copying begins.
    Run { reply: usize, rescue: bool },
}

/// The outbound was asked for, with `sent` bytes of first data. It is there with `reply` bytes of
/// its own, or failed.
pub fn after_outbound(
    stat: &mut StatHandle,
    sent: usize,
    outbound: Result<usize, FlowError>,
    uplink: ForwardState,
) -> (r: Opened)
    ensures
        *final(stat) == (StatHandle {
            uplink_written: old(stat).uplink_written.wrapping_add(sent as u64),
            ..*old(stat)
        }),
        r == (match outbound {
            Ok(reply) => Opened::Run { reply, rescue: uplink is PollingTxBuf },
            Err(e) => Opened::CloseAndFail(e),
        }),
{
    stat.uplink_written = stat.uplink_written.wrapping_add(sent as u64);
    match outbound {
        Err(e) => Opened::CloseAndFail(e),
        Ok(reply) => {
            let rescue = match uplink {
                ForwardState::PollingTxBuf(_) => true,
                _ => false,
            };
            Opened::Run { reply, rescue }
        },
    }
}

/// The `reply` bytes of the outbound went to the client.
pub fn after_reply(stat: &mut StatHandle, reply: usize)
    ensures
        *final(stat) == (StatHandle {
            downlink_written: old(stat).downlink_written.wrapping_add(reply as u64),
            ..*old(stat)
        }),
{
    stat.downlink_written = stat.downlink_written.wrapping_add(reply as u64);
}

/// What comes of a poll while the buffer is got back from the client and the other direction
/// already runs: `client` is what the client says, `downlink` what comes of the other direction.
pub fn poll_rescue(client: ForwardPoll, downlink: ForwardPoll) -> (r: ForwardPoll)
    ensures
        r == (match (client, downlink) {
            (ForwardPoll::Ready(c), _) => ForwardPoll::Ready(c),
            (ForwardPoll::Pending, ForwardPoll::Ready(Err(e))) => ForwardPoll::Ready(Err(e)),
            _ => ForwardPoll::Pending,
        }),
{
    match (client, downlink) {
        (ForwardPoll::Ready(c), _) => ForwardPoll::Ready(c),
        (ForwardPoll::Pending, ForwardPoll::Ready(Err(e))) => ForwardPoll::Ready(Err(e)),
        _ => ForwardPoll::Pending,
    }
}

// ---- Laws ----
/// The sink is closed only after the source has ended and what it sent last was flushed, and a
/// direction is done only after the sink was closed.
pub proof fn closed_only_after_end(state: ForwardState, op: ForwardOp, event: ForwardEvent)
    ensures
        state_after(state, op, event) is Closing && !(state is Closing) ==> (op matches ForwardOp::FlushTx {
            eof,
            ..
        } && eof && event is Finished),
        state_after(state, op, event) is Done && !(state is Done) ==> op is CloseTx && event is Finished,
{
}

/// Whatever was counted was handed to the sink and flushed there, and nothing is counted twice:
/// after a flush that counted, the source is asked anew or the sink is closed.
pub proof fn counted_once(state: ForwardState, op: ForwardOp, event: ForwardEvent)
    requires
        possible(op, event),
        counted(op, event) > 0,
    ensures
        op is FlushTx,
        event is Finished,
        next_after(state, op, event) == ForwardNext::Do(ForwardOp::RequestSize) || next_after(
            state,
            op,
            event,
        ) == ForwardNext::Do(ForwardOp::CloseTx),
{
}

/// A poll of both directions is done only when both are done.
pub proof fn done_only_when_both(downlink: ForwardPoll, uplink: ForwardPoll)
    ensures
        (both_spec(downlink, uplink) matches ForwardPoll::Ready(Ok(_))) <==> (downlink matches ForwardPoll::Ready(Ok(_))) && (
            uplink matches ForwardPoll::Ready(Ok(_))),
{
}

// ---- Laws: one direction, from its beginning to its end ----
/// An operation that was carried out, and how it ended.
pub struct Turn {
    pub op: ForwardOp,
    pub event: ForwardEvent,
}

/// The state after the first `n` turns.
pub open spec fn state_upto(start: ForwardState, run: Seq<Turn>, n: nat) -> ForwardState
    decreases n,
{
    if n == 0 {
        start
    } else {
        state_after(
            state_upto(start, run, (n - 1) as nat),
            run[n - 1].op,
            run[n - 1].event,
        )
    }
}

/// Whether the `i`-th operation is the one that is wanted: what follows the turn before it, or, where
/// a poll ended before everything was done, what the next poll begins with.
pub open spec fn wanted(start: ForwardState, run: Seq<Turn>, i: int) -> bool {
    if i == 0 {
        first_op(start) == ForwardNext::Do(run[0].op)
    } else {
        let before = state_upto(start, run, (i - 1) as nat);
        let next = next_after(before, run[i - 1].op, run[i - 1].event);
        ||| next == ForwardNext::Do(run[i].op)
        ||| next == ForwardNext::End(ForwardPoll::Pending) && first_op(
            state_upto(start, run, i as nat),
        ) == ForwardNext::Do(run[i].op)
    }
}

/// Whether this is a run of one direction from its beginning: each operation is the one that is
/// wanted, and ends as it can.
pub open spec fn is_run(start: ForwardState, run: Seq<Turn>) -> bool {
    &&& start is AwatingSizeHint || start is PollingTxBuf
    &&& forall|i: int|
        0 <= i < run.len() ==> possible((#[trigger] run[i]).op, run[i].event) && wanted(
            start,
            run,
            i,
        )
}

/// Whether the source said within the first `n` turns that it has ended.
pub open spec fn has_ended(run: Seq<Turn>, n: int) -> bool {
    exists|j: int|
        0 <= j < n && j < run.len() && (#[trigger] run[j]).op is PollRx && run[j].event is Ended
}

/// Whether an operation belongs to the end of a direction.
pub open spec fn is_last(op: ForwardOp) -> bool {
    match op {
        ForwardOp::CommitTx { eof, .. } => eof,
        ForwardOp::FlushTx { eof, .. } => eof,
        ForwardOp::CloseTx => true,
        _ => false,
    }
}

proof fn lemma_ends_late(start: ForwardState, run: Seq<Turn>, n: nat)
    requires
        is_run(start, run),
        n <= run.len(),
        !has_ended(run, n as int),
    ensures
        !(state_upto(start, run, n) is Closing),
        !(state_upto(start, run, n) is Done),
        forall|i: int| 0 <= i < n ==> !is_last((#[trigger] run[i]).op),
        n < run.len() ==> !is_last(run[n as int].op),
    decreases n,
{
    if n > 0 {
        let m = (n - 1) as nat;
        assert(!has_ended(run, m as int)) by {
            if has_ended(run, m as int) {
                let j = choose|j: int|
                    0 <= j < m && j < run.len() && (#[trigger] run[j]).op is PollRx
                        && run[j].event is Ended;
                assert(run[j].event is Ended);
            }
        }
        lemma_ends_late(start, run, m);
        assert(!(run[m as int].op is PollRx && run[m as int].event is Ended));
        assert(possible(run[m as int].op, run[m as int].event));
    }
    if n < run.len() {
        assert(wanted(start, run, n as int));
    }
}

/// The sink is told of the end, and closed, only after the source said that it has ended.
pub proof fn closed_only_once_the_source_ended(start: ForwardState, run: Seq<Turn>, i: int)
    requires
        is_run(start, run),
        0 <= i < run.len(),
        is_last(run[i].op),
    ensures
        has_ended(run, i),
{
    if !has_ended(run, i) {
        lemma_ends_late(start, run, i as nat);
    }
}

/// A direction is done only after the source said that it has ended, and the sink was closed.
pub proof fn done_only_once_closed(start: ForwardState, run: Seq<Turn>, n: nat)
    requires
        is_run(start, run),
        n <= run.len(),
        state_upto(start, run, n) is Done,
    ensures
        has_ended(run, n as int),
        exists|i: int|
            0 <= i < n && (#[trigger] run[i]).op is CloseTx && run[i].event is Finished,
    decreases n,
{
    if !has_ended(run, n as int) {
        lemma_ends_late(start, run, n);
    }
    if state_upto(start, run, (n - 1) as nat) is Done {
        done_only_once_closed(start, run, (n - 1) as nat);
        let i = choose|i: int|
            0 <= i < n - 1 && (#[trigger] run[i]).op is CloseTx && run[i].event is Finished;
        assert(run[i].op is CloseTx);
    } else {
        assert(possible(run[n - 1].op, run[n - 1].event));
        assert(run[n - 1].op is CloseTx);
    }
}

/// What the source gives goes to the sink, all of it and at once, with the word whether it was the
/// last; then the sink is flushed; and after a flush the source is asked again, unless it has ended,
/// in which case the sink is closed.
pub proof fn what_comes_goes_on(start: ForwardState, run: Seq<Turn>, i: int)
    requires
        is_run(start, run),
        0 <= i,
        i + 1 < run.len(),
    ensures
        ({
            let next = run[i + 1].op;
            &&& run[i].op is PollRx ==> (run[i].event matches ForwardEvent::Filled(len) ==> next == (
            ForwardOp::CommitTx { len, eof: false }))
            &&& run[i].op is PollRx ==> (run[i].event matches ForwardEvent::Ended(len) ==> next == (
            ForwardOp::CommitTx { len, eof: true }))
            &&& run[i].event is Finished ==> (run[i].op matches ForwardOp::CommitTx { len, eof }
                ==> next == (ForwardOp::FlushTx { len, eof }))
            &&& run[i].event is Finished ==> (run[i].op matches ForwardOp::FlushTx { eof, .. }
                ==> next == (if eof {
                ForwardOp::CloseTx
            } else {
                ForwardOp::RequestSize
            }))
            &&& run[i].op is RequestSize && run[i].event is Size ==> next is GetTxBuffer
            &&& run[i].op is GetTxBuffer && run[i].event is Finished ==> next is CommitRx
            &&& run[i].op is CommitRx && run[i].event is Finished ==> next is PollRx
        }),
{
    assert(possible(run[i].op, run[i].event));
    assert(wanted(start, run, i + 1));
}

/// How many bytes the source gave in the first `n` turns.
pub open spec fn given(run: Seq<Turn>, n: nat) -> nat
    decreases n,
{
    if n == 0 {
        0
    } else {
        given(run, (n - 1) as nat) + fill_of(run[n - 1])
    }
}

/// How many bytes the source gave in a turn.
pub open spec fn fill_of(turn: Turn) -> nat {
    match (turn.op, turn.event) {
        (ForwardOp::PollRx, ForwardEvent::Filled(len)) => len as nat,
        (ForwardOp::PollRx, ForwardEvent::Ended(len)) => len as nat,
        _ => 0,
    }
}

/// How many bytes were handed to the sink in the first `n` turns.
pub open spec fn handed_on(run: Seq<Turn>, n: nat) -> nat
    decreases n,
{
    if n == 0 {
        0
    } else {
        handed_on(run, (n - 1) as nat) + match run[n - 1].op {
            ForwardOp::CommitTx { len, .. } => len as nat,
            _ => 0,
        }
    }
}

/// What the sink gets is all that the source gave: nothing is lost, nothing is made up. Only what came
/// in the very last turn is still to be handed on.
pub proof fn nothing_is_lost(start: ForwardState, run: Seq<Turn>, n: nat)
    requires
        is_run(start, run),
        n <= run.len(),
    ensures
        given(run, n) == handed_on(run, n) + (if n == 0 {
            0
        } else {
            fill_of(run[n - 1])
        }),
    decreases n,
{
    if n > 0 {
        let m = (n - 1) as nat;
        nothing_is_lost(start, run, m);
        assert(wanted(start, run, m as int));
        assert(possible(run[m as int].op, run[m as int].event));
        if m > 0 {
            assert(possible(run[m - 1].op, run[m - 1].event));
        }
    }
}

/// A poll that cannot go on ends, and leaves everything as it is: it fails with what failed, after
/// the buffer that the source holds was handed back, or it waits.
pub proof fn failures_are_passed_on(state: ForwardState, op: ForwardOp, error: FlowError)
    ensures
        ({
            let failed = ForwardEvent::Failed(error);
            &&& state_after(state, op, failed) == state
            &&& counted(op, failed) == 0
            &&& next_after(state, op, failed) == (if op is CommitRx || op is PollRx {
                ForwardNext::ReturnBuffer(error)
            } else {
                ForwardNext::End(ForwardPoll::Ready(Err(error)))
            })
            &&& state_after(state, op, ForwardEvent::Pending) == state
            &&& counted(op, ForwardEvent::Pending) == 0
            &&& next_after(state, op, ForwardEvent::Pending) == (if op is RequestSize {
                ForwardNext::Do(ForwardOp::FlushIdle)
            } else {
                ForwardNext::End(ForwardPoll::Pending)
            })
        }),
{
}

/// A poll begins where the last one stopped, and one of a direction that is done says so at once.
pub proof fn polls_begin_where_they_stopped(hint: SizeHint)
    requires
        hint_fits(hint),
    ensures
        first_op(ForwardState::AwatingSizeHint) == ForwardNext::Do(ForwardOp::RequestSize),
        first_op(ForwardState::PollingRxBuf) == ForwardNext::Do(ForwardOp::PollRx),
        first_op(ForwardState::Closing) == ForwardNext::Do(ForwardOp::CloseTx),
        first_op(ForwardState::Done) == ForwardNext::End(ForwardPoll::Ready(Ok(()))),
        first_op(ForwardState::PollingTxBuf(hint)) matches ForwardNext::Do(
            ForwardOp::GetTxBuffer(n),
        ) && n == hint.with_min_content_spec(4096),
{
}

/// What is counted of a direction is exactly what was flushed.
pub proof fn flushed_bytes_count(op: ForwardOp, event: ForwardEvent)
    ensures
        counted(op, event) == (if op is FlushTx && event is Finished {
            op->FlushTx_len as u64
        } else {
            0
        }),
{
}

/// A poll of both directions fails as soon as one fails, and waits as long as one waits and none
/// fails. Which direction is which does not matter for whether it is done.
pub proof fn both_directions_count(a: ForwardPoll, b: ForwardPoll, error: FlowError)
    ensures
        both_spec(ForwardPoll::Ready(Err(error)), b) == ForwardPoll::Ready(Err(error)),
        !(a matches ForwardPoll::Ready(Err(_))) ==> both_spec(
            a,
            ForwardPoll::Ready(Err(error)),
        ) == ForwardPoll::Ready(Err(error)),
        !(a matches ForwardPoll::Ready(Err(_))) ==> both_spec(
            a,
            ForwardPoll::Pending,
        ) == ForwardPoll::Pending,
        !(b matches ForwardPoll::Ready(Err(_))) ==> both_spec(
            ForwardPoll::Pending,
            b,
        ) == ForwardPoll::Pending,
        both_spec(ForwardPoll::Ready(Ok(())), ForwardPoll::Ready(Ok(()))) == ForwardPoll::Ready(
            Ok(()),
        ),
{
}

// ---- Laws: a flow from its beginning ----
/// The first data is what came with the flow, and the client is read for it only where nothing did and
/// there is time to wait.
pub proof fn first_data_is_waited_for(h: &StreamForwardHandler<u8>, len: usize, r: FirstData)
    requires
        call_ensures(StreamForwardHandler::<u8>::first_data, (h, len), r),
    ensures
        r is Given <==> len > 0,
        r is Nothing <==> len == 0 && h.request_timeout == 0,
        r matches FirstData::Read { timeout_ms } ==> timeout_ms == h.request_timeout && timeout_ms
            > 0,
{
}

/// Copying from a client goes on where its first read stopped: one that said how much there is has that
/// much room made, and its buffer is got back first; any other is asked anew.
pub proof fn copying_goes_on_after_the_first_read(
    read: Option<FirstRead>,
    state: ForwardState,
    stat: &mut StatHandle,
    sent: usize,
    outbound: Result<usize, FlowError>,
    r: Opened,
)
    requires
        call_ensures(uplink_state, (read,), state),
        call_ensures(after_outbound, (stat, sent, outbound, state), r),
    ensures
        read matches Some(FirstRead::NoData(hint)) ==> state == ForwardState::PollingTxBuf(hint),
        !(read matches Some(FirstRead::NoData(_))) ==> state is AwatingSizeHint,
        r is CloseAndFail <==> outbound is Err,
        r matches Opened::CloseAndFail(e) ==> outbound == Err::<usize, FlowError>(e),
        r matches Opened::Run { reply, rescue } ==> outbound == Ok::<usize, FlowError>(reply) && (
        rescue <==> (read matches Some(FirstRead::NoData(_)))),
        final(stat).uplink_written == old(stat).uplink_written.wrapping_add(sent as u64),
        final(stat).downlink_written == old(stat).downlink_written,
        final(stat).tcp_connection_count == old(stat).tcp_connection_count,
{
}

/// What goes to the client first counts as downlink, and only there; flows are counted while they last.
pub proof fn replies_and_flows_are_counted(
    stat: &mut StatHandle,
    reply: usize,
    h: &mut StreamForwardHandler<u8>,
    g: &mut StreamForwardHandler<u8>,
)
    requires
        h.stat.tcp_connection_count < u32::MAX,
        call_ensures(after_reply, (stat, reply), ()),
        call_ensures(StreamForwardHandler::<u8>::on_stream, (h,), ()),
        *g == *final(h),
        call_ensures(StreamForwardHandler::<u8>::on_stream_end, (g,), ()),
    ensures
        final(stat).downlink_written == old(stat).downlink_written.wrapping_add(reply as u64),
        final(stat).uplink_written == old(stat).uplink_written,
        final(h).stat.tcp_connection_count == old(h).stat.tcp_connection_count + 1,
        final(g).stat == old(h).stat,
{
}

/// Getting the buffer back ends with what the client says, and before that with a failure of the other
/// direction; a direction that is done ends nothing.
pub proof fn buffers_are_got_back(client: ForwardPoll, downlink: ForwardPoll, r: ForwardPoll)
    requires
        call_ensures(poll_rescue, (client, downlink), r),
    ensures
        client is Ready ==> r == client,
        client is Pending && (downlink matches ForwardPoll::Ready(Err(_))) ==> r == downlink,
        client is Pending && !(downlink matches ForwardPoll::Ready(Err(_))) ==> r is Pending,
{
}

/// Where a source does not say how much there is, room is made for 4096 bytes and what each piece takes on
/// top; where it does, for that much.
pub proof fn room_is_made(hint: SizeHint, f: Forward, r: ForwardNext)
    requires
        f.state == ForwardState::PollingTxBuf(hint),
        hint_fits(hint),
        call_ensures(Forward::start, (&f,), r),
    ensures
        hint matches SizeHint::AtLeast(n) ==> r == ForwardNext::Do(ForwardOp::GetTxBuffer(n)),
        hint matches SizeHint::Unknown { overhead } ==> (r matches ForwardNext::Do(
            ForwardOp::GetTxBuffer(n),
        ) && n == 4096 + overhead),
{
}

} // verus!
