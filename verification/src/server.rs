//! The batch dispatcher: requests that pass validation wait in a buffer, and every tick
//! the buffer is detached whole, aggregated, and its callers are resumed in order.

use futures::sync::oneshot::{Receiver, Sender};
use vstd::prelude::*;
use crate::promise::{fulfil, promise, Outcome};

verus! {

/// How many requests a fresh buffer has room for.
pub const INITIAL_BATCH_CAPACITY: usize = 2048;

/// What validation makes of a request.
pub struct BatchedRequestData {
    /// Whether the request is refused. Then `output` is the answer to give at once.
    pub is_not_valid: bool,
    /// What aggregation is to work on.
    pub input: Vec<u8>,
    /// The answer for a refused request; for a valid one, what its output slot holds
    /// until aggregation fills it.
    pub output: Vec<u8>,
}

/// A request that waits for its batch.
pub struct BatchedRequest {
    /// What aggregation is to work on.
    pub input: Vec<u8>,
    /// The number of the request: each request of a batch has its own.
    pub ticket: u64,
    /// The caller's output slot.
    pub output: Vec<u8>,
    /// The promise that resumes the suspended caller; `None` once it was kept.
    pub caller: Option<Sender<Outcome>>,
}

/// A waiting request, as a value: all of it but the promise.
#[verifier::ext_equal]
pub struct RequestView {
    pub input: Seq<u8>,
    pub ticket: u64,
    pub output: Seq<u8>,
}

impl View for BatchedRequest {
    type V = RequestView;

    open spec fn view(&self) -> RequestView {
        RequestView { input: self.input@, ticket: self.ticket, output: self.output@ }
    }
}

/// The views of `requests`, in order.
pub open spec fn views_of(requests: Seq<BatchedRequest>) -> Seq<RequestView> {
    Seq::new(requests.len(), |i: int| requests[i]@)
}

/// What the two capabilities are that the host supplies. The one that aggregates is the
/// only code that changes the cache, which it owns.
pub trait App {
    /// Validates `request`. It may look at the cache and must not change it.
    fn preprocess(&self, request: Vec<u8>) -> BatchedRequestData;

    /// Aggregates one batch: takes the inputs in the order of their arrival and returns
    /// one output for each, in that order.
    fn process_batch(&mut self, inputs: &Vec<Vec<u8>>) -> Vec<Vec<u8>>;
}

/// How a request was resolved at intake.
pub enum Resolution {
    /// Refused by validation: the answer, to give at once. The request was not batched.
    Immediate(Vec<u8>),
    /// Batched under this ticket: the caller is to wait for the outcome, which comes when
    /// the batch of the request is settled.
    Suspended(u64, Receiver<Outcome>),
}

/// Where the dispatcher stands.
#[derive(Clone, Copy, Debug, PartialEq, Eq, Structural)]
pub enum DispatcherState {
    /// The buffer is empty.
    Idle,
    /// The buffer holds a request at least.
    Accumulating,
    /// A buffer was detached and is not settled yet.
    Draining,
}

/// The state of a dispatcher with `waiting` requests in its buffer, and a batch detached
/// or not.
pub open spec fn state_of(waiting: nat, detached: bool) -> DispatcherState {
    if detached {
        DispatcherState::Draining
    } else if waiting == 0 {
        DispatcherState::Idle
    } else {
        DispatcherState::Accumulating
    }
}

/// The ticket that comes `k` after ticket `t`; after `u64::MAX` comes 0.
pub open spec fn ticket_after(t: u64, k: nat) -> u64 {
    ((t + k) % 0x1_0000_0000_0000_0000) as u64
}

/// Going `a` tickets on and then `b` is going `a + b` on; going none on is staying.
pub proof fn lemma_ticket_after_add(t: u64, a: nat, b: nat)
    ensures
        ticket_after(ticket_after(t, a), b) == ticket_after(t, a + b),
        ticket_after(t, 0) == t,
        ticket_after(t, 1) == if t == u64::MAX {
            0
        } else {
            (t + 1) as u64
        },
{
    let m = 0x1_0000_0000_0000_0000int;
    let x = t + a;
    assert((x % m + b) % m == (x + b) % m) by {
        vstd::arithmetic::div_mod::lemma_add_mod_noop(x, b as int, m);
        vstd::arithmetic::div_mod::lemma_mod_twice(x, m);
        vstd::arithmetic::div_mod::lemma_add_mod_noop(x % m, b as int, m);
    }
}

/// Tickets that are less than 2^64 apart differ.
pub proof fn lemma_ticket_after_differs(t: u64, a: nat, b: nat)
    requires
        a < b,
        b - a < 0x1_0000_0000_0000_0000,
    ensures
        ticket_after(t, a) != ticket_after(t, b),
{
    let m = 0x1_0000_0000_0000_0000int;
    let x = t + a;
    let y = t + b;
    if x % m == y % m {
        vstd::arithmetic::div_mod::lemma_fundamental_div_mod(x, m);
        vstd::arithmetic::div_mod::lemma_fundamental_div_mod(y, m);
        let qx = x / m;
        let qy = y / m;
        assert(y - x == m * (qy - qx)) by (nonlinear_arith)
            requires
                x == m * qx + x % m,
                y == m * qy + y % m,
                x % m == y % m,
        ;
        assert(false) by (nonlinear_arith)
            requires
                y - x == m * (qy - qx),
                0 < y - x < m,
                m > 0,
        ;
    }
}

/// The tickets of `buffer` follow one another, and `next` follows the last.
pub open spec fn tickets_in_order(buffer: Seq<RequestView>, next: u64) -> bool {
    &&& buffer.len() < 0x1_0000_0000_0000_0000
    &&& forall|i: int|
        0 <= i < buffer.len() ==> (#[trigger] buffer[i]).ticket == ticket_after(
            buffer[0].ticket,
            i as nat,
        )
    &&& buffer.len() > 0 ==> next == ticket_after(buffer[0].ticket, buffer.len())
}

/// What happens to a dispatcher: a valid request arrives, or the timer fires.
pub enum BatchEvent {
    /// A request that passed validation, with what its output slot holds.
    Enqueue { input: Seq<u8>, output: Seq<u8> },
    /// The timer fired: the buffer is swapped for a fresh one.
    Swap,
}

/// A dispatcher and what it has detached so far.
#[verifier::ext_equal]
pub struct Dispatch {
    /// The requests that wait, in the order of their arrival.
    pub buffer: Seq<RequestView>,
    /// The ticket that the next request gets.
    pub next_ticket: u64,
    /// The batches detached so far, the first one first.
    pub batches: Seq<Seq<RequestView>>,
}

impl Dispatch {
    /// The dispatch after `event`: a request joins the end of the buffer under the next
    /// ticket; a swap moves the whole buffer to the batches and leaves an empty one.
    pub open spec fn step(self, event: BatchEvent) -> Dispatch {
        match event {
            BatchEvent::Enqueue { input, output } => Dispatch {
                buffer: self.buffer.push(RequestView { input, ticket: self.next_ticket, output }),
                next_ticket: ticket_after(self.next_ticket, 1),
                ..self
            },
            BatchEvent::Swap => Dispatch {
                buffer: Seq::empty(),
                batches: self.batches.push(self.buffer),
                ..self
            },
        }
    }

    /// The dispatch after each of `events` in turn.
    pub open spec fn run(self, events: Seq<BatchEvent>) -> Dispatch
        decreases events.len(),
    {
        if events.len() == 0 {
            self
        } else {
            self.run(events.drop_last()).step(events.last())
        }
    }
}

/// The transitions of the dispatcher: an arrival leaves it accumulating, whether it was
/// idle or accumulating; a swap detaches the buffer as it is, empty or not, and leaves an
/// idle buffer behind while the detached batch drains.
pub proof fn lemma_transitions(d: Dispatch, input: Seq<u8>, output: Seq<u8>)
    ensures
        state_of(d.step(BatchEvent::Enqueue { input, output }).buffer.len(), false)
            == DispatcherState::Accumulating,
        d.step(BatchEvent::Enqueue { input, output }).batches == d.batches,
        d.step(BatchEvent::Swap).batches.last() == d.buffer,
        state_of(d.step(BatchEvent::Swap).buffer.len(), true) == DispatcherState::Draining,
        state_of(d.step(BatchEvent::Swap).buffer.len(), false) == DispatcherState::Idle,
{
}

/// None of `events` is a swap.
pub open spec fn only_enqueues(events: Seq<BatchEvent>) -> bool {
    forall|i: int| 0 <= i < events.len() ==> (#[trigger] events[i]) is Enqueue
}

/// The requests that the arrivals `events` make, the first under ticket `next`.
pub open spec fn requests_of(next: u64, events: Seq<BatchEvent>) -> Seq<RequestView> {
    Seq::new(
        events.len(),
        |i: int|
            RequestView {
                input: events[i]->input,
                ticket: ticket_after(next, i as nat),
                output: events[i]->output,
            },
    )
}

/// Arrivals alone only lengthen the buffer, each request under its own ticket, in the
/// order of arrival.
pub proof fn lemma_arrivals(d: Dispatch, events: Seq<BatchEvent>)
    requires
        only_enqueues(events),
    ensures
        d.run(events).buffer == d.buffer + requests_of(d.next_ticket, events),
        d.run(events).batches == d.batches,
        d.run(events).next_ticket == ticket_after(d.next_ticket, events.len()),
    decreases events.len(),
{
    if events.len() > 0 {
        let front = events.drop_last();
        lemma_arrivals(d, front);
        assert(events[events.len() - 1] is Enqueue);
        assert(d.run(events).buffer =~= d.buffer + requests_of(d.next_ticket, events));
    } else {
        assert(d.run(events).buffer =~= d.buffer + requests_of(d.next_ticket, events));
    }
}

/// A swap parts what arrived before it from what arrives after it. Of the arrivals
/// `before`, then a swap, then the arrivals `after`: the batch that the swap detaches is the
/// buffer as it was with the requests of `before`, each once and in the order of arrival;
/// the buffer that is left holds the requests of `after` and nothing else; and no ticket is
/// on both sides.
pub proof fn lemma_batch_atomicity(d: Dispatch, before: Seq<BatchEvent>, after: Seq<BatchEvent>)
    requires
        tickets_in_order(d.buffer, d.next_ticket),
        only_enqueues(before),
        only_enqueues(after),
        d.buffer.len() + before.len() + after.len() < 0x1_0000_0000_0000_0000,
    ensures
        ({
            let end = d.run(before).step(BatchEvent::Swap).run(after);
            let batch = d.buffer + requests_of(d.next_ticket, before);
            let left = requests_of(ticket_after(d.next_ticket, before.len()), after);
            &&& end.batches == d.batches.push(batch)
            &&& end.buffer == left
            &&& forall|i: int, j: int|
                0 <= i < j < batch.len() ==> (#[trigger] batch[i]).ticket != (
                #[trigger] batch[j]).ticket
            &&& forall|i: int, j: int|
                0 <= i < j < left.len() ==> (#[trigger] left[i]).ticket != (
                #[trigger] left[j]).ticket
            &&& forall|i: int, j: int|
                0 <= i < batch.len() && 0 <= j < left.len() ==> (#[trigger] batch[i]).ticket != (
                #[trigger] left[j]).ticket
            &&& tickets_in_order(end.buffer, end.next_ticket)
        }),
{
    lemma_arrivals(d, before);
    let swapped = d.run(before).step(BatchEvent::Swap);
    lemma_arrivals(swapped, after);
    let end = swapped.run(after);
    let batch = d.buffer + requests_of(d.next_ticket, before);
    let middle = ticket_after(d.next_ticket, before.len());
    let left = requests_of(middle, after);
    assert(end.buffer =~= left);
    let first = if d.buffer.len() > 0 {
        d.buffer[0].ticket
    } else {
        d.next_ticket
    };
    lemma_ticket_after_add(first, 0, 0);
    assert forall|i: int| 0 <= i < batch.len() implies (#[trigger] batch[i]).ticket
        == ticket_after(first, i as nat) by {
        if i < d.buffer.len() {
            assert(batch[i] == d.buffer[i]);
        } else {
            let k = (i - d.buffer.len()) as nat;
            assert(batch[i] == requests_of(d.next_ticket, before)[k as int]);
            lemma_ticket_after_add(first, d.buffer.len(), k);
        }
    }
    lemma_ticket_after_add(first, d.buffer.len(), before.len());
    assert forall|j: int| 0 <= j < left.len() implies (#[trigger] left[j]).ticket == ticket_after(
        first,
        (batch.len() + j) as nat,
    ) by {
        lemma_ticket_after_add(first, batch.len(), j as nat);
    }
    assert forall|i: int, j: int| 0 <= i < j < batch.len() implies (#[trigger] batch[i]).ticket != (
    #[trigger] batch[j]).ticket by {
        lemma_ticket_after_differs(first, i as nat, j as nat);
    }
    assert forall|i: int, j: int| 0 <= i < j < left.len() implies (#[trigger] left[i]).ticket != (
    #[trigger] left[j]).ticket by {
        lemma_ticket_after_differs(first, (batch.len() + i) as nat, (batch.len() + j) as nat);
    }
    assert forall|i: int, j: int| 0 <= i < batch.len() && 0 <= j < left.len() implies (
    #[trigger] batch[i]).ticket != (#[trigger] left[j]).ticket by {
        lemma_ticket_after_differs(first, i as nat, (batch.len() + j) as nat);
    }
    assert(tickets_in_order(end.buffer, end.next_ticket)) by {
        lemma_ticket_after_add(middle, 0, 0);
        assert forall|i: int| 0 <= i < left.len() implies (#[trigger] left[i]).ticket
            == ticket_after(left[0].ticket, i as nat) by {}
    }
}

/// A batch that was detached and is not settled: while it is out, the dispatcher drains.
/// A batch that is dropped unsettled breaks its promises: its callers learn that nobody
/// will answer.
pub struct DetachedBatch {
    entries: Vec<BatchedRequest>,
}

impl View for DetachedBatch {
    type V = Seq<RequestView>;

    closed spec fn view(&self) -> Seq<RequestView> {
        views_of(self.entries@)
    }
}

impl DetachedBatch {
    /// How many requests the batch holds.
    pub fn len(&self) -> (n: usize)
        ensures
            n == self@.len(),
    {
        self.entries.len()
    }

    /// The inputs of the batch, in the order of arrival: what aggregation is handed.
    pub fn inputs(&self) -> (inputs: Vec<Vec<u8>>)
        ensures
            inputs@.len() == self@.len(),
            forall|i: int| 0 <= i < inputs@.len() ==> (#[trigger] inputs@[i])@ == self@[i].input,
    {
        let mut inputs: Vec<Vec<u8>> = Vec::with_capacity(self.entries.len());
        let mut i: usize = 0;
        while i < self.entries.len()
            invariant
                i <= self.entries@.len(),
                inputs@.len() == i,
                forall|k: int|
                    0 <= k < i ==> (#[trigger] inputs@[k])@ == self.entries@[k].input@,
            decreases self.entries@.len() - i,
        {
            inputs.push(copy_of(&self.entries[i].input));
            i = i + 1;
        }
        inputs
    }
}

fn copy_of(bytes: &Vec<u8>) -> (copy: Vec<u8>)
    ensures
        copy@ == bytes@,
{
    let mut copy: Vec<u8> = Vec::with_capacity(bytes.len());
    let mut i: usize = 0;
    while i < bytes.len()
        invariant
            i <= bytes@.len(),
            copy@ == bytes@.subrange(0, i as int),
        decreases bytes@.len() - i,
    {
        copy.push(bytes[i]);
        assert(copy@ =~= bytes@.subrange(0, i + 1));
        i = i + 1;
    }
    assert(bytes@.subrange(0, bytes@.len() as int) =~= bytes@);
    copy
}

/// What became of a batch.
pub struct Settlement {
    /// Whether aggregation failed for the batch: it did not return one output for each
    /// request. Then every caller of the batch was told so, and may come again.
    pub failed: bool,
    /// The requests of the batch in the order of their arrival, which is the order in
    /// which their callers were resumed; each with its output slot filled, unless
    /// aggregation failed.
    pub entries: Vec<BatchedRequest>,
}

/// What a batch is settled to under the outputs that aggregation returned: with one output
/// for each request, each slot holds its output; else the batch has failed as a whole and
/// the slots hold what they did.
pub open spec fn settled(batch: Seq<RequestView>, outputs: Seq<Seq<u8>>) -> (bool, Seq<RequestView>) {
    if outputs.len() == batch.len() {
        (false, Seq::new(batch.len(), |i: int| RequestView { output: outputs[i], ..batch[i] }))
    } else {
        (true, batch)
    }
}

/// What intake makes of a validated request: a refused one is answered at once and leaves
/// the buffer as it is; a valid one joins the end of the buffer under the next ticket.
pub open spec fn taken_in(
    buffer: Seq<RequestView>,
    next_ticket: u64,
    is_not_valid: bool,
    input: Seq<u8>,
    output: Seq<u8>,
) -> (Seq<RequestView>, u64) {
    if is_not_valid {
        (buffer, next_ticket)
    } else {
        (
            buffer.push(RequestView { input, ticket: next_ticket, output }),
            ticket_after(next_ticket, 1),
        )
    }
}

/// The dispatcher, with the host's capabilities.
pub struct Server<A: App> {
    app: A,
    batch: Vec<BatchedRequest>,
    next_ticket: u64,
}

impl<A: App> Server<A> {
    /// The requests that wait, in the order of their arrival.
    pub closed spec fn buffer(self) -> Seq<RequestView> {
        views_of(self.batch@)
    }

    /// The ticket that the next request gets.
    pub closed spec fn next_ticket(self) -> u64 {
        self.next_ticket
    }

    /// The host's capabilities.
    pub closed spec fn app(self) -> A {
        self.app
    }

    /// The tickets of the buffer follow one another, and the next ticket follows the last.
    pub open spec fn wf(self) -> bool {
        tickets_in_order(self.buffer(), self.next_ticket())
    }

    /// Where the dispatcher stands while no batch is detached.
    pub open spec fn state(self) -> DispatcherState {
        state_of(self.buffer().len(), false)
    }

    /// A dispatcher for `app`: idle, its buffer empty.
    pub fn new(app: A) -> (server: Server<A>)
        ensures
            server.wf(),
            server.buffer() == Seq::<RequestView>::empty(),
            server.next_ticket() == 0,
            server.state() == DispatcherState::Idle,
            server.app() == app,
    {
        let server = Server { app, batch: Vec::with_capacity(INITIAL_BATCH_CAPACITY), next_ticket: 0 };
        assert(server.buffer() =~= Seq::<RequestView>::empty());
        server
    }

    /// Gives the capabilities back; the requests that wait are dropped.
    pub fn into_app(self) -> (app: A)
        ensures
            app == self.app(),
    {
        self.app
    }

    /// Where the dispatcher stands: idle or accumulating.
    pub fn current_state(&self) -> (state: DispatcherState)
        ensures
            state == self.state(),
    {
        if self.batch.len() == 0 {
            DispatcherState::Idle
        } else {
            DispatcherState::Accumulating
        }
    }

    /// How many requests wait.
    pub fn waiting(&self) -> (n: usize)
        ensures
            n == self.buffer().len(),
    {
        self.batch.len()
    }

    /// Puts a request with `input`, and `output` in its slot, at the end of the buffer,
    /// with a fresh promise for its caller. Returns the request's ticket, the next one, and
    /// the future of its outcome. This always succeeds, and the dispatcher is accumulating
    /// after it.
    pub fn enqueue(&mut self, input: Vec<u8>, output: Vec<u8>) -> (suspended: (
        u64,
        Receiver<Outcome>,
    ))
        requires
            old(self).wf(),
        ensures
            final(self).wf(),
            suspended.0 == old(self).next_ticket(),
            final(self).buffer() == old(self).buffer().push(
                RequestView { input: input@, ticket: suspended.0, output: output@ },
            ),
            final(self).next_ticket() == ticket_after(suspended.0, 1),
            final(self).state() == DispatcherState::Accumulating,
            final(self).app() == old(self).app(),
    {
        let ticket: u64 = self.next_ticket;
        let (caller, answer) = promise();
        self.batch.push(BatchedRequest { input, ticket, output, caller: Some(caller) });
        let waiting: usize = self.batch.len();
        self.next_ticket = if ticket == u64::MAX {
            0
        } else {
            ticket + 1
        };
        proof {
            assert(self.buffer() =~= old(self).buffer().push(
                RequestView { input: input@, ticket, output: output@ },
            ));
            let first = self.buffer()[0].ticket;
            let n = old(self).buffer().len();
            lemma_ticket_after_add(first, n, 1);
            lemma_ticket_after_add(ticket, 0, 1);
            if n > 0 {
                assert(self.buffer()[0] == old(self).buffer()[0]);
            }
            assert forall|i: int| 0 <= i < self.buffer().len() implies (
            #[trigger] self.buffer()[i]).ticket == ticket_after(first, i as nat) by {
                if i < n {
                    assert(self.buffer()[i] == old(self).buffer()[i]);
                }
            }
            assert(self.buffer().len() == waiting);
        }
        (ticket, answer)
    }

    /// Takes up what validation made of a request. A refused request is answered at once
    /// with the output that validation gave, and is not batched; a valid one joins the end
    /// of the buffer under the next ticket, and its caller is to wait for the outcome.
    pub fn take_in(&mut self, data: BatchedRequestData) -> (resolution: Resolution)
        requires
            old(self).wf(),
        ensures
            final(self).wf(),
            final(self).app() == old(self).app(),
            (final(self).buffer(), final(self).next_ticket()) == taken_in(
                old(self).buffer(),
                old(self).next_ticket(),
                data.is_not_valid,
                data.input@,
                data.output@,
            ),
            match resolution {
                Resolution::Immediate(output) => data.is_not_valid && output@ == data.output@,
                Resolution::Suspended(ticket, _) => !data.is_not_valid && ticket == old(self).next_ticket(),
            },
    {
        if data.is_not_valid {
            Resolution::Immediate(data.output)
        } else {
            let (ticket, answer) = self.enqueue(data.input, data.output);
            Resolution::Suspended(ticket, answer)
        }
    }

    /// Resolves a request: has it validated, and takes up the outcome as `take_in` does.
    /// Whatever validation says, a refused request leaves the buffer as it is and a valid
    /// one lengthens it by itself.
    pub fn resolve(&mut self, request: Vec<u8>) -> (resolution: Resolution)
        requires
            old(self).wf(),
        ensures
            final(self).wf(),
            final(self).app() == old(self).app(),
            resolution is Immediate ==> final(self).buffer() == old(self).buffer() && final(self).next_ticket() == old(self).next_ticket(),
            resolution is Suspended ==> {
                &&& final(self).buffer().len() == old(self).buffer().len() + 1
                &&& final(self).buffer().drop_last() == old(self).buffer()
                &&& final(self).buffer().last().ticket == old(self).next_ticket()
                &&& final(self).next_ticket() == ticket_after(old(self).next_ticket(), 1)
            },
            exists|is_not_valid: bool, input: Seq<u8>, output: Seq<u8>|
                {
                    &&& (final(self).buffer(), final(self).next_ticket()) == #[trigger] taken_in(
                        old(self).buffer(),
                        old(self).next_ticket(),
                        is_not_valid,
                        input,
                        output,
                    )
                    &&& match resolution {
                        Resolution::Immediate(out) => is_not_valid && out@ == output,
                        Resolution::Suspended(ticket, _) => !is_not_valid && ticket == old(self).next_ticket(),
                    }
                },
    {
        let data = self.app.preprocess(request);
        let ghost is_not_valid = data.is_not_valid;
        let ghost input = data.input@;
        let ghost output = data.output@;
        let resolution = self.take_in(data);
        proof {
            assert((self.buffer(), self.next_ticket()) == taken_in(
                old(self).buffer(),
                old(self).next_ticket(),
                is_not_valid,
                input,
                output,
            ));
            if !is_not_valid {
                assert(self.buffer().drop_last() =~= old(self).buffer());
            }
        }
        resolution
    }

    /// The timer's tick: detaches the buffer whole and leaves a fresh, empty one in its
    /// place, in one step. It does so whether or not a request waits. What arrived before
    /// is in the batch, in the order of arrival; what arrives from now on will be in a
    /// later one.
    pub fn detach(&mut self) -> (detached: DetachedBatch)
        requires
            old(self).wf(),
        ensures
            final(self).wf(),
            detached@ == old(self).buffer(),
            final(self).buffer() == Seq::<RequestView>::empty(),
            final(self).next_ticket() == old(self).next_ticket(),
            final(self).state() == DispatcherState::Idle,
            final(self).app() == old(self).app(),
    {
        let mut entries: Vec<BatchedRequest> = Vec::with_capacity(INITIAL_BATCH_CAPACITY);
        std::mem::swap(&mut self.batch, &mut entries);
        assert(self.buffer() =~= Seq::<RequestView>::empty());
        DetachedBatch { entries }
    }

    /// Settles a batch with the outputs that aggregation returned for it, and resumes its
    /// callers in the order of their arrival. With one output for each request, each
    /// request's slot is filled with its output, and its caller is resumed with it. Else
    /// aggregation has failed for the batch as a whole: every slot is left as it was, and
    /// every caller is resumed with `AggregationFailed`. Either way the requests come back
    /// in the order of their arrival, their promises kept.
    pub fn settle(detached: DetachedBatch, outputs: Vec<Vec<u8>>) -> (settlement: Settlement)
        ensures
            (settlement.failed, views_of(settlement.entries@)) == settled(
                detached@,
                Seq::new(outputs@.len(), |i: int| outputs@[i]@),
            ),
            settlement.failed <==> outputs@.len() != detached@.len(),
            settlement.entries@.len() == detached@.len(),
    {
        let mut entries = detached.entries;
        let mut outputs = outputs;
        let ghost batch = views_of(entries@);
        let ghost given = Seq::new(outputs@.len(), |i: int| outputs@[i]@);
        let n: usize = entries.len();
        let failed: bool = outputs.len() != n;
        let mut i: usize = 0;
        while i < n
            invariant
                i <= n,
                n == entries@.len(),
                n == batch.len(),
                given.len() == outputs@.len(),
                failed <==> outputs@.len() != n,
                failed ==> views_of(entries@) == batch,
                !failed ==> forall|k: int|
                    0 <= k < i ==> (#[trigger] entries@[k])@ == (RequestView {
                        output: given[k],
                        ..batch[k]
                    }),
                !failed ==> forall|k: int| i <= k < n ==> (#[trigger] entries@[k])@ == batch[k],
                !failed ==> forall|k: int| i <= k < n ==> (#[trigger] outputs@[k])@ == given[k],
            decreases n - i,
        {
            let ghost before = views_of(entries@);
            if !failed {
                std::mem::swap(&mut entries[i].output, &mut outputs[i]);
            }
            let caller = entries[i].caller.take();
            if let Some(caller) = caller {
                let outcome = if failed {
                    Outcome::AggregationFailed
                } else {
                    Outcome::Completed(copy_of(&entries[i].output))
                };
                let _ = fulfil(caller, outcome);
            }
            proof {
                if failed {
                    assert(views_of(entries@) =~= before);
                }
            }
            i = i + 1;
        }
        proof {
            if !failed {
                assert(views_of(entries@) =~= settled(batch, given).1);
            }
        }
        Settlement { failed, entries }
    }

    /// One drain: detaches the buffer, hands its inputs to aggregation, settles the batch
    /// with what aggregation returned, and resumes the callers. Whatever aggregation
    /// returned, the buffer is empty after it, and the settlement holds the requests that
    /// waited, each once and in the order of their arrival.
    pub fn drain(&mut self) -> (settlement: Settlement)
        requires
            old(self).wf(),
        ensures
            final(self).wf(),
            final(self).buffer() == Seq::<RequestView>::empty(),
            final(self).next_ticket() == old(self).next_ticket(),
            final(self).state() == DispatcherState::Idle,
            settlement.entries@.len() == old(self).buffer().len(),
            forall|i: int|
                0 <= i < settlement.entries@.len() ==> (#[trigger] settlement.entries@[i]).ticket
                    == old(self).buffer()[i].ticket && settlement.entries@[i].input@ == old(self).buffer()[i].input,
            exists|outputs: Seq<Seq<u8>>|
                (settlement.failed, views_of(settlement.entries@)) == #[trigger] settled(
                    old(self).buffer(),
                    outputs,
                ),
    {
        let detached = self.detach();
        let inputs = detached.inputs();
        let outputs = self.app.process_batch(&inputs);
        let ghost given = Seq::new(outputs@.len(), |i: int| outputs@[i]@);
        let settlement = Self::settle(detached, outputs);
        proof {
            assert((settlement.failed, views_of(settlement.entries@)) == settled(
                old(self).buffer(),
                given,
            ));
            lemma_settlement_keeps_order(old(self).buffer(), given);
            assert forall|i: int| 0 <= i < settlement.entries@.len() implies (
            #[trigger] settlement.entries@[i]).ticket == old(self).buffer()[i].ticket
                && settlement.entries@[i].input@ == old(self).buffer()[i].input by {
                assert(views_of(settlement.entries@)[i] == settlement.entries@[i]@);
            }
        }
        settlement
    }
}

/// A settlement keeps the batch: as many requests, each with its input and its ticket, in
/// the same order, whatever aggregation returned.
pub proof fn lemma_settlement_keeps_order(batch: Seq<RequestView>, outputs: Seq<Seq<u8>>)
    ensures
        settled(batch, outputs).1.len() == batch.len(),
        forall|i: int|
            0 <= i < batch.len() ==> (#[trigger] settled(batch, outputs).1[i]).ticket
                == batch[i].ticket && settled(batch, outputs).1[i].input == batch[i].input,
        settled(batch, outputs).0 <==> outputs.len() != batch.len(),
{
}

} // verus!
