use futures::sync::oneshot::Receiver;
use futures::Future;
use poll_cache::promise::Outcome;
use poll_cache::server::{
    App, BatchedRequestData, DetachedBatch, DispatcherState, Resolution, Server,
    INITIAL_BATCH_CAPACITY,
};

struct Doubler {
    batches: usize,
    broken: bool,
}

impl App for Doubler {
    fn preprocess(&self, request: Vec<u8>) -> BatchedRequestData {
        if request.is_empty() || request[0] == 0 {
            BatchedRequestData { is_not_valid: true, input: Vec::new(), output: vec![0xee, 1] }
        } else {
            BatchedRequestData { is_not_valid: false, input: request, output: Vec::new() }
        }
    }

    fn process_batch(&mut self, inputs: &Vec<Vec<u8>>) -> Vec<Vec<u8>> {
        self.batches += 1;
        let mut outputs: Vec<Vec<u8>> = Vec::new();
        for input in inputs.iter() {
            outputs.push(vec![input[0].wrapping_mul(2), self.batches as u8]);
        }
        if self.broken {
            outputs.push(Vec::new());
        }
        outputs
    }
}

fn suspended(resolution: Resolution) -> (u64, Receiver<Outcome>) {
    match resolution {
        Resolution::Suspended(ticket, answer) => (ticket, answer),
        Resolution::Immediate(_) => panic!("the request is valid"),
    }
}

fn detached_tickets(batch: DetachedBatch) -> Vec<u64> {
    let settlement = Server::<Doubler>::settle(batch, Vec::new());
    let mut tickets: Vec<u64> = Vec::new();
    for entry in settlement.entries.iter() {
        tickets.push(entry.ticket);
    }
    tickets
}

#[test]
fn initial_batch_capacity_is_2048() {
    assert_eq!(INITIAL_BATCH_CAPACITY, 2048);
}

#[test]
fn server_starts_idle() {
    let server = Server::new(Doubler { batches: 0, broken: false });
    assert_eq!(server.current_state(), DispatcherState::Idle);
    assert_eq!(server.waiting(), 0);
    assert_eq!(server.into_app().batches, 0);
}

#[test]
fn enqueue_accumulates_in_order() {
    let mut server = Server::new(Doubler { batches: 0, broken: false });
    assert_eq!(server.enqueue(vec![1], vec![]).0, 0);
    assert_eq!(server.current_state(), DispatcherState::Accumulating);
    assert_eq!(server.enqueue(vec![2], vec![]).0, 1);
    assert_eq!(server.enqueue(vec![3], vec![]).0, 2);
    assert_eq!(server.waiting(), 3);
    let batch = server.detach();
    assert_eq!(batch.len(), 3);
    assert_eq!(batch.inputs(), vec![vec![1], vec![2], vec![3]]);
    assert_eq!(server.current_state(), DispatcherState::Idle);
    assert_eq!(server.waiting(), 0);
    assert_eq!(server.enqueue(vec![4], vec![]).0, 3);
}

#[test]
fn detach_of_an_empty_buffer_gives_an_empty_batch() {
    let mut server = Server::new(Doubler { batches: 0, broken: false });
    let batch = server.detach();
    assert_eq!(batch.len(), 0);
    assert!(batch.inputs().is_empty());
    let settlement = Server::<Doubler>::settle(batch, Vec::new());
    assert!(!settlement.failed);
    assert!(settlement.entries.is_empty());
    let drained = server.drain();
    assert!(!drained.failed);
    assert!(drained.entries.is_empty());
    assert_eq!(server.into_app().batches, 1);
}

#[test]
fn take_in_answers_a_refused_request_at_once() {
    let mut server = Server::new(Doubler { batches: 0, broken: false });
    let refused = BatchedRequestData { is_not_valid: true, input: vec![1], output: vec![9, 9] };
    match server.take_in(refused) {
        Resolution::Immediate(output) => assert_eq!(output, vec![9, 9]),
        Resolution::Suspended(_, _) => panic!("the request was refused"),
    }
    assert_eq!(server.waiting(), 0);
    let valid = BatchedRequestData { is_not_valid: false, input: vec![1], output: vec![7] };
    let (ticket, answer) = suspended(server.take_in(valid));
    assert_eq!(ticket, 0);
    assert_eq!(server.waiting(), 1);
    let settlement = Server::<Doubler>::settle(server.detach(), vec![vec![5], vec![6]]);
    assert!(settlement.failed);
    assert_eq!(settlement.entries[0].output, vec![7]);
    assert_eq!(settlement.entries[0].input, vec![1]);
    assert_eq!(answer.wait(), Ok(Outcome::AggregationFailed));
}

#[test]
fn settle_fills_each_slot_and_resumes_each_caller() {
    let mut server = Server::new(Doubler { batches: 0, broken: false });
    let (_, first) = server.enqueue(vec![1], vec![0]);
    let (_, second) = server.enqueue(vec![2], vec![0]);
    let settlement = Server::<Doubler>::settle(server.detach(), vec![vec![10], vec![20, 21]]);
    assert!(!settlement.failed);
    assert_eq!(settlement.entries.len(), 2);
    assert_eq!(settlement.entries[0].ticket, 0);
    assert_eq!(settlement.entries[0].input, vec![1]);
    assert_eq!(settlement.entries[0].output, vec![10]);
    assert!(settlement.entries[0].caller.is_none());
    assert_eq!(settlement.entries[1].ticket, 1);
    assert_eq!(settlement.entries[1].input, vec![2]);
    assert_eq!(settlement.entries[1].output, vec![20, 21]);
    assert_eq!(first.wait(), Ok(Outcome::Completed(vec![10])));
    assert_eq!(second.wait(), Ok(Outcome::Completed(vec![20, 21])));
}

#[test]
fn settle_fails_the_whole_batch_on_a_wrong_number_of_outputs() {
    let mut server = Server::new(Doubler { batches: 0, broken: false });
    let (_, first) = server.enqueue(vec![1], vec![3]);
    let (_, second) = server.enqueue(vec![2], vec![4]);
    let settlement = Server::<Doubler>::settle(server.detach(), vec![vec![10]]);
    assert!(settlement.failed);
    assert_eq!(settlement.entries.len(), 2);
    assert_eq!(settlement.entries[0].ticket, 0);
    assert_eq!(settlement.entries[0].output, vec![3]);
    assert_eq!(settlement.entries[1].ticket, 1);
    assert_eq!(settlement.entries[1].output, vec![4]);
    assert_eq!(first.wait(), Ok(Outcome::AggregationFailed));
    assert_eq!(second.wait(), Ok(Outcome::AggregationFailed));
}

#[test]
fn settle_goes_on_where_a_caller_is_gone() {
    let mut server = Server::new(Doubler { batches: 0, broken: false });
    let (_, first) = server.enqueue(vec![1], vec![]);
    let (_, second) = server.enqueue(vec![2], vec![]);
    drop(first);
    let settlement = server.drain();
    assert!(!settlement.failed);
    assert_eq!(settlement.entries.len(), 2);
    assert_eq!(second.wait(), Ok(Outcome::Completed(vec![4, 1])));
}

#[test]
fn a_batch_dropped_unsettled_breaks_its_promises() {
    let mut server = Server::new(Doubler { batches: 0, broken: false });
    let (_, mut answer) = server.enqueue(vec![1], vec![]);
    let batch = server.detach();
    drop(batch);
    assert!(answer.poll().is_err());
}

#[test]
fn drain_reports_a_failed_aggregation_and_goes_on() {
    let mut server = Server::new(Doubler { batches: 0, broken: true });
    let (ticket, answer) = suspended(server.resolve(vec![1]));
    assert_eq!(ticket, 0);
    let settlement = server.drain();
    assert!(settlement.failed);
    assert_eq!(settlement.entries.len(), 1);
    assert_eq!(settlement.entries[0].ticket, 0);
    assert_eq!(answer.wait(), Ok(Outcome::AggregationFailed));
    assert_eq!(server.waiting(), 0);
    let (next, _) = suspended(server.resolve(vec![2]));
    assert_eq!(next, 1);
    let again = server.drain();
    assert!(again.failed);
    assert_eq!(again.entries[0].ticket, 1);
}

#[test]
fn a_swap_parts_what_came_before_from_what_comes_after() {
    let mut server = Server::new(Doubler { batches: 0, broken: false });
    let a = server.enqueue(vec![1], vec![]).0;
    let b = server.enqueue(vec![2], vec![]).0;
    let first = server.detach();
    let c = server.enqueue(vec![3], vec![]).0;
    let second = server.detach();
    let third = server.detach();
    assert_eq!(detached_tickets(first), vec![a, b]);
    assert_eq!(detached_tickets(second), vec![c]);
    assert_eq!(detached_tickets(third), Vec::<u64>::new());
    assert!(a != b && b != c && a != c);
}

#[test]
fn three_valid_and_one_invalid_in_one_window() {
    let mut server = Server::new(Doubler { batches: 0, broken: false });
    let (first, first_answer) = suspended(server.resolve(vec![10]));
    let (second, second_answer) = suspended(server.resolve(vec![20]));
    match server.resolve(vec![0, 5]) {
        Resolution::Immediate(output) => assert_eq!(output, vec![0xee, 1]),
        Resolution::Suspended(_, _) => panic!("the request is invalid"),
    }
    let (third, third_answer) = suspended(server.resolve(vec![30]));
    assert_eq!(server.waiting(), 3);
    assert_eq!(server.current_state(), DispatcherState::Accumulating);

    let settlement = server.drain();
    assert!(!settlement.failed);
    assert_eq!(settlement.entries.len(), 3);
    assert_eq!(settlement.entries[0].ticket, first);
    assert_eq!(settlement.entries[0].output, vec![20, 1]);
    assert_eq!(settlement.entries[1].ticket, second);
    assert_eq!(settlement.entries[1].output, vec![40, 1]);
    assert_eq!(settlement.entries[2].ticket, third);
    assert_eq!(settlement.entries[2].output, vec![60, 1]);
    assert_eq!(first_answer.wait(), Ok(Outcome::Completed(vec![20, 1])));
    assert_eq!(second_answer.wait(), Ok(Outcome::Completed(vec![40, 1])));
    assert_eq!(third_answer.wait(), Ok(Outcome::Completed(vec![60, 1])));
    assert_eq!(server.current_state(), DispatcherState::Idle);

    let next = server.drain();
    assert!(!next.failed);
    assert!(next.entries.is_empty());
}
