//! Producers and the decisions of the production loop.
//!
//! The production loop receives the generated messages one by one. An
//! empty message marks the end of the run; every other message is handed
//! to the producer, and every `QUEUE_REPORT_INTERVAL`-th of them is also
//! the moment to report how many messages still wait in the channel.

pub mod kafka;
pub mod redis;
pub mod stdout;

use vstd::prelude::*;

verus! {

/// How many produced messages lie between two reports of the queue size.
pub const QUEUE_REPORT_INTERVAL: u64 = 200;

/// What the production loop does with a message it received.
#[derive(Clone, Copy, Debug, PartialEq, Eq, Structural)]
pub enum ProductionAction {
    /// The end-of-run marker: stop producing.
    Stop,
    /// Hand the message to the producer, after reporting the size of the
    /// queue when `report_queue` holds.
    Produce { report_queue: bool },
}

/// The action for a message of `message_len` bytes after `produced`
/// messages, and the number of messages produced after it.
pub open spec fn spec_on_message(produced: nat, message_len: nat) -> (ProductionAction, nat) {
    if message_len == 0 {
        (ProductionAction::Stop, produced)
    } else {
        (
            ProductionAction::Produce {
                report_queue: (produced + 1) % (QUEUE_REPORT_INTERVAL as nat) == 0,
            },
            produced + 1,
        )
    }
}

/// The actions taken on messages of the given lengths, in order, after
/// `produced` messages, and the number of messages produced in the end.
/// The loop takes no message after the first empty one, on which it stops.
pub open spec fn spec_production_run(produced: nat, message_lens: Seq<nat>) -> (
    Seq<ProductionAction>,
    nat,
)
    decreases message_lens.len(),
{
    if message_lens.len() == 0 {
        (Seq::empty(), produced)
    } else {
        let (action, next) = spec_on_message(produced, message_lens[0]);
        if action == ProductionAction::Stop {
            (seq![action], next)
        } else {
            let (rest, last) = spec_production_run(next, message_lens.drop_first());
            (seq![action] + rest, last)
        }
    }
}

/// The actions on `n` non-empty messages after `produced` messages.
pub open spec fn produce_actions(produced: nat, n: nat) -> Seq<ProductionAction> {
    Seq::new(
        n,
        |i: int|
            ProductionAction::Produce {
                report_queue: (produced + i + 1) % (QUEUE_REPORT_INTERVAL as int) == 0,
            },
    )
}

/// The loop hands every message before the first empty one to the
/// producer, reports the queue after every `QUEUE_REPORT_INTERVAL`-th of
/// them, stops on the empty message and takes nothing after it.
pub proof fn lemma_production_stops_at_marker(
    produced: nat,
    before: Seq<nat>,
    after: Seq<nat>,
)
    requires
        forall|i: int| 0 <= i < before.len() ==> before[i] > 0,
    ensures
        spec_production_run(produced, before + seq![0nat] + after) == (
            produce_actions(produced, before.len()).push(ProductionAction::Stop),
            produced + before.len(),
        ),
    decreases before.len(),
{
    let lens = before + seq![0nat] + after;
    if before.len() == 0 {
        assert(lens[0] == 0);
        assert(produce_actions(produced, 0).push(ProductionAction::Stop) == seq![
            ProductionAction::Stop,
        ]);
    } else {
        let rest = before.drop_first();
        assert forall|i: int| 0 <= i < rest.len() implies rest[i] > 0 by {
            assert(rest[i] == before[i + 1]);
        }
        lemma_production_stops_at_marker(produced + 1, rest, after);
        assert(lens[0] == before[0]);
        assert(lens.drop_first() == rest + seq![0nat] + after);
        assert(produce_actions(produced, before.len()).push(ProductionAction::Stop) == seq![
            ProductionAction::Produce {
                report_queue: (produced + 1) % (QUEUE_REPORT_INTERVAL as nat) == 0,
            },
        ] + produce_actions(produced + 1, rest.len()).push(ProductionAction::Stop));
    }
}

/// A generation run of `n` messages of `size > 0` bytes, closed by the
/// empty end-of-run marker, is produced in full: every message is handed
/// to the producer, the queue is reported after every
/// `QUEUE_REPORT_INTERVAL`-th of them, and the loop stops on the marker.
/// (Messages of size 0 would read as the marker and stop the loop at once.)
pub proof fn lemma_generated_run_is_produced(produced: nat, n: nat, size: nat)
    requires
        size > 0,
    ensures
        spec_production_run(produced, Seq::new(n, |i: int| size).push(0)) == (
            produce_actions(produced, n).push(ProductionAction::Stop),
            produced + n,
        ),
{
    let before = Seq::new(n, |i: int| size);
    lemma_production_stops_at_marker(produced, before, Seq::empty());
    assert(before + seq![0nat] + Seq::<nat>::empty() == before.push(0));
}

/// The state of the production loop: how many messages it has produced.
pub struct ProductionState {
    pub counter: u64,
}

impl ProductionState {
    /// The state before the first message.
    pub fn new() -> (s: Self)
        ensures
            s.counter == 0,
    {
        ProductionState { counter: 0 }
    }

    /// Decides what to do with the next message received.
    pub fn on_message(&mut self, message: &Vec<u8>) -> (action: ProductionAction)
        requires
            message@.len() > 0 ==> old(self).counter < u64::MAX,
        ensures
            (action, final(self).counter as nat) == spec_on_message(
                old(self).counter as nat,
                message@.len(),
            ),
    {
        if message.len() == 0 {
            ProductionAction::Stop
        } else {
            self.counter = self.counter + 1;
            ProductionAction::Produce { report_queue: self.counter % QUEUE_REPORT_INTERVAL == 0 }
        }
    }
}

} // verus!
