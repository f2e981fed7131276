//! The order in which a generator sends its messages.
//!
//! A run is given as the number of messages to send in each second. The
//! schedule hands out one step at a time: send a message in a given second,
//! or finish the run (which the generator marks by sending an empty
//! message). Waiting and sending are left to the caller.

use vstd::prelude::*;

verus! {

/// One step of a generation run.
#[derive(Clone, Copy, Debug, PartialEq, Eq, Structural)]
pub enum GenerationStep {
    /// Generate and send one message in the given second of the run.
    Emit { second: usize },
    /// Every message has been sent: send the end-of-run marker.
    Finish,
}

/// The seconds in which the messages of a run are sent, in order: second
/// `i` appears `counts[i]` times.
pub open spec fn emission_plan(counts: Seq<u64>) -> Seq<usize>
    decreases counts.len(),
{
    if counts.len() == 0 {
        Seq::empty()
    } else {
        emission_plan(counts.drop_last()) + Seq::new(
            counts.last() as nat,
            |j: int| (counts.len() - 1) as usize,
        )
    }
}

/// The number of messages of a run.
pub open spec fn total(counts: Seq<u64>) -> nat
    decreases counts.len(),
{
    if counts.len() == 0 {
        0
    } else {
        total(counts.drop_last()) + counts.last() as nat
    }
}

/// The step that follows `emitted` messages of `plan`, and the number of
/// messages emitted after it.
pub open spec fn spec_next_step(plan: Seq<usize>, emitted: nat) -> (GenerationStep, nat) {
    if emitted < plan.len() {
        (GenerationStep::Emit { second: plan[emitted as int] }, emitted + 1)
    } else {
        (GenerationStep::Finish, emitted)
    }
}

/// The `n` steps taken from the point where `emitted` messages of `plan`
/// have been sent.
pub open spec fn steps_from(plan: Seq<usize>, emitted: nat, n: nat) -> Seq<GenerationStep>
    decreases n,
{
    if n == 0 {
        Seq::empty()
    } else {
        let (step, next) = spec_next_step(plan, emitted);
        seq![step] + steps_from(plan, next, (n - 1) as nat)
    }
}

/// The number of messages of a run is the length of its plan.
pub proof fn lemma_plan_len(counts: Seq<u64>)
    ensures
        emission_plan(counts).len() == total(counts),
    decreases counts.len(),
{
    if counts.len() > 0 {
        lemma_plan_len(counts.drop_last());
    }
}

/// The plan of the first `i + 1` seconds extends that of the first `i`
/// by `counts[i]` messages in second `i`.
proof fn lemma_plan_take_step(counts: Seq<u64>, i: int)
    requires
        0 <= i < counts.len(),
    ensures
        emission_plan(counts.take(i + 1)) == emission_plan(counts.take(i)) + Seq::new(
            counts[i] as nat,
            |j: int| i as usize,
        ),
        total(counts.take(i + 1)) == total(counts.take(i)) + counts[i],
{
    assert(counts.take(i + 1).drop_last() == counts.take(i));
}

/// The plan of the first `i` seconds is a prefix of the whole plan.
proof fn lemma_plan_prefix(counts: Seq<u64>, i: int)
    requires
        0 <= i <= counts.len(),
    ensures
        emission_plan(counts.take(i)).len() <= emission_plan(counts).len(),
        forall|k: int|
            0 <= k < emission_plan(counts.take(i)).len() ==> emission_plan(counts)[k]
                == #[trigger] emission_plan(counts.take(i))[k],
    decreases counts.len() - i,
{
    if i == counts.len() {
        assert(counts.take(i) == counts);
    } else {
        lemma_plan_take_step(counts, i);
        lemma_plan_prefix(counts, i + 1);
        let short = emission_plan(counts.take(i));
        let long = emission_plan(counts.take(i + 1));
        assert forall|k: int| 0 <= k < short.len() implies emission_plan(counts)[k] == short[k] by {
            assert(long[k] == short[k]);
        }
    }
}

/// Each second `i` of a run gets exactly `counts[i]` messages, sent one
/// after the other once the messages of the earlier seconds are out; in
/// all, a run sends `total(counts)` messages.
pub proof fn lemma_plan_layout(counts: Seq<u64>, i: int, j: int)
    requires
        0 <= i < counts.len(),
        0 <= j < counts[i],
        counts.len() <= usize::MAX,
    ensures
        emission_plan(counts).len() == total(counts),
        total(counts.take(i)) + j < total(counts),
        emission_plan(counts)[total(counts.take(i)) + j] == i,
{
    lemma_plan_len(counts);
    lemma_plan_len(counts.take(i));
    lemma_plan_len(counts.take(i + 1));
    lemma_plan_take_step(counts, i);
    lemma_plan_prefix(counts, i + 1);
    let k = total(counts.take(i)) + j;
    let head = emission_plan(counts.take(i));
    let seg = Seq::new(counts[i] as nat, |m: int| i as usize);
    assert((head + seg)[k] == seg[j]);
    assert(emission_plan(counts.take(i + 1))[k] == i);
}

/// From a fresh start, a run takes one `Emit` step per message of its plan,
/// in the order of the plan, and then finishes.
pub proof fn lemma_run_steps(plan: Seq<usize>, emitted: nat)
    requires
        emitted <= plan.len(),
    ensures
        steps_from(plan, emitted, (plan.len() - emitted + 1) as nat) == plan.subrange(
            emitted as int,
            plan.len() as int,
        ).map_values(|s: usize| GenerationStep::Emit { second: s }).push(GenerationStep::Finish),
    decreases plan.len() - emitted,
{
    let n = (plan.len() - emitted + 1) as nat;
    let rest = plan.subrange(emitted as int, plan.len() as int).map_values(
        |s: usize| GenerationStep::Emit { second: s },
    );
    if emitted == plan.len() {
        assert(steps_from(plan, emitted, 0) == Seq::<GenerationStep>::empty());
        assert(rest.len() == 0);
        assert(steps_from(plan, emitted, n) == seq![GenerationStep::Finish]);
    } else {
        lemma_run_steps(plan, emitted + 1);
        let tail = plan.subrange(emitted + 1int, plan.len() as int).map_values(
            |s: usize| GenerationStep::Emit { second: s },
        );
        assert(rest == seq![GenerationStep::Emit { second: plan[emitted as int] }] + tail);
        assert(steps_from(plan, emitted, n) == seq![
            GenerationStep::Emit { second: plan[emitted as int] },
        ] + steps_from(plan, emitted + 1, (n - 1) as nat));
        assert(rest.push(GenerationStep::Finish) == seq![
            GenerationStep::Emit { second: plan[emitted as int] },
        ] + tail.push(GenerationStep::Finish));
    }
}

/// Once the plan is used up, every further step is `Finish`.
pub proof fn lemma_finish_is_final(plan: Seq<usize>, emitted: nat)
    requires
        emitted >= plan.len(),
    ensures
        spec_next_step(plan, emitted) == (GenerationStep::Finish, emitted),
{
}

/// The state of a generation run.
pub struct GenerationSchedule {
    counts: Vec<u64>,
    second: usize,
    sent: u64,
}

impl GenerationSchedule {
    #[verifier::type_invariant]
    spec fn well_formed(self) -> bool {
        &&& self.second <= self.counts@.len()
        &&& self.second < self.counts@.len() ==> self.sent <= self.counts@[self.second as int]
        &&& self.second == self.counts@.len() ==> self.sent == 0
    }

    /// The number of messages to send in each second of the run.
    pub closed spec fn counts(&self) -> Seq<u64> {
        self.counts@
    }

    /// The seconds of all messages of the run, in order.
    pub open spec fn plan(&self) -> Seq<usize> {
        emission_plan(self.counts())
    }

    /// How many messages have been handed out so far.
    pub closed spec fn emitted(&self) -> nat {
        total(self.counts@.take(self.second as int)) + self.sent as nat
    }

    /// A run that sends `counts[i]` messages in second `i`.
    pub fn new(counts: Vec<u64>) -> (s: Self)
        ensures
            s.counts() == counts@,
            s.emitted() == 0,
    {
        let s = GenerationSchedule { counts, second: 0, sent: 0 };
        assert(s.counts@.take(0) == Seq::<u64>::empty());
        s
    }

    /// The next step of the run: the second of the next message of the
    /// plan, or `Finish` once every message has been handed out.
    pub fn next_step(&mut self) -> (step: GenerationStep)
        ensures
            final(self).counts() == old(self).counts(),
            (step, final(self).emitted()) == spec_next_step(old(self).plan(), old(self).emitted()),
    {
        proof {
            use_type_invariant(&*self);
        }
        let ghost start = self.emitted();
        let mut second = self.second;
        let mut sent = self.sent;
        while second < self.counts.len() && sent == self.counts[second]
            invariant
                second <= self.counts@.len(),
                second < self.counts@.len() ==> sent <= self.counts@[second as int],
                second == self.counts@.len() ==> sent == 0,
                total(self.counts@.take(second as int)) + sent == start,
            decreases self.counts@.len() - second,
        {
            proof {
                lemma_plan_take_step(self.counts@, second as int);
            }
            second = second + 1;
            sent = 0;
        }
        if second == self.counts.len() {
            proof {
                assert(self.counts@.take(second as int) == self.counts@);
                lemma_plan_len(self.counts@);
            }
            self.sent = 0;
            self.second = second;
            GenerationStep::Finish
        } else {
            proof {
                lemma_plan_layout(self.counts@, second as int, sent as int);
            }
            self.sent = 0;
            self.second = second;
            self.sent = sent + 1;
            GenerationStep::Emit { second }
        }
    }
}

} // verus!
