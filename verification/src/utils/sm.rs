//! A simple state machine.

use vstd::prelude::*;

verus! {

/// The state that a machine is in, if it has one left.
#[derive(Debug)]
pub struct StateMachine<S> {
    /// The state to be handled next.
    pub function: Option<S>,
}

/// Whether `trace` is a run of a machine: each pair of a machine and its state comes from the one
/// before by what the handler does.
pub open spec fn is_run<T, S, F: Fn(T, S) -> (T, StateMachine<S>)>(
    handler: F,
    trace: Seq<(T, Option<S>)>,
) -> bool {
    &&& trace.len() > 0
    &&& forall|i: int|
        0 < i < trace.len() ==> {
            &&& trace[i - 1].1 is Some
            &&& call_ensures(
                handler,
                (trace[i - 1].0, trace[i - 1].1->Some_0),
                ((#[trigger] trace[i]).0, (StateMachine { function: trace[i].1 })),
            )
        }
}

/// Whether the handler accepts every pair of a machine and a state that a run can reach.
pub open spec fn can_run<T, S, F: Fn(T, S) -> (T, StateMachine<S>)>(
    handler: F,
    machine: T,
    starting_state: S,
) -> bool {
    forall|trace: Seq<(T, Option<S>)>| #[trigger]
        is_run(handler, trace) && trace[0] == (machine, Some(starting_state)) && trace.last().1
            is Some ==> call_requires(handler, (trace.last().0, trace.last().1->Some_0))
}

/// Whether a property of a machine and its state lets the handler be called and is kept by it.
pub open spec fn keeps<T, S, F: Fn(T, S) -> (T, StateMachine<S>)>(
    handler: F,
    inv: spec_fn(T, S) -> bool,
) -> bool {
    &&& forall|t: T, s: S| #[trigger] inv(t, s) ==> call_requires(handler, (t, s))
    &&& forall|t: T, s: S, out: (T, StateMachine<S>)|
        inv(t, s) && #[trigger] call_ensures(handler, (t, s), out) ==> (
        out.1.function matches Some(next) ==> inv(out.0, next))
}

/// A machine can run where a property holds at its start that the handler needs and keeps.
pub proof fn law_kept_property_suffices<T, S, F: Fn(T, S) -> (T, StateMachine<S>)>(
    handler: F,
    machine: T,
    starting_state: S,
    inv: spec_fn(T, S) -> bool,
)
    requires
        keeps(handler, inv),
        inv(machine, starting_state),
    ensures
        can_run(handler, machine, starting_state),
{
    assert forall|trace: Seq<(T, Option<S>)>| #[trigger]
        is_run(handler, trace) && trace[0] == (machine, Some(starting_state)) && trace.last().1
            is Some implies call_requires(
        handler,
        (trace.last().0, trace.last().1->Some_0),
    ) by {
        lemma_kept(handler, inv, trace, trace.len() - 1);
    }
}

/// A property that the handler keeps holds all along a run.
proof fn lemma_kept<T, S, F: Fn(T, S) -> (T, StateMachine<S>)>(
    handler: F,
    inv: spec_fn(T, S) -> bool,
    trace: Seq<(T, Option<S>)>,
    i: int,
)
    requires
        keeps(handler, inv),
        is_run(handler, trace),
        trace[0].1 is Some,
        inv(trace[0].0, trace[0].1->Some_0),
        0 <= i < trace.len(),
    ensures
        trace[i].1 matches Some(s) ==> inv(trace[i].0, s),
    decreases i,
{
    if i > 0 {
        lemma_kept(handler, inv, trace, i - 1);
        assert(call_ensures(
            handler,
            (trace[i - 1].0, trace[i - 1].1->Some_0),
            (trace[i].0, (StateMachine { function: trace[i].1 })),
        ));
    }
}

impl<S> StateMachine<S> {
    /// A machine in a given state, or at its end.
    pub fn new(function: Option<S>) -> (r: StateMachine<S>)
        ensures
            r.function == function,
    {
        StateMachine { function }
    }

    /// A machine in a given state.
    pub fn next(function: S) -> (r: StateMachine<S>)
        ensures
            r.function == Some(function),
    {
        StateMachine::new(Some(function))
    }

    /// A machine at its end.
    pub fn finish() -> (r: StateMachine<S>)
        ensures
            r.function is None,
    {
        StateMachine::new(None)
    }

    /// Handles one state after the other until the machine is at its end or `limit` states were
    /// handled. There is a limit because a verified function has to end, and a handler need not
    /// ever bring a machine to its end; a caller that wants to go on runs the machine again from
    /// the state that it is left in.
    pub fn run<T, F: Fn(T, S) -> (T, StateMachine<S>)>(
        machine: T,
        starting_state: S,
        handler: F,
        limit: usize,
    ) -> (r: (T, StateMachine<S>))
        requires
            can_run(handler, machine, starting_state),
        ensures
            exists|trace: Seq<(T, Option<S>)>|
                {
                    &&& #[trigger] is_run(handler, trace)
                    &&& trace[0] == (machine, Some(starting_state))
                    &&& trace.last() == (r.0, r.1.function)
                    &&& trace.len() <= limit + 1
                    &&& trace.len() == limit + 1 || r.1.function is None
                },
    {
        let ghost mut trace: Seq<(T, Option<S>)> = seq![(machine, Some(starting_state))];
        let ghost first = machine;
        let mut machine = machine;
        let mut state = StateMachine::next(starting_state);
        let mut handled: usize = 0;
        while handled < limit
            invariant_except_break
                handled <= limit,
                trace.len() == handled + 1,
            invariant
                can_run(handler, first, starting_state),
                is_run(handler, trace),
                trace[0] == (first, Some(starting_state)),
                trace.last() == (machine, state.function),
                trace.len() <= limit + 1,
            ensures
                trace.len() == limit + 1 || state.function is None,
            decreases limit - handled,
        {
            let current = match state.function {
                None => {
                    state = StateMachine { function: None };
                    break ;
                },
                Some(current) => current,
            };
            let ghost (from, at) = trace.last();
            let (next_machine, next_state) = handler(machine, current);
            proof {
                let longer = trace.push((next_machine, next_state.function));
                assert forall|i: int| 0 < i < longer.len() implies {
                    &&& longer[i - 1].1 is Some
                    &&& call_ensures(
                        handler,
                        (longer[i - 1].0, longer[i - 1].1->Some_0),
                        ((#[trigger] longer[i]).0, (StateMachine { function: longer[i].1 })),
                    )
                } by {
                    if i < trace.len() {
                        assert(longer[i] == trace[i]);
                    }
                }
                trace = longer;
            }
            machine = next_machine;
            state = next_state;
            handled += 1;
        }
        (machine, state)
    }
}

} // verus!
