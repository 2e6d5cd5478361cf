use vstd::prelude::*;

verus! {

/// A direction in which a session's data goes.
#[derive(Debug, Clone, Copy, PartialEq, Eq, Structural)]
pub enum Direction {
    /// From the outside user to the local service.
    ToService,
    /// From the local service to the outside user.
    ToUser,
}

/// How far the relay of a session has come.
#[derive(Debug, Clone, Copy, PartialEq, Eq, Structural)]
pub enum RelayPhase {
    /// Data goes both ways.
    Open,
    /// This direction has come to its end; data still goes the other way.
    Half(Direction),
    /// No data goes any way.
    Over,
}

/// What happens to the relay of a session.
#[derive(Debug, Clone, Copy, PartialEq, Eq, Structural)]
pub enum RelayEvent {
    /// All data of this direction has been relayed.
    Ended(Direction),
    /// Data could not be relayed.
    Failed,
}

/// What the relay of a session has to do next.
#[derive(Debug, Clone, Copy, PartialEq, Eq, Structural)]
pub enum RelayAction {
    /// Tell the receiving side that nothing more comes in this direction, and go
    /// on with the other one.
    PassEnd(Direction),
    /// Shut both connections down.
    Shutdown,
    /// The event changes nothing.
    Ignore,
}

/// What an event comes to: a relay is over when both of its directions have come
/// to their end, or when it has failed.
pub open spec fn relay_next(phase: RelayPhase, event: RelayEvent) -> (RelayPhase, RelayAction) {
    match (phase, event) {
        (RelayPhase::Over, _) => (RelayPhase::Over, RelayAction::Ignore),
        (_, RelayEvent::Failed) => (RelayPhase::Over, RelayAction::Shutdown),
        (RelayPhase::Open, RelayEvent::Ended(direction)) => (
            RelayPhase::Half(direction),
            RelayAction::PassEnd(direction),
        ),
        (RelayPhase::Half(ended), RelayEvent::Ended(direction)) => if ended == direction {
            (phase, RelayAction::Ignore)
        } else {
            (RelayPhase::Over, RelayAction::Shutdown)
        },
    }
}

/// Handles one event of a relay.
pub fn relay_step(phase: RelayPhase, event: RelayEvent) -> (r: (RelayPhase, RelayAction))
    ensures
        r == relay_next(phase, event),
{
    match (phase, event) {
        (RelayPhase::Over, _) => (RelayPhase::Over, RelayAction::Ignore),
        (_, RelayEvent::Failed) => (RelayPhase::Over, RelayAction::Shutdown),
        (RelayPhase::Open, RelayEvent::Ended(direction)) => {
            (RelayPhase::Half(direction), RelayAction::PassEnd(direction))
        },
        (RelayPhase::Half(ended), RelayEvent::Ended(direction)) => {
            if ended == direction {
                (phase, RelayAction::Ignore)
            } else {
                (RelayPhase::Over, RelayAction::Shutdown)
            }
        },
    }
}

/// The phase of a relay after several events, in their order.
pub open spec fn relay_run(events: Seq<RelayEvent>) -> RelayPhase
    decreases events.len(),
{
    if events.len() == 0 {
        RelayPhase::Open
    } else {
        relay_next(relay_run(events.drop_last()), events.last()).0
    }
}

/// A relay outlives the end of one direction: it is over exactly when it has
/// failed or both directions have come to their end, and data still goes in every
/// direction that has not.
pub proof fn theorem_relay_ends_with_both_directions(events: Seq<RelayEvent>)
    ensures
        relay_run(events) == RelayPhase::Over <==> {
            ||| events.contains(RelayEvent::Failed)
            ||| events.contains(RelayEvent::Ended(Direction::ToService)) && events.contains(
                RelayEvent::Ended(Direction::ToUser),
            )
        },
        forall|direction: Direction|
            relay_run(events) == RelayPhase::Half(direction) ==> #[trigger] events.contains(
                RelayEvent::Ended(direction),
            ),
        relay_run(events) == RelayPhase::Open ==> !events.contains(
            RelayEvent::Ended(Direction::ToService),
        ) && !events.contains(RelayEvent::Ended(Direction::ToUser)),
    decreases events.len(),
{
    if events.len() > 0 {
        let before = events.drop_last();
        theorem_relay_ends_with_both_directions(before);
        assert(events =~= before.push(events.last()));
        assert forall|e: RelayEvent| #[trigger]
            events.contains(e) <==> before.contains(e) || e == events.last() by {
            if before.contains(e) {
                let i = choose|i: int| 0 <= i < before.len() && before[i] == e;
                assert(events[i] == e);
            }
            if e == events.last() {
                assert(events[events.len() - 1] == e);
            }
            if events.contains(e) && e != events.last() {
                let i = choose|i: int| 0 <= i < events.len() && events[i] == e;
                assert(before[i] == e);
            }
        }
    }
}

/// What a relay does: the end of its first direction is passed on, the event that makes it
/// over shuts it down, and no other event changes it or has anything done.
pub proof fn theorem_relay_actions(
    phase: RelayPhase,
    event: RelayEvent,
    r: (RelayPhase, RelayAction),
    direction: Direction,
)
    requires
        call_ensures(relay_step, (phase, event), r),
    ensures
        ({
            let (next, action) = r;
            &&& action == RelayAction::PassEnd(direction) <==> phase is Open && event
                == RelayEvent::Ended(direction)
            &&& action == RelayAction::PassEnd(direction) ==> next == RelayPhase::Half(direction)
            &&& action is Shutdown <==> next is Over && !(phase is Over)
            &&& action is Ignore ==> next == phase
            &&& phase is Over ==> next is Over
            &&& event is Failed ==> next is Over
            &&& phase == RelayPhase::Half(direction) && event is Ended ==> (next is Over <==> event
                != RelayEvent::Ended(direction))
        }),
{
}

} // verus!
