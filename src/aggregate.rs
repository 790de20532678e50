use vstd::prelude::*;
use vstd::string::StringExecFns;

use crate::commands::{CommandModel, ReservationCommand};
use crate::events::{EventModel, ReservationError, ReservationEvent};

verus! {

/// The state of one reservation, rebuilt by folding its events.
pub struct Reservation {
    hotel_id: String,
    room_type: String,
    reserved: bool,
    reason: String,
}

/// The mathematical content of a reservation's state.
pub ghost struct ReservationState {
    pub hotel_id: Seq<char>,
    pub room_type: Seq<char>,
    pub reserved: bool,
    pub reason: Seq<char>,
}

impl View for Reservation {
    type V = ReservationState;

    closed spec fn view(&self) -> ReservationState {
        ReservationState {
            hotel_id: self.hotel_id@,
            room_type: self.room_type@,
            reserved: self.reserved,
            reason: self.reason@,
        }
    }
}

/// The state of a reservation before any event: unreserved, all text empty.
pub open spec fn initial_state() -> ReservationState {
    ReservationState {
        hotel_id: Seq::empty(),
        room_type: Seq::empty(),
        reserved: false,
        reason: Seq::empty(),
    }
}

/// Folds one event into a state.
pub open spec fn apply_event(s: ReservationState, e: EventModel) -> ReservationState {
    match e {
        EventModel::Made { hotel_id, room_type } => ReservationState {
            hotel_id,
            room_type,
            reserved: true,
            ..s
        },
        EventModel::Cancelled => ReservationState { reserved: false, ..s },
    }
}

/// Folds a sequence of events, oldest first, into a state.
pub open spec fn replay(s: ReservationState, es: Seq<EventModel>) -> ReservationState
    decreases es.len(),
{
    if es.len() == 0 {
        s
    } else {
        apply_event(replay(s, es.drop_last()), es.last())
    }
}

/// The models of a sequence of events.
pub open spec fn event_models(v: Seq<ReservationEvent>) -> Seq<EventModel> {
    v.map_values(|e: ReservationEvent| e@)
}

/// The message of the rejection of a cancellation with nothing reserved.
pub open spec fn nothing_to_cancel() -> Seq<char> {
    "there is no reservation to cancel"@
}

/// What the aggregate decides on a command in a state: the events it emits,
/// or `None` when it rejects the command. A reservation can always be made
/// (a new one replaces the current one); only a held reservation can be
/// cancelled.
pub open spec fn decide(s: ReservationState, c: CommandModel) -> Option<Seq<EventModel>> {
    match c {
        CommandModel::Make { hotel_id, room_type } => Some(
            seq![EventModel::Made { hotel_id, room_type }],
        ),
        CommandModel::Cancel => if s.reserved {
            Some(seq![EventModel::Cancelled])
        } else {
            None
        },
    }
}

/// The state that a command leads to when it is carried out directly,
/// without going through events.
pub open spec fn transition(s: ReservationState, c: CommandModel) -> ReservationState {
    match c {
        CommandModel::Make { hotel_id, room_type } => ReservationState {
            hotel_id,
            room_type,
            reserved: true,
            ..s
        },
        CommandModel::Cancel => ReservationState { reserved: false, ..s },
    }
}

/// The event log that a sequence of commands produces from a state, each
/// command decided against the state folded from the events before it;
/// `None` when some command is rejected.
pub open spec fn log_of_commands(s: ReservationState, cmds: Seq<CommandModel>) -> Option<
    Seq<EventModel>,
>
    decreases cmds.len(),
{
    if cmds.len() == 0 {
        Some(Seq::empty())
    } else {
        match log_of_commands(s, cmds.drop_last()) {
            Some(log) => match decide(replay(s, log), cmds.last()) {
                Some(es) => Some(log + es),
                None => None,
            },
            None => None,
        }
    }
}

/// The state reached by carrying out a sequence of commands directly.
pub open spec fn run_commands(s: ReservationState, cmds: Seq<CommandModel>) -> ReservationState
    decreases cmds.len(),
{
    if cmds.len() == 0 {
        s
    } else {
        transition(run_commands(s, cmds.drop_last()), cmds.last())
    }
}

/// Folding two logs one after the other is folding their concatenation.
pub proof fn lemma_replay_concat(s: ReservationState, a: Seq<EventModel>, b: Seq<EventModel>)
    ensures
        replay(s, a + b) == replay(replay(s, a), b),
    decreases b.len(),
{
    if b.len() == 0 {
        assert(a + b =~= a);
    } else {
        assert((a + b).drop_last() =~= a + b.drop_last());
        lemma_replay_concat(s, a, b.drop_last());
    }
}

/// Applying the events that a command produces gives the same state as
/// carrying out the command directly: the events hold the whole transition.
pub proof fn lemma_decide_then_apply(s: ReservationState, c: CommandModel)
    requires
        decide(s, c) is Some,
    ensures
        replay(s, decide(s, c)->Some_0) == transition(s, c),
{
    let es = decide(s, c)->Some_0;
    assert(es.drop_last() =~= Seq::<EventModel>::empty());
    assert(replay(s, es.drop_last()) == s);
    assert(replay(s, es) == apply_event(s, es.last()));
}

/// For every sequence of commands that the aggregate accepts, folding the
/// resulting event log from the empty state gives the same state as carrying
/// out the commands one after another in memory.
pub proof fn lemma_log_reproduces_state(cmds: Seq<CommandModel>)
    requires
        log_of_commands(initial_state(), cmds) is Some,
    ensures
        replay(initial_state(), log_of_commands(initial_state(), cmds)->Some_0) == run_commands(
            initial_state(),
            cmds,
        ),
    decreases cmds.len(),
{
    if cmds.len() > 0 {
        let s0 = initial_state();
        let prev = cmds.drop_last();
        lemma_log_reproduces_state(prev);
        let log = log_of_commands(s0, prev)->Some_0;
        let es = decide(replay(s0, log), cmds.last())->Some_0;
        lemma_replay_concat(s0, log, es);
        lemma_decide_then_apply(replay(s0, log), cmds.last());
    }
}

/// With no prior events, making a reservation yields exactly the one event
/// that records it, and cancelling it afterwards yields exactly one
/// cancellation event.
pub proof fn lemma_make_then_cancel(hotel_id: Seq<char>, room_type: Seq<char>)
    ensures
        decide(replay(initial_state(), Seq::empty()), CommandModel::Make { hotel_id, room_type })
            == Some(seq![EventModel::Made { hotel_id, room_type }]),
        decide(
            replay(initial_state(), seq![EventModel::Made { hotel_id, room_type }]),
            CommandModel::Cancel,
        ) == Some(seq![EventModel::Cancelled]),
{
    let made = seq![EventModel::Made { hotel_id, room_type }];
    assert(made.drop_last() =~= Seq::<EventModel>::empty());
}

impl Reservation {
    /// A reservation with no event applied.
    pub fn new() -> (r: Reservation)
        ensures
            r@ == initial_state(),
    {
        Reservation {
            hotel_id: String::new(),
            room_type: String::new(),
            reserved: false,
            reason: String::new(),
        }
    }

    /// A state with the given fields, as a stored snapshot of the aggregate
    /// holds them.
    pub fn from_parts(hotel_id: String, room_type: String, reserved: bool, reason: String) -> (r:
        Reservation)
        ensures
            r@ == (ReservationState {
                hotel_id: hotel_id@,
                room_type: room_type@,
                reserved,
                reason: reason@,
            }),
    {
        Reservation { hotel_id, room_type, reserved, reason }
    }

    /// The name of this aggregate kind, unique within the system.
    pub fn aggregate_type() -> (r: String)
        ensures
            r@ == "reservation"@,
    {
        String::from_str("reservation")
    }

    /// The hotel of the latest reservation made.
    pub fn hotel_id(&self) -> (r: &String)
        ensures
            r@ == self@.hotel_id,
    {
        &self.hotel_id
    }

    /// The room type of the latest reservation made.
    pub fn room_type(&self) -> (r: &String)
        ensures
            r@ == self@.room_type,
    {
        &self.room_type
    }

    /// Whether a reservation is currently held.
    pub fn is_reserved(&self) -> (r: bool)
        ensures
            r == self@.reserved,
    {
        self.reserved
    }

    /// The free-text reason kept with the state.
    pub fn reason(&self) -> (r: &String)
        ensures
            r@ == self@.reason,
    {
        &self.reason
    }

    /// Decides a command against the current state: the events to record,
    /// or the reason for refusing it. Performs no I/O and changes nothing.
    pub fn handle(&self, command: ReservationCommand) -> (r: Result<
        Vec<ReservationEvent>,
        ReservationError,
    >)
        ensures
            match decide(self@, command@) {
                Some(es) => r is Ok && event_models(r->Ok_0@) == es,
                None => r is Err && r->Err_0.0@ == nothing_to_cancel(),
            },
    {
        match command {
            ReservationCommand::MakeReservation { hotel_id, room_type } => {
                let v = vec![ReservationEvent::ReservationMade { hotel_id, room_type }];
                assert(event_models(v@) =~= decide(self@, command@)->Some_0);
                Ok(v)
            },
            ReservationCommand::CancelReservation => {
                if self.reserved {
                    let v = vec![ReservationEvent::ReservationCancelled];
                    assert(event_models(v@) =~= decide(self@, command@)->Some_0);
                    Ok(v)
                } else {
                    Err(ReservationError::new("there is no reservation to cancel"))
                }
            },
        }
    }

    /// Folds one event into the state.
    pub fn apply(&mut self, event: ReservationEvent)
        ensures
            final(self)@ == apply_event(old(self)@, event@),
    {
        match event {
            ReservationEvent::ReservationMade { hotel_id, room_type } => {
                self.hotel_id = hotel_id;
                self.room_type = room_type;
                self.reserved = true;
            },
            ReservationEvent::ReservationCancelled => {
                self.reserved = false;
            },
        }
    }

    /// Rebuilds the state from a full event history, oldest event first.
    pub fn from_events(events: &Vec<ReservationEvent>) -> (r: Reservation)
        ensures
            r@ == replay(initial_state(), event_models(events@)),
    {
        let mut state = Reservation::new();
        let mut i: usize = 0;
        while i < events.len()
            invariant
                i <= events.len(),
                state@ == replay(initial_state(), event_models(events@.subrange(0, i as int))),
            decreases events.len() - i,
        {
            let e = events[i].duplicate();
            state.apply(e);
            proof {
                let pre = event_models(events@.subrange(0, i as int));
                let post = event_models(events@.subrange(0, i + 1));
                assert(post.drop_last() =~= pre);
            }
            i = i + 1;
        }
        assert(events@.subrange(0, events.len() as int) =~= events@);
        state
    }
}

impl Default for Reservation {
    fn default() -> (r: Reservation)
        ensures
            r@ == initial_state(),
    {
        Reservation::new()
    }
}

} // verus!
