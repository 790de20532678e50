use vstd::prelude::*;

verus! {

/// A request against one reservation; transient, never stored.
#[derive(Debug, Clone, PartialEq, Eq)]
pub enum ReservationCommand {
    MakeReservation { hotel_id: String, room_type: String },
    CancelReservation,
}

/// The mathematical content of a command.
pub ghost enum CommandModel {
    Make { hotel_id: Seq<char>, room_type: Seq<char> },
    Cancel,
}

impl View for ReservationCommand {
    type V = CommandModel;

    open spec fn view(&self) -> CommandModel {
        match self {
            ReservationCommand::MakeReservation { hotel_id, room_type } => CommandModel::Make {
                hotel_id: hotel_id@,
                room_type: room_type@,
            },
            ReservationCommand::CancelReservation => CommandModel::Cancel,
        }
    }
}

} // verus!
