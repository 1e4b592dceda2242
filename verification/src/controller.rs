//! The vocabulary between a drone and the controller of the simulation.

use vstd::prelude::*;
use crossbeam_channel::Sender;
use crate::network::NodeId;
use crate::packet::{Packet, PacketView};

verus! {

/// The sending half of a channel of `crossbeam_channel`. Nothing is known
/// of what a value of it holds.
#[verifier::external_type_specification]
#[verifier::external_body]
#[verifier::reject_recursive_types(T)]
pub struct ExSender<T>(Sender<T>);

/// `Clone` of a `crossbeam_channel::Sender`: another sender of the same
/// channel. Nothing is claimed of it.
pub assume_specification<T>[ <Sender<T> as Clone>::clone ](sender: &Sender<T>) -> (r: Sender<T>)
;

/// `Sender::same_channel` of `crossbeam_channel`, which tells whether two
/// senders belong to one channel. It is claimed only that a sender belongs
/// to the channel it belongs to.
#[verifier::external_body]
fn same_channel(first: &Sender<Packet>, second: &Sender<Packet>) -> (r: bool)
    ensures
        first == second ==> r,
{
    first.same_channel(second)
}

/// The drop rate that stands for certainty: rates are counted in
/// millionths.
pub const DROP_RATE_SCALE: u32 = 1_000_000;

/// What the controller asks of a drone.
#[derive(Debug, Clone)]
pub enum DroneCommand {
    /// Forget the channel to a neighbour.
    RemoveSender(NodeId),
    /// Take a channel to a neighbour, in place of an earlier one if any.
    AddSender(NodeId, Sender<Packet>),
    /// Lose fragments at this rate, in millionths.
    SetPacketDropRate(u32),
    /// Stop taking fragments, hand on what is still on the way, and end.
    Crash,
}

impl DroneCommand {
    /// Two commands are equal when they are of one kind and name the same
    /// node or the same rate; two commands that bring a channel must also
    /// bring senders of one channel, which `same_channel` says they do or do
    /// not.
    pub open spec fn equals(self, other: DroneCommand, same_channel: bool) -> bool {
        match (self, other) {
            (DroneCommand::RemoveSender(a), DroneCommand::RemoveSender(b)) => a == b,
            (DroneCommand::AddSender(a, _), DroneCommand::AddSender(b, _)) => a == b
                && same_channel,
            (DroneCommand::SetPacketDropRate(a), DroneCommand::SetPacketDropRate(b)) => a == b,
            (DroneCommand::Crash, DroneCommand::Crash) => true,
            _ => false,
        }
    }

    /// The two commands bring the same sender.
    pub open spec fn brings_the_sender_of(self, other: DroneCommand) -> bool {
        match (self, other) {
            (DroneCommand::AddSender(_, s), DroneCommand::AddSender(_, t)) => s == t,
            _ => false,
        }
    }

    /// Whether two commands are equal, given whether the senders they may
    /// bring belong to one channel.
    pub fn eq_given(&self, other: &Self, same_channel: bool) -> (r: bool)
        ensures
            r == self.equals(*other, same_channel),
    {
        match (self, other) {
            (DroneCommand::RemoveSender(node1), DroneCommand::RemoveSender(node2)) => *node1
                == *node2,
            (DroneCommand::AddSender(node1, _), DroneCommand::AddSender(node2, _)) => *node1
                == *node2 && same_channel,
            (DroneCommand::SetPacketDropRate(rate1), DroneCommand::SetPacketDropRate(rate2)) => {
                *rate1 == *rate2
            },
            (DroneCommand::Crash, DroneCommand::Crash) => true,
            _ => false,
        }
    }
}

impl PartialEq for DroneCommand {
    /// Whether two commands are equal. For two commands that bring a
    /// channel the channels are asked; a sender is of one channel with
    /// itself.
    fn eq(&self, other: &Self) -> (r: bool)
        ensures
            r == self.equals(*other, true) || r == self.equals(*other, false),
            self.brings_the_sender_of(*other) ==> r == self.equals(*other, true),
    {
        let same = match (self, other) {
            (DroneCommand::AddSender(_, sender1), DroneCommand::AddSender(_, sender2)) => {
                same_channel(sender1, sender2)
            },
            _ => false,
        };
        self.eq_given(other, same)
    }
}

/// `==` on commands follows no closed formula: for two commands that bring
/// a channel it asks the channels. What it answers is stated on `eq`.
impl vstd::std_specs::cmp::PartialEqSpecImpl for DroneCommand {
    open spec fn obeys_eq_spec() -> bool {
        false
    }

    open spec fn eq_spec(&self, other: &Self) -> bool {
        self.equals(*other, true)
    }
}

/// The mathematical content of what a drone tells the controller.
pub enum DroneEventView {
    PacketSent(PacketView),
    PacketReceived(PacketView),
    PacketDropped(PacketView),
    DroneCrash,
    FloodTraceObserved(PacketView),
}

/// What a drone tells the controller.
#[derive(Debug, PartialEq, Eq)]
pub enum DroneEvent {
    /// The drone handed this packet to a neighbour.
    PacketSent(Packet),
    /// This packet came to the drone and went no further.
    PacketReceived(Packet),
    /// The drone lost this fragment on purpose.
    PacketDropped(Packet),
    /// The drone has handled what was left for it and ends.
    DroneCrash,
    /// The drone saw this flood request; the trace holds the drone.
    FloodTraceObserved(Packet),
}

impl View for DroneEvent {
    type V = DroneEventView;

    open spec fn view(&self) -> DroneEventView {
        match self {
            DroneEvent::PacketSent(packet) => DroneEventView::PacketSent(packet@),
            DroneEvent::PacketReceived(packet) => DroneEventView::PacketReceived(packet@),
            DroneEvent::PacketDropped(packet) => DroneEventView::PacketDropped(packet@),
            DroneEvent::DroneCrash => DroneEventView::DroneCrash,
            DroneEvent::FloodTraceObserved(packet) => DroneEventView::FloodTraceObserved(packet@),
        }
    }
}

impl Clone for DroneEvent {
    fn clone(&self) -> (r: Self)
        ensures
            r@ == self@,
    {
        match self {
            DroneEvent::PacketSent(packet) => DroneEvent::PacketSent(packet.clone()),
            DroneEvent::PacketReceived(packet) => DroneEvent::PacketReceived(packet.clone()),
            DroneEvent::PacketDropped(packet) => DroneEvent::PacketDropped(packet.clone()),
            DroneEvent::DroneCrash => DroneEvent::DroneCrash,
            DroneEvent::FloodTraceObserved(packet) => DroneEvent::FloodTraceObserved(
                packet.clone(),
            ),
        }
    }
}

} // verus!
