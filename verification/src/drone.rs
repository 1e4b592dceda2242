//! The drone: the node that hands packets on along their routes, takes
//! part in floods, and obeys the controller.

use std::collections::HashMap;
use vstd::prelude::*;
use crossbeam_channel::{Sender, TrySendError};
use crate::controller::{DroneCommand, DroneEvent, DroneEventView, DROP_RATE_SCALE};
use crate::network::{NodeId, Route};
use crate::packet::{
    FloodRequest, FloodRequestView, Nack, NackType, NodeType, Packet, PacketType, PacketTypeView,
    PacketView,
};

verus! {

broadcast use vstd::std_specs::hash::group_hash_axioms;

/// `Sender::try_send` of `crossbeam_channel`, which never waits: the
/// message goes into the channel, or it comes back because the channel is
/// full or has no receiver left. `None` says that it went; `Some` holds the
/// message that came back.
#[verifier::external_body]
fn try_send<T>(sender: &Sender<T>, message: T) -> (r: Option<T>)
    ensures
        r matches Some(returned) ==> returned == message,
{
    match sender.try_send(message) {
        Ok(()) => None,
        Err(TrySendError::Full(returned)) => Some(returned),
        Err(TrySendError::Disconnected(returned)) => Some(returned),
    }
}

/// One thing that a drone does about a packet.
#[derive(Debug, PartialEq, Eq)]
pub enum Action {
    /// Tell the controller.
    Report(DroneEvent),
    /// Hand `packet` to the neighbour `to`. Where the neighbour takes it,
    /// the controller is told that it was sent. Where it does not, the
    /// packet of `otherwise` is handed to its neighbour in the same way.
    Send { to: NodeId, packet: Packet, otherwise: Option<(NodeId, Packet)> },
}

/// The mathematical content of an action.
pub enum ActionView {
    Report(DroneEventView),
    Send { to: NodeId, packet: PacketView, otherwise: Option<(NodeId, PacketView)> },
}

impl View for Action {
    type V = ActionView;

    open spec fn view(&self) -> ActionView {
        match self {
            Action::Report(event) => ActionView::Report(event@),
            Action::Send { to, packet, otherwise } => ActionView::Send {
                to: *to,
                packet: packet@,
                otherwise: match otherwise {
                    Some((node, spare)) => Some((*node, spare@)),
                    None => None,
                },
            },
        }
    }
}

impl Clone for Action {
    fn clone(&self) -> (r: Self)
        ensures
            r@ == self@,
    {
        match self {
            Action::Report(event) => Action::Report(event.clone()),
            Action::Send { to, packet, otherwise } => Action::Send {
                to: *to,
                packet: packet.clone(),
                otherwise: match otherwise {
                    Some((node, spare)) => Some((*node, spare.clone())),
                    None => None,
                },
            },
        }
    }
}

impl ActionView {
    /// What is left to do when an action has been tried, and `went` says
    /// whether the neighbour took the packet. A packet that went is
    /// reported to the controller as sent. For one that did not go, the
    /// spare packet is handed to its neighbour. A report leaves nothing
    /// to do.
    pub open spec fn after_attempt(self, went: bool) -> Seq<ActionView> {
        match self {
            ActionView::Report(_) => Seq::empty(),
            ActionView::Send { packet, otherwise, .. } => if went {
                seq![ActionView::Report(DroneEventView::PacketSent(packet))]
            } else {
                match otherwise {
                    Some((to, spare)) => seq![
                        ActionView::Send { to, packet: spare, otherwise: None },
                    ],
                    None => Seq::empty(),
                }
            },
        }
    }

    /// The number of attempts that an action can still lead to.
    pub open spec fn attempts(self) -> nat {
        match self {
            ActionView::Report(_) => 0,
            ActionView::Send { otherwise, .. } => if otherwise is Some {
                2
            } else {
                1
            },
        }
    }
}

/// What is left to do after an attempt leads to fewer attempts than the
/// action that was tried: carrying out an action comes to an end.
pub proof fn lemma_attempts_run_out(action: ActionView, went: bool, i: int)
    requires
        0 <= i < action.after_attempt(went).len(),
    ensures
        action.after_attempt(went)[i].attempts() < action.attempts(),
{
}

impl Action {
    /// What is left to do when the action has been tried, and `went` says
    /// whether the neighbour took the packet.
    pub fn after_attempt(&self, went: bool) -> (r: Vec<Action>)
        ensures
            actions_view(r@) == self@.after_attempt(went),
    {
        let mut left: Vec<Action> = Vec::new();
        match self {
            Action::Report(_) => {},
            Action::Send { packet, otherwise, .. } => {
                if went {
                    left.push(Action::Report(DroneEvent::PacketSent(packet.clone())));
                } else {
                    match otherwise {
                        Some((to, spare)) => {
                            left.push(
                                Action::Send { to: *to, packet: spare.clone(), otherwise: None },
                            );
                        },
                        None => {},
                    }
                }
            },
        }
        assert(actions_view(left@) =~= self@.after_attempt(went));
        left
    }
}

/// The mathematical content of a list of actions.
pub open spec fn actions_view(actions: Seq<Action>) -> Seq<ActionView> {
    Seq::new(actions.len(), |i: int| actions[i]@)
}

/// The route of a report that goes back to the sender of a packet with the
/// route `route`: the route walked backwards, with the cursor on the node
/// before the one that `route` has reached.
pub open spec fn way_back(route: Route) -> Route {
    Route { hops: route.hops.reverse(), hop_index: route.hops.len() - route.hop_index }
}

/// The negative report about `packet`, on its way back.
pub open spec fn nack_for(packet: PacketView, nack_type: NackType) -> PacketView {
    PacketView {
        routing_header: way_back(packet.routing_header),
        session_id: packet.session_id,
        pack_type: PacketTypeView::Nack(
            Nack { fragment_index: packet.fragment_index(), nack_type },
        ),
    }
}

/// The neighbours that a flood request goes on to: those below `bound`,
/// but for the one the request came from, in rising order.
pub open spec fn flood_targets_below(
    neighbours: Set<NodeId>,
    from: Option<NodeId>,
    bound: int,
) -> Seq<NodeId>
    decreases bound,
{
    if bound <= 0 {
        Seq::empty()
    } else {
        let before = flood_targets_below(neighbours, from, bound - 1);
        let node = (bound - 1) as NodeId;
        if neighbours.contains(node) && from != Some(node) {
            before.push(node)
        } else {
            before
        }
    }
}

/// The neighbours that a flood request goes on to: all but the one it came
/// from, in rising order.
pub open spec fn flood_targets(neighbours: Set<NodeId>, from: Option<NodeId>) -> Seq<NodeId> {
    flood_targets_below(neighbours, from, 256)
}

/// The node that a flood request came from: the last one on its trace.
pub open spec fn flood_sender(request: FloodRequestView) -> Option<NodeId> {
    if request.path_trace.len() > 0 {
        Some(request.path_trace.last().0)
    } else {
        None
    }
}

/// The state of a drone.
pub struct DroneView {
    pub id: NodeId,
    /// Where the drone reports to.
    pub controller_send: Sender<DroneEvent>,
    /// The channel to each neighbour.
    pub packet_send: Map<NodeId, Sender<Packet>>,
    /// The rate at which fragments are lost, in millionths.
    pub pdr: u32,
    /// The drone has been told to end.
    pub crashing: bool,
    /// The floods that the drone has handled, each by its identifier and
    /// its initiator.
    pub floods_seen: Set<(u64, NodeId)>,
}

impl DroneView {
    /// The state of a drone is well formed when its drop rate does not lie
    /// above certainty. A new drone is well formed, and a drone stays so
    /// whatever comes to it.
    pub open spec fn wf(self) -> bool {
        self.pdr <= DROP_RATE_SCALE
    }

    /// The drone has a channel to `node`.
    pub open spec fn reaches(self, node: NodeId) -> bool {
        self.packet_send.dom().contains(node)
    }

    /// A fragment is lost when the draw, brought into the range of the
    /// rates, lies under the drop rate.
    pub open spec fn drops(self, roll: u32) -> bool {
        roll % DROP_RATE_SCALE < self.pdr
    }

    /// The negative report about `packet` and the neighbour that takes it:
    /// the node before the cursor, if the drone has a channel to it.
    pub open spec fn refusal(self, packet: PacketView, nack_type: NackType) -> Option<
        (NodeId, PacketView),
    > {
        match packet.routing_header.previous_hop() {
            Some(previous) => if self.reaches(previous) {
                Some((previous, nack_for(packet, nack_type)))
            } else {
                None
            },
            None => None,
        }
    }

    /// The sending of the negative report about `packet`, if there is a
    /// neighbour to take it.
    pub open spec fn report_back(self, packet: PacketView, nack_type: NackType) -> Seq<
        ActionView,
    > {
        match self.refusal(packet, nack_type) {
            Some((to, nack)) => seq![ActionView::Send { to, packet: nack, otherwise: None }],
            None => Seq::empty(),
        }
    }

    /// What is done about a packet that goes no further: the negative
    /// report is sent back, or, where no neighbour can take it, the
    /// controller is told that the packet came.
    pub open spec fn refuse(self, packet: PacketView, nack_type: NackType) -> Seq<ActionView> {
        match self.refusal(packet, nack_type) {
            Some((to, nack)) => seq![ActionView::Send { to, packet: nack, otherwise: None }],
            None => seq![ActionView::Report(DroneEventView::PacketReceived(packet))],
        }
    }

    /// What the drone does about a packet that follows its route.
    pub open spec fn plan_routed(self, packet: PacketView, roll: u32) -> Seq<ActionView> {
        let header = packet.routing_header;
        let fragment = packet.pack_type is MsgFragment;
        if header.current_hop() != Some(self.id) {
            self.refuse(packet, NackType::UnexpectedRecipient(self.id))
        } else if fragment && header.is_last_hop() {
            self.refuse(packet, NackType::DestinationIsDrone)
        } else if fragment && self.crashing {
            self.refuse(packet, NackType::ErrorInRouting(self.id))
        } else if fragment && self.drops(roll) {
            seq![ActionView::Report(DroneEventView::PacketDropped(packet))] + self.report_back(
                packet,
                NackType::Dropped,
            )
        } else {
            match header.next_hop() {
                Some(next) => if self.reaches(next) {
                    seq![
                        ActionView::Send {
                            to: next,
                            packet: PacketView { routing_header: header.advanced(), ..packet },
                            otherwise: self.refusal(packet, NackType::ErrorInRouting(next)),
                        },
                    ]
                } else {
                    self.refuse(packet, NackType::ErrorInRouting(next))
                },
                None => seq![ActionView::Report(DroneEventView::PacketReceived(packet))],
            }
        }
    }

    /// What the drone does about a flood request.
    pub open spec fn plan_flood(self, packet: PacketView, request: FloodRequestView) -> Seq<
        ActionView,
    > {
        if self.crashing {
            seq![ActionView::Report(DroneEventView::PacketReceived(packet))]
        } else {
            let grown = request.incremented(self.id, NodeType::Drone);
            let onward = PacketView { pack_type: PacketTypeView::FloodRequest(grown), ..packet };
            let targets = flood_targets(self.packet_send.dom(), flood_sender(request));
            let seen = ActionView::Report(DroneEventView::FloodTraceObserved(onward));
            if self.floods_seen.contains((request.flood_id, request.initiator_id)) || targets.len()
                == 0 {
                let route = grown.response_route();
                match route.next_hop() {
                    Some(to) => if self.reaches(to) {
                        seq![
                            seen,
                            ActionView::Send {
                                to,
                                packet: PacketView {
                                    routing_header: route.advanced(),
                                    session_id: packet.session_id,
                                    pack_type: PacketTypeView::FloodResponse(grown.response()),
                                },
                                otherwise: None,
                            },
                        ]
                    } else {
                        seq![seen]
                    },
                    None => seq![seen],
                }
            } else {
                seq![seen] + Seq::new(
                    targets.len(),
                    |i: int| ActionView::Send { to: targets[i], packet: onward, otherwise: None },
                )
            }
        }
    }

    /// What the drone does about a packet, given the draw that decides
    /// whether a fragment is lost.
    pub open spec fn plan(self, packet: PacketView, roll: u32) -> Seq<ActionView> {
        match packet.pack_type {
            PacketTypeView::FloodRequest(request) => self.plan_flood(packet, request),
            _ => self.plan_routed(packet, roll),
        }
    }

    /// The drone after it has handled a packet: a flood request that it
    /// took up is remembered, and nothing else changes.
    pub open spec fn after_packet(self, packet: PacketView) -> DroneView {
        match packet.pack_type {
            PacketTypeView::FloodRequest(request) => if self.crashing {
                self
            } else {
                DroneView {
                    floods_seen: self.floods_seen.insert((request.flood_id, request.initiator_id)),
                    ..self
                }
            },
            _ => self,
        }
    }

    /// The drone refuses a command that sets a drop rate above certainty.
    pub open spec fn rejects(self, command: DroneCommand) -> bool {
        command matches DroneCommand::SetPacketDropRate(rate) && rate > DROP_RATE_SCALE
    }

    /// The drone after it has obeyed a command.
    pub open spec fn after_command(self, command: DroneCommand) -> DroneView {
        match command {
            DroneCommand::RemoveSender(node) => DroneView {
                packet_send: self.packet_send.remove(node),
                ..self
            },
            DroneCommand::AddSender(node, sender) => DroneView {
                packet_send: self.packet_send.insert(node, sender),
                ..self
            },
            DroneCommand::SetPacketDropRate(rate) => DroneView { pdr: rate, ..self },
            DroneCommand::Crash => DroneView { crashing: true, ..self },
        }
    }
}

/// A drop rate that is no rate: it lies above certainty.
#[derive(Debug, Clone, Copy, PartialEq, Eq)]
pub struct InvalidDropRate(pub u32);

/// What comes to a drone.
#[derive(Debug)]
pub enum Input {
    /// A command of the controller.
    Command(DroneCommand),
    /// A packet, and the draw that decides whether it is lost if it is a
    /// fragment.
    Packet(Packet, u32),
    /// Nothing: there is nothing left to take.
    Nothing,
    /// A channel that the drone listens on has no sender left: nothing
    /// more can come on it, and the drone is to end as if it had been told
    /// to.
    Closed,
}

/// A drone.
pub struct Drone {
    id: NodeId,
    controller_send: Sender<DroneEvent>,
    packet_send: HashMap<NodeId, Sender<Packet>>,
    pdr: u32,
    crashing: bool,
    floods_seen: Vec<(u64, NodeId)>,
}

impl View for Drone {
    type V = DroneView;

    closed spec fn view(&self) -> DroneView {
        DroneView {
            id: self.id,
            controller_send: self.controller_send,
            packet_send: self.packet_send@,
            pdr: self.pdr,
            crashing: self.crashing,
            floods_seen: self.floods_seen@.to_set(),
        }
    }
}

impl Drone {
    /// A drone without neighbours that has seen no flood.
    pub fn new(id: NodeId, controller_send: Sender<DroneEvent>, pdr: u32) -> (r: Self)
        requires
            pdr <= DROP_RATE_SCALE,
        ensures
            r@ == (DroneView {
                id,
                controller_send,
                packet_send: Map::empty(),
                pdr,
                crashing: false,
                floods_seen: Set::empty(),
            }),
            r@.wf(),
    {
        let r = Drone {
            id,
            controller_send,
            packet_send: HashMap::new(),
            pdr,
            crashing: false,
            floods_seen: Vec::new(),
        };
        assert(r.floods_seen@.to_set() =~= Set::empty());
        r
    }

    /// The identifier of the drone.
    pub fn id(&self) -> (r: NodeId)
        ensures
            r == self@.id,
    {
        self.id
    }

    /// The drop rate, in millionths.
    pub fn pdr(&self) -> (r: u32)
        ensures
            r == self@.pdr,
    {
        self.pdr
    }

    /// The drone has been told to end.
    pub fn is_crashing(&self) -> (r: bool)
        ensures
            r == self@.crashing,
    {
        self.crashing
    }

    /// The drone has a channel to `node`.
    pub fn has_neighbor(&self, node: NodeId) -> (r: bool)
        ensures
            r == self@.reaches(node),
    {
        self.packet_send.contains_key(&node)
    }

    /// The drone has handled the flood `flood_id` of `initiator_id`.
    pub fn has_seen_flood(&self, flood_id: u64, initiator_id: NodeId) -> (r: bool)
        ensures
            r == self@.floods_seen.contains((flood_id, initiator_id)),
    {
        let mut i: usize = 0;
        while i < self.floods_seen.len()
            invariant
                i <= self.floods_seen@.len(),
                forall|k: int| 0 <= k < i ==> self.floods_seen@[k] != (flood_id, initiator_id),
            decreases self.floods_seen@.len() - i,
        {
            let seen = self.floods_seen[i];
            if seen.0 == flood_id && seen.1 == initiator_id {
                return true;
            }
            i += 1;
        }
        false
    }

    /// The negative report about `packet` and the neighbour that takes it.
    fn refusal(&self, packet: &Packet, nack_type: NackType) -> (r: Option<(NodeId, Packet)>)
        ensures
            match (r, self@.refusal(packet@, nack_type)) {
                (Some((node, report)), Some((to, nack))) => node == to && report@ == nack,
                (None, None) => true,
                _ => false,
            },
    {
        match packet.routing_header.previous_hop() {
            Some(previous) => {
                if self.packet_send.contains_key(&previous) {
                    let mut back = packet.routing_header.get_reversed();
                    back.hop_index = packet.routing_header.len() - packet.routing_header.hop_index;
                    let nack = Nack { fragment_index: packet.get_fragment_index(), nack_type };
                    Some((previous, Packet::new_nack(back, packet.session_id, nack)))
                } else {
                    None
                }
            },
            None => None,
        }
    }

    /// What is done about a packet that goes no further.
    fn refuse(&self, packet: &Packet, nack_type: NackType) -> (r: Vec<Action>)
        ensures
            actions_view(r@) == self@.refuse(packet@, nack_type),
    {
        let mut actions: Vec<Action> = Vec::new();
        match self.refusal(packet, nack_type) {
            Some((to, nack)) => {
                actions.push(Action::Send { to, packet: nack, otherwise: None });
            },
            None => {
                actions.push(Action::Report(DroneEvent::PacketReceived(packet.clone())));
            },
        }
        assert(actions_view(actions@) =~= self@.refuse(packet@, nack_type));
        actions
    }

    /// What the drone does about a packet that follows its route.
    fn plan_routed(&self, packet: &Packet, roll: u32) -> (r: Vec<Action>)
        requires
            !(packet.pack_type is FloodRequest),
        ensures
            actions_view(r@) == self@.plan_routed(packet@, roll),
    {
        let fragment = match &packet.pack_type {
            PacketType::MsgFragment(_) => true,
            _ => false,
        };
        let here = match packet.routing_header.current_hop() {
            Some(node) => node == self.id,
            None => false,
        };
        if !here {
            return self.refuse(packet, NackType::UnexpectedRecipient(self.id));
        }
        if fragment && packet.routing_header.is_last_hop() {
            return self.refuse(packet, NackType::DestinationIsDrone);
        }
        if fragment && self.crashing {
            return self.refuse(packet, NackType::ErrorInRouting(self.id));
        }
        if fragment && roll % DROP_RATE_SCALE < self.pdr {
            let mut actions: Vec<Action> = Vec::new();
            actions.push(Action::Report(DroneEvent::PacketDropped(packet.clone())));
            match self.refusal(packet, NackType::Dropped) {
                Some((to, nack)) => {
                    actions.push(Action::Send { to, packet: nack, otherwise: None });
                },
                None => {},
            }
            assert(actions_view(actions@) =~= self@.plan_routed(packet@, roll));
            return actions;
        }
        match packet.routing_header.next_hop() {
            Some(next) => {
                if self.packet_send.contains_key(&next) {
                    let mut onward = packet.clone();
                    assert(onward.routing_header.hop_index + 1 < onward.routing_header.hops.len());
                    onward.routing_header.increase_hop_index();
                    let otherwise = self.refusal(packet, NackType::ErrorInRouting(next));
                    let mut actions: Vec<Action> = Vec::new();
                    actions.push(Action::Send { to: next, packet: onward, otherwise });
                    assert(actions_view(actions@) =~= self@.plan_routed(packet@, roll));
                    actions
                } else {
                    self.refuse(packet, NackType::ErrorInRouting(next))
                }
            },
            None => {
                let mut actions: Vec<Action> = Vec::new();
                actions.push(Action::Report(DroneEvent::PacketReceived(packet.clone())));
                assert(actions_view(actions@) =~= self@.plan_routed(packet@, roll));
                actions
            },
        }
    }

    /// The neighbours that a flood request goes on to.
    fn flood_targets(&self, from: Option<NodeId>) -> (r: Vec<NodeId>)
        ensures
            r@ == flood_targets(self@.packet_send.dom(), from),
    {
        let mut targets: Vec<NodeId> = Vec::new();
        let mut bound: u16 = 0;
        while bound < 256
            invariant
                bound <= 256,
                targets@ == flood_targets_below(self@.packet_send.dom(), from, bound as int),
            decreases 256 - bound,
        {
            let node = bound as NodeId;
            let came_from = match from {
                Some(sender) => sender == node,
                None => false,
            };
            if self.packet_send.contains_key(&node) && !came_from {
                targets.push(node);
            }
            bound += 1;
        }
        targets
    }

    /// What the drone does about a flood request.
    fn plan_flood(&self, packet: &Packet, request: &FloodRequest) -> (r: Vec<Action>)
        requires
            packet@.pack_type == PacketTypeView::FloodRequest(request@),
        ensures
            actions_view(r@) == self@.plan_flood(packet@, request@),
    {
        let mut actions: Vec<Action> = Vec::new();
        if self.crashing {
            actions.push(Action::Report(DroneEvent::PacketReceived(packet.clone())));
            assert(actions_view(actions@) =~= self@.plan_flood(packet@, request@));
            return actions;
        }
        let grown = request.get_incremented(self.id, NodeType::Drone);
        let from = if request.path_trace.len() > 0 {
            Some(request.path_trace[request.path_trace.len() - 1].0)
        } else {
            None
        };
        let targets = self.flood_targets(from);
        let onward = Packet::new_flood_request(
            packet.routing_header.clone(),
            packet.session_id,
            grown.clone(),
        );
        actions.push(Action::Report(DroneEvent::FloodTraceObserved(onward.clone())));
        if self.has_seen_flood(request.flood_id, request.initiator_id) || targets.len() == 0 {
            let mut response = grown.generate_response(packet.session_id);
            match response.routing_header.next_hop() {
                Some(to) => {
                    if self.packet_send.contains_key(&to) {
                        response.routing_header.increase_hop_index();
                        actions.push(Action::Send { to, packet: response, otherwise: None });
                    }
                },
                None => {},
            }
            assert(actions_view(actions@) =~= self@.plan_flood(packet@, request@));
        } else {
            let mut i: usize = 0;
            while i < targets.len()
                invariant
                    i <= targets@.len(),
                    actions@.len() == i + 1,
                    actions@[0]@ == ActionView::Report(
                        DroneEventView::FloodTraceObserved(onward@),
                    ),
                    forall|k: int|
                        1 <= k <= i ==> (#[trigger] actions@[k])@ == (ActionView::Send {
                            to: targets@[k - 1],
                            packet: onward@,
                            otherwise: None,
                        }),
                decreases targets@.len() - i,
            {
                actions.push(
                    Action::Send { to: targets[i], packet: onward.clone(), otherwise: None },
                );
                i += 1;
            }
            assert(actions_view(actions@) =~= self@.plan_flood(packet@, request@));
        }
        actions
    }

    /// What the drone does about `packet`, given the draw that decides
    /// whether a fragment is lost. Nothing is sent and nothing changes.
    pub fn plan(&self, packet: &Packet, roll: u32) -> (r: Vec<Action>)
        ensures
            actions_view(r@) == self@.plan(packet@, roll),
    {
        match &packet.pack_type {
            PacketType::FloodRequest(request) => self.plan_flood(packet, request),
            _ => self.plan_routed(packet, roll),
        }
    }

    /// Tells the controller. An event that the controller's channel does
    /// not take is lost.
    fn report(&self, event: DroneEvent) {
        let _ = try_send(&self.controller_send, event);
    }

    /// Hands `packet` to the neighbour `to`, and says whether the
    /// neighbour took it. Nothing goes to a node that is no neighbour.
    fn hand(&self, to: NodeId, packet: &Packet) -> (went: bool)
        ensures
            went ==> self@.reaches(to),
    {
        match self.packet_send.get(&to) {
            Some(sender) => try_send(sender, packet.clone()).is_none(),
            None => false,
        }
    }

    /// Carries out an action: a report goes to the controller; a packet is
    /// handed to its neighbour, and what is left to do after that attempt
    /// is carried out in turn.
    fn carry_out(&self, action: &Action)
        decreases action@.attempts(),
    {
        match action {
            Action::Report(event) => {
                self.report(event.clone());
            },
            Action::Send { to, packet, .. } => {
                let went = self.hand(*to, packet);
                let left = action.after_attempt(went);
                let mut i: usize = 0;
                while i < left.len()
                    invariant
                        i <= left@.len(),
                        actions_view(left@) == action@.after_attempt(went),
                        action@ is Send,
                    decreases left@.len() - i,
                {
                    proof {
                        let next = left@[i as int]@;
                        assert(next == actions_view(left@)[i as int]);
                        assert(actions_view(left@).len() == left@.len());
                        lemma_attempts_run_out(action@, went, i as int);
                    }
                    self.carry_out(&left[i]);
                    i += 1;
                }
            },
        }
    }

    /// Carries out a list of actions, in order.
    fn perform(&self, actions: &Vec<Action>) {
        let mut i: usize = 0;
        while i < actions.len()
            invariant
                i <= actions@.len(),
            decreases actions@.len() - i,
        {
            self.carry_out(&actions[i]);
            i += 1;
        }
    }

    /// Handles a packet that has come to the drone: what `plan` lists is
    /// carried out, and a flood request that the drone took up is
    /// remembered. `roll` is the draw that decides whether a fragment is
    /// lost. Returns the actions, whether or not the channels took what was
    /// sent.
    pub fn handle_packet(&mut self, packet: Packet, roll: u32) -> (r: Vec<Action>)
        ensures
            actions_view(r@) == old(self)@.plan(packet@, roll),
            final(self)@ == old(self)@.after_packet(packet@),
            old(self)@.wf() ==> final(self)@.wf(),
    {
        let actions = self.plan(&packet, roll);
        match &packet.pack_type {
            PacketType::FloodRequest(request) => {
                if !self.crashing && !self.has_seen_flood(request.flood_id, request.initiator_id) {
                    proof {
                        self.floods_seen@.lemma_push_to_set_commute(
                            (request.flood_id, request.initiator_id),
                        );
                    }
                    self.floods_seen.push((request.flood_id, request.initiator_id));
                }
                assert(self@.floods_seen =~= old(self)@.after_packet(packet@).floods_seen);
            },
            _ => {},
        }
        self.perform(&actions);
        actions
    }

    /// Obeys a command of the controller. A drop rate above certainty is
    /// refused, and the drone stays as it was.
    pub fn handle_command(&mut self, command: DroneCommand) -> (r: Result<(), InvalidDropRate>)
        ensures
            match r {
                Ok(()) => !old(self)@.rejects(command) && final(self)@ == old(self)@.after_command(
                    command,
                ),
                Err(refused) => command == DroneCommand::SetPacketDropRate(refused.0) && refused.0
                    > DROP_RATE_SCALE && final(self)@ == old(self)@,
            },
            old(self)@.wf() ==> final(self)@.wf(),
    {
        match command {
            DroneCommand::RemoveSender(node) => {
                self.packet_send.remove(&node);
                Ok(())
            },
            DroneCommand::AddSender(node, sender) => {
                self.packet_send.insert(node, sender);
                Ok(())
            },
            DroneCommand::SetPacketDropRate(rate) => {
                if rate > DROP_RATE_SCALE {
                    Err(InvalidDropRate(rate))
                } else {
                    self.pdr = rate;
                    Ok(())
                }
            },
            DroneCommand::Crash => {
                self.crashing = true;
                Ok(())
            },
        }
    }

    /// The drone after it has taken `input`.
    pub open spec fn after_input(state: DroneView, input: Input) -> DroneView {
        match input {
            Input::Command(command) => if state.rejects(command) {
                state
            } else {
                state.after_command(command)
            },
            Input::Packet(packet, _) => state.after_packet(packet@),
            Input::Nothing => state,
            Input::Closed => state.after_command(DroneCommand::Crash),
        }
    }

    /// Takes what has come to the drone, and says whether the drone goes
    /// on. A drone ends when it has been told to end and nothing is left
    /// for it to take; it tells the controller so.
    pub fn handle_input(&mut self, input: Input) -> (running: bool)
        ensures
            running == !(input is Nothing && old(self)@.crashing),
            final(self)@ == Self::after_input(old(self)@, input),
            old(self)@.wf() ==> final(self)@.wf(),
    {
        match input {
            Input::Command(command) => {
                let _ = self.handle_command(command);
                true
            },
            Input::Packet(packet, roll) => {
                let _ = self.handle_packet(packet, roll);
                true
            },
            Input::Nothing => {
                if self.crashing {
                    self.report(DroneEvent::DroneCrash);
                    false
                } else {
                    true
                }
            },
            Input::Closed => {
                self.crashing = true;
                true
            },
        }
    }
}

/// A flood request goes on to every neighbour but the one it came from,
/// to each once, in rising order.
pub proof fn lemma_flood_targets(neighbours: Set<NodeId>, from: Option<NodeId>, bound: int)
    requires
        0 <= bound <= 256,
    ensures
        forall|node: NodeId| #[trigger]
            flood_targets_below(neighbours, from, bound).contains(node) <==> (node < bound
                && neighbours.contains(node) && from != Some(node)),
        forall|i: int, j: int|
            #![trigger
                flood_targets_below(neighbours, from, bound)[i],
                flood_targets_below(neighbours, from, bound)[j]
            ]
            0 <= i < j < flood_targets_below(neighbours, from, bound).len()
                ==> flood_targets_below(neighbours, from, bound)[i] < flood_targets_below(
                neighbours,
                from,
                bound,
            )[j],
    decreases bound,
{
    if bound > 0 {
        lemma_flood_targets(neighbours, from, bound - 1);
        let before = flood_targets_below(neighbours, from, bound - 1);
        let now = flood_targets_below(neighbours, from, bound);
        let last = (bound - 1) as NodeId;
        let pushed = neighbours.contains(last) && from != Some(last);
        assert(last as int == bound - 1);
        assert(now == if pushed {
            before.push(last)
        } else {
            before
        });
        assert forall|node: NodeId| #[trigger]
            now.contains(node) <==> (node < bound && neighbours.contains(node) && from != Some(
                node,
            )) by {
            if now.contains(node) {
                let i = choose|i: int| 0 <= i < now.len() && now[i] == node;
                if i < before.len() {
                    assert(before[i] == node);
                    assert(before.contains(node));
                } else {
                    assert(node == last);
                }
            }
            if node < bound && neighbours.contains(node) && from != Some(node) {
                if node == last {
                    assert(now[now.len() - 1] == node);
                } else {
                    assert(node < bound - 1);
                    assert(before.contains(node));
                    let i = choose|i: int| 0 <= i < before.len() && before[i] == node;
                    assert(now[i] == node);
                }
            }
        }
        assert forall|i: int, j: int| 0 <= i < j < now.len() implies #[trigger] now[i]
            < #[trigger] now[j] by {
            if j >= before.len() {
                assert(before[i] == now[i]);
                assert(before.contains(before[i]));
                assert(now[j] == last);
            } else {
                assert(before[i] == now[i] && before[j] == now[j]);
            }
        }
    }
}

/// A negative report is on a route that has the neighbour who takes it
/// under the cursor: the route of the packet, walked backwards.
pub proof fn lemma_refusal_is_addressed(
    state: DroneView,
    packet: PacketView,
    nack_type: NackType,
    to: NodeId,
    nack: PacketView,
)
    requires
        state.refusal(packet, nack_type) == Some((to, nack)),
    ensures
        state.reaches(to),
        nack.routing_header.current_hop() == Some(to),
        nack.routing_header.hops == packet.routing_header.hops.reverse(),
        nack.session_id == packet.session_id,
        nack.pack_type == PacketTypeView::Nack(
            Nack { fragment_index: packet.fragment_index(), nack_type },
        ),
{
}

/// Whatever a drone hands on, it hands to a neighbour: to one it has a
/// channel to.
pub proof fn lemma_plan_sends_to_neighbours(state: DroneView, packet: PacketView, roll: u32)
    ensures
        forall|i: int|
            0 <= i < state.plan(packet, roll).len() ==> (#[trigger] state.plan(
                packet,
                roll,
            )[i] matches ActionView::Send { to, otherwise, .. } ==> state.reaches(to) && (
            otherwise matches Some((spare, _)) ==> state.reaches(spare))),
{
    match packet.pack_type {
        PacketTypeView::FloodRequest(request) => {
            lemma_flood_targets(state.packet_send.dom(), flood_sender(request), 256);
            let targets = flood_targets(state.packet_send.dom(), flood_sender(request));
            assert forall|i: int| 0 <= i < targets.len() implies state.reaches(targets[i]) by {
                assert(targets.contains(targets[i]));
            }
        },
        _ => {},
    }
}

/// With a drop rate of zero no fragment is lost: a fragment that has come
/// to the right drone, with a neighbour next on its route, goes on to that
/// neighbour with its cursor one hop further and nothing else changed,
/// whatever the draw.
pub proof fn lemma_no_loss_at_rate_zero(state: DroneView, packet: PacketView, roll: u32)
    requires
        state.pdr == 0,
        !state.crashing,
        packet.pack_type is MsgFragment,
        packet.routing_header.current_hop() == Some(state.id),
        packet.routing_header.next_hop() is Some,
        state.reaches(packet.routing_header.next_hop()->0),
    ensures
        state.plan(packet, roll) == seq![
            ActionView::Send {
                to: packet.routing_header.next_hop()->0,
                packet: PacketView { routing_header: packet.routing_header.advanced(), ..packet },
                otherwise: state.refusal(
                    packet,
                    NackType::ErrorInRouting(packet.routing_header.next_hop()->0),
                ),
            },
        ],
{
}

/// With a drop rate of certainty every fragment that would go on is lost
/// instead, whatever the draw: the controller is told, the report goes
/// back, and nothing goes on.
pub proof fn lemma_certain_loss(state: DroneView, packet: PacketView, roll: u32)
    requires
        state.pdr == DROP_RATE_SCALE,
        !state.crashing,
        packet.pack_type is MsgFragment,
        packet.routing_header.current_hop() == Some(state.id),
        !packet.routing_header.is_last_hop(),
    ensures
        state.plan(packet, roll) == seq![
            ActionView::Report(DroneEventView::PacketDropped(packet)),
        ] + state.report_back(packet, NackType::Dropped),
        forall|i: int|
            0 <= i < state.plan(packet, roll).len() ==> (#[trigger] state.plan(
                packet,
                roll,
            )[i] matches ActionView::Send { packet: sent, .. } ==> sent.pack_type
                == PacketTypeView::Nack(
                Nack { fragment_index: packet.fragment_index(), nack_type: NackType::Dropped },
            )),
{
}

/// A packet whose next node is no neighbour does not go on: the report
/// that names that node goes back. This holds from the moment the channel
/// to the node is taken away.
pub proof fn lemma_missing_neighbour(state: DroneView, packet: PacketView, roll: u32, next: NodeId)
    requires
        packet.pack_type is MsgFragment,
        !state.crashing,
        !state.drops(roll),
        packet.routing_header.current_hop() == Some(state.id),
        packet.routing_header.next_hop() == Some(next),
    ensures
        !state.reaches(next) ==> state.plan(packet, roll) == state.refuse(
            packet,
            NackType::ErrorInRouting(next),
        ),
        state.after_command(DroneCommand::RemoveSender(next)).plan(packet, roll)
            == state.after_command(DroneCommand::RemoveSender(next)).refuse(
            packet,
            NackType::ErrorInRouting(next),
        ),
        state.after_command(DroneCommand::RemoveSender(next)).packet_send
            == state.packet_send.remove(next),
        state.wf() ==> state.after_command(DroneCommand::RemoveSender(next)).wf(),
{
}

/// Only fragments are lost on purpose: what a drone does about any other
/// packet depends neither on the draw nor on the drop rate, and no such
/// packet is reported as dropped.
pub proof fn lemma_only_fragments_are_lost(
    state: DroneView,
    packet: PacketView,
    roll: u32,
    other_roll: u32,
    other_rate: u32,
)
    requires
        !(packet.pack_type is MsgFragment),
    ensures
        state.plan(packet, roll) == (DroneView { pdr: other_rate, ..state }).plan(
            packet,
            other_roll,
        ),
        forall|i: int|
            0 <= i < state.plan(packet, roll).len() ==> !(#[trigger] state.plan(packet, roll)[i]
                matches ActionView::Report(DroneEventView::PacketDropped(_))),
{
}

/// A drone spreads a flood once: after it has taken up a request, it hands
/// on no further request of that flood, but answers each.
pub proof fn lemma_flood_is_spread_once(
    state: DroneView,
    first: PacketView,
    later: PacketView,
    roll: u32,
)
    requires
        !state.crashing,
        first.pack_type is FloodRequest,
        later.pack_type is FloodRequest,
        first.pack_type->FloodRequest_0.flood_id == later.pack_type->FloodRequest_0.flood_id,
        first.pack_type->FloodRequest_0.initiator_id
            == later.pack_type->FloodRequest_0.initiator_id,
    ensures
        state.after_packet(first).floods_seen.contains(
            (later.pack_type->FloodRequest_0.flood_id, later.pack_type->FloodRequest_0.initiator_id),
        ),
        forall|i: int|
            0 <= i < state.after_packet(first).plan(later, roll).len() ==> (
            #[trigger] state.after_packet(first).plan(later, roll)[i] matches ActionView::Send {
                packet,
                ..
            } ==> packet.pack_type is FloodResponse),
{
}

} // verus!
