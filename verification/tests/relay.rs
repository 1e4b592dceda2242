use crossbeam_channel::{unbounded, Receiver, Sender};
use wg_2024::controller::{DroneCommand, DroneEvent, DROP_RATE_SCALE};
use wg_2024::drone::{Action, Drone, Input, InvalidDropRate};
use wg_2024::network::{NodeId, SourceRoutingHeader};
use wg_2024::packet::{
    FloodRequest, Fragment, Nack, NackType, NodeType, Packet, PacketType,
};

const C: NodeId = 10;
const R1: NodeId = 1;
const R2: NodeId = 2;
const R3: NodeId = 3;
const S: NodeId = 20;

struct Net {
    r1: Drone,
    r2: Drone,
    r3: Drone,
    to: Vec<(NodeId, Sender<Packet>)>,
    at_c: Receiver<Packet>,
    at_r1: Receiver<Packet>,
    at_r2: Receiver<Packet>,
    at_r3: Receiver<Packet>,
    at_s: Receiver<Packet>,
    events: Receiver<DroneEvent>,
}

fn sender_of(to: &[(NodeId, Sender<Packet>)], node: NodeId) -> Sender<Packet> {
    to.iter().find(|(id, _)| *id == node).unwrap().1.clone()
}

fn link(drone: &mut Drone, to: &[(NodeId, Sender<Packet>)], node: NodeId) {
    assert_eq!(drone.handle_command(DroneCommand::AddSender(node, sender_of(to, node))), Ok(()));
}

/// C - R1 - R2 - R3 - S, every drone with the same drop rate.
fn line(pdr: u32) -> Net {
    let (events_in, events) = unbounded();
    let (to_c, at_c) = unbounded();
    let (to_r1, at_r1) = unbounded();
    let (to_r2, at_r2) = unbounded();
    let (to_r3, at_r3) = unbounded();
    let (to_s, at_s) = unbounded();
    let to = vec![(C, to_c), (R1, to_r1), (R2, to_r2), (R3, to_r3), (S, to_s)];
    let mut r1 = Drone::new(R1, events_in.clone(), pdr);
    let mut r2 = Drone::new(R2, events_in.clone(), pdr);
    let mut r3 = Drone::new(R3, events_in, pdr);
    link(&mut r1, &to, C);
    link(&mut r1, &to, R2);
    link(&mut r2, &to, R1);
    link(&mut r2, &to, R3);
    link(&mut r3, &to, R2);
    link(&mut r3, &to, S);
    Net { r1, r2, r3, to, at_c, at_r1, at_r2, at_r3, at_s, events }
}

fn fragment_packet() -> Packet {
    Packet::new_fragment(
        SourceRoutingHeader::with_first_hop(vec![C, R1, R2, R3, S]),
        7,
        Fragment::from_string(3, 5, "hello".to_string()),
    )
}

fn nack_of(packet: &Packet) -> Nack {
    match &packet.pack_type {
        PacketType::Nack(nack) => *nack,
        other => panic!("not a nack: {:?}", other),
    }
}

#[test]
fn fragment_travels_the_route_and_the_ack_comes_back() {
    let mut net = line(0);
    net.r1.handle_packet(fragment_packet(), 0);
    let at_r2 = net.at_r2.try_recv().unwrap();
    assert_eq!(at_r2.routing_header.hop_index, 2);
    net.r2.handle_packet(at_r2, 0);
    let at_r3 = net.at_r3.try_recv().unwrap();
    net.r3.handle_packet(at_r3, 0);
    let arrived = net.at_s.try_recv().unwrap();
    let sent = fragment_packet();
    assert_eq!(arrived.pack_type, sent.pack_type);
    assert_eq!(arrived.session_id, sent.session_id);
    assert_eq!(arrived.routing_header.hops, sent.routing_header.hops);
    assert_eq!(arrived.routing_header.current_hop(), Some(S));

    let mut back = arrived.routing_header.get_reversed();
    assert_eq!(back.hops, vec![S, R3, R2, R1, C]);
    assert_eq!(back.current_hop(), Some(S));
    back.increase_hop_index();
    let ack = Packet::new_ack(back, arrived.session_id, arrived.get_fragment_index());
    net.r3.handle_packet(ack, 0);
    net.r2.handle_packet(net.at_r2.try_recv().unwrap(), 0);
    net.r1.handle_packet(net.at_r1.try_recv().unwrap(), 0);
    let at_c = net.at_c.try_recv().unwrap();
    assert_eq!(at_c.session_id, 7);
    assert_eq!(at_c.routing_header.current_hop(), Some(C));
    match at_c.pack_type {
        PacketType::Ack(ack) => assert_eq!(ack.fragment_index, 3),
        other => panic!("not an ack: {:?}", other),
    }
    let sent_events = net.events.try_iter().filter(|e| matches!(e, DroneEvent::PacketSent(_))).count();
    assert_eq!(sent_events, 6);
}

#[test]
fn full_drop_rate_loses_every_fragment_and_reports_it() {
    let mut net = line(0);
    assert_eq!(net.r2.handle_command(DroneCommand::SetPacketDropRate(DROP_RATE_SCALE)), Ok(()));
    for roll in [0u32, 1, 999_999, 1_000_000, 123_456_789, u32::MAX] {
        net.r1.handle_packet(fragment_packet(), roll % 2);
        let at_r2 = net.at_r2.try_recv().unwrap();
        net.r2.handle_packet(at_r2, roll);
        assert!(net.at_r3.try_recv().is_err());
        let back = net.at_r1.try_recv().unwrap();
        net.r1.handle_packet(back, 0);
        let at_c = net.at_c.try_recv().unwrap();
        assert_eq!(nack_of(&at_c), Nack { fragment_index: 3, nack_type: NackType::Dropped });
        assert_eq!(at_c.session_id, 7);
        assert_eq!(at_c.routing_header.hops, vec![S, R3, R2, R1, C]);
        assert_eq!(at_c.routing_header.current_hop(), Some(C));
    }
    let dropped = net.events.try_iter().filter(|e| matches!(e, DroneEvent::PacketDropped(_))).count();
    assert_eq!(dropped, 6);
}

#[test]
fn drop_follows_the_draw() {
    let mut net = line(250_000);
    let lost = net.r1.handle_packet(fragment_packet(), 249_999);
    assert!(matches!(lost[0], Action::Report(DroneEvent::PacketDropped(_))));
    assert!(net.at_r2.try_recv().is_err());
    assert_eq!(nack_of(&net.at_c.try_recv().unwrap()).nack_type, NackType::Dropped);
    let kept = net.r1.handle_packet(fragment_packet(), 250_000);
    assert_eq!(kept.len(), 1);
    assert!(net.at_r2.try_recv().is_ok());
    let wrapped = net.r1.handle_packet(fragment_packet(), 1_000_000);
    assert!(matches!(wrapped[0], Action::Report(DroneEvent::PacketDropped(_))));
}

#[test]
fn missing_neighbour_is_an_error_in_routing() {
    let mut net = line(0);
    assert_eq!(net.r2.handle_command(DroneCommand::RemoveSender(R3)), Ok(()));
    net.r1.handle_packet(fragment_packet(), 0);
    net.r2.handle_packet(net.at_r2.try_recv().unwrap(), 0);
    assert!(net.at_r3.try_recv().is_err());
    net.r1.handle_packet(net.at_r1.try_recv().unwrap(), 0);
    let at_c = net.at_c.try_recv().unwrap();
    assert_eq!(
        nack_of(&at_c),
        Nack { fragment_index: 3, nack_type: NackType::ErrorInRouting(R3) }
    );
}

#[test]
fn removing_a_neighbour_between_fragments() {
    let mut net = line(0);
    net.r1.handle_packet(fragment_packet(), 0);
    net.r2.handle_packet(net.at_r2.try_recv().unwrap(), 0);
    assert!(net.at_r3.try_recv().is_ok());
    assert_eq!(net.r2.handle_command(DroneCommand::RemoveSender(R3)), Ok(()));
    assert_eq!(net.r2.handle_command(DroneCommand::RemoveSender(R3)), Ok(()));
    assert_eq!(net.r2.id(), R2);
    assert_eq!(net.r2.pdr(), 0);
    assert!(net.r2.has_neighbor(R1));
    assert!(!net.r2.has_neighbor(R3));
    for _ in 0..3 {
        net.r1.handle_packet(fragment_packet(), 0);
        net.r2.handle_packet(net.at_r2.try_recv().unwrap(), 0);
        assert!(net.at_r3.try_recv().is_err());
        let back = net.at_r1.try_recv().unwrap();
        assert_eq!(nack_of(&back).nack_type, NackType::ErrorInRouting(R3));
    }
    link(&mut net.r2, &net.to.clone(), R3);
    net.r1.handle_packet(fragment_packet(), 0);
    net.r2.handle_packet(net.at_r2.try_recv().unwrap(), 0);
    assert!(net.at_r3.try_recv().is_ok());
}

#[test]
fn a_neighbour_that_is_gone_is_an_error_in_routing() {
    let mut net = line(0);
    let (_, nobody) = unbounded::<Packet>();
    drop(std::mem::replace(&mut net.at_r3, nobody));
    net.r1.handle_packet(fragment_packet(), 0);
    let planned = net.r2.handle_packet(net.at_r2.try_recv().unwrap(), 0);
    assert!(matches!(planned[..], [Action::Send { to: R3, otherwise: Some((R1, _)), .. }]));
    let back = net.at_r1.try_recv().unwrap();
    assert_eq!(nack_of(&back).nack_type, NackType::ErrorInRouting(R3));
    assert_eq!(back.routing_header.current_hop(), Some(R1));
    let sent: Vec<DroneEvent> = net.events.try_iter().collect();
    assert_eq!(sent.len(), 2);
    assert_eq!(sent[1], DroneEvent::PacketSent(back));
}

#[test]
fn a_neighbour_whose_channel_is_full_does_not_hold_the_drone_up() {
    let (events_in, _events) = unbounded();
    let (to_c, at_c) = unbounded();
    let (to_r2, at_r2) = crossbeam_channel::bounded(1);
    let mut drone = Drone::new(R1, events_in, 0);
    drone.handle_command(DroneCommand::AddSender(C, to_c)).unwrap();
    drone.handle_command(DroneCommand::AddSender(R2, to_r2)).unwrap();
    drone.handle_packet(fragment_packet(), 0);
    drone.handle_packet(fragment_packet(), 0);
    assert!(at_r2.try_recv().is_ok());
    assert!(at_r2.try_recv().is_err());
    assert_eq!(nack_of(&at_c.try_recv().unwrap()).nack_type, NackType::ErrorInRouting(R2));
}

#[test]
fn unexpected_recipient_and_destination_is_drone() {
    let mut net = line(0);
    let stray = Packet::new_fragment(
        SourceRoutingHeader::new(vec![C, R1, R3, S], 2),
        9,
        Fragment::from_string(0, 1, "x".to_string()),
    );
    net.r2.handle_packet(stray, 0);
    let back = net.at_r1.try_recv().unwrap();
    assert_eq!(
        nack_of(&back),
        Nack { fragment_index: 0, nack_type: NackType::UnexpectedRecipient(R2) }
    );
    assert_eq!(back.routing_header.hops, vec![S, R3, R1, C]);
    assert_eq!(back.routing_header.current_hop(), Some(R1));

    let past_the_end = Packet::new_ack(SourceRoutingHeader::new(vec![C, R1], 2), 9, 4);
    let actions = net.r2.handle_packet(past_the_end, 0);
    assert_eq!(actions.len(), 1);
    let back = net.at_r1.try_recv().unwrap();
    assert_eq!(nack_of(&back).nack_type, NackType::UnexpectedRecipient(R2));
    assert_eq!(back.routing_header.hops, vec![R1, C]);
    assert_eq!(back.routing_header.hop_index, 0);

    let ends_here = Packet::new_fragment(
        SourceRoutingHeader::new(vec![C, R1, R2], 2),
        9,
        Fragment::from_string(1, 2, "x".to_string()),
    );
    net.r2.handle_packet(ends_here, 0);
    let back = net.at_r1.try_recv().unwrap();
    assert_eq!(
        nack_of(&back),
        Nack { fragment_index: 1, nack_type: NackType::DestinationIsDrone }
    );
}

#[test]
fn drop_rate_above_one_is_refused() {
    let mut net = line(10);
    assert_eq!(
        net.r1.handle_command(DroneCommand::SetPacketDropRate(DROP_RATE_SCALE + 1)),
        Err(InvalidDropRate(DROP_RATE_SCALE + 1))
    );
    assert_eq!(net.r1.pdr(), 10);
    assert_eq!(net.r1.handle_command(DroneCommand::SetPacketDropRate(DROP_RATE_SCALE)), Ok(()));
    assert_eq!(net.r1.pdr(), DROP_RATE_SCALE);
}

#[test]
fn flood_round_trip() {
    let mut net = line(0);
    let request = FloodRequest::initialize(77, C, NodeType::Client);
    let packet = Packet::new_flood_request(SourceRoutingHeader::empty_route(), 5, request);
    net.r1.handle_packet(packet, 0);
    assert!(net.at_c.try_recv().is_err());
    net.r2.handle_packet(net.at_r2.try_recv().unwrap(), 0);
    assert!(net.at_r1.try_recv().is_err());
    net.r3.handle_packet(net.at_r3.try_recv().unwrap(), 0);
    assert!(net.at_r2.try_recv().is_err());
    let at_s = net.at_s.try_recv().unwrap();
    let request = match at_s.pack_type {
        PacketType::FloodRequest(request) => request,
        other => panic!("not a flood request: {:?}", other),
    };
    assert_eq!(
        request.path_trace,
        vec![
            (C, NodeType::Client),
            (R1, NodeType::Drone),
            (R2, NodeType::Drone),
            (R3, NodeType::Drone)
        ]
    );
    let mut response = request.get_incremented(S, NodeType::Server).generate_response(at_s.session_id);
    assert_eq!(response.routing_header.hops, vec![S, R3, R2, R1, C]);
    response.routing_header.increase_hop_index();
    net.r3.handle_packet(response, 0);
    net.r2.handle_packet(net.at_r2.try_recv().unwrap(), 0);
    net.r1.handle_packet(net.at_r1.try_recv().unwrap(), 0);
    let at_c = net.at_c.try_recv().unwrap();
    assert_eq!(at_c.session_id, 5);
    let response = match &at_c.pack_type {
        PacketType::FloodResponse(response) => response,
        other => panic!("not a flood response: {:?}", other),
    };
    assert_eq!(response.flood_id, 77);
    let trace: Vec<NodeId> = response.path_trace.iter().map(|(id, _)| *id).collect();
    assert_eq!(SourceRoutingHeader::initialize(trace).without_loops().hops, vec![C, R1, R2, R3, S]);
    assert_eq!(at_c.routing_header.get_reversed().without_loops().hops, vec![C, R1, R2, R3, S]);
}

#[test]
fn a_flood_seen_before_is_answered_at_once() {
    let mut net = line(0);
    let request = FloodRequest::initialize(1, C, NodeType::Client);
    let first = Packet::new_flood_request(SourceRoutingHeader::empty_route(), 5, request.clone());
    assert!(!net.r1.has_seen_flood(1, C));
    net.r1.handle_packet(first, 0);
    assert!(net.r1.has_seen_flood(1, C));
    assert!(!net.r1.has_seen_flood(1, S));
    assert!(net.at_r2.try_recv().is_ok());
    let again = Packet::new_flood_request(
        SourceRoutingHeader::empty_route(),
        5,
        request.get_incremented(R2, NodeType::Drone),
    );
    net.r1.handle_packet(again, 0);
    assert!(net.at_c.try_recv().is_err());
    let answer = net.at_r2.try_recv().unwrap();
    assert_eq!(answer.routing_header.hops, vec![R1, R2, C]);
    assert_eq!(answer.routing_header.hop_index, 1);
    match answer.pack_type {
        PacketType::FloodResponse(response) => assert_eq!(
            response.path_trace,
            vec![(C, NodeType::Client), (R2, NodeType::Drone), (R1, NodeType::Drone)]
        ),
        other => panic!("not a flood response: {:?}", other),
    }
}

#[test]
fn a_drone_with_no_other_neighbour_answers_the_flood() {
    let (events_in, events) = unbounded();
    let (to_c, at_c) = unbounded();
    let mut lone = Drone::new(R1, events_in, 0);
    assert_eq!(lone.handle_command(DroneCommand::AddSender(C, to_c)), Ok(()));
    let request = FloodRequest::initialize(1, C, NodeType::Client);
    let actions =
        lone.handle_packet(Packet::new_flood_request(SourceRoutingHeader::empty_route(), 2, request), 0);
    assert_eq!(actions.len(), 2);
    let answer = at_c.try_recv().unwrap();
    assert_eq!(answer.routing_header.hops, vec![R1, C]);
    assert_eq!(answer.routing_header.current_hop(), Some(C));
    assert!(matches!(events.try_recv().unwrap(), DroneEvent::FloodTraceObserved(_)));
    assert!(matches!(events.try_recv().unwrap(), DroneEvent::PacketSent(_)));
}

#[test]
fn commands_compare_by_kind_node_rate_and_channel() {
    let (a, _keep_a) = unbounded::<Packet>();
    let (b, _keep_b) = unbounded::<Packet>();
    assert!(DroneCommand::Crash == DroneCommand::Crash);
    assert!(DroneCommand::RemoveSender(1) == DroneCommand::RemoveSender(1));
    assert!(DroneCommand::RemoveSender(1) != DroneCommand::RemoveSender(2));
    assert!(DroneCommand::SetPacketDropRate(5) == DroneCommand::SetPacketDropRate(5));
    assert!(DroneCommand::SetPacketDropRate(5) != DroneCommand::SetPacketDropRate(6));
    assert!(DroneCommand::Crash != DroneCommand::RemoveSender(0));
    assert!(DroneCommand::AddSender(1, a.clone()) == DroneCommand::AddSender(1, a.clone()));
    assert!(DroneCommand::AddSender(1, a.clone()) != DroneCommand::AddSender(2, a.clone()));
    assert!(DroneCommand::AddSender(1, a) != DroneCommand::AddSender(1, b));
}

fn events_of(net: &Net) -> Vec<DroneEvent> {
    net.events.try_iter().collect()
}

#[test]
fn a_packet_that_ends_on_the_drone_is_reported_as_received() {
    let mut net = line(0);
    let ack = Packet::new_ack(SourceRoutingHeader::new(vec![S, R3, R2], 2), 1, 0);
    let actions = net.r2.handle_packet(ack.clone(), 0);
    assert_eq!(actions, vec![Action::Report(DroneEvent::PacketReceived(ack.clone()))]);
    assert!(net.at_r1.try_recv().is_err() && net.at_r3.try_recv().is_err());
    assert_eq!(events_of(&net), vec![DroneEvent::PacketReceived(ack)]);
}

#[test]
fn a_fragment_with_no_way_back_is_reported_as_received() {
    let mut net = line(0);
    let lost = Packet::new_fragment(
        SourceRoutingHeader::new(vec![R2], 0),
        1,
        Fragment::from_string(0, 1, "x".to_string()),
    );
    let actions = net.r2.handle_packet(lost.clone(), 0);
    assert_eq!(actions, vec![Action::Report(DroneEvent::PacketReceived(lost))]);
    let stranger = Packet::new_fragment(
        SourceRoutingHeader::new(vec![99, R2, R3], 1),
        1,
        Fragment::from_string(0, 1, "x".to_string()),
    );
    assert_eq!(net.r2.handle_command(DroneCommand::SetPacketDropRate(DROP_RATE_SCALE)), Ok(()));
    let actions = net.r2.handle_packet(stranger.clone(), 0);
    assert_eq!(actions, vec![Action::Report(DroneEvent::PacketDropped(stranger))]);
}

#[test]
fn plan_sends_nothing() {
    let net = line(0);
    let mut packet = fragment_packet();
    let planned = net.r1.plan(&packet, 0);
    assert!(net.at_r2.try_recv().is_err());
    assert!(net.events.try_recv().is_err());
    packet.routing_header.increase_hop_index();
    match &planned[..] {
        [Action::Send { to, packet: onward, otherwise: Some((back_to, nack)) }] => {
            assert_eq!(*to, R2);
            assert_eq!(*onward, packet);
            assert_eq!(*back_to, C);
            assert_eq!(nack_of(nack).nack_type, NackType::ErrorInRouting(R2));
        }
        other => panic!("unexpected plan: {:?}", other),
    }
}

#[test]
fn a_crashing_drone_takes_no_fragment_but_hands_on_the_rest() {
    let mut net = line(0);
    assert!(!net.r2.is_crashing());
    assert_eq!(net.r2.handle_command(DroneCommand::Crash), Ok(()));
    assert!(net.r2.is_crashing());
    net.r1.handle_packet(fragment_packet(), 0);
    net.r2.handle_packet(net.at_r2.try_recv().unwrap(), 0);
    assert!(net.at_r3.try_recv().is_err());
    let back = net.at_r1.try_recv().unwrap();
    assert_eq!(nack_of(&back), Nack { fragment_index: 3, nack_type: NackType::ErrorInRouting(R2) });

    let ack = Packet::new_ack(SourceRoutingHeader::new(vec![S, R3, R2, R1, C], 2), 7, 3);
    net.r2.handle_packet(ack, 0);
    assert_eq!(net.at_r1.try_recv().unwrap().routing_header.hop_index, 3);
    let nack = Packet::new_nack(
        SourceRoutingHeader::new(vec![S, R3, R2, R1, C], 2),
        7,
        Nack { fragment_index: 3, nack_type: NackType::Dropped },
    );
    net.r2.handle_packet(nack, 0);
    assert!(net.at_r1.try_recv().is_ok());
    let response = FloodRequest::initialize(1, C, NodeType::Client)
        .get_incremented(R1, NodeType::Drone)
        .get_incremented(R2, NodeType::Drone)
        .get_incremented(R3, NodeType::Drone)
        .generate_response(2);
    let mut response = response;
    response.routing_header.increase_hop_index();
    net.r2.handle_packet(response, 0);
    assert!(net.at_r1.try_recv().is_ok());

    let request = Packet::new_flood_request(
        SourceRoutingHeader::empty_route(),
        5,
        FloodRequest::initialize(9, C, NodeType::Client).get_incremented(R1, NodeType::Drone),
    );
    let actions = net.r2.handle_packet(request.clone(), 0);
    assert_eq!(actions, vec![Action::Report(DroneEvent::PacketReceived(request))]);
    assert!(!net.r2.has_seen_flood(9, C));
    assert!(net.at_r3.try_recv().is_err());
}

#[test]
fn a_drone_ends_when_told_to_and_nothing_is_left() {
    let mut net = line(0);
    assert!(net.r2.handle_input(Input::Nothing));
    assert!(net.r2.handle_input(Input::Packet(
        Packet::new_ack(SourceRoutingHeader::new(vec![S, R3, R2, R1, C], 2), 7, 3),
        0
    )));
    assert!(net.at_r1.try_recv().is_ok());
    assert!(net.r2.handle_input(Input::Command(DroneCommand::SetPacketDropRate(2_000_000))));
    assert_eq!(net.r2.pdr(), 0);
    assert!(net.r2.handle_input(Input::Command(DroneCommand::SetPacketDropRate(20))));
    assert_eq!(net.r2.pdr(), 20);
    assert!(net.r2.handle_input(Input::Command(DroneCommand::Crash)));
    assert!(net.r2.handle_input(Input::Packet(
        Packet::new_ack(SourceRoutingHeader::new(vec![S, R3, R2, R1, C], 2), 7, 4),
        0
    )));
    assert!(net.at_r1.try_recv().is_ok());
    let _ = events_of(&net);
    assert!(!net.r2.handle_input(Input::Nothing));
    assert_eq!(events_of(&net), vec![DroneEvent::DroneCrash]);
}

#[test]
fn flood_goes_to_every_neighbour_but_the_sender() {
    let (events_in, _events) = unbounded();
    let mut hub = Drone::new(50, events_in, 0);
    let mut inboxes = Vec::new();
    for node in [9u8, 3, 200, 4] {
        let (to, at) = unbounded();
        hub.handle_command(DroneCommand::AddSender(node, to)).unwrap();
        inboxes.push((node, at));
    }
    let request = FloodRequest::initialize(1, 3, NodeType::Client);
    let actions =
        hub.handle_packet(Packet::new_flood_request(SourceRoutingHeader::empty_route(), 6, request), 0);
    let targets: Vec<NodeId> = actions
        .iter()
        .filter_map(|action| match action {
            Action::Send { to, .. } => Some(*to),
            Action::Report(_) => None,
        })
        .collect();
    assert_eq!(targets, vec![4, 9, 200]);
    for (node, at) in inboxes {
        match at.try_recv() {
            Ok(packet) => {
                assert_ne!(node, 3);
                assert_eq!(packet.session_id, 6);
                match packet.pack_type {
                    PacketType::FloodRequest(request) => assert_eq!(
                        request.path_trace,
                        vec![(3, NodeType::Client), (50, NodeType::Drone)]
                    ),
                    other => panic!("not a flood request: {:?}", other),
                }
            }
            Err(_) => assert_eq!(node, 3),
        }
    }
}

#[test]
fn adding_a_sender_again_replaces_the_channel() {
    let (events_in, _events) = unbounded();
    let (old, at_old) = unbounded();
    let (new, at_new) = unbounded();
    let mut drone = Drone::new(R1, events_in, 0);
    drone.handle_command(DroneCommand::AddSender(R2, old)).unwrap();
    drone.handle_command(DroneCommand::AddSender(R2, new)).unwrap();
    drone.handle_packet(fragment_packet(), 0);
    assert!(at_old.try_recv().is_err());
    assert!(at_new.try_recv().is_ok());
}

#[test]
fn commands_compare_as_the_channels_say() {
    let (a, _keep_a) = unbounded::<Packet>();
    let (b, _keep_b) = unbounded::<Packet>();
    let first = DroneCommand::AddSender(1, a);
    let second = DroneCommand::AddSender(1, b.clone());
    let third = DroneCommand::AddSender(2, b);
    assert!(first.eq_given(&second, true));
    assert!(!first.eq_given(&second, false));
    assert!(!first.eq_given(&third, true));
    assert!(DroneCommand::Crash.eq_given(&DroneCommand::Crash, false));
    assert!(DroneCommand::RemoveSender(4).eq_given(&DroneCommand::RemoveSender(4), false));
    assert!(!DroneCommand::RemoveSender(4).eq_given(&DroneCommand::SetPacketDropRate(4), true));
    assert!(!DroneCommand::SetPacketDropRate(3).eq_given(&DroneCommand::SetPacketDropRate(4), true));
}

#[test]
fn what_is_left_after_an_attempt() {
    let packet = fragment_packet();
    let nack = Packet::new_nack(
        SourceRoutingHeader::new(vec![S, R3, R2, R1, C], 4),
        7,
        Nack { fragment_index: 3, nack_type: NackType::ErrorInRouting(R2) },
    );
    let send = Action::Send { to: R2, packet: packet.clone(), otherwise: Some((C, nack.clone())) };
    assert_eq!(send.after_attempt(true), vec![Action::Report(DroneEvent::PacketSent(packet))]);
    let spare = Action::Send { to: C, packet: nack.clone(), otherwise: None };
    assert_eq!(send.after_attempt(false), vec![spare.clone()]);
    assert_eq!(spare.after_attempt(false), vec![]);
    assert_eq!(spare.after_attempt(true), vec![Action::Report(DroneEvent::PacketSent(nack))]);
    assert_eq!(Action::Report(DroneEvent::DroneCrash).after_attempt(true), vec![]);
    assert_eq!(Action::Report(DroneEvent::DroneCrash).after_attempt(false), vec![]);
    assert_eq!(send.clone(), send);
}

#[test]
fn a_drone_whose_channel_is_closed_begins_to_end() {
    let mut net = line(0);
    assert!(net.r2.handle_input(Input::Closed));
    assert!(net.r2.is_crashing());
    assert!(net.r2.has_neighbor(R1) && net.r2.has_neighbor(R3));
    assert!(net.r2.handle_input(Input::Closed));
    let _ = events_of(&net);
    assert!(!net.r2.handle_input(Input::Nothing));
    assert_eq!(events_of(&net), vec![DroneEvent::DroneCrash]);
}
