//! Flood discovery: the request that collects a trace of the nodes it
//! passes, and the response that carries the trace back.

use vstd::prelude::*;
use crate::network::{NodeId, Route, SourceRoutingHeader};
use crate::packet::{Packet, PacketTypeView, PacketView};
use crate::text::{decimal, push_decimal, push_str, text_of};

verus! {

/// The role of a node, as it is written into a flood trace.
#[derive(Debug, Clone, Copy, PartialEq, Eq)]
pub enum NodeType {
    Client,
    Drone,
    Server,
}

impl NodeType {
    /// The name of the role.
    pub open spec fn text(&self) -> Seq<char> {
        match self {
            NodeType::Client => "Client"@,
            NodeType::Drone => "Drone"@,
            NodeType::Server => "Server"@,
        }
    }

    /// Adds the name of the role to the end of `out`.
    pub fn write(&self, out: &mut Vec<char>)
        ensures
            final(out)@ == old(out)@ + self.text(),
    {
        match self {
            NodeType::Client => push_str(out, "Client"),
            NodeType::Drone => push_str(out, "Drone"),
            NodeType::Server => push_str(out, "Server"),
        }
    }
}

/// One entry of a trace as it is written: the node and its role, in
/// brackets.
pub open spec fn entry_text(entry: (NodeId, NodeType)) -> Seq<char> {
    "("@ + decimal(entry.0 as nat) + ", "@ + entry.1.text() + ")"@
}

/// The first `count` entries of a trace as they are written, with a comma
/// between every two.
pub open spec fn entries_text(path_trace: Seq<(NodeId, NodeType)>, count: int) -> Seq<char>
    decreases count,
{
    if count <= 0 {
        Seq::empty()
    } else if count == 1 {
        entry_text(path_trace[0])
    } else {
        entries_text(path_trace, count - 1) + ", "@ + entry_text(path_trace[count - 1])
    }
}

/// A trace as it is written: its entries in square brackets.
pub open spec fn trace_text(path_trace: Seq<(NodeId, NodeType)>) -> Seq<char> {
    "["@ + entries_text(path_trace, path_trace.len() as int) + "]"@
}

/// Adds a trace, as it is written, to the end of `out`.
pub fn write_trace(path_trace: &Vec<(NodeId, NodeType)>, out: &mut Vec<char>)
    ensures
        final(out)@ == old(out)@ + trace_text(path_trace@),
{
    push_str(out, "[");
    let ghost start = out@;
    let mut i: usize = 0;
    while i < path_trace.len()
        invariant
            i <= path_trace@.len(),
            out@ == start + entries_text(path_trace@, i as int),
        decreases path_trace@.len() - i,
    {
        let ghost before = out@;
        if i > 0 {
            push_str(out, ", ");
        }
        push_str(out, "(");
        push_decimal(out, path_trace[i].0 as u128);
        push_str(out, ", ");
        path_trace[i].1.write(out);
        push_str(out, ")");
        proof {
            if i > 0 {
                assert(out@ =~= before + ", "@ + entry_text(path_trace@[i as int]));
            } else {
                assert(out@ =~= before + entry_text(path_trace@[0]));
            }
            assert(out@ =~= start + entries_text(path_trace@, i + 1));
        }
        i += 1;
    }
    push_str(out, "]");
    assert(out@ =~= old(out)@ + trace_text(path_trace@));
}

/// The mathematical content of a flood request.
pub struct FloodRequestView {
    pub flood_id: u64,
    pub initiator_id: NodeId,
    pub path_trace: Seq<(NodeId, NodeType)>,
}

/// The mathematical content of a flood response.
pub struct FloodResponseView {
    pub flood_id: u64,
    pub path_trace: Seq<(NodeId, NodeType)>,
}

/// The node identifiers of a trace, in the order of the trace.
pub open spec fn trace_ids(path_trace: Seq<(NodeId, NodeType)>) -> Seq<NodeId> {
    Seq::new(path_trace.len(), |i: int| path_trace[i].0)
}

impl FloodRequestView {
    /// The request after one more node has put itself on the trace.
    pub open spec fn incremented(self, node_id: NodeId, node_type: NodeType) -> FloodRequestView {
        FloodRequestView { path_trace: self.path_trace.push((node_id, node_type)), ..self }
    }

    /// The route of the response: the trace walked backwards, and the
    /// initiator after it where the trace does not end on the initiator.
    /// The cursor is on the first node.
    pub open spec fn response_route(self) -> Route {
        let back = trace_ids(self.path_trace).reverse();
        Route {
            hops: if back.len() > 0 && back.last() != self.initiator_id {
                back.push(self.initiator_id)
            } else {
                back
            },
            hop_index: 0,
        }
    }

    /// The response that answers the request.
    pub open spec fn response(self) -> FloodResponseView {
        FloodResponseView { flood_id: self.flood_id, path_trace: self.path_trace }
    }

    /// The description of the request: its fields by name.
    pub open spec fn text(self) -> Seq<char> {
        "FloodRequest { flood_id: "@ + decimal(self.flood_id as nat) + ", initiator_id: "@
            + decimal(self.initiator_id as nat) + ", path_trace: "@ + trace_text(self.path_trace)
            + " }"@
    }
}

impl FloodResponseView {
    /// The description of the response: its fields by name.
    pub open spec fn text(self) -> Seq<char> {
        "FloodResponse { flood_id: "@ + decimal(self.flood_id as nat) + ", path_trace: "@
            + trace_text(self.path_trace) + " }"@
    }
}

/// A request that floods the network and records the nodes it passes.
#[derive(Debug, PartialEq, Eq)]
pub struct FloodRequest {
    /// Identifies the flood among those of its initiator.
    pub flood_id: u64,
    /// The node that started the flood.
    pub initiator_id: NodeId,
    /// The nodes passed so far, the initiator first.
    pub path_trace: Vec<(NodeId, NodeType)>,
}

impl View for FloodRequest {
    type V = FloodRequestView;

    open spec fn view(&self) -> FloodRequestView {
        FloodRequestView {
            flood_id: self.flood_id,
            initiator_id: self.initiator_id,
            path_trace: self.path_trace@,
        }
    }
}

/// A copy of a trace.
pub fn copy_trace(path_trace: &Vec<(NodeId, NodeType)>) -> (r: Vec<(NodeId, NodeType)>)
    ensures
        r@ == path_trace@,
{
    let mut copy: Vec<(NodeId, NodeType)> = Vec::with_capacity(path_trace.len());
    let mut i: usize = 0;
    while i < path_trace.len()
        invariant
            i <= path_trace@.len(),
            copy@ == path_trace@.take(i as int),
        decreases path_trace@.len() - i,
    {
        copy.push(path_trace[i]);
        assert(path_trace@.take(i + 1) =~= path_trace@.take(i as int).push(path_trace@[i as int]));
        i += 1;
    }
    assert(path_trace@.take(path_trace@.len() as int) =~= path_trace@);
    copy
}

impl Clone for FloodRequest {
    fn clone(&self) -> (r: Self)
        ensures
            r@ == self@,
    {
        FloodRequest {
            flood_id: self.flood_id,
            initiator_id: self.initiator_id,
            path_trace: copy_trace(&self.path_trace),
        }
    }
}

impl FloodRequest {
    /// A request with an empty trace.
    pub fn new(flood_id: u64, initiator_id: NodeId) -> (r: Self)
        ensures
            r@ == (FloodRequestView { flood_id, initiator_id, path_trace: Seq::empty() }),
    {
        Self { flood_id, initiator_id, path_trace: Vec::new() }
    }

    /// A request whose trace holds the initiator.
    pub fn initialize(flood_id: u64, initiator_id: NodeId, initiator_type: NodeType) -> (r: Self)
        ensures
            r@ == (FloodRequestView {
                flood_id,
                initiator_id,
                path_trace: seq![(initiator_id, initiator_type)],
            }),
    {
        let mut path_trace: Vec<(NodeId, NodeType)> = Vec::new();
        path_trace.push((initiator_id, initiator_type));
        assert(path_trace@ =~= seq![(initiator_id, initiator_type)]);
        Self { flood_id, initiator_id, path_trace }
    }

    /// Puts one more node on the trace.
    pub fn increment(&mut self, node_id: NodeId, node_type: NodeType)
        ensures
            final(self)@ == old(self)@.incremented(node_id, node_type),
    {
        self.path_trace.push((node_id, node_type));
    }

    /// The request with one more node on its trace.
    pub fn get_incremented(&self, node_id: NodeId, node_type: NodeType) -> (r: FloodRequest)
        ensures
            r@ == self@.incremented(node_id, node_type),
    {
        let mut copy = self.clone();
        copy.increment(node_id, node_type);
        copy
    }

    /// Adds the description of the request to the end of `out`.
    pub fn write(&self, out: &mut Vec<char>)
        ensures
            final(out)@ == old(out)@ + self@.text(),
    {
        push_str(out, "FloodRequest { flood_id: ");
        push_decimal(out, self.flood_id as u128);
        push_str(out, ", initiator_id: ");
        push_decimal(out, self.initiator_id as u128);
        push_str(out, ", path_trace: ");
        write_trace(&self.path_trace, out);
        push_str(out, " }");
        assert(out@ =~= old(out)@ + self@.text());
    }

    /// The description of the request.
    pub fn to_string(&self) -> (r: String)
        ensures
            r@ == self@.text(),
    {
        let mut out: Vec<char> = Vec::new();
        self.write(&mut out);
        assert(out@ =~= self@.text());
        text_of(&out)
    }

    /// The packet that answers the request: a flood response with the
    /// trace of the request, routed back along that trace.
    pub fn generate_response(&self, session_id: u64) -> (r: Packet)
        ensures
            r@ == (PacketView {
                routing_header: self@.response_route(),
                session_id,
                pack_type: PacketTypeView::FloodResponse(self@.response()),
            }),
    {
        let n = self.path_trace.len();
        let mut hops: Vec<NodeId> = Vec::with_capacity(n);
        let mut i: usize = n;
        while i > 0
            invariant
                n == self.path_trace@.len(),
                i <= n,
                hops@.len() == n - i,
                forall|k: int| 0 <= k < n - i ==> hops@[k] == self.path_trace@[n - 1 - k].0,
            decreases i,
        {
            i -= 1;
            hops.push(self.path_trace[i].0);
        }
        assert(hops@ =~= trace_ids(self.path_trace@).reverse());
        let mut source_routing = SourceRoutingHeader::initialize(hops);
        match source_routing.destination() {
            Some(destination) => {
                if destination != self.initiator_id {
                    source_routing.append_hop(self.initiator_id);
                }
            },
            None => {},
        }
        Packet::new_flood_response(
            source_routing,
            session_id,
            FloodResponse { flood_id: self.flood_id, path_trace: copy_trace(&self.path_trace) },
        )
    }
}

/// The answer to a flood request: the trace that the request collected.
#[derive(Debug, PartialEq, Eq)]
pub struct FloodResponse {
    /// The flood that is answered.
    pub flood_id: u64,
    /// The nodes that the request passed, the initiator first.
    pub path_trace: Vec<(NodeId, NodeType)>,
}

impl View for FloodResponse {
    type V = FloodResponseView;

    open spec fn view(&self) -> FloodResponseView {
        FloodResponseView { flood_id: self.flood_id, path_trace: self.path_trace@ }
    }
}

impl FloodResponse {
    /// Adds the description of the response to the end of `out`.
    pub fn write(&self, out: &mut Vec<char>)
        ensures
            final(out)@ == old(out)@ + self@.text(),
    {
        push_str(out, "FloodResponse { flood_id: ");
        push_decimal(out, self.flood_id as u128);
        push_str(out, ", path_trace: ");
        write_trace(&self.path_trace, out);
        push_str(out, " }");
        assert(out@ =~= old(out)@ + self@.text());
    }

    /// The description of the response.
    pub fn to_string(&self) -> (r: String)
        ensures
            r@ == self@.text(),
    {
        let mut out: Vec<char> = Vec::new();
        self.write(&mut out);
        assert(out@ =~= self@.text());
        text_of(&out)
    }
}

impl Clone for FloodResponse {
    fn clone(&self) -> (r: Self)
        ensures
            r@ == self@,
    {
        FloodResponse { flood_id: self.flood_id, path_trace: copy_trace(&self.path_trace) }
    }
}

/// The response to a request with a trace starts at the last node of the
/// trace and ends at the initiator, and its cursor is on the node it
/// starts at.
pub proof fn lemma_response_route_ends_at_initiator(request: FloodRequestView)
    requires
        request.path_trace.len() > 0,
    ensures
        request.response_route().hops.first() == request.path_trace.last().0,
        request.response_route().hops.last() == request.initiator_id,
        request.response_route().current_hop() == Some(request.path_trace.last().0),
        trace_ids(request.path_trace).reverse().is_prefix_of(request.response_route().hops),
{
}

} // verus!
