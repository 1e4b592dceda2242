//! The packet: the unit that travels from node to node, and what it can
//! carry.

use vstd::prelude::*;
use crate::network::{NodeId, Route, SourceRoutingHeader};
use crate::text::{decimal, hex, push_decimal, push_hex_byte, push_str, text_of};

pub mod flood;
pub mod fragmentation;
pub mod message;

pub use self::flood::{FloodRequest, FloodRequestView, FloodResponse, FloodResponseView, NodeType};
pub use self::message::{
    ChatRequest, ChatResponse, MediaRequest, MediaResponse, Message, MessageData, Request, Response,
    Serializable, TextRequest, TextResponse,
};

verus! {

/// Number of data bytes that one fragment holds.
pub const FRAGMENT_DSIZE: usize = 128;

/// The position of the first zero byte of `data`, or the length of `data`
/// where it holds none.
pub open spec fn text_length(data: Seq<u8>) -> int {
    match data.index_of_first(0u8) {
        Some(place) => place,
        None => data.len() as int,
    }
}

/// The first `FRAGMENT_DSIZE` bytes of `bytes`, followed by zeros up to
/// that size.
pub open spec fn padded(bytes: Seq<u8>) -> Seq<u8> {
    Seq::new(
        FRAGMENT_DSIZE as nat,
        |i: int|
            if i < bytes.len() {
                bytes[i]
            } else {
                0u8
            },
    )
}

/// One piece of a message.
#[derive(Debug, Clone, Copy, PartialEq, Eq)]
pub struct Fragment {
    /// Position of the piece in its message, from 0.
    pub fragment_index: u64,
    /// Number of pieces of the message.
    pub total_n_fragments: u64,
    /// Number of bytes of `data` that belong to the message.
    pub length: u8,
    /// The bytes of the piece, followed by padding.
    pub data: [u8; FRAGMENT_DSIZE],
}

impl Fragment {
    /// A fragment is well formed when it names a piece of its message and
    /// its length does not exceed its data.
    pub open spec fn wf(&self) -> bool {
        &&& self.fragment_index < self.total_n_fragments
        &&& self.length <= FRAGMENT_DSIZE
    }

    /// The bytes of the message that the fragment carries.
    pub open spec fn payload(&self) -> Seq<u8> {
        self.data@.take(
            if self.length <= FRAGMENT_DSIZE {
                self.length as int
            } else {
                FRAGMENT_DSIZE as int
            },
        )
    }

    /// The bytes that the description of the fragment shows: those of
    /// the message, and of them the first 20 where there are 20 or more.
    pub open spec fn shown(&self) -> Seq<u8> {
        if self.length < 20 {
            self.payload()
        } else {
            self.data@.take(20)
        }
    }

    /// The description of the fragment: its place in the message, counted
    /// from 1, and its bytes in hexadecimal; of 20 bytes or more the first
    /// 20 and the number of the others.
    pub open spec fn text(&self) -> Seq<char> {
        let head = "Fragment { index: "@ + decimal((self.fragment_index + 1) as nat) + " out of "@
            + decimal(self.total_n_fragments as nat) + ", data: 0x"@ + hex(self.shown());
        if self.length < 20 {
            head + " }"@
        } else {
            head + "... + other "@ + decimal((self.length - 20) as nat) + " bytes }"@
        }
    }

    /// Adds the description of the fragment to the end of `out`.
    pub fn write(&self, out: &mut Vec<char>)
        ensures
            final(out)@ == old(out)@ + self.text(),
    {
        push_str(out, "Fragment { index: ");
        push_decimal(out, self.fragment_index as u128 + 1);
        push_str(out, " out of ");
        push_decimal(out, self.total_n_fragments as u128);
        push_str(out, ", data: 0x");
        let count: usize = if self.length < 20 {
            self.length as usize
        } else {
            20
        };
        assert(self.shown() =~= self.data@.take(count as int));
        let ghost start = out@;
        let mut i: usize = 0;
        while i < count
            invariant
                i <= count <= 20,
                self.data@.len() == FRAGMENT_DSIZE,
                out@ == start + hex(self.data@.take(i as int)),
            decreases count - i,
        {
            push_hex_byte(out, self.data[i]);
            assert(self.data@.take(i + 1).drop_last() =~= self.data@.take(i as int));
            assert(out@ =~= start + hex(self.data@.take(i + 1)));
            i += 1;
        }
        if self.length < 20 {
            push_str(out, " }");
        } else {
            push_str(out, "... + other ");
            push_decimal(out, (self.length - 20) as u128);
            push_str(out, " bytes }");
        }
        assert(out@ =~= old(out)@ + self.text());
    }

    /// The description of the fragment.
    pub fn to_string(&self) -> (r: String)
        ensures
            r@ == self.text(),
    {
        let mut out: Vec<char> = Vec::new();
        self.write(&mut out);
        assert(out@ =~= self.text());
        text_of(&out)
    }

    /// A fragment over a buffer that holds text ended by a zero byte: the
    /// length is the place of the first zero byte, or the whole buffer.
    pub fn new(
        fragment_index: u64,
        total_n_fragments: u64,
        data: [u8; FRAGMENT_DSIZE],
    ) -> (r: Self)
        requires
            fragment_index < total_n_fragments,
        ensures
            r.wf(),
            r.fragment_index == fragment_index,
            r.total_n_fragments == total_n_fragments,
            r.data == data,
            r.length == text_length(data@),
    {
        let mut length: usize = 0;
        while length < FRAGMENT_DSIZE && data[length] != 0
            invariant
                length <= FRAGMENT_DSIZE,
                data@.len() == FRAGMENT_DSIZE,
                forall|k: int| 0 <= k < length ==> data@[k] != 0u8,
            decreases FRAGMENT_DSIZE - length,
        {
            length += 1;
        }
        proof {
            data@.index_of_first_ensures(0u8);
        }
        Self { fragment_index, total_n_fragments, length: length as u8, data }
    }

    /// A fragment that carries the first `FRAGMENT_DSIZE` bytes of
    /// `bytes`; a shorter input is followed by zeros.
    pub fn from_bytes(fragment_index: u64, total_n_fragments: u64, bytes: &[u8]) -> (r: Self)
        requires
            fragment_index < total_n_fragments,
        ensures
            r.wf(),
            r.fragment_index == fragment_index,
            r.total_n_fragments == total_n_fragments,
            r.data@ == padded(bytes@),
            r.length == if bytes@.len() < FRAGMENT_DSIZE {
                bytes@.len()
            } else {
                FRAGMENT_DSIZE as nat
            },
            r.payload() == bytes@.take(r.length as int),
    {
        let mut data = [0u8;FRAGMENT_DSIZE];
        let length = if bytes.len() < FRAGMENT_DSIZE {
            bytes.len()
        } else {
            FRAGMENT_DSIZE
        };
        let mut i: usize = 0;
        while i < length
            invariant
                i <= length <= FRAGMENT_DSIZE,
                length <= bytes@.len(),
                data@.len() == FRAGMENT_DSIZE,
                forall|k: int| 0 <= k < i ==> data@[k] == bytes@[k],
                forall|k: int| i <= k < FRAGMENT_DSIZE ==> data@[k] == 0u8,
            decreases length - i,
        {
            data[i] = bytes[i];
            i += 1;
        }
        assert(data@ =~= padded(bytes@));
        assert(data@.take(length as int) =~= bytes@.take(length as int));
        Self { fragment_index, total_n_fragments, length: length as u8, data }
    }

    /// A fragment that carries the first `FRAGMENT_DSIZE` bytes of the
    /// text.
    pub fn from_string(fragment_index: u64, total_n_fragments: u64, raw_data: String) -> (r: Self)
        requires
            fragment_index < total_n_fragments,
        ensures
            r.wf(),
            r.fragment_index == fragment_index,
            r.total_n_fragments == total_n_fragments,
            r.data@ == padded(vstd::utf8::encode_utf8(raw_data@)),
            r.length == if vstd::utf8::encode_utf8(raw_data@).len() < FRAGMENT_DSIZE {
                vstd::utf8::encode_utf8(raw_data@).len()
            } else {
                FRAGMENT_DSIZE as nat
            },
            r.payload() == vstd::utf8::encode_utf8(raw_data@).take(r.length as int),
    {
        Self::from_bytes(fragment_index, total_n_fragments, raw_data.as_str().as_bytes())
    }

    /// The bytes of the message that the fragment carries.
    pub fn bytes(&self) -> (r: Vec<u8>)
        ensures
            r@ == self.payload(),
    {
        let length = if self.length as usize <= FRAGMENT_DSIZE {
            self.length as usize
        } else {
            FRAGMENT_DSIZE
        };
        let mut out: Vec<u8> = Vec::with_capacity(length);
        let mut i: usize = 0;
        while i < length
            invariant
                i <= length <= FRAGMENT_DSIZE,
                self.data@.len() == FRAGMENT_DSIZE,
                out@ == self.data@.take(i as int),
            decreases length - i,
        {
            out.push(self.data[i]);
            assert(self.data@.take(i + 1) =~= self.data@.take(i as int).push(self.data@[i as int]));
            i += 1;
        }
        out
    }
}

/// Confirms that a fragment has arrived.
#[derive(Debug, Clone, Copy, PartialEq, Eq)]
pub struct Ack {
    /// The fragment that has arrived.
    pub fragment_index: u64,
}

impl Ack {
    /// The description of the acknowledgement.
    pub open spec fn text(&self) -> Seq<char> {
        "Ack("@ + decimal(self.fragment_index as nat) + ")"@
    }

    /// Adds the description of the acknowledgement to the end of `out`.
    pub fn write(&self, out: &mut Vec<char>)
        ensures
            final(out)@ == old(out)@ + self.text(),
    {
        push_str(out, "Ack(");
        push_decimal(out, self.fragment_index as u128);
        push_str(out, ")");
        assert(out@ =~= old(out)@ + self.text());
    }

    /// The description of the acknowledgement.
    pub fn to_string(&self) -> (r: String)
        ensures
            r@ == self.text(),
    {
        let mut out: Vec<char> = Vec::new();
        self.write(&mut out);
        assert(out@ =~= self.text());
        text_of(&out)
    }
}

/// Why a packet did not go on.
#[derive(Debug, Clone, Copy, PartialEq, Eq)]
pub enum NackType {
    /// The next node of the route, named here, cannot be reached.
    ErrorInRouting(NodeId),
    /// The route of a fragment ends on a drone.
    DestinationIsDrone,
    /// The drone lost the fragment on purpose.
    Dropped,
    /// The packet came to a drone, named here, that its route does not
    /// name at the cursor.
    UnexpectedRecipient(NodeId),
}

impl NackType {
    /// The name of the reason, with the node it names in brackets.
    pub open spec fn text(&self) -> Seq<char> {
        match self {
            NackType::ErrorInRouting(node) => "ErrorInRouting("@ + decimal(*node as nat) + ")"@,
            NackType::DestinationIsDrone => "DestinationIsDrone"@,
            NackType::Dropped => "Dropped"@,
            NackType::UnexpectedRecipient(node) => "UnexpectedRecipient("@ + decimal(*node as nat)
                + ")"@,
        }
    }

    /// Adds the name of the reason to the end of `out`.
    pub fn write(&self, out: &mut Vec<char>)
        ensures
            final(out)@ == old(out)@ + self.text(),
    {
        match self {
            NackType::ErrorInRouting(node) => {
                push_str(out, "ErrorInRouting(");
                push_decimal(out, *node as u128);
                push_str(out, ")");
            },
            NackType::DestinationIsDrone => {
                push_str(out, "DestinationIsDrone");
            },
            NackType::Dropped => {
                push_str(out, "Dropped");
            },
            NackType::UnexpectedRecipient(node) => {
                push_str(out, "UnexpectedRecipient(");
                push_decimal(out, *node as u128);
                push_str(out, ")");
            },
        }
        assert(out@ =~= old(out)@ + self.text());
    }
}

/// Reports that a packet did not go on.
#[derive(Debug, Clone, Copy, PartialEq, Eq)]
pub struct Nack {
    /// The fragment that the report is about; 0 for a packet that is no
    /// fragment.
    pub fragment_index: u64,
    pub nack_type: NackType,
}

impl Nack {
    /// The description of the report: its fields by name.
    pub open spec fn text(&self) -> Seq<char> {
        "Nack { fragment_index: "@ + decimal(self.fragment_index as nat) + ", nack_type: "@
            + self.nack_type.text() + " }"@
    }

    /// Adds the description of the report to the end of `out`.
    pub fn write(&self, out: &mut Vec<char>)
        ensures
            final(out)@ == old(out)@ + self.text(),
    {
        push_str(out, "Nack { fragment_index: ");
        push_decimal(out, self.fragment_index as u128);
        push_str(out, ", nack_type: ");
        self.nack_type.write(out);
        push_str(out, " }");
        assert(out@ =~= old(out)@ + self.text());
    }

    /// The description of the report.
    pub fn to_string(&self) -> (r: String)
        ensures
            r@ == self.text(),
    {
        let mut out: Vec<char> = Vec::new();
        self.write(&mut out);
        assert(out@ =~= self.text());
        text_of(&out)
    }
}

/// What a packet carries.
#[derive(Debug, PartialEq, Eq)]
pub enum PacketType {
    MsgFragment(Fragment),
    Ack(Ack),
    Nack(Nack),
    FloodRequest(FloodRequest),
    FloodResponse(FloodResponse),
}

/// The mathematical content of what a packet carries.
pub enum PacketTypeView {
    MsgFragment(Fragment),
    Ack(Ack),
    Nack(Nack),
    FloodRequest(FloodRequestView),
    FloodResponse(FloodResponseView),
}

impl View for PacketType {
    type V = PacketTypeView;

    open spec fn view(&self) -> PacketTypeView {
        match self {
            PacketType::MsgFragment(fragment) => PacketTypeView::MsgFragment(*fragment),
            PacketType::Ack(ack) => PacketTypeView::Ack(*ack),
            PacketType::Nack(nack) => PacketTypeView::Nack(*nack),
            PacketType::FloodRequest(request) => PacketTypeView::FloodRequest(request@),
            PacketType::FloodResponse(response) => PacketTypeView::FloodResponse(response@),
        }
    }
}

impl Clone for PacketType {
    fn clone(&self) -> (r: Self)
        ensures
            r@ == self@,
    {
        match self {
            PacketType::MsgFragment(fragment) => PacketType::MsgFragment(*fragment),
            PacketType::Ack(ack) => PacketType::Ack(*ack),
            PacketType::Nack(nack) => PacketType::Nack(*nack),
            PacketType::FloodRequest(request) => PacketType::FloodRequest(request.clone()),
            PacketType::FloodResponse(response) => PacketType::FloodResponse(response.clone()),
        }
    }
}

impl PacketTypeView {
    /// The description of what a packet carries: that of the thing
    /// carried.
    pub open spec fn text(self) -> Seq<char> {
        match self {
            PacketTypeView::MsgFragment(fragment) => fragment.text(),
            PacketTypeView::Ack(ack) => ack.text(),
            PacketTypeView::Nack(nack) => nack.text(),
            PacketTypeView::FloodRequest(request) => request.text(),
            PacketTypeView::FloodResponse(response) => response.text(),
        }
    }
}

impl PacketType {
    /// Adds the description of what is carried to the end of `out`.
    pub fn write(&self, out: &mut Vec<char>)
        ensures
            final(out)@ == old(out)@ + self@.text(),
    {
        match self {
            PacketType::MsgFragment(fragment) => fragment.write(out),
            PacketType::Ack(ack) => ack.write(out),
            PacketType::Nack(nack) => nack.write(out),
            PacketType::FloodRequest(request) => request.write(out),
            PacketType::FloodResponse(response) => response.write(out),
        }
    }

    /// The description of what is carried.
    pub fn to_string(&self) -> (r: String)
        ensures
            r@ == self@.text(),
    {
        let mut out: Vec<char> = Vec::new();
        self.write(&mut out);
        assert(out@ =~= self@.text());
        text_of(&out)
    }
}

/// The mathematical content of a packet.
pub struct PacketView {
    pub routing_header: Route,
    pub session_id: u64,
    pub pack_type: PacketTypeView,
}

impl PacketView {
    /// The fragment index that a report about the packet names: that of
    /// the fragment it carries, and 0 for any other packet.
    pub open spec fn fragment_index(self) -> u64 {
        match self.pack_type {
            PacketTypeView::MsgFragment(fragment) => fragment.fragment_index,
            _ => 0,
        }
    }

    /// The description of the packet: its session, its route and what it
    /// carries.
    pub open spec fn text(self) -> Seq<char> {
        "Packet("@ + decimal(self.session_id as nat) + ") { routing_header: "@
            + self.routing_header.text() + ", pack_type "@ + self.pack_type.text() + " }"@
    }
}

/// The unit that travels from node to node.
#[derive(Debug, PartialEq, Eq)]
pub struct Packet {
    /// The route of the packet and the place it has reached.
    pub routing_header: SourceRoutingHeader,
    /// Ties together the fragments of one message and the reports about
    /// them; no node changes it.
    pub session_id: u64,
    pub pack_type: PacketType,
}

impl View for Packet {
    type V = PacketView;

    open spec fn view(&self) -> PacketView {
        PacketView {
            routing_header: self.routing_header@,
            session_id: self.session_id,
            pack_type: self.pack_type@,
        }
    }
}

impl Clone for Packet {
    fn clone(&self) -> (r: Self)
        ensures
            r@ == self@,
    {
        Packet {
            routing_header: self.routing_header.clone(),
            session_id: self.session_id,
            pack_type: self.pack_type.clone(),
        }
    }
}

impl Packet {
    /// A packet that carries a fragment.
    pub fn new_fragment(
        routing_header: SourceRoutingHeader,
        session_id: u64,
        fragment: Fragment,
    ) -> (r: Self)
        requires
            fragment.wf(),
        ensures
            r@ == (PacketView {
                routing_header: routing_header@,
                session_id,
                pack_type: PacketTypeView::MsgFragment(fragment),
            }),
    {
        Self { pack_type: PacketType::MsgFragment(fragment), routing_header, session_id }
    }

    /// A packet that confirms the fragment `fragment_index`.
    pub fn new_ack(
        routing_header: SourceRoutingHeader,
        session_id: u64,
        fragment_index: u64,
    ) -> (r: Self)
        ensures
            r@ == (PacketView {
                routing_header: routing_header@,
                session_id,
                pack_type: PacketTypeView::Ack(Ack { fragment_index }),
            }),
    {
        Self { pack_type: PacketType::Ack(Ack { fragment_index }), routing_header, session_id }
    }

    /// A packet that carries a negative report.
    pub fn new_nack(routing_header: SourceRoutingHeader, session_id: u64, nack: Nack) -> (r: Self)
        ensures
            r@ == (PacketView {
                routing_header: routing_header@,
                session_id,
                pack_type: PacketTypeView::Nack(nack),
            }),
    {
        Self { pack_type: PacketType::Nack(nack), routing_header, session_id }
    }

    /// A packet that carries a flood request.
    pub fn new_flood_request(
        routing_header: SourceRoutingHeader,
        session_id: u64,
        flood_request: FloodRequest,
    ) -> (r: Self)
        ensures
            r@ == (PacketView {
                routing_header: routing_header@,
                session_id,
                pack_type: PacketTypeView::FloodRequest(flood_request@),
            }),
    {
        Self { pack_type: PacketType::FloodRequest(flood_request), routing_header, session_id }
    }

    /// A packet that carries a flood response.
    pub fn new_flood_response(
        routing_header: SourceRoutingHeader,
        session_id: u64,
        flood_response: FloodResponse,
    ) -> (r: Self)
        ensures
            r@ == (PacketView {
                routing_header: routing_header@,
                session_id,
                pack_type: PacketTypeView::FloodResponse(flood_response@),
            }),
    {
        Self { pack_type: PacketType::FloodResponse(flood_response), routing_header, session_id }
    }

    /// The description of the packet.
    pub fn to_string(&self) -> (r: String)
        ensures
            r@ == self@.text(),
    {
        let mut out: Vec<char> = Vec::new();
        push_str(&mut out, "Packet(");
        push_decimal(&mut out, self.session_id as u128);
        push_str(&mut out, ") { routing_header: ");
        let route = self.routing_header.to_string();
        push_str(&mut out, route.as_str());
        push_str(&mut out, ", pack_type ");
        self.pack_type.write(&mut out);
        push_str(&mut out, " }");
        assert(out@ =~= self@.text());
        text_of(&out)
    }

    /// The index of the fragment that the packet carries; 0 for a packet
    /// that carries none.
    pub fn get_fragment_index(&self) -> (r: u64)
        ensures
            r == self@.fragment_index(),
    {
        match &self.pack_type {
            PacketType::MsgFragment(fragment) => fragment.fragment_index,
            _ => 0,
        }
    }
}

} // verus!
