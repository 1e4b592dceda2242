//! Cutting a message into fragments, and putting the fragments of a
//! message together again.

use vstd::prelude::*;
use vstd::slice::slice_subrange;
use crate::network::SourceRoutingHeader;
use crate::packet::{
    padded, Fragment, Packet, PacketType, PacketTypeView, PacketView, FRAGMENT_DSIZE,
};

verus! {

/// The number of fragments of a message of `len` bytes: as many as hold
/// the bytes, and one for a message without bytes.
pub open spec fn fragment_count(len: nat) -> nat {
    if len == 0 {
        1
    } else {
        ((len - 1) / (FRAGMENT_DSIZE as int) + 1) as nat
    }
}

/// The bytes of the piece `i` of a message.
pub open spec fn piece(bytes: Seq<u8>, i: int) -> Seq<u8> {
    bytes.subrange(
        FRAGMENT_DSIZE * i,
        if FRAGMENT_DSIZE * (i + 1) < bytes.len() {
            FRAGMENT_DSIZE * (i + 1)
        } else {
            bytes.len() as int
        },
    )
}

/// `fragments` are the fragments of the message `bytes`, in order.
pub open spec fn is_disassembly(fragments: Seq<Fragment>, bytes: Seq<u8>) -> bool {
    &&& fragments.len() == fragment_count(bytes.len())
    &&& forall|i: int|
        0 <= i < fragments.len() ==> {
            &&& (#[trigger] fragments[i]).wf()
            &&& fragments[i].fragment_index == i
            &&& fragments[i].total_n_fragments == fragments.len()
            &&& fragments[i].payload() == piece(bytes, i)
            &&& fragments[i].data@ == padded(piece(bytes, i))
        }
}

/// The places of the fragments in their message.
pub open spec fn indices(fragments: Seq<Fragment>) -> Seq<u64> {
    Seq::new(fragments.len(), |k: int| fragments[k].fragment_index)
}

/// The fragments make up a whole message: there is one at least, each
/// says that the message has as many fragments as there are, and every
/// place of the message is taken.
pub open spec fn is_complete(fragments: Seq<Fragment>) -> bool {
    &&& 0 < fragments.len() <= u64::MAX
    &&& forall|k: int|
        0 <= k < fragments.len() ==> (#[trigger] fragments[k]).total_n_fragments
            == fragments.len()
    &&& forall|i: int| 0 <= i < fragments.len() ==> #[trigger] indices(fragments).contains(i as u64)
}

/// The bytes of the first `count` pieces of a message, each taken from the
/// first fragment that has its place.
pub open spec fn joined(fragments: Seq<Fragment>, count: int) -> Seq<u8>
    decreases count,
{
    if count <= 0 {
        Seq::empty()
    } else {
        joined(fragments, count - 1) + match indices(fragments).index_of_first(
            (count - 1) as u64,
        ) {
            Some(k) => fragments[k].payload(),
            None => Seq::empty(),
        }
    }
}

/// The message that the fragments make up, if they make up one.
pub open spec fn assembled(fragments: Seq<Fragment>) -> Option<Seq<u8>> {
    if is_complete(fragments) {
        Some(joined(fragments, fragments.len() as int))
    } else {
        None
    }
}

/// The fragments of `packets` that belong to the session `session_id`, in
/// the order of `packets`.
pub open spec fn session_fragments(packets: Seq<PacketView>, session_id: u64) -> Seq<Fragment>
    decreases packets.len(),
{
    if packets.len() == 0 {
        Seq::empty()
    } else {
        let before = session_fragments(packets.drop_last(), session_id);
        match packets.last().pack_type {
            PacketTypeView::MsgFragment(fragment) => if packets.last().session_id == session_id {
                before.push(fragment)
            } else {
                before
            },
            _ => before,
        }
    }
}

/// Cuts a message into fragments of `FRAGMENT_DSIZE` bytes; the last one
/// holds what is left. A message without bytes gives one fragment without
/// bytes.
pub fn disassembly(bytes: &[u8]) -> (r: Vec<Fragment>)
    ensures
        is_disassembly(r@, bytes@),
{
    let len = bytes.len();
    let count: usize = if len == 0 {
        1
    } else {
        (len - 1) / FRAGMENT_DSIZE + 1
    };
    let mut fragments: Vec<Fragment> = Vec::with_capacity(count);
    let mut i: usize = 0;
    while i < count
        invariant
            len == bytes@.len(),
            count == fragment_count(len as nat),
            i <= count,
            fragments@.len() == i,
            forall|k: int|
                0 <= k < i ==> {
                    &&& (#[trigger] fragments@[k]).wf()
                    &&& fragments@[k].fragment_index == k
                    &&& fragments@[k].total_n_fragments == count
                    &&& fragments@[k].payload() == piece(bytes@, k)
                    &&& fragments@[k].data@ == padded(piece(bytes@, k))
                },
        decreases count - i,
    {
        let start = if len == 0 {
            0
        } else {
            i * FRAGMENT_DSIZE
        };
        let end = if len - start > FRAGMENT_DSIZE {
            start + FRAGMENT_DSIZE
        } else {
            len
        };
        let part = slice_subrange(bytes, start, end);
        assert(part@ =~= piece(bytes@, i as int));
        let fragment = Fragment::from_bytes(i as u64, count as u64, part);
        assert(part@.take(fragment.length as int) =~= part@);
        fragments.push(fragment);
        i += 1;
    }
    fragments
}

/// The packets that carry a message to the first node of a route: one for
/// each fragment of the message, in order, each with the header and the
/// session given.
pub fn fragment_packets(routing_header: &SourceRoutingHeader, session_id: u64, bytes: &[u8]) -> (r:
    Vec<Packet>)
    ensures
        r@.len() == fragment_count(bytes@.len()),
        forall|i: int|
            0 <= i < r@.len() ==> (#[trigger] r@[i])@.routing_header == routing_header@
                && r@[i]@.session_id == session_id,
        session_fragments(Seq::new(r@.len(), |i: int| r@[i]@), session_id).len() == r@.len(),
        is_disassembly(
            session_fragments(Seq::new(r@.len(), |i: int| r@[i]@), session_id),
            bytes@,
        ),
{
    let fragments = disassembly(bytes);
    let mut packets: Vec<Packet> = Vec::with_capacity(fragments.len());
    let mut i: usize = 0;
    while i < fragments.len()
        invariant
            i <= fragments@.len(),
            is_disassembly(fragments@, bytes@),
            packets@.len() == i,
            forall|k: int|
                0 <= k < i ==> (#[trigger] packets@[k])@ == (PacketView {
                    routing_header: routing_header@,
                    session_id,
                    pack_type: PacketTypeView::MsgFragment(fragments@[k]),
                }),
            session_fragments(Seq::new(i as nat, |k: int| packets@[k]@), session_id)
                == fragments@.take(i as int),
        decreases fragments@.len() - i,
    {
        let ghost before = Seq::new(i as nat, |k: int| packets@[k]@);
        packets.push(Packet::new_fragment(routing_header.clone(), session_id, fragments[i]));
        proof {
            let now = Seq::new((i + 1) as nat, |k: int| packets@[k]@);
            assert(now.drop_last() =~= before);
            assert(fragments@.take(i + 1) =~= fragments@.take(i as int).push(fragments@[i as int]));
        }
        i += 1;
    }
    assert(fragments@.take(fragments@.len() as int) =~= fragments@);
    packets
}

/// The fragments among `packets` that belong to the session
/// `session_id`, in the order of `packets`.
pub fn fragments_of_session(packets: &Vec<Packet>, session_id: u64) -> (r: Vec<Fragment>)
    ensures
        r@ == session_fragments(Seq::new(packets@.len(), |i: int| packets@[i]@), session_id),
{
    let ghost views = Seq::new(packets@.len(), |i: int| packets@[i]@);
    let mut fragments: Vec<Fragment> = Vec::new();
    let mut i: usize = 0;
    while i < packets.len()
        invariant
            i <= packets@.len(),
            views == Seq::new(packets@.len(), |i: int| packets@[i]@),
            fragments@ == session_fragments(views.take(i as int), session_id),
        decreases packets@.len() - i,
    {
        assert(views.take(i + 1).drop_last() =~= views.take(i as int));
        match &packets[i].pack_type {
            PacketType::MsgFragment(fragment) => {
                if packets[i].session_id == session_id {
                    fragments.push(*fragment);
                }
            },
            _ => {},
        }
        i += 1;
    }
    assert(views.take(packets@.len() as int) =~= views);
    fragments
}

/// The place in `fragments` of the first fragment that has the place
/// `index` in its message.
fn holder_of(fragments: &Vec<Fragment>, index: u64) -> (r: Option<usize>)
    ensures
        match r {
            Some(k) => indices(fragments@).index_of_first(index) == Some(k as int) && k
                < fragments@.len() && fragments@[k as int].fragment_index == index,
            None => !indices(fragments@).contains(index),
        },
{
    let mut k: usize = 0;
    while k < fragments.len()
        invariant
            k <= fragments@.len(),
            forall|j: int| 0 <= j < k ==> indices(fragments@)[j] != index,
        decreases fragments@.len() - k,
    {
        if fragments[k].fragment_index == index {
            proof {
                assert(indices(fragments@)[k as int] == index);
                indices(fragments@).index_of_first_ensures(index);
            }
            return Some(k);
        }
        k += 1;
    }
    None
}

/// Puts the fragments of a message together, in whatever order they
/// came. `None` where the fragments do not make up a whole message.
pub fn assembly(fragments: &Vec<Fragment>) -> (r: Option<Vec<u8>>)
    ensures
        match assembled(fragments@) {
            Some(bytes) => r is Some && r->0@ == bytes,
            None => r is None,
        },
{
    let count = fragments.len();
    if count == 0 || count as u128 > u64::MAX as u128 {
        return None;
    }
    let mut k: usize = 0;
    while k < count
        invariant
            k <= count == fragments@.len(),
            forall|j: int| 0 <= j < k ==> (#[trigger] fragments@[j]).total_n_fragments == count,
        decreases count - k,
    {
        if fragments[k].total_n_fragments != count as u64 {
            return None;
        }
        k += 1;
    }
    let mut bytes: Vec<u8> = Vec::new();
    let mut i: usize = 0;
    while i < count
        invariant
            i <= count == fragments@.len(),
            count <= u64::MAX,
            forall|j: int| 0 <= j < i ==> #[trigger] indices(fragments@).contains(j as u64),
            bytes@ == joined(fragments@, i as int),
        decreases count - i,
    {
        match holder_of(fragments, i as u64) {
            Some(place) => {
                assert(indices(fragments@)[place as int] == i as u64);
                let mut part = fragments[place].bytes();
                bytes.append(&mut part);
            },
            None => {
                return None;
            },
        }
        i += 1;
    }
    Some(bytes)
}

/// Putting together the fragments that a message was cut into gives the
/// message back.
pub proof fn lemma_assembly_of_disassembly(fragments: Seq<Fragment>, bytes: Seq<u8>)
    requires
        is_disassembly(fragments, bytes),
        fragments.len() <= u64::MAX,
    ensures
        assembled(fragments) == Some(bytes),
{
    assert forall|i: int| 0 <= i < fragments.len() implies #[trigger] indices(fragments).contains(
        i as u64,
    ) by {
        assert(indices(fragments)[i] == i as u64);
    }
    lemma_joined_pieces(fragments, bytes, fragments.len() as int);
    assert(bytes.subrange(0, bytes.len() as int) =~= bytes);
}

/// The first `count` fragments of a message hold its first bytes.
proof fn lemma_joined_pieces(fragments: Seq<Fragment>, bytes: Seq<u8>, count: int)
    requires
        is_disassembly(fragments, bytes),
        fragments.len() <= u64::MAX,
        0 <= count <= fragments.len(),
    ensures
        joined(fragments, count) == bytes.subrange(
            0,
            if FRAGMENT_DSIZE * count < bytes.len() {
                FRAGMENT_DSIZE * count
            } else {
                bytes.len() as int
            },
        ),
    decreases count,
{
    if count > 0 {
        lemma_joined_pieces(fragments, bytes, count - 1);
        let i = count - 1;
        let places = indices(fragments);
        places.index_of_first_ensures(i as u64);
        assert(places[i] == i as u64);
        assert(places.contains(i as u64));
        let k = places.index_of_first(i as u64)->0;
        assert(places[k] == i as u64);
        assert(fragments[k].fragment_index == k);
        assert(k == i);
        assert(joined(fragments, count) =~= bytes.subrange(
            0,
            if FRAGMENT_DSIZE * count < bytes.len() {
                FRAGMENT_DSIZE * count
            } else {
                bytes.len() as int
            },
        ));
    } else {
        assert(joined(fragments, count) =~= bytes.subrange(0, 0));
    }
}

} // verus!
