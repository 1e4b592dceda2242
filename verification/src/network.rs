//! The source-routing header: an ordered route and a cursor into it.

use vstd::prelude::*;
use crate::text::{decimal, push_chars, push_decimal, push_str, text_of, trim, trimmed};

verus! {

/// Identifier of a node of the network.
pub type NodeId = u8;

/// The mathematical content of a routing header.
pub struct Route {
    /// The nodes of the route, the source first.
    pub hops: Seq<NodeId>,
    /// The cursor: the position of the node that handles the packet.
    pub hop_index: int,
}

impl Route {
    /// The node at position `i`, if the route has one there.
    pub open spec fn hop_at(self, i: int) -> Option<NodeId> {
        if 0 <= i < self.hops.len() {
            Some(self.hops[i])
        } else {
            None
        }
    }

    /// The cursor points at a node of the route.
    pub open spec fn valid(self) -> bool {
        0 <= self.hop_index < self.hops.len()
    }

    /// The cursor is on the source.
    pub open spec fn is_first_hop(self) -> bool {
        self.hops.len() > 0 && self.hop_index == 0
    }

    /// The cursor is on the destination.
    pub open spec fn is_last_hop(self) -> bool {
        self.hops.len() > 0 && self.hop_index == self.hops.len() - 1
    }

    /// The node under the cursor.
    pub open spec fn current_hop(self) -> Option<NodeId> {
        self.hop_at(self.hop_index)
    }

    /// The node one position after the cursor.
    pub open spec fn next_hop(self) -> Option<NodeId> {
        self.hop_at(self.hop_index + 1)
    }

    /// The node one position before the cursor.
    pub open spec fn previous_hop(self) -> Option<NodeId> {
        self.hop_at(self.hop_index - 1)
    }

    /// The route with the cursor one hop further.
    pub open spec fn advanced(self) -> Route {
        Route { hop_index: self.hop_index + 1, ..self }
    }

    /// The route walked the other way. The node under the cursor stays
    /// under the cursor; a cursor that points at no node is left alone.
    pub open spec fn reversed(self) -> Route {
        Route {
            hops: self.hops.reverse(),
            hop_index: if self.valid() {
                self.hops.len() - self.hop_index - 1
            } else {
                self.hop_index
            },
        }
    }

    /// The part of the route between two ends, with the cursor moved so
    /// that it stays on the node it was on. A range that runs downwards
    /// gives its slice walked backwards. There is no sub-route when the
    /// range reaches past the route.
    pub open spec fn sub_route(self, start: HopBound, end: HopBound) -> Option<Route> {
        let len = self.hops.len() as int;
        if runs_downwards(start, end) {
            let low = end.lowest();
            let high = start.past_highest(len);
            if high <= len {
                Some(
                    Route {
                        hops: self.hops.subrange(low, high).reverse(),
                        hop_index: if self.hop_index < high {
                            high - 1 - self.hop_index
                        } else {
                            0
                        },
                    },
                )
            } else {
                None
            }
        } else {
            let low = start.lowest();
            let high = end.past_highest(len);
            if low <= high <= len {
                Some(
                    Route {
                        hops: self.hops.subrange(low, high),
                        hop_index: if self.hop_index > low {
                            self.hop_index - low
                        } else {
                            0
                        },
                    },
                )
            } else {
                None
            }
        }
    }

    /// The route with its loops cut out. The cursor goes to the place that
    /// the node under it has in the new route, or to 0 when that node is
    /// gone or there was none.
    pub open spec fn without_loops(self) -> Route {
        let hops = remove_loops(self.hops);
        Route {
            hops,
            hop_index: match self.current_hop() {
                Some(hop) => match hops.index_of_first(hop) {
                    Some(place) => place,
                    None => 0,
                },
                None => 0,
            },
        }
    }
    /// The hop at position `i` as it is written in the description of the
    /// route: in brackets where the cursor is on it, between spaces
    /// elsewhere.
    pub open spec fn hop_text(self, i: int) -> Seq<char> {
        if i == self.hop_index {
            "("@ + decimal(self.hops[i] as nat) + ")"@
        } else {
            " "@ + decimal(self.hops[i] as nat) + " "@
        }
    }

    /// The first `count` hops as they are written in the description of
    /// the route, with an arrow between every two.
    pub open spec fn hops_text(self, count: int) -> Seq<char>
        decreases count,
    {
        if count <= 0 {
            Seq::empty()
        } else if count == 1 {
            self.hop_text(0)
        } else {
            self.hops_text(count - 1) + "->"@ + self.hop_text(count - 1)
        }
    }

    /// The description of the route, such as `[ 1 ->(2)-> 3 ]` for a route
    /// over 1, 2 and 3 with the cursor on 2.
    pub open spec fn text(self) -> Seq<char> {
        "[ "@ + trimmed(self.hops_text(self.hops.len() as int)) + " ]"@
    }
}

/// One end of a range of positions in a route.
#[derive(Clone, Copy, Debug, PartialEq, Eq)]
pub enum HopBound {
    /// The range reaches this position.
    Included(usize),
    /// The range stops just short of this position.
    Excluded(usize),
    /// The range runs to the end of the route on this side.
    Unbounded,
}

impl HopBound {
    /// The position that the bound names, if it names one.
    pub open spec fn position(self) -> Option<int> {
        match self {
            HopBound::Included(p) => Some(p as int),
            HopBound::Excluded(p) => Some(p as int),
            HopBound::Unbounded => None,
        }
    }

    /// The lowest position of a slice whose lower end is this bound.
    pub open spec fn lowest(self) -> int {
        match self {
            HopBound::Included(p) => p as int,
            HopBound::Excluded(p) => p + 1,
            HopBound::Unbounded => 0,
        }
    }

    /// One past the highest position of a slice of a route of `len` nodes
    /// whose upper end is this bound.
    pub open spec fn past_highest(self, len: int) -> int {
        match self {
            HopBound::Included(p) => p + 1,
            HopBound::Excluded(p) => p as int,
            HopBound::Unbounded => len,
        }
    }
}

/// A range runs downwards when both ends name a position and the start
/// lies after the end.
pub open spec fn runs_downwards(start: HopBound, end: HopBound) -> bool {
    match (start.position(), end.position()) {
        (Some(s), Some(e)) => s > e,
        _ => false,
    }
}

/// The route that is left when every loop is cut out: the hops are taken
/// in order, and a hop that the route built so far already holds cuts that
/// route back to its earlier visit.
pub open spec fn remove_loops(hops: Seq<NodeId>) -> Seq<NodeId>
    decreases hops.len(),
{
    if hops.len() == 0 {
        Seq::empty()
    } else {
        let built = remove_loops(hops.drop_last());
        let hop = hops.last();
        match built.index_of_first(hop) {
            Some(earlier) => built.take(earlier).push(hop),
            None => built.push(hop),
        }
    }
}

/// A route chosen by the sender, with the position of the node that is
/// currently handling the packet.
#[derive(Debug, PartialEq, Eq)]
pub struct SourceRoutingHeader {
    /// Position in `hops` of the node that handles the packet.
    pub hop_index: usize,
    /// The route: the source first, the destination last.
    pub hops: Vec<NodeId>,
}

impl View for SourceRoutingHeader {
    type V = Route;

    open spec fn view(&self) -> Route {
        Route { hops: self.hops@, hop_index: self.hop_index as int }
    }
}

impl Clone for SourceRoutingHeader {
    fn clone(&self) -> (r: Self)
        ensures
            r@ == self@,
    {
        Self { hop_index: self.hop_index, hops: self.hops.clone() }
    }
}

impl Default for SourceRoutingHeader {
    fn default() -> (r: Self)
        ensures
            r@.hops.len() == 0,
            r@.hop_index == 0,
    {
        Self { hop_index: 0, hops: Vec::new() }
    }
}

impl SourceRoutingHeader {
    /// A header over `hops` with the cursor at `hop_index`.
    pub fn new(hops: Vec<NodeId>, hop_index: usize) -> (r: Self)
        ensures
            r@.hops == hops@,
            r@.hop_index == hop_index,
    {
        Self { hops, hop_index }
    }

    /// A header over `hops` with the cursor on the source.
    pub fn initialize(hops: Vec<NodeId>) -> (r: Self)
        ensures
            r@.hops == hops@,
            r@.hop_index == 0,
    {
        Self::new(hops, 0)
    }

    /// A header over `hops` with the cursor on the first node after the
    /// source, for a sender that is itself the source.
    pub fn with_first_hop(hops: Vec<NodeId>) -> (r: Self)
        ensures
            r@.hops == hops@,
            r@.hop_index == 1,
    {
        Self::new(hops, 1)
    }

    /// The header of no route.
    pub fn empty_route() -> (r: Self)
        ensures
            r@.hops.len() == 0,
            r@.hop_index == 0,
    {
        Self::new(Vec::new(), 0)
    }

    /// Moves the cursor one hop towards the destination.
    pub fn increase_hop_index(&mut self)
        requires
            old(self).hop_index < usize::MAX,
        ensures
            final(self)@ == old(self)@.advanced(),
    {
        self.hop_index += 1;
    }

    /// Moves the cursor one hop towards the source. The cursor must not
    /// be on position 0 already.
    pub fn decrease_hop_index(&mut self)
        requires
            old(self).hop_index > 0,
        ensures
            final(self)@.hops == old(self)@.hops,
            final(self)@.hop_index == old(self)@.hop_index - 1,
    {
        self.hop_index -= 1;
    }

    /// Puts the cursor back on the source.
    pub fn reset_hop_index(&mut self)
        ensures
            final(self)@.hops == old(self)@.hops,
            final(self)@.hop_index == 0,
    {
        self.hop_index = 0;
    }

    /// The first node of the route.
    pub fn source(&self) -> (r: Option<NodeId>)
        ensures
            r == self@.hop_at(0),
    {
        if self.hops.len() > 0 {
            Some(self.hops[0])
        } else {
            None
        }
    }

    /// The last node of the route.
    pub fn destination(&self) -> (r: Option<NodeId>)
        ensures
            r == self@.hop_at(self@.hops.len() - 1),
    {
        let n = self.hops.len();
        if n > 0 {
            Some(self.hops[n - 1])
        } else {
            None
        }
    }

    /// The node under the cursor.
    pub fn current_hop(&self) -> (r: Option<NodeId>)
        ensures
            r == self@.current_hop(),
    {
        if self.hop_index < self.hops.len() {
            Some(self.hops[self.hop_index])
        } else {
            None
        }
    }

    /// The node one position after the cursor.
    pub fn next_hop(&self) -> (r: Option<NodeId>)
        ensures
            r == self@.next_hop(),
    {
        if self.hop_index < self.hops.len() && self.hop_index + 1 < self.hops.len() {
            Some(self.hops[self.hop_index + 1])
        } else {
            None
        }
    }

    /// The node one position before the cursor.
    pub fn previous_hop(&self) -> (r: Option<NodeId>)
        ensures
            r == self@.previous_hop(),
    {
        if self.hop_index > 0 && self.hop_index - 1 < self.hops.len() {
            Some(self.hops[self.hop_index - 1])
        } else {
            None
        }
    }

    /// The route has no node.
    pub fn is_empty(&self) -> (r: bool)
        ensures
            r == (self@.hops.len() == 0),
    {
        self.hops.len() == 0
    }

    /// The cursor is on the source.
    pub fn is_first_hop(&self) -> (r: bool)
        ensures
            r == self@.is_first_hop(),
    {
        self.hops.len() > 0 && self.hop_index == 0
    }

    /// The cursor is on the destination.
    pub fn is_last_hop(&self) -> (r: bool)
        ensures
            r == self@.is_last_hop(),
    {
        self.hops.len() > 0 && self.hop_index == self.hops.len() - 1
    }

    /// The cursor points at a node of the route.
    pub fn valid_hop_index(&self) -> (r: bool)
        ensures
            r == self@.valid(),
    {
        self.hop_index < self.hops.len()
    }

    /// Adds `hop` after the destination.
    pub fn append_hop(&mut self, hop: NodeId)
        ensures
            final(self)@.hops == old(self)@.hops.push(hop),
            final(self)@.hop_index == old(self)@.hop_index,
    {
        self.hops.push(hop);
    }

    /// Number of nodes of the route.
    pub fn len(&self) -> (r: usize)
        ensures
            r == self@.hops.len(),
    {
        self.hops.len()
    }

    /// Turns the route around in place.
    pub fn reverse(&mut self)
        ensures
            final(self)@ == old(self)@.reversed(),
    {
        let n = self.hops.len();
        let mut reversed: Vec<NodeId> = Vec::with_capacity(n);
        let mut i: usize = n;
        while i > 0
            invariant
                n == self.hops@.len(),
                i <= n,
                reversed@.len() == n - i,
                forall|k: int| 0 <= k < n - i ==> reversed@[k] == self.hops@[n - 1 - k],
            decreases i,
        {
            i -= 1;
            reversed.push(self.hops[i]);
        }
        assert(reversed@ =~= self.hops@.reverse());
        if self.hop_index < n {
            self.hop_index = n - self.hop_index - 1;
        }
        self.hops = reversed;
    }

    /// The route turned around, in a header of its own.
    pub fn get_reversed(&self) -> (r: SourceRoutingHeader)
        ensures
            r@ == self@.reversed(),
    {
        let mut copy = self.clone();
        copy.reverse();
        copy
    }

    /// The part of the route that a range of positions names, in a header
    /// of its own. A range whose start lies after its end gives the nodes
    /// between the two ends in the opposite order. `None` when the range
    /// reaches past the route.
    pub fn sub_route(&self, start: HopBound, end: HopBound) -> (r: Option<SourceRoutingHeader>)
        ensures
            match self@.sub_route(start, end) {
                Some(route) => r is Some && r->0@ == route,
                None => r is None,
            },
    {
        let len = self.hops.len();
        let downwards = match (start, end) {
            (HopBound::Unbounded, _) => false,
            (_, HopBound::Unbounded) => false,
            (HopBound::Included(s), HopBound::Included(e)) => s > e,
            (HopBound::Included(s), HopBound::Excluded(e)) => s > e,
            (HopBound::Excluded(s), HopBound::Included(e)) => s > e,
            (HopBound::Excluded(s), HopBound::Excluded(e)) => s > e,
        };
        let (lower, upper) = if downwards {
            (end, start)
        } else {
            (start, end)
        };
        let low = match lower {
            HopBound::Included(p) => p,
            HopBound::Excluded(p) => {
                if p >= len {
                    return None;
                }
                p + 1
            },
            HopBound::Unbounded => 0,
        };
        let high = match upper {
            HopBound::Included(p) => {
                if p >= len {
                    return None;
                }
                p + 1
            },
            HopBound::Excluded(p) => p,
            HopBound::Unbounded => len,
        };
        if high > len || low > high {
            return None;
        }
        let mut hops: Vec<NodeId> = Vec::with_capacity(high - low);
        if downwards {
            let mut i: usize = high;
            while i > low
                invariant
                    low <= i <= high <= self.hops@.len(),
                    hops@.len() == high - i,
                    forall|k: int| 0 <= k < high - i ==> hops@[k] == self.hops@[high - 1 - k],
                decreases i,
            {
                i -= 1;
                hops.push(self.hops[i]);
            }
            assert(hops@ =~= self.hops@.subrange(low as int, high as int).reverse());
            let hop_index = if self.hop_index < high {
                high - 1 - self.hop_index
            } else {
                0
            };
            Some(SourceRoutingHeader { hop_index, hops })
        } else {
            let mut i: usize = low;
            while i < high
                invariant
                    low <= i <= high <= self.hops@.len(),
                    hops@.len() == i - low,
                    forall|k: int| 0 <= k < i - low ==> hops@[k] == self.hops@[low + k],
                decreases high - i,
            {
                hops.push(self.hops[i]);
                i += 1;
            }
            assert(hops@ =~= self.hops@.subrange(low as int, high as int));
            let hop_index = if self.hop_index > low {
                self.hop_index - low
            } else {
                0
            };
            Some(SourceRoutingHeader { hop_index, hops })
        }
    }

    /// The route with its loops cut out, in a header of its own.
    pub fn without_loops(&self) -> (r: SourceRoutingHeader)
        ensures
            r@ == self@.without_loops(),
    {
        let n = self.hops.len();
        let mut simplified: Vec<NodeId> = Vec::new();
        let mut i: usize = 0;
        while i < n
            invariant
                n == self.hops@.len(),
                i <= n,
                simplified@ == remove_loops(self.hops@.take(i as int)),
            decreases n - i,
        {
            let hop = self.hops[i];
            proof {
                assert(self.hops@.take(i + 1).drop_last() =~= self.hops@.take(i as int));
            }
            match first_place_of(&simplified, hop) {
                Some(earlier) => {
                    simplified.truncate(earlier);
                },
                None => {},
            }
            simplified.push(hop);
            i += 1;
        }
        assert(self.hops@.take(n as int) =~= self.hops@);
        let hop_index = if self.hop_index < n {
            match first_place_of(&simplified, self.hops[self.hop_index]) {
                Some(place) => place,
                None => 0,
            }
        } else {
            0
        };
        SourceRoutingHeader { hop_index, hops: simplified }
    }
    /// The description of the route: its hops with arrows between them,
    /// the hop under the cursor in brackets.
    pub fn to_string(&self) -> (r: String)
        ensures
            r@ == self@.text(),
    {
        let n = self.hops.len();
        let mut body: Vec<char> = Vec::new();
        let mut i: usize = 0;
        while i < n
            invariant
                n == self.hops@.len(),
                i <= n,
                body@ == self@.hops_text(i as int),
            decreases n - i,
        {
            let ghost before = body@;
            if i > 0 {
                push_str(&mut body, "->");
            }
            if i == self.hop_index {
                push_str(&mut body, "(");
                push_decimal(&mut body, self.hops[i] as u128);
                push_str(&mut body, ")");
            } else {
                push_str(&mut body, " ");
                push_decimal(&mut body, self.hops[i] as u128);
                push_str(&mut body, " ");
            }
            proof {
                if i > 0 {
                    assert(body@ =~= before + "->"@ + self@.hop_text(i as int));
                } else {
                    assert(body@ =~= self@.hop_text(0));
                }
            }
            i += 1;
        }
        let inner = trim(&body);
        let mut out: Vec<char> = Vec::new();
        push_str(&mut out, "[ ");
        push_chars(&mut out, &inner);
        push_str(&mut out, " ]");
        assert(out@ =~= self@.text());
        text_of(&out)
    }
}

/// The first position of `hop` in `hops`.
fn first_place_of(hops: &Vec<NodeId>, hop: NodeId) -> (r: Option<usize>)
    ensures
        match r {
            Some(place) => hops@.index_of_first(hop) == Some(place as int) && place < hops@.len(),
            None => hops@.index_of_first(hop) is None,
        },
{
    let mut i: usize = 0;
    while i < hops.len()
        invariant
            i <= hops@.len(),
            forall|k: int| 0 <= k < i ==> hops@[k] != hop,
        decreases hops@.len() - i,
    {
        if hops[i] == hop {
            proof {
                hops@.index_of_first_ensures(hop);
            }
            return Some(i);
        }
        i += 1;
    }
    proof {
        hops@.index_of_first_ensures(hop);
    }
    None
}

/// Turning a route around twice gives the route back, cursor included.
pub proof fn lemma_reverse_involution(route: Route)
    ensures
        route.reversed().reversed() == route,
{
    assert(route.hops.reverse().reverse() =~= route.hops);
}

/// Taking a part of a route keeps the cursor on the node it was on,
/// whenever that node lies inside the part.
pub proof fn lemma_sub_route_keeps_current_hop(route: Route, start: HopBound, end: HopBound)
    requires
        route.valid(),
        route.sub_route(start, end) is Some,
        runs_downwards(start, end) ==> end.lowest() <= route.hop_index < start.past_highest(
            route.hops.len() as int,
        ),
        !runs_downwards(start, end) ==> start.lowest() <= route.hop_index < end.past_highest(
            route.hops.len() as int,
        ),
    ensures
        route.sub_route(start, end)->0.valid(),
        route.sub_route(start, end)->0.current_hop() == route.current_hop(),
{
}

/// A route without loops names no node twice.
pub proof fn lemma_remove_loops_no_duplicates(hops: Seq<NodeId>)
    ensures
        remove_loops(hops).no_duplicates(),
    decreases hops.len(),
{
    if hops.len() > 0 {
        let built = remove_loops(hops.drop_last());
        let hop = hops.last();
        lemma_remove_loops_no_duplicates(hops.drop_last());
        built.index_of_first_ensures(hop);
    }
}

/// A route that names no node twice has no loop to cut out.
pub proof fn lemma_remove_loops_of_simple_route(hops: Seq<NodeId>)
    requires
        hops.no_duplicates(),
    ensures
        remove_loops(hops) == hops,
    decreases hops.len(),
{
    if hops.len() > 0 {
        lemma_remove_loops_of_simple_route(hops.drop_last());
        hops.drop_last().index_of_first_ensures(hops.last());
        assert(hops.drop_last().push(hops.last()) =~= hops);
    }
}

/// Cutting the loops out of a route leaves a route from the same source to
/// the same destination, made of nodes of the route, and no longer than it.
pub proof fn lemma_remove_loops_keeps_ends(hops: Seq<NodeId>)
    ensures
        remove_loops(hops).len() <= hops.len(),
        hops.len() > 0 ==> remove_loops(hops).len() > 0,
        hops.len() > 0 ==> remove_loops(hops).first() == hops.first(),
        hops.len() > 0 ==> remove_loops(hops).last() == hops.last(),
        forall|k: int|
            0 <= k < remove_loops(hops).len() ==> hops.contains(#[trigger] remove_loops(hops)[k]),
    decreases hops.len(),
{
    if hops.len() > 0 {
        let shorter = hops.drop_last();
        let built = remove_loops(shorter);
        let hop = hops.last();
        lemma_remove_loops_keeps_ends(shorter);
        built.index_of_first_ensures(hop);
        assert forall|k: int| 0 <= k < remove_loops(hops).len() implies hops.contains(
            #[trigger] remove_loops(hops)[k],
        ) by {
            let node = remove_loops(hops)[k];
            if node == hop {
                assert(hops[hops.len() - 1] == node);
            } else {
                assert(built[k] == node);
                assert(shorter.contains(node));
                let j = choose|j: int| 0 <= j < shorter.len() && shorter[j] == node;
                assert(hops[j] == node);
            }
        }
    }
}

/// Cutting the loops out of a route a second time changes nothing, neither
/// the hops nor the cursor, and the route that comes out names no node
/// twice.
pub proof fn lemma_without_loops_idempotent(route: Route)
    ensures
        route.without_loops().without_loops() == route.without_loops(),
        route.without_loops().hops.no_duplicates(),
{
    let once = route.without_loops();
    lemma_remove_loops_no_duplicates(route.hops);
    lemma_remove_loops_of_simple_route(once.hops);
    match route.current_hop() {
        Some(hop) => {
            once.hops.index_of_first_ensures(hop);
        },
        None => {},
    }
    match once.current_hop() {
        Some(hop) => {
            once.hops.index_of_first_ensures(hop);
        },
        None => {},
    }
}

} // verus!
