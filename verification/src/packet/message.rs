//! Messages: what the nodes at the edge of the network say to each other,
//! before it is cut into fragments.

use vstd::prelude::*;
use crate::network::{NodeId, SourceRoutingHeader};
use crate::packet::fragmentation::{fragment_count, fragment_packets};
use crate::packet::Packet;
use crate::text::{chars_of, decimal, digit, push_decimal, push_str, text_of};

verus! {

/// A message on its way: what is said, and the route it takes.
#[derive(Debug, Clone)]
pub struct Message<M: Serializable> {
    pub message_data: MessageData<M>,
    pub routing_header: SourceRoutingHeader,
}

/// What is said: the part of a message that is cut into fragments.
#[derive(Debug, Clone)]
pub struct MessageData<M: Serializable> {
    pub source_id: NodeId,
    pub session_id: u64,
    pub content: M,
}

/// A content that can be written as text and read back from text.
pub trait Serializable: Sized {
    /// The text of the content.
    spec fn text(&self) -> Seq<char>;

    /// The content that a text stands for, if it stands for one.
    spec fn parsed(text: Seq<char>) -> Option<Self>;

    /// The text of a content stands for that content.
    proof fn lemma_text_is_read_back(&self)
        ensures
            Self::parsed(self.text()) == Some(*self),
    ;

    fn serialize(&self) -> (r: String)
        ensures
            r@ == self.text(),
    ;

    fn deserialize(serialized: String) -> (r: Result<Self, String>)
        ensures
            match Self::parsed(serialized@) {
                Some(content) => r == Ok::<Self, String>(content),
                None => r is Err,
            },
    ;
}

/// A content that asks.
pub trait Request: Serializable {

}

/// A content that answers.
pub trait Response: Serializable {

}

impl<M: Serializable> Message<M> {
    /// A message of `source_id` in the session `session_id`.
    pub fn new(
        routing_header: SourceRoutingHeader,
        source_id: NodeId,
        session_id: u64,
        content: M,
    ) -> (r: Self)
        ensures
            r.routing_header == routing_header,
            r.message_data.source_id == source_id,
            r.message_data.session_id == session_id,
            r.message_data.content == content,
    {
        Self { routing_header, message_data: MessageData { source_id, session_id, content } }
    }

    /// The packets that carry the message: the text of its content, cut
    /// into fragments, each under the route and the session of the
    /// message.
    pub fn disassembly(&self) -> (r: Vec<Packet>)
        ensures
            r@.len() == fragment_count(
                vstd::utf8::encode_utf8(self.message_data.content.text()).len(),
            ),
            forall|i: int|
                0 <= i < r@.len() ==> (#[trigger] r@[i])@.routing_header == self.routing_header@
                    && r@[i]@.session_id == self.message_data.session_id,
            crate::packet::fragmentation::is_disassembly(
                crate::packet::fragmentation::session_fragments(
                    Seq::new(r@.len(), |i: int| r@[i]@),
                    self.message_data.session_id,
                ),
                vstd::utf8::encode_utf8(self.message_data.content.text()),
            ),
    {
        let text = self.message_data.content.serialize();
        fragment_packets(
            &self.routing_header,
            self.message_data.session_id,
            text.as_str().as_bytes(),
        )
    }
}

/// The value of a decimal digit.
pub open spec fn digit_value(c: char) -> Option<nat> {
    if '0' <= c <= '9' {
        Some((c as nat - 48) as nat)
    } else {
        None
    }
}

/// The number that a run of decimal digits stands for; the empty run
/// stands for 0.
pub open spec fn digits_value(digits: Seq<char>) -> Option<nat>
    decreases digits.len(),
{
    if digits.len() == 0 {
        Some(0)
    } else {
        match (digits_value(digits.drop_last()), digit_value(digits.last())) {
            (Some(above), Some(units)) => Some(10 * above + units),
            _ => None,
        }
    }
}

/// The number that a text stands for: one decimal digit or more, after a
/// plus sign or without one, that stay within 64 bits.
pub open spec fn parsed_number(text: Seq<char>) -> Option<u64> {
    let digits = if text.len() > 0 && text[0] == '+' {
        text.drop_first()
    } else {
        text
    };
    if digits.len() == 0 {
        None
    } else {
        match digits_value(digits) {
            Some(value) => if value <= u64::MAX {
                Some(value as u64)
            } else {
                None
            },
            None => None,
        }
    }
}

/// The text without the copies of `prefix` that it starts with.
pub open spec fn without_leading(text: Seq<char>, prefix: Seq<char>) -> Seq<char>
    decreases text.len(),
{
    if prefix.len() > 0 && prefix.is_prefix_of(text) {
        without_leading(text.skip(prefix.len() as int), prefix)
    } else {
        text
    }
}

/// The text without the characters `c` that it ends with.
pub open spec fn without_trailing(text: Seq<char>, c: char) -> Seq<char>
    decreases text.len(),
{
    if text.len() > 0 && text.last() == c {
        without_trailing(text.drop_last(), c)
    } else {
        text
    }
}

/// What stands before the number of a text in a request for it.
pub open spec fn text_opening() -> Seq<char> {
    seq!['T', 'e', 'x', 't', '(']
}

/// The request for the list of texts, as text.
pub open spec fn text_list_name() -> Seq<char> {
    seq!['T', 'e', 'x', 't', 'L', 'i', 's', 't']
}

/// A run of digits stands for a number no smaller than the number that
/// any of its beginnings stands for.
proof fn lemma_digits_grow(digits: Seq<char>, count: int)
    requires
        0 <= count <= digits.len(),
        digits_value(digits) is Some,
    ensures
        digits_value(digits.take(count)) is Some,
        digits_value(digits.take(count))->0 <= digits_value(digits)->0,
    decreases digits.len(),
{
    if count == digits.len() {
        assert(digits.take(count) =~= digits);
    } else {
        lemma_digits_grow(digits.drop_last(), count);
        assert(digits.drop_last().take(count) =~= digits.take(count));
    }
}

/// A decimal digit has the value it was written for.
proof fn lemma_digit_value(d: nat)
    requires
        d < 10,
    ensures
        digit_value(digit(d as int)) == Some(d),
{
    assert(digit(d as int) as int == d + 48);
}

/// A number written in decimal is read back as that number.
pub proof fn lemma_decimal_is_read_back(n: nat)
    ensures
        digits_value(decimal(n)) == Some(n),
        decimal(n).len() > 0,
        '0' <= decimal(n)[0] <= '9',
        '0' <= decimal(n).last() <= '9',
    decreases n,
{
    if n < 10 {
        lemma_digit_value(n);
        assert(decimal(n).drop_last() =~= Seq::<char>::empty());
        assert(digits_value(Seq::<char>::empty()) == Some(0nat));
        assert(decimal(n).last() == digit(n as int));
    } else {
        lemma_digit_value(n % 10);
        lemma_decimal_is_read_back(n / 10);
        assert(decimal(n).drop_last() =~= decimal(n / 10));
        assert(decimal(n).last() == digit((n % 10) as int));
        assert(decimal(n)[0] == decimal(n / 10)[0]);
    }
}

/// Reads a number: one decimal digit or more, after a plus sign or without
/// one. `None` where the text is no such number or the number does not fit
/// in 64 bits.
pub fn parse_number(text: &Vec<char>, from: usize, to: usize) -> (r: Option<u64>)
    requires
        from <= to <= text@.len(),
    ensures
        r == parsed_number(text@.subrange(from as int, to as int)),
{
    let ghost whole = text@.subrange(from as int, to as int);
    let start = if from < to && text[from] == '+' {
        from + 1
    } else {
        from
    };
    let ghost digits = text@.subrange(start as int, to as int);
    assert(digits =~= if whole.len() > 0 && whole[0] == '+' {
        whole.drop_first()
    } else {
        whole
    });
    if start == to {
        return None;
    }
    let mut value: u64 = 0;
    let mut i: usize = start;
    while i < to
        invariant
            start <= i <= to <= text@.len(),
            digits == text@.subrange(start as int, to as int),
            digits_value(digits.take(i - start)) == Some(value as nat),
            parsed_number(text@.subrange(from as int, to as int)) == match digits_value(digits) {
                Some(total) => if total <= u64::MAX {
                    Some(total as u64)
                } else {
                    None
                },
                None => None,
            },
        decreases to - i,
    {
        let c = text[i];
        proof {
            assert(digits.take(i - start + 1).drop_last() =~= digits.take(i - start));
            assert(digits.take(i - start + 1).last() == c);
            if digits_value(digits) is Some {
                lemma_digits_grow(digits, i - start + 1);
            }
        }
        if c < '0' || c > '9' {
            return None;
        }
        let units = (c as u32 - 48) as u64;
        if value > (u64::MAX - units) / 10 {
            return None;
        }
        value = value * 10 + units;
        i += 1;
    }
    assert(digits.take(to - start) =~= digits);
    Some(value)
}

/// A request to a server of texts.
#[derive(Debug, Clone, Copy, PartialEq, Eq)]
pub enum TextRequest {
    /// Asks for the list of the texts.
    TextList,
    /// Asks for the text with this number.
    Text(u64),
}

impl Serializable for TextRequest {
    open spec fn text(&self) -> Seq<char> {
        match self {
            TextRequest::TextList => text_list_name(),
            TextRequest::Text(id) => text_opening() + decimal(*id as nat) + seq![')'],
        }
    }

    /// `TextList` stands for the request for the list. Any other text
    /// stands for the request for the text whose number is left when every
    /// `Text(` at its start and every `)` at its end is taken away.
    open spec fn parsed(text: Seq<char>) -> Option<Self> {
        if text == text_list_name() {
            Some(TextRequest::TextList)
        } else {
            match parsed_number(without_trailing(without_leading(text, text_opening()), ')')) {
                Some(id) => Some(TextRequest::Text(id)),
                None => None,
            }
        }
    }

    proof fn lemma_text_is_read_back(&self) {
        match self {
            TextRequest::TextList => {},
            TextRequest::Text(id) => {
                let number = decimal(*id as nat);
                let text = self.text();
                lemma_decimal_is_read_back(*id as nat);
                assert(text.last() == ')');
                assert(text != text_list_name());
                let rest = number + seq![')'];
                assert(text_opening().is_prefix_of(text));
                assert(text.skip(5) =~= rest);
                assert(rest[0] == number[0]);
                assert(!text_opening().is_prefix_of(rest));
                assert(without_leading(rest, text_opening()) == rest);
                assert(without_leading(text, text_opening()) == rest);
                assert(rest.drop_last() =~= number);
                assert(without_trailing(number, ')') == number);
                assert(without_trailing(rest, ')') == number);
            },
        }
    }

    fn serialize(&self) -> (r: String) {
        let mut out: Vec<char> = Vec::new();
        match self {
            TextRequest::TextList => {
                push_str(&mut out, "TextList");
                proof {
                    reveal_strlit("TextList");
                }
                assert(out@ =~= text_list_name());
            },
            TextRequest::Text(id) => {
                push_str(&mut out, "Text(");
                push_decimal(&mut out, *id as u128);
                push_str(&mut out, ")");
                proof {
                    reveal_strlit("Text(");
                    reveal_strlit(")");
                }
                assert(out@ =~= text_opening() + decimal(*id as nat) + seq![')']);
            },
        }
        text_of(&out)
    }

    /// A text that stands for no request is answered with one fixed
    /// sentence.
    fn deserialize(serialized: String) -> (r: Result<Self, String>)
        ensures
            r matches Err(message) ==> message@ == "Failed to deserialize TextRequest"@,
    {
        let text = chars_of(serialized.as_str());
        let n = text.len();
        if is_text_list(&text) {
            return Ok(TextRequest::TextList);
        }
        let mut from: usize = 0;
        assert(text@.skip(0) =~= text@);
        while starts_with_opening(&text, from)
            invariant
                from <= n == text@.len(),
                without_leading(text@, text_opening()) == without_leading(
                    text@.skip(from as int),
                    text_opening(),
                ),
            decreases n - from,
        {
            assert(text@.skip(from as int).skip(5) =~= text@.skip(from + 5));
            from += 5;
        }
        let ghost rest = text@.skip(from as int);
        assert(without_leading(text@, text_opening()) == rest);
        let mut to: usize = n;
        assert(rest.take(n - from) =~= rest);
        while to > from && text[to - 1] == ')'
            invariant
                from <= to <= n == text@.len(),
                rest == text@.skip(from as int),
                without_trailing(rest, ')') == without_trailing(rest.take(to - from), ')'),
            decreases to,
        {
            assert(rest.take(to - from).drop_last() =~= rest.take(to - from - 1));
            to -= 1;
        }
        assert(rest.take(0) =~= Seq::<char>::empty());
        assert(without_trailing(rest, ')') == rest.take(to - from));
        assert(rest.take(to - from) =~= text@.subrange(from as int, to as int));
        match parse_number(&text, from, to) {
            Some(id) => Ok(TextRequest::Text(id)),
            None => {
                let mut message: Vec<char> = Vec::new();
                push_str(&mut message, "Failed to deserialize TextRequest");
                Err(text_of(&message))
            },
        }
    }
}

impl Request for TextRequest {

}

/// The text is `TextList`.
fn is_text_list(text: &Vec<char>) -> (r: bool)
    ensures
        r == (text@ == text_list_name()),
{
    let r = text.len() == 8 && text[0] == 'T' && text[1] == 'e' && text[2] == 'x' && text[3] == 't'
        && text[4] == 'L' && text[5] == 'i' && text[6] == 's' && text[7] == 't';
    assert(r ==> text@ =~= text_list_name());
    r
}

/// `Text(` stands in the text at the place `from`.
fn starts_with_opening(text: &Vec<char>, from: usize) -> (r: bool)
    requires
        from <= text@.len(),
    ensures
        r == text_opening().is_prefix_of(text@.skip(from as int)),
        r ==> from + 5 <= text@.len(),
{
    let r = text.len() - from >= 5 && text[from] == 'T' && text[from + 1] == 'e' && text[from + 2]
        == 'x' && text[from + 3] == 't' && text[from + 4] == '(';
    proof {
        let rest = text@.skip(from as int);
        if r {
            assert(rest.subrange(0, 5) =~= text_opening());
        }
        if text_opening().is_prefix_of(rest) {
            assert(rest.subrange(0, 5) == text_opening());
            assert(rest[0] == text_opening()[0]);
            assert(rest[1] == text_opening()[1]);
            assert(rest[2] == text_opening()[2]);
            assert(rest[3] == text_opening()[3]);
            assert(rest[4] == text_opening()[4]);
        }
    }
    r
}

/// A request to a server of media.
#[derive(Debug, Clone, Copy, PartialEq, Eq)]
pub enum MediaRequest {
    MediaList,
    Media(u64),
}

/// A request to a chat server.
#[derive(Debug, Clone, PartialEq, Eq)]
pub enum ChatRequest {
    ClientList,
    Register(NodeId),
    SendMessage { from: NodeId, to: NodeId, message: String },
}

/// An answer of a server of texts.
#[derive(Debug, Clone, PartialEq, Eq)]
pub enum TextResponse {
    TextList(Vec<u64>),
    Text(String),
    NotFound,
}

/// An answer of a server of media.
#[derive(Debug, Clone, PartialEq, Eq)]
pub enum MediaResponse {
    MediaList(Vec<u64>),
    Media(Vec<u8>),
}

/// An answer of a chat server.
#[derive(Debug, Clone, PartialEq, Eq)]
pub enum ChatResponse {
    ClientList(Vec<NodeId>),
    MessageFrom { from: NodeId, message: Vec<u8> },
    MessageSent,
}

} // verus!
