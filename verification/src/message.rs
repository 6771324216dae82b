//! Message envelope protocol: the tagged wire format broadcast over a group's
//! topic, and its decoder.

use vstd::prelude::*;
use vstd::utf8::encode_utf8;
use vstd::utf8::decode_utf8;
use vstd::utf8::valid_utf8;
use vstd::utf8::encode_utf8_valid_utf8;
use vstd::utf8::encode_utf8_decode_utf8;

use crate::error::DecodeError;
use crate::peer::PeerId;

verus! {

/// Wire tag of the announcement variant.
pub const ABOUT_ME_TAG: u8 = 1;

/// Wire tag of the chat-line variant.
pub const CHAT_TAG: u8 = 2;

/// The two-variant envelope: a display-name announcement, or a chat line.
#[derive(Debug)]
pub enum MessageBody {
    AboutMe { from: PeerId, name: String },
    Message { from: PeerId, text: String },
}

/// An envelope as broadcast; the payload is its body.
#[derive(Debug)]
pub struct Message {
    pub body: MessageBody,
}

impl MessageBody {
    /// Well-formed envelopes carry a well-formed sender identifier.
    pub open spec fn wf(&self) -> bool {
        match *self {
            MessageBody::AboutMe { from, .. } => from.wf(),
            MessageBody::Message { from, .. } => from.wf(),
        }
    }

    /// The wire tag of this variant.
    pub open spec fn tag_of(&self) -> u8 {
        match *self {
            MessageBody::AboutMe { .. } => ABOUT_ME_TAG,
            MessageBody::Message { .. } => CHAT_TAG,
        }
    }

    /// The sender identifier bytes.
    pub open spec fn from_of(&self) -> Seq<u8> {
        match *self {
            MessageBody::AboutMe { from, .. } => from.bytes@,
            MessageBody::Message { from, .. } => from.bytes@,
        }
    }

    /// The text carried: the announced name, or the chat line.
    pub open spec fn text_of(&self) -> Seq<char> {
        match *self {
            MessageBody::AboutMe { name, .. } => name@,
            MessageBody::Message { text, .. } => text@,
        }
    }
}

/// The wire form of an envelope: a self-describing tag byte, the 32-byte
/// sender identifier, then the text in UTF-8 to the end of the payload.
pub open spec fn wire_of(m: MessageBody) -> Seq<u8> {
    seq![m.tag_of()] + m.from_of() + encode_utf8(m.text_of())
}

/// What the wire decoder accepts: a known tag, a whole sender identifier,
/// and a valid UTF-8 remainder.
pub open spec fn parse_wire(b: Seq<u8>) -> Option<(u8, Seq<u8>, Seq<char>)> {
    if b.len() >= 33 && (b[0] == ABOUT_ME_TAG || b[0] == CHAT_TAG) && valid_utf8(
        b.subrange(33, b.len() as int),
    ) {
        Some((b[0], b.subrange(1, 33), decode_utf8(b.subrange(33, b.len() as int))))
    } else {
        None
    }
}

/// Law: the wire codec round-trips — parsing an encoded envelope recovers
/// its tag, sender and text exactly.
pub proof fn lemma_wire_round_trip(m: MessageBody)
    requires
        m.wf(),
    ensures
        parse_wire(wire_of(m)) == Some((m.tag_of(), m.from_of(), m.text_of())),
{
    let b = wire_of(m);
    encode_utf8_valid_utf8(m.text_of());
    encode_utf8_decode_utf8(m.text_of());
    assert(b.subrange(33, b.len() as int) =~= encode_utf8(m.text_of()));
    assert(b.subrange(1, 33) =~= m.from_of());
    assert(b[0] == m.tag_of());
}

/// Relies on `String::from_utf8`: it succeeds exactly on valid UTF-8 and
/// returns the string whose UTF-8 encoding is the input bytes.
#[verifier::external_body]
fn bytes_to_string(bytes: Vec<u8>) -> (r: Option<String>)
    ensures
        r is Some <==> valid_utf8(bytes@),
        r matches Some(s) ==> encode_utf8(s@) == bytes@,
{
    String::from_utf8(bytes).ok()
}

impl Message {
    pub fn new(body: MessageBody) -> (r: Message)
        ensures
            r.body == body,
    {
        Message { body }
    }

    /// Encode for broadcast; infallible on well-formed envelopes.
    pub fn to_vec(&self) -> (r: Vec<u8>)
        requires
            self.body.wf(),
        ensures
            r@ == wire_of(self.body),
    {
        let (tag, from, text): (u8, &PeerId, &String) = match &self.body {
            MessageBody::AboutMe { from, name } => (ABOUT_ME_TAG, from, name),
            MessageBody::Message { from, text } => (CHAT_TAG, from, text),
        };
        let mut out: Vec<u8> = Vec::new();
        out.push(tag);
        let mut i: usize = 0;
        while i < from.bytes.len()
            invariant
                0 <= i <= from.bytes@.len(),
                out@ == seq![tag] + from.bytes@.take(i as int),
            decreases from.bytes@.len() - i,
        {
            out.push(from.bytes[i]);
            i += 1;
        }
        assert(out@ =~= seq![tag] + from.bytes@);
        let payload: &[u8] = text.as_str().as_bytes();
        let ghost head = out@;
        let mut j: usize = 0;
        while j < payload.len()
            invariant
                0 <= j <= payload@.len(),
                out@ == head + payload@.take(j as int),
            decreases payload@.len() - j,
        {
            out.push(payload[j]);
            j += 1;
        }
        proof {
            assert(payload@.take(payload@.len() as int) =~= payload@);
            assert(out@ =~= wire_of(self.body));
        }
        out
    }

    /// Decode a received payload; fails, without a partial result, on a
    /// truncated input, an unknown tag, or text that is not UTF-8.
    pub fn from_bytes(bytes: &Vec<u8>) -> (r: Result<Message, DecodeError>)
        ensures
            match parse_wire(bytes@) {
                Some(p) => r matches Ok(m) && m.body.wf() && m.body.tag_of() == p.0
                    && m.body.from_of() == p.1 && m.body.text_of() == p.2,
                None => r is Err,
            },
            r matches Ok(m) ==> m.body.wf(),
    {
        let n = bytes.len();
        if n < 33 {
            return Err(DecodeError::Structure);
        }
        let tag = bytes[0];
        if tag != ABOUT_ME_TAG && tag != CHAT_TAG {
            return Err(DecodeError::Structure);
        }
        let mut from: Vec<u8> = Vec::new();
        let mut i: usize = 1;
        while i < 33
            invariant
                1 <= i <= 33,
                bytes@.len() >= 33,
                from@ == bytes@.subrange(1, i as int),
            decreases 33 - i,
        {
            from.push(bytes[i]);
            proof {
                assert(bytes@.subrange(1, i + 1) =~= bytes@.subrange(1, i as int).push(
                    bytes@[i as int],
                ));
            }
            i += 1;
        }
        let mut payload: Vec<u8> = Vec::new();
        let mut j: usize = 33;
        while j < n
            invariant
                33 <= j <= n,
                n == bytes@.len(),
                payload@ == bytes@.subrange(33, j as int),
            decreases n - j,
        {
            payload.push(bytes[j]);
            proof {
                assert(bytes@.subrange(33, j + 1) =~= bytes@.subrange(33, j as int).push(
                    bytes@[j as int],
                ));
            }
            j += 1;
        }
        match bytes_to_string(payload) {
            None => Err(DecodeError::Utf8),
            Some(text) => {
                proof {
                    encode_utf8_decode_utf8(text@);
                }
                let sender = PeerId::new(from);
                if tag == ABOUT_ME_TAG {
                    Ok(Message { body: MessageBody::AboutMe { from: sender, name: text } })
                } else {
                    Ok(Message { body: MessageBody::Message { from: sender, text } })
                }
            },
        }
    }
}

} // verus!
