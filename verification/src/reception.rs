//! Receive-side session state: the identity resolver, populated from
//! announcements, and the rendering of each delivered payload.

use vstd::prelude::*;

use crate::message::ABOUT_ME_TAG;
use crate::message::CHAT_TAG;
use crate::message::Message;
use crate::message::MessageBody;
use crate::message::parse_wire;
use crate::peer::bytes_eq;
use crate::peer::copy_bytes;

verus! {

/// The hexadecimal digit for a nibble.
pub open spec fn hex_digit(n: u8) -> char {
    seq!['0', '1', '2', '3', '4', '5', '6', '7', '8', '9', 'a', 'b', 'c', 'd', 'e', 'f'][(n
        % 16) as int]
}

/// The short textual rendering of a peer identifier: the first five bytes in
/// lower-case hexadecimal, ten characters, never empty.
pub open spec fn short_hex(bytes: Seq<u8>) -> Seq<char> {
    Seq::new(
        10,
        |i: int|
            if i % 2 == 0 {
                hex_digit(bytes[i / 2] >> 4)
            } else {
                hex_digit(bytes[i / 2] & 0xf)
            },
    )
}

fn hex_char_str(n: u8) -> (s: &'static str)
    requires
        n < 16,
    ensures
        s@ == seq![hex_digit(n)],
{
    proof {
        reveal_strlit("0");
        reveal_strlit("1");
        reveal_strlit("2");
        reveal_strlit("3");
        reveal_strlit("4");
        reveal_strlit("5");
        reveal_strlit("6");
        reveal_strlit("7");
        reveal_strlit("8");
        reveal_strlit("9");
        reveal_strlit("a");
        reveal_strlit("b");
        reveal_strlit("c");
        reveal_strlit("d");
        reveal_strlit("e");
        reveal_strlit("f");
    }
    match n {
        0 => "0",
        1 => "1",
        2 => "2",
        3 => "3",
        4 => "4",
        5 => "5",
        6 => "6",
        7 => "7",
        8 => "8",
        9 => "9",
        10 => "a",
        11 => "b",
        12 => "c",
        13 => "d",
        14 => "e",
        _ => "f",
    }
}

/// Render the short fallback identifier for an unannounced peer.
pub fn short_hex_of(bytes: &Vec<u8>) -> (r: String)
    requires
        bytes@.len() >= 5,
    ensures
        r@ == short_hex(bytes@),
        r@.len() == 10,
{
    let mut out = String::new();
    let mut k: usize = 0;
    while k < 5
        invariant
            0 <= k <= 5,
            bytes@.len() >= 5,
            out@ == short_hex(bytes@).take(2 * k),
        decreases 5 - k,
    {
        let bk = bytes[k];
        let hi = bk >> 4;
        let lo = bk & 0xf;
        proof {
            assert(hi < 16 && lo < 16) by (bit_vector)
                requires
                    hi == bk >> 4,
                    lo == bk & 0xf,
            ;
        }
        out.append(hex_char_str(hi));
        out.append(hex_char_str(lo));
        proof {
            assert(out@ =~= short_hex(bytes@).take(2 * (k + 1)));
        }
        k += 1;
    }
    assert(out@ =~= short_hex(bytes@));
    out
}

/// The resolver's logical content: the display name most recently announced
/// for a key, if any.
pub open spec fn lookup(entries: Seq<(Vec<u8>, String)>, key: Seq<u8>) -> Option<Seq<char>>
    decreases entries.len(),
{
    if entries.len() == 0 {
        None
    } else if entries.last().0@ == key {
        Some(entries.last().1@)
    } else {
        lookup(entries.drop_last(), key)
    }
}

/// Law: announcing a name binds exactly its own key — after an insertion the
/// inserted key resolves to the new name and every other key as before.
pub proof fn lemma_lookup_insert(entries: Seq<(Vec<u8>, String)>, e: (Vec<u8>, String), key: Seq<u8>)
    ensures
        lookup(entries.push(e), key) == if e.0@ == key {
            Some(e.1@)
        } else {
            lookup(entries, key)
        },
{
    assert(entries.push(e).drop_last() =~= entries);
    assert(entries.push(e).last() == e);
}

/// In-memory, per-session map from peer identifier to display name; empty at
/// session start, written only by announcement processing, never pruned.
pub struct Resolver {
    pub entries: Vec<(Vec<u8>, String)>,
}

/// What processing one delivered payload produced.
#[derive(Debug)]
pub enum Rendered {
    /// An announcement: the peer is now known by this name.
    Announced { peer: Vec<u8>, name: String },
    /// A chat line, attributed to the sender's resolved or fallback name.
    Chat { name: String, text: String },
    /// A payload that did not decode; the session continues.
    Malformed,
}

impl Resolver {
    pub fn new() -> (r: Resolver)
        ensures
            r.entries@.len() == 0,
    {
        Resolver { entries: Vec::new() }
    }

    /// The name a key currently resolves to.
    pub fn get(&self, key: &Vec<u8>) -> (r: Option<String>)
        ensures
            match lookup(self.entries@, key@) {
                Some(name) => r matches Some(s) && s@ == name,
                None => r is None,
            },
    {
        let mut idx: usize = self.entries.len();
        proof {
            assert(self.entries@.take(idx as int) =~= self.entries@);
        }
        while idx > 0
            invariant
                0 <= idx <= self.entries@.len(),
                lookup(self.entries@, key@) == lookup(self.entries@.take(idx as int), key@),
            decreases idx,
        {
            idx -= 1;
            proof {
                assert(self.entries@.take(idx + 1).drop_last() =~= self.entries@.take(idx as int));
                assert(self.entries@.take(idx + 1).last() == self.entries@[idx as int]);
            }
            if bytes_eq(&self.entries[idx].0, key) {
                return Some(self.entries[idx].1.clone());
            }
        }
        assert(self.entries@.take(0) =~= Seq::<(Vec<u8>, String)>::empty());
        None
    }

    /// Insert or overwrite the name announced for a key.
    pub fn insert(&mut self, key: Vec<u8>, name: String)
        ensures
            final(self).entries@ == old(self).entries@.push((key, name)),
    {
        self.entries.push((key, name));
    }

    /// Process one delivered payload: decode it, record an announcement, or
    /// attribute a chat line; a payload that does not decode is reported and
    /// the state is left unchanged, so one malformed message never ends the
    /// session.
    pub fn handle_frame(&mut self, bytes: &Vec<u8>) -> (r: Rendered)
        ensures
            match parse_wire(bytes@) {
                None => r is Malformed && final(self).entries@ == old(self).entries@,
                Some(p) => if p.0 == ABOUT_ME_TAG {
                    &&& final(self).entries@.len() == old(self).entries@.len() + 1
                    &&& final(self).entries@.drop_last() == old(self).entries@
                    &&& final(self).entries@.last().0@ == p.1
                    &&& final(self).entries@.last().1@ == p.2
                    &&& r matches Rendered::Announced { peer, name } && peer@ == p.1 && name@
                        == p.2
                } else {
                    &&& final(self).entries@ == old(self).entries@
                    &&& r matches Rendered::Chat { name, text } && text@ == p.2 && match lookup(
                        old(self).entries@,
                        p.1,
                    ) {
                        Some(n) => name@ == n,
                        None => name@ == short_hex(p.1) && name@.len() == 10,
                    }
                },
            },
    {
        match Message::from_bytes(bytes) {
            Err(_) => Rendered::Malformed,
            Ok(m) => match m.body {
                MessageBody::AboutMe { from, name } => {
                    let peer = copy_bytes(&from.bytes);
                    let shown = name.clone();
                    self.insert(from.bytes, name);
                    proof {
                        assert(self.entries@.drop_last() =~= old(self).entries@);
                    }
                    Rendered::Announced { peer, name: shown }
                },
                MessageBody::Message { from, text } => {
                    match self.get(&from.bytes) {
                        Some(n) => Rendered::Chat { name: n, text },
                        None => Rendered::Chat { name: short_hex_of(&from.bytes), text },
                    }
                },
            },
        }
    }
}

} // verus!
