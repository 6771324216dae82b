//! Rendezvous-ticket codec: a ticket couples a 32-byte gossip topic with the
//! peer addresses known at creation time, and travels out-of-band as a
//! lower-case base-32 token.

use vstd::prelude::*;

use crate::error::DecodeError;
use crate::peer::PeerId;

verus! {

/// The canonical base-32 encoding of a byte string, in the RFC 4648
/// alphabet's own upper case.
pub uninterp spec fn b32_upper_of(bytes: Seq<u8>) -> Seq<char>;

/// ASCII lower-casing of one character: the upper-case letters fold, every
/// other character stays.
pub open spec fn fold_char(c: char) -> char {
    match c {
        'A' => 'a',
        'B' => 'b',
        'C' => 'c',
        'D' => 'd',
        'E' => 'e',
        'F' => 'f',
        'G' => 'g',
        'H' => 'h',
        'I' => 'i',
        'J' => 'j',
        'K' => 'k',
        'L' => 'l',
        'M' => 'm',
        'N' => 'n',
        'O' => 'o',
        'P' => 'p',
        'Q' => 'q',
        'R' => 'r',
        'S' => 's',
        'T' => 't',
        'U' => 'u',
        'V' => 'v',
        'W' => 'w',
        'X' => 'x',
        'Y' => 'y',
        'Z' => 'z',
        _ => c,
    }
}

/// ASCII lower-casing of a text.
pub open spec fn fold_lower(s: Seq<char>) -> Seq<char> {
    s.map_values(|c: char| fold_char(c))
}

/// The shareable token text for a byte string: the canonical base-32
/// encoding, lower-cased.
pub open spec fn b32_lower_of(bytes: Seq<u8>) -> Seq<char> {
    fold_lower(b32_upper_of(bytes))
}

/// Lower-casing is idempotent: a token already folded stays as it is.
pub proof fn lemma_fold_lower_idempotent(s: Seq<char>)
    ensures
        fold_lower(fold_lower(s)) == fold_lower(s),
{
    assert(fold_lower(fold_lower(s)) =~= fold_lower(s)) by {
        assert forall|i: int| 0 <= i < s.len() implies fold_lower(fold_lower(s))[i] == fold_lower(
            s,
        )[i] by {
            assert(fold_char(fold_char(s[i])) == fold_char(s[i]));
        }
    }
}

/// Characters the token decoder accepts: the base-32 alphabet `A`..`Z`,
/// `2`..`7`, in either case.
pub open spec fn is_base32_token_char(c: char) -> bool {
    (65 <= c as u32 && c as u32 <= 90)  // 'A'..'Z'
    || (97 <= c as u32 && c as u32 <= 122)  // 'a'..'z'
    || (50 <= c as u32 && c as u32 <= 55)  // '2'..'7'
}

/// Relies on `data_encoding::BASE32_NOPAD.encode` (RFC 4648 base 32 without
/// padding, upper-case alphabet; deterministic in the bytes alone) followed
/// by `str::make_ascii_lowercase`, which applies exactly the ASCII fold.
#[verifier::external_body]
fn base32_lower(bytes: &Vec<u8>) -> (r: String)
    ensures
        r@ == fold_lower(b32_upper_of(bytes@)),
{
    let mut text = data_encoding::BASE32_NOPAD.encode(bytes.as_slice());
    text.make_ascii_lowercase();
    text
}

/// Relies on `data_encoding::BASE32_NOPAD.decode` after
/// `str::to_ascii_uppercase`: the outcome depends only on the case-folded
/// token, since the input is upper-cased first; the decoder accepts exactly
/// the canonical encodings, recovering their bytes (and, the other way
/// round, succeeds only on a case variant of what it decodes to), and
/// rejects any character outside the base-32 alphabet.
#[verifier::external_body]
fn base32_lower_decode(token: &str) -> (r: Option<Vec<u8>>)
    ensures
        r is None ==> forall|b: Seq<u8>| fold_lower(token@) != #[trigger] b32_lower_of(b),
        r matches Some(v) ==> forall|b: Seq<u8>|
            fold_lower(token@) == #[trigger] b32_lower_of(b) ==> v@ == b,
        r matches Some(v) ==> fold_lower(token@) == b32_lower_of(v@),
        (exists|i: int| 0 <= i < token@.len() && !is_base32_token_char(token@[i])) ==> r is None,
{
    data_encoding::BASE32_NOPAD.decode(token.to_ascii_uppercase().as_bytes()).ok()
}

/// A rendezvous descriptor: a 32-byte topic plus the peer addresses known
/// when the ticket was made.
#[derive(Debug)]
pub struct Ticket {
    pub topic: Vec<u8>,
    pub endpoints: Vec<PeerId>,
}

/// Concatenation of peer-identifier byte strings, in order.
pub open spec fn cat_ids(ids: Seq<Seq<u8>>) -> Seq<u8>
    decreases ids.len(),
{
    if ids.len() == 0 {
        Seq::empty()
    } else {
        cat_ids(ids.drop_last()) + ids.last()
    }
}

/// The canonical byte form of a ticket: the topic, then each endpoint
/// identifier, each field a fixed 32 bytes so the layout is order-preserving
/// and self-delimiting.
pub open spec fn ticket_bytes(topic: Seq<u8>, ids: Seq<Seq<u8>>) -> Seq<u8> {
    topic + cat_ids(ids)
}

/// What the byte-level parser accepts: at least a topic, then whole 32-byte
/// endpoint records.
pub open spec fn parse_ticket_bytes(b: Seq<u8>) -> Option<(Seq<u8>, Seq<Seq<u8>>)> {
    if b.len() >= 32 && (b.len() - 32) % 32 == 0 {
        Some(
            (
                b.subrange(0, 32),
                Seq::new(
                    ((b.len() - 32) / 32) as nat,
                    |k: int| b.subrange(32 + 32 * k, 64 + 32 * k),
                ),
            ),
        )
    } else {
        None
    }
}

pub proof fn lemma_cat_ids_len(ids: Seq<Seq<u8>>)
    requires
        forall|i: int| 0 <= i < ids.len() ==> #[trigger] ids[i].len() == 32,
    ensures
        cat_ids(ids).len() == 32 * ids.len(),
    decreases ids.len(),
{
    if ids.len() > 0 {
        lemma_cat_ids_len(ids.drop_last());
    }
}

pub proof fn lemma_cat_ids_index(ids: Seq<Seq<u8>>, k: int)
    requires
        forall|i: int| 0 <= i < ids.len() ==> #[trigger] ids[i].len() == 32,
        0 <= k < ids.len(),
    ensures
        cat_ids(ids).subrange(32 * k, 32 * k + 32) == ids[k],
    decreases ids.len(),
{
    lemma_cat_ids_len(ids);
    if k == ids.len() - 1 {
        lemma_cat_ids_len(ids.drop_last());
        assert(cat_ids(ids).subrange(32 * k, 32 * k + 32) =~= ids.last());
    } else {
        lemma_cat_ids_index(ids.drop_last(), k);
        lemma_cat_ids_len(ids.drop_last());
        assert(cat_ids(ids).subrange(32 * k, 32 * k + 32) =~= cat_ids(ids.drop_last()).subrange(
            32 * k,
            32 * k + 32,
        ));
    }
}

/// Law: the byte-level ticket codec round-trips — parsing a serialized
/// ticket recovers the topic and every endpoint exactly.
pub proof fn lemma_ticket_round_trip(topic: Seq<u8>, ids: Seq<Seq<u8>>)
    requires
        topic.len() == 32,
        forall|i: int| 0 <= i < ids.len() ==> #[trigger] ids[i].len() == 32,
    ensures
        parse_ticket_bytes(ticket_bytes(topic, ids)) == Some((topic, ids)),
{
    let b = ticket_bytes(topic, ids);
    lemma_cat_ids_len(ids);
    assert(b.len() == 32 + 32 * ids.len());
    assert((b.len() - 32) % 32 == 0) by {
        assert(b.len() - 32 == 32 * ids.len());
        assert(32 * ids.len() % 32 == 0) by (nonlinear_arith);
    }
    let parsed = parse_ticket_bytes(b).unwrap();
    assert(parsed.0 =~= topic);
    assert((b.len() - 32) / 32 == ids.len()) by {
        assert(b.len() - 32 == 32 * ids.len());
        assert(32 * ids.len() / 32 == ids.len()) by (nonlinear_arith);
    }
    assert forall|k: int| 0 <= k < ids.len() implies parsed.1[k] == ids[k] by {
        lemma_cat_ids_index(ids, k);
        assert(b.subrange(32 + 32 * k, 64 + 32 * k) =~= cat_ids(ids).subrange(
            32 * k,
            32 * k + 32,
        ));
    }
    assert(parsed.1 =~= ids);
}

/// The byte-level parser accepts nothing else: what it produces serializes
/// back to exactly the bytes given.
pub proof fn lemma_ser_after_parse(b: Seq<u8>)
    ensures
        match parse_ticket_bytes(b) {
            Some(p) => ticket_bytes(p.0, p.1) == b,
            None => true,
        },
{
    if parse_ticket_bytes(b) is Some {
        let p = parse_ticket_bytes(b).unwrap();
        let ids = p.1;
        let n = ids.len() as int;
        lemma_cat_ids_len(ids);
        vstd::arithmetic::div_mod::lemma_fundamental_div_mod((b.len() - 32) as int, 32);
        assert(cat_ids(ids).len() == b.len() - 32);
        assert(ticket_bytes(p.0, ids) =~= b) by {
            assert forall|i: int| 0 <= i < b.len() implies ticket_bytes(p.0, ids)[i] == b[i] by {
                if i >= 32 {
                    vstd::arithmetic::div_mod::lemma_fundamental_div_mod(i - 32, 32);
                    let k = (i - 32) / 32;
                    let j = (i - 32) % 32;
                    lemma_cat_ids_index(ids, k);
                    assert(cat_ids(ids)[32 * k + j] == cat_ids(ids).subrange(
                        32 * k,
                        32 * k + 32,
                    )[j]);
                    assert(ids[k][j] == b.subrange(32 + 32 * k, 64 + 32 * k)[j]);
                }
            }
        }
    }
}

impl Ticket {
    /// Well-formed tickets carry a 32-byte topic and well-formed endpoints.
    pub open spec fn wf(&self) -> bool {
        &&& self.topic@.len() == 32
        &&& forall|i: int| 0 <= i < self.endpoints@.len() ==> (#[trigger] self.endpoints@[i]).wf()
    }

    /// The endpoint identifiers as byte strings.
    pub open spec fn ids(&self) -> Seq<Seq<u8>> {
        self.endpoints@.map_values(|p: PeerId| p.bytes@)
    }

    /// Serialize to the canonical byte form.
    pub fn to_bytes(&self) -> (r: Vec<u8>)
        requires
            self.wf(),
        ensures
            r@ == ticket_bytes(self.topic@, self.ids()),
    {
        let mut out: Vec<u8> = Vec::new();
        let mut i: usize = 0;
        while i < self.topic.len()
            invariant
                0 <= i <= self.topic@.len(),
                out@ == self.topic@.take(i as int),
            decreases self.topic@.len() - i,
        {
            out.push(self.topic[i]);
            i += 1;
        }
        assert(out@ =~= self.topic@);
        let mut k: usize = 0;
        while k < self.endpoints.len()
            invariant
                0 <= k <= self.endpoints@.len(),
                self.wf(),
                self.ids().len() == self.endpoints@.len(),
                forall|i: int|
                    0 <= i < self.endpoints@.len() ==> #[trigger] self.ids()[i]
                        == self.endpoints@[i].bytes@,
                out@ == self.topic@ + cat_ids(self.ids().take(k as int)),
            decreases self.endpoints@.len() - k,
        {
            let ghost pre = out@;
            let ep = &self.endpoints[k];
            let mut j: usize = 0;
            while j < ep.bytes.len()
                invariant
                    0 <= j <= ep.bytes@.len(),
                    out@ == pre + ep.bytes@.take(j as int),
                decreases ep.bytes@.len() - j,
            {
                out.push(ep.bytes[j]);
                j += 1;
            }
            proof {
                assert(ep.bytes@.take(ep.bytes@.len() as int) =~= ep.bytes@);
                assert(self.ids().take(k + 1).drop_last() =~= self.ids().take(k as int));
                assert(self.ids().take(k + 1).last() == self.ids()[k as int]);
                assert(cat_ids(self.ids().take(k + 1)) == cat_ids(self.ids().take(k as int))
                    + self.endpoints@[k as int].bytes@);
                assert(out@ =~= self.topic@ + cat_ids(self.ids().take(k + 1)));
            }
            k += 1;
        }
        proof {
            assert(self.ids().take(self.ids().len() as int) =~= self.ids());
        }
        out
    }

    /// Parse the canonical byte form; fails on any byte string that is not
    /// the serialization of some ticket.
    pub fn from_bytes(bytes: &Vec<u8>) -> (r: Result<Ticket, DecodeError>)
        ensures
            match parse_ticket_bytes(bytes@) {
                Some(p) => r matches Ok(t) && t.wf() && t.topic@ == p.0 && t.ids() == p.1,
                None => r == Err::<Ticket, DecodeError>(DecodeError::Structure),
            },
    {
        let n = bytes.len();
        if n < 32 {
            return Err(DecodeError::Structure);
        }
        if (n - 32) % 32 != 0 {
            return Err(DecodeError::Structure);
        }
        let mut topic: Vec<u8> = Vec::new();
        let mut i: usize = 0;
        while i < 32
            invariant
                0 <= i <= 32,
                bytes@.len() >= 32,
                topic@ == bytes@.take(i as int),
            decreases 32 - i,
        {
            topic.push(bytes[i]);
            i += 1;
        }
        assert(topic@ =~= bytes@.subrange(0, 32));
        let count = (n - 32) / 32;
        proof {
            vstd::arithmetic::div_mod::lemma_fundamental_div_mod((n - 32) as int, 32);
        }
        let mut endpoints: Vec<PeerId> = Vec::new();
        let mut k: usize = 0;
        while k < count
            invariant
                0 <= k <= count,
                count == (bytes@.len() - 32) / 32,
                n == bytes@.len(),
                32 * count + 32 == n,
                bytes@.len() >= 32,
                (bytes@.len() - 32) % 32 == 0,
                endpoints@.len() == k,
                forall|i: int|
                    0 <= i < k ==> (#[trigger] endpoints@[i]).wf() && endpoints@[i].bytes@
                        == bytes@.subrange(32 + 32 * i, 64 + 32 * i),
            decreases count - k,
        {
            proof {
                assert(32 * count == bytes@.len() - 32);
                assert(32 * k + 32 <= 32 * count) by (nonlinear_arith)
                    requires
                        k < count,
                ;
            }
            let base = 32 + 32 * k;
            let mut id: Vec<u8> = Vec::new();
            let mut j: usize = 0;
            while j < 32
                invariant
                    0 <= j <= 32,
                    base == 32 + 32 * k,
                    base + 32 <= bytes@.len(),
                    id@ == bytes@.subrange(base as int, base + j as int),
                decreases 32 - j,
            {
                id.push(bytes[base + j]);
                proof {
                    assert(bytes@.subrange(base as int, base + j + 1) =~= bytes@.subrange(
                        base as int,
                        base + j as int,
                    ).push(bytes@[base + j]));
                }
                j += 1;
            }
            endpoints.push(PeerId::new(id));
            k += 1;
        }
        let t = Ticket { topic, endpoints };
        proof {
            let p = parse_ticket_bytes(bytes@).unwrap();
            assert(t.ids() =~= p.1) by {
                assert(t.ids().len() == count);
                assert(p.1.len() == count);
                assert forall|i: int| 0 <= i < count implies t.ids()[i] == p.1[i] by {
                    assert(t.ids()[i] == t.endpoints@[i].bytes@);
                }
            }
        }
        Ok(t)
    }

    /// Encode to the shareable token: canonical bytes, base-32, lower case.
    pub fn to_token(&self) -> (r: String)
        requires
            self.wf(),
        ensures
            r@ == b32_lower_of(ticket_bytes(self.topic@, self.ids())),
    {
        let bytes = self.to_bytes();
        base32_lower(&bytes)
    }

    /// Decode a token back into a ticket.
    ///
    /// Any token that `to_token` produces for a well-formed ticket decodes to
    /// a ticket with the same topic and endpoints, and decoding is
    /// case-insensitive: every ASCII case variant of such a token decodes the
    /// same way. A token outside the base-32 alphabet, or whose bytes do not
    /// have the ticket shape, is rejected with the layer's error.
    pub fn from_token(token: &str) -> (r: Result<Ticket, DecodeError>)
        ensures
            forall|topic: Seq<u8>, ids: Seq<Seq<u8>>|
                (topic.len() == 32 && (forall|i: int|
                    0 <= i < ids.len() ==> #[trigger] ids[i].len() == 32) && fold_lower(token@)
                    == #[trigger] b32_lower_of(ticket_bytes(topic, ids))) ==> (r matches Ok(t)
                    && t.wf() && t.topic@ == topic && t.ids() == ids),
            forall|topic: Seq<u8>, ids: Seq<Seq<u8>>|
                (topic.len() == 32 && (forall|i: int|
                    0 <= i < ids.len() ==> #[trigger] ids[i].len() == 32) && token@
                    == #[trigger] b32_lower_of(ticket_bytes(topic, ids))) ==> (r matches Ok(t)
                    && t.wf() && t.topic@ == topic && t.ids() == ids),
            forall|b: Seq<u8>|
                (fold_lower(token@) == #[trigger] b32_lower_of(b) && parse_ticket_bytes(b)
                    is None) ==> r == Err::<Ticket, DecodeError>(DecodeError::Structure),
            forall|b: Seq<u8>|
                (token@ == #[trigger] b32_lower_of(b) && parse_ticket_bytes(b) is None) ==> r
                    == Err::<Ticket, DecodeError>(DecodeError::Structure),
            (exists|i: int| 0 <= i < token@.len() && !is_base32_token_char(token@[i])) ==> r
                == Err::<Ticket, DecodeError>(DecodeError::Base32),
            (forall|b: Seq<u8>| fold_lower(token@) != #[trigger] b32_lower_of(b)) ==> r
                == Err::<Ticket, DecodeError>(DecodeError::Base32),
            r matches Ok(t) ==> t.wf() && fold_lower(token@) == b32_lower_of(
                ticket_bytes(t.topic@, t.ids()),
            ),
    {
        proof {
            assert forall|b: Seq<u8>|
                token@ == #[trigger] b32_lower_of(b) implies fold_lower(token@) == b32_lower_of(
                b,
            ) by {
                lemma_fold_lower_idempotent(b32_upper_of(b));
            }
        }
        match base32_lower_decode(token) {
            None => Err(DecodeError::Base32),
            Some(bytes) => {
                let res = Self::from_bytes(&bytes);
                proof {
                    lemma_ser_after_parse(bytes@);
                    assert forall|topic: Seq<u8>, ids: Seq<Seq<u8>>|
                        (topic.len() == 32 && (forall|i: int|
                            0 <= i < ids.len() ==> #[trigger] ids[i].len() == 32) && fold_lower(
                            token@,
                        ) == #[trigger] b32_lower_of(
                            ticket_bytes(topic, ids),
                        )) implies (res matches Ok(t) && t.wf() && t.topic@ == topic && t.ids()
                        == ids) by {
                        lemma_ticket_round_trip(topic, ids);
                    }
                    assert forall|b: Seq<u8>|
                        (fold_lower(token@) == #[trigger] b32_lower_of(b) && parse_ticket_bytes(
                            b,
                        ) is None) implies res == Err::<Ticket, DecodeError>(
                        DecodeError::Structure,
                    ) by {}
                }
                match res {
                    Ok(t) => Ok(t),
                    Err(_) => Err(DecodeError::Structure),
                }
            },
        }
    }
}

} // verus!
