//! Group directory: create a group with a fresh topic and persist its
//! ticket; resolve a human-entered group name to a persisted group,
//! disambiguating by owner display name when several groups share the name.

use vstd::prelude::*;

use crate::error::DecodeError;
use crate::key::random_bytes32;
use crate::peer::PeerId;
use crate::peer::copy_bytes;
use crate::store::GroupRecord;
use crate::store::Store;
use crate::store::StoreError;
use crate::store::UserRecord;
use crate::store::find_by_id;
use crate::store::find_by_ticket;
use crate::ticket::Ticket;
use crate::ticket::b32_lower_of;
use crate::ticket::ticket_bytes;

verus! {

/// Why a group name failed to resolve to a topic.
#[derive(Debug, Clone, Copy, PartialEq, Eq)]
pub enum ResolutionError {
    /// No persisted group has this name.
    NotFound,
    /// Several groups have this name and no owner was chosen.
    Ambiguous,
    /// The chosen owner owns none of the groups with this name.
    UnknownOwner,
    /// The stored ticket token did not decode.
    Decode(DecodeError),
}

/// A query row: a group joined with its owner's display name.
#[derive(Debug)]
pub struct GroupWithOwner {
    pub name: String,
    pub ticket: String,
    pub owner_name: String,
}

/// The display name of the user a group row references; empty only if the
/// reference is dangling, which the store's invariant rules out.
pub open spec fn owner_name_of(users: Seq<UserRecord>, id: u64) -> Seq<char> {
    match find_by_id(users, id) {
        Some(u) => u.name@,
        None => Seq::empty(),
    }
}

/// The group rows whose name equals the query, in table order.
pub open spec fn matching(groups: Seq<GroupRecord>, name: Seq<char>) -> Seq<GroupRecord>
    decreases groups.len(),
{
    if groups.len() == 0 {
        Seq::empty()
    } else {
        matching(groups.drop_last(), name) + if groups.last().name@ == name {
            seq![groups.last()]
        } else {
            Seq::empty()
        }
    }
}

/// The first of the rows owned by the user with the given display name.
pub open spec fn first_owned(
    groups: Seq<GroupRecord>,
    users: Seq<UserRecord>,
    owner: Seq<char>,
) -> Option<GroupRecord>
    decreases groups.len(),
{
    if groups.len() == 0 {
        None
    } else if owner_name_of(users, groups.first().owner) == owner {
        Some(groups.first())
    } else {
        first_owned(groups.drop_first(), users, owner)
    }
}

pub proof fn lemma_first_owned_at(
    groups: Seq<GroupRecord>,
    users: Seq<UserRecord>,
    owner: Seq<char>,
    i: int,
)
    requires
        0 <= i < groups.len(),
        owner_name_of(users, groups[i].owner) == owner,
        forall|j: int| 0 <= j < i ==> owner_name_of(users, (#[trigger] groups[j]).owner) != owner,
    ensures
        first_owned(groups, users, owner) == Some(groups[i]),
    decreases groups.len(),
{
    if i > 0 {
        assert(groups[0] == groups.first());
        lemma_first_owned_at(groups.drop_first(), users, owner, i - 1);
        assert(groups.drop_first()[i - 1] == groups[i]);
        assert forall|j: int| 0 <= j < i - 1 implies owner_name_of(
            users,
            (#[trigger] groups.drop_first()[j]).owner,
        ) != owner by {
            assert(groups.drop_first()[j] == groups[j + 1]);
        }
    }
}

pub proof fn lemma_first_owned_none(
    groups: Seq<GroupRecord>,
    users: Seq<UserRecord>,
    owner: Seq<char>,
)
    requires
        forall|j: int| 0 <= j < groups.len() ==> owner_name_of(
            users,
            (#[trigger] groups[j]).owner,
        ) != owner,
    ensures
        first_owned(groups, users, owner) is None,
    decreases groups.len(),
{
    if groups.len() > 0 {
        assert(groups[0] == groups.first());
        lemma_first_owned_none(groups.drop_first(), users, owner);
    }
}

/// The persisted groups with this name, joined with their owners' display
/// names, in table order.
pub fn find_groups(store: &Store, name: &String) -> (r: Vec<GroupWithOwner>)
    requires
        store.wf(),
    ensures
        r@.len() == matching(store.groups@, name@).len(),
        forall|k: int|
            0 <= k < r@.len() ==> {
                let g = matching(store.groups@, name@)[k];
                (#[trigger] r@[k]).name@ == g.name@ && r@[k].ticket@ == g.ticket@
                    && r@[k].owner_name@ == owner_name_of(store.users@, g.owner)
            },
    {
        let mut out: Vec<GroupWithOwner> = Vec::new();
        let mut i: usize = 0;
        proof {
            assert(store.groups@.take(0) =~= Seq::<GroupRecord>::empty());
        }
        while i < store.groups.len()
            invariant
                0 <= i <= store.groups@.len(),
                store.wf(),
                out@.len() == matching(store.groups@.take(i as int), name@).len(),
                forall|k: int|
                    0 <= k < out@.len() ==> {
                        let g = matching(store.groups@.take(i as int), name@)[k];
                        (#[trigger] out@[k]).name@ == g.name@ && out@[k].ticket@ == g.ticket@
                            && out@[k].owner_name@ == owner_name_of(store.users@, g.owner)
                    },
            decreases store.groups@.len() - i,
        {
            proof {
                assert(store.groups@.take(i + 1).drop_last() =~= store.groups@.take(i as int));
                assert(store.groups@.take(i + 1).last() == store.groups@[i as int]);
            }
            if store.groups[i].name == *name {
                let owner_row = match store.find_user_by_id(store.groups[i].owner) {
                    Some(u) => u,
                    None => {
                        proof {
                            assert(false);
                        }
                        vstd::pervasive::unreached()
                    },
                };
                out.push(
                    GroupWithOwner {
                        name: store.groups[i].name.clone(),
                        ticket: store.groups[i].ticket.clone(),
                        owner_name: owner_row.name.clone(),
                    },
                );
            }
            i += 1;
        }
        proof {
            assert(store.groups@.take(store.groups@.len() as int) =~= store.groups@);
        }
        out
    }

/// The first row whose owner display name matches the chosen one; in table
/// order, so the earliest-created such group wins.
pub fn select_by_owner(rows: &Vec<GroupWithOwner>, owner: &String) -> (r: Option<usize>)
    ensures
        match r {
            Some(i) => 0 <= i < rows@.len() && rows@[i as int].owner_name@ == owner@ && forall|
                j: int,
            | 0 <= j < i ==> (#[trigger] rows@[j]).owner_name@ != owner@,
            None => forall|j: int| 0 <= j < rows@.len() ==> (#[trigger] rows@[j]).owner_name@
                != owner@,
        },
{
    let mut i: usize = 0;
    while i < rows.len()
        invariant
            0 <= i <= rows@.len(),
            forall|j: int| 0 <= j < i ==> (#[trigger] rows@[j]).owner_name@ != owner@,
        decreases rows@.len() - i,
    {
        if rows[i].owner_name == *owner {
            return Some(i);
        }
        i += 1;
    }
    None
}

/// Whether the pieces make a well-formed serialized ticket.
pub open spec fn wf_ticket_parts(topic: Seq<u8>, ids: Seq<Seq<u8>>) -> bool {
    topic.len() == 32 && (forall|i: int| 0 <= i < ids.len() ==> (#[trigger] ids[i]).len() == 32)
}

/// Create a group: draw a fresh random 32-byte topic, build a ticket whose
/// endpoints are exactly the creating process's own address, persist the row
/// and return the topic with the shareable token. Fails with `NoSuchOwner`
/// when the owner references no user, and with `TicketTaken` should the
/// fresh token collide with a persisted one; the store is then unchanged.
pub fn create_group(store: &mut Store, name: String, owner: u64, me: &PeerId) -> (r: Result<
    (Vec<u8>, String),
    StoreError,
>)
    requires
        old(store).wf(),
        old(store).next_group_id < u64::MAX,
        me.wf(),
    ensures
        final(store).wf(),
        final(store).users@ == old(store).users@,
        find_by_id(old(store).users@, owner) is None <==> r == Err::<
            (Vec<u8>, String),
            StoreError,
        >(StoreError::NoSuchOwner),
        r is Err ==> *final(store) == *old(store) && (r == Err::<(Vec<u8>, String), StoreError>(
            StoreError::NoSuchOwner,
        ) || r == Err::<(Vec<u8>, String), StoreError>(StoreError::TicketTaken)),
        r == Err::<(Vec<u8>, String), StoreError>(StoreError::TicketTaken) ==> exists|tp: Seq<u8>|
            tp.len() == 32 && find_by_ticket(
                old(store).groups@,
                #[trigger] b32_lower_of(ticket_bytes(tp, seq![me.bytes@])),
            ) is Some,
        final(store).next_user_id == old(store).next_user_id,
        r matches Ok(p) ==> {
            &&& final(store).next_group_id == old(store).next_group_id + 1
            &&& p.0@.len() == 32
            &&& p.1@ == b32_lower_of(ticket_bytes(p.0@, seq![me.bytes@]))
            &&& final(store).groups@.len() == old(store).groups@.len() + 1
            &&& final(store).groups@.drop_last() == old(store).groups@
            &&& final(store).groups@.last().name@ == name@
            &&& final(store).groups@.last().ticket@ == p.1@
            &&& final(store).groups@.last().owner == owner
            &&& final(store).next_user_id == old(store).next_user_id
        },
{
    let topic = random_bytes32();
    let ticket = Ticket {
        topic: copy_bytes(&topic),
        endpoints: vec![PeerId::new(copy_bytes(&me.bytes))],
    };
    proof {
        assert(ticket.ids() =~= seq![me.bytes@]);
    }
    let token = ticket.to_token();
    let token_ret = token.clone();
    match store.insert_group(name, token, owner) {
        Ok(_) => Ok((topic, token_ret)),
        Err(e) => {
            proof {
                if e == StoreError::TicketTaken {
                    assert(topic@.len() == 32 && find_by_ticket(
                        old(store).groups@,
                        b32_lower_of(ticket_bytes(topic@, seq![me.bytes@])),
                    ) is Some);
                }
            }
            Err(e)
        },
    }
}

/// Resolve a group name to the 32-byte topic to subscribe to, decoding the
/// persisted token; with several same-named groups the chosen owner's
/// earliest group is taken. The endpoints carried in the stored ticket are
/// deliberately discarded: the joining peer starts with no known peers and
/// relies on transport-level discovery, since a stored endpoint list
/// reflects the creator's address at creation time.
pub fn resolve(store: &Store, name: &String, chosen_owner: Option<&String>) -> (r: Result<
    Vec<u8>,
    ResolutionError,
>)
    requires
        store.wf(),
    ensures
        matching(store.groups@, name@).len() == 0 <==> r == Err::<Vec<u8>, ResolutionError>(
            ResolutionError::NotFound,
        ),
        r matches Ok(tv) ==> tv@.len() == 32,
        matching(store.groups@, name@).len() == 1 ==> {
            &&& forall|topic: Seq<u8>, ids: Seq<Seq<u8>>|
                (wf_ticket_parts(topic, ids) && matching(store.groups@, name@)[0].ticket@
                    == #[trigger] b32_lower_of(ticket_bytes(topic, ids))) ==> (r matches Ok(tv)
                    && tv@ == topic)
            &&& (r is Ok || r matches Err(ResolutionError::Decode(_)))
        },
        matching(store.groups@, name@).len() > 1 ==> match chosen_owner {
            None => r == Err::<Vec<u8>, ResolutionError>(ResolutionError::Ambiguous),
            Some(o) => match first_owned(matching(store.groups@, name@), store.users@, o@) {
                None => r == Err::<Vec<u8>, ResolutionError>(ResolutionError::UnknownOwner),
                Some(g) => {
                    &&& forall|topic: Seq<u8>, ids: Seq<Seq<u8>>|
                        (wf_ticket_parts(topic, ids) && g.ticket@ == #[trigger] b32_lower_of(
                            ticket_bytes(topic, ids),
                        )) ==> (r matches Ok(tv) && tv@ == topic)
                    &&& (r is Ok || r matches Err(ResolutionError::Decode(_)))
                },
            },
        },
{
    let ghost m = matching(store.groups@, name@);
    let rows = find_groups(store, name);
    if rows.len() == 0 {
        return Err(ResolutionError::NotFound);
    }
    let idx: usize = if rows.len() == 1 {
        0
    } else {
        match chosen_owner {
            None => {
                return Err(ResolutionError::Ambiguous);
            },
            Some(o) => {
                match select_by_owner(&rows, o) {
                    None => {
                        proof {
                            assert forall|j: int| 0 <= j < m.len() implies owner_name_of(
                                store.users@,
                                (#[trigger] m[j]).owner,
                            ) != o@ by {
                                assert(rows@[j].owner_name@ == owner_name_of(
                                    store.users@,
                                    m[j].owner,
                                ));
                            }
                            lemma_first_owned_none(m, store.users@, o@);
                        }
                        return Err(ResolutionError::UnknownOwner);
                    },
                    Some(i) => {
                        proof {
                            assert forall|j: int| 0 <= j < i implies owner_name_of(
                                store.users@,
                                (#[trigger] m[j]).owner,
                            ) != o@ by {
                                assert(rows@[j].owner_name@ == owner_name_of(
                                    store.users@,
                                    m[j].owner,
                                ));
                            }
                            assert(rows@[i as int].owner_name@ == owner_name_of(
                                store.users@,
                                m[i as int].owner,
                            ));
                            lemma_first_owned_at(m, store.users@, o@, i as int);
                        }
                        i
                    },
                }
            },
        }
    };
    let ghost sel = m[idx as int];
    assert(rows@[idx as int].ticket@ == sel.ticket@);
    match Ticket::from_token(rows[idx].ticket.as_str()) {
        Ok(t) => Ok(t.topic),
        Err(e) => Err(ResolutionError::Decode(e)),
    }
}

} // verus!
