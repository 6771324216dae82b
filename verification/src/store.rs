//! The logical persisted schema: the user and group tables with their
//! uniqueness and referential invariants, and single-statement inserts and
//! lookups over them.

use vstd::prelude::*;

use crate::peer::copy_bytes;

verus! {

/// A persisted user row; immutable after registration.
#[derive(Debug)]
pub struct UserRecord {
    pub id: u64,
    pub name: String,
    /// Unique across all users.
    pub phone_no: u64,
    /// The password hash, in the hashing primitive's text form.
    pub password: String,
    /// Generated at registration; its consumer is outside this layer.
    pub secret_key: Vec<u8>,
    pub admin: bool,
}

/// A persisted group row; never mutated after creation.
#[derive(Debug)]
pub struct GroupRecord {
    pub id: u64,
    pub name: String,
    /// The serialized rendezvous token; unique across all groups.
    pub ticket: String,
    /// References an existing user row.
    pub owner: u64,
}

/// Constraint violations and primitive failures an insert can report.
#[derive(Debug, Clone, Copy, PartialEq, Eq)]
pub enum StoreError {
    /// A user with this phone number already exists.
    PhoneTaken,
    /// A group with this ticket token already exists.
    TicketTaken,
    /// The group's owner references no user row.
    NoSuchOwner,
    /// The external password-hashing primitive reported an error.
    Hash,
}

/// First user row with the given phone number.
pub open spec fn find_by_phone(users: Seq<UserRecord>, phone: u64) -> Option<UserRecord>
    decreases users.len(),
{
    if users.len() == 0 {
        None
    } else if users.first().phone_no == phone {
        Some(users.first())
    } else {
        find_by_phone(users.drop_first(), phone)
    }
}

/// First user row with the given identifier.
pub open spec fn find_by_id(users: Seq<UserRecord>, id: u64) -> Option<UserRecord>
    decreases users.len(),
{
    if users.len() == 0 {
        None
    } else if users.first().id == id {
        Some(users.first())
    } else {
        find_by_id(users.drop_first(), id)
    }
}

/// First group row with the given ticket token.
pub open spec fn find_by_ticket(groups: Seq<GroupRecord>, token: Seq<char>) -> Option<GroupRecord>
    decreases groups.len(),
{
    if groups.len() == 0 {
        None
    } else if groups.first().ticket@ == token {
        Some(groups.first())
    } else {
        find_by_ticket(groups.drop_first(), token)
    }
}

pub proof fn lemma_find_by_phone(users: Seq<UserRecord>, phone: u64)
    ensures
        match find_by_phone(users, phone) {
            Some(u) => u.phone_no == phone && exists|i: int|
                0 <= i < users.len() && users[i] == u,
            None => forall|i: int| 0 <= i < users.len() ==> (#[trigger] users[i]).phone_no != phone,
        },
    decreases users.len(),
{
    if users.len() == 0 {
    } else if users.first().phone_no == phone {
        assert(users[0] == users.first());
    } else {
        lemma_find_by_phone(users.drop_first(), phone);
        match find_by_phone(users, phone) {
            Some(u) => {
                let i = choose|i: int|
                    0 <= i < users.drop_first().len() && users.drop_first()[i] == u;
                assert(users[i + 1] == u);
            },
            None => {
                assert forall|i: int|
                    0 <= i < users.len() implies (#[trigger] users[i]).phone_no != phone by {
                    if i > 0 {
                        assert(users.drop_first()[i - 1] == users[i]);
                    }
                }
            },
        }
    }
}

pub proof fn lemma_find_by_id(users: Seq<UserRecord>, id: u64)
    ensures
        match find_by_id(users, id) {
            Some(u) => u.id == id && exists|i: int| 0 <= i < users.len() && users[i] == u,
            None => forall|i: int| 0 <= i < users.len() ==> (#[trigger] users[i]).id != id,
        },
    decreases users.len(),
{
    if users.len() == 0 {
    } else if users.first().id == id {
        assert(users[0] == users.first());
    } else {
        lemma_find_by_id(users.drop_first(), id);
        match find_by_id(users, id) {
            Some(u) => {
                let i = choose|i: int|
                    0 <= i < users.drop_first().len() && users.drop_first()[i] == u;
                assert(users[i + 1] == u);
            },
            None => {
                assert forall|i: int| 0 <= i < users.len() implies (#[trigger] users[i]).id
                    != id by {
                    if i > 0 {
                        assert(users.drop_first()[i - 1] == users[i]);
                    }
                }
            },
        }
    }
}

pub proof fn lemma_find_by_ticket(groups: Seq<GroupRecord>, token: Seq<char>)
    ensures
        match find_by_ticket(groups, token) {
            Some(g) => g.ticket@ == token && exists|i: int|
                0 <= i < groups.len() && groups[i] == g,
            None => forall|i: int| 0 <= i < groups.len() ==> (#[trigger] groups[i]).ticket@
                != token,
        },
    decreases groups.len(),
{
    if groups.len() == 0 {
    } else if groups.first().ticket@ == token {
        assert(groups[0] == groups.first());
    } else {
        lemma_find_by_ticket(groups.drop_first(), token);
        match find_by_ticket(groups, token) {
            Some(g) => {
                let i = choose|i: int|
                    0 <= i < groups.drop_first().len() && groups.drop_first()[i] == g;
                assert(groups[i + 1] == g);
            },
            None => {
                assert forall|i: int|
                    0 <= i < groups.len() implies (#[trigger] groups[i]).ticket@ != token by {
                    if i > 0 {
                        assert(groups.drop_first()[i - 1] == groups[i]);
                    }
                }
            },
        }
    }
}

/// `find_by_id` after appending a user: an existing match is kept, otherwise
/// the appended row is found exactly when it carries the identifier.
pub proof fn lemma_find_by_id_push(users: Seq<UserRecord>, rec: UserRecord, id: u64)
    ensures
        find_by_id(users.push(rec), id) == if find_by_id(users, id) is Some {
            find_by_id(users, id)
        } else if rec.id == id {
            Some(rec)
        } else {
            None
        },
    decreases users.len(),
{
    if users.len() == 0 {
        assert(users.push(rec).first() == rec);
        assert(users.push(rec).drop_first() =~= Seq::<UserRecord>::empty());
    } else {
        assert(users.push(rec).first() == users.first());
        assert(users.push(rec).drop_first() =~= users.drop_first().push(rec));
        lemma_find_by_id_push(users.drop_first(), rec, id);
    }
}

/// The store: both tables plus their next assigned identifiers.
#[derive(Debug)]
pub struct Store {
    pub users: Vec<UserRecord>,
    pub groups: Vec<GroupRecord>,
    pub next_user_id: u64,
    pub next_group_id: u64,
}

impl Store {
    /// The schema's invariants: phone numbers unique, tickets unique,
    /// identifiers unique and below the next to be assigned, and every
    /// group's owner an existing user.
    pub open spec fn wf(&self) -> bool {
        &&& forall|i: int, j: int|
            #![trigger self.users@[i].phone_no, self.users@[j].phone_no]
            0 <= i < j < self.users@.len() ==> self.users@[i].phone_no
                != self.users@[j].phone_no
        &&& forall|i: int, j: int|
            #![trigger self.users@[i].id, self.users@[j].id]
            0 <= i < j < self.users@.len() ==> self.users@[i].id != self.users@[j].id
        &&& forall|i: int| 0 <= i < self.users@.len() ==> (#[trigger] self.users@[i]).id
            < self.next_user_id
        &&& forall|i: int, j: int|
            #![trigger self.groups@[i].ticket, self.groups@[j].ticket]
            0 <= i < j < self.groups@.len() ==> self.groups@[i].ticket@
                != self.groups@[j].ticket@
        &&& forall|i: int| 0 <= i < self.groups@.len() ==> (#[trigger] self.groups@[i]).id
            < self.next_group_id
        &&& forall|i: int| 0 <= i < self.groups@.len() ==> find_by_id(
            self.users@,
            (#[trigger] self.groups@[i]).owner,
        ) is Some
    }

    /// An empty store.
    pub fn new() -> (r: Store)
        ensures
            r.wf(),
            r.users@.len() == 0,
            r.groups@.len() == 0,
            r.next_user_id == 1,
            r.next_group_id == 1,
    {
        Store { users: Vec::new(), groups: Vec::new(), next_user_id: 1, next_group_id: 1 }
    }

    /// Look a user up by phone number.
    pub fn find_user_by_phone(&self, phone: u64) -> (r: Option<&UserRecord>)
        ensures
            match find_by_phone(self.users@, phone) {
                Some(u) => r matches Some(v) && *v == u,
                None => r is None,
            },
    {
        let mut i: usize = 0;
        proof {
            assert(self.users@.skip(0) =~= self.users@);
        }
        while i < self.users.len()
            invariant
                0 <= i <= self.users@.len(),
                find_by_phone(self.users@, phone) == find_by_phone(
                    self.users@.skip(i as int),
                    phone,
                ),
                forall|j: int| 0 <= j < i ==> (#[trigger] self.users@[j]).phone_no != phone,
            decreases self.users@.len() - i,
        {
            proof {
                assert(self.users@.skip(i as int).first() == self.users@[i as int]);
                assert(self.users@.skip(i as int).drop_first() =~= self.users@.skip(i + 1));
            }
            if self.users[i].phone_no == phone {
                return Some(&self.users[i]);
            }
            i += 1;
        }
        None
    }

    /// Look a user up by identifier.
    pub fn find_user_by_id(&self, id: u64) -> (r: Option<&UserRecord>)
        ensures
            match find_by_id(self.users@, id) {
                Some(u) => r matches Some(v) && *v == u,
                None => r is None,
            },
    {
        let mut i: usize = 0;
        proof {
            assert(self.users@.skip(0) =~= self.users@);
        }
        while i < self.users.len()
            invariant
                0 <= i <= self.users@.len(),
                find_by_id(self.users@, id) == find_by_id(self.users@.skip(i as int), id),
            decreases self.users@.len() - i,
        {
            proof {
                assert(self.users@.skip(i as int).first() == self.users@[i as int]);
                assert(self.users@.skip(i as int).drop_first() =~= self.users@.skip(i + 1));
            }
            if self.users[i].id == id {
                return Some(&self.users[i]);
            }
            i += 1;
        }
        None
    }

    /// Insert a user row; fails, leaving the store unchanged, exactly when
    /// the phone number is already present.
    pub fn insert_user(
        &mut self,
        name: String,
        phone_no: u64,
        password: String,
        secret_key: Vec<u8>,
    ) -> (r: Result<u64, StoreError>)
        requires
            old(self).wf(),
            old(self).next_user_id < u64::MAX,
        ensures
            final(self).wf(),
            final(self).groups@ == old(self).groups@,
            final(self).next_group_id == old(self).next_group_id,
            match find_by_phone(old(self).users@, phone_no) {
                Some(_) => r == Err::<u64, StoreError>(StoreError::PhoneTaken) && *final(self)
                    == *old(self),
                None => {
                    &&& r matches Ok(id) && id == old(self).next_user_id
                    &&& final(self).next_user_id == old(self).next_user_id + 1
                    &&& final(self).users@.len() == old(self).users@.len() + 1
                    &&& final(self).users@.drop_last() == old(self).users@
                    &&& final(self).users@.last() == (UserRecord {
                        id: old(self).next_user_id,
                        name,
                        phone_no,
                        password,
                        secret_key,
                        admin: false,
                    })
                },
            },
    {
        proof {
            lemma_find_by_phone(self.users@, phone_no);
        }
        match self.find_user_by_phone(phone_no) {
            Some(_) => Err(StoreError::PhoneTaken),
            None => {
                let id = self.next_user_id;
                let rec = UserRecord {
                    id,
                    name,
                    phone_no,
                    password,
                    secret_key,
                    admin: false,
                };
                self.users.push(rec);
                self.next_user_id = id + 1;
                proof {
                    assert(self.users@.drop_last() =~= old(self).users@);
                    assert forall|i: int|
                        0 <= i < self.groups@.len() implies find_by_id(
                        self.users@,
                        (#[trigger] self.groups@[i]).owner,
                    ) is Some by {
                        lemma_find_by_id_push(
                            old(self).users@,
                            self.users@.last(),
                            self.groups@[i].owner,
                        );
                    }
                }
                Ok(id)
            },
        }
    }

    /// Insert a group row; fails, leaving the store unchanged, when the
    /// owner references no user (checked first) or when the ticket token is
    /// already present.
    #[verifier::loop_isolation(false)]
    pub fn insert_group(&mut self, name: String, ticket: String, owner: u64) -> (r: Result<
        u64,
        StoreError,
    >)
        requires
            old(self).wf(),
            old(self).next_group_id < u64::MAX,
        ensures
            final(self).wf(),
            final(self).users@ == old(self).users@,
            final(self).next_user_id == old(self).next_user_id,
            if find_by_id(old(self).users@, owner) is None {
                r == Err::<u64, StoreError>(StoreError::NoSuchOwner) && *final(self) == *old(self)
            } else if find_by_ticket(old(self).groups@, ticket@) is Some {
                r == Err::<u64, StoreError>(StoreError::TicketTaken) && *final(self) == *old(self)
            } else {
                &&& r matches Ok(id) && id == old(self).next_group_id
                &&& final(self).next_group_id == old(self).next_group_id + 1
                &&& final(self).groups@.len() == old(self).groups@.len() + 1
                &&& final(self).groups@.drop_last() == old(self).groups@
                &&& final(self).groups@.last() == (GroupRecord {
                    id: old(self).next_group_id,
                    name,
                    ticket,
                    owner,
                })
            },
    {
        proof {
            lemma_find_by_ticket(self.groups@, ticket@);
        }
        if self.find_user_by_id(owner).is_none() {
            return Err(StoreError::NoSuchOwner);
        }
        let mut i: usize = 0;
        proof {
            assert(self.groups@.skip(0) =~= self.groups@);
        }
        while i < self.groups.len()
            invariant
                0 <= i <= self.groups@.len(),
                find_by_ticket(self.groups@, ticket@) == find_by_ticket(
                    self.groups@.skip(i as int),
                    ticket@,
                ),
            decreases self.groups@.len() - i,
        {
            proof {
                assert(self.groups@.skip(i as int).first() == self.groups@[i as int]);
                assert(self.groups@.skip(i as int).drop_first() =~= self.groups@.skip(i + 1));
            }
            if self.groups[i].ticket == ticket {
                return Err(StoreError::TicketTaken);
            }
            i += 1;
        }
        let id = self.next_group_id;
        let rec = GroupRecord { id, name, ticket, owner };
        self.groups.push(rec);
        self.next_group_id = id + 1;
        proof {
            assert(self.groups@.drop_last() =~= old(self).groups@);
        }
        Ok(id)
    }
}

/// An owned copy of a user row, field for field.
pub fn copy_user(u: &UserRecord) -> (r: UserRecord)
    ensures
        r.id == u.id,
        r.name@ == u.name@,
        r.phone_no == u.phone_no,
        r.password@ == u.password@,
        r.secret_key@ == u.secret_key@,
        r.admin == u.admin,
{
    UserRecord {
        id: u.id,
        name: u.name.clone(),
        phone_no: u.phone_no,
        password: u.password.clone(),
        secret_key: copy_bytes(&u.secret_key),
        admin: u.admin,
    }
}

} // verus!
