//! Session state
//!
//! This module contains all the logic related to session management.

use super::ClientId;
use crate::text::{decimal, decimal_text, same_text};
use serde_json::Value;
use std::collections::HashMap;
use vstd::prelude::*;
use vstd::string::*;

verus! {

/// A JSON value. The coordinator never looks inside one: it stores it and
/// hands it on.
#[verifier::external_type_specification]
#[verifier::external_body]
pub struct ExValue(serde_json::Value);

/// Value associated to a session.
pub type SessionValue = Option<Value>;

/// Unique ID of a session.
pub type SessionId = u128;

/// Party number of a session.
pub type SessionPartyNumber = u16;

/// Copies a JSON value with `serde_json::Value::clone`, which yields a value
/// equal to the one it is given.
#[verifier::external_body]
pub(crate) fn clone_value(value: &Value) -> (copy: Value)
    ensures
        copy == *value,
{
    value.clone()
}

/// Copies the value of a session.
pub fn clone_session_value(value: &SessionValue) -> (copy: SessionValue)
    ensures
        copy == *value,
{
    match value {
        Some(v) => Some(clone_value(v)),
        None => None,
    }
}

/// Error type for session operations.
#[derive(Debug, Clone, Copy, PartialEq, Eq, Structural)]
pub enum SessionError {
    PartyNumberAlreadyOccupied(SessionPartyNumber),
}

impl SessionError {
    /// The text of the error, as a sequence of characters.
    pub open spec fn message(self) -> Seq<char> {
        match self {
            SessionError::PartyNumberAlreadyOccupied(party_number) => "party number '"@
                + decimal_text(party_number as nat) + "' is already occupied by another party"@,
        }
    }

    /// Renders the error for a human reader.
    pub fn to_string(&self) -> (s: String)
        ensures
            s@ == self.message(),
    {
        match self {
            SessionError::PartyNumberAlreadyOccupied(party_number) => {
                let digits = decimal(*party_number);
                String::from_str("party number '").concat(digits.as_str()).concat(
                    "' is already occupied by another party",
                )
            },
        }
    }
}

/// Session kinds available in this implementation.
#[derive(Debug, Clone, Copy, PartialEq, Eq, Structural)]
pub enum SessionKind {
    /// Key generation session.
    Keygen,
    /// Signing session.
    Sign,
}

impl SessionKind {
    /// The kind that a name stands for, if any.
    pub open spec fn named(name: Seq<char>) -> Option<SessionKind> {
        if name == "keygen"@ {
            Some(SessionKind::Keygen)
        } else if name == "sign"@ {
            Some(SessionKind::Sign)
        } else {
            None
        }
    }

    /// Reads a kind from its name.
    pub fn from_str(s: &str) -> (kind: Option<SessionKind>)
        ensures
            kind == Self::named(s@),
    {
        if same_text(s, "keygen") {
            Some(SessionKind::Keygen)
        } else if same_text(s, "sign") {
            Some(SessionKind::Sign)
        } else {
            None
        }
    }
}

/// Holds of a sequence of party numbers in which each is less than the next.
pub open spec fn strictly_increasing(s: Seq<SessionPartyNumber>) -> bool {
    forall|i: int, j: int| 0 <= i < j < s.len() ==> s[i] < s[j]
}

/// Holds of the party number `p` that a signup into `signups` gets: the
/// smallest positive one that no party holds.
pub open spec fn smallest_free(
    signups: Map<SessionPartyNumber, ClientId>,
    p: SessionPartyNumber,
) -> bool {
    &&& p >= 1
    &&& !signups.contains_key(p)
    &&& forall|q: SessionPartyNumber| 1 <= q < p ==> #[trigger] signups.contains_key(q)
}

/// Holds where `client_id` is the client of some party of `signups`.
pub open spec fn signed_up(signups: Map<SessionPartyNumber, ClientId>, client_id: ClientId) -> bool {
    exists|p: SessionPartyNumber| #[trigger] signups.contains_key(p) && signups[p] == client_id
}

/// Session is subgroup of clients intended to be used for a specific purpose.
#[derive(Debug)]
pub struct Session {
    /// Unique ID of the session.
    pub id: SessionId,
    /// Session kind
    pub kind: SessionKind,
    /// Public value associated to this session.
    ///
    /// This value can be set at the moment of creation.
    /// It can be a message or transaction intended
    /// to be signed by the session.
    pub value: SessionValue,
    /// Map party number to client id, starting at 1.
    pub party_signups: HashMap<SessionPartyNumber, ClientId>,
    /// Occupied party numbers, starting at 1.
    pub occupied_party_numbers: Vec<SessionPartyNumber>,
}

impl Session {
    /// The client of each party.
    pub open spec fn signups(&self) -> Map<SessionPartyNumber, ClientId> {
        self.party_signups@
    }

    /// The party numbers that are taken, in the order in which they are kept.
    pub open spec fn occupied(&self) -> Seq<SessionPartyNumber> {
        self.occupied_party_numbers@
    }

    /// The invariant of a session: the occupied numbers are positive and
    /// strictly increasing, they are the parties that have a client, and no
    /// client holds two of them.
    pub open spec fn wf(&self) -> bool {
        &&& strictly_increasing(self.occupied())
        &&& forall|i: int| 0 <= i < self.occupied().len() ==> #[trigger] self.occupied()[i] >= 1
        &&& forall|p: SessionPartyNumber| #[trigger]
            self.signups().contains_key(p) <==> self.occupied().contains(p)
        &&& forall|p: SessionPartyNumber, q: SessionPartyNumber|
            #![trigger self.signups()[p], self.signups()[q]]
            self.signups().contains_key(p) && self.signups().contains_key(q) && self.signups()[p]
                == self.signups()[q] ==> p == q
    }

    /// Holds where the client sits in this session, under any party number.
    pub open spec fn has_client(&self, client_id: ClientId) -> bool {
        signed_up(self.signups(), client_id)
    }

    /// The clients of the session, by ascending party number.
    pub open spec fn client_ids(&self) -> Seq<ClientId> {
        Seq::new(self.occupied().len(), |i: int| self.signups()[self.occupied()[i]])
    }

    /// Holds while a signup of `client_id` can be served: the client is
    /// already in, or a party number is left for it.
    pub open spec fn has_room_for(&self, client_id: ClientId) -> bool {
        self.has_client(client_id) || self.signups().len() < u16::MAX
    }

    /// Holds of a session as it is created: it has the given id, kind and
    /// value, and no party yet.
    pub open spec fn is_new(&self, id: SessionId, kind: SessionKind, value: SessionValue) -> bool {
        &&& self.id == id
        &&& self.kind == kind
        &&& self.value == value
        &&& self.signups() == Map::<SessionPartyNumber, ClientId>::empty()
        &&& self.occupied() == Seq::<SessionPartyNumber>::empty()
    }

    /// Holds where `other` differs from this session in its signups at most.
    pub open spec fn same_header(&self, other: &Session) -> bool {
        &&& self.id == other.id
        &&& self.kind == other.kind
        &&& self.value == other.value
    }

    /// What a signup of `client_id` makes of this session: `post` is the
    /// session after it and `party_number` the number returned. A client that
    /// is already in keeps its number and nothing changes; another one gets
    /// the smallest free number.
    pub open spec fn signup_post(
        &self,
        client_id: ClientId,
        party_number: SessionPartyNumber,
        post: Session,
    ) -> bool {
        &&& post.wf()
        &&& post.same_header(self)
        &&& post.signups().contains_key(party_number)
        &&& post.signups()[party_number] == client_id
        &&& if self.has_client(client_id) {
            post.signups() == self.signups()
        } else {
            &&& smallest_free(self.signups(), party_number)
            &&& post.signups() == self.signups().insert(party_number, client_id)
        }
    }

    /// What a login of `client_id` as `party_number` makes of this session:
    /// `post` is the session after it and `r` the result. A client that is
    /// already in stays as it is; another one is refused where the number is
    /// taken, and takes it where it is free.
    pub open spec fn login_post(
        &self,
        client_id: ClientId,
        party_number: SessionPartyNumber,
        r: Result<(), SessionError>,
        post: Session,
    ) -> bool {
        &&& post.wf()
        &&& post.same_header(self)
        &&& if self.has_client(client_id) {
            r is Ok && post.signups() == self.signups()
        } else if self.signups().contains_key(party_number) {
            r == Err::<(), SessionError>(SessionError::PartyNumberAlreadyOccupied(party_number))
                && post.signups() == self.signups()
        } else {
            r is Ok && post.signups() == self.signups().insert(party_number, client_id)
        }
    }

    /// Creates a new session with the given parameters.
    pub fn new(id: SessionId, kind: SessionKind, value: SessionValue) -> (session: Self)
        ensures
            session.wf(),
            session.is_new(id, kind, value),
    {
        Self {
            id,
            kind,
            value,
            party_signups: HashMap::new(),
            occupied_party_numbers: Vec::new(),
        }
    }

    /// Registers a client in the session and returns its party number.
    pub fn signup(&mut self, client_id: ClientId) -> (party_number: SessionPartyNumber)
        requires
            old(self).wf(),
            old(self).has_room_for(client_id),
        ensures
            old(self).signup_post(client_id, party_number, *final(self)),
    {
        match self.get_party_number(&client_id) {
            Some(party_number) => {
                return party_number;
            },
            None => {},
        }
        proof {
            self.lemma_len();
        }
        let party_number = self.get_next_party_number();
        self.add_party(client_id, party_number);
        party_number
    }

    /// Signs in a client in the session with a given party number.
    pub fn login(&mut self, client_id: ClientId, party_number: SessionPartyNumber) -> (r: Result<
        (),
        SessionError,
    >)
        requires
            old(self).wf(),
            party_number >= 1,
        ensures
            old(self).login_post(client_id, party_number, r, *final(self)),
    {
        if self.is_client_in_session(&client_id) {
            return Ok(());
        }
        if self.party_signups.contains_key(&party_number) {
            return Err(SessionError::PartyNumberAlreadyOccupied(party_number));
        }
        self.add_party(client_id, party_number);
        Ok(())
    }

    /// Adds new party assuming `party_number` doesn't exist already.
    fn add_party(&mut self, client_id: ClientId, party_number: SessionPartyNumber)
        requires
            old(self).wf(),
            party_number >= 1,
            !old(self).signups().contains_key(party_number),
            !old(self).has_client(client_id),
        ensures
            final(self).wf(),
            final(self).same_header(old(self)),
            final(self).signups() == old(self).signups().insert(party_number, client_id),
    {
        let len = self.occupied_party_numbers.len();
        let mut at: usize = 0;
        while at < len && self.occupied_party_numbers[at] < party_number
            invariant
                at <= len,
                len == self.occupied_party_numbers@.len(),
                *self == *old(self),
                forall|j: int| 0 <= j < at ==> self.occupied_party_numbers@[j] < party_number,
            decreases len - at,
        {
            at += 1;
        }
        let ghost before = self.occupied_party_numbers@;
        assert(!before.contains(party_number));
        assert(forall|j: int| at <= j < len ==> before[j] > party_number) by {
            assert forall|j: int| at <= j < len implies before[j] > party_number by {
                assert(before.contains(before[j]));
                assert(before[at as int] >= party_number);
            }
        }
        self.occupied_party_numbers.insert(at, party_number);
        self.party_signups.insert(party_number, client_id);
        proof {
            let after = self.occupied_party_numbers@;
            assert(after == before.insert(at as int, party_number));
            assert forall|p: SessionPartyNumber| #[trigger]
                self.signups().contains_key(p) <==> after.contains(p) by {
                if after.contains(p) {
                    let k = choose|k: int| 0 <= k < after.len() && after[k] == p;
                    if k < at {
                        assert(before[k] == p);
                        assert(before.contains(p));
                    } else if k > at {
                        assert(before[k - 1] == p);
                        assert(before.contains(p));
                    }
                }
                if p == party_number {
                    assert(after[at as int] == p);
                } else if before.contains(p) {
                    let k = choose|k: int| 0 <= k < before.len() && before[k] == p;
                    if k < at {
                        assert(after[k] == p);
                    } else {
                        assert(after[k + 1] == p);
                    }
                }
            }
            assert forall|p: SessionPartyNumber, q: SessionPartyNumber|
                #![trigger self.signups()[p], self.signups()[q]]
                self.signups().contains_key(p) && self.signups().contains_key(q)
                    && self.signups()[p] == self.signups()[q] implies p == q by {
                if p == party_number && q != party_number {
                    assert(old(self).signups().contains_key(q));
                } else if q == party_number && p != party_number {
                    assert(old(self).signups().contains_key(p));
                }
            }
        }
    }

    /// Gets the party number of a client.
    pub fn get_party_number(&self, client_id: &ClientId) -> (r: Option<SessionPartyNumber>)
        requires
            self.wf(),
        ensures
            match r {
                Some(p) => self.signups().contains_key(p) && self.signups()[p] == *client_id,
                None => !self.has_client(*client_id),
            },
    {
        let len = self.occupied_party_numbers.len();
        let mut i: usize = 0;
        while i < len
            invariant
                i <= len,
                len == self.occupied_party_numbers@.len(),
                self.wf(),
                forall|j: int|
                    0 <= j < i ==> self.signups()[#[trigger] self.occupied()[j]] != *client_id,
            decreases len - i,
        {
            let party_number = self.occupied_party_numbers[i];
            assert(self.occupied().contains(party_number));
            match self.party_signups.get(&party_number) {
                Some(id) => {
                    if *id == *client_id {
                        return Some(party_number);
                    }
                },
                None => {},
            }
            i += 1;
        }
        assert(!self.has_client(*client_id)) by {
            if self.has_client(*client_id) {
                let p = choose|p: SessionPartyNumber| #[trigger]
                    self.signups().contains_key(p) && self.signups()[p] == *client_id;
                assert(self.occupied().contains(p));
                let k = choose|k: int| 0 <= k < self.occupied().len() && self.occupied()[k] == p;
                assert(self.signups()[self.occupied()[k]] != *client_id);
            }
        }
        None
    }

    /// Returns boolean indicating if the client is already in this session.
    pub fn is_client_in_session(&self, client_id: &ClientId) -> (found: bool)
        requires
            self.wf(),
        ensures
            found == self.has_client(*client_id),
    {
        self.get_party_number(client_id).is_some()
    }

    /// Returns the client id of a given party number.
    pub fn get_client_id(&self, party_number: SessionPartyNumber) -> (r: Option<ClientId>)
        ensures
            r == self.signups().get(party_number),
    {
        match self.party_signups.get(&party_number) {
            Some(id) => Some(*id),
            None => None,
        }
    }

    /// Returns all the client ids associated with the session.
    pub fn get_all_client_ids(&self) -> (ids: Vec<ClientId>)
        requires
            self.wf(),
        ensures
            ids@ == self.client_ids(),
    {
        let len = self.occupied_party_numbers.len();
        let mut ids: Vec<ClientId> = Vec::new();
        let mut i: usize = 0;
        while i < len
            invariant
                i <= len,
                len == self.occupied_party_numbers@.len(),
                self.wf(),
                ids@ == self.client_ids().subrange(0, i as int),
            decreases len - i,
        {
            let party_number = self.occupied_party_numbers[i];
            assert(self.occupied().contains(party_number));
            match self.party_signups.get(&party_number) {
                Some(id) => {
                    ids.push(*id);
                },
                None => {},
            }
            assert(ids@ =~= self.client_ids().subrange(0, i + 1));
            i += 1;
        }
        assert(ids@ =~= self.client_ids());
        ids
    }

    /// Returns the number of clients associated with this session.
    pub fn get_number_of_clients(&self) -> (count: usize)
        ensures
            count == self.signups().len(),
    {
        self.party_signups.len()
    }

    /// Gets the next missing party number, given that the occupied numbers
    /// are kept in ascending order.
    ///
    /// # Examples
    ///
    /// - if `[1,2,3,4]` it will return 5
    /// - if `[1,4,5,6]` it will return 2
    fn get_next_party_number(&self) -> (party_number: SessionPartyNumber)
        requires
            self.wf(),
            self.occupied().len() < u16::MAX,
        ensures
            smallest_free(self.signups(), party_number),
    {
        let len = self.occupied_party_numbers.len();
        let mut i: usize = 0;
        while i < len
            invariant
                i <= len,
                len == self.occupied_party_numbers@.len(),
                len < u16::MAX,
                self.wf(),
                forall|j: int| 0 <= j < i ==> #[trigger] self.occupied()[j] == j + 1,
            decreases len - i,
        {
            if (i + 1) != self.occupied_party_numbers[i] as usize {
                let party_number = (i + 1) as SessionPartyNumber;
                proof {
                    self.lemma_gap(i as int);
                }
                return party_number;
            }
            i += 1;
        }
        proof {
            self.lemma_gap(len as int);
        }
        if len == 0 {
            1
        } else {
            self.occupied_party_numbers[len - 1] + 1
        }
    }

    /// Where the first `i` occupied numbers are `1..=i` and the next one, if
    /// there is one, is not `i + 1`, the number `i + 1` is the smallest free.
    proof fn lemma_gap(&self, i: int)
        requires
            self.wf(),
            0 <= i <= self.occupied().len(),
            i < u16::MAX,
            forall|j: int| 0 <= j < i ==> #[trigger] self.occupied()[j] == j + 1,
            i < self.occupied().len() ==> self.occupied()[i] != i + 1,
        ensures
            smallest_free(self.signups(), (i + 1) as SessionPartyNumber),
    {
        let occ = self.occupied();
        let r = (i + 1) as SessionPartyNumber;
        assert forall|q: SessionPartyNumber| 1 <= q < r implies #[trigger]
            self.signups().contains_key(q) by {
            assert(occ[q - 1] == q);
            assert(occ.contains(q));
        }
        if occ.contains(r) {
            let k = choose|k: int| 0 <= k < occ.len() && occ[k] == r;
            if k < i {
                assert(occ[k] == k + 1);
            } else {
                if i > 0 {
                    assert(occ[i - 1] == i);
                    assert(occ[i - 1] < occ[i]);
                } else {
                    assert(occ[0] >= 1);
                }
                assert(occ[i] >= i + 2);
                if k > i {
                    assert(occ[i] < occ[k]);
                }
            }
        }
    }

    /// A session has as many signups as occupied numbers.
    pub proof fn lemma_len(&self)
        requires
            self.wf(),
        ensures
            self.signups().len() == self.occupied().len(),
            self.signups().dom().finite(),
    {
        let occ = self.occupied();
        assert(occ.no_duplicates());
        occ.unique_seq_to_set();
        assert(occ.to_set() =~= self.signups().dom());
    }
}

impl Clone for Session {
    /// Clones the header of the session, disregarding the signups: the copy
    /// has the id, the kind and the value, and no party.
    fn clone(&self) -> (copy: Self)
        ensures
            copy.wf(),
            copy.is_new(self.id, self.kind, self.value),
    {
        Self {
            id: self.id,
            kind: self.kind,
            value: clone_session_value(&self.value),
            party_signups: HashMap::new(),
            occupied_party_numbers: Vec::new(),
        }
    }
}

/// Signup is idempotent: of two consecutive signups of one client, the
/// second returns the party number of the first and leaves the signups, and
/// so their number, as the first left them.
pub proof fn lemma_signup_twice(
    s0: Session,
    client_id: ClientId,
    first: SessionPartyNumber,
    s1: Session,
    second: SessionPartyNumber,
    s2: Session,
)
    requires
        s0.wf(),
        s0.signup_post(client_id, first, s1),
        s1.signup_post(client_id, second, s2),
    ensures
        second == first,
        s2.signups() == s1.signups(),
        s2.signups().len() == s1.signups().len(),
        s1.has_room_for(client_id),
{
    assert(s1.signups().contains_key(first));
    assert(s1.has_client(client_id));
}

/// Login is idempotent: once a login of a client has succeeded, a second
/// login of that client, under whatever party number, succeeds and changes
/// nothing.
pub proof fn lemma_login_twice(
    s0: Session,
    client_id: ClientId,
    first: SessionPartyNumber,
    first_result: Result<(), SessionError>,
    s1: Session,
    second: SessionPartyNumber,
    second_result: Result<(), SessionError>,
    s2: Session,
)
    requires
        s0.wf(),
        s0.login_post(client_id, first, first_result, s1),
        first_result is Ok,
        s1.login_post(client_id, second, second_result, s2),
    ensures
        second_result is Ok,
        s2.signups() == s1.signups(),
{
    if s0.has_client(client_id) {
        let p = choose|p: SessionPartyNumber| #[trigger]
            s0.signups().contains_key(p) && s0.signups()[p] == client_id;
        assert(s1.signups().contains_key(p));
    } else {
        assert(s1.signups().contains_key(first));
    }
    assert(s1.has_client(client_id));
}

/// Party numbers are reused densely: where the parties `1..=k` are taken and
/// party `j` among them leaves, the next client that signs up gets `j`.
pub proof fn lemma_dense_reuse(
    full: Session,
    k: SessionPartyNumber,
    j: SessionPartyNumber,
    s0: Session,
    client_id: ClientId,
    party_number: SessionPartyNumber,
    s1: Session,
)
    requires
        full.wf(),
        forall|q: SessionPartyNumber| #[trigger] full.signups().contains_key(q) <==> 1 <= q <= k,
        1 <= j <= k,
        s0.wf(),
        s0.signups() == full.signups().remove(j),
        !s0.has_client(client_id),
        s0.signup_post(client_id, party_number, s1),
    ensures
        party_number == j,
{
    assert(!s0.signups().contains_key(j));
    if party_number < j {
        assert(full.signups().contains_key(party_number));
        assert(s0.signups().contains_key(party_number));
    }
}

} // verus!
