//! The in-process store of payment records.
//!
//! Records are keyed both by identifier and by idempotency key (sender id,
//! request id); both are unique. Records are never deleted, and a status is
//! only changed along a permitted transition.
use vstd::prelude::*;
use crate::domain::{Diagnostic, PaymentRecord, PaymentRequest, PaymentStatus, PublishFailure};
use crate::error::RepositoryFailure;
use crate::lifecycle::{can_transition, can_transition_spec};

verus! {

pub open spec fn unique_ids(s: Seq<PaymentRecord>) -> bool {
    forall|i: int, j: int|
        0 <= i < s.len() && 0 <= j < s.len() && #[trigger] s[i].id == #[trigger] s[j].id ==> i == j
}

pub open spec fn unique_keys(s: Seq<PaymentRecord>) -> bool {
    forall|i: int, j: int|
        0 <= i < s.len() && 0 <= j < s.len() && #[trigger] s[i].request.key() == #[trigger] s[j].request.key()
            ==> i == j
}

/// What every stored record satisfies on its own.
pub open spec fn record_ok(r: PaymentRecord) -> bool {
    &&& r.created_at <= r.updated_at
    &&& r.status != PaymentStatus::Rejected ==> r.validation_errors@.len() == 0
}

pub open spec fn has_id(s: Seq<PaymentRecord>, id: u128) -> bool {
    exists|i: int| 0 <= i < s.len() && #[trigger] s[i].id == id
}

pub open spec fn has_key(s: Seq<PaymentRecord>, k: (Seq<char>, Seq<char>)) -> bool {
    exists|i: int| 0 <= i < s.len() && #[trigger] s[i].request.key() == k
}

/// The position of the record with this identifier.
pub open spec fn id_index(s: Seq<PaymentRecord>, id: u128) -> int {
    choose|i: int| 0 <= i < s.len() && #[trigger] s[i].id == id
}

/// The position of the record with this idempotency key.
pub open spec fn key_index(s: Seq<PaymentRecord>, k: (Seq<char>, Seq<char>)) -> int {
    choose|i: int| 0 <= i < s.len() && #[trigger] s[i].request.key() == k
}

pub proof fn lemma_id_index(s: Seq<PaymentRecord>, i: int)
    requires
        unique_ids(s),
        0 <= i < s.len(),
    ensures
        has_id(s, s[i].id),
        id_index(s, s[i].id) == i,
{
    assert(has_id(s, s[i].id));
    let j = id_index(s, s[i].id);
    assert(s[j].id == s[i].id);
}

pub proof fn lemma_key_index(s: Seq<PaymentRecord>, i: int)
    requires
        unique_keys(s),
        0 <= i < s.len(),
    ensures
        has_key(s, s[i].request.key()),
        key_index(s, s[i].request.key()) == i,
{
    assert(has_key(s, s[i].request.key()));
    let j = key_index(s, s[i].request.key());
    assert(s[j].request.key() == s[i].request.key());
}

/// Appending a record with a fresh identifier and key keeps both unique.
pub proof fn lemma_push_unique(s: Seq<PaymentRecord>, r: PaymentRecord)
    requires
        unique_ids(s),
        unique_keys(s),
        !has_id(s, r.id),
        !has_key(s, r.request.key()),
    ensures
        unique_ids(s.push(r)),
        unique_keys(s.push(r)),
{
    let ns = s.push(r);
    assert forall|i: int, j: int|
        0 <= i < ns.len() && 0 <= j < ns.len() && #[trigger] ns[i].id == #[trigger] ns[j].id implies i == j by {
        if i < s.len() {
            assert(s[i].id == ns[i].id);
        }
        if j < s.len() {
            assert(s[j].id == ns[j].id);
        }
    }
    assert forall|i: int, j: int|
        0 <= i < ns.len() && 0 <= j < ns.len() && #[trigger] ns[i].request.key() == #[trigger] ns[j].request.key()
        implies i == j by {
        if i < s.len() {
            assert(s[i].request.key() == ns[i].request.key());
        }
        if j < s.len() {
            assert(s[j].request.key() == ns[j].request.key());
        }
    }
}

/// `r` is `old` moved to status `status` at time `now`.
pub open spec fn transitioned(
    old: PaymentRecord,
    r: PaymentRecord,
    status: PaymentStatus,
    errors: Seq<Diagnostic>,
    failure: Option<PublishFailure>,
    now: u64,
) -> bool {
    &&& r.id == old.id
    &&& r.request == old.request
    &&& r.created_at == old.created_at
    &&& r.updated_at == if now > old.updated_at { now } else { old.updated_at }
    &&& r.status == status
    &&& r.validation_errors@ == errors
    &&& r.failure == failure
}

#[derive(Debug)]
pub struct InMemoryPaymentRepository {
    pub records: Vec<PaymentRecord>,
}

impl InMemoryPaymentRepository {
    pub open spec fn wf(&self) -> bool {
        &&& unique_ids(self.records@)
        &&& unique_keys(self.records@)
        &&& forall|i: int| 0 <= i < self.records@.len() ==> record_ok(#[trigger] self.records@[i])
    }

    pub fn new() -> (r: Self)
        ensures
            r.wf(),
            r.records@.len() == 0,
    {
        InMemoryPaymentRepository { records: Vec::new() }
    }

    fn find_id(&self, id: u128) -> (r: Option<usize>)
        requires
            self.wf(),
        ensures
            r is None ==> !has_id(self.records@, id),
            r matches Some(i) ==> i < self.records@.len() && i == id_index(self.records@, id)
                && self.records@[i as int].id == id,
    {
        let mut i: usize = 0;
        while i < self.records.len()
            invariant
                self.wf(),
                i <= self.records@.len(),
                forall|j: int| 0 <= j < i ==> #[trigger] self.records@[j].id != id,
            decreases self.records.len() - i,
        {
            if self.records[i].id == id {
                proof {
                    lemma_id_index(self.records@, i as int);
                }
                return Some(i);
            }
            i = i + 1;
        }
        None
    }

    fn find_key(&self, sender_id: &String, request_id: &String) -> (r: Option<usize>)
        requires
            self.wf(),
        ensures
            r is None ==> !has_key(self.records@, (sender_id@, request_id@)),
            r matches Some(i) ==> i < self.records@.len() && i == key_index(
                self.records@,
                (sender_id@, request_id@),
            ) && self.records@[i as int].request.key() == (sender_id@, request_id@),
    {
        let mut i: usize = 0;
        while i < self.records.len()
            invariant
                self.wf(),
                i <= self.records@.len(),
                forall|j: int|
                    0 <= j < i ==> #[trigger] self.records@[j].request.key() != (sender_id@, request_id@),
            decreases self.records.len() - i,
        {
            if self.records[i].request.sender_id == *sender_id && self.records[i].request.request_id
                == *request_id {
                proof {
                    lemma_key_index(self.records@, i as int);
                }
                return Some(i);
            }
            i = i + 1;
        }
        None
    }

    /// The record with this identifier.
    pub fn get(&self, id: u128) -> (r: Option<&PaymentRecord>)
        requires
            self.wf(),
        ensures
            r is None <==> !has_id(self.records@, id),
            r matches Some(rec) ==> *rec == self.records@[id_index(self.records@, id)],
    {
        match self.find_id(id) {
            Some(i) => Some(&self.records[i]),
            None => None,
        }
    }

    /// The record with this idempotency key.
    pub fn get_by_idempotency_key(&self, sender_id: &String, request_id: &String) -> (r: Option<
        &PaymentRecord,
    >)
        requires
            self.wf(),
        ensures
            r is None <==> !has_key(self.records@, (sender_id@, request_id@)),
            r matches Some(rec) ==> *rec == self.records@[key_index(
                self.records@,
                (sender_id@, request_id@),
            )],
    {
        match self.find_key(sender_id, request_id) {
            Some(i) => Some(&self.records[i]),
            None => None,
        }
    }

    /// Stores a new Pending record; refused when the identifier or the
    /// idempotency key is taken.
    pub fn create(&mut self, id: u128, request: PaymentRequest, now: u64) -> (r: Result<(), RepositoryFailure>)
        requires
            old(self).wf(),
        ensures
            final(self).wf(),
            r is Ok <==> !has_id(old(self).records@, id) && !has_key(old(self).records@, request.key()),
            r is Err ==> r == Err::<(), RepositoryFailure>(RepositoryFailure::Conflict) && final(self).records@
                == old(self).records@,
            r is Ok ==> final(self).records@.len() == old(self).records@.len() + 1 && final(self).records@.drop_last()
                == old(self).records@ && final(self).records@.last().id == id
                && final(self).records@.last().request == request
                && final(self).records@.last().status == PaymentStatus::Pending
                && final(self).records@.last().created_at == now
                && final(self).records@.last().updated_at == now
                && final(self).records@.last().validation_errors@.len() == 0
                && final(self).records@.last().failure is None,
    {
        if self.find_id(id).is_some() {
            return Err(RepositoryFailure::Conflict);
        }
        if self.find_key(&request.sender_id, &request.request_id).is_some() {
            return Err(RepositoryFailure::Conflict);
        }
        let rec = PaymentRecord {
            id,
            request,
            status: PaymentStatus::Pending,
            created_at: now,
            updated_at: now,
            validation_errors: Vec::new(),
            failure: None,
        };
        proof {
            lemma_push_unique(self.records@, rec);
        }
        self.records.push(rec);
        assert(self.records@.drop_last() =~= old(self).records@);
        Ok(())
    }

    /// Moves a record along a permitted transition, atomically recording the
    /// diagnostics and the failure cause that come with the new status.
    pub fn update_status(
        &mut self,
        id: u128,
        status: PaymentStatus,
        errors: Vec<Diagnostic>,
        failure: Option<PublishFailure>,
        now: u64,
    ) -> (r: Result<(), RepositoryFailure>)
        requires
            old(self).wf(),
            status != PaymentStatus::Rejected ==> errors@.len() == 0,
        ensures
            final(self).wf(),
            !has_id(old(self).records@, id) ==> r == Err::<(), RepositoryFailure>(RepositoryFailure::NotFound),
            has_id(old(self).records@, id) && !can_transition_spec(
                old(self).records@[id_index(old(self).records@, id)].status,
                status,
            ) ==> r == Err::<(), RepositoryFailure>(RepositoryFailure::InvalidTransition),
            r is Ok <==> has_id(old(self).records@, id) && can_transition_spec(
                old(self).records@[id_index(old(self).records@, id)].status,
                status,
            ),
            r is Err ==> final(self).records@ == old(self).records@,
            r is Ok ==> final(self).records@.len() == old(self).records@.len() && forall|j: int|
                0 <= j < old(self).records@.len() && j != id_index(old(self).records@, id)
                    ==> #[trigger] final(self).records@[j] == old(self).records@[j],
            r is Ok ==> transitioned(
                old(self).records@[id_index(old(self).records@, id)],
                final(self).records@[id_index(old(self).records@, id)],
                status,
                errors@,
                failure,
                now,
            ),
    {
        let i = match self.find_id(id) {
            Some(i) => i,
            None => {
                return Err(RepositoryFailure::NotFound);
            },
        };
        if !can_transition(self.records[i].status, status) {
            return Err(RepositoryFailure::InvalidTransition);
        }
        let old_rec = self.records.remove(i);
        let updated_at = if now > old_rec.updated_at {
            now
        } else {
            old_rec.updated_at
        };
        let rec = PaymentRecord {
            id: old_rec.id,
            request: old_rec.request,
            status,
            created_at: old_rec.created_at,
            updated_at,
            validation_errors: errors,
            failure,
        };
        let ghost ns = old(self).records@.update(i as int, rec);
        assert(ns =~= self.records@.insert(i as int, rec));
        self.records.insert(i, rec);
        proof {
            assert forall|a: int, b: int|
                0 <= a < ns.len() && 0 <= b < ns.len() && #[trigger] ns[a].id == #[trigger] ns[b].id implies a == b by {
                assert(old(self).records@[a].id == ns[a].id);
                assert(old(self).records@[b].id == ns[b].id);
            }
            assert forall|a: int, b: int|
                0 <= a < ns.len() && 0 <= b < ns.len() && #[trigger] ns[a].request.key()
                    == #[trigger] ns[b].request.key() implies a == b by {
                assert(old(self).records@[a].request.key() == ns[a].request.key());
                assert(old(self).records@[b].request.key() == ns[b].request.key());
            }
            assert forall|a: int| 0 <= a < ns.len() implies record_ok(#[trigger] ns[a]) by {
                if a != i {
                    assert(record_ok(old(self).records@[a]));
                }
            }
        }
        Ok(())
    }
}

} // verus!
