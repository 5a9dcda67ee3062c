//! The payment engine: idempotent submission, validation, the lifecycle
//! transitions and exactly-once hand-off to the publisher.
use vstd::prelude::*;
use crate::clock::{new_payment_id, now_seconds};
use crate::domain::{
    BulkPaymentRequest, CreditTransferRequest, Diagnostic, DirectDebitRequest, InstantPaymentRequest,
    Payload, PaymentRecord, PaymentRequest, PaymentResponse, PaymentStatus, PaymentType, PublishFailure,
};
use crate::error::{RepositoryFailure, ServiceError, ValidationFailure};
use crate::mandate::{MandateRecord, MandateRegistry};
use crate::publisher::{count, holds, lemma_count_push, InMemoryPublisher, PublishedMessage};
use crate::repository::{
    has_id, has_key, id_index, key_index, lemma_id_index, unique_ids, InMemoryPaymentRepository,
};
use crate::validation::{business_diags, structure_diags, ISO20022PaymentValidator};

verus! {

/// The day number of a timestamp.
pub open spec fn today_of(now: u64) -> i64 {
    (now / 86400) as i64
}

/// The findings that reject an instruction: the structural ones, or, when
/// there are none, the business-rule ones.
pub open spec fn outcome_errors(req: PaymentRequest, today: i64, ms: Seq<MandateRecord>) -> Seq<Diagnostic> {
    if structure_diags(req, today).len() > 0 {
        structure_diags(req, today)
    } else {
        business_diags(req, ms)
    }
}

/// The status a new instruction settles in.
pub open spec fn outcome_status(
    req: PaymentRequest,
    today: i64,
    ms: Seq<MandateRecord>,
    online: bool,
) -> PaymentStatus {
    if outcome_errors(req, today, ms).len() > 0 {
        PaymentStatus::Rejected
    } else if online {
        PaymentStatus::Accepted
    } else {
        PaymentStatus::Failed
    }
}

/// The number of members of a batch instruction; other instructions have none.
pub open spec fn child_count(req: PaymentRequest) -> nat {
    match req.message_payload {
        Payload::Bulk(b) => b.payments@.len(),
        _ => 0,
    }
}

/// The status of each member of a batch, in batch order. A batch is
/// validated, published, and cancelled as a whole, so each member's status
/// record is its batch's status; member `i` is identified by the batch id
/// and `i`.
pub open spec fn child_statuses(rec: PaymentRecord) -> Seq<PaymentStatus> {
    Seq::new(child_count(rec.request), |i: int| rec.status)
}

/// Statuses a record may rest in between engine operations: never Pending.
/// A record rests in Validated only while its message is with a channel whose
/// acknowledgment has not been recorded yet.
pub open spec fn settled(s: PaymentStatus) -> bool {
    s != PaymentStatus::Pending
}

pub open spec fn message_is(m: PublishedMessage, id: u128, t: PaymentType) -> bool {
    &&& m.routing_key@ == t.routing_key_spec()
    &&& m.message_id == id
    &&& m.payment_type == t
}


pub proof fn lemma_count_absent(s: Seq<u128>, id: u128)
    requires
        forall|k: int| 0 <= k < s.len() ==> s[k] != id,
    ensures
        count(s, id) == 0,
    decreases s.len(),
{
    if s.len() > 0 {
        lemma_count_absent(s.drop_last(), id);
    }
}

/// Records keep their positions when their identifiers are kept.
proof fn lemma_id_index_stable(old: Seq<PaymentRecord>, new: Seq<PaymentRecord>, x: u128)
    requires
        unique_ids(new),
        new.len() >= old.len(),
        forall|j: int| 0 <= j < old.len() ==> #[trigger] new[j].id == old[j].id,
        has_id(old, x),
    ensures
        has_id(new, x),
        id_index(new, x) == id_index(old, x),
{
    let j = id_index(old, x);
    assert(new[j].id == x);
    lemma_id_index(new, j);
}

/// Appending one record with a fresh identifier, and at most one message and
/// one publish call for it, keeps the engine's invariant.
proof fn lemma_append_keeps_wf(old: &PaymentServiceImpl, new: &PaymentServiceImpl, id: u128)
    requires
        old.wf(),
        new.repository.wf(),
        new.message_publisher.wf(),
        new.mandates == old.mandates,
        !has_id(old.records(), id),
        new.records().len() == old.records().len() + 1,
        new.records().drop_last() == old.records(),
        new.records().last().id == id,
        settled(new.records().last().status),
        new.records().last().status == PaymentStatus::Validated ==> new.attempts() == old.attempts(),
        new.records().last().status == PaymentStatus::Accepted ==> holds(new.messages(), id),
        new.messages() == old.messages() || (new.messages().len() == old.messages().len() + 1
            && new.messages().drop_last() == old.messages() && new.messages().last().message_id == id),
        new.attempts() == old.attempts() || new.attempts() == old.attempts().push(id),
        new.messages() != old.messages() ==> new.records().last().status == PaymentStatus::Accepted,
        new.attempts() != old.attempts() ==> new.records().last().status != PaymentStatus::Rejected,
    ensures
        new.wf(),
{
    let n = old.records().len() as int;
    let orec = old.records();
    let nrec = new.records();
    assert forall|i: int| 0 <= i < nrec.len() implies settled(#[trigger] nrec[i].status) by {
        if i < n {
            assert(nrec[i] == orec[i]);
        }
    }
    assert forall|x: u128| has_id(orec, x) implies has_id(nrec, x) by {
        let j = choose|j: int| 0 <= j < orec.len() && #[trigger] orec[j].id == x;
        assert(nrec[j] == orec[j]);
    }
    assert(nrec[n].id == id);
    assert(has_id(nrec, id));
    assert forall|x: u128| holds(old.messages(), x) implies holds(new.messages(), x) by {
        let j = choose|j: int| 0 <= j < old.messages().len() && #[trigger] old.messages()[j].message_id == x;
        if new.messages() != old.messages() {
            assert(new.messages()[j] == old.messages()[j]);
        }
    }
    assert forall|i: int|
        0 <= i < nrec.len() && #[trigger] nrec[i].status == PaymentStatus::Accepted implies holds(
        new.messages(),
        nrec[i].id,
    ) by {
        if i < n {
            assert(nrec[i] == orec[i]);
        }
    }
    assert forall|k: int| 0 <= k < new.messages().len() implies has_id(
        nrec,
        #[trigger] new.messages()[k].message_id,
    ) by {
        if k < old.messages().len() {
            if new.messages() != old.messages() {
                assert(new.messages()[k] == old.messages()[k]);
            }
            assert(has_id(orec, old.messages()[k].message_id));
        }
    }
    assert forall|k: int| 0 <= k < new.attempts().len() implies has_id(nrec, #[trigger] new.attempts()[k]) by {
        if k < old.attempts().len() {
            assert(new.attempts()[k] == old.attempts()[k]);
            assert(has_id(orec, old.attempts()[k]));
        }
    }
    assert forall|k: int| 0 <= k < old.attempts().len() implies old.attempts()[k] != id by {
        assert(has_id(orec, old.attempts()[k]));
    }
    lemma_count_absent(old.attempts(), id);
    assert forall|x: u128| #[trigger] count(new.attempts(), x) <= 1 by {
        if new.attempts() != old.attempts() {
            lemma_count_push(old.attempts(), id, x);
        }
        assert(count(old.attempts(), x) <= 1);
    }
    assert forall|j: int| 0 <= j < orec.len() implies #[trigger] nrec[j].id == orec[j].id by {
        assert(nrec[j] == orec[j]);
    }
    lemma_id_index(nrec, n);
    assert forall|j: int|
        0 <= j < nrec.len() && #[trigger] nrec[j].status == PaymentStatus::Validated implies count(
        new.attempts(),
        nrec[j].id,
    ) == 0 by {
        if j < n {
            assert(nrec[j] == orec[j]);
            assert(orec[j].id != id);
            if new.attempts() != old.attempts() {
                lemma_count_push(old.attempts(), id, orec[j].id);
            }
        }
    }
    assert forall|x: u128| has_id(orec, x) implies #[trigger] new.status_of(x) == old.status_of(x) by {
        lemma_id_index_stable(orec, nrec, x);
        assert(nrec[id_index(orec, x)] == orec[id_index(orec, x)]);
    }
    assert forall|k: int| 0 <= k < new.messages().len() implies (new.status_of(
        #[trigger] new.messages()[k].message_id,
    ) == PaymentStatus::Accepted || new.status_of(new.messages()[k].message_id) == PaymentStatus::Cancelled) by {
        if k < old.messages().len() {
            if new.messages() != old.messages() {
                assert(new.messages()[k] == old.messages()[k]);
            }
            assert(has_id(orec, old.messages()[k].message_id));
        }
    }
    assert forall|k: int| 0 <= k < new.attempts().len() implies new.status_of(#[trigger] new.attempts()[k])
        != PaymentStatus::Rejected by {
        if k < old.attempts().len() {
            assert(new.attempts()[k] == old.attempts()[k]);
            assert(has_id(orec, old.attempts()[k]));
        }
    }
}


/// Moving one record out of Validated or Accepted, with at most one new
/// message and one new publish call for it, keeps the engine's invariant.
proof fn lemma_update_keeps_wf(old: &PaymentServiceImpl, new: &PaymentServiceImpl, i: int)
    requires
        old.wf(),
        new.repository.wf(),
        new.message_publisher.wf(),
        new.mandates == old.mandates,
        0 <= i < old.records().len(),
        new.records().len() == old.records().len(),
        forall|j: int| 0 <= j < old.records().len() && j != i ==> #[trigger] new.records()[j] == old.records()[j],
        new.records()[i].id == old.records()[i].id,
        old.records()[i].status == PaymentStatus::Validated || old.records()[i].status == PaymentStatus::Accepted,
        old.records()[i].status == PaymentStatus::Accepted ==> new.records()[i].status == PaymentStatus::Cancelled,
        new.records()[i].status == PaymentStatus::Accepted || new.records()[i].status == PaymentStatus::Failed
            || new.records()[i].status == PaymentStatus::Cancelled,
        new.records()[i].status == PaymentStatus::Accepted ==> holds(new.messages(), old.records()[i].id),
        new.messages() == old.messages() || (new.messages().len() == old.messages().len() + 1
            && new.messages().drop_last() == old.messages() && new.messages().last().message_id
            == old.records()[i].id && new.records()[i].status == PaymentStatus::Accepted),
        new.attempts() == old.attempts() || (new.attempts() == old.attempts().push(old.records()[i].id)
            && old.records()[i].status == PaymentStatus::Validated),
    ensures
        new.wf(),
{
    let orec = old.records();
    let nrec = new.records();
    let id = orec[i].id;
    assert forall|j: int| 0 <= j < orec.len() implies #[trigger] nrec[j].id == orec[j].id by {
        if j != i {
            assert(nrec[j] == orec[j]);
        }
    }
    assert forall|j: int| 0 <= j < nrec.len() implies #[trigger] orec[j].id == nrec[j].id by {
        if j != i {
            assert(nrec[j] == orec[j]);
        }
    }
    lemma_id_index(orec, i);
    lemma_id_index(nrec, i);
    assert forall|x: u128| has_id(orec, x) implies has_id(nrec, x) && id_index(nrec, x) == id_index(orec, x) by {
        lemma_id_index_stable(orec, nrec, x);
    }
    assert forall|x: u128| has_id(orec, x) && x != id implies #[trigger] new.status_of(x) == old.status_of(x) by {
        lemma_id_index_stable(orec, nrec, x);
        let j = id_index(orec, x);
        assert(orec[j].id == x);
        assert(j != i);
        assert(nrec[j] == orec[j]);
    }
    assert(new.status_of(id) == nrec[i].status);
    assert(old.status_of(id) == orec[i].status);
    if orec[i].status == PaymentStatus::Validated {
        assert(count(old.attempts(), id) == 0);
        assert forall|k: int| 0 <= k < old.messages().len() implies #[trigger] old.messages()[k].message_id != id by {
            assert(has_id(orec, old.messages()[k].message_id));
        }
    }
    assert forall|j: int| 0 <= j < nrec.len() implies settled(#[trigger] nrec[j].status) by {
        if j != i {
            assert(nrec[j] == orec[j]);
        }
    }
    assert forall|x: u128| holds(old.messages(), x) implies holds(new.messages(), x) by {
        let k = choose|k: int| 0 <= k < old.messages().len() && #[trigger] old.messages()[k].message_id == x;
        if new.messages() != old.messages() {
            assert(new.messages()[k] == old.messages()[k]);
        }
    }
    assert forall|j: int|
        0 <= j < nrec.len() && #[trigger] nrec[j].status == PaymentStatus::Accepted implies holds(
        new.messages(),
        nrec[j].id,
    ) by {
        if j != i {
            assert(nrec[j] == orec[j]);
        }
    }
    assert forall|x: u128| x != id implies #[trigger] count(new.attempts(), x) == count(old.attempts(), x) by {
        if new.attempts() != old.attempts() {
            lemma_count_push(old.attempts(), id, x);
        }
    }
    if new.attempts() != old.attempts() {
        lemma_count_push(old.attempts(), id, id);
    }
    assert forall|j: int|
        0 <= j < nrec.len() && #[trigger] nrec[j].status == PaymentStatus::Validated implies count(
        new.attempts(),
        nrec[j].id,
    ) == 0 by {
        assert(j != i);
        assert(nrec[j] == orec[j]);
        assert(orec[j].id != id);
    }
    assert forall|k: int| 0 <= k < new.messages().len() implies has_id(
        nrec,
        #[trigger] new.messages()[k].message_id,
    ) by {
        if k < old.messages().len() {
            if new.messages() != old.messages() {
                assert(new.messages()[k] == old.messages()[k]);
            }
            assert(has_id(orec, old.messages()[k].message_id));
        }
    }
    assert forall|k: int| 0 <= k < new.attempts().len() implies has_id(nrec, #[trigger] new.attempts()[k]) by {
        if k < old.attempts().len() {
            assert(new.attempts()[k] == old.attempts()[k]);
            assert(has_id(orec, old.attempts()[k]));
        }
    }
    assert forall|x: u128| #[trigger] count(new.attempts(), x) <= 1 by {
        assert(count(old.attempts(), x) <= 1);
    }
    assert forall|k: int| 0 <= k < new.messages().len() implies (new.status_of(
        #[trigger] new.messages()[k].message_id,
    ) == PaymentStatus::Accepted || new.status_of(new.messages()[k].message_id) == PaymentStatus::Cancelled) by {
        if k < old.messages().len() {
            if new.messages() != old.messages() {
                assert(new.messages()[k] == old.messages()[k]);
            }
            assert(has_id(orec, old.messages()[k].message_id));
        }
    }
    assert forall|k: int| 0 <= k < new.attempts().len() implies new.status_of(#[trigger] new.attempts()[k])
        != PaymentStatus::Rejected by {
        if k < old.attempts().len() {
            assert(new.attempts()[k] == old.attempts()[k]);
            assert(has_id(orec, old.attempts()[k]));
        }
    }
}

/// A message the host must hand to the downstream channel.
#[derive(Debug, Clone, Copy, PartialEq, Eq)]
pub struct PublishOrder {
    pub message_id: u128,
    pub payment_type: PaymentType,
    pub routing_key: &'static str,
}

/// The result of staging a submission.
#[derive(Debug, Clone, PartialEq, Eq)]
pub enum Staged {
    /// The instruction needs no publish: it was known already or is rejected.
    Done(PaymentResponse),
    /// The instruction is Validated; its message is to be published and the
    /// outcome handed back through `settle_publish`.
    Publish(PublishOrder),
}

/// Record `i` of `old` moved to `status` with `failure`, nothing else changed
/// in the repository.
pub open spec fn moved(
    old: Seq<PaymentRecord>,
    new: Seq<PaymentRecord>,
    i: int,
    status: PaymentStatus,
    failure: Option<PublishFailure>,
) -> bool {
    &&& new.len() == old.len()
    &&& forall|j: int| 0 <= j < old.len() && j != i ==> #[trigger] new[j] == old[j]
    &&& new[i].id == old[i].id
    &&& new[i].request == old[i].request
    &&& new[i].created_at == old[i].created_at
    &&& new[i].status == status
    &&& new[i].failure == failure
    &&& new[i].validation_errors@.len() == 0
}

#[derive(Debug)]
pub struct PaymentServiceImpl {
    pub validator: ISO20022PaymentValidator,
    pub message_publisher: InMemoryPublisher,
    pub repository: InMemoryPaymentRepository,
    pub mandates: MandateRegistry,
}

impl PaymentServiceImpl {
    pub open spec fn records(&self) -> Seq<PaymentRecord> {
        self.repository.records@
    }

    pub open spec fn messages(&self) -> Seq<PublishedMessage> {
        self.message_publisher.messages@
    }

    pub open spec fn attempts(&self) -> Seq<u128> {
        self.message_publisher.attempts@
    }

    /// The status of the record with this identifier.
    pub open spec fn status_of(&self, id: u128) -> PaymentStatus {
        self.records()[id_index(self.records(), id)].status
    }

    /// The engine's invariant: no record rests in Pending, a Validated
    /// record was never handed to the in-process publisher, every accepted
    /// record's message is held, every message and publish call belongs to a
    /// record, and no instruction is handed to the publisher twice; a held
    /// message belongs to an Accepted or Cancelled record, and no Rejected
    /// record was ever handed to the publisher.
    pub open spec fn wf(&self) -> bool {
        &&& self.repository.wf()
        &&& self.message_publisher.wf()
        &&& self.mandates.wf()
        &&& forall|i: int| 0 <= i < self.records().len() ==> settled(#[trigger] self.records()[i].status)
        &&& forall|i: int|
            0 <= i < self.records().len() && #[trigger] self.records()[i].status == PaymentStatus::Accepted
                ==> holds(self.messages(), self.records()[i].id)
        &&& forall|i: int|
            0 <= i < self.records().len() && #[trigger] self.records()[i].status == PaymentStatus::Validated
                ==> count(self.attempts(), self.records()[i].id) == 0
        &&& forall|k: int| 0 <= k < self.messages().len() ==> has_id(self.records(), #[trigger] self.messages()[k].message_id)
        &&& forall|k: int| 0 <= k < self.attempts().len() ==> has_id(self.records(), #[trigger] self.attempts()[k])
        &&& forall|x: u128| #[trigger] count(self.attempts(), x) <= 1
        &&& forall|k: int|
            0 <= k < self.messages().len() ==> (self.status_of(#[trigger] self.messages()[k].message_id)
                == PaymentStatus::Accepted || self.status_of(self.messages()[k].message_id)
                == PaymentStatus::Cancelled)
        &&& forall|k: int|
            0 <= k < self.attempts().len() ==> self.status_of(#[trigger] self.attempts()[k])
                != PaymentStatus::Rejected
    }

    /// Nothing observable changed.
    pub open spec fn unchanged(&self, other: &Self) -> bool {
        &&& other.records() == self.records()
        &&& other.messages() == self.messages()
        &&& other.attempts() == self.attempts()
        &&& other.message_publisher.online == self.message_publisher.online
        &&& other.mandates == self.mandates
    }

    /// What `submit_at(request, id, now)` does, taking `old` to `new` with result `r`.
    pub open spec fn submitted(
        old: &Self,
        new: &Self,
        request: PaymentRequest,
        id: u128,
        now: u64,
        r: Result<PaymentResponse, ServiceError>,
    ) -> bool {
        let today = today_of(now);
        let ms = old.mandates.mandates@;
        if has_key(old.records(), request.key()) {
            &&& old.unchanged(new)
            &&& (r matches Ok(resp) && resp.projects(old.records()[key_index(old.records(), request.key())]))
        } else if has_id(old.records(), id) {
            &&& old.unchanged(new)
            &&& r == Err::<PaymentResponse, ServiceError>(ServiceError::Repository(RepositoryFailure::Conflict))
        } else {
            let rec = new.records().last();
            let status = outcome_status(request, today, ms, old.message_publisher.online);
            &&& new.records().len() == old.records().len() + 1
            &&& new.records().drop_last() == old.records()
            &&& rec.id == id
            &&& rec.request == request
            &&& rec.status == status
            &&& rec.validation_errors@ == outcome_errors(request, today, ms)
            &&& rec.failure == if status == PaymentStatus::Failed {
                Some(PublishFailure::Unavailable)
            } else {
                None
            }
            &&& rec.created_at == now
            &&& rec.updated_at == now
            &&& (r matches Ok(resp) && resp.projects(rec))
            &&& new.mandates == old.mandates
            &&& new.message_publisher.online == old.message_publisher.online
            &&& if status == PaymentStatus::Rejected {
                new.attempts() == old.attempts() && new.messages() == old.messages()
            } else {
                &&& new.attempts() == old.attempts().push(id)
                &&& if status == PaymentStatus::Accepted {
                    &&& new.messages().len() == old.messages().len() + 1
                    &&& new.messages().drop_last() == old.messages()
                    &&& message_is(new.messages().last(), id, request.payment_type)
                } else {
                    new.messages() == old.messages()
                }
            }
        }
    }

    pub fn new(mandates: MandateRegistry, online: bool) -> (r: Self)
        requires
            mandates.wf(),
        ensures
            r.wf(),
            r.records().len() == 0,
            r.messages().len() == 0,
            r.attempts().len() == 0,
            r.mandates == mandates,
            r.message_publisher.online == online,
    {
        PaymentServiceImpl {
            validator: ISO20022PaymentValidator::new(),
            message_publisher: InMemoryPublisher::new(online),
            repository: InMemoryPaymentRepository::new(),
            mandates,
        }
    }
    /// Submits an instruction under identifier `id` at time `now`.
    ///
    /// A known idempotency key returns the recorded outcome and changes
    /// nothing. Otherwise a Pending record is stored, validated (structure,
    /// then business rules), and either rejected with its findings or
    /// published and accepted; a refused publish leaves it Failed.
    pub fn submit_at(&mut self, request: PaymentRequest, id: u128, now: u64) -> (r: Result<
        PaymentResponse,
        ServiceError,
    >)
        requires
            old(self).wf(),
        ensures
            final(self).wf(),
            Self::submitted(old(self), final(self), request, id, now, r),
    {
        match self.repository.get_by_idempotency_key(&request.sender_id, &request.request_id) {
            Some(rec) => {
                return Ok(rec.to_response());
            },
            None => {},
        }
        let payment_type = request.payment_type;
        let ghost req = request;
        let ghost today = today_of(now);
        let ghost ms = self.mandates.mandates@;
        match self.repository.create(id, request, now) {
            Ok(()) => {},
            Err(e) => {
                assert(self.records() == old(self).records());
                assert(self.attempts() == old(self).attempts());
                assert(self.messages() == old(self).messages());
                return Err(ServiceError::Repository(e));
            },
        }
        let n = self.repository.records.len() - 1;
        proof {
            lemma_id_index(self.repository.records@, n as int);
        }
        let today_exec = (now / 86400) as i64;
        let outcome: Result<(), ValidationFailure> = match self.validator.validate(
            &self.repository.records[n].request,
            today_exec,
        ) {
            Ok(()) => self.validator.validate_business_rules(&self.repository.records[n].request, &self.mandates),
            Err(f) => Err(f),
        };
        match outcome {
            Err(f) => {
                if let Err(e) = self.repository.update_status(id, PaymentStatus::Rejected, f.diagnostics, None, now) {
                    return Err(ServiceError::Repository(e));
                }
            },
            Ok(()) => {
                if let Err(e) = self.repository.update_status(id, PaymentStatus::Validated, Vec::new(), None, now) {
                    return Err(ServiceError::Repository(e));
                }
                proof {
                    lemma_id_index(self.repository.records@, n as int);
                }
                let published = self.message_publisher.publish(payment_type.routing_key(), id, payment_type);
                let settled_write = match published {
                    Ok(_) => self.repository.update_status(id, PaymentStatus::Accepted, Vec::new(), None, now),
                    Err(e) => self.repository.update_status(id, PaymentStatus::Failed, Vec::new(), Some(e), now),
                };
                if let Err(e) = settled_write {
                    return Err(ServiceError::Repository(e));
                }
            },
        }
        assert(self.repository.records@.drop_last() =~= old(self).repository.records@);
        let resp = self.repository.records[n].to_response();
        proof {
            if self.message_publisher.messages@ != old(self).message_publisher.messages@ {
                assert(self.message_publisher.messages@[old(self).message_publisher.messages@.len() as int].message_id == id);
            }
            lemma_append_keeps_wf(old(self), self, id);
        }
        Ok(resp)
    }

    /// The status of the payment with this identifier; a query never
    /// fails, and an identifier that was never issued has no status.
    pub fn get_status(&self, payment_id: u128) -> (r: Result<Option<PaymentStatus>, ServiceError>)
        requires
            self.wf(),
        ensures
            !has_id(self.records(), payment_id) ==> r == Ok::<Option<PaymentStatus>, ServiceError>(None),
            has_id(self.records(), payment_id) ==> r == Ok::<Option<PaymentStatus>, ServiceError>(
                Some(self.records()[id_index(self.records(), payment_id)].status),
            ),
    {
        match self.repository.get(payment_id) {
            Some(rec) => Ok(Some(rec.status)),
            None => Ok(None),
        }
    }

    /// The recorded outcome of the payment with this identifier.
    pub fn get_payment(&self, payment_id: u128) -> (r: Result<PaymentResponse, ServiceError>)
        requires
            self.wf(),
        ensures
            !has_id(self.records(), payment_id) ==> r == Err::<PaymentResponse, ServiceError>(ServiceError::NotFound),
            has_id(self.records(), payment_id) ==> (r matches Ok(resp) && resp.projects(
                self.records()[id_index(self.records(), payment_id)],
            )),
    {
        match self.repository.get(payment_id) {
            Some(rec) => Ok(rec.to_response()),
            None => Err(ServiceError::NotFound),
        }
    }

    /// Cancels an accepted payment; any other state refuses cancellation.
    pub fn cancel_payment(&mut self, payment_id: u128, now: u64) -> (r: Result<PaymentResponse, ServiceError>)
        requires
            old(self).wf(),
        ensures
            final(self).wf(),
            !has_id(old(self).records(), payment_id) ==> r == Err::<PaymentResponse, ServiceError>(
                ServiceError::NotFound,
            ),
            has_id(old(self).records(), payment_id) && old(self).records()[id_index(
                old(self).records(),
                payment_id,
            )].status != PaymentStatus::Accepted ==> r == Err::<PaymentResponse, ServiceError>(
                ServiceError::InvalidState,
            ),
            has_id(old(self).records(), payment_id) && old(self).records()[id_index(
                old(self).records(),
                payment_id,
            )].status == PaymentStatus::Accepted ==> r is Ok,
            r is Err ==> old(self).unchanged(final(self)),
            r is Ok ==> {
                let i = id_index(old(self).records(), payment_id);
                &&& old(self).records()[i].status == PaymentStatus::Accepted
                &&& final(self).records().len() == old(self).records().len()
                &&& forall|j: int|
                    0 <= j < old(self).records().len() && j != i ==> #[trigger] final(self).records()[j]
                        == old(self).records()[j]
                &&& final(self).records()[i].status == PaymentStatus::Cancelled
                &&& final(self).records()[i].id == payment_id
                &&& final(self).records()[i].request == old(self).records()[i].request
                &&& (r matches Ok(resp) && resp.projects(final(self).records()[i]))
                &&& final(self).messages() == old(self).messages()
                &&& final(self).attempts() == old(self).attempts()
                &&& final(self).mandates == old(self).mandates
            },
    {
        let status = match self.repository.get(payment_id) {
            Some(rec) => rec.status,
            None => {
                return Err(ServiceError::NotFound);
            },
        };
        if status != PaymentStatus::Accepted {
            return Err(ServiceError::InvalidState);
        }
        let ghost i = id_index(self.records(), payment_id);
        if let Err(e) = self.repository.update_status(payment_id, PaymentStatus::Cancelled, Vec::new(), None, now) {
            return Err(ServiceError::Repository(e));
        }
        let resp = match self.repository.get(payment_id) {
            Some(rec) => {
                proof {
                    lemma_id_index(self.records(), i);
                }
                rec.to_response()
            },
            None => {
                proof {
                    assert(self.records()[i].id == payment_id);
                }
                return Err(ServiceError::NotFound);
            },
        };
        proof {
            let orec = old(self).records();
            let nrec = self.records();
            assert forall|j: int| 0 <= j < nrec.len() implies settled(#[trigger] nrec[j].status) by {
                if j != i {
                    assert(nrec[j] == orec[j]);
                }
            }
            assert forall|x: u128| has_id(orec, x) implies has_id(nrec, x) by {
                let j = choose|j: int| 0 <= j < orec.len() && #[trigger] orec[j].id == x;
                if j != i {
                    assert(nrec[j] == orec[j]);
                } else {
                    assert(nrec[i].id == x);
                }
            }
            assert forall|j: int|
                0 <= j < nrec.len() && #[trigger] nrec[j].status == PaymentStatus::Accepted implies holds(
                self.messages(),
                nrec[j].id,
            ) by {
                assert(nrec[j] == orec[j]);
            }
            assert forall|k: int| 0 <= k < self.messages().len() implies has_id(
                nrec,
                #[trigger] self.messages()[k].message_id,
            ) by {
                assert(has_id(orec, old(self).messages()[k].message_id));
            }
            assert forall|k: int| 0 <= k < self.attempts().len() implies has_id(nrec, #[trigger] self.attempts()[k]) by {
                assert(has_id(orec, old(self).attempts()[k]));
            }
            assert forall|x: u128| #[trigger] count(self.attempts(), x) <= 1 by {
                assert(count(old(self).attempts(), x) <= 1);
            }
        }
        Ok(resp)
    }

    /// Submits an instruction under a fresh random identifier at the current time.
    pub fn process_payment(&mut self, request: PaymentRequest) -> (r: Result<PaymentResponse, ServiceError>)
        requires
            old(self).wf(),
        ensures
            final(self).wf(),
            exists|id: u128, now: u64| Self::submitted(old(self), final(self), request, id, now, r),
    {
        let id = new_payment_id();
        let now = now_seconds();
        self.submit_at(request, id, now)
    }

    /// Submits a credit transfer.
    pub fn process_credit_transfer(
        &mut self,
        sender_id: String,
        request_id: String,
        transfer: CreditTransferRequest,
    ) -> (r: Result<PaymentResponse, ServiceError>)
        requires
            old(self).wf(),
        ensures
            final(self).wf(),
            exists|req: PaymentRequest, id: u128, now: u64|
                req.message_type@ == "pain.001"@ && req.payment_type == PaymentType::CreditTransfer && req.message_payload == Payload::Transfer(
                    transfer,
                ) && req.sender_id == sender_id && req.request_id == request_id && Self::submitted(
                    old(self),
                    final(self),
                    req,
                    id,
                    now,
                    r,
                ),
    {
        let req = PaymentRequest::credit_transfer(sender_id, request_id, transfer);
        self.process_payment(req)
    }

    /// Submits a direct debit.
    pub fn process_direct_debit(&mut self, sender_id: String, request_id: String, debit: DirectDebitRequest) -> (r:
        Result<PaymentResponse, ServiceError>)
        requires
            old(self).wf(),
        ensures
            final(self).wf(),
            exists|req: PaymentRequest, id: u128, now: u64|
                req.message_type@ == "pain.008"@ && req.payment_type == PaymentType::DirectDebit && req.message_payload == Payload::Debit(debit)
                    && req.sender_id == sender_id && req.request_id == request_id && Self::submitted(
                    old(self),
                    final(self),
                    req,
                    id,
                    now,
                    r,
                ),
    {
        let req = PaymentRequest::direct_debit(sender_id, request_id, debit);
        self.process_payment(req)
    }

    /// Submits an instant payment.
    pub fn process_instant_payment(
        &mut self,
        sender_id: String,
        request_id: String,
        payment: InstantPaymentRequest,
    ) -> (r: Result<PaymentResponse, ServiceError>)
        requires
            old(self).wf(),
        ensures
            final(self).wf(),
            exists|req: PaymentRequest, id: u128, now: u64|
                req.message_type@ == "pacs.008"@ && req.payment_type == PaymentType::RealTimePayment && req.message_payload == Payload::Instant(
                    payment,
                ) && req.sender_id == sender_id && req.request_id == request_id && Self::submitted(
                    old(self),
                    final(self),
                    req,
                    id,
                    now,
                    r,
                ),
    {
        let req = PaymentRequest::instant_payment(sender_id, request_id, payment);
        self.process_payment(req)
    }

    /// Submits a batch, accepted or rejected as a whole.
    pub fn process_bulk_payment(&mut self, sender_id: String, request_id: String, bulk: BulkPaymentRequest) -> (r:
        Result<PaymentResponse, ServiceError>)
        requires
            old(self).wf(),
        ensures
            final(self).wf(),
            exists|req: PaymentRequest, id: u128, now: u64|
                req.message_type@ == "pain.001"@ && req.payment_type == PaymentType::BulkPayment && req.message_payload == Payload::Bulk(bulk)
                    && req.sender_id == sender_id && req.request_id == request_id && Self::submitted(
                    old(self),
                    final(self),
                    req,
                    id,
                    now,
                    r,
                ),
    {
        let req = PaymentRequest::bulk_payment(sender_id, request_id, bulk);
        self.process_payment(req)
    }
    /// The status of each member of the batch with this identifier.
    pub fn get_bulk_status(&self, bulk_id: u128) -> (r: Result<Vec<PaymentStatus>, ServiceError>)
        requires
            self.wf(),
        ensures
            !has_id(self.records(), bulk_id) ==> r == Err::<Vec<PaymentStatus>, ServiceError>(ServiceError::NotFound),
            has_id(self.records(), bulk_id) && !(self.records()[id_index(self.records(), bulk_id)].request.message_payload is Bulk)
                ==> r == Err::<Vec<PaymentStatus>, ServiceError>(ServiceError::InvalidState),
            has_id(self.records(), bulk_id) && self.records()[id_index(self.records(), bulk_id)].request.message_payload is Bulk
                ==> (r matches Ok(v) && v@ == child_statuses(self.records()[id_index(self.records(), bulk_id)])),
    {
        let rec = match self.repository.get(bulk_id) {
            Some(rec) => rec,
            None => {
                return Err(ServiceError::NotFound);
            },
        };
        let n = match &rec.request.message_payload {
            Payload::Bulk(b) => b.payments.len(),
            _ => {
                return Err(ServiceError::InvalidState);
            },
        };
        let mut v: Vec<PaymentStatus> = Vec::new();
        let mut i: usize = 0;
        while i < n
            invariant
                i <= n,
                n == child_count(rec.request),
                v@ == Seq::new(i as nat, |j: int| rec.status),
            decreases n - i,
        {
            v.push(rec.status);
            i = i + 1;
            assert(v@ =~= Seq::new(i as nat, |j: int| rec.status));
        }
        Ok(v)
    }

    /// Cancels an accepted batch: every member is cancelled with it, at once.
    pub fn cancel_bulk_payment(&mut self, bulk_id: u128, now: u64) -> (r: Result<PaymentResponse, ServiceError>)
        requires
            old(self).wf(),
        ensures
            final(self).wf(),
            !has_id(old(self).records(), bulk_id) ==> r == Err::<PaymentResponse, ServiceError>(
                ServiceError::NotFound,
            ),
            has_id(old(self).records(), bulk_id) ==> {
                let i = id_index(old(self).records(), bulk_id);
                let rec = old(self).records()[i];
                &&& !(rec.request.message_payload is Bulk) || rec.status != PaymentStatus::Accepted
                    ==> r == Err::<PaymentResponse, ServiceError>(ServiceError::InvalidState)
                &&& rec.request.message_payload is Bulk && rec.status == PaymentStatus::Accepted ==> r is Ok
            },
            r is Err ==> old(self).unchanged(final(self)),
            r is Ok ==> {
                let i = id_index(old(self).records(), bulk_id);
                &&& final(self).records().len() == old(self).records().len()
                &&& forall|j: int|
                    0 <= j < old(self).records().len() && j != i ==> #[trigger] final(self).records()[j]
                        == old(self).records()[j]
                &&& final(self).records()[i].request == old(self).records()[i].request
                &&& final(self).records()[i].status == PaymentStatus::Cancelled
                &&& child_statuses(final(self).records()[i]) == Seq::new(
                    child_count(old(self).records()[i].request),
                    |j: int| PaymentStatus::Cancelled,
                )
                &&& (r matches Ok(resp) && resp.projects(final(self).records()[i]))
                &&& final(self).messages() == old(self).messages()
                &&& final(self).attempts() == old(self).attempts()
            },
    {
        let is_bulk = match self.repository.get(bulk_id) {
            Some(rec) => match &rec.request.message_payload {
                Payload::Bulk(_) => true,
                _ => false,
            },
            None => {
                return Err(ServiceError::NotFound);
            },
        };
        if !is_bulk {
            return Err(ServiceError::InvalidState);
        }
        let r = self.cancel_payment(bulk_id, now);
        proof {
            if r is Ok {
                let i = id_index(old(self).records(), bulk_id);
                assert(child_statuses(self.records()[i]) =~= Seq::new(
                    child_count(old(self).records()[i].request),
                    |j: int| PaymentStatus::Cancelled,
                ));
            }
        }
        r
    }
    /// The first half of a submission whose publish is done by the host:
    /// idempotency check, Pending record, validation, then either a
    /// rejection or a Validated record and the message to publish.
    pub fn stage_at(&mut self, request: PaymentRequest, id: u128, now: u64) -> (r: Result<Staged, ServiceError>)
        requires
            old(self).wf(),
        ensures
            final(self).wf(),
            final(self).messages() == old(self).messages(),
            final(self).attempts() == old(self).attempts(),
            final(self).mandates == old(self).mandates,
            has_key(old(self).records(), request.key()) ==> old(self).unchanged(final(self)) && (r matches Ok(
                Staged::Done(resp),
            ) && resp.projects(old(self).records()[key_index(old(self).records(), request.key())])),
            !has_key(old(self).records(), request.key()) && has_id(old(self).records(), id) ==> old(self).unchanged(
                final(self),
            ) && r == Err::<Staged, ServiceError>(ServiceError::Repository(RepositoryFailure::Conflict)),
            !has_key(old(self).records(), request.key()) && !has_id(old(self).records(), id) ==> {
                let rec = final(self).records().last();
                let errors = outcome_errors(request, today_of(now), old(self).mandates.mandates@);
                &&& final(self).records().len() == old(self).records().len() + 1
                &&& final(self).records().drop_last() == old(self).records()
                &&& rec.id == id
                &&& rec.request == request
                &&& rec.created_at == now
                &&& rec.validation_errors@ == errors
                &&& rec.failure is None
                &&& errors.len() > 0 ==> rec.status == PaymentStatus::Rejected && (r matches Ok(Staged::Done(resp))
                    && resp.projects(rec))
                &&& errors.len() == 0 ==> rec.status == PaymentStatus::Validated && (r matches Ok(
                    Staged::Publish(o),
                ) && o.message_id == id && o.payment_type == request.payment_type && o.routing_key@
                    == request.payment_type.routing_key_spec())
            },
    {
        match self.repository.get_by_idempotency_key(&request.sender_id, &request.request_id) {
            Some(rec) => {
                return Ok(Staged::Done(rec.to_response()));
            },
            None => {},
        }
        let payment_type = request.payment_type;
        match self.repository.create(id, request, now) {
            Ok(()) => {},
            Err(e) => {
                assert(self.records() == old(self).records());
                assert(self.attempts() == old(self).attempts());
                assert(self.messages() == old(self).messages());
                return Err(ServiceError::Repository(e));
            },
        }
        let n = self.repository.records.len() - 1;
        proof {
            lemma_id_index(self.repository.records@, n as int);
        }
        let today_exec = (now / 86400) as i64;
        let outcome: Result<(), ValidationFailure> = match self.validator.validate(
            &self.repository.records[n].request,
            today_exec,
        ) {
            Ok(()) => self.validator.validate_business_rules(&self.repository.records[n].request, &self.mandates),
            Err(f) => Err(f),
        };
        let staged = match outcome {
            Err(f) => {
                if let Err(e) = self.repository.update_status(id, PaymentStatus::Rejected, f.diagnostics, None, now) {
                    return Err(ServiceError::Repository(e));
                }
                Staged::Done(self.repository.records[n].to_response())
            },
            Ok(()) => {
                if let Err(e) = self.repository.update_status(id, PaymentStatus::Validated, Vec::new(), None, now) {
                    return Err(ServiceError::Repository(e));
                }
                Staged::Publish(PublishOrder { message_id: id, payment_type, routing_key: payment_type.routing_key() })
            },
        };
        assert(self.repository.records@.drop_last() =~= old(self).repository.records@);
        proof {
            lemma_append_keeps_wf(old(self), self, id);
        }
        Ok(staged)
    }

    /// The second half of a staged submission: the channel's outcome for a
    /// Validated record. An acknowledgment makes it Accepted and enters the
    /// message in the deduplication record; a failure makes it Failed.
    pub fn settle_publish(&mut self, payment_id: u128, outcome: Option<PublishFailure>, now: u64) -> (r: Result<
        PaymentResponse,
        ServiceError,
    >)
        requires
            old(self).wf(),
        ensures
            final(self).wf(),
            final(self).attempts() == old(self).attempts(),
            final(self).mandates == old(self).mandates,
            !has_id(old(self).records(), payment_id) ==> r == Err::<PaymentResponse, ServiceError>(
                ServiceError::NotFound,
            ),
            has_id(old(self).records(), payment_id) && old(self).status_of(payment_id) != PaymentStatus::Validated
                ==> r == Err::<PaymentResponse, ServiceError>(ServiceError::InvalidState),
            r is Err ==> old(self).unchanged(final(self)),
            has_id(old(self).records(), payment_id) && old(self).status_of(payment_id) == PaymentStatus::Validated
                ==> {
                let i = id_index(old(self).records(), payment_id);
                &&& r is Ok
                &&& (r matches Ok(resp) && resp.projects(final(self).records()[i]))
                &&& outcome is None ==> moved(old(self).records(), final(self).records(), i, PaymentStatus::Accepted, None)
                    && final(self).messages().len() == old(self).messages().len() + 1
                    && final(self).messages().drop_last() == old(self).messages()
                    && message_is(final(self).messages().last(), payment_id, old(self).records()[i].request.payment_type)
                &&& outcome is Some ==> moved(old(self).records(), final(self).records(), i, PaymentStatus::Failed, outcome)
                    && final(self).messages() == old(self).messages()
            },
    {
        let payment_type = match self.repository.get(payment_id) {
            Some(rec) => {
                if rec.status != PaymentStatus::Validated {
                    return Err(ServiceError::InvalidState);
                }
                rec.request.payment_type
            },
            None => {
                return Err(ServiceError::NotFound);
            },
        };
        let ghost i = id_index(self.records(), payment_id);
        proof {
            lemma_id_index(self.records(), i);
            assert forall|k: int| 0 <= k < self.messages().len() implies #[trigger] self.messages()[k].message_id != payment_id by {
                assert(has_id(self.records(), self.messages()[k].message_id));
            }
        }
        let write = match outcome {
            None => {
                self.message_publisher.record_delivery(payment_type.routing_key(), payment_id, payment_type);
                self.repository.update_status(payment_id, PaymentStatus::Accepted, Vec::new(), None, now)
            },
            Some(f) => self.repository.update_status(payment_id, PaymentStatus::Failed, Vec::new(), Some(f), now),
        };
        if let Err(e) = write {
            return Err(ServiceError::Repository(e));
        }
        proof {
            if self.messages() != old(self).messages() {
                assert(self.messages()[old(self).messages().len() as int].message_id == payment_id);
            }
            lemma_update_keeps_wf(old(self), self, i);
            lemma_id_index(self.records(), i);
        }
        match self.repository.get(payment_id) {
            Some(rec) => Ok(rec.to_response()),
            None => Err(ServiceError::NotFound),
        }
    }
    /// The recovery pass for a record left Validated: the channel's
    /// deduplication record decides. A held message makes the record Accepted
    /// without publishing again; otherwise the message is published once and
    /// the record settles Accepted or Failed.
    pub fn recover_payment(&mut self, payment_id: u128, now: u64) -> (r: Result<PaymentResponse, ServiceError>)
        requires
            old(self).wf(),
        ensures
            final(self).wf(),
            final(self).mandates == old(self).mandates,
            !has_id(old(self).records(), payment_id) ==> r == Err::<PaymentResponse, ServiceError>(
                ServiceError::NotFound,
            ),
            has_id(old(self).records(), payment_id) && old(self).status_of(payment_id) != PaymentStatus::Validated
                ==> r == Err::<PaymentResponse, ServiceError>(ServiceError::InvalidState),
            r is Err ==> old(self).unchanged(final(self)),
            has_id(old(self).records(), payment_id) && old(self).status_of(payment_id) == PaymentStatus::Validated
                ==> {
                let i = id_index(old(self).records(), payment_id);
                let t = old(self).records()[i].request.payment_type;
                &&& r is Ok
                &&& (r matches Ok(resp) && resp.projects(final(self).records()[i]))
                &&& old(self).message_publisher.delivered(payment_id) ==> moved(
                    old(self).records(),
                    final(self).records(),
                    i,
                    PaymentStatus::Accepted,
                    None,
                ) && final(self).messages() == old(self).messages() && final(self).attempts() == old(self).attempts()
                &&& !old(self).message_publisher.delivered(payment_id) ==> final(self).attempts()
                    == old(self).attempts().push(payment_id)
                &&& !old(self).message_publisher.delivered(payment_id) && old(self).message_publisher.online ==> moved(
                    old(self).records(),
                    final(self).records(),
                    i,
                    PaymentStatus::Accepted,
                    None,
                ) && final(self).messages().len() == old(self).messages().len() + 1
                    && final(self).messages().drop_last() == old(self).messages()
                    && message_is(final(self).messages().last(), payment_id, t)
                &&& !old(self).message_publisher.delivered(payment_id) && !old(self).message_publisher.online ==> moved(
                    old(self).records(),
                    final(self).records(),
                    i,
                    PaymentStatus::Failed,
                    Some(PublishFailure::Unavailable),
                ) && final(self).messages() == old(self).messages()
            },
    {
        let payment_type = match self.repository.get(payment_id) {
            Some(rec) => {
                if rec.status != PaymentStatus::Validated {
                    return Err(ServiceError::InvalidState);
                }
                rec.request.payment_type
            },
            None => {
                return Err(ServiceError::NotFound);
            },
        };
        let ghost i = id_index(self.records(), payment_id);
        proof {
            lemma_id_index(self.records(), i);
        }
        let write = if self.message_publisher.has_message(payment_id) {
            self.repository.update_status(payment_id, PaymentStatus::Accepted, Vec::new(), None, now)
        } else {
            match self.message_publisher.publish(payment_type.routing_key(), payment_id, payment_type) {
                Ok(_) => self.repository.update_status(payment_id, PaymentStatus::Accepted, Vec::new(), None, now),
                Err(f) => self.repository.update_status(payment_id, PaymentStatus::Failed, Vec::new(), Some(f), now),
            }
        };
        if let Err(e) = write {
            return Err(ServiceError::Repository(e));
        }
        proof {
            if self.messages() != old(self).messages() {
                assert(self.messages()[old(self).messages().len() as int].message_id == payment_id);
            }
            lemma_update_keeps_wf(old(self), self, i);
            lemma_id_index(self.records(), i);
        }
        match self.repository.get(payment_id) {
            Some(rec) => Ok(rec.to_response()),
            None => Err(ServiceError::NotFound),
        }
    }
}

} // verus!
