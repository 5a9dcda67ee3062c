//! Guarantees the engine gives across calls, proved from the contracts of
//! `submit_at` and validation.
use vstd::prelude::*;
use crate::domain::{
    Diagnostic, Field, PaymentRequest, PaymentResponse, PaymentStatus, PaymentType, Rule,
};
use crate::error::ServiceError;
use crate::mandate::{lookup, MandateRecord, MandateStatus};
use crate::publisher::count;
use crate::repository::{has_id, has_key, key_index, lemma_key_index};
use crate::service::{today_of, PaymentServiceImpl};
use crate::validation::{
    business_diags, diag, flag_if, header_diags, member_diags, single_diags, structure_diags,
};

verus! {

/// Two responses report the same recorded outcome.
pub open spec fn same_outcome(a: PaymentResponse, b: PaymentResponse) -> bool {
    &&& a.payment_id == b.payment_id
    &&& a.status == b.status
    &&& a.validation_errors@ == b.validation_errors@
    &&& a.failure == b.failure
    &&& a.created_at == b.created_at
    &&& a.updated_at == b.updated_at
}

/// After a submission that returned a response, the repository holds a
/// record under the instruction's idempotency key, and the response
/// projects that record.
proof fn lemma_submission_recorded(
    s0: &PaymentServiceImpl,
    s1: &PaymentServiceImpl,
    req: PaymentRequest,
    id: u128,
    now: u64,
    r: Result<PaymentResponse, ServiceError>,
)
    requires
        s0.wf(),
        s1.wf(),
        PaymentServiceImpl::submitted(s0, s1, req, id, now, r),
        r is Ok,
    ensures
        has_key(s1.records(), req.key()),
        r->Ok_0.projects(s1.records()[key_index(s1.records(), req.key())]),
{
    if !has_key(s0.records(), req.key()) {
        lemma_key_index(s1.records(), s1.records().len() - 1);
    }
}

/// Resubmitting under the same idempotency key returns the recorded outcome
/// and changes nothing: no second record, no second publish call.
pub proof fn lemma_resubmission_idempotent(
    s0: &PaymentServiceImpl,
    s1: &PaymentServiceImpl,
    s2: &PaymentServiceImpl,
    req1: PaymentRequest,
    req2: PaymentRequest,
    id1: u128,
    id2: u128,
    now1: u64,
    now2: u64,
    r1: Result<PaymentResponse, ServiceError>,
    r2: Result<PaymentResponse, ServiceError>,
)
    requires
        s0.wf(),
        s1.wf(),
        PaymentServiceImpl::submitted(s0, s1, req1, id1, now1, r1),
        PaymentServiceImpl::submitted(s1, s2, req2, id2, now2, r2),
        req2.key() == req1.key(),
        r1 is Ok,
    ensures
        s1.unchanged(s2),
        r2 is Ok,
        same_outcome(r1->Ok_0, r2->Ok_0),
        count(s2.attempts(), r1->Ok_0.payment_id) <= 1,
{
    lemma_submission_recorded(s0, s1, req1, id1, now1, r1);
}

/// Two submissions with one idempotency key, in either order, leave exactly
/// one record under that key and at most one publish call per instruction.
pub proof fn lemma_same_key_single_record(
    s0: &PaymentServiceImpl,
    s1: &PaymentServiceImpl,
    s2: &PaymentServiceImpl,
    req1: PaymentRequest,
    req2: PaymentRequest,
    id1: u128,
    id2: u128,
    now1: u64,
    now2: u64,
    r1: Result<PaymentResponse, ServiceError>,
    r2: Result<PaymentResponse, ServiceError>,
)
    requires
        s0.wf(),
        s1.wf(),
        s2.wf(),
        PaymentServiceImpl::submitted(s0, s1, req1, id1, now1, r1),
        PaymentServiceImpl::submitted(s1, s2, req2, id2, now2, r2),
        req2.key() == req1.key(),
    ensures
        s2.records().len() <= s0.records().len() + 1,
        forall|i: int, j: int|
            0 <= i < s2.records().len() && 0 <= j < s2.records().len() && s2.records()[i].request.key()
                == req1.key() && s2.records()[j].request.key() == req1.key() ==> i == j,
        forall|x: u128| #[trigger] count(s2.attempts(), x) <= 1,
        r1 is Ok && r2 is Ok ==> same_outcome(r1->Ok_0, r2->Ok_0),
        !has_key(s0.records(), req1.key()) && !has_id(s0.records(), id1) ==> r1 is Ok && r2 is Ok
            && has_key(s2.records(), req1.key()) && r2->Ok_0.payment_id == id1,
{
    if r1 is Ok {
        lemma_resubmission_idempotent(s0, s1, s2, req1, req2, id1, id2, now1, now2, r1, r2);
        lemma_submission_recorded(s0, s1, req1, id1, now1, r1);
    }
    assert forall|i: int, j: int|
        0 <= i < s2.records().len() && 0 <= j < s2.records().len() && s2.records()[i].request.key()
            == req1.key() && s2.records()[j].request.key() == req1.key() implies i == j by {
        assert(s2.records()[i].request.key() == s2.records()[j].request.key());
    }
}

/// An instruction that fails structural validation is rejected with at least
/// one diagnostic, and nothing is published.
pub proof fn lemma_structural_failure_rejected(
    s0: &PaymentServiceImpl,
    s1: &PaymentServiceImpl,
    req: PaymentRequest,
    id: u128,
    now: u64,
    r: Result<PaymentResponse, ServiceError>,
)
    requires
        s0.wf(),
        PaymentServiceImpl::submitted(s0, s1, req, id, now, r),
        !has_key(s0.records(), req.key()),
        !has_id(s0.records(), id),
        structure_diags(req, today_of(now)).len() > 0,
    ensures
        r is Ok,
        r->Ok_0.validation_errors@ == structure_diags(req, today_of(now)),
        r->Ok_0.status == PaymentStatus::Rejected,
        r->Ok_0.validation_errors@.len() > 0,
        s1.records().last().status == PaymentStatus::Rejected,
        s1.attempts() == s0.attempts(),
        s1.messages() == s0.messages(),
{
}

/// Each structurally invalid member of a batch has its own finding.
pub proof fn lemma_member_diags_name_member(s: Seq<PaymentRequest>, today: i64, i: int)
    requires
        0 <= i < s.len(),
        single_diags(s[i], today).len() > 0,
    ensures
        member_diags(s, today).contains(
            Diagnostic { field: Field::Payments, rule: Rule::InvalidBatchMember, member: Some(i as usize) },
        ),
    decreases s.len(),
{
    let d = Diagnostic { field: Field::Payments, rule: Rule::InvalidBatchMember, member: Some(i as usize) };
    let prev = member_diags(s.drop_last(), today);
    if i < s.len() - 1 {
        lemma_member_diags_name_member(s.drop_last(), today, i);
        let k = choose|k: int| 0 <= k < prev.len() && prev[k] == d;
        assert(member_diags(s, today)[k] == d);
    } else {
        assert(member_diags(s, today)[prev.len() as int] == d);
    }
}

/// A batch with an invalid member is rejected as a whole: it gets a single
/// Rejected record whose findings name the member, no member gets a record
/// of its own, and nothing is published.
pub proof fn lemma_invalid_member_rejects_batch(
    s0: &PaymentServiceImpl,
    s1: &PaymentServiceImpl,
    req: PaymentRequest,
    id: u128,
    now: u64,
    r: Result<PaymentResponse, ServiceError>,
    i: int,
)
    requires
        s0.wf(),
        PaymentServiceImpl::submitted(s0, s1, req, id, now, r),
        !has_key(s0.records(), req.key()),
        !has_id(s0.records(), id),
        req.payment_type == PaymentType::BulkPayment,
        req.message_payload is Bulk,
        0 <= i < req.message_payload->Bulk_0.payments@.len(),
        single_diags(req.message_payload->Bulk_0.payments@[i], today_of(now)).len() > 0,
    ensures
        r is Ok,
        s1.records().len() == s0.records().len() + 1,
        s1.records().last().request == req,
        s1.records().last().status == PaymentStatus::Rejected,
        r->Ok_0.status == PaymentStatus::Rejected,
        r->Ok_0.validation_errors@.contains(
            Diagnostic { field: Field::Payments, rule: Rule::InvalidBatchMember, member: Some(i as usize) },
        ),
        s1.attempts() == s0.attempts(),
        s1.messages() == s0.messages(),
{
    let today = today_of(now);
    let members = req.message_payload->Bulk_0.payments@;
    let d = Diagnostic { field: Field::Payments, rule: Rule::InvalidBatchMember, member: Some(i as usize) };
    lemma_member_diags_name_member(members, today, i);
    let inner = member_diags(members, today);
    let k = choose|k: int| 0 <= k < inner.len() && inner[k] == d;
    let head = header_diags(req);
    assert(structure_diags(req, today) == head + inner);
    assert(structure_diags(req, today)[head.len() + k] == d);
}

/// A direct debit referencing a mandate that is not Active fails business
/// validation with a diagnostic on the mandate.
pub proof fn lemma_inactive_mandate_fails(req: PaymentRequest, mandates: Seq<MandateRecord>)
    requires
        req.message_payload is Debit,
        lookup(mandates, req.message_payload->Debit_0.mandate_id@) matches Some(s) && s != MandateStatus::Active,
    ensures
        business_diags(req, mandates).len() > 0,
        business_diags(req, mandates).contains(diag(Field::MandateId, Rule::MandateInactive)),
{
    let d = req.message_payload->Debit_0;
    let same = flag_if(d.sender_account@ == d.receiver_account@, diag(Field::ReceiverAccount, Rule::SameAccount));
    assert(business_diags(req, mandates)[same.len() as int] == diag(Field::MandateId, Rule::MandateInactive));
}

/// A direct debit that passes structural validation but references a
/// mandate that is not Active is rejected at the business-rule phase with a
/// diagnostic on the mandate, and nothing is published.
pub proof fn lemma_inactive_mandate_rejects_debit(
    s0: &PaymentServiceImpl,
    s1: &PaymentServiceImpl,
    req: PaymentRequest,
    id: u128,
    now: u64,
    r: Result<PaymentResponse, ServiceError>,
)
    requires
        s0.wf(),
        PaymentServiceImpl::submitted(s0, s1, req, id, now, r),
        !has_key(s0.records(), req.key()),
        !has_id(s0.records(), id),
        req.message_payload is Debit,
        lookup(s0.mandates.mandates@, req.message_payload->Debit_0.mandate_id@) matches Some(s) && s
            != MandateStatus::Active,
        structure_diags(req, today_of(now)).len() == 0,
    ensures
        r is Ok,
        r->Ok_0.status == PaymentStatus::Rejected,
        r->Ok_0.validation_errors@ == business_diags(req, s0.mandates.mandates@),
        r->Ok_0.validation_errors@.contains(diag(Field::MandateId, Rule::MandateInactive)),
        s1.records().last().status == PaymentStatus::Rejected,
        s1.attempts() == s0.attempts(),
        s1.messages() == s0.messages(),
{
    lemma_inactive_mandate_fails(req, s0.mandates.mandates@);
}

} // verus!
