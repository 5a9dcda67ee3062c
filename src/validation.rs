//! Structural and business-rule validation of payment instructions.
//!
//! Each phase yields an ordered list of diagnostics; the phase passes when the
//! list is empty. Validation reads its inputs only.
use vstd::prelude::*;
use crate::domain::{
    BulkPaymentRequest, CreditTransferRequest, Diagnostic, DirectDebitRequest, Field,
    InstantPaymentRequest, MandateRequest, Payload, PaymentRequest, PaymentType, Rule,
};
use crate::error::ValidationFailure;
use crate::mandate::{lookup, MandateRecord, MandateRegistry, MandateStatus};

verus! {

/// Three upper-case ASCII letters.
pub open spec fn currency_ok(s: Seq<char>) -> bool {
    s.len() == 3 && forall|i: int| 0 <= i < 3 ==> 'A' <= #[trigger] s[i] <= 'Z'
}

/// The one-element list holding `d` when `c` holds, else the empty list.
pub open spec fn flag_if(c: bool, d: Diagnostic) -> Seq<Diagnostic> {
    if c {
        seq![d]
    } else {
        Seq::empty()
    }
}

pub open spec fn diag(field: Field, rule: Rule) -> Diagnostic {
    Diagnostic { field, rule, member: None }
}

/// Structural findings on the terms shared by transfers, debits and instant payments.
pub open spec fn terms_diags(
    amount: i64,
    currency: Seq<char>,
    sender: Seq<char>,
    receiver: Seq<char>,
) -> Seq<Diagnostic> {
    flag_if(amount <= 0, diag(Field::Amount, Rule::NotPositive))
        + flag_if(!currency_ok(currency), diag(Field::Currency, Rule::CurrencyCode))
        + flag_if(sender.len() == 0, diag(Field::SenderAccount, Rule::Required))
        + flag_if(receiver.len() == 0, diag(Field::ReceiverAccount, Rule::Required))
}

pub open spec fn transfer_diags(t: CreditTransferRequest) -> Seq<Diagnostic> {
    terms_diags(t.amount, t.currency@, t.sender_account@, t.receiver_account@)
}

pub open spec fn instant_diags(t: InstantPaymentRequest) -> Seq<Diagnostic> {
    terms_diags(t.amount, t.currency@, t.sender_account@, t.receiver_account@)
}

pub open spec fn debit_diags(d: DirectDebitRequest, today: i64) -> Seq<Diagnostic> {
    terms_diags(d.amount, d.currency@, d.sender_account@, d.receiver_account@)
        + flag_if(d.mandate_id@.len() == 0, diag(Field::MandateId, Rule::Required))
        + flag_if(!d.backdated && d.debit_date < today, diag(Field::Date, Rule::DateInPast))
}

pub open spec fn mandate_terms_diags(m: MandateRequest) -> Seq<Diagnostic> {
    flag_if(m.mandate_id@.len() == 0, diag(Field::MandateId, Rule::Required))
        + flag_if(m.debtor_account@.len() == 0, diag(Field::DebtorAccount, Rule::Required))
        + flag_if(m.creditor_account@.len() == 0, diag(Field::CreditorAccount, Rule::Required))
}

/// One finding per structurally invalid member, in batch order.
pub open spec fn member_diags(s: Seq<PaymentRequest>, today: i64) -> Seq<Diagnostic>
    decreases s.len(),
{
    if s.len() == 0 {
        Seq::empty()
    } else {
        member_diags(s.drop_last(), today) + flag_if(
            single_diags(s.last(), today).len() > 0,
            Diagnostic {
                field: Field::Payments,
                rule: Rule::InvalidBatchMember,
                member: Some((s.len() - 1) as usize),
            },
        )
    }
}

pub open spec fn bulk_diags(b: BulkPaymentRequest, today: i64) -> Seq<Diagnostic> {
    if b.payments@.len() == 0 {
        seq![diag(Field::Payments, Rule::EmptyBatch)]
    } else {
        member_diags(b.payments@, today)
    }
}

/// The payload shape each payment type carries.
pub open spec fn type_matches(t: PaymentType, p: Payload) -> bool {
    match p {
        Payload::Transfer(_) => t == PaymentType::CreditTransfer || t == PaymentType::RequestForPayment
            || t == PaymentType::PaymentReturn,
        Payload::Debit(_) => t == PaymentType::DirectDebit,
        Payload::Instant(_) => t == PaymentType::RealTimePayment,
        Payload::Bulk(_) => t == PaymentType::BulkPayment,
        Payload::Mandate(_) => t == PaymentType::Mandate,
    }
}

/// Structural findings on a payload that is not a batch; a batch here is a
/// nested batch.
pub open spec fn single_payload_diags(p: Payload, today: i64) -> Seq<Diagnostic> {
    match p {
        Payload::Transfer(t) => transfer_diags(t),
        Payload::Debit(d) => debit_diags(d, today),
        Payload::Instant(t) => instant_diags(t),
        Payload::Bulk(_) => seq![diag(Field::Payments, Rule::NestedBatch)],
        Payload::Mandate(m) => mandate_terms_diags(m),
    }
}

pub open spec fn header_diags(req: PaymentRequest) -> Seq<Diagnostic> {
    flag_if(req.sender_id@.len() == 0, diag(Field::SenderId, Rule::Required))
        + flag_if(req.request_id@.len() == 0, diag(Field::RequestId, Rule::Required))
}

/// Structural findings on an instruction that stands alone or in a batch.
pub open spec fn single_diags(req: PaymentRequest, today: i64) -> Seq<Diagnostic> {
    header_diags(req) + if type_matches(req.payment_type, req.message_payload) {
        single_payload_diags(req.message_payload, today)
    } else {
        seq![diag(Field::Payload, Rule::PayloadMismatch)]
    }
}

/// All structural findings on an instruction, for a given current day.
pub open spec fn structure_diags(req: PaymentRequest, today: i64) -> Seq<Diagnostic> {
    match req.message_payload {
        Payload::Bulk(b) => header_diags(req) + if type_matches(req.payment_type, req.message_payload) {
            bulk_diags(b, today)
        } else {
            seq![diag(Field::Payload, Rule::PayloadMismatch)]
        },
        _ => single_diags(req, today),
    }
}

/// Findings on the mandate a debit references.
pub open spec fn mandate_ref_diags(status: Option<MandateStatus>) -> Seq<Diagnostic> {
    match status {
        None => seq![diag(Field::MandateId, Rule::MandateNotFound)],
        Some(s) => flag_if(s != MandateStatus::Active, diag(Field::MandateId, Rule::MandateInactive)),
    }
}

/// All business-rule findings on an instruction, against the known mandates.
pub open spec fn business_diags(req: PaymentRequest, mandates: Seq<MandateRecord>) -> Seq<Diagnostic> {
    match req.message_payload {
        Payload::Transfer(t) => flag_if(
            t.sender_account@ == t.receiver_account@,
            diag(Field::ReceiverAccount, Rule::SameAccount),
        ),
        Payload::Instant(t) => flag_if(
            t.sender_account@ == t.receiver_account@,
            diag(Field::ReceiverAccount, Rule::SameAccount),
        ),
        Payload::Debit(d) => flag_if(
            d.sender_account@ == d.receiver_account@,
            diag(Field::ReceiverAccount, Rule::SameAccount),
        ) + mandate_ref_diags(lookup(mandates, d.mandate_id@)),
        Payload::Mandate(m) => flag_if(
            m.debtor_account@ == m.creditor_account@,
            diag(Field::CreditorAccount, Rule::SameAccount),
        ),
        Payload::Bulk(_) => Seq::empty(),
    }
}

/// Both phases pass.
pub open spec fn is_valid(req: PaymentRequest, today: i64, mandates: Seq<MandateRecord>) -> bool {
    structure_diags(req, today).len() == 0 && business_diags(req, mandates).len() == 0
}

fn push_if(acc: &mut Vec<Diagnostic>, c: bool, field: Field, rule: Rule)
    ensures
        final(acc)@ == old(acc)@ + flag_if(c, diag(field, rule)),
{
    if c {
        acc.push(Diagnostic { field, rule, member: None });
    } else {
        assert(old(acc)@ + flag_if(c, diag(field, rule)) =~= old(acc)@);
    }
}

fn is_blank(s: &String) -> (r: bool)
    ensures
        r == (s@.len() == 0),
{
    s.as_str().unicode_len() == 0
}

pub fn is_currency_code(s: &String) -> (r: bool)
    ensures
        r == currency_ok(s@),
{
    let t = s.as_str();
    if t.unicode_len() != 3 {
        return false;
    }
    let mut i: usize = 0;
    while i < 3
        invariant
            i <= 3,
            t@ == s@,
            s@.len() == 3,
            forall|j: int| 0 <= j < i ==> 'A' <= #[trigger] s@[j] <= 'Z',
        decreases 3 - i,
    {
        let c = t.get_char(i);
        if !('A' <= c && c <= 'Z') {
            return false;
        }
        i = i + 1;
    }
    true
}

fn check_terms(
    acc: &mut Vec<Diagnostic>,
    amount: i64,
    currency: &String,
    sender: &String,
    receiver: &String,
)
    ensures
        final(acc)@ == old(acc)@ + terms_diags(amount, currency@, sender@, receiver@),
{
    push_if(acc, amount <= 0, Field::Amount, Rule::NotPositive);
    push_if(acc, !is_currency_code(currency), Field::Currency, Rule::CurrencyCode);
    push_if(acc, is_blank(sender), Field::SenderAccount, Rule::Required);
    push_if(acc, is_blank(receiver), Field::ReceiverAccount, Rule::Required);
    assert(acc@ =~= old(acc)@ + terms_diags(amount, currency@, sender@, receiver@));
}

fn check_bulk(acc: &mut Vec<Diagnostic>, b: &BulkPaymentRequest, today: i64)
    ensures
        final(acc)@ == old(acc)@ + bulk_diags(*b, today),
{
    let n = b.payments.len();
    if n == 0 {
        acc.push(Diagnostic { field: Field::Payments, rule: Rule::EmptyBatch, member: None });
        assert(acc@ =~= old(acc)@ + bulk_diags(*b, today));
        return;
    }
    let mut i: usize = 0;
    assert(b.payments@.take(0) =~= Seq::<PaymentRequest>::empty());
    assert(acc@ =~= old(acc)@ + member_diags(b.payments@.take(0), today));
    while i < n
        invariant
            n == b.payments@.len(),
            i <= n,
            acc@ == old(acc)@ + member_diags(b.payments@.take(i as int), today),
        decreases n - i,
    {
        let mut member: Vec<Diagnostic> = Vec::new();
        check_single(&mut member, &b.payments[i], today);
        assert(member@ =~= single_diags(b.payments@[i as int], today));
        let ghost prefix = b.payments@.take(i as int + 1);
        assert(prefix.drop_last() =~= b.payments@.take(i as int));
        assert(prefix.last() == b.payments@[i as int]);
        if member.len() > 0 {
            acc.push(Diagnostic { field: Field::Payments, rule: Rule::InvalidBatchMember, member: Some(i) });
        }
        i = i + 1;
        assert(acc@ =~= old(acc)@ + member_diags(b.payments@.take(i as int), today));
    }
    assert(b.payments@.take(n as int) =~= b.payments@);
}


fn type_matches_exec(t: PaymentType, p: &Payload) -> (r: bool)
    ensures
        r == type_matches(t, *p),
{
    match p {
        Payload::Transfer(_) => t == PaymentType::CreditTransfer || t == PaymentType::RequestForPayment
            || t == PaymentType::PaymentReturn,
        Payload::Debit(_) => t == PaymentType::DirectDebit,
        Payload::Instant(_) => t == PaymentType::RealTimePayment,
        Payload::Bulk(_) => t == PaymentType::BulkPayment,
        Payload::Mandate(_) => t == PaymentType::Mandate,
    }
}

fn check_header(acc: &mut Vec<Diagnostic>, req: &PaymentRequest)
    ensures
        final(acc)@ == old(acc)@ + header_diags(*req),
{
    push_if(acc, is_blank(&req.sender_id), Field::SenderId, Rule::Required);
    push_if(acc, is_blank(&req.request_id), Field::RequestId, Rule::Required);
    assert(acc@ =~= old(acc)@ + header_diags(*req));
}

fn check_single(acc: &mut Vec<Diagnostic>, req: &PaymentRequest, today: i64)
    ensures
        final(acc)@ == old(acc)@ + single_diags(*req, today),
{
    check_header(acc, req);
    let ghost head = acc@;
    if !type_matches_exec(req.payment_type, &req.message_payload) {
        acc.push(Diagnostic { field: Field::Payload, rule: Rule::PayloadMismatch, member: None });
    } else {
        match &req.message_payload {
            Payload::Transfer(t) => {
                check_terms(acc, t.amount, &t.currency, &t.sender_account, &t.receiver_account);
            },
            Payload::Instant(t) => {
                check_terms(acc, t.amount, &t.currency, &t.sender_account, &t.receiver_account);
            },
            Payload::Debit(d) => {
                check_terms(acc, d.amount, &d.currency, &d.sender_account, &d.receiver_account);
                push_if(acc, is_blank(&d.mandate_id), Field::MandateId, Rule::Required);
                push_if(acc, !d.backdated && d.debit_date < today, Field::Date, Rule::DateInPast);
                assert(acc@ =~= head + debit_diags(*d, today));
            },
            Payload::Bulk(_) => {
                acc.push(Diagnostic { field: Field::Payments, rule: Rule::NestedBatch, member: None });
            },
            Payload::Mandate(m) => {
                push_if(acc, is_blank(&m.mandate_id), Field::MandateId, Rule::Required);
                push_if(acc, is_blank(&m.debtor_account), Field::DebtorAccount, Rule::Required);
                push_if(acc, is_blank(&m.creditor_account), Field::CreditorAccount, Rule::Required);
                assert(acc@ =~= head + mandate_terms_diags(*m));
            },
        }
    }
    assert(acc@ =~= old(acc)@ + single_diags(*req, today));
}

/// The structural findings on an instruction, in order.
pub fn structure_diagnostics(req: &PaymentRequest, today: i64) -> (r: Vec<Diagnostic>)
    ensures
        r@ == structure_diags(*req, today),
{
    let mut acc: Vec<Diagnostic> = Vec::new();
    match &req.message_payload {
        Payload::Bulk(b) => {
            check_header(&mut acc, req);
            let ghost head = acc@;
            if !type_matches_exec(req.payment_type, &req.message_payload) {
                acc.push(Diagnostic { field: Field::Payload, rule: Rule::PayloadMismatch, member: None });
            } else {
                check_bulk(&mut acc, b, today);
            }
            assert(acc@ =~= structure_diags(*req, today));
        },
        _ => {
            check_single(&mut acc, req, today);
            assert(acc@ =~= structure_diags(*req, today));
        },
    }
    acc
}


/// The business-rule findings on an instruction, in order.
pub fn business_diagnostics(req: &PaymentRequest, mandates: &MandateRegistry) -> (r: Vec<Diagnostic>)
    requires
        mandates.wf(),
    ensures
        r@ == business_diags(*req, mandates.mandates@),
{
    let mut acc: Vec<Diagnostic> = Vec::new();
    match &req.message_payload {
        Payload::Transfer(t) => {
            push_if(&mut acc, t.sender_account == t.receiver_account, Field::ReceiverAccount, Rule::SameAccount);
        },
        Payload::Instant(t) => {
            push_if(&mut acc, t.sender_account == t.receiver_account, Field::ReceiverAccount, Rule::SameAccount);
        },
        Payload::Debit(d) => {
            push_if(&mut acc, d.sender_account == d.receiver_account, Field::ReceiverAccount, Rule::SameAccount);
            match mandates.get_mandate_status(&d.mandate_id) {
                None => {
                    acc.push(Diagnostic { field: Field::MandateId, rule: Rule::MandateNotFound, member: None });
                },
                Some(s) => {
                    push_if(&mut acc, s != MandateStatus::Active, Field::MandateId, Rule::MandateInactive);
                },
            }
        },
        Payload::Mandate(m) => {
            push_if(&mut acc, m.debtor_account == m.creditor_account, Field::CreditorAccount, Rule::SameAccount);
        },
        Payload::Bulk(_) => {},
    }
    assert(acc@ =~= business_diags(*req, mandates.mandates@));
    acc
}

/// The validator of ISO 20022 payment instructions.
#[derive(Debug, Clone, Copy)]
pub struct ISO20022PaymentValidator {}

impl ISO20022PaymentValidator {
    pub fn new() -> Self {
        ISO20022PaymentValidator {  }
    }

    /// Structural validation: passes exactly when there is no structural finding.
    pub fn validate(&self, request: &PaymentRequest, today: i64) -> (r: Result<(), ValidationFailure>)
        ensures
            r is Ok <==> structure_diags(*request, today).len() == 0,
            r matches Err(f) ==> f.diagnostics@ == structure_diags(*request, today),
    {
        let d = structure_diagnostics(request, today);
        if d.len() == 0 {
            Ok(())
        } else {
            Err(ValidationFailure { diagnostics: d })
        }
    }

    /// Business-rule validation: passes exactly when there is no business finding.
    pub fn validate_business_rules(&self, request: &PaymentRequest, mandates: &MandateRegistry) -> (r:
        Result<(), ValidationFailure>)
        requires
            mandates.wf(),
        ensures
            r is Ok <==> business_diags(*request, mandates.mandates@).len() == 0,
            r matches Err(f) ==> f.diagnostics@ == business_diags(*request, mandates.mandates@),
    {
        let d = business_diagnostics(request, mandates);
        if d.len() == 0 {
            Ok(())
        } else {
            Err(ValidationFailure { diagnostics: d })
        }
    }
}

} // verus!
