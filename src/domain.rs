//! Payment instructions, their payloads and the records kept of them.
//!
//! Amounts are integers in minor currency units (cents); dates are day
//! numbers counted from 1970-01-01 (UTC); timestamps are seconds since then.
use vstd::prelude::*;

verus! {

/// The closed set of instruction kinds the engine processes.
#[derive(Debug, Clone, Copy, PartialEq, Eq, Structural)]
pub enum PaymentType {
    CreditTransfer,
    DirectDebit,
    RequestForPayment,
    PaymentReturn,
    RealTimePayment,
    BulkPayment,
    Mandate,
}

impl PaymentType {
    /// The channel designation accepted instructions of this kind go to.
    pub open spec fn routing_key_spec(self) -> Seq<char> {
        match self {
            PaymentType::CreditTransfer => "credit-transfer"@,
            PaymentType::DirectDebit => "direct-debit"@,
            PaymentType::RequestForPayment => "request-for-payment"@,
            PaymentType::PaymentReturn => "payment-return"@,
            PaymentType::RealTimePayment => "instant-payment"@,
            PaymentType::BulkPayment => "bulk-payment"@,
            PaymentType::Mandate => "mandate"@,
        }
    }

    pub fn routing_key(&self) -> (r: &'static str)
        ensures
            r@ == self.routing_key_spec(),
    {
        match self {
            PaymentType::CreditTransfer => "credit-transfer",
            PaymentType::DirectDebit => "direct-debit",
            PaymentType::RequestForPayment => "request-for-payment",
            PaymentType::PaymentReturn => "payment-return",
            PaymentType::RealTimePayment => "instant-payment",
            PaymentType::BulkPayment => "bulk-payment",
            PaymentType::Mandate => "mandate",
        }
    }
}

/// A credit transfer: the sender pushes funds to the receiver.
#[derive(Debug, Clone)]
pub struct CreditTransferRequest {
    pub amount: i64,
    pub currency: String,
    pub sender_account: String,
    pub receiver_account: String,
    pub transfer_date: i64,
}

/// A direct debit: the creditor pulls funds under a standing mandate.
#[derive(Debug, Clone)]
pub struct DirectDebitRequest {
    pub amount: i64,
    pub currency: String,
    pub sender_account: String,
    pub receiver_account: String,
    pub debit_date: i64,
    pub mandate_id: String,
    /// A debit date in the past is accepted only when this is set.
    pub backdated: bool,
}

/// An instant (real-time) payment.
#[derive(Debug, Clone)]
pub struct InstantPaymentRequest {
    pub amount: i64,
    pub currency: String,
    pub sender_account: String,
    pub receiver_account: String,
    pub payment_date: i64,
}

/// An ordered batch of instructions, accepted or rejected as a whole.
/// Members are single instructions: a batch does not nest another batch.
#[derive(Debug)]
pub struct BulkPaymentRequest {
    pub payments: Vec<PaymentRequest>,
}

/// The terms of a standing debit authorization.
#[derive(Debug, Clone)]
pub struct MandateRequest {
    pub mandate_id: String,
    pub debtor_account: String,
    pub creditor_account: String,
    pub mandate_date: i64,
}

/// The type-specific data an instruction carries.
#[derive(Debug)]
pub enum Payload {
    Transfer(CreditTransferRequest),
    Debit(DirectDebitRequest),
    Instant(InstantPaymentRequest),
    Bulk(BulkPaymentRequest),
    Mandate(MandateRequest),
}

/// The generic instruction shape the engine processes.
#[derive(Debug)]
pub struct PaymentRequest {
    pub message_type: String,
    pub payment_type: PaymentType,
    pub message_payload: Payload,
    pub sender_id: String,
    pub request_id: String,
}

impl PaymentRequest {
    /// The idempotency key of this instruction.
    pub open spec fn key(&self) -> (Seq<char>, Seq<char>) {
        (self.sender_id@, self.request_id@)
    }

    /// A credit transfer instruction (ISO 20022 pain.001).
    pub fn credit_transfer(sender_id: String, request_id: String, transfer: CreditTransferRequest) -> (r: Self)
        ensures
            r.message_type@ == "pain.001"@,
            r.payment_type == PaymentType::CreditTransfer,
            r.message_payload == Payload::Transfer(transfer),
            r.sender_id == sender_id,
            r.request_id == request_id,
    {
        PaymentRequest {
            message_type: String::from_str("pain.001"),
            payment_type: PaymentType::CreditTransfer,
            message_payload: Payload::Transfer(transfer),
            sender_id,
            request_id,
        }
    }

    /// A direct debit instruction (ISO 20022 pain.008).
    pub fn direct_debit(sender_id: String, request_id: String, debit: DirectDebitRequest) -> (r: Self)
        ensures
            r.message_type@ == "pain.008"@,
            r.payment_type == PaymentType::DirectDebit,
            r.message_payload == Payload::Debit(debit),
            r.sender_id == sender_id,
            r.request_id == request_id,
    {
        PaymentRequest {
            message_type: String::from_str("pain.008"),
            payment_type: PaymentType::DirectDebit,
            message_payload: Payload::Debit(debit),
            sender_id,
            request_id,
        }
    }

    /// An instant payment instruction (ISO 20022 pacs.008).
    pub fn instant_payment(sender_id: String, request_id: String, payment: InstantPaymentRequest) -> (r: Self)
        ensures
            r.message_type@ == "pacs.008"@,
            r.payment_type == PaymentType::RealTimePayment,
            r.message_payload == Payload::Instant(payment),
            r.sender_id == sender_id,
            r.request_id == request_id,
    {
        PaymentRequest {
            message_type: String::from_str("pacs.008"),
            payment_type: PaymentType::RealTimePayment,
            message_payload: Payload::Instant(payment),
            sender_id,
            request_id,
        }
    }

    /// A batch instruction (ISO 20022 pain.001 with several transactions).
    pub fn bulk_payment(sender_id: String, request_id: String, bulk: BulkPaymentRequest) -> (r: Self)
        ensures
            r.message_type@ == "pain.001"@,
            r.payment_type == PaymentType::BulkPayment,
            r.message_payload == Payload::Bulk(bulk),
            r.sender_id == sender_id,
            r.request_id == request_id,
    {
        PaymentRequest {
            message_type: String::from_str("pain.001"),
            payment_type: PaymentType::BulkPayment,
            message_payload: Payload::Bulk(bulk),
            sender_id,
            request_id,
        }
    }
}

/// Lifecycle states of an instruction.
#[derive(Debug, Clone, Copy, PartialEq, Eq, Structural)]
pub enum PaymentStatus {
    Pending,
    Validated,
    Accepted,
    Rejected,
    Cancelled,
    Failed,
}

/// The part of an instruction a diagnostic points at.
#[derive(Debug, Clone, Copy, PartialEq, Eq, Structural)]
pub enum Field {
    SenderId,
    RequestId,
    Payload,
    Amount,
    Currency,
    SenderAccount,
    ReceiverAccount,
    Date,
    MandateId,
    DebtorAccount,
    CreditorAccount,
    Payments,
}

/// The rule a diagnostic reports as violated.
#[derive(Debug, Clone, Copy, PartialEq, Eq, Structural)]
pub enum Rule {
    /// A required value is empty.
    Required,
    /// The amount is zero or negative.
    NotPositive,
    /// The currency is not three upper-case ASCII letters.
    CurrencyCode,
    /// The payload's shape does not belong to the payment type.
    PayloadMismatch,
    /// A debit is dated before today and not marked as backdated.
    DateInPast,
    /// Both sides of the payment are the same account.
    SameAccount,
    /// The referenced mandate is unknown.
    MandateNotFound,
    /// The referenced mandate is not active.
    MandateInactive,
    /// A batch holds no payment.
    EmptyBatch,
    /// A batch holds another batch.
    NestedBatch,
    /// A member of a batch fails structural validation.
    InvalidBatchMember,
}

/// One field-level finding of validation.
#[derive(Debug, Clone, Copy, PartialEq, Eq, Structural)]
pub struct Diagnostic {
    pub field: Field,
    pub rule: Rule,
    /// The position of the offending member, for a finding inside a batch.
    pub member: Option<usize>,
}

/// The human-readable text of each rule.
pub open spec fn rule_message(rule: Rule) -> Seq<char> {
    match rule {
        Rule::Required => "a required value is missing"@,
        Rule::NotPositive => "the amount must be positive"@,
        Rule::CurrencyCode => "the currency must be a three-letter code"@,
        Rule::PayloadMismatch => "the payload does not match the payment type"@,
        Rule::DateInPast => "the date lies in the past"@,
        Rule::SameAccount => "sender and receiver accounts must differ"@,
        Rule::MandateNotFound => "the referenced mandate does not exist"@,
        Rule::MandateInactive => "the referenced mandate is not active"@,
        Rule::EmptyBatch => "the batch holds no payment"@,
        Rule::NestedBatch => "a batch cannot hold another batch"@,
        Rule::InvalidBatchMember => "a member of the batch is invalid"@,
    }
}

impl Diagnostic {
    /// A human-readable text for the violated rule.
    pub fn message(&self) -> (r: &'static str)
        ensures
            r@ == rule_message(self.rule),
    {
        match self.rule {
            Rule::Required => "a required value is missing",
            Rule::NotPositive => "the amount must be positive",
            Rule::CurrencyCode => "the currency must be a three-letter code",
            Rule::PayloadMismatch => "the payload does not match the payment type",
            Rule::DateInPast => "the date lies in the past",
            Rule::SameAccount => "sender and receiver accounts must differ",
            Rule::MandateNotFound => "the referenced mandate does not exist",
            Rule::MandateInactive => "the referenced mandate is not active",
            Rule::EmptyBatch => "the batch holds no payment",
            Rule::NestedBatch => "a batch cannot hold another batch",
            Rule::InvalidBatchMember => "a member of the batch is invalid",
        }
    }
}

/// Why a publish was not acknowledged.
#[derive(Debug, Clone, Copy, PartialEq, Eq, Structural)]
pub enum PublishFailure {
    /// The channel could not be reached or did not acknowledge in time.
    Unavailable,
}

/// The persisted state of one instruction.
#[derive(Debug)]
pub struct PaymentRecord {
    pub id: u128,
    pub request: PaymentRequest,
    pub status: PaymentStatus,
    pub created_at: u64,
    pub updated_at: u64,
    /// Filled only when the record is rejected.
    pub validation_errors: Vec<Diagnostic>,
    /// The publish failure, for a record that failed after validation.
    pub failure: Option<PublishFailure>,
}

/// What a caller learns of an instruction's outcome.
#[derive(Debug, Clone, PartialEq, Eq)]
pub struct PaymentResponse {
    pub payment_id: u128,
    pub status: PaymentStatus,
    pub validation_errors: Vec<Diagnostic>,
    pub failure: Option<PublishFailure>,
    pub created_at: u64,
    pub updated_at: u64,
}

impl PaymentResponse {
    /// The response projects the record.
    pub open spec fn projects(self, rec: PaymentRecord) -> bool {
        &&& self.payment_id == rec.id
        &&& self.status == rec.status
        &&& self.validation_errors@ == rec.validation_errors@
        &&& self.failure == rec.failure
        &&& self.created_at == rec.created_at
        &&& self.updated_at == rec.updated_at
    }
}

/// Copies a list of diagnostics.
pub fn copy_diagnostics(v: &Vec<Diagnostic>) -> (r: Vec<Diagnostic>)
    ensures
        r@ == v@,
{
    let mut r: Vec<Diagnostic> = Vec::new();
    let mut i: usize = 0;
    while i < v.len()
        invariant
            i <= v.len(),
            r@ == v@.take(i as int),
        decreases v.len() - i,
    {
        r.push(v[i]);
        i = i + 1;
        assert(r@ =~= v@.take(i as int));
    }
    assert(v@.take(v.len() as int) =~= v@);
    r
}

impl PaymentRecord {
    /// The response projection of this record.
    pub fn to_response(&self) -> (r: PaymentResponse)
        ensures
            r.projects(*self),
    {
        PaymentResponse {
            payment_id: self.id,
            status: self.status,
            validation_errors: copy_diagnostics(&self.validation_errors),
            failure: self.failure,
            created_at: self.created_at,
            updated_at: self.updated_at,
        }
    }
}

} // verus!
