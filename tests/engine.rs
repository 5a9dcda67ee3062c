use payment_engine::domain::{
    BulkPaymentRequest, CreditTransferRequest, DirectDebitRequest, Field, InstantPaymentRequest,
    MandateRequest, Payload, PaymentRequest, PaymentStatus, PaymentType, PublishFailure, Rule,
};
use payment_engine::error::{ApiError, ServiceError};
use payment_engine::mandate::{MandateError, MandateRegistry, MandateStatus};
use payment_engine::service::{PaymentServiceImpl, PublishOrder, Staged};
use payment_engine::validation::{is_currency_code, ISO20022PaymentValidator};

const NOW: u64 = 1_700_000_000;
const TODAY: i64 = 19_675;

fn transfer(amount: i64, currency: &str, sender: &str, receiver: &str) -> CreditTransferRequest {
    CreditTransferRequest {
        amount,
        currency: currency.to_string(),
        sender_account: sender.to_string(),
        receiver_account: receiver.to_string(),
        transfer_date: TODAY,
    }
}

fn debit(mandate_id: &str, debit_date: i64, backdated: bool) -> DirectDebitRequest {
    DirectDebitRequest {
        amount: 2_500,
        currency: "EUR".to_string(),
        sender_account: "A".to_string(),
        receiver_account: "B".to_string(),
        debit_date,
        mandate_id: mandate_id.to_string(),
        backdated,
    }
}

fn mandate(id: &str, debtor: &str, creditor: &str) -> MandateRequest {
    MandateRequest {
        mandate_id: id.to_string(),
        debtor_account: debtor.to_string(),
        creditor_account: creditor.to_string(),
        mandate_date: TODAY,
    }
}

fn instant(amount: i64, currency: &str) -> InstantPaymentRequest {
    InstantPaymentRequest {
        amount,
        currency: currency.to_string(),
        sender_account: "C".to_string(),
        receiver_account: "D".to_string(),
        payment_date: TODAY,
    }
}

fn engine() -> PaymentServiceImpl {
    PaymentServiceImpl::new(MandateRegistry::new(), true)
}

fn credit_request(request_id: &str, t: CreditTransferRequest) -> PaymentRequest {
    PaymentRequest::credit_transfer("sender".to_string(), request_id.to_string(), t)
}

#[test]
fn test_process_payment() {
    let mut service = engine();
    let request = PaymentRequest {
        message_type: "pain.001".to_string(),
        payment_type: PaymentType::CreditTransfer,
        message_payload: Payload::Transfer(transfer(0, "", "", "")),
        sender_id: "sender".to_string(),
        request_id: "request".to_string(),
    };
    let result = service.process_payment(request);
    assert!(result.is_ok());
}

#[test]
fn test_get_status() {
    let service = engine();
    let payment_id = uuid::Uuid::new_v4().as_u128();
    let result = service.get_status(payment_id);
    assert!(result.is_ok());
}

#[test]
fn status_of_submitted_payment() {
    let mut service = engine();
    let submitted = service.process_payment(credit_request("request", transfer(100, "EUR", "A", "B"))).unwrap();
    assert_eq!(service.get_status(submitted.payment_id), Ok(Some(PaymentStatus::Accepted)));
    assert_eq!(service.get_status(submitted.payment_id.wrapping_add(1)), Ok(None));
}

#[test]
fn test_validate() {
    let validator = ISO20022PaymentValidator::new();
    let request = PaymentRequest {
        message_type: "pain.001".to_string(),
        payment_type: PaymentType::CreditTransfer,
        message_payload: Payload::Transfer(transfer(100, "EUR", "A", "B")),
        sender_id: "sender".to_string(),
        request_id: "request".to_string(),
    };
    let result = validator.validate(&request, TODAY);
    assert!(result.is_ok());
}

#[test]
fn test_validate_business_rules() {
    let validator = ISO20022PaymentValidator::new();
    let request = PaymentRequest {
        message_type: "pain.001".to_string(),
        payment_type: PaymentType::CreditTransfer,
        message_payload: Payload::Transfer(transfer(100, "EUR", "A", "B")),
        sender_id: "sender".to_string(),
        request_id: "request".to_string(),
    };
    let result = validator.validate_business_rules(&request, &MandateRegistry::new());
    assert!(result.is_ok());
}

#[test]
fn credit_transfer_is_accepted_and_published_once() {
    let mut service = engine();
    let r = service.submit_at(credit_request("r1", transfer(10_000, "EUR", "A", "B")), 42, NOW).unwrap();
    assert_eq!(r.status, PaymentStatus::Accepted);
    assert_eq!(r.payment_id, 42);
    assert!(r.validation_errors.is_empty());
    assert_eq!(service.message_publisher.messages.len(), 1);
    assert_eq!(service.message_publisher.messages[0].routing_key, "credit-transfer");
    assert_eq!(service.message_publisher.messages[0].message_id, 42);
    assert_eq!(service.message_publisher.attempts, vec![42]);
    assert_eq!(service.get_status(42), Ok(Some(PaymentStatus::Accepted)));
}

#[test]
fn resubmission_returns_first_record_without_publishing() {
    let mut service = engine();
    let first = service.submit_at(credit_request("r1", transfer(10_000, "EUR", "A", "B")), 42, NOW).unwrap();
    let second = service.submit_at(credit_request("r1", transfer(10_000, "EUR", "A", "B")), 43, NOW + 5).unwrap();
    assert_eq!(first, second);
    assert_eq!(second.payment_id, 42);
    assert_eq!(second.status, PaymentStatus::Accepted);
    assert_eq!(service.repository.records.len(), 1);
    assert_eq!(service.message_publisher.attempts, vec![42]);
    assert_eq!(service.message_publisher.messages.len(), 1);
    assert_eq!(service.get_status(43), Ok(None));
}

#[test]
fn resubmission_through_fresh_identifiers_keeps_one_record() {
    let mut service = engine();
    let first = service.process_payment(credit_request("r1", transfer(10_000, "EUR", "A", "B"))).unwrap();
    let second = service.process_payment(credit_request("r1", transfer(10_000, "EUR", "A", "B"))).unwrap();
    assert_eq!(first, second);
    assert_eq!(service.repository.records.len(), 1);
    assert_eq!(service.message_publisher.attempts.len(), 1);
}

#[test]
fn fresh_identifiers_differ_and_time_is_recorded() {
    let mut service = engine();
    let a = service.process_payment(credit_request("r1", transfer(100, "EUR", "A", "B"))).unwrap();
    let b = service.process_payment(credit_request("r2", transfer(100, "EUR", "A", "B"))).unwrap();
    assert_ne!(a.payment_id, b.payment_id);
    assert_eq!((a.payment_id >> 76) & 0xf, 4);
    assert!(a.created_at > NOW);
    assert!(a.created_at <= a.updated_at);
}

#[test]
fn identifier_collision_is_a_conflict() {
    let mut service = engine();
    service.submit_at(credit_request("r1", transfer(100, "EUR", "A", "B")), 7, NOW).unwrap();
    let r = service.submit_at(credit_request("r2", transfer(100, "EUR", "A", "B")), 7, NOW);
    assert_eq!(r, Err(ServiceError::Repository(payment_engine::error::RepositoryFailure::Conflict)));
    assert_eq!(service.repository.records.len(), 1);
}

#[test]
fn structural_failure_is_rejected_without_publish() {
    let mut service = engine();
    let r = service.submit_at(credit_request("r1", transfer(-5, "eur", "A", "")), 1, NOW).unwrap();
    assert_eq!(r.status, PaymentStatus::Rejected);
    let rules: Vec<(Field, Rule)> = r.validation_errors.iter().map(|d| (d.field, d.rule)).collect();
    assert_eq!(
        rules,
        vec![
            (Field::Amount, Rule::NotPositive),
            (Field::Currency, Rule::CurrencyCode),
            (Field::ReceiverAccount, Rule::Required),
        ]
    );
    assert!(service.message_publisher.attempts.is_empty());
    assert!(service.message_publisher.messages.is_empty());
}

#[test]
fn same_accounts_break_a_business_rule() {
    let mut service = engine();
    let r = service.submit_at(credit_request("r1", transfer(100, "EUR", "A", "A")), 1, NOW).unwrap();
    assert_eq!(r.status, PaymentStatus::Rejected);
    assert_eq!(r.validation_errors.len(), 1);
    assert_eq!(r.validation_errors[0].rule, Rule::SameAccount);
    assert!(service.message_publisher.attempts.is_empty());
}

#[test]
fn payload_must_match_type() {
    let mut service = engine();
    let req = PaymentRequest {
        message_type: "pain.008".to_string(),
        payment_type: PaymentType::DirectDebit,
        message_payload: Payload::Transfer(transfer(100, "EUR", "A", "B")),
        sender_id: "s".to_string(),
        request_id: "r".to_string(),
    };
    let r = service.submit_at(req, 1, NOW).unwrap();
    assert_eq!(r.status, PaymentStatus::Rejected);
    assert_eq!(r.validation_errors[0].rule, Rule::PayloadMismatch);
}

#[test]
fn missing_correlation_identifiers_are_rejected() {
    let mut service = engine();
    let req = PaymentRequest::credit_transfer(String::new(), String::new(), transfer(100, "EUR", "A", "B"));
    let r = service.submit_at(req, 1, NOW).unwrap();
    assert_eq!(r.validation_errors[0].field, Field::SenderId);
    assert_eq!(r.validation_errors[1].field, Field::RequestId);
}

#[test]
fn bulk_with_invalid_member_is_rejected_whole() {
    let mut service = engine();
    let bulk = BulkPaymentRequest {
        payments: vec![
            credit_request("c0", transfer(100, "EUR", "A", "B")),
            credit_request("c1", transfer(0, "EUR", "A", "B")),
            credit_request("c2", transfer(5, "EUR", "A", "C")),
        ],
    };
    let r = service.process_bulk_payment("s".to_string(), "b1".to_string(), bulk).unwrap();
    assert_eq!(r.status, PaymentStatus::Rejected);
    assert_eq!(r.validation_errors.len(), 1);
    assert_eq!(r.validation_errors[0].rule, Rule::InvalidBatchMember);
    assert_eq!(r.validation_errors[0].member, Some(1));
    assert_eq!(service.repository.records.len(), 1);
    assert!(service.message_publisher.messages.is_empty());
}

#[test]
fn valid_bulk_is_published_as_one_message() {
    let mut service = engine();
    let bulk = BulkPaymentRequest {
        payments: vec![
            credit_request("c0", transfer(100, "EUR", "A", "B")),
            PaymentRequest::instant_payment("sender".to_string(), "c1".to_string(), instant(5, "USD")),
        ],
    };
    let r = service.process_bulk_payment("s".to_string(), "b1".to_string(), bulk).unwrap();
    assert_eq!(r.status, PaymentStatus::Accepted);
    assert_eq!(service.message_publisher.messages.len(), 1);
    assert_eq!(service.message_publisher.messages[0].routing_key, "bulk-payment");
    assert_eq!(service.get_bulk_status(r.payment_id), Ok(vec![PaymentStatus::Accepted, PaymentStatus::Accepted]));
    let c = service.cancel_bulk_payment(r.payment_id, NOW + 1).unwrap();
    assert_eq!(c.status, PaymentStatus::Cancelled);
    assert_eq!(service.get_bulk_status(r.payment_id), Ok(vec![PaymentStatus::Cancelled, PaymentStatus::Cancelled]));
    assert_eq!(service.cancel_bulk_payment(r.payment_id, NOW + 2), Err(ServiceError::InvalidState));
}

#[test]
fn bulk_status_of_non_batch_and_unknown() {
    let mut service = engine();
    service.submit_at(credit_request("r1", transfer(100, "EUR", "A", "B")), 3, NOW).unwrap();
    assert_eq!(service.get_bulk_status(3), Err(ServiceError::InvalidState));
    assert_eq!(service.cancel_bulk_payment(3, NOW), Err(ServiceError::InvalidState));
    assert_eq!(service.get_bulk_status(4), Err(ServiceError::NotFound));
    assert_eq!(service.cancel_bulk_payment(4, NOW), Err(ServiceError::NotFound));
    assert_eq!(service.get_status(3), Ok(Some(PaymentStatus::Accepted)));
}

#[test]
fn rejected_bulk_members_carry_rejection() {
    let mut service = engine();
    let bulk = BulkPaymentRequest {
        payments: vec![
            PaymentRequest::direct_debit("s".to_string(), "d0".to_string(), debit("", TODAY, false)),
            credit_request("c1", transfer(100, "EUR", "A", "B")),
            PaymentRequest::bulk_payment("s".to_string(), "b".to_string(), BulkPaymentRequest { payments: vec![] }),
        ],
    };
    let r = service.submit_at(PaymentRequest::bulk_payment("s".to_string(), "b1".to_string(), bulk), 8, NOW).unwrap();
    assert_eq!(r.status, PaymentStatus::Rejected);
    let members: Vec<Option<usize>> = r.validation_errors.iter().map(|d| d.member).collect();
    assert_eq!(members, vec![Some(0), Some(2)]);
    assert_eq!(service.get_bulk_status(8), Ok(vec![PaymentStatus::Rejected; 3]));
    assert!(service.message_publisher.attempts.is_empty());
}

#[test]
fn empty_bulk_is_rejected() {
    let mut service = engine();
    let r = service.process_bulk_payment("s".to_string(), "b1".to_string(), BulkPaymentRequest { payments: vec![] });
    let r = r.unwrap();
    assert_eq!(r.status, PaymentStatus::Rejected);
    assert_eq!(r.validation_errors[0].rule, Rule::EmptyBatch);
}

#[test]
fn debit_against_cancelled_mandate_is_rejected() {
    let mut mandates = MandateRegistry::new();
    assert_eq!(mandates.create_mandate(mandate("m1", "A", "B")), Ok(()));
    assert_eq!(mandates.cancel_mandate(&"m1".to_string()), Ok(()));
    let mut service = PaymentServiceImpl::new(mandates, true);
    let r = service.process_direct_debit("s".to_string(), "d1".to_string(), debit("m1", TODAY + 30_000, false)).unwrap();
    assert_eq!(r.status, PaymentStatus::Rejected);
    assert_eq!(r.validation_errors.len(), 1);
    assert_eq!(r.validation_errors[0].field, Field::MandateId);
    assert_eq!(r.validation_errors[0].rule, Rule::MandateInactive);
    assert_eq!(r.validation_errors[0].message(), "the referenced mandate is not active");
    assert!(service.message_publisher.attempts.is_empty());
}

#[test]
fn debit_against_updated_mandate_is_rejected() {
    let mut mandates = MandateRegistry::new();
    mandates.create_mandate(mandate("m1", "A", "B")).unwrap();
    mandates.update_mandate(mandate("m1", "A", "C")).unwrap();
    let validator = ISO20022PaymentValidator::new();
    let req = PaymentRequest::direct_debit("s".to_string(), "d1".to_string(), debit("m1", TODAY, false));
    let f = validator.validate_business_rules(&req, &mandates).unwrap_err();
    assert_eq!(f.diagnostics[0].rule, Rule::MandateInactive);
}

#[test]
fn debit_against_unknown_mandate_is_rejected() {
    let validator = ISO20022PaymentValidator::new();
    let req = PaymentRequest::direct_debit("s".to_string(), "d1".to_string(), debit("m9", TODAY, false));
    let f = validator.validate_business_rules(&req, &MandateRegistry::new()).unwrap_err();
    assert_eq!(f.diagnostics[0].rule, Rule::MandateNotFound);
}

#[test]
fn debit_against_active_mandate_is_accepted() {
    let mut mandates = MandateRegistry::new();
    mandates.create_mandate(mandate("m1", "A", "B")).unwrap();
    let mut service = PaymentServiceImpl::new(mandates, true);
    let req = PaymentRequest::direct_debit("s".to_string(), "d1".to_string(), debit("m1", TODAY, false));
    let r = service.submit_at(req, 9, NOW).unwrap();
    assert_eq!(r.status, PaymentStatus::Accepted);
    assert_eq!(service.message_publisher.messages[0].routing_key, "direct-debit");
}

#[test]
fn past_debit_needs_backdating() {
    let validator = ISO20022PaymentValidator::new();
    let past = PaymentRequest::direct_debit("s".to_string(), "d1".to_string(), debit("m1", TODAY - 1, false));
    let f = validator.validate(&past, TODAY).unwrap_err();
    assert_eq!(f.diagnostics.len(), 1);
    assert_eq!(f.diagnostics[0].rule, Rule::DateInPast);
    let backdated = PaymentRequest::direct_debit("s".to_string(), "d2".to_string(), debit("m1", TODAY - 1, true));
    assert!(validator.validate(&backdated, TODAY).is_ok());
    let today = PaymentRequest::direct_debit("s".to_string(), "d3".to_string(), debit("m1", TODAY, false));
    assert!(validator.validate(&today, TODAY).is_ok());
}

#[test]
fn publish_failure_leaves_record_failed() {
    let mut service = PaymentServiceImpl::new(MandateRegistry::new(), false);
    let r = service.submit_at(credit_request("r1", transfer(100, "EUR", "A", "B")), 5, NOW).unwrap();
    assert_eq!(r.status, PaymentStatus::Failed);
    assert_eq!(r.failure, Some(PublishFailure::Unavailable));
    assert_eq!(service.message_publisher.attempts, vec![5]);
    assert!(service.message_publisher.messages.is_empty());
    let again = service.submit_at(credit_request("r1", transfer(100, "EUR", "A", "B")), 6, NOW).unwrap();
    assert_eq!(again.status, PaymentStatus::Failed);
    assert_eq!(service.message_publisher.attempts, vec![5]);
}

#[test]
fn instant_payment_routes_to_instant_channel() {
    let mut service = engine();
    let p = InstantPaymentRequest {
        amount: 1,
        currency: "GBP".to_string(),
        sender_account: "A".to_string(),
        receiver_account: "B".to_string(),
        payment_date: TODAY,
    };
    let r = service.process_instant_payment("s".to_string(), "i1".to_string(), p).unwrap();
    assert_eq!(r.status, PaymentStatus::Accepted);
    assert_eq!(service.message_publisher.messages[0].routing_key, "instant-payment");
    assert_eq!(service.message_publisher.messages[0].payment_type, PaymentType::RealTimePayment);
}

#[test]
fn cancel_accepted_payment() {
    let mut service = engine();
    service.submit_at(credit_request("r1", transfer(100, "EUR", "A", "B")), 3, NOW).unwrap();
    let c = service.cancel_payment(3, NOW + 10).unwrap();
    assert_eq!(c.status, PaymentStatus::Cancelled);
    assert_eq!(c.created_at, NOW);
    assert_eq!(c.updated_at, NOW + 10);
    assert_eq!(service.cancel_payment(3, NOW + 20), Err(ServiceError::InvalidState));
    assert_eq!(service.cancel_payment(4, NOW), Err(ServiceError::NotFound));
    assert_eq!(service.message_publisher.messages.len(), 1);
}

#[test]
fn rejected_payment_cannot_be_cancelled() {
    let mut service = engine();
    service.submit_at(credit_request("r1", transfer(0, "EUR", "A", "B")), 3, NOW).unwrap();
    assert_eq!(service.cancel_payment(3, NOW), Err(ServiceError::InvalidState));
    assert_eq!(service.get_status(3), Ok(Some(PaymentStatus::Rejected)));
}

#[test]
fn get_payment_projects_record() {
    let mut service = engine();
    let r = service.submit_at(credit_request("r1", transfer(100, "EUR", "A", "B")), 3, NOW).unwrap();
    assert_eq!(service.get_payment(3), Ok(r));
    assert_eq!(service.get_payment(4), Err(ServiceError::NotFound));
}

#[test]
fn mandate_lifecycle() {
    let mut m = MandateRegistry::new();
    assert_eq!(m.create_mandate(mandate("m1", "A", "B")), Ok(()));
    assert_eq!(m.mandates[0].debtor_account, "A");
    assert_eq!(m.mandates[0].creditor_account, "B");
    assert_eq!(m.mandates[0].effective_date, TODAY);
    assert!(m.mandates[0].history.is_empty());
    assert_eq!(m.create_mandate(mandate("m1", "C", "D")), Err(MandateError::AlreadyExists));
    assert_eq!(m.create_mandate(mandate("m2", "A", "A")), Err(MandateError::InvalidTerms));
    assert_eq!(m.create_mandate(mandate("", "A", "B")), Err(MandateError::InvalidTerms));
    assert_eq!(m.get_mandate_status(&"m1".to_string()), Some(MandateStatus::Active));
    assert_eq!(m.update_mandate(mandate("m1", "A", "C")), Ok(()));
    assert_eq!(m.get_mandate_status(&"m1".to_string()), Some(MandateStatus::Updated));
    assert_eq!(m.mandates[0].history.len(), 1);
    assert_eq!(m.mandates[0].history[0].creditor_account, "B");
    assert_eq!(m.mandates[0].creditor_account, "C");
    assert_eq!(m.mandates[0].debtor_account, "A");
    assert_eq!(m.update_mandate(mandate("m7", "A", "C")), Err(MandateError::NotFound));
    assert_eq!(m.cancel_mandate(&"m1".to_string()), Ok(()));
    assert_eq!(m.get_mandate_status(&"m1".to_string()), Some(MandateStatus::Cancelled));
    assert_eq!(m.cancel_mandate(&"m1".to_string()), Err(MandateError::Cancelled));
    assert_eq!(m.update_mandate(mandate("m1", "A", "B")), Err(MandateError::Cancelled));
    assert_eq!(m.get_mandate_status(&"m2".to_string()), None);
}

#[test]
fn currency_codes() {
    assert!(is_currency_code(&"EUR".to_string()));
    assert!(!is_currency_code(&"EU".to_string()));
    assert!(!is_currency_code(&"EURO".to_string()));
    assert!(!is_currency_code(&"eUR".to_string()));
    assert!(!is_currency_code(&"".to_string()));
}

#[test]
fn routing_keys() {
    assert_eq!(PaymentType::CreditTransfer.routing_key(), "credit-transfer");
    assert_eq!(PaymentType::DirectDebit.routing_key(), "direct-debit");
    assert_eq!(PaymentType::BulkPayment.routing_key(), "bulk-payment");
    assert_eq!(PaymentType::Mandate.routing_key(), "mandate");
}

#[test]
fn api_error_status_codes() {
    assert_eq!(ApiError::ValidationError("x".to_string()).status_code(), 400);
    assert_eq!(ApiError::BusinessRuleError("x".to_string()).status_code(), 422);
    assert_eq!(ApiError::InternalServerError.status_code(), 500);
    assert_eq!(ApiError::NotFound("x".to_string()).status_code(), 404);
    assert_eq!(ApiError::from_service_error(ServiceError::NotFound).status_code(), 404);
    assert_eq!(ApiError::from_service_error(ServiceError::InvalidState).status_code(), 422);
}

#[test]
fn staged_submission_settles_on_acknowledgment() {
    let mut service = PaymentServiceImpl::new(MandateRegistry::new(), false);
    let staged = service.stage_at(credit_request("r1", transfer(100, "EUR", "A", "B")), 11, NOW).unwrap();
    assert_eq!(
        staged,
        Staged::Publish(PublishOrder {
            message_id: 11,
            payment_type: PaymentType::CreditTransfer,
            routing_key: "credit-transfer",
        })
    );
    assert_eq!(service.get_status(11), Ok(Some(PaymentStatus::Validated)));
    let settled = service.settle_publish(11, None, NOW + 3).unwrap();
    assert_eq!(settled.status, PaymentStatus::Accepted);
    assert_eq!(settled.updated_at, NOW + 3);
    assert_eq!(service.message_publisher.messages.len(), 1);
    assert_eq!(service.message_publisher.messages[0].message_id, 11);
    assert!(service.message_publisher.attempts.is_empty());
    assert_eq!(service.settle_publish(11, None, NOW), Err(ServiceError::InvalidState));
    assert_eq!(service.settle_publish(12, None, NOW), Err(ServiceError::NotFound));
}

#[test]
fn staged_submission_fails_on_publish_failure() {
    let mut service = engine();
    let staged = service.stage_at(credit_request("r1", transfer(100, "EUR", "A", "B")), 11, NOW).unwrap();
    assert!(matches!(staged, Staged::Publish(_)));
    let settled = service.settle_publish(11, Some(PublishFailure::Unavailable), NOW).unwrap();
    assert_eq!(settled.status, PaymentStatus::Failed);
    assert_eq!(settled.failure, Some(PublishFailure::Unavailable));
    assert!(service.message_publisher.messages.is_empty());
}

#[test]
fn staged_rejection_and_resubmission_are_done() {
    let mut service = engine();
    let rejected = service.stage_at(credit_request("r1", transfer(0, "EUR", "A", "B")), 11, NOW).unwrap();
    match rejected {
        Staged::Done(resp) => assert_eq!(resp.status, PaymentStatus::Rejected),
        Staged::Publish(_) => panic!("a rejected instruction is not published"),
    }
    let again = service.stage_at(credit_request("r1", transfer(0, "EUR", "A", "B")), 12, NOW).unwrap();
    match again {
        Staged::Done(resp) => assert_eq!(resp.payment_id, 11),
        Staged::Publish(_) => panic!("a known key is not published again"),
    }
}

#[test]
fn recovery_publishes_a_validated_record_once() {
    let mut service = engine();
    service.stage_at(credit_request("r1", transfer(100, "EUR", "A", "B")), 11, NOW).unwrap();
    let recovered = service.recover_payment(11, NOW + 1).unwrap();
    assert_eq!(recovered.status, PaymentStatus::Accepted);
    assert_eq!(service.message_publisher.attempts, vec![11]);
    assert_eq!(service.message_publisher.messages.len(), 1);
    assert_eq!(service.recover_payment(11, NOW + 2), Err(ServiceError::InvalidState));
    assert_eq!(service.recover_payment(99, NOW), Err(ServiceError::NotFound));
}

#[test]
fn recovery_with_channel_down_marks_failed() {
    let mut service = PaymentServiceImpl::new(MandateRegistry::new(), false);
    service.stage_at(credit_request("r1", transfer(100, "EUR", "A", "B")), 11, NOW).unwrap();
    let recovered = service.recover_payment(11, NOW + 1).unwrap();
    assert_eq!(recovered.status, PaymentStatus::Failed);
    assert_eq!(service.message_publisher.attempts, vec![11]);
    assert!(service.message_publisher.messages.is_empty());
}
