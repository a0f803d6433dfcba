use paybridge::keys::Keypair;
use paybridge::nwc::{
    HandleStep, PaymentOutcome, RejectReason, RelayEvent, WalletConnectService,
    KIND_WALLET_CONNECT_INFO, KIND_WALLET_CONNECT_REQUEST, KIND_WALLET_CONNECT_RESPONSE,
};

const SERVICE_SK: &str = "6b911fd37cdf5c81d4c0adb1ab7fa822ed253ab0ad9aa18d77257c88b29b718e";
const CLIENT_SK: &str = "7b911fd37cdf5c81d4c0adb1ab7fa822ed253ab0ad9aa18d77257c88b29b718e";

fn service() -> WalletConnectService {
    WalletConnectService::new(Keypair::from_secret(String::from(SERVICE_SK)).unwrap())
}

fn client_keys() -> nostr::key::Keys {
    nostr::key::Keys::parse(CLIENT_SK).unwrap()
}

fn request_event(body: &str) -> RelayEvent {
    let service_pk =
        nostr::key::Keys::parse(SERVICE_SK).unwrap().public_key();
    let client = client_keys();
    let content = nostr::nips::nip04::encrypt(client.secret_key(), &service_pk, body).unwrap();
    RelayEvent {
        id: String::from("evt-1"),
        author: client.public_key().to_hex(),
        kind: KIND_WALLET_CONNECT_REQUEST,
        content,
    }
}

#[test]
fn announcement_declares_the_method() {
    let plan = service().announcement();
    assert_eq!(plan.kind, KIND_WALLET_CONNECT_INFO);
    assert_eq!(plan.content, "pay_invoice");
    assert!(plan.tags.is_empty());
}

#[test]
fn wrong_kind_never_reaches_payment() {
    let svc = service();
    let mut ev = request_event("{\"method\":\"pay_invoice\",\"params\":{\"invoice\":\"lnbc1\"}}");
    ev.kind = 1;
    assert!(matches!(
        svc.classify_event(&ev),
        HandleStep::Reject(RejectReason::WrongKind)
    ));
}

#[test]
fn garbage_content_is_rejected_not_fatal() {
    let svc = service();
    let ev = RelayEvent {
        id: String::from("evt-2"),
        author: client_keys().public_key().to_hex(),
        kind: KIND_WALLET_CONNECT_REQUEST,
        content: String::from("??? not an envelope ???"),
    };
    assert!(matches!(
        svc.classify_event(&ev),
        HandleStep::Reject(RejectReason::DecryptionFailed)
    ));
}

#[test]
fn unknown_method_is_rejected() {
    let svc = service();
    let ev = request_event("{\"method\":\"get_info\",\"params\":{}}");
    assert!(matches!(
        svc.classify_event(&ev),
        HandleStep::Reject(RejectReason::UnknownMethod)
    ));
}

#[test]
fn malformed_body_is_rejected() {
    let svc = service();
    let ev = request_event("pay me please");
    assert!(matches!(
        svc.classify_event(&ev),
        HandleStep::Reject(RejectReason::MalformedRequest)
    ));
}

#[test]
fn pay_invoice_request_is_classified() {
    let svc = service();
    let ev = request_event("{\"method\":\"pay_invoice\",\"params\":{\"invoice\":\"lnbc1qqqsp5\"}}");
    match svc.classify_event(&ev) {
        HandleStep::PayRequest { invoice, request_id, requester } => {
            assert_eq!(invoice, "lnbc1qqqsp5");
            assert_eq!(request_id, "evt-1");
            assert_eq!(requester, client_keys().public_key().to_hex());
        }
        HandleStep::Reject(_) => panic!("expected a payment step"),
    }
}

#[test]
fn success_yields_one_tagged_decryptable_response() {
    let svc = service();
    let requester = client_keys().public_key().to_hex();
    let plan = svc
        .build_response(
            &String::from("evt-1"),
            &requester,
            &PaymentOutcome::Success { preimage: String::from("00aa") },
        )
        .expect("requester key is usable");
    assert_eq!(plan.kind, KIND_WALLET_CONNECT_RESPONSE);
    assert_eq!(plan.tags.len(), 2);
    assert_eq!(plan.tags[0], vec![String::from("e"), String::from("evt-1")]);
    assert_eq!(plan.tags[1], vec![String::from("p"), requester.clone()]);
    let service_pk = nostr::key::Keys::parse(SERVICE_SK).unwrap().public_key();
    let plain = nostr::nips::nip04::decrypt(
        client_keys().secret_key(),
        &service_pk,
        plan.content.as_str(),
    )
    .expect("requester can decrypt the response");
    assert_eq!(
        plain,
        "{\"result_type\":\"pay_invoice\",\"error\":null,\"result\":{\"preimage\":\"00aa\"}}"
    );
}

#[test]
fn failure_yields_an_error_response_not_silence() {
    let svc = service();
    let requester = client_keys().public_key().to_hex();
    let plan = svc
        .build_response(
            &String::from("evt-9"),
            &requester,
            &PaymentOutcome::Failure { message: String::from("no route") },
        )
        .expect("requester key is usable");
    assert_eq!(plan.kind, KIND_WALLET_CONNECT_RESPONSE);
    let service_pk = nostr::key::Keys::parse(SERVICE_SK).unwrap().public_key();
    let plain = nostr::nips::nip04::decrypt(
        client_keys().secret_key(),
        &service_pk,
        plan.content.as_str(),
    )
    .unwrap();
    assert_eq!(
        plain,
        "{\"result_type\":\"pay_invoice\",\"error\":{\"code\":\"PAYMENT_FAILED\",\"message\":\"no route\"},\"result\":null}"
    );
}

#[test]
fn response_to_unusable_requester_is_refused() {
    let svc = service();
    let plan = svc.build_response(
        &String::from("evt-1"),
        &String::from("not a key"),
        &PaymentOutcome::Success { preimage: String::from("00") },
    );
    assert!(plan.is_none());
}

#[test]
fn duplicate_requests_are_both_classified() {
    // The service keeps no request history: at-most-once payment is the
    // payment backend's responsibility.
    let svc = service();
    let ev = request_event("{\"method\":\"pay_invoice\",\"params\":{\"invoice\":\"lnbc1dup\"}}");
    for _ in 0..2 {
        match svc.classify_event(&ev) {
            HandleStep::PayRequest { invoice, .. } => assert_eq!(invoice, "lnbc1dup"),
            HandleStep::Reject(_) => panic!("expected a payment step"),
        }
    }
}
