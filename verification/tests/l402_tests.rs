use paybridge::l402::{
    authorization_header, l402_step, parse_l402_header, L402Action, L402Error, L402Event,
    L402State,
};

#[test]
fn parses_token_challenge() {
    let c = parse_l402_header("L402 token=\"abc\", invoice=\"lnbc1qqqsp5\"").unwrap();
    assert_eq!(c.token, "abc");
    assert_eq!(c.invoice, "lnbc1qqqsp5");
}

#[test]
fn parses_macaroon_challenge() {
    let c = parse_l402_header("L402 macaroon=\"mac00\", invoice=\"lnbc1zz\"").unwrap();
    assert_eq!(c.token, "mac00");
    assert_eq!(c.invoice, "lnbc1zz");
}

#[test]
fn rejects_malformed_challenges() {
    let bad = [
        "",
        "Bearer xyz",
        "L402 token=abc, invoice=\"ln\"",
        "L402 ticket=\"a\", invoice=\"ln\"",
        "L402 token=\"a\" invoice=\"ln\"",
        "L402 token=\"a\", invoice=\"ln\" extra",
        "L402 token=\"a\", invoice=\"ln",
    ];
    for h in bad {
        assert!(
            matches!(parse_l402_header(h), Err(L402Error::MalformedChallenge)),
            "header: {h}"
        );
    }
}

#[test]
fn credential_header_format() {
    let h = authorization_header(&String::from("abc"), &String::from("00ff"));
    assert_eq!(h, "L402 abc:00ff");
}

#[test]
fn plain_response_is_returned_unchanged() {
    let (state, action) = l402_step(
        L402State::AwaitFirst,
        &L402Event::Response { status: 200, www_authenticate: None },
    );
    assert!(matches!(state, L402State::Finished));
    assert!(matches!(action, L402Action::ReturnResponse));
}

#[test]
fn missing_challenge_header_aborts_before_payment() {
    let (state, action) = l402_step(
        L402State::AwaitFirst,
        &L402Event::Response { status: 402, www_authenticate: None },
    );
    assert!(matches!(state, L402State::Finished));
    assert!(matches!(
        action,
        L402Action::Abort { error: L402Error::MalformedChallenge }
    ));
}

#[test]
fn challenge_flow_pays_then_retries_once() {
    let (state, action) = l402_step(
        L402State::AwaitFirst,
        &L402Event::Response {
            status: 402,
            www_authenticate: Some(String::from("L402 token=\"abc\", invoice=\"lnbc1x\"")),
        },
    );
    match &action {
        L402Action::Pay { invoice } => assert_eq!(invoice, "lnbc1x"),
        _ => panic!("expected a payment action"),
    }
    let (state, action) = l402_step(
        state,
        &L402Event::PaymentSucceeded { preimage: String::from("00ff") },
    );
    match &action {
        L402Action::SendRetry { authorization } => assert_eq!(authorization, "L402 abc:00ff"),
        _ => panic!("expected the retry"),
    }
    let (state, action) = l402_step(
        state,
        &L402Event::Response { status: 402, www_authenticate: None },
    );
    assert!(matches!(state, L402State::Finished));
    assert!(matches!(action, L402Action::ReturnResponse));
}

#[test]
fn failed_payment_aborts_the_call() {
    let (state, _) = l402_step(
        L402State::AwaitFirst,
        &L402Event::Response {
            status: 402,
            www_authenticate: Some(String::from("L402 token=\"t\", invoice=\"lnbc1y\"")),
        },
    );
    let (state, action) = l402_step(
        state,
        &L402Event::PaymentFailed { message: String::from("insufficient balance") },
    );
    assert!(matches!(state, L402State::Finished));
    match action {
        L402Action::Abort { error: L402Error::Payment { message } } => {
            assert_eq!(message, "insufficient balance")
        }
        _ => panic!("expected a payment error"),
    }
}

#[test]
fn parses_empty_fields() {
    let c = parse_l402_header("L402 token=\"\", invoice=\"\"").unwrap();
    assert_eq!(c.token, "");
    assert_eq!(c.invoice, "");
}
