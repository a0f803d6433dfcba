use paybridge::json::{decode_request, ParsedRequest};
use paybridge::nwc::{response_content, PaymentOutcome};

fn expect_invoice(body: &str, want: &str) {
    match decode_request(body) {
        ParsedRequest::PayInvoice { invoice } => assert_eq!(invoice, want),
        _ => panic!("expected a pay_invoice request for {body}"),
    }
}

fn expect_malformed(body: &str) {
    assert!(matches!(decode_request(body), ParsedRequest::Malformed), "body: {body}");
}

#[test]
fn decodes_plain_request() {
    expect_invoice(
        "{\"method\":\"pay_invoice\",\"params\":{\"invoice\":\"lnbc1qqq\"}}",
        "lnbc1qqq",
    );
}

#[test]
fn decodes_with_whitespace_and_reordered_keys() {
    expect_invoice(
        " { \"params\" : { \"invoice\" : \"lnbc1abc\" } ,\n\t\"method\" : \"pay_invoice\" } ",
        "lnbc1abc",
    );
}

#[test]
fn decodes_with_extra_members() {
    expect_invoice(
        "{\"id\":\"x\",\"method\":\"pay_invoice\",\"params\":{\"invoice\":\"lnbc1z\",\"amount\":21000,\"note\":null,\"urgent\":true}}",
        "lnbc1z",
    );
}

#[test]
fn decodes_escapes_in_strings() {
    expect_invoice(
        "{\"method\":\"pay_invoice\",\"params\":{\"invoice\":\"ln\\u0041\\\"x\\\\\"}}",
        "lnA\"x\\",
    );
}

#[test]
fn decodes_beside_exotic_numbers() {
    expect_invoice(
        "{\"method\":\"pay_invoice\",\"params\":{\"invoice\":\"lnbc1n\",\"amount\":-1.5e+3,\"z\":0}}",
        "lnbc1n",
    );
}

#[test]
fn unknown_method_is_not_malformed() {
    assert!(matches!(
        decode_request("{\"method\":\"make_invoice\",\"params\":{\"amount\":1}}"),
        ParsedRequest::UnknownMethod
    ));
    assert!(matches!(
        decode_request("{\"method\":\"get_balance\",\"params\":\"none\"}"),
        ParsedRequest::UnknownMethod
    ));
}

#[test]
fn rejects_malformed_bodies() {
    expect_malformed("");
    expect_malformed("   ");
    expect_malformed("{}");
    expect_malformed("not json");
    expect_malformed("{\"method\":\"pay_invoice\"}");
    expect_malformed("{\"method\":\"pay_invoice\",\"params\":{}}");
    expect_malformed("{\"method\":\"pay_invoice\",\"params\":{\"invoice\":42}}");
    expect_malformed("{\"method\":42,\"params\":{\"invoice\":\"x\"}}");
    expect_malformed("{\"method\":\"pay_invoice\",\"params\":{\"invoice\":\"x\"}");
    expect_malformed("{\"method\":\"pay_invoice\",\"params\":{\"invoice\":\"x\"}} trailing");
    expect_malformed("{\"method\":\"pay_invoice\",\"params\":{\"invoice\":\"\\ud800\"}}");
}

#[test]
fn rejects_duplicate_members() {
    expect_malformed(
        "{\"method\":\"pay_invoice\",\"method\":\"pay_invoice\",\"params\":{\"invoice\":\"x\"}}",
    );
    expect_malformed(
        "{\"method\":\"pay_invoice\",\"params\":{\"invoice\":\"x\",\"invoice\":\"y\"}}",
    );
}

#[test]
fn success_body_carries_preimage() {
    let out = response_content(&PaymentOutcome::Success { preimage: String::from("0f32ab") });
    assert_eq!(
        out,
        "{\"result_type\":\"pay_invoice\",\"error\":null,\"result\":{\"preimage\":\"0f32ab\"}}"
    );
}

#[test]
fn failure_body_carries_code_and_escaped_message() {
    let out = response_content(&PaymentOutcome::Failure {
        message: String::from("no route to \"peer\"\nline"),
    });
    assert_eq!(
        out,
        "{\"result_type\":\"pay_invoice\",\"error\":{\"code\":\"PAYMENT_FAILED\",\"message\":\"no route to \\\"peer\\\"\\nline\"},\"result\":null}"
    );
}

#[test]
fn gpt_request_serializes_exactly() {
    let req = paybridge::GptRequest {
        model: String::from("gpt-3.5-turbo"),
        messages: vec![
            paybridge::GptMessage {
                role: String::from("user"),
                content: String::from("say \"hi\""),
            },
            paybridge::GptMessage { role: String::from("system"), content: String::from("ok") },
        ],
    };
    assert_eq!(
        req.to_json(),
        "{\"model\":\"gpt-3.5-turbo\",\"messages\":[{\"role\":\"user\",\"content\":\"say \\\"hi\\\"\"},{\"role\":\"system\",\"content\":\"ok\"}]}"
    );
}
