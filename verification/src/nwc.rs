//! The wallet-connect service over a pub/sub relay.
//!
//! The service announces its one capability, then answers incoming request
//! events: an event of the wrong kind, one whose content does not decrypt,
//! and one whose body is malformed or names an unknown method are each
//! rejected without a response; a well-formed `pay_invoice` request leads to
//! one payment attempt and exactly one encrypted response event, tagged with
//! the request's id and the requester's public key, whether the payment
//! succeeded or failed. The relay connection, event signing and the payment
//! backend are collaborators around this module: it decides, they perform.

use vstd::prelude::*;
use crate::keys::{pub_key_usable, Keypair};
use crate::codec::{decrypt, encrypt, nip04_plain, round_trips};
use crate::json::{decode_request, json_escaped, append_escaped, parse_request, ParsedRequest,
    ReqView};

verus! {

/// The event kind of the capability announcement.
pub const KIND_WALLET_CONNECT_INFO: u16 = 13194;

/// The event kind of an incoming payment-execution request.
pub const KIND_WALLET_CONNECT_REQUEST: u16 = 23194;

/// The event kind of a published response.
pub const KIND_WALLET_CONNECT_RESPONSE: u16 = 23195;

/// One signed relay event, as the protocol logic reads it: its id, its
/// author's public key, its kind and its content.
pub struct RelayEvent {
    pub id: String,
    pub author: String,
    pub kind: u16,
    pub content: String,
}

/// Why an incoming event was rejected without a response.
pub enum RejectReason {
    /// Not a request event.
    WrongKind,
    /// The content did not decrypt under this service's key and the
    /// author's.
    DecryptionFailed,
    /// The decrypted body is outside the request grammar.
    MalformedRequest,
    /// A well-formed request for a method this service does not offer.
    UnknownMethod,
}

/// What to do with one incoming event.
pub enum HandleStep {
    /// Log and continue; publish nothing.
    Reject(RejectReason),
    /// Pay this invoice, then build the response for `request_id` and
    /// `requester`.
    PayRequest { invoice: String, request_id: String, requester: String },
}

/// What the payment backend reported for one invoice.
pub enum PaymentOutcome {
    Success { preimage: String },
    Failure { message: String },
}

/// An event to sign and publish: its kind, its content and its tags.
pub struct EventPlan {
    pub kind: u16,
    pub content: String,
    pub tags: Vec<Vec<String>>,
}

/// The response body confirming a payment, carrying its preimage.
pub open spec fn success_body(preimage: Seq<char>) -> Seq<char> {
    "{\"result_type\":\"pay_invoice\",\"error\":null,\"result\":{\"preimage\":\""@
        + json_escaped(preimage) + "\"}}"@
}

/// The response body reporting a failed payment.
pub open spec fn failure_body(message: Seq<char>) -> Seq<char> {
    "{\"result_type\":\"pay_invoice\",\"error\":{\"code\":\"PAYMENT_FAILED\",\"message\":\""@
        + json_escaped(message) + "\"},\"result\":null}"@
}

/// The response body for an outcome.
pub open spec fn response_body(outcome: &PaymentOutcome) -> Seq<char> {
    match outcome {
        PaymentOutcome::Success { preimage } => success_body(preimage@),
        PaymentOutcome::Failure { message } => failure_body(message@),
    }
}

/// Serialize the response body for an outcome.
pub fn response_content(outcome: &PaymentOutcome) -> (r: String)
    ensures
        r@ == response_body(outcome),
{
    let mut out = String::new();
    match outcome {
        PaymentOutcome::Success { preimage } => {
            out.append("{\"result_type\":\"pay_invoice\",\"error\":null,\"result\":{\"preimage\":\"");
            append_escaped(&mut out, preimage);
            out.append("\"}}");
            proof {
                assert(out@ =~= success_body(preimage@));
            }
        },
        PaymentOutcome::Failure { message } => {
            out.append(
                "{\"result_type\":\"pay_invoice\",\"error\":{\"code\":\"PAYMENT_FAILED\",\"message\":\"",
            );
            append_escaped(&mut out, message);
            out.append("\"},\"result\":null}");
            proof {
                assert(out@ =~= failure_body(message@));
            }
        },
    }
    out
}


/// Spec view of one incoming event.
pub struct RelayEventV {
    pub id: Seq<char>,
    pub author: Seq<char>,
    pub kind: int,
    pub content: Seq<char>,
}

pub open spec fn relay_event_view(e: &RelayEvent) -> RelayEventV {
    RelayEventV { id: e.id@, author: e.author@, kind: e.kind as int, content: e.content@ }
}

/// Spec view of [`HandleStep`].
pub enum HandleV {
    RejectV(RejectReason),
    PayV { invoice: Seq<char>, request_id: Seq<char>, requester: Seq<char> },
}

pub open spec fn handle_view(r: &HandleStep) -> HandleV {
    match r {
        HandleStep::Reject(reason) => HandleV::RejectV(*reason),
        HandleStep::PayRequest { invoice, request_id, requester } => HandleV::PayV {
            invoice: invoice@,
            request_id: request_id@,
            requester: requester@,
        },
    }
}

/// What one incoming event asks of a service with secret key `own_secret`:
/// wrong kind, failed decryption, malformed body and unknown method are each
/// rejected; only a well-formed `pay_invoice` request leads to a payment,
/// correlated by the event id and the author key.
pub open spec fn classify(own_secret: Seq<char>, e: RelayEventV) -> HandleV {
    if e.kind != KIND_WALLET_CONNECT_REQUEST as int {
        HandleV::RejectV(RejectReason::WrongKind)
    } else {
        match nip04_plain(own_secret, e.author, e.content) {
            None => HandleV::RejectV(RejectReason::DecryptionFailed),
            Some(plain) => match parse_request(plain) {
                ReqView::PayInvoice(inv) => HandleV::PayV {
                    invoice: inv,
                    request_id: e.id,
                    requester: e.author,
                },
                ReqView::UnknownMethod => HandleV::RejectV(RejectReason::UnknownMethod),
                ReqView::Malformed => HandleV::RejectV(RejectReason::MalformedRequest),
            },
        }
    }
}

/// The wallet-connect service: one long-lived identity, handed in at
/// construction.
pub struct WalletConnectService {
    own: Keypair,
}

impl WalletConnectService {
    /// The secret key string of the service identity.
    pub closed spec fn own_secret(self) -> Seq<char> {
        self.own.secret_view()
    }

    /// The hex public key of the service identity.
    pub closed spec fn own_public(self) -> Seq<char> {
        self.own.public_view()
    }

    /// A service speaking for the identity `own`.
    pub fn new(own: Keypair) -> (r: Self)
        ensures
            r.own_secret() == own.secret_view(),
            r.own_public() == own.public_view(),
    {
        WalletConnectService { own }
    }

    /// The hex public key under which requests address this service.
    pub fn public_key_hex(&self) -> (r: &String)
        ensures
            r@ == self.own_public(),
    {
        self.own.public_key_hex()
    }

    /// The capability announcement published when the service starts: one
    /// event naming the supported method, with no tags.
    pub fn announcement(&self) -> (r: EventPlan)
        ensures
            r.kind == KIND_WALLET_CONNECT_INFO,
            r.content@ == "pay_invoice"@,
            r.tags@.len() == 0,
    {
        EventPlan {
            kind: KIND_WALLET_CONNECT_INFO,
            content: String::from_str("pay_invoice"),
            tags: Vec::new(),
        }
    }

    /// Decide what one incoming event asks for. An event of the wrong kind
    /// is rejected before anything is read from it, so no unrecognized kind
    /// ever reaches a payment; a request event is decrypted under the
    /// service secret and the author's public key, then decoded; only a
    /// well-formed `pay_invoice` body leads to a payment step, carrying the
    /// event's id and author for the response.
    pub fn classify_event(&self, event: &RelayEvent) -> (r: HandleStep)
        ensures
            handle_view(&r) == classify(self.own_secret(), relay_event_view(event)),
            r matches HandleStep::PayRequest { requester, .. } ==> pub_key_usable(requester@),
    {
        if event.kind != KIND_WALLET_CONNECT_REQUEST {
            return HandleStep::Reject(RejectReason::WrongKind);
        }
        let plain = match decrypt(&self.own, &event.author, &event.content) {
            Ok(p) => p,
            Err(_) => {
                return HandleStep::Reject(RejectReason::DecryptionFailed);
            },
        };
        match decode_request(plain.as_str()) {
            ParsedRequest::PayInvoice { invoice } => HandleStep::PayRequest {
                invoice,
                request_id: event.id.clone(),
                requester: event.author.clone(),
            },
            ParsedRequest::UnknownMethod => HandleStep::Reject(RejectReason::UnknownMethod),
            ParsedRequest::Malformed => HandleStep::Reject(RejectReason::MalformedRequest),
        }
    }

    /// Build the one response event for a handled request: the outcome's
    /// body, encrypted to the requester, tagged with the request's event id
    /// and the requester's public key. Succeeds exactly when the requester's
    /// key is usable — which it is for every request that decrypted.
    pub fn build_response(
        &self,
        request_id: &String,
        requester: &String,
        outcome: &PaymentOutcome,
    ) -> (r: Option<EventPlan>)
        ensures
            r is Some <==> pub_key_usable(requester@),
            r matches Some(plan) ==> ({
                &&& plan.kind == KIND_WALLET_CONNECT_RESPONSE
                &&& plan.tags@.len() == 2
                &&& plan.tags@[0]@.len() == 2
                &&& plan.tags@[0]@[0]@ == "e"@
                &&& plan.tags@[0]@[1]@ == request_id@
                &&& plan.tags@[1]@.len() == 2
                &&& plan.tags@[1]@[0]@ == "p"@
                &&& plan.tags@[1]@[1]@ == requester@
                &&& round_trips(requester@, self.own_public(), plan.content@, response_body(outcome))
            }),
    {
        let body = response_content(outcome);
        let content = match encrypt(&self.own, requester, &body) {
            Some(ct) => ct,
            None => {
                return None;
            },
        };
        let mut tag_e: Vec<String> = Vec::new();
        tag_e.push(String::from_str("e"));
        tag_e.push(request_id.clone());
        let mut tag_p: Vec<String> = Vec::new();
        tag_p.push(String::from_str("p"));
        tag_p.push(requester.clone());
        let mut tags: Vec<Vec<String>> = Vec::new();
        tags.push(tag_e);
        tags.push(tag_p);
        Some(EventPlan { kind: KIND_WALLET_CONNECT_RESPONSE, content, tags })
    }
}


// ---------------------------------------------------------------------------
// The service loop as a state machine
// ---------------------------------------------------------------------------

/// Spec view of [`PaymentOutcome`].
pub enum OutcomeV {
    SuccessV(Seq<char>),
    FailureV(Seq<char>),
}

/// Where the service loop stands between events.
pub enum ServiceStateV {
    /// Ready to take the next relay event.
    Listening,
    /// An invoice is out for payment; its response is owed next.
    AwaitingOutcome { request_id: Seq<char>, requester: Seq<char> },
}

/// What the loop consumes: a relay event, or the backend's verdict on the
/// invoice last handed out.
pub enum ServiceEventV {
    IncomingV(RelayEventV),
    OutcomeArrivedV(OutcomeV),
}

/// What the loop does in reaction.
pub enum ServiceActionV {
    /// Log the rejection and continue; publish nothing.
    DropEventV(RejectReason),
    /// Hand this invoice to the payment backend.
    PayInvoiceV(Seq<char>),
    /// Publish the one response for this request and outcome.
    PublishResponseV { request_id: Seq<char>, requester: Seq<char>, outcome: OutcomeV },
    /// The event does not belong to this state; do nothing.
    IdleV,
}

/// One step of the service loop: each event is handled end to end — a
/// classified request leads to one payment, and every payment outcome,
/// success or failure, to one published response, never none and never a
/// second one before the next request is classified.
pub open spec fn service_next(
    own_secret: Seq<char>,
    st: ServiceStateV,
    ev: ServiceEventV,
) -> (ServiceStateV, ServiceActionV) {
    match (st, ev) {
        (ServiceStateV::Listening, ServiceEventV::IncomingV(e)) => {
            match classify(own_secret, e) {
                HandleV::RejectV(reason) => (
                    ServiceStateV::Listening,
                    ServiceActionV::DropEventV(reason),
                ),
                HandleV::PayV { invoice, request_id, requester } => (
                    ServiceStateV::AwaitingOutcome { request_id, requester },
                    ServiceActionV::PayInvoiceV(invoice),
                ),
            }
        },
        (
            ServiceStateV::AwaitingOutcome { request_id, requester },
            ServiceEventV::OutcomeArrivedV(o),
        ) => (
            ServiceStateV::Listening,
            ServiceActionV::PublishResponseV { request_id, requester, outcome: o },
        ),
        (s, _) => (s, ServiceActionV::IdleV),
    }
}

/// The actions of a run of the loop over a sequence of events.
pub open spec fn service_run(
    own_secret: Seq<char>,
    st: ServiceStateV,
    evs: Seq<ServiceEventV>,
) -> Seq<ServiceActionV>
    decreases evs.len(),
{
    if evs.len() == 0 {
        Seq::empty()
    } else {
        let step = service_next(own_secret, st, evs[0]);
        seq![step.1] + service_run(own_secret, step.0, evs.drop_first())
    }
}

/// How many responses a sequence of actions publishes.
pub open spec fn count_publishes(acts: Seq<ServiceActionV>) -> int
    decreases acts.len(),
{
    if acts.len() == 0 {
        0
    } else {
        (if acts[0] is PublishResponseV {
            1int
        } else {
            0int
        }) + count_publishes(acts.drop_first())
    }
}

/// How many payment attempts a sequence of actions makes.
pub open spec fn count_payments(acts: Seq<ServiceActionV>) -> int
    decreases acts.len(),
{
    if acts.len() == 0 {
        0
    } else {
        (if acts[0] is PayInvoiceV {
            1int
        } else {
            0int
        }) + count_payments(acts.drop_first())
    }
}

/// How many responses a run from `st` may still owe for payments already
/// under way.
pub open spec fn pending_responses(st: ServiceStateV) -> int {
    match st {
        ServiceStateV::Listening => 0,
        ServiceStateV::AwaitingOutcome { .. } => 1,
    }
}

proof fn lemma_run_counts(own_secret: Seq<char>, st: ServiceStateV, evs: Seq<ServiceEventV>)
    ensures
        count_publishes(service_run(own_secret, st, evs)) <= count_payments(
            service_run(own_secret, st, evs),
        ) + pending_responses(st),
    decreases evs.len(),
{
    if evs.len() > 0 {
        let step = service_next(own_secret, st, evs[0]);
        lemma_run_counts(own_secret, step.0, evs.drop_first());
        assert((seq![step.1] + service_run(own_secret, step.0, evs.drop_first())).drop_first()
            =~= service_run(own_secret, step.0, evs.drop_first()));
    }
}

/// Law: an incoming event whose kind is not the request kind never leads to
/// a payment call, whatever its author or content.
pub proof fn lemma_wrong_kind_never_pays(
    own_secret: Seq<char>,
    st: ServiceStateV,
    e: RelayEventV,
)
    requires
        e.kind != KIND_WALLET_CONNECT_REQUEST as int,
    ensures
        !(service_next(own_secret, st, ServiceEventV::IncomingV(e)).1 is PayInvoiceV),
{
}

/// Law: a request event whose content does not decrypt, or whose body is
/// outside the request grammar, is rejected — never paid, never answered,
/// and the loop stays ready for the next event.
pub proof fn lemma_garbage_is_rejected(own_secret: Seq<char>, e: RelayEventV)
    requires
        e.kind == KIND_WALLET_CONNECT_REQUEST as int,
        nip04_plain(own_secret, e.author, e.content) is None || parse_request(
            nip04_plain(own_secret, e.author, e.content).unwrap(),
        ) is Malformed,
    ensures
        classify(own_secret, e) is RejectV,
        service_next(own_secret, ServiceStateV::Listening, ServiceEventV::IncomingV(e))
            == (ServiceStateV::Listening, ServiceActionV::DropEventV(
            classify(own_secret, e)->RejectV_0,
        )),
{
}

/// Law: a fresh service loop never publishes more responses than it made
/// payment attempts, over any sequence of events — a response is only ever
/// built after a payment attempt, and each attempt is answered by at most
/// one response before the next request is classified.
pub proof fn lemma_one_response_per_payment(own_secret: Seq<char>, evs: Seq<ServiceEventV>)
    ensures
        count_publishes(service_run(own_secret, ServiceStateV::Listening, evs)) <= count_payments(
            service_run(own_secret, ServiceStateV::Listening, evs),
        ),
{
    lemma_run_counts(own_secret, ServiceStateV::Listening, evs);
}


} // verus!
