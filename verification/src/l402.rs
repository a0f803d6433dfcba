//! The HTTP payment-challenge flow.
//!
//! A metered API answers a plain call with status 402 and a challenge header
//! `L402 token="<token>", invoice="<bolt11>"` (the first word of the pair may
//! also be `macaroon`). The caller pays the invoice out of band and retries
//! the call exactly once, carrying `L402 <token>:<preimage>` as its
//! credential. This module parses the challenge, builds the credential, and
//! drives the decision steps of one call as a state machine; issuing the
//! requests and paying the invoice belong to the surrounding program.

use vstd::prelude::*;

verus! {

// ---------------------------------------------------------------------------
// The challenge header grammar
// ---------------------------------------------------------------------------

/// `L402 ` opens the header.
pub open spec fn l402_prefix_at(s: Seq<char>) -> bool {
    s.len() >= 5 && s[0] == 'L' && s[1] == '4' && s[2] == '0' && s[3] == '2' && s[4] == ' '
}

/// The keyword `token` stands at `i`.
pub open spec fn kw_token_at(s: Seq<char>, i: int) -> bool {
    i + 5 <= s.len() && s[i] == 't' && s[i + 1] == 'o' && s[i + 2] == 'k' && s[i + 3] == 'e' && s[i
        + 4] == 'n'
}

/// The keyword `macaroon` stands at `i`.
pub open spec fn kw_macaroon_at(s: Seq<char>, i: int) -> bool {
    i + 8 <= s.len() && s[i] == 'm' && s[i + 1] == 'a' && s[i + 2] == 'c' && s[i + 3] == 'a' && s[i
        + 4] == 'r' && s[i + 5] == 'o' && s[i + 6] == 'o' && s[i + 7] == 'n'
}

/// The separator `, invoice="` stands at `i`.
pub open spec fn sep_invoice_at(s: Seq<char>, i: int) -> bool {
    i + 11 <= s.len() && s[i] == ',' && s[i + 1] == ' ' && s[i + 2] == 'i' && s[i + 3] == 'n' && s[
        i + 4] == 'v' && s[i + 5] == 'o' && s[i + 6] == 'i' && s[i + 7] == 'c' && s[i + 8] == 'e'
        && s[i + 9] == '=' && s[i + 10] == '"'
}

/// Scan a quoted field from `i` up to the closing quote, with `acc` the
/// characters already read.
pub open spec fn scan_plain(s: Seq<char>, i: int, acc: Seq<char>) -> Option<(Seq<char>, int)>
    decreases s.len() - i when 0 <= i <= s.len()
{
    if i >= s.len() {
        None
    } else if s[i] == '"' {
        Some((acc, i + 1))
    } else {
        scan_plain(s, i + 1, acc.push(s[i]))
    }
}

/// The token and invoice of a well-formed challenge header, or `None`. The
/// header must be exactly `L402 ` + (`token` or `macaroon`) + `="<token>",
/// invoice="<invoice>"`, with no text after the final quote and neither
/// field containing a quote.
pub open spec fn parse_challenge(s: Seq<char>) -> Option<(Seq<char>, Seq<char>)> {
    if !l402_prefix_at(s) {
        None
    } else {
        let k = if kw_token_at(s, 5) {
            10int
        } else if kw_macaroon_at(s, 5) {
            13int
        } else {
            -1int
        };
        if k < 0 {
            None
        } else if k + 2 <= s.len() && s[k] == '=' && s[k + 1] == '"' {
            match scan_plain(s, k + 2, Seq::<char>::empty()) {
                None => None,
                Some(tr) => {
                    if sep_invoice_at(s, tr.1) {
                        match scan_plain(s, tr.1 + 11, Seq::<char>::empty()) {
                            Some(ir) => if ir.1 == s.len() {
                                Some((tr.0, ir.0))
                            } else {
                                None
                            },
                            None => None,
                        }
                    } else {
                        None
                    }
                },
            }
        } else {
            None
        }
    }
}

fn scan_plain_exec(s: &Vec<char>, i: usize) -> (r: Option<(Vec<char>, usize)>)
    requires
        i <= s@.len(),
    ensures
        match r {
            Some(p) => scan_plain(s@, i as int, Seq::<char>::empty()) == Some((p.0@, p.1 as int))
                && i < p.1 <= s@.len(),
            None => scan_plain(s@, i as int, Seq::<char>::empty()) is None,
        },
{
    let mut acc: Vec<char> = Vec::new();
    let mut j = i;
    loop
        invariant
            i <= j <= s@.len(),
            scan_plain(s@, i as int, Seq::<char>::empty()) == scan_plain(s@, j as int, acc@),
        decreases s@.len() - j,
    {
        if j >= s.len() {
            return None;
        }
        let c = s[j];
        if c == '"' {
            return Some((acc, j + 1));
        }
        acc.push(c);
        j = j + 1;
    }
}

/// A parsed challenge: the opaque access token and the invoice to pay.
pub struct PaymentChallenge {
    pub token: String,
    pub invoice: String,
}

/// Why a challenge-flow call failed.
#[derive(Debug)]
pub enum L402Error {
    /// The 402 response carried no challenge header, or one outside the
    /// grammar.
    MalformedChallenge,
    /// The invoice could not be paid; the message names the cause.
    Payment { message: String },
}

/// Parse a challenge header. Succeeds exactly on headers the grammar
/// accepts, and returns their token and invoice; any other header fails
/// with [`L402Error::MalformedChallenge`].
pub fn parse_l402_header(header: &str) -> (r: Result<PaymentChallenge, L402Error>)
    ensures
        match r {
            Ok(c) => parse_challenge(header@) == Some((c.token@, c.invoice@)),
            Err(e) => parse_challenge(header@) is None && (e is MalformedChallenge),
        },
{
    let s = crate::json::chars_of(header);
    if s.len() < 5 || s[0] != 'L' || s[1] != '4' || s[2] != '0' || s[3] != '2' || s[4] != ' ' {
        return Err(L402Error::MalformedChallenge);
    }
    let k: usize = if s.len() >= 10 && s[5] == 't' && s[6] == 'o' && s[7] == 'k' && s[8] == 'e'
        && s[9] == 'n' {
        10
    } else if s.len() >= 13 && s[5] == 'm' && s[6] == 'a' && s[7] == 'c' && s[8] == 'a' && s[9]
        == 'r' && s[10] == 'o' && s[11] == 'o' && s[12] == 'n' {
        13
    } else {
        return Err(L402Error::MalformedChallenge);
    };
    if !(s.len() - k >= 2 && s[k] == '=' && s[k + 1] == '"') {
        return Err(L402Error::MalformedChallenge);
    }
    let tr = match scan_plain_exec(&s, k + 2) {
        Some(x) => x,
        None => {
            return Err(L402Error::MalformedChallenge);
        },
    };
    let t = tr.1;
    if !(s.len() - t >= 11 && s[t] == ',' && s[t + 1] == ' ' && s[t + 2] == 'i' && s[t + 3] == 'n'
        && s[t + 4] == 'v' && s[t + 5] == 'o' && s[t + 6] == 'i' && s[t + 7] == 'c' && s[t + 8]
        == 'e' && s[t + 9] == '=' && s[t + 10] == '"') {
        return Err(L402Error::MalformedChallenge);
    }
    let ir = match scan_plain_exec(&s, t + 11) {
        Some(x) => x,
        None => {
            return Err(L402Error::MalformedChallenge);
        },
    };
    if ir.1 != s.len() {
        return Err(L402Error::MalformedChallenge);
    }
    let token = crate::json::string_from_chars(&tr.0);
    let invoice = crate::json::string_from_chars(&ir.0);
    Ok(PaymentChallenge { token, invoice })
}

// ---------------------------------------------------------------------------
// The credential
// ---------------------------------------------------------------------------

/// The credential header value sent on the retry.
pub open spec fn auth_header_view(token: Seq<char>, preimage: Seq<char>) -> Seq<char> {
    "L402 "@ + token + ":"@ + preimage
}

/// Build the retry credential `L402 <token>:<preimage>`.
pub fn authorization_header(token: &String, preimage: &String) -> (r: String)
    ensures
        r@ == auth_header_view(token@, preimage@),
{
    let mut out = String::new();
    out.append("L402 ");
    out.append(token.as_str());
    out.append(":");
    out.append(preimage.as_str());
    proof {
        assert(out@ =~= auth_header_view(token@, preimage@));
    }
    out
}

// ---------------------------------------------------------------------------
// The call as a state machine
// ---------------------------------------------------------------------------

/// Where one challenge-flow call stands.
pub enum L402State {
    /// The plain request has been issued; its response is awaited.
    AwaitFirst,
    /// A challenge was parsed and its invoice handed out for payment.
    AwaitPay { token: String },
    /// The retry with the credential has been issued.
    AwaitRetry,
    /// The call is over.
    Finished,
}

/// What the surrounding program reports to the machine.
pub enum L402Event {
    Response { status: u16, www_authenticate: Option<String> },
    PaymentSucceeded { preimage: String },
    PaymentFailed { message: String },
}

/// What the machine asks the surrounding program to do.
pub enum L402Action {
    /// Hand the response just received to the caller, verbatim.
    ReturnResponse,
    /// Pay this invoice and report the outcome.
    Pay { invoice: String },
    /// Reissue the original request once, with this `Authorization` value.
    SendRetry { authorization: String },
    /// Fail the call with this error.
    Abort { error: L402Error },
    /// The event does not belong to this state; do nothing.
    Ignore,
}

/// Spec view of [`L402State`].
pub enum L402StateV {
    AwaitFirst,
    AwaitPay(Seq<char>),
    AwaitRetry,
    Finished,
}

/// Spec view of [`L402Event`].
pub enum L402EventV {
    Response(int, Option<Seq<char>>),
    PaymentSucceeded(Seq<char>),
    PaymentFailed(Seq<char>),
}

/// Spec view of [`L402Action`].
pub enum L402ActionV {
    ReturnResponse,
    Pay(Seq<char>),
    SendRetry(Seq<char>),
    AbortMalformed,
    AbortPayment(Seq<char>),
    Ignore,
}

pub open spec fn state_view(st: &L402State) -> L402StateV {
    match st {
        L402State::AwaitFirst => L402StateV::AwaitFirst,
        L402State::AwaitPay { token } => L402StateV::AwaitPay(token@),
        L402State::AwaitRetry => L402StateV::AwaitRetry,
        L402State::Finished => L402StateV::Finished,
    }
}

pub open spec fn event_view(ev: &L402Event) -> L402EventV {
    match ev {
        L402Event::Response { status, www_authenticate } => L402EventV::Response(
            *status as int,
            match www_authenticate {
                Some(h) => Some(h@),
                None => None,
            },
        ),
        L402Event::PaymentSucceeded { preimage } => L402EventV::PaymentSucceeded(preimage@),
        L402Event::PaymentFailed { message } => L402EventV::PaymentFailed(message@),
    }
}

pub open spec fn action_view(a: &L402Action) -> L402ActionV {
    match a {
        L402Action::ReturnResponse => L402ActionV::ReturnResponse,
        L402Action::Pay { invoice } => L402ActionV::Pay(invoice@),
        L402Action::SendRetry { authorization } => L402ActionV::SendRetry(authorization@),
        L402Action::Abort { error: L402Error::MalformedChallenge } => L402ActionV::AbortMalformed,
        L402Action::Abort { error: L402Error::Payment { message } } => L402ActionV::AbortPayment(
            message@,
        ),
        L402Action::Ignore => L402ActionV::Ignore,
    }
}

/// One decision step of a call. A response other than 402 to the first
/// request, and any response to the retry, is returned verbatim; a 402
/// without a well-formed challenge aborts the call before any payment; a
/// parsed challenge leads to exactly one payment and, on success, exactly
/// one retry.
pub open spec fn l402_next(st: L402StateV, ev: L402EventV) -> (L402StateV, L402ActionV) {
    match (st, ev) {
        (L402StateV::AwaitFirst, L402EventV::Response(status, hdr)) => {
            if status != 402 {
                (L402StateV::Finished, L402ActionV::ReturnResponse)
            } else {
                match hdr {
                    None => (L402StateV::Finished, L402ActionV::AbortMalformed),
                    Some(h) => match parse_challenge(h) {
                        None => (L402StateV::Finished, L402ActionV::AbortMalformed),
                        Some(ti) => (L402StateV::AwaitPay(ti.0), L402ActionV::Pay(ti.1)),
                    },
                }
            }
        },
        (L402StateV::AwaitPay(token), L402EventV::PaymentSucceeded(pre)) => (
            L402StateV::AwaitRetry,
            L402ActionV::SendRetry(auth_header_view(token, pre)),
        ),
        (L402StateV::AwaitPay(_), L402EventV::PaymentFailed(m)) => (
            L402StateV::Finished,
            L402ActionV::AbortPayment(m),
        ),
        (L402StateV::AwaitRetry, L402EventV::Response(_, _)) => (
            L402StateV::Finished,
            L402ActionV::ReturnResponse,
        ),
        (other, _) => (other, L402ActionV::Ignore),
    }
}

/// Take one decision step of a call.
pub fn l402_step(state: L402State, event: &L402Event) -> (r: (L402State, L402Action))
    ensures
        (state_view(&r.0), action_view(&r.1)) == l402_next(state_view(&state), event_view(event)),
{
    match (state, event) {
        (L402State::AwaitFirst, L402Event::Response { status, www_authenticate }) => {
            if *status != 402 {
                (L402State::Finished, L402Action::ReturnResponse)
            } else {
                match www_authenticate {
                    None => (
                        L402State::Finished,
                        L402Action::Abort { error: L402Error::MalformedChallenge },
                    ),
                    Some(h) => match parse_l402_header(h.as_str()) {
                        Err(_) => (
                            L402State::Finished,
                            L402Action::Abort { error: L402Error::MalformedChallenge },
                        ),
                        Ok(challenge) => (
                            L402State::AwaitPay { token: challenge.token },
                            L402Action::Pay { invoice: challenge.invoice },
                        ),
                    },
                }
            }
        },
        (L402State::AwaitPay { token }, L402Event::PaymentSucceeded { preimage }) => {
            let authorization = authorization_header(&token, preimage);
            (L402State::AwaitRetry, L402Action::SendRetry { authorization })
        },
        (L402State::AwaitPay { token: _ }, L402Event::PaymentFailed { message }) => (
            L402State::Finished,
            L402Action::Abort { error: L402Error::Payment { message: message.clone() } },
        ),
        (L402State::AwaitRetry, L402Event::Response { status: _, www_authenticate: _ }) => (
            L402State::Finished,
            L402Action::ReturnResponse,
        ),
        (other, _) => (other, L402Action::Ignore),
    }
}

// ---------------------------------------------------------------------------
// The retry bound
// ---------------------------------------------------------------------------

/// The actions of a run of the machine over a sequence of events.
pub open spec fn l402_run(st: L402StateV, evs: Seq<L402EventV>) -> Seq<L402ActionV>
    decreases evs.len(),
{
    if evs.len() == 0 {
        Seq::empty()
    } else {
        let step = l402_next(st, evs[0]);
        seq![step.1] + l402_run(step.0, evs.drop_first())
    }
}

/// How many retries a sequence of actions issues.
pub open spec fn count_retries(acts: Seq<L402ActionV>) -> int
    decreases acts.len(),
{
    if acts.len() == 0 {
        0
    } else {
        (if acts[0] is SendRetry {
            1int
        } else {
            0int
        }) + count_retries(acts.drop_first())
    }
}

/// How many retries a run may still issue from `st`.
pub open spec fn retry_allowance(st: L402StateV) -> int {
    match st {
        L402StateV::AwaitRetry => 0,
        L402StateV::Finished => 0,
        _ => 1,
    }
}

/// How many payment attempts a sequence of actions makes.
pub open spec fn count_payments(acts: Seq<L402ActionV>) -> int
    decreases acts.len(),
{
    if acts.len() == 0 {
        0
    } else {
        (if acts[0] is Pay {
            1int
        } else {
            0int
        }) + count_payments(acts.drop_first())
    }
}

/// How many payment attempts a run may still make from `st`.
pub open spec fn pay_allowance(st: L402StateV) -> int {
    match st {
        L402StateV::AwaitFirst => 1,
        _ => 0,
    }
}

proof fn lemma_run_retries(st: L402StateV, evs: Seq<L402EventV>)
    ensures
        0 <= count_retries(l402_run(st, evs)) <= retry_allowance(st),
        0 <= count_payments(l402_run(st, evs)) <= pay_allowance(st),
    decreases evs.len(),
{
    if evs.len() > 0 {
        let step = l402_next(st, evs[0]);
        lemma_run_retries(step.0, evs.drop_first());
        assert((seq![step.1] + l402_run(step.0, evs.drop_first())).drop_first() =~= l402_run(
            step.0,
            evs.drop_first(),
        ));
    }
}

/// Law: from the start of a call, a run of the machine over any sequence of
/// events issues at most one retry; with the initial request, the call makes
/// at most two requests in all, whatever the responses held.
pub proof fn lemma_at_most_one_retry(evs: Seq<L402EventV>)
    ensures
        count_retries(l402_run(L402StateV::AwaitFirst, evs)) <= 1,
{
    lemma_run_retries(L402StateV::AwaitFirst, evs);
}

/// Law: one call hands out at most one invoice for payment, whatever the
/// responses held — a repeated payment demand is returned to the caller, not
/// paid again.
pub proof fn lemma_at_most_one_payment(evs: Seq<L402EventV>)
    ensures
        count_payments(l402_run(L402StateV::AwaitFirst, evs)) <= 1,
{
    lemma_run_retries(L402StateV::AwaitFirst, evs);
}

} // verus!
