//! A payment-gated access bridge.
//!
//! Two protocols couple a communication channel to an economic authorization
//! step: a wallet-connect control channel, where encrypted payment-execution
//! requests arrive over an untrusted pub/sub relay and are answered with
//! encrypted, correlated responses; and an HTTP challenge flow, where a
//! metered API answers with an invoice and the call is retried exactly once
//! with proof of payment. The protocol logic lives here; connections,
//! payment execution and other I/O are collaborators around it.

use vstd::prelude::*;

pub mod keys;
pub mod codec;
pub mod json;
pub mod l402;
pub mod nwc;

verus! {

/// One chat message of the metered API's request body.
pub struct GptMessage {
    pub role: String,
    pub content: String,
}

/// The request body sent to the metered API.
pub struct GptRequest {
    pub model: String,
    pub messages: Vec<GptMessage>,
}

/// The serialized form of one message.
pub open spec fn message_body(m: GptMessage) -> Seq<char> {
    "{\"role\":\""@ + crate::json::json_escaped(m.role@) + "\",\"content\":\""@
        + crate::json::json_escaped(m.content@) + "\"}"@
}

/// The serialized messages from index `i` on, each preceded by a comma,
/// appended to `acc`.
pub open spec fn messages_tail(ms: Seq<GptMessage>, i: int, acc: Seq<char>) -> Seq<char>
    decreases ms.len() - i when 0 <= i <= ms.len()
{
    if i >= ms.len() {
        acc
    } else {
        messages_tail(ms, i + 1, acc + ","@ + message_body(ms[i]))
    }
}

/// The serialized form of a whole request body.
pub open spec fn gpt_request_body(r: GptRequest) -> Seq<char> {
    "{\"model\":\""@ + crate::json::json_escaped(r.model@) + "\",\"messages\":["@ + (if r.messages@.len()
        == 0 {
        Seq::<char>::empty()
    } else {
        messages_tail(r.messages@, 1, message_body(r.messages@[0]))
    }) + "]}"@
}

proof fn lemma_messages_tail_acc(ms: Seq<GptMessage>, i: int, acc: Seq<char>)
    requires
        0 <= i <= ms.len(),
    ensures
        messages_tail(ms, i, acc) == acc + messages_tail(ms, i, Seq::empty()),
    decreases ms.len() - i,
{
    if i < ms.len() {
        lemma_messages_tail_acc(ms, i + 1, acc + ","@ + message_body(ms[i]));
        lemma_messages_tail_acc(ms, i + 1, Seq::<char>::empty() + ","@ + message_body(ms[i]));
        assert(Seq::<char>::empty() + ","@ + message_body(ms[i]) =~= ","@ + message_body(ms[i]));
        assert((acc + ","@ + message_body(ms[i])) + messages_tail(ms, i + 1, Seq::empty()) =~= acc
            + ((","@ + message_body(ms[i])) + messages_tail(ms, i + 1, Seq::empty())));
    } else {
        assert(acc + Seq::<char>::empty() =~= acc);
    }
}

fn append_message(out: &mut String, m: &GptMessage)
    ensures
        final(out)@ == old(out)@ + message_body(*m),
{
    out.append("{\"role\":\"");
    crate::json::append_escaped(out, &m.role);
    out.append("\",\"content\":\"");
    crate::json::append_escaped(out, &m.content);
    out.append("\"}");
    proof {
        assert(out@ =~= old(out)@ + message_body(*m));
    }
}

impl GptRequest {
    /// Serialize the request body as it is sent to the metered API.
    pub fn to_json(&self) -> (r: String)
        ensures
            r@ == gpt_request_body(*self),
    {
        let ghost ms = self.messages@;
        let mut out = String::new();
        out.append("{\"model\":\"");
        crate::json::append_escaped(&mut out, &self.model);
        out.append("\",\"messages\":[");
        let ghost head = out@;
        if self.messages.len() > 0 {
            append_message(&mut out, &self.messages[0]);
            let mut i: usize = 1;
            while i < self.messages.len()
                invariant
                    1 <= i <= ms.len(),
                    ms == self.messages@,
                    messages_tail(ms, i as int, out@) == messages_tail(
                        ms,
                        1,
                        head + message_body(ms[0]),
                    ),
                decreases ms.len() - i,
            {
                let ghost pre = out@;
                out.append(",");
                append_message(&mut out, &self.messages[i]);
                proof {
                    assert(out@ =~= pre + ","@ + message_body(ms[i as int]));
                }
                i = i + 1;
            }
        }
        out.append("]}");
        proof {
            if ms.len() > 0 {
                lemma_messages_tail_acc(ms, 1, head + message_body(ms[0]));
                lemma_messages_tail_acc(ms, 1, message_body(ms[0]));
            }
            assert(out@ =~= gpt_request_body(*self));
        }
        out
    }
}

} // verus!
