//! What is sent to the endpoint, and what is made of what comes back.
use vstd::prelude::*;
use crate::chat::{ChatClient, ChatRequest, ChatRequestView, ChatResponse, Outgoing, Reply};
use crate::json::{parsed, Json};
use crate::wire::fields::{requests_are_told, responses_are_told, tells_request, tells_response};
use crate::wire::{
    accepts, answers, keep_body, keeps_body, may_complete, may_exchange, outgoing_spec, raw_reply,
    read_raw_reply, read_reply, Exchange,
};

verus! {

/// What is sent for a request goes to the completions of the endpoint, with the key as
/// bearer just where there is one, and tells of the request.
pub proof fn what_is_sent_tells_of_the_request(
    client: ChatClient,
    request: ChatRequest,
    sent: Outgoing,
)
    requires
        call_ensures(ChatClient::outgoing, (&client, &request), sent),
    ensures
        sent.url@ == client.base_url@ + "/chat/completions"@,
        match client.api_key {
            Some(key) => sent.authorization is Some && (sent.authorization->0)@ == "Bearer "@
                + key@,
            None => sent.authorization is None,
        },
        tells_request(sent.body@, request@),
{
    requests_are_told(request@);
    assert(sent@.url == sent.url@);
    assert(sent@.body == sent.body@);
}

/// What a client sends, as it is said.
pub proof fn what_is_said_tells_of_the_request(client: ChatClient, request: ChatRequestView)
    ensures
        ({
            let sent = outgoing_spec(client, request);
            &&& sent.url == client.base_url@ + "/chat/completions"@
            &&& match client.api_key {
                Some(key) => sent.authorization == Some("Bearer "@ + key@),
                None => sent.authorization is None,
            }
            &&& tells_request(sent.body, request)
        }),
{
    requests_are_told(request);
}

/// A reply is read only where its status is one of success: then the body goes to `decode`
/// as it is, and what that makes of it comes back, or an error that quotes its words and the
/// body. Any other reply is an error that quotes the status and the body.
pub proof fn replies_are_read<D: Fn(&str) -> Result<ChatResponse, String>>(
    reply: Reply,
    decode: D,
    r: Result<ChatResponse, String>,
)
    requires
        call_ensures(read_reply::<D>, (&reply, &decode), r),
    ensures
        !reply.success ==> r is Err && (r->Err_0)@ == "endpoint returned "@ + reply.status@ + ": "@
            + reply.body@,
        reply.success ==> exists|body: &str, decoded: Result<ChatResponse, String>| #[trigger]
            call_ensures(decode, (body,), decoded) && body@ == reply.body@ && (match decoded {
                Ok(response) => r is Ok && r->Ok_0 == response,
                Err(e) => r is Err && (r->Err_0)@ == "failed to parse response: "@ + e@ + "\n"@
                    + reply.body@,
            }),
{
    lemma_accepts(decode, reply, r);
}

/// What a reply is made of.
proof fn lemma_accepts<D: Fn(&str) -> Result<ChatResponse, String>>(
    decode: D,
    reply: Reply,
    r: Result<ChatResponse, String>,
)
    requires
        accepts(decode, reply, r),
    ensures
        !reply.success ==> r is Err && (r->Err_0)@ == "endpoint returned "@ + reply.status@ + ": "@
            + reply.body@,
        reply.success ==> exists|body: &str, decoded: Result<ChatResponse, String>| #[trigger]
            call_ensures(decode, (body,), decoded) && body@ == reply.body@ && (match decoded {
                Ok(response) => r is Ok && r->Ok_0 == response,
                Err(e) => r is Err && (r->Err_0)@ == "failed to parse response: "@ + e@ + "\n"@
                    + reply.body@,
            }),
{
}

/// A reply as raw JSON is its body, where its status is one of success and the body is JSON;
/// else an error that quotes the body, with the status or with what is wrong with it.
pub proof fn raw_replies_are_read(reply: Reply, r: Result<Json, String>)
    requires
        call_ensures(read_raw_reply, (&reply,), r),
    ensures
        !reply.success ==> r is Err && (r->Err_0)@ == "endpoint returned "@ + reply.status@ + ": "@
            + reply.body@,
        reply.success ==> (match parsed(reply.body@) {
            Ok(j) => r is Ok && (r->Ok_0)@ == j,
            Err(e) => r is Err && (r->Err_0)@ == "invalid json: "@ + e + "\n"@ + reply.body@,
        }),
{
}

/// A response is kept as it is, together with the body as JSON; a body that is no JSON value
/// is replaced by JSON that tells of the response. An error is kept as it is.
pub proof fn bodies_are_kept(
    body: &str,
    read: Result<ChatResponse, String>,
    r: Result<Exchange, String>,
)
    requires
        call_ensures(keep_body, (body, read), r),
    ensures
        match read {
            Ok(response) => {
                &&& r is Ok
                &&& (r->Ok_0).response == response
                &&& match parsed(body@) {
                    Ok(j) => (r->Ok_0).raw@ == j,
                    Err(_) => tells_response((r->Ok_0).raw@, response@),
                }
            },
            Err(e) => r is Err && (r->Err_0)@ == e@,
        },
{
    if let Ok(response) = read {
        responses_are_told(response@);
    }
}

/// An exchange succeeds only where a reply of success came back for the request and its body
/// was read; the response is what was read of that very body. Where nothing came back, the
/// error is that of the transport.
pub proof fn exchanges_come_of_replies<
    T: Fn(&Outgoing) -> Result<Reply, String>,
    D: Fn(&str) -> Result<ChatResponse, String>,
>(
    client: ChatClient,
    transport: T,
    decode: D,
    request: ChatRequest,
    r: Result<Exchange, String>,
)
    requires
        call_ensures(ChatClient::exchange::<T, D>, (&client, &request, &transport, &decode), r),
    ensures
        may_exchange(client, transport, decode, request@, r),
        exists|sent: Outgoing, reply: Result<Reply, String>| #[trigger]
            call_ensures(transport, (&sent,), reply) && {
                &&& sent.url@ == client.base_url@ + "/chat/completions"@
                &&& tells_request(sent.body@, request@)
                &&& match reply {
                    Err(e) => r is Err && (r->Err_0)@ == e@,
                    Ok(reply) => {
                        &&& r is Ok ==> reply.success && exists|body: &str| #[trigger]
                            call_ensures(decode, (body,), Ok((r->Ok_0).response)) && body@
                                == reply.body@
                        &&& r is Ok ==> (parsed(reply.body@) matches Ok(j) ==> (r->Ok_0).raw@ == j)
                        &&& !reply.success ==> r is Err && (r->Err_0)@ == "endpoint returned "@
                            + reply.status@ + ": "@ + reply.body@
                    },
                }
            },
{
    requests_are_told(request@);
    let reply = choose|reply: Result<Reply, String>| #[trigger]
        answers(transport, outgoing_spec(client, request@), reply) && match reply {
            Ok(reply) => exists|read: Result<ChatResponse, String>| #[trigger]
                accepts(decode, reply, read) && keeps_body(reply.body@, read, r),
            Err(e) => r == Err::<Exchange, String>(e),
        };
    let sent = choose|sent: Outgoing| #[trigger]
        call_ensures(transport, (&sent,), reply) && sent@ == outgoing_spec(client, request@);
    assert(call_ensures(transport, (&sent,), reply));
    assert(sent@.url == sent.url@ && sent@.body == sent.body@);
    if let Ok(came) = reply {
        let read = choose|read: Result<ChatResponse, String>| #[trigger]
            accepts(decode, came, read) && keeps_body(came.body@, read, r);
        lemma_accepts(decode, came, read);
    }
}

/// A completion is an exchange without the body.
pub proof fn completions_come_of_replies<
    T: Fn(&Outgoing) -> Result<Reply, String>,
    D: Fn(&str) -> Result<ChatResponse, String>,
>(
    client: ChatClient,
    transport: T,
    decode: D,
    request: ChatRequest,
    r: Result<ChatResponse, String>,
)
    requires
        call_ensures(ChatClient::complete::<T, D>, (&client, &request, &transport, &decode), r),
    ensures
        may_complete(client, transport, decode, request@, r),
        exists|sent: Outgoing, reply: Result<Reply, String>| #[trigger]
            call_ensures(transport, (&sent,), reply) && {
                &&& sent.url@ == client.base_url@ + "/chat/completions"@
                &&& tells_request(sent.body@, request@)
                &&& match reply {
                    Err(e) => r is Err && (r->Err_0)@ == e@,
                    Ok(reply) => {
                        &&& r is Ok ==> reply.success && exists|body: &str| #[trigger]
                            call_ensures(decode, (body,), Ok(r->Ok_0)) && body@ == reply.body@
                        &&& !reply.success ==> r is Err && (r->Err_0)@ == "endpoint returned "@
                            + reply.status@ + ": "@ + reply.body@
                    },
                }
            },
{
    requests_are_told(request@);
    let reply = choose|reply: Result<Reply, String>| #[trigger]
        answers(transport, outgoing_spec(client, request@), reply) && match reply {
            Ok(reply) => accepts(decode, reply, r),
            Err(e) => r == Err::<ChatResponse, String>(e),
        };
    let sent = choose|sent: Outgoing| #[trigger]
        call_ensures(transport, (&sent,), reply) && sent@ == outgoing_spec(client, request@);
    assert(call_ensures(transport, (&sent,), reply));
    assert(sent@.url == sent.url@ && sent@.body == sent.body@);
    if let Ok(came) = reply {
        lemma_accepts(decode, came, r);
    }
}

/// A raw completion gives the body of a reply of success as JSON.
pub proof fn raw_completions_come_of_replies<T: Fn(&Outgoing) -> Result<Reply, String>>(
    client: ChatClient,
    transport: T,
    request: ChatRequest,
    r: Result<Json, String>,
)
    requires
        call_ensures(ChatClient::complete_raw::<T>, (&client, &request, &transport), r),
    ensures
        exists|sent: Outgoing, reply: Result<Reply, String>| #[trigger]
            call_ensures(transport, (&sent,), reply) && {
                &&& sent.url@ == client.base_url@ + "/chat/completions"@
                &&& tells_request(sent.body@, request@)
                &&& match reply {
                    Err(e) => r is Err && (r->Err_0)@ == e@,
                    Ok(reply) => if !reply.success {
                        r is Err && (r->Err_0)@ == "endpoint returned "@ + reply.status@ + ": "@
                            + reply.body@
                    } else {
                        match parsed(reply.body@) {
                            Ok(j) => r is Ok && (r->Ok_0)@ == j,
                            Err(e) => r is Err && (r->Err_0)@ == "invalid json: "@ + e + "\n"@
                                + reply.body@,
                        }
                    },
                }
            },
{
    requests_are_told(request@);
    let reply = choose|reply: Result<Reply, String>| #[trigger]
        answers(transport, outgoing_spec(client, request@), reply) && (match r {
            Ok(j) => Ok(j@),
            Err(e) => Err(e@),
        }) == (match reply {
            Ok(reply) => raw_reply(reply.success, reply.status@, reply.body@),
            Err(e) => Err(e@),
        });
    let sent = choose|sent: Outgoing| #[trigger]
        call_ensures(transport, (&sent,), reply) && sent@ == outgoing_spec(client, request@);
    assert(call_ensures(transport, (&sent,), reply));
    assert(sent@.url == sent.url@ && sent@.body == sent.body@);
}

} // verus!
