//! Properties of whole calls, stated over the state machine's specification.
use vstd::prelude::*;
use crate::text::{ascii, crlf, decimal, fold_case};
use crate::headers::value_or_empty;
use crate::parser::{
    RequestView, request_of, routable, header_lines, singular_headers, has_colon, line_name,
    line_value, is_via_name, is_record_route_name, via_values,
};
use crate::response::{response_text, response_head, header_line, repeated_lines, contact_line};
use crate::call::{
    CallEvent, CallConfig, CallView, CallPhase, ActionView, accepts, received, next, bare_response,
    tagged, tagged_to, sdp_body, media_line, connection_line,
};

verus! {

broadcast use vstd::string::group_string_axioms;

/// The state and all actions of a call after its datagram and the given events, each with
/// the dialog tag that its step would draw.
pub open spec fn run(s: Seq<u8>, cfg: CallConfig, events: Seq<(CallEvent, u32)>) -> (
    CallView,
    Seq<ActionView>,
)
    decreases events.len(),
{
    if events.len() == 0 {
        received(s, cfg)
    } else {
        let prev = run(s, cfg, events.drop_last());
        let step = next(prev.0, events.last().0, cfg, events.last().1);
        (step.0, prev.1 + step.1)
    }
}

/// `part` occurs in `t`.
pub open spec fn contains(t: Seq<u8>, part: Seq<u8>) -> bool {
    exists|a: Seq<u8>, b: Seq<u8>| t == a + part + b
}

/// A response whose header block starts with the routing-path values, one per line,
/// then the record-route values, one per line.
pub open spec fn echoes_path(t: Seq<u8>, via: Seq<Seq<u8>>, rr: Seq<Seq<u8>>) -> bool {
    exists|status: Seq<u8>, rest: Seq<u8>|
        t == ascii("SIP/2.0 "@) + status + crlf() + repeated_lines("Via: "@, via) + repeated_lines(
            "Record-Route: "@,
            rr,
        ) + rest
}

proof fn lemma_run_prefix(s: Seq<u8>, cfg: CallConfig, events: Seq<(CallEvent, u32)>)
    ensures
        run(s, cfg, events).1.len() >= received(s, cfg).1.len(),
        forall|i: int|
            0 <= i < received(s, cfg).1.len() ==> run(s, cfg, events).1[i] == received(s, cfg).1[i],
    decreases events.len(),
{
    if events.len() > 0 {
        lemma_run_prefix(s, cfg, events.drop_last());
    }
}

/// The first thing a valid call-setup request gets is the trying response: no body
/// (`Content-Length: 0`), and From, To (with no tag added), Call-ID and CSeq as the request
/// has them.
pub proof fn trying_comes_first(s: Seq<u8>, cfg: CallConfig, events: Seq<(CallEvent, u32)>)
    requires
        accepts(s),
    ensures
        ({
            let acts = run(s, cfg, events).1;
            let req = request_of(s);
            let t = response_head(
                ascii("100 Trying"@),
                req,
                cfg.contact.user@,
                cfg.contact.host@,
                0,
            ) + crlf();
            &&& acts.len() >= 2
            &&& acts[0] == ActionView::Send(t)
            &&& t.len() >= (ascii("SIP/2.0 100 Trying"@) + crlf()).len()
            &&& t.subrange(0, (ascii("SIP/2.0 100 Trying"@) + crlf()).len() as int) == ascii(
                "SIP/2.0 100 Trying"@,
            ) + crlf()
            &&& ends_with(t, header_line("Content-Length: "@, ascii("0"@)) + crlf())
            &&& contains(t, header_line("From: "@, value_or_empty(req.headers, ascii("From"@))))
            &&& contains(t, header_line("To: "@, value_or_empty(req.headers, ascii("To"@))))
            &&& contains(
                t,
                header_line("Call-ID: "@, value_or_empty(req.headers, ascii("Call-ID"@))),
            )
            &&& contains(t, header_line("CSeq: "@, value_or_empty(req.headers, ascii("CSeq"@))))
        }),
{
    lemma_run_prefix(s, cfg, events);
    let req = request_of(s);
    let u = cfg.contact.user@;
    let h = cfg.contact.host@;
    let t = response_head(ascii("100 Trying"@), req, u, h, 0) + crlf();
    assert(bare_response("100 Trying"@, req, cfg) =~= t);
    assert(response_text(ascii("100 Trying"@), req, u, h, Seq::empty()) =~= t);
    lemma_field_lines(ascii("100 Trying"@), req, u, h, Seq::empty());
    body_length_is_exact(ascii("100 Trying"@), req, u, h, Seq::empty());
    reveal_strlit("SIP/2.0 ");
    reveal_strlit("100 Trying");
    reveal_strlit("SIP/2.0 100 Trying");
    let first = ascii("SIP/2.0 100 Trying"@) + crlf();
    assert(first =~= ascii("SIP/2.0 "@) + ascii("100 Trying"@) + crlf());
    let rest = t.subrange(first.len() as int, t.len() as int);
    assert(t =~= first + rest);
    assert(t.subrange(0, first.len() as int) =~= first);
    assert(header_line("Content-Length: "@, decimal(0)) + crlf() + Seq::<u8>::empty() =~= header_line(
        "Content-Length: "@,
        ascii("0"@),
    ) + crlf());
}

/// A response ends with its body, and right before the body stands the body-length header
/// holding the body's exact length, then the blank line; with no body that length is `0`.
pub proof fn body_length_is_exact(
    status: Seq<u8>,
    req: RequestView,
    user: Seq<u8>,
    host: Seq<u8>,
    body: Seq<u8>,
)
    ensures
        ends_with(
            response_text(status, req, user, host, body),
            header_line("Content-Length: "@, decimal(body.len())) + crlf() + body,
        ),
        body.len() == 0 ==> decimal(body.len()) == ascii("0"@),
{
    let t = response_text(status, req, user, host, body);
    let tail = header_line("Content-Length: "@, decimal(body.len())) + crlf() + body;
    let pre = ascii("SIP/2.0 "@) + status + crlf() + repeated_lines("Via: "@, req.via)
        + repeated_lines("Record-Route: "@, req.record_route) + header_line(
        "From: "@,
        value_or_empty(req.headers, ascii("From"@)),
    ) + header_line("To: "@, value_or_empty(req.headers, ascii("To"@))) + header_line(
        "Call-ID: "@,
        value_or_empty(req.headers, ascii("Call-ID"@)),
    ) + header_line("CSeq: "@, value_or_empty(req.headers, ascii("CSeq"@))) + contact_line(
        user,
        host,
    ) + header_line("Content-Type: "@, ascii("application/sdp"@));
    assert(t =~= pre + tail);
    assert(t.subrange(t.len() - tail.len(), t.len() as int) =~= tail);
    reveal_strlit("0");
    assert(decimal(0) =~= ascii("0"@));
}

proof fn lemma_response_echoes_path(
    status: Seq<u8>,
    req: RequestView,
    user: Seq<u8>,
    host: Seq<u8>,
    body: Seq<u8>,
)
    ensures
        echoes_path(response_text(status, req, user, host, body), req.via, req.record_route),
{
    let t = response_text(status, req, user, host, body);
    let pre = ascii("SIP/2.0 "@) + status + crlf() + repeated_lines("Via: "@, req.via)
        + repeated_lines("Record-Route: "@, req.record_route);
    let rest = t.subrange(pre.len() as int, t.len() as int);
    assert(t =~= pre + rest);
}

/// `t` is one whole response on the path of the request in `s`: a status line, the request's
/// routing-path and record-route lines, the other headers, the blank line and the body.
pub open spec fn framed(t: Seq<u8>, s: Seq<u8>, cfg: CallConfig) -> bool {
    exists|status: Seq<u8>, req: RequestView, body: Seq<u8>|
        req.via == request_of(s).via && req.record_route == request_of(s).record_route && t
            == #[trigger] response_text(status, req, cfg.contact.user@, cfg.contact.host@, body)
}

/// `t` ends with `tail`.
pub open spec fn ends_with(t: Seq<u8>, tail: Seq<u8>) -> bool {
    t.len() >= tail.len() && t.subrange(t.len() - tail.len(), t.len() as int) == tail
}

proof fn lemma_run_framed(s: Seq<u8>, cfg: CallConfig, events: Seq<(CallEvent, u32)>)
    ensures
        run(s, cfg, events).0.request is Some ==> run(s, cfg, events).0.request->Some_0.via
            == request_of(s).via && run(s, cfg, events).0.request->Some_0.record_route
            == request_of(s).record_route,
        forall|i: int|
            0 <= i < run(s, cfg, events).1.len() && (#[trigger] run(s, cfg, events).1[i]) is Send
                ==> framed(run(s, cfg, events).1[i]->Send_0, s, cfg),
    decreases events.len(),
{
    if events.len() > 0 {
        let prev = run(s, cfg, events.drop_last());
        lemma_run_framed(s, cfg, events.drop_last());
        let e = events.last();
        let step = next(prev.0, e.0, cfg, e.1);
        let all = run(s, cfg, events);
        assert(all.1 == prev.1 + step.1);
        assert forall|i: int|
            0 <= i < all.1.len() && (#[trigger] all.1[i]) is Send implies framed(
                all.1[i]->Send_0,
                s,
                cfg,
            ) by {
            if i >= prev.1.len() {
                assert(all.1[i] == step.1[i - prev.1.len()]);
            }
        }
    }
}

/// Every response of a call carries the request's routing-path values, in their order,
/// one per line, followed by its record-route values.
pub proof fn responses_follow_request_path(
    s: Seq<u8>,
    cfg: CallConfig,
    events: Seq<(CallEvent, u32)>,
)
    ensures
        forall|i: int|
            0 <= i < run(s, cfg, events).1.len() && (#[trigger] run(s, cfg, events).1[i]) is Send
                ==> echoes_path(
                run(s, cfg, events).1[i]->Send_0,
                via_values(header_lines(s)),
                request_of(s).record_route,
            ),
{
    lemma_run_framed(s, cfg, events);
    let acts = run(s, cfg, events).1;
    assert forall|i: int| 0 <= i < acts.len() && (#[trigger] acts[i]) is Send implies echoes_path(
        acts[i]->Send_0,
        via_values(header_lines(s)),
        request_of(s).record_route,
    ) by {
        let t = acts[i]->Send_0;
        let (st, rq, b) = choose|st: Seq<u8>, rq: RequestView, b: Seq<u8>|
            rq.via == request_of(s).via && rq.record_route == request_of(s).record_route && t
                == #[trigger] response_text(st, rq, cfg.contact.user@, cfg.contact.host@, b);
        lemma_response_echoes_path(st, rq, cfg.contact.user@, cfg.contact.host@, b);
    }
}

/// Every response of a call ends with its body, right after the body-length header that
/// holds the body's exact byte count and the blank line.
pub proof fn responses_state_body_length(s: Seq<u8>, cfg: CallConfig, events: Seq<(CallEvent, u32)>)
    ensures
        forall|i: int|
            0 <= i < run(s, cfg, events).1.len() && (#[trigger] run(s, cfg, events).1[i]) is Send
                ==> exists|body: Seq<u8>|
                ends_with(
                    run(s, cfg, events).1[i]->Send_0,
                    #[trigger] header_line("Content-Length: "@, decimal(body.len())) + crlf() + body,
                ),
{
    lemma_run_framed(s, cfg, events);
    let acts = run(s, cfg, events).1;
    assert forall|i: int| 0 <= i < acts.len() && (#[trigger] acts[i]) is Send implies exists|
        body: Seq<u8>,
    |
        ends_with(
            acts[i]->Send_0,
            #[trigger] header_line("Content-Length: "@, decimal(body.len())) + crlf() + body,
        ) by {
        let t = acts[i]->Send_0;
        let (st, rq, b) = choose|st: Seq<u8>, rq: RequestView, b: Seq<u8>|
            rq.via == request_of(s).via && rq.record_route == request_of(s).record_route && t
                == #[trigger] response_text(st, rq, cfg.contact.user@, cfg.contact.host@, b);
        body_length_is_exact(st, rq, cfg.contact.user@, cfg.contact.host@, b);
        assert(ends_with(t, header_line("Content-Length: "@, decimal(b.len())) + crlf() + b));
    }
}

proof fn lemma_field_lines(
    status: Seq<u8>,
    req: RequestView,
    user: Seq<u8>,
    host: Seq<u8>,
    body: Seq<u8>,
)
    ensures
        contains(
            response_text(status, req, user, host, body),
            header_line("From: "@, value_or_empty(req.headers, ascii("From"@))),
        ),
        contains(
            response_text(status, req, user, host, body),
            header_line("To: "@, value_or_empty(req.headers, ascii("To"@))),
        ),
        contains(
            response_text(status, req, user, host, body),
            header_line("Call-ID: "@, value_or_empty(req.headers, ascii("Call-ID"@))),
        ),
        contains(
            response_text(status, req, user, host, body),
            header_line("CSeq: "@, value_or_empty(req.headers, ascii("CSeq"@))),
        ),
{
    let t = response_text(status, req, user, host, body);
    let start = ascii("SIP/2.0 "@) + status + crlf() + repeated_lines("Via: "@, req.via)
        + repeated_lines("Record-Route: "@, req.record_route);
    let lf = header_line("From: "@, value_or_empty(req.headers, ascii("From"@)));
    let lt = header_line("To: "@, value_or_empty(req.headers, ascii("To"@)));
    let lc = header_line("Call-ID: "@, value_or_empty(req.headers, ascii("Call-ID"@)));
    let ls = header_line("CSeq: "@, value_or_empty(req.headers, ascii("CSeq"@)));
    let tail = contact_line(user, host) + header_line("Content-Type: "@, ascii("application/sdp"@))
        + header_line("Content-Length: "@, decimal(body.len())) + crlf() + body;
    assert(t =~= start + lf + (lt + lc + ls + tail));
    assert(t =~= (start + lf) + lt + (lc + ls + tail));
    assert(t =~= (start + lf + lt) + lc + (ls + tail));
    assert(t =~= (start + lf + lt + lc) + ls + tail);
}

proof fn lemma_singular_last(hs: Seq<Seq<u8>>, k: int, key: Seq<u8>)
    requires
        0 <= k < hs.len(),
        has_colon(hs[k]),
        fold_case(line_name(hs[k])) == key,
        !is_via_name(line_name(hs[k])),
        !is_record_route_name(line_name(hs[k])),
        forall|m: int|
            k < m < hs.len() && has_colon(hs[m]) ==> fold_case(line_name(hs[m])) != key,
    ensures
        singular_headers(hs).contains_key(key),
        singular_headers(hs)[key] == line_value(hs[k]),
    decreases hs.len(),
{
    if k < hs.len() - 1 {
        lemma_singular_last(hs.drop_last(), k, key);
    }
}

/// Parsing a request and answering it gives back the From, To, Call-ID and CSeq values
/// byte for byte, trimmed of surrounding whitespace only: the last line naming the field,
/// in any case, is echoed as `Field: value`.
pub proof fn echoed_fields_round_trip(
    s: Seq<u8>,
    k: int,
    field: Seq<char>,
    status: Seq<u8>,
    user: Seq<u8>,
    host: Seq<u8>,
    body: Seq<u8>,
)
    requires
        routable(s),
        field == "From"@ || field == "To"@ || field == "Call-ID"@ || field == "CSeq"@,
        0 <= k < header_lines(s).len(),
        has_colon(header_lines(s)[k]),
        fold_case(line_name(header_lines(s)[k])) == fold_case(ascii(field)),
        forall|m: int|
            k < m < header_lines(s).len() && has_colon(header_lines(s)[m]) ==> fold_case(
                line_name(header_lines(s)[m]),
            ) != fold_case(ascii(field)),
    ensures
        contains(
            response_text(status, request_of(s), user, host, body),
            ascii(field) + ascii(": "@) + line_value(header_lines(s)[k]) + crlf(),
        ),
{
    reveal_strlit("From");
    reveal_strlit("To");
    reveal_strlit("Call-ID");
    reveal_strlit("CSeq");
    reveal_strlit("via");
    reveal_strlit("v");
    reveal_strlit("record-route");
    reveal_strlit("From: ");
    reveal_strlit("To: ");
    reveal_strlit("Call-ID: ");
    reveal_strlit("CSeq: ");
    reveal_strlit(": ");
    let hs = header_lines(s);
    let n = line_name(hs[k]);
    let key = fold_case(ascii(field));
    assert(fold_case(n).len() == n.len());
    assert(key.len() == 4 || key.len() == 2 || key.len() == 7);
    assert(!is_via_name(n));
    assert(!is_record_route_name(n));
    lemma_singular_last(hs, k, key);
    let req = request_of(s);
    assert(value_or_empty(req.headers, ascii(field)) == line_value(hs[k]));
    lemma_field_lines(status, req, user, host, body);
    let v = line_value(hs[k]);
    if field == "From"@ {
        assert(header_line("From: "@, v) =~= ascii(field) + ascii(": "@) + v + crlf());
    } else if field == "To"@ {
        assert(header_line("To: "@, v) =~= ascii(field) + ascii(": "@) + v + crlf());
    } else if field == "Call-ID"@ {
        assert(header_line("Call-ID: "@, v) =~= ascii(field) + ascii(": "@) + v + crlf());
    } else {
        assert(header_line("CSeq: "@, v) =~= ascii(field) + ascii(": "@) + v + crlf());
    }
}

proof fn lemma_finished_stays_silent(
    s: Seq<u8>,
    cfg: CallConfig,
    events: Seq<(CallEvent, u32)>,
    more: Seq<(CallEvent, u32)>,
)
    requires
        run(s, cfg, events).0.phase == CallPhase::Rejected || run(s, cfg, events).0.phase
            == CallPhase::Answered || run(s, cfg, events).0.phase == CallPhase::Dropped,
    ensures
        run(s, cfg, events + more) == run(s, cfg, events),
    decreases more.len(),
{
    if more.len() == 0 {
        assert(events + more =~= events);
    } else {
        lemma_finished_stays_silent(s, cfg, events, more.drop_last());
        assert((events + more).drop_last() =~= events + more.drop_last());
        let prev = run(s, cfg, events);
        assert(prev.1 + Seq::<ActionView>::empty() =~= prev.1);
    }
}

/// When the routing service cannot be reached, the trying response has already gone out,
/// and the one response that follows is the bodiless service-unavailable rejection; nothing
/// comes after it.
pub proof fn unreachable_service_refuses(
    s: Seq<u8>,
    cfg: CallConfig,
    tag: u32,
    more: Seq<(CallEvent, u32)>,
)
    requires
        accepts(s),
    ensures
        ({
            let events = seq![(CallEvent::RouteUnreachable, tag)];
            let acts = run(s, cfg, events + more).1;
            &&& acts.len() == 3
            &&& acts[0] == ActionView::Send(bare_response("100 Trying"@, request_of(s), cfg))
            &&& acts[1] is RequestRoute
            &&& acts[2] == ActionView::Send(
                bare_response("503 Service Unavailable"@, request_of(s), cfg),
            )
            &&& run(s, cfg, events + more).0.phase == CallPhase::Rejected
        }),
{
    let events = seq![(CallEvent::RouteUnreachable, tag)];
    assert(events.drop_last() =~= Seq::<(CallEvent, u32)>::empty());
    assert(run(s, cfg, events.drop_last()) == received(s, cfg));
    let r1 = run(s, cfg, events);
    assert(r1.0.phase == CallPhase::Rejected);
    assert(r1.1 =~= received(s, cfg).1 + seq![
        ActionView::Send(bare_response("503 Service Unavailable"@, request_of(s), cfg)),
    ]);
    lemma_finished_stays_silent(s, cfg, events, more);
}

/// An accepted decision with a valid port makes the call ring and then answer: the answer's
/// media description names that port and the public address, and the ringing and the answer
/// carry the same tagged To header.
pub proof fn accepted_call_answers(
    s: Seq<u8>,
    cfg: CallConfig,
    port: i64,
    tag: u32,
    later_tag: u32,
)
    requires
        accepts(s),
        1 <= port <= 65535,
    ensures
        ({
            let events = seq![
                (CallEvent::RouteDecided { status: 0, rtp_port: port }, tag),
                (CallEvent::RingElapsed, later_tag),
            ];
            let acts = run(s, cfg, events).1;
            let req = tagged(request_of(s), tag);
            let to_line = header_line("To: "@, tagged_to(request_of(s), tag));
            &&& acts.len() == 5
            &&& acts[2] == ActionView::Send(bare_response("180 Ringing"@, req, cfg))
            &&& acts[3] == ActionView::Wait(cfg.ring_delay_ms)
            &&& acts[4] == ActionView::Send(
                response_text(
                    ascii("200 OK"@),
                    req,
                    cfg.contact.user@,
                    cfg.contact.host@,
                    sdp_body(cfg.public_ip@, port as nat),
                ),
            )
            &&& contains(sdp_body(cfg.public_ip@, port as nat), media_line(port as nat))
            &&& contains(sdp_body(cfg.public_ip@, port as nat), connection_line(cfg.public_ip@))
            &&& contains(acts[2]->Send_0, to_line)
            &&& contains(acts[4]->Send_0, to_line)
            &&& decimal(tag as nat).len() > 0
            &&& tagged_to(request_of(s), tag) == value_or_empty(request_of(s).headers, ascii("To"@))
                + ascii(";tag="@) + decimal(tag as nat)
            &&& run(s, cfg, events).0.phase == CallPhase::Answered
        }),
{
    let events = seq![
        (CallEvent::RouteDecided { status: 0, rtp_port: port }, tag),
        (CallEvent::RingElapsed, later_tag),
    ];
    assert(events.drop_last() =~= seq![(CallEvent::RouteDecided { status: 0, rtp_port: port }, tag)]);
    assert(events.drop_last().drop_last() =~= Seq::<(CallEvent, u32)>::empty());
    assert(run(s, cfg, events.drop_last().drop_last()) == received(s, cfg));
    let r1 = run(s, cfg, events.drop_last());
    assert(r1.0.phase == CallPhase::Ringing);
    let r2 = run(s, cfg, events);
    assert(r2.0.phase == CallPhase::Answered);
    let req = tagged(request_of(s), tag);
    let u = cfg.contact.user@;
    let h = cfg.contact.host@;
    let ip = cfg.public_ip@;
    let p = port as nat;
    assert((port as u16) as nat == p);
    reveal_strlit("To");
    assert(value_or_empty(req.headers, ascii("To"@)) == tagged_to(request_of(s), tag));
    lemma_field_lines(ascii("180 Ringing"@), req, u, h, Seq::empty());
    lemma_field_lines(ascii("200 OK"@), req, u, h, sdp_body(ip, p));
    let b = sdp_body(ip, p);
    let a1 = ascii("v=0"@) + crlf() + ascii("o=- 0 0 IN IP4 "@) + ip + crlf() + ascii("s=Centiric"@)
        + crlf();
    let a2 = ascii("t=0 0"@) + crlf();
    let a3 = ascii("a=rtpmap:0 PCMU/8000"@) + crlf();
    assert(b =~= (a1 + connection_line(ip) + a2) + media_line(p) + a3);
    assert(b =~= a1 + connection_line(ip) + (a2 + media_line(p) + a3));
}

/// A request without a routing path gets no response of any kind, whatever follows.
pub proof fn no_path_no_response(s: Seq<u8>, cfg: CallConfig, events: Seq<(CallEvent, u32)>)
    requires
        via_values(header_lines(s)).len() == 0,
    ensures
        run(s, cfg, events).1.len() == 0,
{
    assert(seq![] + events =~= events);
    lemma_finished_stays_silent(s, cfg, seq![], events);
}

} // verus!
