//! The per-call setup state machine. Each datagram starts one call; the caller
//! performs the actions it hands back (send a response, ask the routing service,
//! wait) and feeds the outcomes back in as events.
use vstd::prelude::*;
use vstd::utf8::valid_utf8;
use rand::Rng;
use crate::text::{ascii, crlf, decimal, ascii_bytes, append_bytes, append_decimal};
use crate::headers::{value_or_empty, bytes_equal};
use crate::parser::{ParsedRequest, RequestView, parse_complex_headers, request_of, routable};
use crate::response::{LocalContact, create_response, response_text};

verus! {

broadcast use vstd::string::group_string_axioms;

/// Where a call stands.
#[derive(PartialEq, Eq, Structural, Clone, Copy, Debug)]
pub enum CallPhase {
    /// The trying response went out and the routing decision is awaited.
    Routing,
    /// The ringing response went out; the answer follows after the ring delay.
    Ringing,
    /// The call was answered.
    Answered,
    /// The call was refused.
    Rejected,
    /// The datagram was not an answerable call-setup request; nothing is sent.
    Dropped,
}

/// What happened outside since the last step.
#[derive(PartialEq, Eq, Structural, Clone, Copy, Debug)]
pub enum CallEvent {
    /// The routing service decided: status zero accepts, and then `rtp_port` is the media port.
    RouteDecided { status: i64, rtp_port: i64 },
    /// The routing service could not be reached.
    RouteUnreachable,
    /// The ring delay is over.
    RingElapsed,
}

/// What the caller must do next, in order.
pub enum CallAction {
    /// Write one complete response to the sender.
    Send(Vec<u8>),
    /// Ask the routing service to decide on a call between these identities.
    RequestRoute { from: Vec<u8>, to: Vec<u8> },
    /// Wait this many milliseconds, then report `RingElapsed`.
    Wait(u64),
}

pub enum ActionView {
    Send(Seq<u8>),
    RequestRoute { from: Seq<u8>, to: Seq<u8> },
    Wait(u64),
}

impl View for CallAction {
    type V = ActionView;

    open spec fn view(&self) -> ActionView {
        match self {
            CallAction::Send(b) => ActionView::Send(b@),
            CallAction::RequestRoute { from, to } => ActionView::RequestRoute { from: from@, to: to@ },
            CallAction::Wait(ms) => ActionView::Wait(*ms),
        }
    }
}

pub open spec fn actions_view(v: Seq<CallAction>) -> Seq<ActionView> {
    v.map_values(|a: CallAction| a@)
}

/// Settings of the signaling side.
pub struct CallConfig {
    /// Address announced in the media description.
    pub public_ip: Vec<u8>,
    /// Announced in the contact header of every response.
    pub contact: LocalContact,
    /// Pause between the ringing and the answer.
    pub ring_delay_ms: u64,
}

/// One call attempt.
pub struct Call {
    phase: CallPhase,
    request: Option<ParsedRequest>,
    port: u16,
}

pub struct CallView {
    pub phase: CallPhase,
    pub request: Option<RequestView>,
    pub port: u16,
}

impl View for Call {
    type V = CallView;

    closed spec fn view(&self) -> CallView {
        CallView {
            phase: self.phase,
            request: match self.request {
                Some(r) => Some(r@),
                None => None,
            },
            port: self.port,
        }
    }
}

/// A datagram that starts a call: UTF-8 text, an INVITE, with a routing path.
pub open spec fn accepts(s: Seq<u8>) -> bool {
    valid_utf8(s) && routable(s) && request_of(s).method == ascii("INVITE"@)
}

/// A response to `req` with no body.
pub open spec fn bare_response(status: Seq<char>, req: RequestView, cfg: CallConfig) -> Seq<u8> {
    response_text(ascii(status), req, cfg.contact.user@, cfg.contact.host@, Seq::empty())
}

/// What a datagram starts: the call and the first actions.
pub open spec fn received(s: Seq<u8>, cfg: CallConfig) -> (CallView, Seq<ActionView>) {
    if accepts(s) {
        let req = request_of(s);
        (
            CallView { phase: CallPhase::Routing, request: Some(req), port: 0 },
            seq![
                ActionView::Send(bare_response("100 Trying"@, req, cfg)),
                ActionView::RequestRoute {
                    from: value_or_empty(req.headers, ascii("From"@)),
                    to: value_or_empty(req.headers, ascii("To"@)),
                },
            ],
        )
    } else {
        (CallView { phase: CallPhase::Dropped, request: None, port: 0 }, Seq::empty())
    }
}

/// The value of the To header once the dialog tag is appended.
pub open spec fn tagged_to(req: RequestView, tag: u32) -> Seq<u8> {
    value_or_empty(req.headers, ascii("To"@)) + ascii(";tag="@) + decimal(tag as nat)
}

/// The request with the dialog tag appended to its To header.
pub open spec fn tagged(req: RequestView, tag: u32) -> RequestView {
    RequestView {
        headers: req.headers.insert(crate::text::fold_case(ascii("To"@)), tagged_to(req, tag)),
        ..req
    }
}

/// The media line of the answer.
pub open spec fn media_line(port: nat) -> Seq<u8> {
    ascii("m=audio "@) + decimal(port) + ascii(" RTP/AVP 0"@) + crlf()
}

/// The connection line of the answer.
pub open spec fn connection_line(ip: Seq<u8>) -> Seq<u8> {
    ascii("c=IN IP4 "@) + ip + crlf()
}

/// The media description of the answer: one narrow-band audio stream at `ip` and `port`.
pub open spec fn sdp_body(ip: Seq<u8>, port: nat) -> Seq<u8> {
    ascii("v=0"@) + crlf() + ascii("o=- 0 0 IN IP4 "@) + ip + crlf() + ascii("s=Centiric"@) + crlf()
        + connection_line(ip) + ascii("t=0 0"@) + crlf() + media_line(port) + ascii(
        "a=rtpmap:0 PCMU/8000"@,
    ) + crlf()
}

/// The call refused with `status`, and the one response that says so.
pub open spec fn refuse(c: CallView, req: RequestView, status: Seq<char>, cfg: CallConfig) -> (
    CallView,
    Seq<ActionView>,
) {
    (CallView { phase: CallPhase::Rejected, ..c }, seq![ActionView::Send(bare_response(status, req, cfg))])
}

/// One step: the call after `e` and what must be done; `tag` is the dialog tag used if the call is accepted.
pub open spec fn next(c: CallView, e: CallEvent, cfg: CallConfig, tag: u32) -> (CallView, Seq<ActionView>) {
    match c.request {
        None => (c, Seq::empty()),
        Some(req) => {
            if c.phase == CallPhase::Routing {
                match e {
                    CallEvent::RouteUnreachable => refuse(c, req, "503 Service Unavailable"@, cfg),
                    CallEvent::RouteDecided { status, rtp_port } => {
                        if status != 0 {
                            refuse(c, req, "603 Decline"@, cfg)
                        } else if !(1 <= rtp_port <= 65535) {
                            refuse(c, req, "500 Server Internal Error"@, cfg)
                        } else {
                            let r2 = tagged(req, tag);
                            (
                                CallView {
                                    phase: CallPhase::Ringing,
                                    request: Some(r2),
                                    port: rtp_port as u16,
                                },
                                seq![
                                    ActionView::Send(bare_response("180 Ringing"@, r2, cfg)),
                                    ActionView::Wait(cfg.ring_delay_ms),
                                ],
                            )
                        }
                    },
                    CallEvent::RingElapsed => (c, Seq::empty()),
                }
            } else if c.phase == CallPhase::Ringing && e == CallEvent::RingElapsed {
                (
                    CallView { phase: CallPhase::Answered, ..c },
                    seq![
                        ActionView::Send(
                            response_text(
                                ascii("200 OK"@),
                                req,
                                cfg.contact.user@,
                                cfg.contact.host@,
                                sdp_body(cfg.public_ip@, c.port as nat),
                            ),
                        ),
                    ],
                )
            } else {
                (c, Seq::empty())
            }
        },
    }
}

/// Relies on std::str::from_utf8, which succeeds exactly on valid UTF-8.
#[verifier::external_body]
fn is_utf8(b: &[u8]) -> (r: bool)
    ensures
        r == valid_utf8(b@),
{
    std::str::from_utf8(b).is_ok()
}

/// Relies on rand's thread-local generator for a fresh dialog tag; nothing is known of the value.
#[verifier::external_body]
fn generate_random_tag() -> u32 {
    rand::thread_rng().gen::<u32>()
}

fn bare(status: &'static str, req: &ParsedRequest, cfg: &CallConfig) -> (r: CallAction)
    requires
        vstd::string::is_ascii(status),
    ensures
        r@ == ActionView::Send(bare_response(status@, req@, *cfg)),
{
    CallAction::Send(create_response(ascii_bytes(status), req, &cfg.contact, None))
}

/// The media description of the answer.
pub fn sdp(public_ip: &[u8], port: u16) -> (r: Vec<u8>)
    ensures
        r@ == sdp_body(public_ip@, port as nat),
{
    proof {
        reveal_strlit("v=0");
        reveal_strlit("o=- 0 0 IN IP4 ");
        reveal_strlit("s=Centiric");
        reveal_strlit("c=IN IP4 ");
        reveal_strlit("t=0 0");
        reveal_strlit("m=audio ");
        reveal_strlit(" RTP/AVP 0");
        reveal_strlit("a=rtpmap:0 PCMU/8000");
    }
    let mut out: Vec<u8> = Vec::new();
    let nl = [13u8, 10u8];
    assert(nl@ =~= crlf());
    append_bytes(&mut out, ascii_bytes("v=0"));
    append_bytes(&mut out, &nl);
    append_bytes(&mut out, ascii_bytes("o=- 0 0 IN IP4 "));
    append_bytes(&mut out, public_ip);
    append_bytes(&mut out, &nl);
    append_bytes(&mut out, ascii_bytes("s=Centiric"));
    append_bytes(&mut out, &nl);
    append_bytes(&mut out, ascii_bytes("c=IN IP4 "));
    append_bytes(&mut out, public_ip);
    append_bytes(&mut out, &nl);
    append_bytes(&mut out, ascii_bytes("t=0 0"));
    append_bytes(&mut out, &nl);
    append_bytes(&mut out, ascii_bytes("m=audio "));
    append_decimal(&mut out, port as u64);
    append_bytes(&mut out, ascii_bytes(" RTP/AVP 0"));
    append_bytes(&mut out, &nl);
    append_bytes(&mut out, ascii_bytes("a=rtpmap:0 PCMU/8000"));
    append_bytes(&mut out, &nl);
    assert(out@ =~= sdp_body(public_ip@, port as nat));
    out
}

impl Call {
    pub fn phase(&self) -> (r: CallPhase)
        ensures
            r == self@.phase,
    {
        self.phase
    }

    /// Starts a call from one datagram. An answerable request gets the trying response at once,
    /// with no tag and no body, and a routing request; anything else is dropped without a word.
    pub fn receive(datagram: &[u8], config: &CallConfig) -> (r: (Call, Vec<CallAction>))
        ensures
            (r.0@, actions_view(r.1@)) == received(datagram@, *config),
    {
        let dropped = Call { phase: CallPhase::Dropped, request: None, port: 0 };
        if !is_utf8(datagram) {
            let none: Vec<CallAction> = Vec::new();
            assert(actions_view(none@) =~= Seq::empty());
            return (dropped, none);
        }
        let req = match parse_complex_headers(datagram) {
            Some(req) => req,
            None => {
                let none: Vec<CallAction> = Vec::new();
                assert(actions_view(none@) =~= Seq::empty());
                return (dropped, none);
            },
        };
        proof {
            reveal_strlit("INVITE");
            reveal_strlit("100 Trying");
            reveal_strlit("From");
            reveal_strlit("To");
        }
        if !bytes_equal(req.method.as_slice(), ascii_bytes("INVITE")) {
            let none: Vec<CallAction> = Vec::new();
            assert(actions_view(none@) =~= Seq::empty());
            return (dropped, none);
        }
        let trying = bare("100 Trying", &req, config);
        let from = req.headers.get_or_empty(ascii_bytes("From"));
        let to = req.headers.get_or_empty(ascii_bytes("To"));
        let actions = vec![trying, CallAction::RequestRoute { from, to }];
        let call = Call { phase: CallPhase::Routing, request: Some(req), port: 0 };
        assert(actions_view(actions@) =~= received(datagram@, *config).1);
        (call, actions)
    }

    /// Takes one step with a given dialog tag, used only if the call is accepted now.
    pub fn step_with_tag(&mut self, event: CallEvent, config: &CallConfig, tag: u32) -> (r: Vec<
        CallAction,
    >)
        ensures
            (final(self)@, actions_view(r@)) == next(old(self)@, event, *config, tag),
    {
        proof {
            reveal_strlit("503 Service Unavailable");
            reveal_strlit("603 Decline");
            reveal_strlit("500 Server Internal Error");
            reveal_strlit("180 Ringing");
            reveal_strlit("200 OK");
            reveal_strlit("To");
            reveal_strlit(";tag=");
        }
        let none: Vec<CallAction> = Vec::new();
        assert(actions_view(none@) =~= Seq::empty());
        let phase = self.phase;
        match &mut self.request {
            None => none,
            Some(req) => {
                if phase == CallPhase::Routing {
                    match event {
                        CallEvent::RouteUnreachable => {
                            let a = vec![bare("503 Service Unavailable", req, config)];
                            self.phase = CallPhase::Rejected;
                            assert(actions_view(a@) =~= next(old(self)@, event, *config, tag).1);
                            a
                        },
                        CallEvent::RouteDecided { status, rtp_port } => {
                            if status != 0 {
                                let a = vec![bare("603 Decline", req, config)];
                                self.phase = CallPhase::Rejected;
                                assert(actions_view(a@) =~= next(old(self)@, event, *config, tag).1);
                                a
                            } else if !(1 <= rtp_port && rtp_port <= 65535) {
                                let a = vec![bare("500 Server Internal Error", req, config)];
                                self.phase = CallPhase::Rejected;
                                assert(actions_view(a@) =~= next(old(self)@, event, *config, tag).1);
                                a
                            } else {
                                let mut to = req.headers.get_or_empty(ascii_bytes("To"));
                                append_bytes(&mut to, ascii_bytes(";tag="));
                                append_decimal(&mut to, tag as u64);
                                req.headers.insert(ascii_bytes("To"), to);
                                let a = vec![
                                    bare("180 Ringing", req, config),
                                    CallAction::Wait(config.ring_delay_ms),
                                ];
                                self.phase = CallPhase::Ringing;
                                self.port = rtp_port as u16;
                                assert(actions_view(a@) =~= next(old(self)@, event, *config, tag).1);
                                a
                            }
                        },
                        CallEvent::RingElapsed => none,
                    }
                } else if phase == CallPhase::Ringing && event == CallEvent::RingElapsed {
                    let body = sdp(config.public_ip.as_slice(), self.port);
                    let resp = create_response(
                        ascii_bytes("200 OK"),
                        req,
                        &config.contact,
                        Some(body.as_slice()),
                    );
                    let a = vec![CallAction::Send(resp)];
                    self.phase = CallPhase::Answered;
                    assert(actions_view(a@) =~= next(old(self)@, event, *config, tag).1);
                    a
                } else {
                    none
                }
            },
        }
    }

    /// Takes one step; a fresh random dialog tag is drawn when the routing decision arrives.
    pub fn step(&mut self, event: CallEvent, config: &CallConfig) -> (r: Vec<CallAction>)
        ensures
            exists|tag: u32| (final(self)@, actions_view(r@)) == #[trigger] next(old(self)@, event, *config, tag),
    {
        let tag = if self.phase == CallPhase::Routing && matches!(event, CallEvent::RouteDecided { .. }) {
            generate_random_tag()
        } else {
            0
        };
        self.step_with_tag(event, config, tag)
    }
}

} // verus!
