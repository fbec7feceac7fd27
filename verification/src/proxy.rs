//! How the mock forward proxy answers a request.
//!
//! A request is answered in steps. The proxy talks to the network between the steps, and each step
//! says what is to be done next.

use hyper::header::{HeaderMap, HeaderValue};
use vstd::prelude::*;

use crate::auth::{authenticate, AuthOutcome, Credentials};
use crate::response::{Response, ResponseView, Status};

verus! {

broadcast use vstd::string::group_string_axioms;

/// A request, and what the proxy reads of it.
pub struct ProxyRequest<R> {
    pub method: String,
    /// The host, and the port if it is given, of the request's URI.
    pub authority: Option<String>,
    pub headers: HeaderMap<HeaderValue>,
    /// The request itself, as it was received.
    pub received: R,
}

/// The head of a target's response.
pub struct TargetHead {
    pub status: u16,
    pub headers: HeaderMap<HeaderValue>,
}

/// What is done next to forward a request.
pub enum ForwardStep<R> {
    /// Connect to `target`, for this request.
    Connect { target: String, request: R },
    /// Begin to speak HTTP with the target, for this request.
    Handshake(R),
    /// Send this request to the target.
    Send(R),
    /// Receive the body of the target's response, which begins with this head.
    Collect(TargetHead),
    /// Answer with the target's response: its head and its body, as they were received.
    Relay { head: TargetHead, body: Vec<u8> },
    /// Answer the request.
    Respond(Response),
}

/// What a `ForwardStep` holds.
pub enum ForwardStepView<R> {
    Connect { target: Seq<char>, request: R },
    Handshake(R),
    Send(R),
    Collect(TargetHead),
    Relay { head: TargetHead, body: Seq<u8> },
    Respond(ResponseView),
}

impl<R> View for ForwardStep<R> {
    type V = ForwardStepView<R>;

    open spec fn view(&self) -> ForwardStepView<R> {
        match *self {
            ForwardStep::Connect { target, request } => ForwardStepView::Connect {
                target: target@,
                request,
            },
            ForwardStep::Handshake(request) => ForwardStepView::Handshake(request),
            ForwardStep::Send(request) => ForwardStepView::Send(request),
            ForwardStep::Collect(head) => ForwardStepView::Collect(head),
            ForwardStep::Relay { head, body } => ForwardStepView::Relay { head, body: body@ },
            ForwardStep::Respond(response) => ForwardStepView::Respond(response@),
        }
    }
}

/// What comes of a step on the way to the target.
pub enum ForwardEvent {
    /// The connection has been made, or the handshake.
    Succeeded,
    /// The step has failed with this error.
    Failed(String),
    /// The request has been sent, and the target has responded with this head.
    Responded(TargetHead),
    /// The body of the target's response has been received.
    Received(Vec<u8>),
}

/// What a `ForwardEvent` holds.
pub enum ForwardEventView {
    Succeeded,
    Failed(Seq<char>),
    Responded(TargetHead),
    Received(Seq<u8>),
}

impl View for ForwardEvent {
    type V = ForwardEventView;

    open spec fn view(&self) -> ForwardEventView {
        match *self {
            ForwardEvent::Succeeded => ForwardEventView::Succeeded,
            ForwardEvent::Failed(error) => ForwardEventView::Failed(error@),
            ForwardEvent::Responded(head) => ForwardEventView::Responded(head),
            ForwardEvent::Received(body) => ForwardEventView::Received(body@),
        }
    }
}

/// What is done to open a tunnel.
pub enum ConnectStep<R> {
    /// Answer `request` now. The answer sets its connection free from HTTP, and once that is taken
    /// over, a tunnel to `target` is to run on it.
    Tunnel { target: String, request: R, response: Response },
    /// Answer the request.
    Respond(Response),
}

/// What a `ConnectStep` holds.
pub enum ConnectStepView<R> {
    Tunnel { target: Seq<char>, request: R, response: ResponseView },
    Respond(ResponseView),
}

impl<R> View for ConnectStep<R> {
    type V = ConnectStepView<R>;

    open spec fn view(&self) -> ConnectStepView<R> {
        match *self {
            ConnectStep::Tunnel { target, request, response } => ConnectStepView::Tunnel {
                target: target@,
                request,
                response: response@,
            },
            ConnectStep::Respond(response) => ConnectStepView::Respond(response@),
        }
    }
}

/// What becomes of a tunnel whose request has been answered.
pub enum TunnelStep {
    /// Run it, to this target.
    Run(String),
    /// Report that the connection could not be taken over, and no more.
    GiveUp,
}

/// What a `TunnelStep` holds.
pub enum TunnelStepView {
    Run(Seq<char>),
    GiveUp,
}

impl View for TunnelStep {
    type V = TunnelStepView;

    open spec fn view(&self) -> TunnelStepView {
        match *self {
            TunnelStep::Run(target) => TunnelStepView::Run(target@),
            TunnelStep::GiveUp => TunnelStepView::GiveUp,
        }
    }
}

/// How the proxy sets about a request.
pub enum ProxyStep<R> {
    /// Answer it.
    Respond(Response),
    /// Open a tunnel.
    Connect(ConnectStep<R>),
    /// Forward it.
    Forward(ForwardStep<R>),
}

/// What a `ProxyStep` holds.
pub enum ProxyStepView<R> {
    Respond(ResponseView),
    Connect(ConnectStepView<R>),
    Forward(ForwardStepView<R>),
}

impl<R> View for ProxyStep<R> {
    type V = ProxyStepView<R>;

    open spec fn view(&self) -> ProxyStepView<R> {
        match *self {
            ProxyStep::Respond(response) => ProxyStepView::Respond(response@),
            ProxyStep::Connect(step) => ProxyStepView::Connect(step@),
            ProxyStep::Forward(step) => ProxyStepView::Forward(step@),
        }
    }
}

/// The characters of an authority that may be missing.
pub open spec fn authority_view(authority: Option<String>) -> Option<Seq<char>> {
    match authority {
        Some(authority) => Some(authority@),
        None => None,
    }
}

/// The first step to forward `request` to `authority`.
pub open spec fn forward_step<R>(authority: Option<Seq<char>>, request: R) -> ForwardStepView<R> {
    match authority {
        Some(target) => ForwardStepView::Connect { target, request },
        None => ForwardStepView::Respond(
            crate::response::text_answer(Status::BadRequest, "Bad request - no authority"@),
        ),
    }
}

/// The answer that tells what failed on the way to the target, and why.
pub open spec fn gateway_answer(what: Seq<char>, error: Seq<char>) -> ResponseView {
    crate::response::text_answer(Status::BadGateway, what + error)
}

/// The step that follows `step` when `event` has come of it. An answer is followed by nothing, and
/// an event that cannot come of a step leaves the step to be done.
pub open spec fn next_forward_step<R>(
    step: ForwardStepView<R>,
    event: ForwardEventView,
) -> ForwardStepView<R> {
    match (step, event) {
        (
            ForwardStepView::Connect { request, .. },
            ForwardEventView::Succeeded,
        ) => ForwardStepView::Handshake(request),
        (
            ForwardStepView::Connect { .. },
            ForwardEventView::Failed(error),
        ) => ForwardStepView::Respond(gateway_answer("Connection failed: "@, error)),
        (ForwardStepView::Handshake(request), ForwardEventView::Succeeded) => ForwardStepView::Send(
            request,
        ),
        (
            ForwardStepView::Handshake(_),
            ForwardEventView::Failed(error),
        ) => ForwardStepView::Respond(gateway_answer("Handshake failed: "@, error)),
        (ForwardStepView::Send(_), ForwardEventView::Responded(head)) => ForwardStepView::Collect(
            head,
        ),
        (ForwardStepView::Send(_), ForwardEventView::Failed(error)) => ForwardStepView::Respond(
            gateway_answer("Send error: "@, error),
        ),
        (
            ForwardStepView::Collect(head),
            ForwardEventView::Received(body),
        ) => ForwardStepView::Relay { head, body },
        (ForwardStepView::Collect(_), ForwardEventView::Failed(_)) => ForwardStepView::Respond(
            crate::response::empty_answer(Status::BadGateway),
        ),
        _ => step,
    }
}

/// How a tunnel to `authority` is opened on the connection of `request`.
pub open spec fn connect_step<R>(authority: Option<Seq<char>>, request: R) -> ConnectStepView<R> {
    match authority {
        Some(target) => ConnectStepView::Tunnel {
            target,
            request,
            response: crate::response::empty_answer(Status::Success),
        },
        None => ConnectStepView::Respond(crate::response::empty_answer(Status::BadRequest)),
    }
}

/// What becomes of the tunnel to `target` after the connection has been taken over from HTTP, or
/// could not be.
pub open spec fn upgraded_step(target: Seq<char>, succeeded: bool) -> TunnelStepView {
    if succeeded {
        TunnelStepView::Run(target)
    } else {
        TunnelStepView::GiveUp
    }
}

/// The first step for a request, given the outcome of authentication.
pub open spec fn proxy_step<R>(
    outcome: AuthOutcome,
    method: Seq<char>,
    authority: Option<Seq<char>>,
    request: R,
) -> ProxyStepView<R> {
    match outcome {
        AuthOutcome::Missing => ProxyStepView::Respond(
            crate::response::text_answer(
                Status::ProxyAuthenticationRequired,
                "Proxy requires authentication"@,
            ),
        ),
        AuthOutcome::Refused => ProxyStepView::Respond(
            crate::response::text_answer(Status::Unauthorized, "Unauthorized"@),
        ),
        AuthOutcome::Granted => if method == "CONNECT"@ {
            ProxyStepView::Connect(connect_step(authority, request))
        } else {
            ProxyStepView::Forward(forward_step(authority, request))
        },
    }
}

/// The first step to forward `request` to `authority`.
pub fn forward_http_request<R>(authority: Option<String>, request: R) -> (r: ForwardStep<R>)
    ensures
        r@ == forward_step(authority_view(authority), request),
{
    match authority {
        Some(target) => ForwardStep::Connect { target, request },
        None => ForwardStep::Respond(
            Response::text(Status::BadRequest, "Bad request - no authority"),
        ),
    }
}

/// The answer that tells what failed on the way to the target, and why.
fn gateway_failure<R>(what: &str, error: &str) -> (r: ForwardStep<R>)
    ensures
        r@ == ForwardStepView::<R>::Respond(gateway_answer(what@, error@)),
{
    let mut text: String = what.to_owned();
    text.append(error);
    ForwardStep::Respond(Response::text(Status::BadGateway, text.as_str()))
}

impl<R> ForwardStep<R> {
    /// The step that follows this one when `event` has come of it.
    pub fn after(self, event: ForwardEvent) -> (r: ForwardStep<R>)
        ensures
            r@ == next_forward_step(self@, event@),
    {
        match self {
            ForwardStep::Connect { target, request } => match event {
                ForwardEvent::Succeeded => ForwardStep::Handshake(request),
                ForwardEvent::Failed(error) => gateway_failure(
                    "Connection failed: ",
                    error.as_str(),
                ),
                _ => ForwardStep::Connect { target, request },
            },
            ForwardStep::Handshake(request) => match event {
                ForwardEvent::Succeeded => ForwardStep::Send(request),
                ForwardEvent::Failed(error) => gateway_failure(
                    "Handshake failed: ",
                    error.as_str(),
                ),
                _ => ForwardStep::Handshake(request),
            },
            ForwardStep::Send(request) => match event {
                ForwardEvent::Responded(head) => ForwardStep::Collect(head),
                ForwardEvent::Failed(error) => gateway_failure("Send error: ", error.as_str()),
                _ => ForwardStep::Send(request),
            },
            ForwardStep::Collect(head) => match event {
                ForwardEvent::Received(body) => ForwardStep::Relay { head, body },
                ForwardEvent::Failed(_) => ForwardStep::Respond(
                    Response::empty(Status::BadGateway),
                ),
                _ => ForwardStep::Collect(head),
            },
            ForwardStep::Relay { head, body } => ForwardStep::Relay { head, body },
            ForwardStep::Respond(response) => ForwardStep::Respond(response),
        }
    }
}

/// How a tunnel to `authority` is opened on the connection of `request`: the request is answered at
/// once, and the tunnel follows the answer.
pub fn handle_connect_request<R>(authority: Option<String>, request: R) -> (r: ConnectStep<R>)
    ensures
        r@ == connect_step(authority_view(authority), request),
{
    match authority {
        Some(target) => ConnectStep::Tunnel {
            target,
            request,
            response: Response::empty(Status::Success),
        },
        None => ConnectStep::Respond(Response::empty(Status::BadRequest)),
    }
}

/// What becomes of the tunnel to `target` after the connection has been taken over from HTTP, or
/// could not be.
pub fn connection_upgraded(target: String, succeeded: bool) -> (r: TunnelStep)
    ensures
        r@ == upgraded_step(target@, succeeded),
{
    if succeeded {
        TunnelStep::Run(target)
    } else {
        TunnelStep::GiveUp
    }
}

/// The first step for a request, given the outcome of authentication.
pub fn proxy_authenticated<R>(
    outcome: AuthOutcome,
    method: &str,
    authority: Option<String>,
    request: R,
) -> (r: ProxyStep<R>)
    ensures
        r@ == proxy_step(outcome, method@, authority_view(authority), request),
{
    match outcome {
        AuthOutcome::Missing => ProxyStep::Respond(
            Response::text(Status::ProxyAuthenticationRequired, "Proxy requires authentication"),
        ),
        AuthOutcome::Refused => ProxyStep::Respond(
            Response::text(Status::Unauthorized, "Unauthorized"),
        ),
        AuthOutcome::Granted => if method.to_owned() == "CONNECT".to_owned() {
            ProxyStep::Connect(handle_connect_request(authority, request))
        } else {
            ProxyStep::Forward(forward_http_request(authority, request))
        },
    }
}

/// The first step for a request.
///
/// A request that presents the configured user name and password is let through, and one that
/// presents others is refused.
pub fn handle_proxy_request<R>(
    credentials: &Option<Credentials>,
    request: ProxyRequest<R>,
) -> (r: ProxyStep<R>)
    ensures
        r@ == proxy_step(
            crate::auth::auth_outcome(*credentials, request.headers, "proxy-authorization"@),
            request.method@,
            authority_view(request.authority),
            request.received,
        ),
        *credentials matches Some(c) ==> forall|u: Seq<char>, p: Seq<char>|
            !u.contains(':') && #[trigger] crate::auth::presents(
                request.headers,
                "proxy-authorization"@,
                u,
                p,
            ) ==> r@ == proxy_step(
                if (u, p) == c@ {
                    AuthOutcome::Granted
                } else {
                    AuthOutcome::Refused
                },
                request.method@,
                authority_view(request.authority),
                request.received,
            ),
{
    proof {
        reveal_strlit("proxy-authorization");
    }
    let outcome = authenticate(credentials, &request.headers, "proxy-authorization");
    proxy_authenticated(outcome, request.method.as_str(), request.authority, request.received)
}

/// What the network has in store for a request that is forwarded: the error of each operation, if
/// it fails, and the target's response.
pub struct Network {
    pub connect_error: Option<Seq<char>>,
    pub handshake_error: Option<Seq<char>>,
    pub send_error: Option<Seq<char>>,
    pub head: TargetHead,
    pub receive_error: Option<Seq<char>>,
    pub body: Seq<u8>,
}

/// `success`, unless there is an error.
pub open spec fn unless_failed(
    error: Option<Seq<char>>,
    success: ForwardEventView,
) -> ForwardEventView {
    match error {
        Some(error) => ForwardEventView::Failed(error),
        None => success,
    }
}

/// What comes of `step` where the network behaves as `network` says.
pub open spec fn network_event<R>(step: ForwardStepView<R>, network: Network) -> ForwardEventView {
    match step {
        ForwardStepView::Connect { .. } => unless_failed(
            network.connect_error,
            ForwardEventView::Succeeded,
        ),
        ForwardStepView::Handshake(_) => unless_failed(
            network.handshake_error,
            ForwardEventView::Succeeded,
        ),
        ForwardStepView::Send(_) => unless_failed(
            network.send_error,
            ForwardEventView::Responded(network.head),
        ),
        ForwardStepView::Collect(_) => unless_failed(
            network.receive_error,
            ForwardEventView::Received(network.body),
        ),
        _ => ForwardEventView::Succeeded,
    }
}

/// The step that is reached from `step` after `n` operations.
pub open spec fn forward_steps<R>(
    step: ForwardStepView<R>,
    network: Network,
    n: nat,
) -> ForwardStepView<R>
    decreases n,
{
    if n == 0 {
        step
    } else {
        let last = forward_steps(step, network, (n - 1) as nat);
        next_forward_step(last, network_event(last, network))
    }
}

/// Forwarding ends after at most four operations. If all of them succeed, the target's response is
/// relayed as it is: its status, whatever that is, its header fields and its body. If one fails,
/// the answer is 502, and a request without an authority is answered with 400.
pub proof fn law_forwarding_relays_or_tells_why<R>(
    authority: Option<Seq<char>>,
    request: R,
    network: Network,
)
    ensures
        ({
            let last = forward_steps(forward_step(authority, request), network, 4);
            let all_well = network.connect_error is None && network.handshake_error is None
                && network.send_error is None && network.receive_error is None;
            if authority is None {
                last matches ForwardStepView::Respond(answer) && crate::response::status_code(
                    answer.status,
                ) == 400
            } else if all_well {
                last == (ForwardStepView::<R>::Relay { head: network.head, body: network.body })
            } else {
                last matches ForwardStepView::Respond(answer) && crate::response::status_code(
                    answer.status,
                ) == 502
            }
        }),
{
    reveal_with_fuel(forward_steps, 5);
}

/// A request is forwarded as it was received: one connection is made, to the authority as it
/// stands, and on it one request is sent, the very one that came in. It is sent if the connection
/// and the handshake succeed.
pub proof fn law_requests_are_sent_as_received<R>(
    authority: Option<Seq<char>>,
    request: R,
    network: Network,
    n: nat,
)
    ensures
        ({
            let step = forward_steps(forward_step(authority, request), network, n);
            let connected = authority is Some && network.connect_error is None
                && network.handshake_error is None;
            &&& step is Connect <==> authority is Some && n == 0
            &&& step matches ForwardStepView::Connect { target, .. } ==> authority == Some(target)
            &&& step is Send <==> connected && n == 2
            &&& step matches ForwardStepView::Send(sent) ==> sent == request
        }),
{
    reveal_with_fuel(forward_steps, 5);
    if n > 4 {
        lemma_forwarding_is_over(forward_step(authority, request), network, n);
    }
}

/// After four operations nothing is left but the answer.
proof fn lemma_forwarding_is_over<R>(first: ForwardStepView<R>, network: Network, n: nat)
    requires
        first is Connect || first is Respond,
        n >= 4,
    ensures
        forward_steps(first, network, n) is Relay || forward_steps(first, network, n) is Respond,
    decreases n,
{
    if n == 4 {
        reveal_with_fuel(forward_steps, 5);
    } else {
        lemma_forwarding_is_over(first, network, (n - 1) as nat);
    }
}

/// A `CONNECT` request that is let through is answered at once, whatever becomes of its connection:
/// with 200 and nothing more if it has an authority, and with 400 if it has none. With an
/// authority, a tunnel to that authority runs exactly if the connection can be taken over.
pub proof fn law_connect_requests_are_answered_at_once<R>(
    authority: Option<Seq<char>>,
    request: R,
    upgraded: bool,
)
    ensures
        ({
            let step = proxy_step(AuthOutcome::Granted, "CONNECT"@, authority, request);
            match authority {
                Some(authority) => step matches ProxyStepView::Connect(ConnectStepView::Tunnel {
                    target,
                    request: taken,
                    response,
                }) && taken == request && crate::response::status_code(response.status) == 200
                    && response.body.len() == 0 && (upgraded_step(target, upgraded)
                    == TunnelStepView::Run(authority) <==> upgraded),
                None => step matches ProxyStepView::Connect(ConnectStepView::Respond(response))
                    && crate::response::status_code(response.status) == 400,
            }
        }),
{
}

/// Where credentials are configured, a request without a `Proxy-Authorization` field is answered
/// with 407 whatever its other fields are, and one whose field is not the header value of these
/// credentials with 401. Every other request is let through.
pub proof fn law_unauthenticated_requests_are_turned_away<R>(
    credentials: Option<Credentials>,
    headers: HeaderMap<HeaderValue>,
    method: Seq<char>,
    authority: Option<Seq<char>>,
    request: R,
)
    ensures
        ({
            let step = proxy_step(
                crate::auth::auth_outcome(credentials, headers, "proxy-authorization"@),
                method,
                authority,
                request,
            );
            let presented = crate::headers::field_text(headers, "proxy-authorization"@);
            match credentials {
                Some(c) => match presented {
                    None => step matches ProxyStepView::Respond(answer)
                        && crate::response::status_code(answer.status) == 407,
                    Some(presented) => if presented == crate::auth::basic_header(c@.0, c@.1) {
                        !(step is Respond)
                    } else {
                        step matches ProxyStepView::Respond(answer)
                            && crate::response::status_code(answer.status) == 401
                    },
                },
                None => !(step is Respond),
            }
        }),
{
}

/// Of the header fields the proxy goes by `Proxy-Authorization` alone: what a request presents to
/// its target in other fields makes no difference.
pub proof fn law_other_fields_make_no_difference<R>(
    credentials: Option<Credentials>,
    a: HeaderMap<HeaderValue>,
    b: HeaderMap<HeaderValue>,
    method: Seq<char>,
    authority: Option<Seq<char>>,
    request: R,
)
    requires
        crate::headers::field_text(a, "proxy-authorization"@) == crate::headers::field_text(
            b,
            "proxy-authorization"@,
        ),
    ensures
        proxy_step(
            crate::auth::auth_outcome(credentials, a, "proxy-authorization"@),
            method,
            authority,
            request,
        ) == proxy_step(
            crate::auth::auth_outcome(credentials, b, "proxy-authorization"@),
            method,
            authority,
            request,
        ),
{
}

/// An authority has the characters of its string, if it is there.
pub proof fn law_authority_view(authority: Option<String>)
    ensures
        authority_view(authority) is None <==> authority is None,
        authority matches Some(text) ==> authority_view(authority)->0 == text@,
{
}

/// A step on the way to the target holds what its parts hold.
pub proof fn law_forward_step_view<R>(step: ForwardStep<R>)
    ensures
        match step {
            ForwardStep::Connect { target, request } => step@ == (ForwardStepView::Connect {
                target: target@,
                request,
            }),
            ForwardStep::Handshake(request) => step@ == ForwardStepView::Handshake(request),
            ForwardStep::Send(request) => step@ == ForwardStepView::Send(request),
            ForwardStep::Collect(head) => step@ == ForwardStepView::<R>::Collect(head),
            ForwardStep::Relay { head, body } => step@ == (ForwardStepView::<R>::Relay {
                head,
                body: body@,
            }),
            ForwardStep::Respond(response) => step@ == ForwardStepView::<R>::Respond(response@),
        },
{
}

/// An event on the way to the target holds what its parts hold.
pub proof fn law_forward_event_view(event: ForwardEvent)
    ensures
        match event {
            ForwardEvent::Succeeded => event@ is Succeeded,
            ForwardEvent::Failed(error) => event@ == ForwardEventView::Failed(error@),
            ForwardEvent::Responded(head) => event@ == ForwardEventView::Responded(head),
            ForwardEvent::Received(body) => event@ == ForwardEventView::Received(body@),
        },
{
}

/// The steps to a tunnel hold what their parts hold.
pub proof fn law_connect_step_views<R>(step: ConnectStep<R>, tunnel: TunnelStep)
    ensures
        match step {
            ConnectStep::Tunnel { target, request, response } => step@ == (
            ConnectStepView::Tunnel { target: target@, request, response: response@ }),
            ConnectStep::Respond(response) => step@ == ConnectStepView::<R>::Respond(response@),
        },
        match tunnel {
            TunnelStep::Run(target) => tunnel@ == TunnelStepView::Run(target@),
            TunnelStep::GiveUp => tunnel@ is GiveUp,
        },
{
}

/// How the proxy sets about a request holds what its parts hold.
pub proof fn law_proxy_step_view<R>(step: ProxyStep<R>)
    ensures
        match step {
            ProxyStep::Respond(response) => step@ == ProxyStepView::<R>::Respond(response@),
            ProxyStep::Connect(connect) => step@ == ProxyStepView::Connect(connect@),
            ProxyStep::Forward(forward) => step@ == ProxyStepView::Forward(forward@),
        },
{
}

/// How every request is set about, from its `Proxy-Authorization` field, its method and its
/// authority. A request may pass if no credentials are configured, or if its field holds the word
/// `Basic`, a space, and the base64 form of the user name, a colon and the password. Otherwise it is
/// answered with 401, or with 407 if it has no such field. Of the requests that may pass, those
/// whose method is `CONNECT` get a tunnel to their authority, and all others are forwarded to it as
/// they are; a request without an authority is answered with 400.
pub proof fn law_every_request_is_set_about<R>(
    credentials: Option<Credentials>,
    headers: HeaderMap<HeaderValue>,
    method: Seq<char>,
    authority: Option<Seq<char>>,
    request: R,
)
    ensures
        ({
            let field = crate::headers::header_fields(headers);
            let presented = field.contains_key("proxy-authorization"@);
            let right = credentials matches Some(c) ==> presented && field["proxy-authorization"@]
                == vstd::utf8::encode_utf8(
                seq!['B', 'a', 's', 'i', 'c', ' '] + crate::encoding::base64_standard(
                    vstd::utf8::encode_utf8(c@.0 + seq![':'] + c@.1),
                ),
            );
            let step = proxy_step(
                crate::auth::auth_outcome(credentials, headers, "proxy-authorization"@),
                method,
                authority,
                request,
            );
            if !right && presented {
                step matches ProxyStepView::Respond(answer) && crate::response::status_code(
                    answer.status,
                ) == 401 && answer.body == vstd::utf8::encode_utf8("Unauthorized"@)
            } else if !right {
                step matches ProxyStepView::Respond(answer) && crate::response::status_code(
                    answer.status,
                ) == 407 && answer.body == vstd::utf8::encode_utf8(
                    "Proxy requires authentication"@,
                )
            } else if method == seq!['C', 'O', 'N', 'N', 'E', 'C', 'T'] {
                match authority {
                    Some(authority) => step matches ProxyStepView::Connect(
                        ConnectStepView::Tunnel { target, request: taken, response },
                    ) && target == authority && taken == request && crate::response::status_code(
                        response.status,
                    ) == 200 && response.body.len() == 0,
                    None => step matches ProxyStepView::Connect(ConnectStepView::Respond(answer))
                        && crate::response::status_code(answer.status) == 400 && answer.body.len()
                        == 0,
                }
            } else {
                match authority {
                    Some(authority) => step matches ProxyStepView::Forward(
                        ForwardStepView::Connect { target, request: taken },
                    ) && target == authority && taken == request,
                    None => step matches ProxyStepView::Forward(ForwardStepView::Respond(answer))
                        && crate::response::status_code(answer.status) == 400 && answer.body
                        == vstd::utf8::encode_utf8("Bad request - no authority"@),
                }
            }
        }),
{
    reveal_strlit("CONNECT");
    assert("CONNECT"@ == seq!['C', 'O', 'N', 'N', 'E', 'C', 'T']);
    crate::auth::law_only_the_right_value_passes(credentials, headers, "proxy-authorization"@);
}

/// Every request that may pass and whose method is not `CONNECT` is forwarded, as it is and to the
/// authority that it names.
pub proof fn law_other_methods_are_forwarded<R>(
    method: Seq<char>,
    authority: Option<Seq<char>>,
    request: R,
)
    requires
        method != seq!['C', 'O', 'N', 'N', 'E', 'C', 'T'],
    ensures
        proxy_step(AuthOutcome::Granted, method, authority, request) == ProxyStepView::Forward(
            forward_step(authority, request),
        ),
        authority matches Some(target) ==> forward_step(authority, request) == (
        ForwardStepView::Connect { target, request }),
{
    reveal_strlit("CONNECT");
    assert("CONNECT"@ == seq!['C', 'O', 'N', 'N', 'E', 'C', 'T']);
}

/// What the client gets for a request that is forwarded to `target`: the response of the target, as
/// it is, if nothing fails, and otherwise 502 with the first error after the word for what failed.
/// If the body of the response fails to arrive, the 502 has no body.
pub proof fn law_forwarded_answers<R>(target: Seq<char>, request: R, network: Network)
    ensures
        ({
            let last = forward_steps(forward_step(Some(target), request), network, 4);
            let why = if network.connect_error is Some {
                Some("Connection failed: "@ + network.connect_error->0)
            } else if network.handshake_error is Some {
                Some("Handshake failed: "@ + network.handshake_error->0)
            } else if network.send_error is Some {
                Some("Send error: "@ + network.send_error->0)
            } else if network.receive_error is Some {
                Some(Seq::empty())
            } else {
                None
            };
            match why {
                Some(why) => last matches ForwardStepView::Respond(answer)
                    && crate::response::status_code(answer.status) == 502 && answer.body
                    == vstd::utf8::encode_utf8(why),
                None => last matches ForwardStepView::Relay { head, body } && head == network.head
                    && body == network.body,
            }
        }),
{
    reveal_with_fuel(forward_steps, 5);
}

/// A connection that is taken over gets its tunnel, to the target as it stands, and one that is not
/// gets none.
pub proof fn law_tunnels_need_a_connection(target: Seq<char>)
    ensures
        upgraded_step(target, true) == TunnelStepView::Run(target),
        upgraded_step(target, false) is GiveUp,
{
}

/// An event that is none of a step's own leaves the step to be done, and an answer is the end.
pub proof fn law_other_forward_events_change_nothing<R>(
    step: ForwardStepView<R>,
    event: ForwardEventView,
)
    requires
        match event {
            ForwardEventView::Succeeded => !(step is Connect || step is Handshake),
            ForwardEventView::Failed(_) => step is Relay || step is Respond,
            ForwardEventView::Responded(_) => !(step is Send),
            ForwardEventView::Received(_) => !(step is Collect),
        },
    ensures
        next_forward_step(step, event) == step,
{
}

} // verus!
