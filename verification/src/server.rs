//! How the mock distribution server answers a request.
//!
//! A request is answered in steps. The server looks for files and reads them between the steps,
//! and each step says what is to be done next.

use std::path::PathBuf;

use hyper::header::{HeaderMap, HeaderValue};
use vstd::prelude::*;

use crate::auth::{authenticate, AuthOutcome, Credentials};
use crate::response::{Response, ResponseView, Status};
use crate::text::trim_start_char;

verus! {

broadcast use vstd::string::group_string_axioms;

/// What a server serves, and to whom.
pub struct ServerState {
    /// The directory that holds the files.
    pub dist_dir: PathBuf,
    /// The credentials that a request has to present, if it has to present any.
    pub credentials: Option<Credentials>,
}

/// What the server reads of a request.
pub struct ServerRequest {
    /// The path of the request's URI.
    pub path: String,
    pub headers: HeaderMap<HeaderValue>,
}

/// What the server does next.
pub enum ServerStep<'a> {
    /// Answer the request.
    Respond(Response),
    /// Find out whether there is a file at the path that `name` joined to `dir` makes.
    LookUp { dir: &'a PathBuf, name: String },
    /// Read the file at the path that `name` joined to `dir` makes.
    Read { dir: &'a PathBuf, name: String },
}

/// What a `ServerStep` holds.
pub enum ServerStepView {
    Respond(ResponseView),
    LookUp { dir: PathBuf, name: Seq<char> },
    Read { dir: PathBuf, name: Seq<char> },
}

impl<'a> View for ServerStep<'a> {
    type V = ServerStepView;

    open spec fn view(&self) -> ServerStepView {
        match *self {
            ServerStep::Respond(response) => ServerStepView::Respond(response@),
            ServerStep::LookUp { dir, name } => ServerStepView::LookUp { dir: *dir, name: name@ },
            ServerStep::Read { dir, name } => ServerStepView::Read { dir: *dir, name: name@ },
        }
    }
}

/// What comes of a step with a file.
pub enum ServerEvent {
    /// Whether the file is there has been found out.
    LookedUp(bool),
    /// The file has been read and holds this, or could not be read.
    FileRead(Option<Vec<u8>>),
}

/// What a `ServerEvent` holds.
pub enum ServerEventView {
    LookedUp(bool),
    FileRead(Option<Seq<u8>>),
}

impl View for ServerEvent {
    type V = ServerEventView;

    open spec fn view(&self) -> ServerEventView {
        match *self {
            ServerEvent::LookedUp(exists) => ServerEventView::LookedUp(exists),
            ServerEvent::FileRead(Some(contents)) => ServerEventView::FileRead(Some(contents@)),
            ServerEvent::FileRead(None) => ServerEventView::FileRead(None),
        }
    }
}

/// The answer to a request that is not let through.
pub open spec fn server_refusal(outcome: AuthOutcome) -> ResponseView {
    match outcome {
        AuthOutcome::Missing => crate::response::text_answer(
            Status::Unauthorized,
            "Authentication required"@,
        ),
        _ => crate::response::text_answer(Status::Unauthorized, "Unauthorized"@),
    }
}

/// The first step for a request for `path`, given the outcome of authentication. The file is the
/// one that the path names in `dir`, without the slashes at its beginning.
pub open spec fn request_step(
    outcome: AuthOutcome,
    dir: PathBuf,
    path: Seq<char>,
) -> ServerStepView {
    match outcome {
        AuthOutcome::Granted => ServerStepView::LookUp {
            dir,
            name: crate::text::trim_start(path, '/'),
        },
        _ => ServerStepView::Respond(server_refusal(outcome)),
    }
}

/// The answer after the file has been read, or could not be.
pub open spec fn read_answer(contents: Option<Seq<u8>>) -> ResponseView {
    match contents {
        Some(contents) => ResponseView { status: Status::Success, body: contents },
        None => crate::response::text_answer(Status::InternalServerError, "Internal Error"@),
    }
}

/// The step that follows `step` when `event` has come of it. An answer is followed by nothing, and
/// an event that cannot come of a step leaves the step to be done.
pub open spec fn next_server_step(step: ServerStepView, event: ServerEventView) -> ServerStepView {
    match (step, event) {
        (ServerStepView::LookUp { dir, name }, ServerEventView::LookedUp(exists)) => if exists {
            ServerStepView::Read { dir, name }
        } else {
            ServerStepView::Respond(crate::response::text_answer(Status::NotFound, "Not Found"@))
        },
        (
            ServerStepView::Read { .. },
            ServerEventView::FileRead(contents),
        ) => ServerStepView::Respond(read_answer(contents)),
        _ => step,
    }
}

/// The first step for a request for `path` of `dir`, given the outcome of authentication.
pub fn handle_authenticated<'a>(
    outcome: AuthOutcome,
    dir: &'a PathBuf,
    path: &str,
) -> (r: ServerStep<'a>)
    ensures
        r@ == request_step(outcome, *dir, path@),
{
    match outcome {
        AuthOutcome::Granted => ServerStep::LookUp { dir, name: trim_start_char(path, '/') },
        AuthOutcome::Missing => ServerStep::Respond(
            Response::text(Status::Unauthorized, "Authentication required"),
        ),
        AuthOutcome::Refused => ServerStep::Respond(
            Response::text(Status::Unauthorized, "Unauthorized"),
        ),
    }
}

/// The first step for a request.
///
/// A request that presents the configured user name and password is let through, and one that
/// presents others is refused.
pub fn handle_request<'a>(state: &'a ServerState, request: &ServerRequest) -> (r: ServerStep<'a>)
    ensures
        r@ == request_step(
            crate::auth::auth_outcome(state.credentials, request.headers, "authorization"@),
            state.dist_dir,
            request.path@,
        ),
        state.credentials matches Some(c) ==> forall|u: Seq<char>, p: Seq<char>|
            !u.contains(':') && #[trigger] crate::auth::presents(
                request.headers,
                "authorization"@,
                u,
                p,
            ) ==> r@ == request_step(
                if (u, p) == c@ {
                    AuthOutcome::Granted
                } else {
                    AuthOutcome::Refused
                },
                state.dist_dir,
                request.path@,
            ),
{
    proof {
        reveal_strlit("authorization");
    }
    let outcome = authenticate(&state.credentials, &request.headers, "authorization");
    handle_authenticated(outcome, &state.dist_dir, request.path.as_str())
}

impl<'a> ServerStep<'a> {
    /// The step that follows this one when `event` has come of it.
    pub fn after(self, event: ServerEvent) -> (r: ServerStep<'a>)
        ensures
            r@ == next_server_step(self@, event@),
    {
        match self {
            ServerStep::Respond(response) => ServerStep::Respond(response),
            ServerStep::LookUp { dir, name } => match event {
                ServerEvent::LookedUp(true) => ServerStep::Read { dir, name },
                ServerEvent::LookedUp(false) => ServerStep::Respond(
                    Response::text(Status::NotFound, "Not Found"),
                ),
                ServerEvent::FileRead(_) => ServerStep::LookUp { dir, name },
            },
            ServerStep::Read { dir, name } => match event {
                ServerEvent::FileRead(Some(contents)) => ServerStep::Respond(
                    Response { status: Status::Success, body: contents },
                ),
                ServerEvent::FileRead(None) => ServerStep::Respond(
                    Response::text(Status::InternalServerError, "Internal Error"),
                ),
                ServerEvent::LookedUp(_) => ServerStep::Read { dir, name },
            },
        }
    }
}

/// What there is at a path.
pub enum Found {
    /// No file.
    Nothing,
    /// A file that cannot be read.
    Unreadable,
    /// A file that holds this.
    Contents(Seq<u8>),
}

/// What comes of `step` where `found` says what there is under each name joined to a directory.
pub open spec fn file_event(
    step: ServerStepView,
    found: spec_fn(PathBuf, Seq<char>) -> Found,
) -> ServerEventView {
    match step {
        ServerStepView::Read { dir, name } => ServerEventView::FileRead(
            match found(dir, name) {
                Found::Contents(contents) => Some(contents),
                _ => None,
            },
        ),
        ServerStepView::LookUp { dir, name } => ServerEventView::LookedUp(
            !(found(dir, name) is Nothing),
        ),
        ServerStepView::Respond(_) => ServerEventView::LookedUp(false),
    }
}

/// The step that is reached from `step` after `n` operations.
pub open spec fn server_steps(
    step: ServerStepView,
    found: spec_fn(PathBuf, Seq<char>) -> Found,
    n: nat,
) -> ServerStepView
    decreases n,
{
    if n == 0 {
        step
    } else {
        let last = server_steps(step, found, (n - 1) as nat);
        next_server_step(last, file_event(last, found))
    }
}

/// A request that is let through is answered after at most two operations: with the contents of the
/// file that it asks for, as they are, with 404 if there is no such file, and with 500 if it cannot
/// be read.
pub proof fn law_granted_requests_are_served(
    dir: PathBuf,
    path: Seq<char>,
    found: spec_fn(PathBuf, Seq<char>) -> Found,
)
    ensures
        server_steps(request_step(AuthOutcome::Granted, dir, path), found, 2) matches
            ServerStepView::Respond(answer) && match found(
            dir,
            crate::text::trim_start(path, '/'),
        ) {
            Found::Nothing => crate::response::status_code(answer.status) == 404,
            Found::Unreadable => crate::response::status_code(answer.status) == 500,
            Found::Contents(contents) => crate::response::status_code(answer.status) == 200
                && answer.body == contents,
        },
{
    reveal_with_fuel(server_steps, 3);
}

/// Where credentials are configured, a request that presents none, or anything but the header
/// value of these credentials, is answered with 401, whatever files there are; where none are
/// configured, no request is.
pub proof fn law_unauthenticated_requests_get_401(
    credentials: Option<Credentials>,
    headers: HeaderMap<HeaderValue>,
    dir: PathBuf,
    path: Seq<char>,
    found: spec_fn(PathBuf, Seq<char>) -> Found,
)
    ensures
        server_steps(
            request_step(
                crate::auth::auth_outcome(credentials, headers, "authorization"@),
                dir,
                path,
            ),
            found,
            2,
        ) matches ServerStepView::Respond(answer) && (crate::response::status_code(answer.status)
            == 401 <==> (credentials matches Some(c) && crate::headers::field_text(
            headers,
            "authorization"@,
        ) != Some(crate::auth::basic_header(c@.0, c@.1)))),
{
    reveal_with_fuel(server_steps, 3);
}

/// A step holds what its parts hold.
pub proof fn law_server_step_view<'a>(step: ServerStep<'a>)
    ensures
        match step {
            ServerStep::Respond(response) => step@ == ServerStepView::Respond(response@),
            ServerStep::LookUp { dir, name } => step@ == (ServerStepView::LookUp {
                dir: *dir,
                name: name@,
            }),
            ServerStep::Read { dir, name } => step@ == (ServerStepView::Read {
                dir: *dir,
                name: name@,
            }),
        },
{
}

/// An event holds what its parts hold.
pub proof fn law_server_event_view(event: ServerEvent)
    ensures
        match event {
            ServerEvent::LookedUp(exists) => event@ == ServerEventView::LookedUp(exists),
            ServerEvent::FileRead(contents) => event@ is FileRead && (event@->FileRead_0 is Some
                <==> contents is Some) && (contents matches Some(contents) ==> event@->FileRead_0
                == Some(contents@)),
        },
{
}

/// Only finding out whether the file is there leads on from looking it up, and only reading it leads
/// on from there; an answer is the end.
pub proof fn law_other_server_events_change_nothing(
    dir: PathBuf,
    name: Seq<char>,
    answer: ResponseView,
    exists: bool,
    contents: Option<Seq<u8>>,
)
    ensures
        ({
            let look_up = ServerStepView::LookUp { dir, name };
            let read = ServerStepView::Read { dir, name };
            let respond = ServerStepView::Respond(answer);
            &&& next_server_step(look_up, ServerEventView::FileRead(contents)) == look_up
            &&& next_server_step(read, ServerEventView::LookedUp(exists)) == read
            &&& next_server_step(respond, ServerEventView::LookedUp(exists)) == respond
            &&& next_server_step(respond, ServerEventView::FileRead(contents)) == respond
        }),
{
}

/// The answer to a request, from its path and its `Authorization` field to the last byte. The path
/// is any number of slashes and a name that begins with none. A request may pass if no credentials
/// are configured, or if its field holds the word `Basic`, a space, and the base64 form of the user
/// name, a colon and the password. It is then answered with what is found under that very name in
/// the served directory, and otherwise with 401.
pub proof fn law_answers(
    credentials: Option<Credentials>,
    headers: HeaderMap<HeaderValue>,
    dir: PathBuf,
    slashes: nat,
    name: Seq<char>,
    found: spec_fn(PathBuf, Seq<char>) -> Found,
)
    requires
        name.len() == 0 || name[0] != '/',
    ensures
        ({
            let field = crate::headers::header_fields(headers);
            let presented = field.contains_key("authorization"@);
            let right = credentials matches Some(c) ==> presented && field["authorization"@]
                == vstd::utf8::encode_utf8(
                seq!['B', 'a', 's', 'i', 'c', ' '] + crate::encoding::base64_standard(
                    vstd::utf8::encode_utf8(c@.0 + seq![':'] + c@.1),
                ),
            );
            let (code, body) = if right {
                match found(dir, name) {
                    Found::Contents(contents) => (200u16, contents),
                    Found::Nothing => (404u16, vstd::utf8::encode_utf8("Not Found"@)),
                    Found::Unreadable => (500u16, vstd::utf8::encode_utf8("Internal Error"@)),
                }
            } else if presented {
                (401u16, vstd::utf8::encode_utf8("Unauthorized"@))
            } else {
                (401u16, vstd::utf8::encode_utf8("Authentication required"@))
            };
            server_steps(
                request_step(
                    crate::auth::auth_outcome(credentials, headers, "authorization"@),
                    dir,
                    Seq::new(slashes, |i: int| '/') + name,
                ),
                found,
                2,
            ) matches ServerStepView::Respond(answer) && crate::response::status_code(answer.status)
                == code && answer.body == body
        }),
{
    reveal_with_fuel(server_steps, 3);
    crate::text::law_trim_of_run(slashes, name, '/');
    crate::auth::law_only_the_right_value_passes(credentials, headers, "authorization"@);
}

/// Of a request that may pass, the file is looked up and then read under the name that follows the
/// slashes of its path, and nothing else is.
pub proof fn law_only_the_named_file_is_touched(
    dir: PathBuf,
    slashes: nat,
    name: Seq<char>,
    contents: Option<Seq<u8>>,
)
    requires
        name.len() == 0 || name[0] != '/',
    ensures
        ({
            let first = request_step(
                AuthOutcome::Granted,
                dir,
                Seq::new(slashes, |i: int| '/') + name,
            );
            let second = next_server_step(first, ServerEventView::LookedUp(true));
            &&& first == (ServerStepView::LookUp { dir, name })
            &&& next_server_step(first, ServerEventView::LookedUp(false)) is Respond
            &&& second == (ServerStepView::Read { dir, name })
            &&& next_server_step(second, ServerEventView::FileRead(contents)) is Respond
        }),
{
    crate::text::law_trim_of_run(slashes, name, '/');
}

} // verus!
