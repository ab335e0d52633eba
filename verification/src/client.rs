//! The session: the state of one connection to a debug adapter, and the
//! requests that the client issues over it.
//!
//! The session does no input or output.  An operation hands out the request
//! to write to the transport; what the transport brings back is handed to
//! the function that completes the operation.  Between the two the caller
//! waits on the waiter it registered with the dispatcher.
use crate::arguments::{
    breakpoints_at, client_declaration, configuration_done_json, configuration_done_to_json,
    continue_json, continue_to_json, initialize_arguments, initialize_json, initialize_to_json,
    launch_json, launch_to_json, next_json, next_to_json, pause_json, pause_to_json,
    items_of, set_breakpoints_arguments, set_breakpoints_json, set_breakpoints_to_json,
    step_arguments, step_back_json,
    step_back_to_json, step_in_arguments, step_in_json, step_in_to_json, step_out_json,
    step_out_to_json, ConfigurationDoneArguments, ContinueArguments, PauseArguments,
    SteppingGranularity, StepArguments, StepInArguments,
};
use crate::json::shape_of;
use crate::message::{Request, RequestView, Response, ResponseView};
use crate::results::{
    breakpoints_from_json, breakpoints_in, capabilities_from_json, capabilities_in,
    continued_from_json, continued_in, unit_from_json,
};
use crate::supervisor::{bootstrap, bootstrap_of, Bootstrap};
pub use crate::supervisor::TransportType;
use dap_types::{Capabilities, ContinueResponse, SetBreakpointsResponse, SourceBreakpoint};
use serde_json::Value;
use vstd::prelude::*;

verus! {

/// Tells one session from another in an application that runs several.
/// It never appears on the wire.
#[derive(Copy, Clone, Debug, PartialEq, Eq, PartialOrd, Ord, Hash)]
pub struct DebugAdapterClientId(pub usize);

/// Where a session stands.
#[derive(Clone, Copy, Debug, PartialEq, Eq, Structural)]
pub enum SessionState {
    /// No capabilities have been negotiated.
    Uninitialized,
    /// `initialize` has been issued and not answered.
    Initializing,
    /// The adapter has answered `initialize` with its capabilities.
    Initialized,
    /// The transport has closed or the session was shut down.
    Terminated,
}

/// Why an operation was refused or failed.
#[derive(Clone, Debug, PartialEq, Eq)]
pub enum ClientError {
    /// The operation needs capabilities, and `initialize` has not succeeded.
    NotInitialized,
    /// `initialize` was asked for a second time.
    AlreadyInitialized,
    /// The session has ended.
    Terminated,
    /// Every sequence number has been handed out.
    SequenceExhausted,
    /// The arguments could not be written as JSON.
    Serialization,
    /// The transport closed before the response came.
    ConnectionClosed,
    /// The adapter answered that the request failed, with this message.
    RequestFailed { message: Option<String> },
    /// The body of the response does not have the shape that the command
    /// calls for.
    Deserialization,
    /// The completion of `initialize` was called though none was under way.
    UnexpectedReply,
}

/// What a waiter is resolved with.
#[derive(Clone, Debug, PartialEq)]
pub enum Reply {
    /// The response that names the request.
    Response(Response),
    /// The transport closed first.
    Closed,
}

/// What to do for an operation whose failures are reported and not
/// returned: write the request, or report why there is none.
#[derive(Clone, Debug, PartialEq)]
pub enum Fire {
    Send(Request),
    Log(ClientError),
}

impl Fire {
    pub open spec fn outcome(self) -> Result<Request, ClientError> {
        match self {
            Fire::Send(request) => Ok(request),
            Fire::Log(error) => Err(error),
        }
    }
}

/// What an operation asks of the session before it may be issued.
#[derive(Clone, Copy, Debug, PartialEq, Eq, Structural)]
pub enum Needs {
    /// A session that has not ended.
    Open,
    /// A session whose `initialize` has succeeded.
    Initialized,
    /// A session that has not begun to initialize.
    Uninitialized,
}

/// The session as the contracts see it.
pub struct ClientView {
    pub state: SessionState,
    /// The number that the next request gets, and the count of requests
    /// issued so far.
    pub request_count: u64,
    pub capabilities: Option<Capabilities>,
    /// Whether the session owns the adapter process.
    pub owns_process: bool,
}

/// One connection to a debug adapter.
#[derive(Debug)]
pub struct DebugAdapterClient {
    owns_process: bool,
    request_count: u64,
    capabilities: Option<Capabilities>,
    state: SessionState,
}

impl View for DebugAdapterClient {
    type V = ClientView;

    closed spec fn view(&self) -> ClientView {
        ClientView {
            state: self.state,
            request_count: self.request_count,
            capabilities: self.capabilities,
            owns_process: self.owns_process,
        }
    }
}

/// Capabilities are there once `initialize` has succeeded, and not before.
pub open spec fn wf(session: ClientView) -> bool {
    match session.state {
        SessionState::Uninitialized | SessionState::Initializing => session.capabilities is None,
        SessionState::Initialized => session.capabilities is Some,
        SessionState::Terminated => true,
    }
}

/// The steps that a session may take from one state to the next.  None
/// leads to `Initialized` but from `Initializing`, and none leads out of
/// `Terminated`.
pub open spec fn may_follow(before: SessionState, after: SessionState) -> bool {
    ||| after == before
    ||| after == SessionState::Terminated
    ||| before == SessionState::Uninitialized && after == SessionState::Initializing
    ||| before == SessionState::Initializing && after == SessionState::Initialized
    ||| before == SessionState::Initializing && after == SessionState::Uninitialized
}

/// What every operation keeps: sequence numbers only grow, states follow
/// one another as `may_follow` allows, capabilities once stored stay as
/// they are, and the ownership of the process does not change.
pub open spec fn evolves(before: ClientView, after: ClientView) -> bool {
    &&& before.request_count <= after.request_count
    &&& may_follow(before.state, after.state)
    &&& before.capabilities is Some ==> after.capabilities == before.capabilities
    &&& after.owns_process == before.owns_process
}

/// Why the session refuses an operation, if it does.
pub open spec fn refusal(session: ClientView, needs: Needs) -> Option<ClientError> {
    if session.state == SessionState::Terminated {
        Some(ClientError::Terminated)
    } else if needs == Needs::Initialized && session.state != SessionState::Initialized {
        Some(ClientError::NotInitialized)
    } else if needs == Needs::Uninitialized && session.state != SessionState::Uninitialized {
        Some(ClientError::AlreadyInitialized)
    } else if session.request_count == u64::MAX {
        Some(ClientError::SequenceExhausted)
    } else {
        None
    }
}

/// The session after it has issued a request.
pub open spec fn after_issue(session: ClientView, needs: Needs) -> ClientView {
    ClientView {
        state: if needs == Needs::Uninitialized {
            SessionState::Initializing
        } else {
            session.state
        },
        request_count: (session.request_count + 1) as u64,
        ..session
    }
}

/// The issue of one request.  A session that refuses stays as it is and
/// says why.  So does one whose arguments have no JSON form (`json` is
/// `None`).  Otherwise the request carries the next sequence number, the
/// command and the arguments, and the session has moved on.
pub open spec fn issues(
    before: ClientView,
    after: ClientView,
    needs: Needs,
    command: Seq<char>,
    json: Option<Value>,
    r: Result<Request, ClientError>,
) -> bool {
    match refusal(before, needs) {
        Some(error) => r == Err::<Request, ClientError>(error) && after == before,
        None => match json {
            None => r == Err::<Request, ClientError>(ClientError::Serialization) && after
                == before,
            Some(arguments) => {
                &&& r matches Ok(request) && request@ == (RequestView {
                    seq: before.request_count,
                    command,
                    arguments: Some(arguments),
                })
                &&& after == after_issue(before, needs)
            },
        },
    }
}

/// What a reply settles to: the body of a response that reports success,
/// the adapter's message where it reports failure, and a closure failure
/// where the transport closed first.
pub open spec fn settled(reply: Reply) -> Result<Option<Value>, ClientError> {
    match reply {
        Reply::Closed => Err(ClientError::ConnectionClosed),
        Reply::Response(response) => if response.success {
            Ok(response.body)
        } else {
            Err(ClientError::RequestFailed { message: response.message })
        },
    }
}

/// `value` stands for `body`: it is the body where there is one, and JSON
/// null where there is none.
pub open spec fn stands_for(value: Value, body: Option<Value>) -> bool {
    match body {
        Some(b) => value == b,
        None => shape_of(value) is Null,
    }
}

/// The completion of `initialize` with the reply `reply`.  The session must
/// have an `initialize` under way.  Capabilities that the body holds are
/// stored and returned, and the session is initialized.  A failure is
/// returned and leaves the session ready to initialize again, unless the
/// transport has closed, which ends it.
pub open spec fn completes_initialize(
    before: ClientView,
    reply: Reply,
    after: ClientView,
    r: Result<Capabilities, ClientError>,
) -> bool {
    match before.state {
        SessionState::Terminated => r == Err::<Capabilities, ClientError>(ClientError::Terminated)
            && after == before,
        SessionState::Initializing => match settled(reply) {
            Err(e) => r == Err::<Capabilities, ClientError>(e) && after == (ClientView {
                state: if reply is Closed {
                    SessionState::Terminated
                } else {
                    SessionState::Uninitialized
                },
                ..before
            }),
            Ok(body) => exists|value: Value|
                #![trigger capabilities_in(value)]
                stands_for(value, body) && match capabilities_in(value) {
                    Some(c) => r == Ok::<Capabilities, ClientError>(c) && after == (ClientView {
                        state: SessionState::Initialized,
                        capabilities: Some(c),
                        ..before
                    }),
                    None => r == Err::<Capabilities, ClientError>(ClientError::Deserialization)
                        && after == (ClientView { state: SessionState::Uninitialized, ..before }),
                },
        },
        _ => r == Err::<Capabilities, ClientError>(ClientError::UnexpectedReply) && after
            == before,
    }
}

/// Settles a reply.
pub fn settle(reply: Reply) -> (r: Result<Option<Value>, ClientError>)
    ensures
        r == settled(reply),
{
    match reply {
        Reply::Closed => Err(ClientError::ConnectionClosed),
        Reply::Response(response) => if response.success {
            Ok(response.body)
        } else {
            Err(ClientError::RequestFailed { message: response.message })
        },
    }
}

/// The body to read a result from: JSON null where the response has none.
pub fn body_or_null(body: Option<Value>) -> (value: Value)
    ensures
        stands_for(value, body),
{
    match body {
        Some(b) => b,
        None => Value::default(),
    }
}

/// Reads capabilities from a body.
pub fn read_capabilities(body: Value) -> (r: Result<Capabilities, ClientError>)
    ensures
        r == match capabilities_in(body) {
            Some(c) => Ok::<Capabilities, ClientError>(c),
            None => Err(ClientError::Deserialization),
        },
{
    match capabilities_from_json(body) {
        Ok(c) => Ok(c),
        Err(_) => Err(ClientError::Deserialization),
    }
}

/// Reads the adapter's reconciled breakpoints from a body.
pub fn read_breakpoints(body: Value) -> (r: Result<SetBreakpointsResponse, ClientError>)
    ensures
        r == match breakpoints_in(body) {
            Some(b) => Ok::<SetBreakpointsResponse, ClientError>(b),
            None => Err(ClientError::Deserialization),
        },
{
    match breakpoints_from_json(body) {
        Ok(b) => Ok(b),
        Err(_) => Err(ClientError::Deserialization),
    }
}

/// Reads the answer to `continue` from a body.
pub fn read_continued(body: Value) -> (r: Result<ContinueResponse, ClientError>)
    ensures
        r == match continued_in(body) {
            Some(c) => Ok::<ContinueResponse, ClientError>(c),
            None => Err(ClientError::Deserialization),
        },
{
    match continued_from_json(body) {
        Ok(c) => Ok(c),
        Err(_) => Err(ClientError::Deserialization),
    }
}

/// Reads the body of a response that carries no result: JSON null.
pub fn read_nothing(body: Value) -> (r: Result<(), ClientError>)
    ensures
        r == if shape_of(body) is Null {
            Ok::<(), ClientError>(())
        } else {
            Err(ClientError::Deserialization)
        },
{
    match unit_from_json(body) {
        Ok(_) => Ok(()),
        Err(_) => Err(ClientError::Deserialization),
    }
}

/// Completes `launch` and `configuration_done`: the failure is returned.
/// A response that reports success must carry no body, or JSON null.
pub fn acknowledged(reply: Reply) -> (r: Result<(), ClientError>)
    ensures
        r == match settled(reply) {
            Err(e) => Err::<(), ClientError>(e),
            Ok(None) => Ok(()),
            Ok(Some(body)) => if shape_of(body) is Null {
                Ok(())
            } else {
                Err(ClientError::Deserialization)
            },
        },
{
    match settle(reply) {
        Ok(body) => read_nothing(body_or_null(body)),
        Err(e) => Err(e),
    }
}

/// Completes `set_breakpoints`: the adapter's list is returned as it came,
/// and so is a failure.
pub fn breakpoints_set(reply: Reply) -> (r: Result<SetBreakpointsResponse, ClientError>)
    ensures
        match settled(reply) {
            Err(e) => r == Err::<SetBreakpointsResponse, ClientError>(e),
            Ok(body) => exists|value: Value|
                #![trigger breakpoints_in(value)]
                stands_for(value, body) && r == match breakpoints_in(value) {
                    Some(b) => Ok::<SetBreakpointsResponse, ClientError>(b),
                    None => Err(ClientError::Deserialization),
                },
        },
{
    match settle(reply) {
        Ok(body) => read_breakpoints(body_or_null(body)),
        Err(e) => Err(e),
    }
}

/// Completes `resume`: nothing is returned.  What comes back is the failure
/// to report, if there is one.
pub fn resumed(reply: Reply) -> (logged: Option<ClientError>)
    ensures
        match settled(reply) {
            Err(e) => logged == Some(e),
            Ok(body) => exists|value: Value|
                #![trigger continued_in(value)]
                stands_for(value, body) && logged == if continued_in(value) is Some {
                    None
                } else {
                    Some(ClientError::Deserialization)
                },
        },
{
    match settle(reply) {
        Ok(body) => match read_continued(body_or_null(body)) {
            Ok(_) => None,
            Err(e) => Some(e),
        },
        Err(e) => Some(e),
    }
}

/// Completes a step, `pause` and `restart`: nothing is returned.  What
/// comes back is the failure to report, if there is one.
pub fn stepped(reply: Reply) -> (logged: Option<ClientError>)
    ensures
        logged == match settled(reply) {
            Err(e) => Some(e),
            Ok(None) => None,
            Ok(Some(body)) => if shape_of(body) is Null {
                None
            } else {
                Some(ClientError::Deserialization)
            },
        },
{
    match acknowledged(reply) {
        Ok(_) => None,
        Err(e) => Some(e),
    }
}

impl DebugAdapterClient {
    /// A session for an adapter that is yet to be started, and the steps
    /// that start it.  The session owns the process.
    pub fn new(transport_type: TransportType, port: u16) -> (r: (Self, Bootstrap))
        ensures
            r.0@ == (ClientView {
                state: SessionState::Uninitialized,
                request_count: 0,
                capabilities: None,
                owns_process: true,
            }),
            r.1 == bootstrap_of(transport_type, port),
    {
        (Self::handle_transport(true), bootstrap(transport_type, port))
    }

    /// A session over a transport that stands.  `owns_process` says whether
    /// the adapter process is the session's to end.
    pub fn handle_transport(owns_process: bool) -> (client: Self)
        ensures
            client@ == (ClientView {
                state: SessionState::Uninitialized,
                request_count: 0,
                capabilities: None,
                owns_process,
            }),
    {
        DebugAdapterClient {
            owns_process,
            request_count: 0,
            capabilities: None,
            state: SessionState::Uninitialized,
        }
    }

    pub fn state(&self) -> (state: SessionState)
        ensures
            state == self@.state,
    {
        self.state
    }

    /// The capabilities that the adapter declared, once `initialize` has
    /// succeeded.
    pub fn capabilities(&self) -> (capabilities: Option<&Capabilities>)
        ensures
            match capabilities {
                Some(c) => self@.capabilities == Some(*c),
                None => self@.capabilities is None,
            },
    {
        self.capabilities.as_ref()
    }

    pub fn owns_process(&self) -> (owns: bool)
        ensures
            owns == self@.owns_process,
    {
        self.owns_process
    }

    /// Hands out the next sequence number.  Numbers start at 0 and go up by
    /// one; `None` once all have been handed out.
    pub fn next_request_id(&mut self) -> (id: Option<u64>)
        ensures
            evolves(old(self)@, final(self)@),
            match id {
                Some(n) => n == old(self)@.request_count && final(self)@ == (ClientView {
                    request_count: (n + 1) as u64,
                    ..old(self)@
                }),
                None => old(self)@.request_count == u64::MAX && final(self)@ == old(self)@,
            },
    {
        if self.request_count == u64::MAX {
            None
        } else {
            let id: u64 = self.request_count;
            self.request_count = id + 1;
            Some(id)
        }
    }

    fn refuses(&self, needs: Needs) -> (r: Option<ClientError>)
        ensures
            r == refusal(self@, needs),
    {
        match self.state {
            SessionState::Terminated => {
                return Some(ClientError::Terminated);
            },
            SessionState::Initialized => {
                if let Needs::Uninitialized = needs {
                    return Some(ClientError::AlreadyInitialized);
                }
            },
            SessionState::Initializing => {
                match needs {
                    Needs::Initialized => {
                        return Some(ClientError::NotInitialized);
                    },
                    Needs::Uninitialized => {
                        return Some(ClientError::AlreadyInitialized);
                    },
                    Needs::Open => {},
                }
            },
            SessionState::Uninitialized => {
                if let Needs::Initialized = needs {
                    return Some(ClientError::NotInitialized);
                }
            },
        }
        if self.request_count == u64::MAX {
            Some(ClientError::SequenceExhausted)
        } else {
            None
        }
    }

    /// Issues one request whose arguments have been written as JSON, or
    /// could not be.
    pub fn issue(
        &mut self,
        needs: Needs,
        command: &str,
        arguments: Result<Value, serde_json::Error>,
    ) -> (r: Result<Request, ClientError>)
        requires
            wf(old(self)@),
        ensures
            wf(final(self)@),
            evolves(old(self)@, final(self)@),
            issues(
                old(self)@,
                final(self)@,
                needs,
                command@,
                match arguments {
                    Ok(v) => Some(v),
                    Err(_) => None,
                },
                r,
            ),
    {
        if let Some(error) = self.refuses(needs) {
            return Err(error);
        }
        let arguments: Value = match arguments {
            Ok(v) => v,
            Err(_) => {
                return Err(ClientError::Serialization);
            },
        };
        let seq: u64 = self.request_count;
        self.request_count = seq + 1;
        if let Needs::Uninitialized = needs {
            self.state = SessionState::Initializing;
        }
        Ok(Request { seq, command: command.to_owned(), arguments: Some(arguments) })
    }

    /// Issues the request `command` with `arguments`, whatever the command
    /// is.  Refused only where the session has ended or has run out of
    /// sequence numbers.
    pub fn request(&mut self, command: &str, arguments: Value) -> (r: Result<Request, ClientError>)
        requires
            wf(old(self)@),
        ensures
            wf(final(self)@),
            evolves(old(self)@, final(self)@),
            issues(old(self)@, final(self)@, Needs::Open, command@, Some(arguments), r),
    {
        self.issue(Needs::Open, command, Ok(arguments))
    }

    /// Issues `initialize` for the adapter `adapter_id`, with the client's
    /// fixed declaration of itself.  Refused unless the session has yet to
    /// begin initializing.
    pub fn initialize(&mut self, adapter_id: &str) -> (r: Result<Request, ClientError>)
        requires
            wf(old(self)@),
        ensures
            wf(final(self)@),
            evolves(old(self)@, final(self)@),
            issues(
                old(self)@,
                final(self)@,
                Needs::Uninitialized,
                "initialize"@,
                initialize_json(client_declaration(adapter_id@)),
                r,
            ),
    {
        let arguments = initialize_to_json(initialize_arguments(adapter_id));
        self.issue(Needs::Uninitialized, "initialize", arguments)
    }

    /// Completes `initialize`.  On success the adapter's capabilities are
    /// stored and returned, and the session is initialized.  On failure the
    /// failure is returned and the session may initialize again, unless the
    /// transport has closed, which ends it.
    pub fn initialized(&mut self, reply: Reply) -> (r: Result<Capabilities, ClientError>)
        requires
            wf(old(self)@),
        ensures
            wf(final(self)@),
            evolves(old(self)@, final(self)@),
            completes_initialize(old(self)@, reply, final(self)@, r),
    {
        match self.state {
            SessionState::Terminated => {
                return Err(ClientError::Terminated);
            },
            SessionState::Initializing => {},
            _ => {
                return Err(ClientError::UnexpectedReply);
            },
        }
        let closed: bool = match &reply {
            Reply::Closed => true,
            Reply::Response(_) => false,
        };
        let body: Option<Value> = match settle(reply) {
            Ok(body) => body,
            Err(e) => {
                self.state = if closed {
                    SessionState::Terminated
                } else {
                    SessionState::Uninitialized
                };
                return Err(e);
            },
        };
        match read_capabilities(body_or_null(body)) {
            Ok(capabilities) => {
                self.capabilities = Some(capabilities.clone());
                self.state = SessionState::Initialized;
                Ok(capabilities)
            },
            Err(e) => {
                self.state = SessionState::Uninitialized;
                Err(e)
            },
        }
    }

    /// Issues `launch` with the caller's arguments, passed through as they
    /// are.
    pub fn launch(&mut self, custom: Value) -> (r: Result<Request, ClientError>)
        requires
            wf(old(self)@),
        ensures
            wf(final(self)@),
            evolves(old(self)@, final(self)@),
            issues(old(self)@, final(self)@, Needs::Open, "launch"@, launch_json(custom), r),
            r matches Ok(request) ==> request.arguments == Some(custom),
    {
        let arguments = launch_to_json(custom);
        self.issue(Needs::Open, "launch", arguments)
    }

    /// Issues `configurationDone`.
    pub fn configuration_done(&mut self) -> (r: Result<Request, ClientError>)
        requires
            wf(old(self)@),
        ensures
            wf(final(self)@),
            evolves(old(self)@, final(self)@),
            issues(
                old(self)@,
                final(self)@,
                Needs::Open,
                "configurationDone"@,
                configuration_done_json(ConfigurationDoneArguments),
                r,
            ),
            r matches Ok(Request { arguments: Some(arguments), .. }) ==> shape_of(arguments) is Null,
    {
        let arguments = configuration_done_to_json(ConfigurationDoneArguments);
        self.issue(Needs::Open, "configurationDone", arguments)
    }

    /// Issues `setBreakpoints` for the source file at `path`.  The list
    /// replaces the breakpoints of that file; no record of it is kept here.
    /// Refused unless the session is initialized.
    pub fn set_breakpoints(&mut self, path: &str, breakpoints: Option<Vec<SourceBreakpoint>>) -> (r:
        Result<Request, ClientError>)
        requires
            wf(old(self)@),
        ensures
            wf(final(self)@),
            evolves(old(self)@, final(self)@),
            issues(
                old(self)@,
                final(self)@,
                Needs::Initialized,
                "setBreakpoints"@,
                set_breakpoints_json(breakpoints_at(path@, items_of(breakpoints))),
                r,
            ),
    {
        let arguments = set_breakpoints_to_json(set_breakpoints_arguments(path, breakpoints));
        self.issue(Needs::Initialized, "setBreakpoints", arguments)
    }

    /// Lets the thread run on.  Refused unless the session is initialized.
    pub fn resume(&mut self, thread_id: u64) -> (fire: Fire)
        requires
            wf(old(self)@),
        ensures
            wf(final(self)@),
            evolves(old(self)@, final(self)@),
            issues(
                old(self)@,
                final(self)@,
                Needs::Initialized,
                "continue"@,
                continue_json(ContinueArguments { thread_id, single_thread: None }),
                fire.outcome(),
            ),
    {
        let arguments = continue_to_json(ContinueArguments { thread_id, single_thread: None });
        fire(self.issue(Needs::Initialized, "continue", arguments))
    }

    /// Steps over the next statement.  Refused unless the session is
    /// initialized.
    pub fn step_over(&mut self, thread_id: u64) -> (fire: Fire)
        requires
            wf(old(self)@),
        ensures
            wf(final(self)@),
            evolves(old(self)@, final(self)@),
            issues(
                old(self)@,
                final(self)@,
                Needs::Initialized,
                "next"@,
                next_json(statement_step(thread_id)),
                fire.outcome(),
            ),
    {
        let arguments = next_to_json(step_arguments(thread_id));
        fire(self.issue(Needs::Initialized, "next", arguments))
    }

    /// Steps into the call of the next statement.  Refused unless the
    /// session is initialized.
    pub fn step_in(&mut self, thread_id: u64) -> (fire: Fire)
        requires
            wf(old(self)@),
        ensures
            wf(final(self)@),
            evolves(old(self)@, final(self)@),
            issues(
                old(self)@,
                final(self)@,
                Needs::Initialized,
                "stepIn"@,
                step_in_json(
                    StepInArguments {
                        thread_id,
                        single_thread: None,
                        target_id: None,
                        granularity: Some(SteppingGranularity::Statement),
                    },
                ),
                fire.outcome(),
            ),
    {
        let arguments = step_in_to_json(step_in_arguments(thread_id));
        fire(self.issue(Needs::Initialized, "stepIn", arguments))
    }

    /// Steps out of the current call.  Refused unless the session is
    /// initialized.
    pub fn step_out(&mut self, thread_id: u64) -> (fire: Fire)
        requires
            wf(old(self)@),
        ensures
            wf(final(self)@),
            evolves(old(self)@, final(self)@),
            issues(
                old(self)@,
                final(self)@,
                Needs::Initialized,
                "stepOut"@,
                step_out_json(statement_step(thread_id)),
                fire.outcome(),
            ),
    {
        let arguments = step_out_to_json(step_arguments(thread_id));
        fire(self.issue(Needs::Initialized, "stepOut", arguments))
    }

    /// Steps one statement back.  Refused unless the session is
    /// initialized.
    pub fn step_back(&mut self, thread_id: u64) -> (fire: Fire)
        requires
            wf(old(self)@),
        ensures
            wf(final(self)@),
            evolves(old(self)@, final(self)@),
            issues(
                old(self)@,
                final(self)@,
                Needs::Initialized,
                "stepBack"@,
                step_back_json(statement_step(thread_id)),
                fire.outcome(),
            ),
    {
        let arguments = step_back_to_json(step_arguments(thread_id));
        fire(self.issue(Needs::Initialized, "stepBack", arguments))
    }

    /// Restarts the thread.  The request that goes out is `stepBack`, with
    /// the arguments of a step back.  Refused unless the session is
    /// initialized.
    pub fn restart(&mut self, thread_id: u64) -> (fire: Fire)
        requires
            wf(old(self)@),
        ensures
            wf(final(self)@),
            evolves(old(self)@, final(self)@),
            issues(
                old(self)@,
                final(self)@,
                Needs::Initialized,
                "stepBack"@,
                step_back_json(statement_step(thread_id)),
                fire.outcome(),
            ),
    {
        self.step_back(thread_id)
    }

    /// Halts the thread.  Refused unless the session is initialized.
    pub fn pause(&mut self, thread_id: u64) -> (fire: Fire)
        requires
            wf(old(self)@),
        ensures
            wf(final(self)@),
            evolves(old(self)@, final(self)@),
            issues(
                old(self)@,
                final(self)@,
                Needs::Initialized,
                "pause"@,
                pause_json(PauseArguments { thread_id }),
                fire.outcome(),
            ),
    {
        let arguments = pause_to_json(PauseArguments { thread_id });
        fire(self.issue(Needs::Initialized, "pause", arguments))
    }

    /// Answers a request of the adapter that the client does not carry
    /// out: a response that reports failure, so that the adapter does not
    /// wait.  The response takes the next sequence number.  Refused only
    /// where the session has ended or has run out of sequence numbers.
    pub fn refuse_request(&mut self, request: &Request) -> (r: Result<Response, ClientError>)
        requires
            wf(old(self)@),
        ensures
            wf(final(self)@),
            evolves(old(self)@, final(self)@),
            match refusal(old(self)@, Needs::Open) {
                Some(error) => r == Err::<Response, ClientError>(error)
                    && final(self)@ == old(self)@,
                None => r matches Ok(response) && response@ == (ResponseView {
                    seq: old(self)@.request_count,
                    request_seq: request.seq,
                    success: false,
                    command: request.command@,
                    message: Some("not supported"@),
                    body: None,
                }) && final(self)@ == after_issue(old(self)@, Needs::Open),
            },
    {
        if let Some(error) = self.refuses(Needs::Open) {
            return Err(error);
        }
        let seq: u64 = self.request_count;
        self.request_count = seq + 1;
        Ok(
            Response {
                seq,
                request_seq: request.seq,
                success: false,
                command: request.command.clone(),
                message: Some("not supported".to_owned()),
                body: None,
            },
        )
    }

    /// Ends the session, on closure of the transport or at the owner's
    /// wish.  Says whether the adapter process is to be killed now: it is
    /// where the session owns it and had not ended before.
    pub fn terminate(&mut self) -> (kill_process: bool)
        requires
            wf(old(self)@),
        ensures
            wf(final(self)@),
            evolves(old(self)@, final(self)@),
            final(self)@ == (ClientView { state: SessionState::Terminated, ..old(self)@ }),
            kill_process == (old(self)@.owns_process && old(self)@.state
                != SessionState::Terminated),
    {
        let first: bool = match self.state {
            SessionState::Terminated => false,
            _ => true,
        };
        self.state = SessionState::Terminated;
        first && self.owns_process
    }
}

/// The arguments of one step of `thread_id`, a statement at a time.
pub open spec fn statement_step(thread_id: u64) -> StepArguments {
    StepArguments {
        thread_id,
        single_thread: None,
        granularity: Some(SteppingGranularity::Statement),
    }
}

/// Turns the issue of a request into what to do for an operation whose
/// failures are reported and not returned.
pub fn fire(issued: Result<Request, ClientError>) -> (fire: Fire)
    ensures
        fire.outcome() == issued,
{
    match issued {
        Ok(request) => Fire::Send(request),
        Err(error) => Fire::Log(error),
    }
}

/// Sequence numbers are strictly increasing and never repeat: of two
/// requests that a session issues, the later one has the greater number,
/// whatever the session did in between, since nothing it does lets the
/// count fall.
pub proof fn lemma_sequence_numbers_increase(
    a: ClientView,
    b: ClientView,
    c: ClientView,
    d: ClientView,
    first_needs: Needs,
    first_command: Seq<char>,
    first_json: Option<Value>,
    first: Request,
    second_needs: Needs,
    second_command: Seq<char>,
    second_json: Option<Value>,
    second: Request,
)
    requires
        issues(a, b, first_needs, first_command, first_json, Ok(first)),
        b.request_count <= c.request_count,
        issues(c, d, second_needs, second_command, second_json, Ok(second)),
    ensures
        first.seq < second.seq,
        first.seq == a.request_count,
        second.seq == c.request_count,
{
}

/// Nothing steps, runs, halts or sets breakpoints before `initialize` has
/// succeeded: a session that is not initialized refuses such an operation,
/// issues nothing and stays as it is.  Before and during initialization the
/// refusal is `NotInitialized`.
pub proof fn lemma_refused_before_initialize(
    before: ClientView,
    after: ClientView,
    command: Seq<char>,
    json: Option<Value>,
    r: Result<Request, ClientError>,
)
    requires
        before.state != SessionState::Initialized,
        issues(before, after, Needs::Initialized, command, json, r),
    ensures
        r is Err,
        after == before,
        before.state != SessionState::Terminated ==> r == Err::<Request, ClientError>(
            ClientError::NotInitialized,
        ),
{
}

/// No step skips `Initializing` on the way to `Initialized`, and no step
/// leaves `Terminated`: ending a session twice is ending it once.
pub proof fn lemma_state_machine(before: SessionState, after: SessionState)
    requires
        may_follow(before, after),
    ensures
        after == SessionState::Initialized ==> before == SessionState::Initializing || before
            == SessionState::Initialized,
        before == SessionState::Terminated ==> after == SessionState::Terminated,
        before == SessionState::Initialized ==> after == SessionState::Initialized || after
            == SessionState::Terminated,
{
}

} // verus!
