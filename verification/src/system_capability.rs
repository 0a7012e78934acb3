//! The methods `addin.spawn` and `addin.kill`, which the component can answer without 1C.
//!
//! - `addin.spawn {launch_spec: {binary, args[], env{}, startup_command?, extra_args[]}}` starts a
//!   process and answers `{pid}`.
//! - `addin.kill {pid, force}` ends a process that this component has started and answers
//!   `{ok: true}`. No other process of the host is touched.
//!
//! A started process stands in the [`Registry`] until it has ended; the manager is told of its end
//! by the notification `addin.child_exited {pid, exit_code}`.
//!
//! The tunnel hands every frame to 1C; a caller that wants these methods answered here asks
//! [`try_dispatch_addin_method`] first. The functions here decide and write the answers; reading
//! requests and launch specifications, and starting, signalling and waiting for processes, is left
//! to the caller. JSON values that are only passed on are held as their text.
use std::collections::{HashMap, HashSet};
use vstd::prelude::*;

use crate::json;
use crate::text;

verus! {

/// The code of an answer to a method that does not exist.
pub const METHOD_NOT_FOUND: i32 = -32601;

/// The code of an answer to parameters that cannot be used.
pub const INVALID_PARAMS: i32 = -32602;

/// The code of an answer to a process that could not be started or ended.
pub const PROCESS_FAILED: i32 = -32000;

/// The code of an answer to a process that is not in the registry.
pub const UNKNOWN_PID: i32 = -32001;

/// How long a process may take to end by itself before it is killed, in milliseconds.
pub const KILL_GRACE_MS: u64 = 2000;

/// What is read of a JSON-RPC request. The reading itself is the caller's.
#[derive(Debug)]
pub struct JsonRpcRequest {
    pub method: String,
    /// The JSON text of `id`; `None` where there is none or it is `null`.
    pub id: Option<String>,
    /// The JSON text of `params`; `None` where there are none or they are `null`.
    pub params: Option<String>,
}

/// A JSON-RPC answer: a result or an error.
#[derive(Debug)]
pub struct JsonRpcResponse {
    pub jsonrpc: &'static str,
    /// The JSON text of the request's `id`.
    pub id: Option<String>,
    /// The JSON text of the result.
    pub result: Option<String>,
    pub error: Option<JsonRpcError>,
}

/// The error of a JSON-RPC answer.
#[derive(Debug)]
pub struct JsonRpcError {
    pub code: i32,
    pub message: String,
}

/// How a process is to be started.
#[derive(Debug, Clone)]
pub struct LaunchSpec {
    /// The absolute path of the program.
    pub binary: String,
    /// The arguments of the command line.
    pub args: Vec<String>,
    /// Variables of the environment, laid over the inherited ones.
    pub env: HashMap<String, String>,
    /// What stands in `/C"..."`, without the quotes; see [`command_line`].
    pub startup_command: Option<String>,
    /// Arguments behind `/C`.
    pub extra_args: Vec<String>,
}

/// The text of an optional JSON value, and nothing where there is none.
pub open spec fn member_text(label: Seq<char>, value: Option<Seq<char>>) -> Seq<char> {
    match value {
        Some(value) => label + value,
        None => Seq::empty(),
    }
}

/// The JSON text of an error.
pub open spec fn error_json(code: int, message: Seq<char>) -> Seq<char> {
    "{\"code\":"@ + text::decimal_int(code) + ",\"message\":"@ + json::json_string(message) + "}"@
}

/// The JSON text of an answer.
pub open spec fn response_json(
    version: Seq<char>,
    id: Option<Seq<char>>,
    result: Option<Seq<char>>,
    error: Option<Seq<char>>,
) -> Seq<char> {
    "{\"jsonrpc\":"@ + json::json_string(version) + member_text(",\"id\":"@, id) + member_text(
        ",\"result\":"@,
        result,
    ) + member_text(",\"error\":"@, error) + "}"@
}

/// The text of an answer with a result.
pub open spec fn ok_text(id: Option<Seq<char>>, result: Seq<char>) -> Seq<char> {
    response_json("2.0"@, id, Some(result), None)
}

/// The text of an answer with an error.
pub open spec fn err_text(id: Option<Seq<char>>, code: int, message: Seq<char>) -> Seq<char> {
    response_json("2.0"@, id, None, Some(error_json(code, message)))
}

impl JsonRpcResponse {
    /// The JSON text of this answer.
    pub open spec fn spec_text(self) -> Seq<char> {
        response_json(
            self.jsonrpc@,
            text::text_of(self.id),
            text::text_of(self.result),
            match self.error {
                Some(error) => Some(error_json(error.code as int, error.message@)),
                None => None,
            },
        )
    }

    /// An answer with a result, given by its JSON text.
    pub fn ok(id: Option<String>, result: String) -> (out: Self)
        ensures
            out.jsonrpc@ == "2.0"@,
            out.id == id,
            out.result == Some(result),
            out.error is None,
            out.spec_text() == ok_text(text::text_of(id), result@),
    {
        JsonRpcResponse { jsonrpc: "2.0", id, result: Some(result), error: None }
    }

    /// An answer with an error.
    pub fn err(id: Option<String>, code: i32, message: &str) -> (out: Self)
        ensures
            out.jsonrpc@ == "2.0"@,
            out.id == id,
            out.result is None,
            out.error matches Some(error) && error.code == code && error.message@ == message@,
            out.spec_text() == err_text(text::text_of(id), code as int, message@),
    {
        let error = JsonRpcError { code, message: message.to_owned() };
        JsonRpcResponse { jsonrpc: "2.0", id, result: None, error: Some(error) }
    }

    /// The JSON text of this answer. What is absent has no member.
    pub fn to_json(&self) -> (out: String)
        ensures
            out@ == self.spec_text(),
    {
        let mut out = "{\"jsonrpc\":".to_owned();
        out.append(json::quote(self.jsonrpc).as_str());
        if let Some(id) = &self.id {
            out.append(",\"id\":");
            out.append(id.as_str());
        }
        assert(out@ =~= "{\"jsonrpc\":"@ + json::json_string(self.jsonrpc@) + member_text(
            ",\"id\":"@,
            text::text_of(self.id),
        ));
        if let Some(result) = &self.result {
            out.append(",\"result\":");
            out.append(result.as_str());
        }
        assert(out@ =~= "{\"jsonrpc\":"@ + json::json_string(self.jsonrpc@) + member_text(
            ",\"id\":"@,
            text::text_of(self.id),
        ) + member_text(",\"result\":"@, text::text_of(self.result)));
        if let Some(error) = &self.error {
            out.append(",\"error\":");
            out.append("{\"code\":");
            text::push_decimal_int(&mut out, error.code);
            out.append(",\"message\":");
            out.append(json::quote(error.message.as_str()).as_str());
            out.append("}");
        }
        out.append("}");
        assert(out@ =~= self.spec_text());
        out
    }
}

/// Whether `method` is one of those that the component answers itself.
pub open spec fn is_addin_method(method: Seq<char>) -> bool {
    "addin."@.is_prefix_of(method)
}

impl JsonRpcRequest {
    /// The texts of this request.
    pub open spec fn parts(self) -> (Seq<char>, Option<Seq<char>>, Option<Seq<char>>) {
        (self.method@, text::text_of(self.id), text::text_of(self.params))
    }
}

/// What is kept of a payload that was read as a request, or could not be: a request to a method
/// `addin.*`, and nothing else.
pub open spec fn addin_request_of(read: Option<JsonRpcRequest>) -> Option<JsonRpcRequest> {
    match read {
        Some(req) => if is_addin_method(req.method@) {
            Some(req)
        } else {
            None
        },
        None => None,
    }
}

/// Takes a payload as it was read: as a JSON-RPC request, or `None` where it is none. Returns the
/// request where it is one to a method `addin.*`, else `None`: the payload is for 1C then.
pub fn parse_addin_method(read: Option<JsonRpcRequest>) -> (out: Option<JsonRpcRequest>)
    ensures
        out == addin_request_of(read),
{
    match read {
        Some(req) => if text::starts_with(req.method.as_str(), "addin.") {
            Some(req)
        } else {
            None
        },
        None => None,
    }
}

/// Where a payload goes.
#[derive(Debug)]
pub enum Dispatch {
    /// It is not for the component: 1C gets it.
    NotAddin,
    /// It asks for a process to be started.
    Spawn(JsonRpcRequest),
    /// It asks for a process to be ended.
    Kill(JsonRpcRequest),
    /// It can be answered at once, with this text.
    Answer(String),
}

/// Where a request to a method `addin.*` goes.
pub open spec fn routes_to(
    request: (Seq<char>, Option<Seq<char>>, Option<Seq<char>>),
    out: Dispatch,
) -> bool {
    if request.0 == "addin.spawn"@ {
        out matches Dispatch::Spawn(req) && req.parts() == request
    } else if request.0 == "addin.kill"@ {
        out matches Dispatch::Kill(req) && req.parts() == request
    } else {
        out matches Dispatch::Answer(answer) && answer@ == err_text(
            request.1,
            METHOD_NOT_FOUND as int,
            "method not found: "@ + request.0,
        )
    }
}

/// Says where a request to a method `addin.*` goes. A method that does not exist is answered with an
/// error.
pub fn route(req: JsonRpcRequest) -> (out: Dispatch)
    ensures
        routes_to(req.parts(), out),
{
    proof {
        reveal_strlit("addin.spawn");
        reveal_strlit("addin.kill");
    }
    if text::same(req.method.as_str(), "addin.spawn") {
        Dispatch::Spawn(req)
    } else if text::same(req.method.as_str(), "addin.kill") {
        Dispatch::Kill(req)
    } else {
        let message = "method not found: ".to_owned().concat(req.method.as_str());
        let answer = JsonRpcResponse::err(req.id, METHOD_NOT_FOUND, message.as_str());
        Dispatch::Answer(answer.to_json())
    }
}

/// Where a payload goes that was read as a request, or could not be: a request to a method `addin.*`
/// to its handler, any other payload to 1C.
pub open spec fn dispatches_to(read: Option<JsonRpcRequest>, out: Dispatch) -> bool {
    match addin_request_of(read) {
        Some(req) => routes_to(req.parts(), out),
        None => out is NotAddin,
    }
}

/// Says where a payload goes, from the request as which it was read.
pub fn try_dispatch_addin_method(read: Option<JsonRpcRequest>) -> (out: Dispatch)
    ensures
        dispatches_to(read, out),
{
    match parse_addin_method(read) {
        Some(req) => route(req),
        None => Dispatch::NotAddin,
    }
}

/// The processes that the component has started and that have not ended yet, by their numbers.
pub struct Registry {
    pids: HashSet<u32>,
}

impl View for Registry {
    type V = Set<u32>;

    closed spec fn view(&self) -> Set<u32> {
        self.pids@
    }
}

/// An empty registry.
pub fn new_registry() -> (out: Registry)
    ensures
        out@ == Set::<u32>::empty(),
{
    Registry { pids: HashSet::new() }
}

impl Registry {
    /// Whether a process is in the registry.
    pub fn contains(&self, pid: u32) -> (yes: bool)
        ensures
            yes == self@.contains(pid),
    {
        broadcast use vstd::std_specs::hash::group_hash_axioms;

        self.pids.contains(&pid)
    }

    /// Enters a process.
    pub fn register(&mut self, pid: u32)
        ensures
            final(self)@ == old(self)@.insert(pid),
    {
        broadcast use vstd::std_specs::hash::group_hash_axioms;

        self.pids.insert(pid);
    }

    /// Takes the end of a process: strikes it from the registry and gives the notification for the
    /// manager. A process that is not in the registry changes nothing and gives no notification.
    pub fn child_exited(&mut self, pid: u32, status: ChildStatus) -> (out: Option<String>)
        requires
            status != ChildStatus::Signalled(i32::MIN),
        ensures
            final(self)@ == old(self)@.remove(pid),
            match out {
                Some(note) => old(self)@.contains(pid) && note@ == exit_note(
                    pid as nat,
                    exit_code_of(status),
                ),
                None => !old(self)@.contains(pid),
            },
    {
        broadcast use vstd::std_specs::hash::group_hash_axioms;

        if self.pids.remove(&pid) {
            Some(exit_notification(pid, status))
        } else {
            assert(old(self)@.remove(pid) =~= old(self)@);
            None
        }
    }
}

/// How a process ended.
#[derive(Debug, Clone, Copy, PartialEq, Eq, Structural)]
pub enum ChildStatus {
    /// It ended by itself, with this code where there is one.
    Exited(Option<i32>),
    /// This signal ended it.
    Signalled(i32),
    /// Waiting for it failed.
    WaitFailed,
}

/// The exit code that the manager is told.
pub open spec fn exit_code_of(status: ChildStatus) -> int {
    match status {
        ChildStatus::Exited(Some(code)) => code as int,
        ChildStatus::Exited(None) => 0,
        ChildStatus::Signalled(signal) => -signal,
        ChildStatus::WaitFailed => -1,
    }
}

/// The notification that a process has ended.
pub open spec fn exit_note(pid: nat, exit_code: int) -> Seq<char> {
    "{\"jsonrpc\":\"2.0\",\"method\":\"addin.child_exited\",\"params\":{\"exit_code\":"@
        + text::decimal_int(exit_code) + ",\"pid\":"@ + text::decimal(pid) + "}}"@
}

/// The exit code that the manager is told: the process's own, 0 where it has none, the negated
/// signal where one ended it, -1 where waiting failed.
pub fn exit_code(status: ChildStatus) -> (code: i32)
    requires
        status != ChildStatus::Signalled(i32::MIN),
    ensures
        code == exit_code_of(status),
{
    match status {
        ChildStatus::Exited(Some(code)) => code,
        ChildStatus::Exited(None) => 0,
        ChildStatus::Signalled(signal) => -signal,
        ChildStatus::WaitFailed => -1,
    }
}

/// The notification that a process has ended.
pub fn exit_notification(pid: u32, status: ChildStatus) -> (out: String)
    requires
        status != ChildStatus::Signalled(i32::MIN),
    ensures
        out@ == exit_note(pid as nat, exit_code_of(status)),
{
    let mut out =
        "{\"jsonrpc\":\"2.0\",\"method\":\"addin.child_exited\",\"params\":{\"exit_code\":".to_owned();
    text::push_decimal_int(&mut out, exit_code(status));
    out.append(",\"pid\":");
    text::push_decimal(&mut out, pid as u64);
    out.append("}}");
    out
}

/// What a launch specification is taken from: whether there are parameters, and the text of their
/// member `launch_spec`.
pub open spec fn launch_spec_from(has_params: bool, member: Option<Seq<char>>) -> Result<
    Seq<char>,
    Seq<char>,
> {
    if !has_params {
        Err("params is required"@)
    } else {
        match member {
            Some(spec) => Ok(spec),
            None => Err("params.launch_spec is required"@),
        }
    }
}

/// The text of the launch specification in the parameters of a request, or what is wrong with them.
pub open spec fn launch_spec_of(params: Option<Seq<char>>) -> Result<Seq<char>, Seq<char>> {
    match params {
        Some(params) => launch_spec_from(
            true,
            json::json_member_text(params, "launch_spec"@),
        ),
        None => launch_spec_from(false, None),
    }
}

/// The characters of a text or of a complaint.
pub open spec fn either_chars(r: Result<String, String>) -> Result<Seq<char>, Seq<char>> {
    match r {
        Ok(text) => Ok(text@),
        Err(message) => Err(message@),
    }
}

/// The text of the launch specification, from whether there are parameters and from their member
/// `launch_spec`, or what is wrong with them.
pub fn launch_spec_text(has_params: bool, member: Option<String>) -> (out: Result<String, String>)
    ensures
        either_chars(out) == launch_spec_from(has_params, text::text_of(member)),
{
    if !has_params {
        return Err("params is required".to_owned());
    }
    match member {
        Some(spec) => Ok(spec),
        None => Err("params.launch_spec is required".to_owned()),
    }
}

/// Takes the text of the launch specification from a request, or says what is wrong with it.
pub fn extract_launch_spec(req: &JsonRpcRequest) -> (out: Result<String, String>)
    ensures
        either_chars(out) == launch_spec_of(text::text_of(req.params)),
{
    match &req.params {
        Some(params) => launch_spec_text(true, json::member(params.as_str(), "launch_spec")),
        None => launch_spec_text(false, None),
    }
}

/// The arguments that a process is started with: its own, then `/C` with the startup command where
/// there is one, then the further ones.
pub open spec fn arguments_of(
    args: Seq<Seq<char>>,
    startup_command: Option<Seq<char>>,
    extra_args: Seq<Seq<char>>,
) -> Seq<Seq<char>> {
    args + match startup_command {
        Some(command) => seq!["/C"@ + command],
        None => Seq::empty(),
    } + extra_args
}

fn push_all(out: &mut Vec<String>, more: &Vec<String>)
    ensures
        final(out).deep_view() == old(out).deep_view() + more.deep_view(),
{
    let ghost before = out.deep_view();
    let mut i: usize = 0;
    assert(out.deep_view() =~= before + more.deep_view().take(0));
    while i < more.len()
        invariant
            i <= more.len(),
            out.deep_view() == before + more.deep_view().take(i as int),
        decreases more.len() - i,
    {
        let ghost so_far = out.deep_view();
        out.push(more[i].clone());
        assert(out.deep_view() =~= so_far.push(more[i as int]@));
        i = i + 1;
        assert(out.deep_view() =~= before + more.deep_view().take(i as int));
    }
    assert(more.deep_view().take(i as int) =~= more.deep_view());
}

/// The arguments that a process is started with.
pub fn command_line(spec: &LaunchSpec) -> (out: Vec<String>)
    ensures
        out.deep_view() == arguments_of(
            spec.args.deep_view(),
            text::text_of(spec.startup_command),
            spec.extra_args.deep_view(),
        ),
{
    let mut out: Vec<String> = Vec::new();
    push_all(&mut out, &spec.args);
    assert(out.deep_view() =~= spec.args.deep_view());
    if let Some(command) = &spec.startup_command {
        let ghost so_far = out.deep_view();
        out.push("/C".to_owned().concat(command.as_str()));
        assert(out.deep_view() =~= so_far.push("/C"@ + command@));
    }
    push_all(&mut out, &spec.extra_args);
    assert(out.deep_view() =~= arguments_of(
        spec.args.deep_view(),
        text::text_of(spec.startup_command),
        spec.extra_args.deep_view(),
    ));
    out
}

/// What to do for a request to start a process.
#[derive(Debug)]
pub enum SpawnAction {
    /// Read this text as a [`LaunchSpec`], and hand what comes of it to [`handle_launch_spec`].
    ReadSpec { id: Option<String>, spec_text: String },
    /// Start this process with these arguments, which are those of [`command_line`], and hand what
    /// comes of it to [`handle_spawned`].
    Launch { id: Option<String>, spec: LaunchSpec, args: Vec<String> },
    /// Send this answer; there is nothing more to do.
    Answer(String),
}

/// Takes a request to start a process. Parameters without a launch specification are answered with
/// an error.
pub fn handle_spawn(req: JsonRpcRequest) -> (out: SpawnAction)
    ensures
        match launch_spec_of(text::text_of(req.params)) {
            Ok(text) => out matches SpawnAction::ReadSpec { id, spec_text } && id == req.id
                && spec_text@ == text,
            Err(message) => out matches SpawnAction::Answer(answer) && answer@ == err_text(
                text::text_of(req.id),
                INVALID_PARAMS as int,
                message,
            ),
        },
{
    match extract_launch_spec(&req) {
        Ok(spec_text) => SpawnAction::ReadSpec { id: req.id, spec_text },
        Err(message) => SpawnAction::Answer(
            JsonRpcResponse::err(req.id, INVALID_PARAMS, message.as_str()).to_json(),
        ),
    }
}

/// Takes the launch specification as it was read, or the reader's complaint. A complaint is answered
/// with an error. A process gets the arguments of [`command_line`].
pub fn handle_launch_spec(id: Option<String>, parsed: Result<LaunchSpec, String>) -> (out:
    SpawnAction)
    ensures
        match parsed {
            Ok(spec) => out matches SpawnAction::Launch { id: asked, spec: launched, args } && asked
                == id && launched == spec && args.deep_view() == arguments_of(
                spec.args.deep_view(),
                text::text_of(spec.startup_command),
                spec.extra_args.deep_view(),
            ),
            Err(complaint) => out matches SpawnAction::Answer(answer) && answer@ == err_text(
                text::text_of(id),
                INVALID_PARAMS as int,
                "invalid launch_spec: "@ + complaint@,
            ),
        },
{
    match parsed {
        Ok(spec) => {
            let args: Vec<String> = command_line(&spec);
            SpawnAction::Launch { id, spec, args }
        },
        Err(complaint) => {
            let message = "invalid launch_spec: ".to_owned().concat(complaint.as_str());
            SpawnAction::Answer(
                JsonRpcResponse::err(id, INVALID_PARAMS, message.as_str()).to_json(),
            )
        },
    }
}

/// What came of starting a process.
#[derive(Debug)]
pub enum SpawnResult {
    /// It runs under this number.
    Running(u32),
    /// It has ended already and has no number.
    Gone,
    /// It could not be started, for this reason.
    Failed(String),
}

/// The answer to a request to start a process, for what came of it.
pub open spec fn spawned_answer(id: Option<Seq<char>>, result: SpawnResult) -> Seq<char> {
    match result {
        SpawnResult::Running(pid) => ok_text(id, "{\"pid\":"@ + text::decimal(pid as nat) + "}"@),
        SpawnResult::Gone => err_text(id, PROCESS_FAILED as int, "process exited immediately"@),
        SpawnResult::Failed(reason) => err_text(
            id,
            PROCESS_FAILED as int,
            "spawn failed: "@ + reason@,
        ),
    }
}

/// Takes what came of starting a process: enters a running one into the registry, and gives the
/// answer to send. A running process is to be waited for; its end goes to
/// [`Registry::child_exited`].
pub fn handle_spawned(id: Option<String>, result: SpawnResult, registry: &mut Registry) -> (answer:
    String)
    ensures
        answer@ == spawned_answer(text::text_of(id), result),
        final(registry)@ == match result {
            SpawnResult::Running(pid) => old(registry)@.insert(pid),
            _ => old(registry)@,
        },
{
    match result {
        SpawnResult::Running(pid) => {
            registry.register(pid);
            let mut body = "{\"pid\":".to_owned();
            text::push_decimal(&mut body, pid as u64);
            body.append("}");
            JsonRpcResponse::ok(id, body).to_json()
        },
        SpawnResult::Gone => JsonRpcResponse::err(
            id,
            PROCESS_FAILED,
            "process exited immediately",
        ).to_json(),
        SpawnResult::Failed(reason) => {
            let message = "spawn failed: ".to_owned().concat(reason.as_str());
            JsonRpcResponse::err(id, PROCESS_FAILED, message.as_str()).to_json()
        },
    }
}

/// The number that a request names: the lower 32 bits of the integer `pid`; `None` where there is no
/// such integer.
pub open spec fn kill_pid_of(pid: Option<u64>) -> Option<u32> {
    match pid {
        Some(pid) => Some((pid % 0x1_0000_0000) as u32),
        None => None,
    }
}

/// The integer `pid` in the parameters of a request.
pub open spec fn params_pid(params: Seq<char>) -> Option<u64> {
    match json::json_member_text(params, "pid"@) {
        Some(value) => json::json_as_u64(value),
        None => None,
    }
}

/// The boolean `force` in the parameters of a request.
pub open spec fn params_force(params: Seq<char>) -> Option<bool> {
    match json::json_member_text(params, "force"@) {
        Some(value) => json::json_as_bool(value),
        None => None,
    }
}

/// What a request to end a process asks for, from the integer `pid` and the boolean `force` that its
/// parameters hold, or what is wrong with it. Without `force` a process gets time to end by itself.
pub open spec fn kill_request_of(
    has_params: bool,
    pid: Option<u64>,
    force: Option<bool>,
) -> Result<(u32, bool), Seq<char>> {
    if !has_params {
        Err("params is required"@)
    } else {
        match kill_pid_of(pid) {
            Some(pid) => Ok(
                (
                    pid,
                    match force {
                        Some(force) => force,
                        None => false,
                    },
                ),
            ),
            None => Err("params.pid must be a non-negative integer"@),
        }
    }
}

/// What a request to end a process asks for, from its parameters.
pub open spec fn kill_params_of(params: Option<Seq<char>>) -> Result<(u32, bool), Seq<char>> {
    match params {
        Some(params) => kill_request_of(true, params_pid(params), params_force(params)),
        None => kill_request_of(false, None, None),
    }
}

/// A result with the characters of its error.
pub open spec fn error_chars(r: Result<(u32, bool), String>) -> Result<(u32, bool), Seq<char>> {
    match r {
        Ok(v) => Ok(v),
        Err(message) => Err(message@),
    }
}

/// What a request to end a process asks for, from what its parameters hold.
pub fn kill_request(has_params: bool, pid: Option<u64>, force: Option<bool>) -> (out: Result<
    (u32, bool),
    String,
>)
    ensures
        error_chars(out) == kill_request_of(has_params, pid, force),
{
    if !has_params {
        return Err("params is required".to_owned());
    }
    match pid {
        Some(pid) => {
            let low: u32 = (pid % 0x1_0000_0000) as u32;
            Ok(
                (
                    low,
                    match force {
                        Some(force) => force,
                        None => false,
                    },
                ),
            )
        },
        None => Err("params.pid must be a non-negative integer".to_owned()),
    }
}

/// Takes the process's number and `force` from a request, or says what is wrong with it.
pub fn extract_kill_params(req: &JsonRpcRequest) -> (out: Result<(u32, bool), String>)
    ensures
        error_chars(out) == kill_params_of(text::text_of(req.params)),
{
    match &req.params {
        Some(params) => {
            let pid: Option<u64> = match json::member(params.as_str(), "pid") {
                Some(value) => json::as_u64(value.as_str()),
                None => None,
            };
            let force: Option<bool> = match json::member(params.as_str(), "force") {
                Some(value) => json::as_bool(value.as_str()),
                None => None,
            };
            kill_request(true, pid, force)
        },
        None => kill_request(false, None, None),
    }
}

/// What to do for a request to end a process.
#[derive(Debug)]
pub enum KillAction {
    /// End this process by a [`KillSequence`], and hand what comes of it to [`handle_killed`].
    Kill { id: Option<String>, pid: u32, force: bool },
    /// Send this answer; there is nothing more to do.
    Answer(String),
}

/// The complaint that a process is not in the registry.
pub open spec fn unknown_pid_message(pid: nat) -> Seq<char> {
    "pid "@ + text::decimal(pid) + " is not in supervisor registry"@
}

/// What is done for a request to end a process, given what it asks for.
pub open spec fn kill_decision(
    id: Option<String>,
    asked: Result<(u32, bool), Seq<char>>,
    registered: Set<u32>,
    out: KillAction,
) -> bool {
    match asked {
        Ok((pid, force)) => if registered.contains(pid) {
            out == (KillAction::Kill { id, pid, force })
        } else {
            out matches KillAction::Answer(answer) && answer@ == err_text(
                text::text_of(id),
                UNKNOWN_PID as int,
                unknown_pid_message(pid as nat),
            )
        },
        Err(message) => out matches KillAction::Answer(answer) && answer@ == err_text(
            text::text_of(id),
            INVALID_PARAMS as int,
            message,
        ),
    }
}

/// Decides on a request to end a process, given what it asks for. A process that is not in the
/// registry is never touched.
pub fn decide_kill(
    id: Option<String>,
    asked: Result<(u32, bool), String>,
    registry: &Registry,
) -> (out: KillAction)
    ensures
        kill_decision(id, error_chars(asked), registry@, out),
{
    match asked {
        Ok((pid, force)) => if registry.contains(pid) {
            KillAction::Kill { id, pid, force }
        } else {
            let mut message = "pid ".to_owned();
            text::push_decimal(&mut message, pid as u64);
            message.append(" is not in supervisor registry");
            KillAction::Answer(JsonRpcResponse::err(id, UNKNOWN_PID, message.as_str()).to_json())
        },
        Err(message) => KillAction::Answer(
            JsonRpcResponse::err(id, INVALID_PARAMS, message.as_str()).to_json(),
        ),
    }
}

/// Takes a request to end a process.
pub fn handle_kill(req: JsonRpcRequest, registry: &Registry) -> (out: KillAction)
    ensures
        kill_decision(req.id, kill_params_of(text::text_of(req.params)), registry@, out),
{
    let asked = extract_kill_params(&req);
    decide_kill(req.id, asked, registry)
}

/// Takes what came of ending a process and gives the answer to send.
pub fn handle_killed(id: Option<String>, result: Result<(), String>) -> (answer: String)
    ensures
        answer@ == match result {
            Ok(_) => ok_text(text::text_of(id), "{\"ok\":true}"@),
            Err(message) => err_text(text::text_of(id), PROCESS_FAILED as int, message@),
        },
{
    match result {
        Ok(_) => JsonRpcResponse::ok(id, "{\"ok\":true}".to_owned()).to_json(),
        Err(message) => JsonRpcResponse::err(id, PROCESS_FAILED, message.as_str()).to_json(),
    }
}

/// A signal that ends a process.
#[derive(Debug, Clone, Copy, PartialEq, Eq, Structural)]
pub enum KillSignal {
    /// It asks the process to end.
    Terminate,
    /// It ends the process at once.
    Kill,
}

/// Where a [`KillSequence`] stands.
#[derive(Debug, Clone, Copy, PartialEq, Eq, Structural)]
pub enum KillPhase {
    /// The signal is being sent.
    Sending(KillSignal),
    /// The process has time to end by itself.
    Grace,
    /// It is being looked whether the process still runs.
    Probing,
    /// It is over.
    Over,
}

/// What happened while a process was being ended.
#[derive(Debug)]
pub enum KillEvent {
    /// The signal was sent.
    Sent,
    /// The signal could not be sent, for this reason.
    SendFailed(String),
    /// The time to end by itself is over.
    GraceOver,
    /// Whether the process still runs.
    Probed { alive: bool },
}

/// What to do next to end a process.
#[derive(Debug)]
pub enum KillCommand {
    /// Send this signal.
    Send(KillSignal),
    /// Wait this long, in milliseconds.
    Wait(u64),
    /// Look whether the process still runs.
    Probe,
    /// It is over, with this result.
    Finish(Result<(), String>),
}

/// The steps by which a process is ended: at once by a kill signal, or by a terminate signal, time to
/// end, and a kill signal where the process still runs then.
#[derive(Debug, Clone, Copy, PartialEq, Eq, Structural)]
pub struct KillSequence {
    pub phase: KillPhase,
}

/// The complaint that a signal could not be sent.
pub open spec fn send_failed_message(signal: KillSignal, reason: Seq<char>) -> Seq<char> {
    match signal {
        KillSignal::Terminate => "SIGTERM failed: "@ + reason,
        KillSignal::Kill => "SIGKILL failed: "@ + reason,
    }
}

impl KillSequence {
    /// Whether `event` can happen in this phase.
    pub open spec fn can_happen(self, event: KillEvent) -> bool {
        match event {
            KillEvent::Sent => self.phase is Sending,
            KillEvent::SendFailed(_) => self.phase is Sending,
            KillEvent::GraceOver => self.phase == KillPhase::Grace,
            KillEvent::Probed { .. } => self.phase == KillPhase::Probing,
        }
    }

    /// Where `event` leads.
    pub open spec fn after(self, event: KillEvent) -> KillPhase {
        match event {
            KillEvent::Sent => if self.phase == KillPhase::Sending(KillSignal::Terminate) {
                KillPhase::Grace
            } else {
                KillPhase::Over
            },
            KillEvent::SendFailed(_) => KillPhase::Over,
            KillEvent::GraceOver => KillPhase::Probing,
            KillEvent::Probed { alive } => if alive {
                KillPhase::Sending(KillSignal::Kill)
            } else {
                KillPhase::Over
            },
        }
    }

    /// Whether `command` is what `event` calls for.
    pub open spec fn calls_for(self, event: KillEvent, command: KillCommand) -> bool {
        match self.after(event) {
            KillPhase::Sending(signal) => command == KillCommand::Send(signal),
            KillPhase::Grace => command == KillCommand::Wait(KILL_GRACE_MS),
            KillPhase::Probing => command == KillCommand::Probe,
            KillPhase::Over => match event {
                KillEvent::SendFailed(reason) => command matches KillCommand::Finish(Err(message))
                    && message@ == send_failed_message(self.phase->Sending_0, reason@),
                _ => command matches KillCommand::Finish(Ok(_)),
            },
        }
    }

    /// Begins to end a process, and says what to do first.
    pub fn start(force: bool) -> (out: (KillSequence, KillCommand))
        ensures
            ({
                let first = if force {
                    KillSignal::Kill
                } else {
                    KillSignal::Terminate
                };
                out == (KillSequence { phase: KillPhase::Sending(first) }, KillCommand::Send(first))
            }),
    {
        let first = if force {
            KillSignal::Kill
        } else {
            KillSignal::Terminate
        };
        (KillSequence { phase: KillPhase::Sending(first) }, KillCommand::Send(first))
    }

    /// Whether `event` can happen in this phase.
    pub fn expects(&self, event: &KillEvent) -> (yes: bool)
        ensures
            yes == self.can_happen(*event),
    {
        match event {
            KillEvent::Sent | KillEvent::SendFailed(_) => match self.phase {
                KillPhase::Sending(_) => true,
                _ => false,
            },
            KillEvent::GraceOver => self.phase == KillPhase::Grace,
            KillEvent::Probed { .. } => self.phase == KillPhase::Probing,
        }
    }

    /// Takes an event that can happen in this phase, and says what to do next.
    pub fn step(&mut self, event: KillEvent) -> (command: KillCommand)
        requires
            old(self).can_happen(event),
        ensures
            final(self).phase == old(self).after(event),
            old(self).calls_for(event, command),
    {
        match event {
            KillEvent::Sent => if self.phase == KillPhase::Sending(KillSignal::Terminate) {
                self.phase = KillPhase::Grace;
                KillCommand::Wait(KILL_GRACE_MS)
            } else {
                self.phase = KillPhase::Over;
                KillCommand::Finish(Ok(()))
            },
            KillEvent::SendFailed(reason) => {
                let label = if self.phase == KillPhase::Sending(KillSignal::Terminate) {
                    "SIGTERM failed: "
                } else {
                    "SIGKILL failed: "
                };
                self.phase = KillPhase::Over;
                KillCommand::Finish(Err(label.to_owned().concat(reason.as_str())))
            },
            KillEvent::GraceOver => {
                self.phase = KillPhase::Probing;
                KillCommand::Probe
            },
            KillEvent::Probed { alive } => if alive {
                self.phase = KillPhase::Sending(KillSignal::Kill);
                KillCommand::Send(KillSignal::Kill)
            } else {
                self.phase = KillPhase::Over;
                KillCommand::Finish(Ok(()))
            },
        }
    }
}

/// Only a process of the registry is ever signalled, whatever a request asks for.
pub proof fn law_only_registered_processes_are_killed(
    id: Option<String>,
    asked: Result<(u32, bool), Seq<char>>,
    registered: Set<u32>,
    out: KillAction,
)
    requires
        kill_decision(id, asked, registered, out),
    ensures
        out matches KillAction::Kill { pid, .. } ==> registered.contains(pid),
{
}

/// A process can be killed from its start, which enters it into the registry, until its end, which
/// strikes it: a request before that leads to the kill, one after it is answered that the process is
/// not known.
pub proof fn law_kill_follows_life(
    id: Option<String>,
    registered: Set<u32>,
    pid: u32,
    force: bool,
    alive: KillAction,
    ended: KillAction,
)
    requires
        kill_decision(id, Ok((pid, force)), registered.insert(pid), alive),
        kill_decision(id, Ok((pid, force)), registered.insert(pid).remove(pid), ended),
    ensures
        alive == (KillAction::Kill { id, pid, force }),
        ended matches KillAction::Answer(answer) && answer@ == err_text(
            text::text_of(id),
            UNKNOWN_PID as int,
            unknown_pid_message(pid as nat),
        ),
{
}

/// What is done for a request to end one process does not depend on the start or the end of another.
pub proof fn law_lives_are_independent(
    id: Option<String>,
    registered: Set<u32>,
    pid: u32,
    other: u32,
    force: bool,
    out: KillAction,
)
    requires
        pid != other,
    ensures
        kill_decision(id, Ok((pid, force)), registered.insert(other), out) == kill_decision(
            id,
            Ok((pid, force)),
            registered,
            out,
        ),
        kill_decision(id, Ok((pid, force)), registered.remove(other), out) == kill_decision(
            id,
            Ok((pid, force)),
            registered,
            out,
        ),
{
}

/// Where the kill is forced nothing is waited for: one signal, and it is over.
pub proof fn law_forced_kill_does_not_wait(event: KillEvent)
    requires
        (KillSequence { phase: KillPhase::Sending(KillSignal::Kill) }).can_happen(event),
    ensures
        (KillSequence { phase: KillPhase::Sending(KillSignal::Kill) }).after(event)
            == KillPhase::Over,
{
}

/// The kill signal follows the terminate signal only after the time to end, and only for a process
/// that still runs.
pub proof fn law_kill_signal_needs_a_living_process(sequence: KillSequence, event: KillEvent)
    requires
        sequence.can_happen(event),
        sequence.after(event) == KillPhase::Sending(KillSignal::Kill),
    ensures
        sequence.phase == KillPhase::Probing,
        event == (KillEvent::Probed { alive: true }),
{
}

/// How many steps a sequence has left at most.
pub open spec fn steps_left(phase: KillPhase) -> nat {
    match phase {
        KillPhase::Sending(KillSignal::Terminate) => 4,
        KillPhase::Grace => 3,
        KillPhase::Probing => 2,
        KillPhase::Sending(KillSignal::Kill) => 1,
        KillPhase::Over => 0,
    }
}

/// Every sequence comes to an end: each event leaves fewer steps.
pub proof fn law_kill_sequence_ends(sequence: KillSequence, event: KillEvent)
    requires
        sequence.can_happen(event),
    ensures
        steps_left(sequence.after(event)) < steps_left(sequence.phase),
{
}

/// A payload is taken exactly where it is a request to a method `addin.*`: any other is left for 1C,
/// whatever else it holds.
pub proof fn law_addin_methods_are_taken(read: Option<JsonRpcRequest>, out: Dispatch)
    requires
        dispatches_to(read, out),
    ensures
        out is NotAddin <==> !(read matches Some(req) && is_addin_method(req.method@)),
{
}

/// The arguments of a process begin with all of the specification's own, each once and in order, and
/// end with all of the further ones. Between the two stands the startup command behind `/C` where
/// there is one, and nothing else.
pub proof fn law_arguments_are_all_passed_on(
    args: Seq<Seq<char>>,
    startup_command: Option<Seq<char>>,
    extra_args: Seq<Seq<char>>,
)
    ensures
        ({
            let all = arguments_of(args, startup_command, extra_args);
            let middle: int = if startup_command is Some {
                1
            } else {
                0
            };
            &&& all.len() == args.len() + middle + extra_args.len()
            &&& forall|i: int| 0 <= i < args.len() ==> #[trigger] all[i] == args[i]
            &&& forall|i: int|
                0 <= i < extra_args.len() ==> all[args.len() + middle + i]
                    == #[trigger] extra_args[i]
            &&& startup_command matches Some(command) ==> all[args.len() as int] == seq!['/', 'C']
                + command
        }),
{
    reveal_strlit("/C");
    assert("/C"@ =~= seq!['/', 'C']);
    let all = arguments_of(args, startup_command, extra_args);
    let middle: int = if startup_command is Some {
        1
    } else {
        0
    };
    assert forall|i: int| 0 <= i < extra_args.len() implies all[args.len() + middle + i]
        == #[trigger] extra_args[i] by {}
}

/// A request that names a process and says whether to force asks for exactly that; one that does not
/// say so asks not to force. Of a number of more than 32 bits the lower 32 count.
pub proof fn law_kill_request_asks_for_what_it_says(pid: u64, force: bool)
    ensures
        pid < 0x1_0000_0000 ==> kill_request_of(true, Some(pid), Some(force)) == Ok::<
            (u32, bool),
            Seq<char>,
        >((pid as u32, force)),
        pid < 0x1_0000_0000 ==> kill_request_of(true, Some(pid), None) == Ok::<
            (u32, bool),
            Seq<char>,
        >((pid as u32, false)),
        kill_request_of(true, Some(pid), Some(force)) matches Ok((low, forced)) && forced == force
            && exists|high: int| pid == #[trigger] (high * 0x1_0000_0000) + low,
        kill_request_of(true, Some(pid), None) matches Ok((low, forced)) && !forced && exists|
            high: int,
        | pid == #[trigger] (high * 0x1_0000_0000) + low,
        kill_request_of(true, None, Some(force)) == Err::<(u32, bool), Seq<char>>(
            "params.pid must be a non-negative integer"@,
        ),
        kill_request_of(true, None, None) == Err::<(u32, bool), Seq<char>>(
            "params.pid must be a non-negative integer"@,
        ),
        kill_request_of(false, Some(pid), Some(force)) == Err::<(u32, bool), Seq<char>>(
            "params is required"@,
        ),
        kill_request_of(false, None, None) == Err::<(u32, bool), Seq<char>>(
            "params is required"@,
        ),
{
    let high: int = (pid / 0x1_0000_0000) as int;
    assert(pid == high * 0x1_0000_0000 + (pid % 0x1_0000_0000));
}

/// What parameters ask for is what their members `pid` and `force` hold: a numeral names the process,
/// `true` or `false` says whether to force, and any other `force`, or none, does not.
pub proof fn law_kill_parameters_are_their_members(
    params: Seq<char>,
    pid_text: Seq<char>,
    pid: u32,
)
    requires
        json::json_member_text(params, "pid"@) == Some(pid_text),
        json::bare(pid_text) == text::decimal(pid as nat),
    ensures
        ({
            let member = json::json_member_text(params, "force"@);
            let forced = member is Some && json::bare(member->0) == "true"@;
            kill_params_of(Some(params)) == Ok::<(u32, bool), Seq<char>>((pid, forced))
        }),
        kill_params_of(None) == Err::<(u32, bool), Seq<char>>("params is required"@),
{
    json::law_numeral_reads_back(pid_text, pid as u64);
    law_kill_request_asks_for_what_it_says(pid as u64, true);
    law_kill_request_asks_for_what_it_says(pid as u64, false);
}

/// Parameters without a numeral as `pid` name no process.
pub proof fn law_kill_needs_a_number(params: Seq<char>)
    requires
        forall|value: Seq<char>, n: u64|
            json::json_member_text(params, "pid"@) == Some(value) ==> #[trigger] json::bare(value)
                != #[trigger] text::decimal(n as nat),
    ensures
        kill_params_of(Some(params)) == Err::<(u32, bool), Seq<char>>(
            "params.pid must be a non-negative integer"@,
        ),
{
    if json::json_member_text(params, "pid"@) is Some {
        let value = json::json_member_text(params, "pid"@)->0;
        if exists|n: u64| json::bare(value) == #[trigger] text::decimal(n as nat) {
            let n = choose|n: u64| json::bare(value) == #[trigger] text::decimal(n as nat);
            assert(json::bare(value) != text::decimal(n as nat));
        }
    }
    assert(params_pid(params) is None);
}

/// What is done for a request to end a process: one that cannot be used is answered with its
/// complaint, one for a process of the registry leads to exactly that process being ended as asked,
/// and one for any other is answered that the process is not there.
pub proof fn law_kill_is_decided_by_the_registry(
    id: Option<String>,
    pid: u32,
    force: bool,
    complaint: Seq<char>,
    registered: Set<u32>,
    used: KillAction,
    refused: KillAction,
)
    requires
        kill_decision(id, Ok((pid, force)), registered, used),
        kill_decision(id, Err(complaint), registered, refused),
    ensures
        registered.contains(pid) <==> used is Kill,
        used is Kill ==> used == (KillAction::Kill { id, pid, force }),
        used matches KillAction::Answer(answer) ==> answer@ == err_text(
            text::text_of(id),
            -32001,
            "pid "@ + text::decimal(pid as nat) + " is not in supervisor registry"@,
        ),
        refused matches KillAction::Answer(answer) && answer@ == err_text(
            text::text_of(id),
            -32602,
            complaint,
        ),
{
}

/// The first signal is the kill signal only where force is asked for; how a signal failed is told
/// with all of the reason, whatever that is, and ends the sequence.
pub proof fn law_failed_signal_is_told(reason: String, command: KillCommand, signal: KillSignal)
    requires
        (KillSequence { phase: KillPhase::Sending(signal) }).calls_for(
            KillEvent::SendFailed(reason),
            command,
        ),
    ensures
        command matches KillCommand::Finish(Err(message)) && message@ == match signal {
            KillSignal::Terminate => "SIGTERM failed: "@ + reason@,
            KillSignal::Kill => "SIGKILL failed: "@ + reason@,
        },
        (KillSequence { phase: KillPhase::Sending(signal) }).after(KillEvent::SendFailed(reason))
            == KillPhase::Over,
        (KillSequence { phase: KillPhase::Sending(signal) }).can_happen(
            KillEvent::SendFailed(reason),
        ),
{
}

/// The steps by which a process is ended, one after the other, and what each calls for.
pub proof fn law_steps_of_a_kill(command: KillCommand, event: KillEvent, sequence: KillSequence)
    requires
        sequence.can_happen(event),
        sequence.calls_for(event, command),
        !(event is SendFailed),
    ensures
        match (sequence.phase, event) {
            (KillPhase::Sending(KillSignal::Terminate), KillEvent::Sent) => command
                == KillCommand::Wait(2000) && sequence.after(event) == KillPhase::Grace,
            (KillPhase::Sending(KillSignal::Kill), KillEvent::Sent) => (command matches KillCommand::Finish(
                Ok(_),
            )) && sequence.after(event) == KillPhase::Over,
            (KillPhase::Grace, KillEvent::GraceOver) => command == KillCommand::Probe
                && sequence.after(event) == KillPhase::Probing,
            (KillPhase::Probing, KillEvent::Probed { alive }) => if alive {
                command == KillCommand::Send(KillSignal::Kill) && sequence.after(event)
                    == KillPhase::Sending(KillSignal::Kill)
            } else {
                (command matches KillCommand::Finish(Ok(_))) && sequence.after(event)
                    == KillPhase::Over
            },
            _ => false,
        },
{
}

/// An answer with a result is an object with the version, the request's identifier where there is
/// one, and the result, each as it was given.
pub proof fn law_result_answer_is_written(id: Seq<char>, result: Seq<char>)
    ensures
        ok_text(Some(id), result) == "{\"jsonrpc\":\"2.0\",\"id\":"@ + id + ",\"result\":"@ + result
            + "}"@,
        ok_text(None, result) == "{\"jsonrpc\":\"2.0\",\"result\":"@ + result + "}"@,
{
    lemma_version();
    reveal_strlit("{\"jsonrpc\":\"2.0\",\"id\":");
    reveal_strlit("{\"jsonrpc\":\"2.0\",\"result\":");
    reveal_strlit("{\"jsonrpc\":\"2.0\"");
    reveal_strlit(",\"id\":");
    reveal_strlit(",\"result\":");
    assert("{\"jsonrpc\":\"2.0\",\"id\":"@ =~= "{\"jsonrpc\":\"2.0\""@ + ",\"id\":"@);
    assert("{\"jsonrpc\":\"2.0\",\"result\":"@ =~= "{\"jsonrpc\":\"2.0\""@ + ",\"result\":"@);
    assert(ok_text(Some(id), result) =~= "{\"jsonrpc\":\"2.0\",\"id\":"@ + id + ",\"result\":"@
        + result + "}"@);
    assert(ok_text(None, result) =~= "{\"jsonrpc\":\"2.0\",\"result\":"@ + result + "}"@);
}

proof fn lemma_version()
    ensures
        "{\"jsonrpc\":"@ + json::json_string("2.0"@) == "{\"jsonrpc\":\"2.0\""@,
{
    reveal_strlit("{\"jsonrpc\":");
    reveal_strlit("{\"jsonrpc\":\"2.0\"");
    reveal_strlit("2.0");
    json::lemma_plain_string("2.0"@);
    assert("{\"jsonrpc\":"@ + json::json_string("2.0"@) =~= "{\"jsonrpc\":\"2.0\""@);
}

/// An answer with an error is an object with the version, the request's identifier where there is
/// one, and an error of the code's numeral and the message's literal. The numeral stands for the
/// code, and reading the literal gives the message back, whatever it is.
pub proof fn law_error_answer_is_written(id: Seq<char>, code: int, message: Seq<char>)
    ensures
        err_text(Some(id), code, message) == "{\"jsonrpc\":\"2.0\",\"id\":"@ + id
            + ",\"error\":{\"code\":"@ + text::decimal_int(code) + ",\"message\":"@
            + json::json_string(message) + "}}"@,
        err_text(None, code, message) == "{\"jsonrpc\":\"2.0\",\"error\":{\"code\":"@
            + text::decimal_int(code) + ",\"message\":"@ + json::json_string(message) + "}}"@,
        code >= 0 ==> text::numeral_value(text::decimal_int(code)) == code,
        code < 0 ==> text::decimal_int(code)[0] == '-' && text::numeral_value(
            text::decimal_int(code).skip(1),
        ) == -code,
        json::read_string(json::json_string(message)) == Some((message, Seq::<char>::empty())),
{
    lemma_version();
    text::law_signed_numeral_stands_for_its_number(code);
    json::law_json_string_reads_back(message, Seq::empty());
    assert(json::json_string(message) + Seq::<char>::empty() =~= json::json_string(message));
    lemma_error_labels();
    assert(err_text(Some(id), code, message) =~= "{\"jsonrpc\":\"2.0\",\"id\":"@ + id
        + ",\"error\":{\"code\":"@ + text::decimal_int(code) + ",\"message\":"@ + json::json_string(
        message,
    ) + "}}"@);
    assert(err_text(None, code, message) =~= "{\"jsonrpc\":\"2.0\",\"error\":{\"code\":"@
        + text::decimal_int(code) + ",\"message\":"@ + json::json_string(message) + "}}"@);
}

proof fn lemma_error_labels()
    ensures
        "{\"jsonrpc\":\"2.0\",\"id\":"@ == "{\"jsonrpc\":\"2.0\""@ + ",\"id\":"@,
        ",\"error\":{\"code\":"@ == ",\"error\":"@ + "{\"code\":"@,
        "{\"jsonrpc\":\"2.0\",\"error\":{\"code\":"@ == "{\"jsonrpc\":\"2.0\""@ + (",\"error\":"@
            + "{\"code\":"@),
        "}}"@ == "}"@ + "}"@,
{
    reveal_strlit("{\"jsonrpc\":\"2.0\"");
    reveal_strlit("{\"jsonrpc\":\"2.0\",\"id\":");
    reveal_strlit("{\"jsonrpc\":\"2.0\",\"error\":{\"code\":");
    reveal_strlit(",\"id\":");
    reveal_strlit(",\"error\":");
    reveal_strlit("{\"code\":");
    reveal_strlit(",\"error\":{\"code\":");
    reveal_strlit("}");
    reveal_strlit("}}");
    assert("{\"jsonrpc\":\"2.0\",\"id\":"@ =~= "{\"jsonrpc\":\"2.0\""@ + ",\"id\":"@);
    assert(",\"error\":{\"code\":"@ =~= ",\"error\":"@ + "{\"code\":"@);
    assert("{\"jsonrpc\":\"2.0\",\"error\":{\"code\":"@ =~= "{\"jsonrpc\":\"2.0\""@ + (
    ",\"error\":"@ + "{\"code\":"@));
    assert("}}"@ =~= "}"@ + "}"@);
}

/// A method is answered without 1C exactly where its name is `addin.` and something, or nothing.
pub proof fn law_addin_prefix(rest: Seq<char>, method: Seq<char>)
    ensures
        is_addin_method("addin."@ + rest),
        is_addin_method(method) <==> method.len() >= 6 && method[0] == 'a' && method[1] == 'd'
            && method[2] == 'd' && method[3] == 'i' && method[4] == 'n' && method[5] == '.',
{
    reveal_strlit("addin.");
    assert(("addin."@ + rest).subrange(0, 6) =~= "addin."@);
    if method.len() >= 6 && method[0] == 'a' && method[1] == 'd' && method[2] == 'd' && method[3]
        == 'i' && method[4] == 'n' && method[5] == '.' {
        assert(method.subrange(0, 6) =~= "addin."@);
    }
    if is_addin_method(method) {
        assert forall|i: int| 0 <= i < 6 implies method[i] == #[trigger] "addin."@[i] by {
            assert(method.subrange(0, 6)[i] == method[i]);
        }
        assert(method[0] == "addin."@[0] && method[1] == "addin."@[1] && method[2] == "addin."@[2]
            && method[3] == "addin."@[3] && method[4] == "addin."@[4] && method[5]
            == "addin."@[5]);
    }
}

/// Where a payload goes: a request to start or to end a process goes on as it was read, with its
/// identifier and its parameters; any other `addin.*` is answered that there is no such method, by
/// its name; all else is for 1C.
pub proof fn law_requests_go_where_they_belong(req: JsonRpcRequest, out: Dispatch, none: Dispatch)
    requires
        dispatches_to(Some(req), out),
        dispatches_to(None, none),
    ensures
        none is NotAddin,
        req.method@ == "addin.spawn"@ ==> (out matches Dispatch::Spawn(passed) && passed.method@
            == req.method@ && text::text_of(passed.id) == text::text_of(req.id) && text::text_of(
            passed.params,
        ) == text::text_of(req.params)),
        req.method@ == "addin.kill"@ ==> (out matches Dispatch::Kill(passed) && passed.method@
            == req.method@ && text::text_of(passed.id) == text::text_of(req.id) && text::text_of(
            passed.params,
        ) == text::text_of(req.params)),
        is_addin_method(req.method@) && req.method@ != "addin.spawn"@ && req.method@
            != "addin.kill"@ ==> (out matches Dispatch::Answer(answer) && answer@ == err_text(
            text::text_of(req.id),
            -32601,
            "method not found: "@ + req.method@,
        )),
        !is_addin_method(req.method@) ==> out is NotAddin,
{
    reveal_strlit("addin.");
    reveal_strlit("addin.spawn");
    reveal_strlit("addin.kill");
    assert("addin.spawn"@.subrange(0, 6) =~= "addin."@);
    assert("addin.kill"@.subrange(0, 6) =~= "addin."@);
}

/// What is kept of a request is the request itself, whole.
pub proof fn law_addin_request_is_kept_whole(req: JsonRpcRequest)
    ensures
        addin_request_of(Some(req)) == if is_addin_method(req.method@) {
            Some(req)
        } else {
            None
        },
        addin_request_of(None) is None,
        req.parts() == (req.method@, text::text_of(req.id), text::text_of(req.params)),
{
}

/// The manager is told how a process ended: its own code whatever that is, the signal that ended it
/// as a negative number, 0 where it has no code, and -1 where waiting failed.
pub proof fn law_exit_codes_tell_how_it_ended(code: i32, signal: i32)
    ensures
        exit_code_of(ChildStatus::Exited(Some(code))) == code,
        exit_code_of(ChildStatus::Signalled(signal)) == -signal,
        exit_code_of(ChildStatus::Exited(None)) == 0,
        exit_code_of(ChildStatus::WaitFailed) == -1,
{
}

/// The notification of an end holds two numerals, which stand for the exit code and for the process.
pub proof fn law_exit_note_holds_its_numbers(pid: nat, code: int)
    ensures
        exit_note(pid, code)
            == "{\"jsonrpc\":\"2.0\",\"method\":\"addin.child_exited\",\"params\":{\"exit_code\":"@
            + text::decimal_int(code) + ",\"pid\":"@ + text::decimal(pid) + "}}"@,
        text::numeral_value(text::decimal(pid)) == pid,
        code >= 0 ==> text::numeral_value(text::decimal_int(code)) == code,
        code < 0 ==> text::decimal_int(code)[0] == '-' && text::numeral_value(
            text::decimal_int(code).skip(1),
        ) == -code,
{
    text::law_numeral_stands_for_its_number(pid);
    text::law_signed_numeral_stands_for_its_number(code);
}

/// A process that runs is answered by its number, one that is gone or could not be started by an
/// error, the latter with all of the reason.
pub proof fn law_start_is_answered(id: Option<Seq<char>>, pid: u32, reason: String)
    ensures
        exists|process: Seq<char>|
            #![trigger text::numeral_value(process)]
            text::numeral_value(process) == pid && spawned_answer(id, SpawnResult::Running(pid))
                == ok_text(id, "{\"pid\":"@ + process + "}"@),
        spawned_answer(id, SpawnResult::Gone) == err_text(
            id,
            -32000,
            "process exited immediately"@,
        ),
        spawned_answer(id, SpawnResult::Failed(reason)) == err_text(
            id,
            -32000,
            "spawn failed: "@ + reason@,
        ),
{
    text::law_numeral_stands_for_its_number(pid as nat);
    assert(text::numeral_value(text::decimal(pid as nat)) == pid);
}

/// The launch specification is the member `launch_spec` of the parameters, as it stands there.
pub proof fn law_launch_spec_is_the_member(params: Seq<char>, member: Seq<char>)
    ensures
        launch_spec_from(true, Some(member)) == Ok::<Seq<char>, Seq<char>>(member),
        launch_spec_from(true, None) == Err::<Seq<char>, Seq<char>>(
            "params.launch_spec is required"@,
        ),
        launch_spec_from(false, Some(member)) == Err::<Seq<char>, Seq<char>>(
            "params is required"@,
        ),
        launch_spec_of(None) == Err::<Seq<char>, Seq<char>>("params is required"@),
        json::json_member_text(params, "launch_spec"@) == Some(member) ==> launch_spec_of(
            Some(params),
        ) == Ok::<Seq<char>, Seq<char>>(member),
        json::json_member_text(params, "launch_spec"@) is None ==> launch_spec_of(Some(params))
            == Err::<Seq<char>, Seq<char>>("params.launch_spec is required"@),
{
}

/// The characters of a result are those of its text or of its complaint.
pub proof fn law_results_keep_their_texts(text: String, asked: (u32, bool))
    ensures
        either_chars(Ok(text)) == Ok::<Seq<char>, Seq<char>>(text@),
        either_chars(Err(text)) == Err::<Seq<char>, Seq<char>>(text@),
        error_chars(Ok(asked)) == Ok::<(u32, bool), Seq<char>>(asked),
        error_chars(Err(text)) == Err::<(u32, bool), Seq<char>>(text@),
{
}

/// A response is written with each of its parts where it has them.
pub proof fn law_response_holds_its_parts(response: JsonRpcResponse)
    requires
        response.jsonrpc@ == "2.0"@,
    ensures
        response.result matches Some(result) ==> response.error is None ==> response.spec_text()
            == ok_text(text::text_of(response.id), result@),
        response.error matches Some(error) ==> response.result is None ==> response.spec_text()
            == err_text(text::text_of(response.id), error.code as int, error.message@),
{
}

} // verus!
