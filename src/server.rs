//! The tool dispatcher and request processing: registry checks first, then
//! the engine, then a textual result.

use vstd::prelude::*;
use vstd::string::*;
use crate::audit::AuditEntry;
use crate::mcp::{
    has_member, int_member, integer_member, is_request_shape, json_shape, member_of, parsed_shape, decodes_to,
    string_member, text_member, tool_params_ok, JsonShape,
    is_catalogue, is_error_response, is_initialize_result, is_parse_error, is_tool_text, not_initialized_message, parse_request, route_of, tool_names, JsonRpcRequest,
    JsonRpcResponse, McpHandler, McpMethod, McpResult, RequestId, Route, ToolCallParams, ToolCallResult,
    INTERNAL_ERROR, INVALID_PARAMS, METHOD_NOT_FOUND, is_json_text,
};
use crate::panes::{fresh_record, lists_records, pane_id_for, PaneManager, PaneRecord, PaneState, PaneStatus};
use crate::parse::{contains_seq, occurs_at};
use crate::tmux::{
    capture_words, create_pane_commands, ran_in_order, discard_output, kill_window_words, result_view, run_in_order,
    send_keys_words, unit_view, without_output, failure_message, interpret, is_engine_failure, list_windows_words, listing_windows, scoped_window, target_of,
    window_views, CommandExecutor, CommandOutput, TmuxSession, WindowView,
};

verus! {

/// Captured text offered to the host for optional full-capture storage.
pub struct CaptureOffer {
    pub pane_id: String,
    pub content: String,
}

/// Everything one server instance owns.
pub struct AppState<E: CommandExecutor> {
    /// Handshake state.
    pub mcp_handler: McpHandler,
    /// The pane registry.
    pub pane_manager: PaneManager,
    /// The multiplexer session.
    pub tmux_session: TmuxSession<E>,
    /// Audit records not yet handed to the audit sink.
    pub audit_queue: Vec<AuditEntry>,
    /// Captures not yet offered to the audit sink.
    pub capture_queue: Vec<CaptureOffer>,
}

impl<E: CommandExecutor> AppState<E> {
    /// The state's invariant.
    pub open spec fn wf(&self) -> bool {
        self.pane_manager.wf()
    }

    /// A fresh server state around `executor`, for the process `pid`.
    pub fn new(executor: E, pid: u32) -> (r: Self)
        ensures
            r.wf(),
            !r.mcp_handler.ready(),
            r.pane_manager@ == Map::<Seq<char>, PaneRecord>::empty(),
            r.pane_manager.next_number() == 1,
            !r.tmux_session.created(),
    {
        AppState {
            mcp_handler: McpHandler::new(),
            pane_manager: PaneManager::new(),
            tmux_session: TmuxSession::with_executor(executor, pid),
            audit_queue: Vec::new(),
            capture_queue: Vec::new(),
        }
    }
}

/// Whether `after` is `before` with one record of `tool` added when `done`,
/// and unchanged otherwise.
pub open spec fn logged(before: Seq<AuditEntry>, after: Seq<AuditEntry>, tool: Seq<char>, done: bool) -> bool {
    if done {
        after.len() == before.len() + 1 && after.drop_last() == before && after.last().tool@ == tool
    } else {
        after == before
    }
}

/// Whether two registries hold the same panes, statuses aside.
pub open spec fn same_panes(a: Map<Seq<char>, PaneRecord>, b: Map<Seq<char>, PaneRecord>) -> bool {
    &&& a.dom() == b.dom()
    &&& forall|k: Seq<char>| #[trigger] a.contains_key(k) ==> a[k].id == b[k].id && a[k].name == b[k].name
        && a[k].command == b[k].command
}

/// The status a window's dead flag stands for.
pub open spec fn status_for(is_dead: bool) -> PaneStatus {
    if is_dead {
        PaneStatus::Exited
    } else {
        PaneStatus::Running
    }
}

/// `m` with the status of pane `id`, if registered, set from a dead flag.
pub open spec fn refresh_pane(m: Map<Seq<char>, PaneRecord>, id: Seq<char>, is_dead: bool) -> Map<
    Seq<char>,
    PaneRecord,
> {
    if m.contains_key(id) {
        m.insert(id, PaneRecord { status: status_for(is_dead), ..m[id] })
    } else {
        m
    }
}

/// `m` with the status of the pane named like window `w` set from `w`.
pub open spec fn refresh_one(m: Map<Seq<char>, PaneRecord>, w: WindowView) -> Map<Seq<char>, PaneRecord> {
    refresh_pane(m, w.name, w.is_dead)
}

/// `m` refreshed from each window of `ws`, in order.
pub open spec fn refresh_all(m: Map<Seq<char>, PaneRecord>, ws: Seq<WindowView>) -> Map<Seq<char>, PaneRecord>
    decreases ws.len(),
{
    if ws.len() == 0 {
        m
    } else {
        refresh_one(refresh_all(m, ws.drop_last()), ws.last())
    }
}

/// The registry after a listing that answered `listed`: refreshed from its
/// windows, or unchanged when the listing failed.
pub open spec fn after_listing(
    m: Map<Seq<char>, PaneRecord>,
    listed: Result<Seq<WindowView>, crate::tmux::TmuxFailure>,
) -> Map<Seq<char>, PaneRecord> {
    match listed {
        Ok(ws) => refresh_all(m, ws),
        Err(_) => m,
    }
}

/// The registry after a query for pane `id`'s window that answered `found`.
pub open spec fn after_query(
    m: Map<Seq<char>, PaneRecord>,
    id: Seq<char>,
    found: Result<WindowView, crate::tmux::TmuxFailure>,
) -> Map<Seq<char>, PaneRecord> {
    match found {
        Ok(w) => refresh_pane(m, id, w.is_dead),
        Err(_) => m,
    }
}

/// A status update keeps the same panes.
pub proof fn lemma_update_keeps_panes(m: Map<Seq<char>, PaneRecord>, k: Seq<char>, status: PaneStatus)
    requires
        m.contains_key(k),
    ensures
        same_panes(m.insert(k, PaneRecord { status, ..m[k] }), m),
{
    assert(m.insert(k, PaneRecord { status, ..m[k] }).dom() =~= m.dom());
}

pub proof fn lemma_same_panes_trans(
    a: Map<Seq<char>, PaneRecord>,
    b: Map<Seq<char>, PaneRecord>,
    c: Map<Seq<char>, PaneRecord>,
)
    requires
        same_panes(a, b),
        same_panes(b, c),
    ensures
        same_panes(a, c),
{
    assert forall|k: Seq<char>| #[trigger] a.contains_key(k) implies a[k].id == c[k].id && a[k].name == c[k].name
        && a[k].command == c[k].command by {
        assert(b.contains_key(k));
    }
}

pub open spec fn missing_command_message() -> Seq<char> {
    "Missing required parameter 'command'. Provide the command to run in the pane."@
}

pub open spec fn missing_pane_id_message() -> Seq<char> {
    "Missing required parameter 'pane_id'. Use tmux_list_panes to see active panes."@
}

pub open spec fn missing_keys_message() -> Seq<char> {
    "Missing required parameter 'keys'. Provide the keystrokes to send."@
}

pub open spec fn exhausted_message() -> Seq<char> {
    "No pane identifiers are left to hand out."@
}

pub open spec fn not_found_message(pane_id: Seq<char>) -> Seq<char> {
    "Pane '"@ + pane_id + "' not found. Use tmux_list_panes to see active panes."@
}

pub open spec fn created_message(display: Seq<char>, id: Seq<char>, command: Seq<char>) -> Seq<char> {
    "Created pane '"@ + display + "' (id: "@ + id + ") running: "@ + command
}

pub open spec fn no_panes_message() -> Seq<char> {
    "No active panes. Use tmux_create_pane to create one."@
}

pub open spec fn unknown_tool_message(name: Seq<char>) -> Seq<char> {
    "Unknown tool '"@ + name
        + "'. Available tools: tmux_create_pane, tmux_send_keys, tmux_capture_pane, tmux_kill_pane, tmux_list_panes"@
}

/// The number of lines a capture asks for: the given count clamped to
/// 1..=1000, or 100 when none is given.
pub open spec fn lines_for(lines: Option<i64>) -> i32 {
    match lines {
        None => 100,
        Some(n) => if n < 1 {
            1
        } else if n > 1000 {
            1000
        } else {
            n as i32
        },
    }
}

/// The number of lines a capture asks for.
pub fn effective_lines(lines: Option<i64>) -> (r: i32)
    ensures
        r == lines_for(lines),
        1 <= r <= 1000,
{
    match lines {
        None => 100,
        Some(n) => if n < 1 {
            1
        } else if n > 1000 {
            1000
        } else {
            n as i32
        },
    }
}

/// The pretty-printed JSON array of objects whose string members are the
/// given key/value pairs.
pub uninterp spec fn pretty_objects(rows: Seq<Seq<(Seq<char>, Seq<char>)>>) -> Seq<char>;

/// The plain view of a row of key/value pairs.
pub open spec fn row_view(row: Vec<(String, String)>) -> Seq<(Seq<char>, Seq<char>)> {
    row@.map_values(|kv: (String, String)| (kv.0@, kv.1@))
}

/// The plain view of rows of key/value pairs.
pub open spec fn rows_view(rows: Seq<Vec<(String, String)>>) -> Seq<Seq<(Seq<char>, Seq<char>)>> {
    rows.map_values(|row: Vec<(String, String)>| row_view(row))
}

/// The rows that list the panes of `s`, in order.
pub open spec fn pane_rows(s: Seq<PaneState>) -> Seq<Seq<(Seq<char>, Seq<char>)>> {
    s.map_values(|p: PaneState| pane_row(p@))
}

/// Relies on `serde_json::to_string_pretty` of an array of objects with
/// string members; the text depends on the pairs alone.
#[verifier::external_body]
fn pretty_print(rows: &Vec<Vec<(String, String)>>) -> (r: String)
    ensures
        r@ == pretty_objects(rows_view(rows@)),
{
    let list: Vec<serde_json::Value> = rows.iter().map(
        |row| serde_json::Value::Object(row.iter().map(|(k, v)| (k.clone(), serde_json::Value::String(v.clone()))).collect()),
    ).collect();
    serde_json::to_string_pretty(&list).unwrap_or_default()
}

/// The members that list a pane: id, name, status and command.
pub open spec fn pane_row(p: PaneRecord) -> Seq<(Seq<char>, Seq<char>)> {
    seq![("id"@, p.id), ("name"@, p.name), ("status"@, p.status.spec_name()), ("command"@, p.command)]
}

/// The listing of `s`: a pretty-printed JSON array with one object per pane.
pub open spec fn listing_text(s: Seq<PaneState>) -> Seq<char> {
    pretty_objects(pane_rows(s))
}

fn pair(k: &str, v: &str) -> (r: (String, String))
    ensures
        r.0@ == k@,
        r.1@ == v@,
{
    (String::from_str(k), String::from_str(v))
}

/// Renders panes as a pretty-printed JSON array of
/// `{id, name, status, command}` objects.
pub fn render_listing(panes: &[PaneState]) -> (r: String)
    ensures
        r@ == listing_text(panes@),
{
    let mut rows: Vec<Vec<(String, String)>> = Vec::new();
    let mut i: usize = 0;
    while i < panes.len()
        invariant
            i <= panes@.len(),
            rows_view(rows@) == pane_rows(panes@.subrange(0, i as int)),
        decreases panes@.len() - i,
    {
        let p = &panes[i];
        let row = vec![
            pair("id", p.id.as_str()),
            pair("name", p.name.as_str()),
            pair("status", p.status.as_str()),
            pair("command", p.command.as_str()),
        ];
        let ghost before = rows@;
        proof {
            assert(row_view(row) =~= pane_row(p@));
        }
        rows.push(row);
        proof {
            assert(rows@ == before.push(row));
            let lhs = rows_view(rows@);
            let rhs = pane_rows(panes@.subrange(0, i + 1));
            assert(rows_view(before).len() == before.len());
            assert forall|j: int| 0 <= j < lhs.len() implies lhs[j] == rhs[j] by {
                assert(lhs[j] == row_view(rows@[j]));
                if j < i {
                    assert(rows@[j] == before[j]);
                    assert(rows_view(before)[j] == pane_rows(panes@.subrange(0, i as int))[j]);
                }
            }
            assert(lhs =~= rhs);
        }
        i = i + 1;
    }
    proof {
        assert(panes@.subrange(0, i as int) =~= panes@);
    }
    pretty_print(&rows)
}

fn status_of(is_dead: bool) -> (r: PaneStatus)
    ensures
        r == status_for(is_dead),
{
    if is_dead {
        PaneStatus::Exited
    } else {
        PaneStatus::Running
    }
}

fn not_found(pane_id: &str) -> (r: ToolCallResult)
    ensures
        is_tool_text(r, not_found_message(pane_id@), true),
{
    let mut t = String::from_str("Pane '");
    t.append(pane_id);
    t.append("' not found. Use tmux_list_panes to see active panes.");
    ToolCallResult::error(t.as_str())
}

fn engine_error(prefix: &str, e: &crate::tmux::TmuxError) -> (r: ToolCallResult)
    ensures
        is_tool_text(r, prefix@ + failure_message(e@), true),
{
    let mut t = String::from_str(prefix);
    t.append(e.message().as_str());
    ToolCallResult::error(t.as_str())
}

/// The text of an optional string.
pub open spec fn opt_view(s: Option<&str>) -> Option<Seq<char>> {
    match s {
        Some(x) => Some(x@),
        None => None,
    }
}

/// What `handle_create_pane` gives and leaves behind.
pub open spec fn create_outcome<E: CommandExecutor>(old: AppState<E>, new: AppState<E>, command: Option<Seq<char>>, name: Option<Seq<char>>, r: ToolCallResult) -> bool {
    &&& logged(old.audit_queue@, new.audit_queue@, "create_pane"@, !r.is_error)
    &&& new.capture_queue == old.capture_queue
    &&& new.mcp_handler == old.mcp_handler
    &&& new.tmux_session.name() == old.tmux_session.name()
    &&& match command {
        None => is_tool_text(r, missing_command_message(), true) && new.pane_manager@
            == old.pane_manager@ && new.pane_manager.next_number()
            == old.pane_manager.next_number() && new.tmux_session == old.tmux_session,
        Some(c) => if old.pane_manager.next_number() >= u64::MAX {
            is_tool_text(r, exhausted_message(), true) && new.pane_manager@ == old.pane_manager@
                && new.pane_manager.next_number() == old.pane_manager.next_number()
                && new.tmux_session == old.tmux_session
        } else {
            let id = pane_id_for(old.pane_manager.next_number());
            let display = match name {
                Some(n) => n,
                None => id,
            };
            &&& new.pane_manager.next_number() == old.pane_manager.next_number() + 1
            &&& !old.pane_manager@.contains_key(id)
            &&& exists|os: Seq<Result<CommandOutput, String>>| os.len() == create_pane_commands(
                old.tmux_session.name(),
                id,
                c,
                old.tmux_session.created(),
            ).len() && new.tmux_session.issued() == old.tmux_session.issued() + ran_in_order(
                old.tmux_session.name(),
                create_pane_commands(old.tmux_session.name(), id, c, old.tmux_session.created()),
                os,
            ) && match #[trigger] run_in_order(
                old.tmux_session.name(),
                create_pane_commands(old.tmux_session.name(), id, c, old.tmux_session.created()),
                os,
            ) {
                Ok(_) => {
                    &&& new.pane_manager@ == old.pane_manager@.insert(
                        id,
                        fresh_record(id, c, name),
                    )
                    &&& new.tmux_session.created()
                    &&& is_tool_text(r, created_message(display, id, c), false)
                },
                Err(e) => {
                    &&& new.pane_manager@ == old.pane_manager@
                    &&& is_tool_text(r, "Failed to create pane: "@ + failure_message(e), true)
                },
            }
        }
    }
}

/// What `handle_send_keys` gives and leaves behind.
pub open spec fn send_outcome<E: CommandExecutor>(old: AppState<E>, new: AppState<E>, pane_id: Option<Seq<char>>, keys: Option<Seq<char>>, r: ToolCallResult) -> bool {
    &&& logged(old.audit_queue@, new.audit_queue@, "send_keys"@, !r.is_error)
    &&& new.capture_queue == old.capture_queue
    &&& new.pane_manager == old.pane_manager
    &&& new.mcp_handler == old.mcp_handler
    &&& new.tmux_session.same_session(&old.tmux_session)
    &&& match (pane_id, keys) {
        (None, _) => is_tool_text(r, missing_pane_id_message(), true) && new.tmux_session == old.tmux_session,
        (Some(_), None) => is_tool_text(r, missing_keys_message(), true) && new.tmux_session == old.tmux_session,
        (Some(p), Some(k)) => if !old.pane_manager@.contains_key(p) {
            is_tool_text(r, not_found_message(p), true) && new.tmux_session == old.tmux_session
        } else {
            new.tmux_session.issued() == old.tmux_session.issued().push(
                send_keys_words(target_of(old.tmux_session.name(), p), k),
            ) && exists|o: Result<CommandOutput, String>| match discard_output(
                #[trigger] interpret(
                    old.tmux_session.name(),
                    send_keys_words(target_of(old.tmux_session.name(), p), k),
                    o,
                ),
            ) {
                Ok(_) => is_tool_text(r, "Sent keys to pane '"@ + p + "'"@, false),
                Err(e) => is_tool_text(r, "Failed to send keys: "@ + failure_message(e), true),
            }
        }
    }
}

/// What `handle_capture_pane` gives and leaves behind.
pub open spec fn capture_outcome<E: CommandExecutor>(old: AppState<E>, new: AppState<E>, pane_id: Option<Seq<char>>, lines: Option<i64>, r: ToolCallResult) -> bool {
    &&& logged(old.audit_queue@, new.audit_queue@, "capture_pane"@, !r.is_error)
    &&& !r.is_error ==> new.capture_queue@.len() == old.capture_queue@.len() + 1
    &&& r.is_error ==> new.capture_queue == old.capture_queue
    &&& new.mcp_handler == old.mcp_handler
    &&& new.tmux_session.same_session(&old.tmux_session)
    &&& new.pane_manager.next_number() == old.pane_manager.next_number()
    &&& same_panes(new.pane_manager@, old.pane_manager@)
    &&& match pane_id {
        None => is_tool_text(r, missing_pane_id_message(), true) && new.pane_manager@
            == old.pane_manager@ && new.tmux_session == old.tmux_session,
        Some(p) => if !old.pane_manager@.contains_key(p) {
            is_tool_text(r, not_found_message(p), true) && new.pane_manager@
                == old.pane_manager@ && new.tmux_session == old.tmux_session
        } else {
            exists|o: Result<CommandOutput, String>| match #[trigger] interpret(
                old.tmux_session.name(),
                capture_words(target_of(old.tmux_session.name(), p), lines_for(lines) as int),
                o,
            ) {
                Ok(out) => {
                    &&& is_tool_text(r, out, false)
                    &&& new.tmux_session.issued() == old.tmux_session.issued().push(
                        capture_words(target_of(old.tmux_session.name(), p), lines_for(lines) as int),
                    ).push(list_windows_words(target_of(old.tmux_session.name(), p)))
                    &&& exists|o2: Result<CommandOutput, String>| new.pane_manager@ == after_query(
                        old.pane_manager@,
                        p,
                        scoped_window(
                            p,
                            #[trigger] interpret(
                                old.tmux_session.name(),
                                list_windows_words(target_of(old.tmux_session.name(), p)),
                                o2,
                            ),
                        ),
                    )
                },
                Err(e) => {
                    &&& is_tool_text(r, "Failed to capture pane: "@ + failure_message(e), true)
                    &&& new.pane_manager@ == old.pane_manager@
                    &&& new.tmux_session.issued() == old.tmux_session.issued().push(
                        capture_words(target_of(old.tmux_session.name(), p), lines_for(lines) as int),
                    )
                },
            }
        }
    }
}

/// What `handle_kill_pane` gives and leaves behind.
pub open spec fn kill_outcome<E: CommandExecutor>(old: AppState<E>, new: AppState<E>, pane_id: Option<Seq<char>>, r: ToolCallResult) -> bool {
    &&& logged(old.audit_queue@, new.audit_queue@, "kill_pane"@, !r.is_error)
    &&& new.capture_queue == old.capture_queue
    &&& new.mcp_handler == old.mcp_handler
    &&& new.tmux_session.same_session(&old.tmux_session)
    &&& new.pane_manager.next_number() == old.pane_manager.next_number()
    &&& match pane_id {
        None => is_tool_text(r, missing_pane_id_message(), true) && new.pane_manager@
            == old.pane_manager@ && new.tmux_session == old.tmux_session,
        Some(p) => if !old.pane_manager@.contains_key(p) {
            is_tool_text(r, not_found_message(p), true) && new.pane_manager@
                == old.pane_manager@ && new.tmux_session == old.tmux_session
        } else {
            new.tmux_session.issued() == old.tmux_session.issued().push(
                kill_window_words(target_of(old.tmux_session.name(), p)),
            ) && exists|o: Result<CommandOutput, String>| match discard_output(
                #[trigger] interpret(
                    old.tmux_session.name(),
                    kill_window_words(target_of(old.tmux_session.name(), p)),
                    o,
                ),
            ) {
                Ok(_) => new.pane_manager@ == old.pane_manager@.remove(p) && is_tool_text(
                    r,
                    "Killed pane '"@ + p + "'"@,
                    false,
                ),
                Err(e) => new.pane_manager@ == old.pane_manager@ && is_tool_text(
                    r,
                    "Failed to kill pane: "@ + failure_message(e),
                    true,
                ),
            }
        }
    }
}

/// What `handle_list_panes` gives and leaves behind.
pub open spec fn list_outcome<E: CommandExecutor>(old: AppState<E>, new: AppState<E>, r: ToolCallResult) -> bool {
    &&& logged(old.audit_queue@, new.audit_queue@, "list_panes"@, true)
    &&& new.capture_queue == old.capture_queue
    &&& new.mcp_handler == old.mcp_handler
    &&& new.tmux_session.same_session(&old.tmux_session)
    &&& new.tmux_session.issued() == if old.tmux_session.created() {
        old.tmux_session.issued().push(list_windows_words(old.tmux_session.name()))
    } else {
        old.tmux_session.issued()
    }
    &&& new.pane_manager.next_number() == old.pane_manager.next_number()
    &&& same_panes(new.pane_manager@, old.pane_manager@)
    &&& !old.tmux_session.created() ==> new.pane_manager@ == old.pane_manager@
    &&& old.tmux_session.created() ==> exists|o: Result<CommandOutput, String>| new.pane_manager@
        == after_listing(
        old.pane_manager@,
        listing_windows(interpret(old.tmux_session.name(), list_windows_words(old.tmux_session.name()), o))
    )
    &&& old.pane_manager@.len() == 0 ==> is_tool_text(r, no_panes_message(), false)
    &&& old.pane_manager@.len() > 0 ==> exists|s: Seq<PaneState>|
        lists_records(s, new.pane_manager@) && is_tool_text(r, listing_text(s), false)
}

/// `tmux_create_pane`: registers a pane, then creates it in the session;
/// when the engine fails the registration is rolled back.
pub fn handle_create_pane<E: CommandExecutor>(
    state: &mut AppState<E>,
    command: Option<&str>,
    name: Option<&str>,
) -> (r: ToolCallResult)
    requires
        old(state).wf(),
    ensures
        final(state).wf(),
        create_outcome(*old(state), *final(state), opt_view(command), opt_view(name), r),
{
    let command = match command {
        Some(c) => c,
        None => {
            return ToolCallResult::error(
                "Missing required parameter 'command'. Provide the command to run in the pane.",
            );
        },
    };
    if !state.pane_manager.can_generate() {
        return ToolCallResult::error("No pane identifiers are left to hand out.");
    }
    let ghost before = state.pane_manager@;
    let pane_id = state.pane_manager.create_pane(command, name);
    let ghost sname = state.tmux_session.name();
    let ghost cmds = create_pane_commands(sname, pane_id@, command@, state.tmux_session.created());
    let made = state.tmux_session.create_pane(command, pane_id.as_str());
    let ghost os = choose|os: Seq<Result<CommandOutput, String>>| os.len() == cmds.len() && unit_view(
        without_output(made),
    ) == run_in_order(sname, cmds, os) && state.tmux_session.issued() == old(state).tmux_session.issued()
        + ran_in_order(sname, cmds, os);
    match made {
        Ok(_) => {
            state.audit_queue.push(AuditEntry::create_pane(pane_id.as_str(), command, name));
            proof {
                assert(state.audit_queue@.drop_last() =~= old(state).audit_queue@);
            }
            let display = match name {
                Some(n) => n,
                None => pane_id.as_str(),
            };
            let mut t = String::from_str("Created pane '");
            t.append(display);
            t.append("' (id: ");
            t.append(pane_id.as_str());
            t.append(") running: ");
            t.append(command);
            proof {
                assert(t@ =~= created_message(display@, pane_id@, command@));
            }
            ToolCallResult::success(t.as_str())
        },
        Err(e) => {
            state.pane_manager.remove(pane_id.as_str());
            proof {
                assert(state.pane_manager@ =~= before);
            }
            engine_error("Failed to create pane: ", &e)
        },
    }
}

/// `tmux_send_keys`: sends keys to a registered pane.
pub fn handle_send_keys<E: CommandExecutor>(
    state: &mut AppState<E>,
    pane_id: Option<&str>,
    keys: Option<&str>,
) -> (r: ToolCallResult)
    requires
        old(state).wf(),
    ensures
        final(state).wf(),
        send_outcome(*old(state), *final(state), opt_view(pane_id), opt_view(keys), r),
{
    let pane_id = match pane_id {
        Some(p) => p,
        None => {
            return ToolCallResult::error(
                "Missing required parameter 'pane_id'. Use tmux_list_panes to see active panes.",
            );
        },
    };
    let keys = match keys {
        Some(k) => k,
        None => {
            return ToolCallResult::error("Missing required parameter 'keys'. Provide the keystrokes to send.");
        },
    };
    if !state.pane_manager.contains(pane_id) {
        return not_found(pane_id);
    }
    let sent = state.tmux_session.send_keys(pane_id, keys);
    let ghost o = choose|o: Result<CommandOutput, String>| unit_view(sent) == discard_output(
        interpret(state.tmux_session.name(), send_keys_words(target_of(state.tmux_session.name(), pane_id@), keys@), o),
    );
    match sent {
        Ok(()) => {
            state.audit_queue.push(AuditEntry::send_keys(pane_id, keys));
            proof {
                assert(state.audit_queue@.drop_last() =~= old(state).audit_queue@);
            }
            let mut t = String::from_str("Sent keys to pane '");
            t.append(pane_id);
            t.append("'");
            ToolCallResult::success(t.as_str())
        },
        Err(e) => engine_error("Failed to send keys: ", &e),
    }
}

/// `tmux_capture_pane`: the pane's recent text; on success the pane's
/// status is refreshed when the window can be queried.
pub fn handle_capture_pane<E: CommandExecutor>(
    state: &mut AppState<E>,
    pane_id: Option<&str>,
    lines: Option<i64>,
) -> (r: ToolCallResult)
    requires
        old(state).wf(),
    ensures
        final(state).wf(),
        capture_outcome(*old(state), *final(state), opt_view(pane_id), lines, r),
{
    let pane_id = match pane_id {
        Some(p) => p,
        None => {
            return ToolCallResult::error(
                "Missing required parameter 'pane_id'. Use tmux_list_panes to see active panes.",
            );
        },
    };
    let lines = effective_lines(lines);
    if !state.pane_manager.contains(pane_id) {
        return not_found(pane_id);
    }
    let captured = state.tmux_session.capture_pane(pane_id, lines);
    let ghost o = choose|o: Result<CommandOutput, String>| result_view(captured) == interpret(
        state.tmux_session.name(),
        capture_words(target_of(state.tmux_session.name(), pane_id@), lines as int),
        o,
    );
    match captured {
        Ok(output) => {
            let output_bytes = output.as_str().len();
            state.audit_queue.push(AuditEntry::capture_pane(pane_id, lines, output_bytes));
            proof {
                assert(state.audit_queue@.drop_last() =~= old(state).audit_queue@);
            }
            state.capture_queue.push(CaptureOffer { pane_id: pane_id.to_owned(), content: output.clone() });
            let ghost before = state.pane_manager@;
            let found = state.tmux_session.get_window_info(pane_id);
            match &found {
                Ok(info) => {
                    let st = status_of(info.is_dead);
                    state.pane_manager.update_status(pane_id, st);
                    proof {
                        lemma_update_keeps_panes(before, pane_id@, st);
                        assert(state.pane_manager@ == after_query(before, pane_id@, crate::tmux::window_view(found)));
                    }
                },
                Err(_) => {},
            }
            proof {
                assert(same_panes(state.pane_manager@, before));
                assert(state.pane_manager@ == after_query(before, pane_id@, crate::tmux::window_view(found)));
            }
            ToolCallResult::success(output.as_str())
        },
        Err(e) => engine_error("Failed to capture pane: ", &e),
    }
}

/// `tmux_kill_pane`: destroys a registered pane, then deregisters it.
pub fn handle_kill_pane<E: CommandExecutor>(state: &mut AppState<E>, pane_id: Option<&str>) -> (r: ToolCallResult)
    requires
        old(state).wf(),
    ensures
        final(state).wf(),
        kill_outcome(*old(state), *final(state), opt_view(pane_id), r),
{
    let pane_id = match pane_id {
        Some(p) => p,
        None => {
            return ToolCallResult::error(
                "Missing required parameter 'pane_id'. Use tmux_list_panes to see active panes.",
            );
        },
    };
    if !state.pane_manager.contains(pane_id) {
        return not_found(pane_id);
    }
    let killed = state.tmux_session.kill_pane(pane_id);
    let ghost o = choose|o: Result<CommandOutput, String>| unit_view(killed) == discard_output(
        interpret(state.tmux_session.name(), kill_window_words(target_of(state.tmux_session.name(), pane_id@)), o),
    );
    match killed {
        Ok(()) => {
            state.pane_manager.remove(pane_id);
            state.audit_queue.push(AuditEntry::kill_pane(pane_id));
            proof {
                assert(state.audit_queue@.drop_last() =~= old(state).audit_queue@);
            }
            let mut t = String::from_str("Killed pane '");
            t.append(pane_id);
            t.append("'");
            ToolCallResult::success(t.as_str())
        },
        Err(e) => engine_error("Failed to kill pane: ", &e),
    }
}

/// `tmux_list_panes`: refreshes statuses from the session's windows (an
/// enumeration failure keeps the last known ones), then lists every pane.
pub fn handle_list_panes<E: CommandExecutor>(state: &mut AppState<E>) -> (r: ToolCallResult)
    requires
        old(state).wf(),
    ensures
        final(state).wf(),
        list_outcome(*old(state), *final(state), r),
{
    let listed = state.tmux_session.list_windows();
    let ghost session_after = state.tmux_session;
    let ghost start = state.pane_manager@;
    match &listed {
        Ok(windows) => {
            let mut i: usize = 0;
            while i < windows.len()
                invariant
                    state.wf(),
                    i <= windows@.len(),
                    state.pane_manager.next_number() == old(state).pane_manager.next_number(),
                    same_panes(state.pane_manager@, start),
                    start == old(state).pane_manager@,
                    state.pane_manager@ == refresh_all(start, window_views(windows@).subrange(0, i as int)),
                    state.audit_queue == old(state).audit_queue,
                    state.capture_queue == old(state).capture_queue,
                    state.mcp_handler == old(state).mcp_handler,
                    state.tmux_session == session_after,
                decreases windows@.len() - i,
            {
                let ghost before = state.pane_manager@;
                let st = status_of(windows[i].is_dead);
                let hit = state.pane_manager.update_status(windows[i].name.as_str(), st);
                proof {
                    if hit {
                        lemma_update_keeps_panes(before, windows@[i as int].name@, st);
                    }
                    lemma_same_panes_trans(state.pane_manager@, before, start);
                    let ws = window_views(windows@);
                    assert(ws.subrange(0, i + 1).drop_last() =~= ws.subrange(0, i as int));
                    assert(ws.subrange(0, i + 1).last() == windows@[i as int]@);
                }
                i = i + 1;
            }
            proof {
                assert(window_views(windows@).subrange(0, i as int) =~= window_views(windows@));
            }
        },
        Err(_) => {},
    }
    proof {
        assert(state.pane_manager@ == after_listing(start, crate::tmux::windows_view(listed)));
        if !old(state).tmux_session.created() {
            assert(window_views(listed->Ok_0@) =~= Seq::<WindowView>::empty());
        }
    }
    state.audit_queue.push(AuditEntry::list_panes());
    proof {
        assert(state.audit_queue@.drop_last() =~= old(state).audit_queue@);
    }
    proof {
        assert(state.pane_manager@.dom() == old(state).pane_manager@.dom());
        assert(state.pane_manager@.len() == state.pane_manager@.dom().len());
    }
    if state.pane_manager.is_empty() {
        ToolCallResult::success("No active panes. Use tmux_create_pane to create one.")
    } else {
        let listing = render_listing(state.pane_manager.entries());
        ToolCallResult::success(listing.as_str())
    }
}

pub open spec fn invalid_name_message() -> Seq<char> {
    "Invalid parameter 'name': expected a string."@
}

pub open spec fn invalid_lines_message() -> Seq<char> {
    "Invalid parameter 'lines': expected an integer."@
}

/// The five tool names differ from one another.
pub proof fn lemma_tool_names_distinct()
    ensures
        "tmux_create_pane"@ != "tmux_send_keys"@,
        "tmux_create_pane"@ != "tmux_capture_pane"@,
        "tmux_create_pane"@ != "tmux_kill_pane"@,
        "tmux_create_pane"@ != "tmux_list_panes"@,
        "tmux_send_keys"@ != "tmux_capture_pane"@,
        "tmux_send_keys"@ != "tmux_kill_pane"@,
        "tmux_send_keys"@ != "tmux_list_panes"@,
        "tmux_capture_pane"@ != "tmux_kill_pane"@,
        "tmux_capture_pane"@ != "tmux_list_panes"@,
        "tmux_kill_pane"@ != "tmux_list_panes"@,
{
    reveal_strlit("tmux_create_pane");
    reveal_strlit("tmux_send_keys");
    reveal_strlit("tmux_capture_pane");
    reveal_strlit("tmux_kill_pane");
    reveal_strlit("tmux_list_panes");
    assert("tmux_create_pane"@[5] != "tmux_send_keys"@[5]);
    assert("tmux_create_pane"@[5] != "tmux_kill_pane"@[5]);
    assert("tmux_create_pane"@[5] != "tmux_list_panes"@[5]);
    assert("tmux_send_keys"@[5] != "tmux_kill_pane"@[5]);
    assert("tmux_send_keys"@.len() != "tmux_list_panes"@.len());
    assert("tmux_kill_pane"@.len() != "tmux_list_panes"@.len());
    assert("tmux_create_pane"@.len() != "tmux_capture_pane"@.len());
    assert("tmux_send_keys"@.len() != "tmux_capture_pane"@.len());
    assert("tmux_capture_pane"@.len() != "tmux_kill_pane"@.len());
    assert("tmux_capture_pane"@.len() != "tmux_list_panes"@.len());
}

/// Whether `a` has member `k` of the wrong kind (present, but no string).
pub open spec fn wrong_text(a: JsonShape, k: Seq<char>) -> bool {
    member_of(a, k) is Some && text_member(a, k) is None
}

/// Whether `a` has member `k` that is not an integer fitting in `i64`.
pub open spec fn wrong_int(a: JsonShape, k: Seq<char>) -> bool {
    member_of(a, k) is Some && int_member(a, k) is None
}

fn as_str_opt(s: &Option<String>) -> (r: Option<&str>)
    ensures
        opt_view(r) == match s {
            Some(x) => Some(x@),
            None => None::<Seq<char>>,
        },
{
    match s {
        Some(x) => Some(x.as_str()),
        None => None,
    }
}

/// Routes a tool call by exact name, reading the tool's arguments from the
/// argument object; an optional argument of the wrong kind is an error that
/// names it, and an unknown name is an error result that lists the five
/// tools.
pub fn handle_tool_call<E: CommandExecutor>(state: &mut AppState<E>, params: &ToolCallParams) -> (r:
    ToolCallResult)
    requires
        old(state).wf(),
    ensures
        final(state).wf(),
        ({
            let a = json_shape(params.arguments);
            let n = params.name@;
            &&& n == "tmux_create_pane"@ ==> if wrong_text(a, "name"@) {
                is_tool_text(r, invalid_name_message(), true) && *final(state) == *old(state)
            } else {
                create_outcome(*old(state), *final(state), text_member(a, "command"@), text_member(a, "name"@), r)
            }
            &&& n == "tmux_send_keys"@ ==> send_outcome(
                *old(state),
                *final(state),
                text_member(a, "pane_id"@),
                text_member(a, "keys"@),
                r,
            )
            &&& n == "tmux_capture_pane"@ ==> if wrong_int(a, "lines"@) {
                is_tool_text(r, invalid_lines_message(), true) && *final(state) == *old(state)
            } else {
                capture_outcome(*old(state), *final(state), text_member(a, "pane_id"@), int_member(a, "lines"@), r)
            }
            &&& n == "tmux_kill_pane"@ ==> kill_outcome(*old(state), *final(state), text_member(a, "pane_id"@), r)
            &&& n == "tmux_list_panes"@ ==> list_outcome(*old(state), *final(state), r)
            &&& !tool_names().contains(n) ==> is_tool_text(r, unknown_tool_message(n), true) && *final(state)
                == *old(state)
        }),
{
    let name = params.name.as_str();
    let args = &params.arguments;
    proof {
        lemma_tool_names_distinct();
    }
    if crate::text::str_eq(name, "tmux_create_pane") {
        let command = string_member(args, "command");
        let pane_name = string_member(args, "name");
        if pane_name.is_none() && has_member(args, "name") {
            return ToolCallResult::error("Invalid parameter 'name': expected a string.");
        }
        handle_create_pane(state, as_str_opt(&command), as_str_opt(&pane_name))
    } else if crate::text::str_eq(name, "tmux_send_keys") {
        let pane_id = string_member(args, "pane_id");
        let keys = string_member(args, "keys");
        handle_send_keys(state, as_str_opt(&pane_id), as_str_opt(&keys))
    } else if crate::text::str_eq(name, "tmux_capture_pane") {
        let pane_id = string_member(args, "pane_id");
        let lines = integer_member(args, "lines");
        if lines.is_none() && has_member(args, "lines") {
            return ToolCallResult::error("Invalid parameter 'lines': expected an integer.");
        }
        handle_capture_pane(state, as_str_opt(&pane_id), lines)
    } else if crate::text::str_eq(name, "tmux_kill_pane") {
        let pane_id = string_member(args, "pane_id");
        handle_kill_pane(state, as_str_opt(&pane_id))
    } else if crate::text::str_eq(name, "tmux_list_panes") {
        handle_list_panes(state)
    } else {
        let mut t = String::from_str("Unknown tool '");
        t.append(name);
        t.append(
            "'. Available tools: tmux_create_pane, tmux_send_keys, tmux_capture_pane, tmux_kill_pane, tmux_list_panes",
        );
        ToolCallResult::error(t.as_str())
    }
}

/// Whether `r` answers `initialize` for request `id`.
pub open spec fn is_initialize_response(r: Option<JsonRpcResponse>, id: Option<RequestId>) -> bool {
    match r {
        Some(resp) => resp.jsonrpc@ == "2.0"@ && resp.id == id && resp.error is None && match resp.result {
            Some(McpResult::Initialize(ir)) => is_initialize_result(ir),
            _ => false,
        },
        None => false,
    }
}

/// Whether `r` answers `tools/list` for request `id` with the catalogue.
pub open spec fn is_catalogue_response(r: Option<JsonRpcResponse>, id: Option<RequestId>) -> bool {
    match r {
        Some(resp) => resp.jsonrpc@ == "2.0"@ && resp.id == id && resp.error is None && match resp.result {
            Some(McpResult::ToolsList(tl)) => is_catalogue(tl.tools@),
            _ => false,
        },
        None => false,
    }
}

/// Whether `r` is the error response with `id`, `code` and `message`.
pub open spec fn is_error_answer(r: Option<JsonRpcResponse>, id: Option<RequestId>, code: i32, message: Seq<char>) -> bool {
    match r {
        Some(resp) => is_error_response(resp, id, code, message),
        None => false,
    }
}

/// Whether `r` answers a `tools/call` whose parameter object is `p`, for
/// request `id`: invalid params for a malformed object, else a tool result
/// once initialized and the not-initialized error before.
pub open spec fn is_tool_call_answer(r: Option<JsonRpcResponse>, id: Option<RequestId>, ready: bool, p: JsonShape) -> bool {
    if !tool_params_ok(p) {
        match r {
            Some(resp) => resp.jsonrpc@ == "2.0"@ && resp.id == id && resp.result is None && match resp.error {
                Some(e) => e.code == INVALID_PARAMS,
                None => false,
            },
            None => false,
        }
    } else if ready {
        match r {
            Some(resp) => resp.jsonrpc@ == "2.0"@ && resp.id == id && resp.error is None && match resp.result {
                Some(McpResult::ToolCall(_)) => true,
                _ => false,
            },
            None => false,
        }
    } else {
        is_error_answer(r, id, INTERNAL_ERROR, not_initialized_message())
    }
}

/// What the answer to `request` is, for a handshake state `ready`.
pub open spec fn routed_response(request: JsonRpcRequest, ready: bool, r: Option<JsonRpcResponse>) -> bool {
    match route_of(request.method@) {
        Route::Initialize => is_initialize_response(r, request.id),
        Route::Initialized => r is None,
        Route::ToolsList => if ready {
            is_catalogue_response(r, request.id)
        } else {
            is_error_answer(r, request.id, INTERNAL_ERROR, not_initialized_message())
        },
        Route::ToolsCall => match request.params {
            None => is_error_answer(r, request.id, INVALID_PARAMS, "tools/call requires params"@),
            Some(p) => is_tool_call_answer(r, request.id, ready, json_shape(p)),
        },
        Route::Unknown => is_error_answer(r, request.id, METHOD_NOT_FOUND, "Unknown method: "@ + request.method@),
    }
}

/// Whether `r` is a parse-error answer.
pub open spec fn is_parse_error_answer(r: Option<JsonRpcResponse>) -> bool {
    match r {
        Some(resp) => is_parse_error(resp),
        None => false,
    }
}

/// A copy of a request identifier.
pub fn copy_id(id: &Option<RequestId>) -> (r: Option<RequestId>)
    ensures
        r == *id,
{
    match id {
        None => None,
        Some(RequestId::Number(n)) => Some(RequestId::Number(*n)),
        Some(RequestId::String(s)) => Some(RequestId::String(s.clone())),
    }
}

/// Answers one decoded request; notifications get no answer.
pub fn respond<E: CommandExecutor>(state: &mut AppState<E>, request: &JsonRpcRequest) -> (r: Option<JsonRpcResponse>)
    requires
        old(state).wf(),
    ensures
        final(state).wf(),
        routed_response(*request, old(state).mcp_handler.ready(), r),
        final(state).mcp_handler.ready() == (old(state).mcp_handler.ready() || route_of(request.method@)
            is Initialize || route_of(request.method@) is Initialized),
        !(route_of(request.method@) is ToolsCall) ==> final(state).pane_manager == old(state).pane_manager,
{
    let method = match McpMethod::from_request(request) {
        Ok(m) => m,
        Err(e) => {
            return Some(JsonRpcResponse::error(copy_id(&request.id), INVALID_PARAMS, e));
        },
    };
    match state.mcp_handler.validate_request(&method) {
        Err(e) => {
            return Some(JsonRpcResponse::error(copy_id(&request.id), INTERNAL_ERROR, String::from_str(e)));
        },
        Ok(()) => {},
    }
    match method {
        McpMethod::Initialize => {
            let result = state.mcp_handler.handle_initialize();
            Some(JsonRpcResponse::success(copy_id(&request.id), McpResult::Initialize(result)))
        },
        McpMethod::Initialized => {
            state.mcp_handler.handle_initialized();
            None
        },
        McpMethod::ToolsList => {
            let result = state.mcp_handler.handle_tools_list();
            Some(JsonRpcResponse::success(copy_id(&request.id), McpResult::ToolsList(result)))
        },
        McpMethod::ToolsCall(params) => {
            let result = handle_tool_call(state, &params);
            Some(JsonRpcResponse::success(copy_id(&request.id), McpResult::ToolCall(result)))
        },
        McpMethod::Unknown(name) => {
            let mut message = String::from_str("Unknown method: ");
            message.append(name.as_str());
            Some(JsonRpcResponse::error(copy_id(&request.id), METHOD_NOT_FOUND, message))
        },
    }
}

/// Handles one input line: a parse error for anything that is not a
/// request, else the answer to the request.
pub fn process_request<E: CommandExecutor>(state: &mut AppState<E>, line: &str) -> (r: Option<JsonRpcResponse>)
    requires
        old(state).wf(),
    ensures
        final(state).wf(),
        ({
            let shape = parsed_shape(line@);
            if is_json_text(line@) && is_request_shape(shape) {
                exists|q: JsonRpcRequest| #[trigger] decodes_to(shape, q) && routed_response(q, old(state).mcp_handler.ready(), r)
                    && final(state).mcp_handler.ready() == (old(state).mcp_handler.ready() || route_of(q.method@)
                    is Initialize || route_of(q.method@) is Initialized)
            } else {
                is_parse_error_answer(r) && *final(state) == *old(state)
            }
        }),
{
    match parse_request(line) {
        Err(response) => Some(response),
        Ok(request) => respond(state, &request),
    }
}

/// Before the handshake, `tools/list` is refused with a message that says
/// the server is not initialized; afterwards it answers with the catalogue.
/// A `tools/call` with well-formed parameters is refused the same way.
pub proof fn law_tool_requests_wait_for_initialize(request: JsonRpcRequest, r: Option<JsonRpcResponse>, ready: bool)
    requires
        route_of(request.method@) is ToolsList,
        routed_response(request, ready, r),
    ensures
        !ready ==> match r {
            Some(resp) => match resp.error {
                Some(e) => e.code == INTERNAL_ERROR && contains_seq(e.message@, "not initialized"@),
                None => false,
            },
            None => false,
        },
        ready ==> is_catalogue_response(r, request.id),
{
    reveal_strlit("Server not initialized. Send 'initialize' first.");
    reveal_strlit("not initialized");
    let m = not_initialized_message();
    assert(m.subrange(7, 22) =~= "not initialized"@);
    assert(occurs_at(m, "not initialized"@, 7));
}

} // verus!
