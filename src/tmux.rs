//! The execution engine: one lazily created multiplexer session, driven
//! through an injectable command executor, with failures classified from the
//! executor's error text.

use vstd::prelude::*;
use vstd::string::*;
use crate::parse::{
    contains_seq, contains_str, lines_of, parse_u32, split_fields, split_lines, split_on,
    starts_with_seq, starts_with_str, u32_of, views,
};
use crate::text::{decimal, push_decimal, str_eq};

verus! {

/// Error of an engine operation.
#[derive(Debug)]
pub enum TmuxError {
    /// The command exited unsuccessfully for a reason not recognised below.
    CommandFailed { command: String, stderr: String },
    /// The session does not exist (or no server runs).
    SessionNotFound(String),
    /// The addressed window does not exist.
    WindowNotFound(String),
    /// The command could not be run at all.
    IoError(String),
}

/// What an engine error holds, as plain sequences.
pub enum TmuxFailure {
    CommandFailed { command: Seq<char>, stderr: Seq<char> },
    SessionNotFound(Seq<char>),
    WindowNotFound(Seq<char>),
    IoError(Seq<char>),
}

impl View for TmuxError {
    type V = TmuxFailure;

    open spec fn view(&self) -> TmuxFailure {
        match self {
            TmuxError::CommandFailed { command, stderr } => TmuxFailure::CommandFailed {
                command: command@,
                stderr: stderr@,
            },
            TmuxError::SessionNotFound(n) => TmuxFailure::SessionNotFound(n@),
            TmuxError::WindowNotFound(n) => TmuxFailure::WindowNotFound(n@),
            TmuxError::IoError(e) => TmuxFailure::IoError(e@),
        }
    }
}

/// The human-readable text of an engine error.
pub open spec fn failure_message(e: TmuxFailure) -> Seq<char> {
    match e {
        TmuxFailure::CommandFailed { command, stderr } => "Tmux command '"@ + command + "' failed: "@
            + stderr,
        TmuxFailure::SessionNotFound(n) => "Tmux session '"@ + n + "' not found"@,
        TmuxFailure::WindowNotFound(n) => "Tmux window '"@ + n
            + "' not found. Use tmux_list_panes to see active panes."@,
        TmuxFailure::IoError(e) => "IO error: "@ + e,
    }
}

impl TmuxError {
    /// The human-readable text of the error.
    pub fn message(&self) -> (r: String)
        ensures
            r@ == failure_message(self@),
    {
        match self {
            TmuxError::CommandFailed { command, stderr } => {
                let mut s = String::from_str("Tmux command '");
                s.append(command.as_str());
                s.append("' failed: ");
                s.append(stderr.as_str());
                s
            },
            TmuxError::SessionNotFound(n) => {
                let mut s = String::from_str("Tmux session '");
                s.append(n.as_str());
                s.append("' not found");
                s
            },
            TmuxError::WindowNotFound(n) => {
                let mut s = String::from_str("Tmux window '");
                s.append(n.as_str());
                s.append("' not found. Use tmux_list_panes to see active panes.");
                s
            },
            TmuxError::IoError(e) => {
                let mut s = String::from_str("IO error: ");
                s.append(e.as_str());
                s
            },
        }
    }
}

/// What a finished external command reported.
pub struct CommandOutput {
    /// Whether it exited successfully.
    pub success: bool,
    /// Its standard output, as text.
    pub stdout: String,
    /// Its standard error, as text.
    pub stderr: String,
}

/// Runs one multiplexer command (its arguments, without the program name).
///
/// `Err` carries the reason the command could not be run at all.
pub trait CommandExecutor {
    fn execute(&self, args: &[String]) -> Result<CommandOutput, String>;
}

/// The arguments joined by single spaces.
pub open spec fn join_words(args: Seq<Seq<char>>) -> Seq<char>
    decreases args.len(),
{
    if args.len() == 0 {
        Seq::empty()
    } else if args.len() == 1 {
        args[0]
    } else {
        join_words(args.drop_last()) + " "@ + args.last()
    }
}

/// The first argument that begins with `prefix`.
pub open spec fn first_with_prefix(args: Seq<Seq<char>>, prefix: Seq<char>) -> Option<Seq<char>>
    decreases args.len(),
{
    if args.len() == 0 {
        None
    } else if starts_with_seq(args[0], prefix) {
        Some(args[0])
    } else {
        first_with_prefix(args.drop_first(), prefix)
    }
}

/// Whether the error text says that the session is absent.
pub open spec fn says_session_absent(stderr: Seq<char>) -> bool {
    contains_seq(stderr, "session not found"@) || contains_seq(stderr, "no server running"@)
}

/// Whether the error text says that the window is absent.
pub open spec fn says_window_absent(stderr: Seq<char>) -> bool {
    contains_seq(stderr, "can't find window"@) || contains_seq(stderr, "window not found"@)
        || contains_seq(stderr, "no such window"@)
}

/// The error for a command of session `session` that failed with `stderr`.
pub open spec fn classify(session: Seq<char>, args: Seq<Seq<char>>, stderr: Seq<char>) -> TmuxFailure {
    if says_session_absent(stderr) {
        TmuxFailure::SessionNotFound(session)
    } else if says_window_absent(stderr) {
        TmuxFailure::WindowNotFound(
            match first_with_prefix(args, session + ":"@) {
                Some(a) => a,
                None => "unknown"@,
            },
        )
    } else {
        TmuxFailure::CommandFailed { command: "tmux "@ + join_words(args), stderr }
    }
}

/// The outcome of a command as the engine reports it.
pub open spec fn interpret(
    session: Seq<char>,
    args: Seq<Seq<char>>,
    outcome: Result<CommandOutput, String>,
) -> Result<Seq<char>, TmuxFailure> {
    match outcome {
        Err(e) => Err(TmuxFailure::IoError(e@)),
        Ok(o) => if o.success {
            Ok(o.stdout@)
        } else {
            Err(classify(session, args, o.stderr@))
        },
    }
}

/// Whether `e` is an error that a command of session `session` can end in.
pub open spec fn is_engine_failure(session: Seq<char>, e: TmuxFailure) -> bool {
    match e {
        TmuxFailure::SessionNotFound(n) => n == session,
        TmuxFailure::WindowNotFound(w) => w == "unknown"@ || starts_with_seq(w, session + ":"@),
        TmuxFailure::CommandFailed { command, stderr } => starts_with_seq(command, "tmux "@),
        TmuxFailure::IoError(_) => true,
    }
}

pub proof fn lemma_first_with_prefix(args: Seq<Seq<char>>, prefix: Seq<char>)
    ensures
        first_with_prefix(args, prefix) matches Some(a) ==> starts_with_seq(a, prefix),
    decreases args.len(),
{
    if args.len() > 0 && !starts_with_seq(args[0], prefix) {
        lemma_first_with_prefix(args.drop_first(), prefix);
    }
}

pub proof fn lemma_classify_is_engine_failure(session: Seq<char>, args: Seq<Seq<char>>, stderr: Seq<char>)
    ensures
        is_engine_failure(session, classify(session, args, stderr)),
{
    lemma_first_with_prefix(args, session + ":"@);
    reveal_strlit("tmux ");
    let c = "tmux "@ + join_words(args);
    assert(c.subrange(0, 5) =~= "tmux "@);
}

fn join_with_spaces(out: &mut String, args: &[String])
    ensures
        final(out)@ == old(out)@ + join_words(views(args@)),
{
    let mut i: usize = 0;
    let ghost start = out@;
    while i < args.len()
        invariant
            i <= args@.len(),
            out@ == start + join_words(views(args@).subrange(0, i as int)),
        decreases args@.len() - i,
    {
        let ghost before = out@;
        if i > 0 {
            out.append(" ");
        }
        out.append(args[i].as_str());
        proof {
            let w = views(args@);
            let p = w.subrange(0, i as int + 1);
            assert(p.drop_last() =~= w.subrange(0, i as int));
            assert(p.last() == args@[i as int]@);
            if i == 0 {
                assert(join_words(w.subrange(0, 0)) =~= Seq::<char>::empty());
                assert(out@ =~= start + join_words(p));
            } else {
                assert(out@ =~= start + join_words(p));
            }
        }
        i = i + 1;
    }
    proof {
        assert(views(args@).subrange(0, i as int) =~= views(args@));
    }
}

fn find_with_prefix(args: &[String], prefix: &str) -> (r: Option<String>)
    ensures
        match r {
            Some(a) => first_with_prefix(views(args@), prefix@) == Some(a@),
            None => first_with_prefix(views(args@), prefix@) is None,
        },
{
    let mut i: usize = 0;
    proof {
        assert(views(args@).subrange(0, args@.len() as int) =~= views(args@));
    }
    while i < args.len()
        invariant
            i <= args@.len(),
            first_with_prefix(views(args@), prefix@) == first_with_prefix(views(args@).subrange(i as int, args@.len() as int), prefix@),
        decreases args@.len() - i,
    {
        let ghost rest = views(args@).subrange(i as int, args@.len() as int);
        assert(rest[0] == args@[i as int]@);
        if starts_with_str(args[i].as_str(), prefix) {
            return Some(args[i].clone());
        }
        proof {
            assert(rest.drop_first() =~= views(args@).subrange(i + 1, args@.len() as int));
        }
        i = i + 1;
    }
    None
}

/// The error for a command of session `session_name` that exited
/// unsuccessfully with error text `stderr`.
pub fn classify_failure(session_name: &str, args: &[String], stderr: &str) -> (r: TmuxError)
    ensures
        r@ == classify(session_name@, views(args@), stderr@),
{
    if contains_str(stderr, "session not found") || contains_str(stderr, "no server running") {
        TmuxError::SessionNotFound(session_name.to_owned())
    } else if contains_str(stderr, "can't find window") || contains_str(stderr, "window not found")
        || contains_str(stderr, "no such window") {
        let mut prefix = session_name.to_owned();
        prefix.append(":");
        match find_with_prefix(args, prefix.as_str()) {
            Some(a) => TmuxError::WindowNotFound(a),
            None => TmuxError::WindowNotFound(String::from_str("unknown")),
        }
    } else {
        let mut command = String::from_str("tmux ");
        join_with_spaces(&mut command, args);
        TmuxError::CommandFailed { command, stderr: stderr.to_owned() }
    }
}

/// The result an engine command reports for what its executor returned.
pub fn command_result(session_name: &str, args: &[String], outcome: Result<CommandOutput, String>) -> (r:
    Result<String, TmuxError>)
    ensures
        result_view(r) == interpret(session_name@, views(args@), outcome),
{
    match outcome {
        Err(e) => Err(TmuxError::IoError(e)),
        Ok(o) => if o.success {
            Ok(o.stdout)
        } else {
            Err(classify_failure(session_name, args, o.stderr.as_str()))
        },
    }
}

/// A result with its error viewed as plain sequences.
pub open spec fn result_view(r: Result<String, TmuxError>) -> Result<Seq<char>, TmuxFailure> {
    match r {
        Ok(s) => Ok(s@),
        Err(e) => Err(e@),
    }
}

/// Information about one window, as the multiplexer lists it.
#[derive(Debug, Clone, PartialEq, Eq)]
pub struct WindowInfo {
    /// Window name (the pane identifier).
    pub name: String,
    /// Process ID running in the pane, when it parses.
    pub pid: Option<u32>,
    /// Whether the pane's process has exited.
    pub is_dead: bool,
}

/// What a window line holds, as plain values.
pub struct WindowView {
    pub name: Seq<char>,
    pub pid: Option<u32>,
    pub is_dead: bool,
}

impl View for WindowInfo {
    type V = WindowView;

    open spec fn view(&self) -> WindowView {
        WindowView { name: self.name@, pid: self.pid, is_dead: self.is_dead }
    }
}

impl WindowInfo {
    /// `exited` for a dead pane, else `running`.
    pub fn status(&self) -> (r: &'static str)
        ensures
            r@ == (if self.is_dead { "exited"@ } else { "running"@ }),
    {
        if self.is_dead {
            "exited"
        } else {
            "running"
        }
    }
}

/// The window described by one `name|pid|dead` line, if it has three fields.
pub open spec fn window_of_line(line: Seq<char>) -> Option<WindowView> {
    let parts = split_on(line, '|');
    if parts.len() >= 3 {
        Some(WindowView { name: parts[0], pid: u32_of(parts[1]), is_dead: parts[2] == "1"@ })
    } else {
        None
    }
}

/// The windows of the non-empty, well-formed lines, in order.
pub open spec fn windows_of(lines: Seq<Seq<char>>) -> Seq<WindowView>
    decreases lines.len(),
{
    if lines.len() == 0 {
        Seq::empty()
    } else {
        let prev = windows_of(lines.drop_last());
        let l = lines.last();
        if l.len() > 0 && window_of_line(l) is Some {
            prev.push(window_of_line(l)->Some_0)
        } else {
            prev
        }
    }
}

/// The plain views of a sequence of windows.
pub open spec fn window_views(s: Seq<WindowInfo>) -> Seq<WindowView> {
    s.map_values(|w: WindowInfo| w@)
}

/// Parses one `name|pid|dead` line.
pub fn parse_window_line(line: &str) -> (r: Option<WindowInfo>)
    ensures
        match r {
            Some(w) => window_of_line(line@) == Some(w@),
            None => window_of_line(line@) is None,
        },
{
    let parts = split_fields(line, '|');
    proof {
        assert(views(parts@).len() == parts@.len());
    }
    if parts.len() >= 3 {
        proof {
            assert(views(parts@)[0] == parts@[0]@);
            assert(views(parts@)[1] == parts@[1]@);
            assert(views(parts@)[2] == parts@[2]@);
        }
        let name = parts[0].clone();
        let pid = parse_u32(parts[1].as_str());
        let is_dead = str_eq(parts[2].as_str(), "1");
        Some(WindowInfo { name, pid, is_dead })
    } else {
        None
    }
}

/// Parses a window listing, skipping empty and malformed lines.
pub fn parse_window_list(output: &str) -> (r: Vec<WindowInfo>)
    ensures
        window_views(r@) == windows_of(lines_of(output@)),
{
    let lines = split_lines(output);
    let ghost lv = views(lines@);
    let mut out: Vec<WindowInfo> = Vec::new();
    let mut i: usize = 0;
    proof {
        assert(window_views(out@) =~= Seq::<WindowView>::empty());
        assert(lv.subrange(0, 0) =~= Seq::<Seq<char>>::empty());
    }
    while i < lines.len()
        invariant
            lv == views(lines@),
            lv == lines_of(output@),
            i <= lines@.len(),
            window_views(out@) == windows_of(lv.subrange(0, i as int)),
        decreases lines@.len() - i,
    {
        let ghost before = out@;
        let ghost p = lv.subrange(0, i as int + 1);
        proof {
            assert(views(lines@).len() == lines@.len());
            assert(p.drop_last() =~= lv.subrange(0, i as int));
            assert(p.last() == lines@[i as int]@);
        }
        if lines[i].as_str().unicode_len() > 0 {
            match parse_window_line(lines[i].as_str()) {
                Some(w) => {
                    out.push(w);
                    proof {
                        assert(window_views(out@) =~= window_views(before).push(w@));
                    }
                },
                None => {},
            }
        }
        i = i + 1;
    }
    proof {
        assert(views(lines@).len() == lines@.len());
        assert(lv.subrange(0, i as int) =~= lv);
    }
    out
}

/// The window of the first line of a scoped listing; `WindowNotFound(pane_id)`
/// when there is no such line or it is malformed.
pub open spec fn first_window_of(pane_id: Seq<char>, output: Seq<char>) -> Result<WindowView, TmuxFailure> {
    let lines = lines_of(output);
    if lines.len() > 0 && window_of_line(lines[0]) is Some {
        Ok(window_of_line(lines[0])->Some_0)
    } else {
        Err(TmuxFailure::WindowNotFound(pane_id))
    }
}

/// Reads the window of the first line of a scoped listing.
pub fn parse_first_window(pane_id: &str, output: &str) -> (r: Result<WindowInfo, TmuxError>)
    ensures
        match r {
            Ok(w) => first_window_of(pane_id@, output@) == Ok::<WindowView, TmuxFailure>(w@),
            Err(e) => first_window_of(pane_id@, output@) == Err::<WindowView, TmuxFailure>(e@),
        },
{
    let lines = split_lines(output);
    proof {
        assert(views(lines@).len() == lines@.len());
    }
    if lines.len() > 0 {
        proof {
            assert(views(lines@)[0] == lines@[0]@);
        }
        match parse_window_line(lines[0].as_str()) {
            Some(w) => return Ok(w),
            None => {},
        }
    }
    Err(TmuxError::WindowNotFound(pane_id.to_owned()))
}

/// Terminal width of a new session.
pub const SESSION_WIDTH: u32 = 200;

/// Terminal height of a new session.
pub const SESSION_HEIGHT: u32 = 50;

/// Result of an engine operation.
pub type TmuxResult<T> = Result<T, TmuxError>;

/// Every unsuccessful outcome of a command is an engine failure of its session.
pub proof fn lemma_interpret_failure(
    session: Seq<char>,
    args: Seq<Seq<char>>,
    outcome: Result<CommandOutput, String>,
)
    ensures
        interpret(session, args, outcome) matches Err(e) ==> is_engine_failure(session, e),
{
    match outcome {
        Ok(o) => {
            lemma_classify_is_engine_failure(session, args, o.stderr@);
        },
        Err(_) => {},
    }
}

/// The `session:window` target of a window.
pub open spec fn target_of(session: Seq<char>, window: Seq<char>) -> Seq<char> {
    session + ":"@ + window
}

/// The decimal rendering of a signed number.
pub open spec fn signed_decimal(n: int) -> Seq<char> {
    if n < 0 {
        "-"@ + decimal((-n) as nat)
    } else {
        decimal(n as nat)
    }
}

/// The listing format: name, pid and dead flag, separated by `|`.
pub open spec fn window_format() -> Seq<char> {
    "#{window_name}|#{pane_pid}|#{pane_dead}"@
}

pub open spec fn new_session_words(session: Seq<char>) -> Seq<Seq<char>> {
    seq![
        "new-session"@,
        "-d"@,
        "-s"@,
        session,
        "-x"@,
        decimal(SESSION_WIDTH as nat),
        "-y"@,
        decimal(SESSION_HEIGHT as nat),
    ]
}

pub open spec fn remain_on_exit_words(target: Seq<char>) -> Seq<Seq<char>> {
    seq!["set-option"@, "-t"@, target, "remain-on-exit"@, "on"@]
}

pub open spec fn new_window_words(session: Seq<char>, name: Seq<char>) -> Seq<Seq<char>> {
    seq!["new-window"@, "-t"@, session, "-n"@, name]
}

pub open spec fn run_command_words(target: Seq<char>, command: Seq<char>) -> Seq<Seq<char>> {
    seq!["send-keys"@, "-t"@, target, command, "Enter"@]
}

pub open spec fn send_keys_words(target: Seq<char>, keys: Seq<char>) -> Seq<Seq<char>> {
    seq!["send-keys"@, "-t"@, target, keys]
}

pub open spec fn capture_words(target: Seq<char>, lines: int) -> Seq<Seq<char>> {
    seq!["capture-pane"@, "-t"@, target, "-p"@, "-S"@, "-"@ + signed_decimal(lines)]
}

pub open spec fn kill_window_words(target: Seq<char>) -> Seq<Seq<char>> {
    seq!["kill-window"@, "-t"@, target]
}

pub open spec fn list_windows_words(target: Seq<char>) -> Seq<Seq<char>> {
    seq!["list-windows"@, "-t"@, target, "-F"@, window_format()]
}

pub open spec fn kill_session_words(session: Seq<char>) -> Seq<Seq<char>> {
    seq!["kill-session"@, "-t"@, session]
}

/// The commands that creating window `name` running `command` issues, in
/// order: the session and its option first when it does not exist yet.
pub open spec fn create_pane_commands(
    session: Seq<char>,
    name: Seq<char>,
    command: Seq<char>,
    created: bool,
) -> Seq<Seq<Seq<char>>> {
    if created {
        window_commands(session, name, command)
    } else {
        session_commands(session) + window_commands(session, name, command)
    }
}

/// The commands that create the session: the session itself, then its
/// remain-on-exit option.
pub open spec fn session_commands(session: Seq<char>) -> Seq<Seq<Seq<char>>> {
    seq![new_session_words(session), remain_on_exit_words(session)]
}

/// The commands that create window `name` running `command`.
pub open spec fn window_commands(session: Seq<char>, name: Seq<char>, command: Seq<char>) -> Seq<Seq<Seq<char>>> {
    seq![
        new_window_words(session, name),
        remain_on_exit_words(target_of(session, name)),
        run_command_words(target_of(session, name), command),
    ]
}

/// Running `commands` one after another, stopping at the first failure,
/// when the executor answers the i-th with `outcomes[i]`.
pub open spec fn run_in_order(
    session: Seq<char>,
    commands: Seq<Seq<Seq<char>>>,
    outcomes: Seq<Result<CommandOutput, String>>,
) -> Result<(), TmuxFailure>
    decreases commands.len(),
{
    if commands.len() == 0 {
        Ok(())
    } else {
        match interpret(session, commands[0], outcomes[0]) {
            Err(e) => Err(e),
            Ok(_) => run_in_order(session, commands.drop_first(), outcomes.drop_first()),
        }
    }
}

/// Running two lists one after the other is running their concatenation.
pub proof fn lemma_run_in_order_append(
    session: Seq<char>,
    a: Seq<Seq<Seq<char>>>,
    b: Seq<Seq<Seq<char>>>,
    oa: Seq<Result<CommandOutput, String>>,
    ob: Seq<Result<CommandOutput, String>>,
)
    requires
        oa.len() == a.len(),
    ensures
        run_in_order(session, a + b, oa + ob) == match run_in_order(session, a, oa) {
            Err(e) => Err(e),
            Ok(_) => run_in_order(session, b, ob),
        },
    decreases a.len(),
{
    if a.len() > 0 {
        assert((a + b).drop_first() =~= a.drop_first() + b);
        assert((oa + ob).drop_first() =~= oa.drop_first() + ob);
        assert((a + b)[0] == a[0]);
        assert((oa + ob)[0] == oa[0]);
        lemma_run_in_order_append(session, a.drop_first(), b, oa.drop_first(), ob);
    } else {
        assert(a + b =~= b);
        assert(oa + ob =~= ob);
    }
}

/// The commands that running `commands` in order issues: each up to and
/// including the first that fails.
pub open spec fn ran_in_order(
    session: Seq<char>,
    commands: Seq<Seq<Seq<char>>>,
    outcomes: Seq<Result<CommandOutput, String>>,
) -> Seq<Seq<Seq<char>>>
    decreases commands.len(),
{
    if commands.len() == 0 {
        Seq::empty()
    } else {
        match interpret(session, commands[0], outcomes[0]) {
            Err(_) => seq![commands[0]],
            Ok(_) => seq![commands[0]] + ran_in_order(session, commands.drop_first(), outcomes.drop_first()),
        }
    }
}

/// What running two lists one after the other issues.
pub proof fn lemma_ran_in_order_append(
    session: Seq<char>,
    a: Seq<Seq<Seq<char>>>,
    b: Seq<Seq<Seq<char>>>,
    oa: Seq<Result<CommandOutput, String>>,
    ob: Seq<Result<CommandOutput, String>>,
)
    requires
        oa.len() == a.len(),
    ensures
        ran_in_order(session, a + b, oa + ob) == if run_in_order(session, a, oa) is Err {
            ran_in_order(session, a, oa)
        } else {
            ran_in_order(session, a, oa) + ran_in_order(session, b, ob)
        },
    decreases a.len(),
{
    if a.len() > 0 {
        assert((a + b).drop_first() =~= a.drop_first() + b);
        assert((oa + ob).drop_first() =~= oa.drop_first() + ob);
        assert((a + b)[0] == a[0]);
        assert((oa + ob)[0] == oa[0]);
        lemma_ran_in_order_append(session, a.drop_first(), b, oa.drop_first(), ob);
        if interpret(session, a[0], oa[0]) is Ok && run_in_order(session, a.drop_first(), oa.drop_first()) is Ok {
            assert(seq![a[0]] + ran_in_order(session, a.drop_first(), oa.drop_first()) + ran_in_order(session, b, ob)
                =~= seq![a[0]] + (ran_in_order(session, a.drop_first(), oa.drop_first()) + ran_in_order(session, b, ob)));
        }
    } else {
        assert(a + b =~= b);
        assert(oa + ob =~= ob);
        assert(Seq::<Seq<Seq<char>>>::empty() + ran_in_order(session, b, ob) =~= ran_in_order(session, b, ob));
    }
}

/// A result without its value.
pub open spec fn without_output(r: TmuxResult<String>) -> TmuxResult<()> {
    match r {
        Ok(_) => Ok(()),
        Err(e) => Err(e),
    }
}

/// A result without its output.
pub open spec fn discard_output(r: Result<Seq<char>, TmuxFailure>) -> Result<(), TmuxFailure> {
    match r {
        Ok(_) => Ok(()),
        Err(e) => Err(e),
    }
}

/// A unit result with its error viewed as plain sequences.
pub open spec fn unit_view(r: TmuxResult<()>) -> Result<(), TmuxFailure> {
    match r {
        Ok(_) => Ok(()),
        Err(e) => Err(e@),
    }
}

/// The windows of a listing's output.
pub open spec fn listing_windows(r: Result<Seq<char>, TmuxFailure>) -> Result<Seq<WindowView>, TmuxFailure> {
    match r {
        Ok(out) => Ok(windows_of(lines_of(out))),
        Err(e) => Err(e),
    }
}

/// A window listing with its items and error viewed as plain values.
pub open spec fn windows_view(r: TmuxResult<Vec<WindowInfo>>) -> Result<Seq<WindowView>, TmuxFailure> {
    match r {
        Ok(ws) => Ok(window_views(ws@)),
        Err(e) => Err(e@),
    }
}

/// The window of a scoped listing's output.
pub open spec fn scoped_window(pane_id: Seq<char>, r: Result<Seq<char>, TmuxFailure>) -> Result<WindowView, TmuxFailure> {
    match r {
        Ok(out) => first_window_of(pane_id, out),
        Err(e) => Err(e),
    }
}

/// A window result with its error viewed as plain values.
pub open spec fn window_view(r: TmuxResult<WindowInfo>) -> Result<WindowView, TmuxFailure> {
    match r {
        Ok(w) => Ok(w@),
        Err(e) => Err(e@),
    }
}

fn word(s: &str) -> (r: String)
    ensures
        r@ == s@,
{
    String::from_str(s)
}

/// Appends the decimal rendering of a signed number.
fn push_signed(out: &mut String, n: i32)
    ensures
        final(out)@ == old(out)@ + signed_decimal(n as int),
{
    if n < 0 {
        out.append("-");
        let m: u64 = (0i64 - n as i64) as u64;
        push_decimal(out, m);
        proof {
            reveal_strlit("-");
            assert(m as nat == (-n) as nat);
            assert(final(out)@ =~= old(out)@ + signed_decimal(n as int));
        }
    } else {
        push_decimal(out, n as u64);
    }
}

/// Manages one multiplexer session on behalf of the server.
pub struct TmuxSession<E: CommandExecutor> {
    session_name: String,
    session_created: bool,
    executor: E,
    issued: Ghost<Seq<Seq<Seq<char>>>>,
}

impl<E: CommandExecutor> TmuxSession<E> {
    /// The session's name.
    pub closed spec fn name(&self) -> Seq<char> {
        self.session_name@
    }

    /// Whether the session has been created.
    pub closed spec fn created(&self) -> bool {
        self.session_created
    }

    /// The executor that runs the commands.
    pub closed spec fn runner(&self) -> E {
        self.executor
    }

    /// Every command handed to the executor so far, in order.
    pub closed spec fn issued(&self) -> Seq<Seq<Seq<char>>> {
        self.issued@
    }

    /// Whether `self` is `other` but for the commands issued.
    pub open spec fn same_session(&self, other: &Self) -> bool {
        &&& self.name() == other.name()
        &&& self.created() == other.created()
        &&& self.runner() == other.runner()
    }

    /// A session, not yet created, named after the hosting process `pid`.
    pub fn with_executor(executor: E, pid: u32) -> (r: Self)
        ensures
            r.name() == "debug-"@ + decimal(pid as nat),
            !r.created(),
            r.runner() == executor,
            r.issued() == Seq::<Seq<Seq<char>>>::empty(),
    {
        let mut session_name = String::from_str("debug-");
        push_decimal(&mut session_name, pid as u64);
        TmuxSession { session_name, session_created: false, executor, issued: Ghost(Seq::empty()) }
    }

    /// The session's name.
    pub fn session_name(&self) -> (r: &str)
        ensures
            r@ == self.name(),
    {
        self.session_name.as_str()
    }

    /// Whether the session has been created.
    pub fn is_created(&self) -> (r: bool)
        ensures
            r == self.created(),
    {
        self.session_created
    }

    /// The executor that runs the commands.
    pub fn executor(&self) -> (r: &E)
        ensures
            *r == self.runner(),
    {
        &self.executor
    }

    /// The `session:window` target of a window of this session.
    fn target(&self, window: &str) -> (r: String)
        ensures
            r@ == target_of(self.name(), window@),
    {
        let mut t = self.session_name.clone();
        t.append(":");
        t.append(window);
        t
    }

    /// Runs one command and classifies its failure.
    fn run_tmux(&mut self, args: &Vec<String>, words: Ghost<Seq<Seq<char>>>) -> (r: TmuxResult<String>)
        requires
            views(args@) == words@,
        ensures
            final(self).same_session(old(self)),
            final(self).issued() == old(self).issued().push(words@),
            exists|o: Result<CommandOutput, String>| result_view(r) == interpret(old(self).name(), words@, o),
            r matches Err(e) ==> is_engine_failure(old(self).name(), e@),
    {
        self.issued = Ghost(self.issued@.push(words@));
        let outcome = self.executor.execute(args.as_slice());
        let ghost o = outcome;
        let r = command_result(self.session_name.as_str(), args.as_slice(), outcome);
        proof {
            lemma_interpret_failure(self.name(), views(args@), o);
        }
        r
    }

    /// Creates the session, with its fixed size and remain-on-exit set, unless
    /// it already exists; the option is set only once the session is made.
    fn ensure_session(&mut self) -> (r: TmuxResult<()>)
        ensures
            final(self).name() == old(self).name(),
            final(self).runner() == old(self).runner(),
            old(self).created() ==> r is Ok,
            r is Ok <==> final(self).created(),
            old(self).created() ==> final(self).issued() == old(self).issued(),
            !old(self).created() ==> exists|os: Seq<Result<CommandOutput, String>>| os.len() == 2 && unit_view(r)
                == run_in_order(old(self).name(), session_commands(old(self).name()), os) && final(self).issued()
                == old(self).issued() + ran_in_order(old(self).name(), session_commands(old(self).name()), os),
            r matches Err(e) ==> is_engine_failure(old(self).name(), e@),
    {
        if self.session_created {
            return Ok(());
        }
        let ghost name = self.name();
        let ghost cmds = session_commands(name);
        let ghost log0 = self.issued();
        let mut width = String::new();
        push_decimal(&mut width, SESSION_WIDTH as u64);
        let mut height = String::new();
        push_decimal(&mut height, SESSION_HEIGHT as u64);
        let create = vec![
            word("new-session"),
            word("-d"),
            word("-s"),
            self.session_name.clone(),
            word("-x"),
            width,
            word("-y"),
            height,
        ];
        proof {
            assert(views(create@) =~= new_session_words(name));
        }
        let first = self.run_tmux(&create, Ghost(new_session_words(name)));
        let ghost o1 = choose|o: Result<CommandOutput, String>| result_view(first) == #[trigger] interpret(name, cmds[0], o);
        match first {
            Err(e) => {
                proof {
                    reveal_with_fuel(run_in_order, 3);
                    reveal_with_fuel(ran_in_order, 3);
                    assert(unit_view(Err::<(), TmuxError>(e)) == run_in_order(name, cmds, seq![o1, o1]));
                    assert(self.issued() =~= log0 + ran_in_order(name, cmds, seq![o1, o1]));
                }
                return Err(e);
            },
            Ok(_) => {},
        }
        let option = vec![
            word("set-option"),
            word("-t"),
            self.session_name.clone(),
            word("remain-on-exit"),
            word("on"),
        ];
        proof {
            assert(views(option@) =~= remain_on_exit_words(name));
        }
        let second = self.run_tmux(&option, Ghost(remain_on_exit_words(name)));
        let ghost o2 = choose|o: Result<CommandOutput, String>| result_view(second) == #[trigger] interpret(name, cmds[1], o);
        proof {
            reveal_with_fuel(run_in_order, 3);
            reveal_with_fuel(ran_in_order, 3);
            assert(seq![o1, o2].drop_first() =~= seq![o2]);
            assert(cmds.drop_first() =~= seq![cmds[1]]);
            assert(seq![o2].drop_first() =~= Seq::<Result<CommandOutput, String>>::empty());
            assert(seq![cmds[1]].drop_first() =~= Seq::<Seq<Seq<char>>>::empty());
            if second is Err {
                assert(self.issued() =~= log0 + ran_in_order(name, cmds, seq![o1, o2]));
            } else {
                assert(self.issued() =~= log0 + ran_in_order(name, cmds, seq![o1, o2]));
            }
        }
        match second {
            Err(e) => {
                proof {
                    assert(unit_view(Err::<(), TmuxError>(e)) == run_in_order(name, cmds, seq![o1, o2]));
                }
                return Err(e);
            },
            Ok(_) => {},
        }
        self.session_created = true;
        proof {
            assert(unit_view(Ok::<(), TmuxError>(())) == run_in_order(name, cmds, seq![o1, o2]));
        }
        Ok(())
    }

    /// Creates window `name` running `command`, creating the session first
    /// when needed; returns the window name.
    ///
    /// Remain-on-exit is set on the new window itself, since the session
    /// setting does not reach windows created after it.
    pub fn create_pane(&mut self, command: &str, name: &str) -> (r: TmuxResult<String>)
        ensures
            final(self).name() == old(self).name(),
            final(self).runner() == old(self).runner(),
            old(self).created() ==> final(self).created(),
            r matches Ok(n) ==> n@ == name@ && final(self).created(),
            exists|os: Seq<Result<CommandOutput, String>>| os.len() == create_pane_commands(
                old(self).name(),
                name@,
                command@,
                old(self).created(),
            ).len() && unit_view(without_output(r)) == run_in_order(
                old(self).name(),
                create_pane_commands(old(self).name(), name@, command@, old(self).created()),
                os,
            ) && final(self).issued() == old(self).issued() + ran_in_order(
                old(self).name(),
                create_pane_commands(old(self).name(), name@, command@, old(self).created()),
                os,
            ),
            r matches Err(e) ==> is_engine_failure(old(self).name(), e@),
    {
        let ghost sname = self.name();
        let ghost was = self.created();
        let ghost pre: Seq<Seq<Seq<char>>> = if was { seq![] } else { session_commands(sname) };
        let ghost win = window_commands(sname, name@, command@);
        let ghost cmds = create_pane_commands(sname, name@, command@, was);
        let ghost log0 = self.issued();
        proof {
            assert(cmds =~= pre + win);
        }
        let made = self.ensure_session();
        let ghost os1: Seq<Result<CommandOutput, String>> = if was {
            seq![]
        } else {
            choose|os: Seq<Result<CommandOutput, String>>| os.len() == 2 && unit_view(made) == run_in_order(sname, pre, os)
                && self.issued() == log0 + ran_in_order(sname, pre, os)
        };
        let ghost log1 = self.issued();
        proof {
            if was {
                assert(run_in_order(sname, pre, os1) == Ok::<(), TmuxFailure>(()));
                assert(ran_in_order(sname, pre, os1) =~= Seq::<Seq<Seq<char>>>::empty());
                assert(log1 =~= log0 + ran_in_order(sname, pre, os1));
            }
        }
        match made {
            Err(e) => {
                proof {
                    let os = os1 + seq![os1[0], os1[0], os1[0]];
                    lemma_run_in_order_append(sname, pre, win, os1, seq![os1[0], os1[0], os1[0]]);
                    lemma_ran_in_order_append(sname, pre, win, os1, seq![os1[0], os1[0], os1[0]]);
                    assert(unit_view(without_output(Err::<String, TmuxError>(e))) == run_in_order(sname, cmds, os));
                }
                return Err(e);
            },
            Ok(_) => {},
        }
        let target = self.target(name);
        let window = vec![word("new-window"), word("-t"), self.session_name.clone(), word("-n"), word(name)];
        proof {
            assert(views(window@) =~= win[0]);
        }
        let r1 = self.run_tmux(&window, Ghost(win[0]));
        let ghost o1 = choose|o: Result<CommandOutput, String>| result_view(r1) == #[trigger] interpret(sname, win[0], o);
        let option = vec![word("set-option"), word("-t"), target.clone(), word("remain-on-exit"), word("on")];
        proof {
            assert(views(option@) =~= win[1]);
        }
        if let Err(e) = r1 {
            proof {
                reveal_with_fuel(run_in_order, 4);
                reveal_with_fuel(ran_in_order, 4);
                let ow = seq![o1, o1, o1];
                lemma_run_in_order_append(sname, pre, win, os1, ow);
                lemma_ran_in_order_append(sname, pre, win, os1, ow);
                assert(self.issued() =~= log0 + ran_in_order(sname, cmds, os1 + ow));
                assert(unit_view(without_output(Err::<String, TmuxError>(e))) == run_in_order(sname, cmds, os1 + ow));
            }
            return Err(e);
        }
        let r2 = self.run_tmux(&option, Ghost(win[1]));
        let ghost o2 = choose|o: Result<CommandOutput, String>| result_view(r2) == #[trigger] interpret(sname, win[1], o);
        if let Err(e) = r2 {
            proof {
                reveal_with_fuel(run_in_order, 4);
                let ow = seq![o1, o2, o2];
                assert(ow.drop_first() =~= seq![o2, o2]);
                assert(win.drop_first() =~= seq![win[1], win[2]]);
                lemma_run_in_order_append(sname, pre, win, os1, ow);
                lemma_ran_in_order_append(sname, pre, win, os1, ow);
                reveal_with_fuel(ran_in_order, 4);
                assert(unit_view(without_output(Err::<String, TmuxError>(e))) == run_in_order(sname, cmds, os1 + ow));
                assert(self.issued() =~= log0 + ran_in_order(sname, cmds, os1 + ow));
            }
            return Err(e);
        }
        let keys = vec![word("send-keys"), word("-t"), target, word(command), word("Enter")];
        proof {
            assert(views(keys@) =~= win[2]);
        }
        let r3 = self.run_tmux(&keys, Ghost(win[2]));
        let ghost o3 = choose|o: Result<CommandOutput, String>| result_view(r3) == #[trigger] interpret(sname, win[2], o);
        proof {
            reveal_with_fuel(run_in_order, 4);
            let ow = seq![o1, o2, o3];
            assert(ow.drop_first() =~= seq![o2, o3]);
            assert(ow.drop_first().drop_first() =~= seq![o3]);
            assert(win.drop_first() =~= seq![win[1], win[2]]);
            assert(win.drop_first().drop_first() =~= seq![win[2]]);
            assert(seq![o3].drop_first() =~= Seq::<Result<CommandOutput, String>>::empty());
            assert(seq![win[2]].drop_first() =~= Seq::<Seq<Seq<char>>>::empty());
            lemma_run_in_order_append(sname, pre, win, os1, ow);
            lemma_ran_in_order_append(sname, pre, win, os1, ow);
            reveal_with_fuel(ran_in_order, 4);
            assert(self.issued() =~= log0 + ran_in_order(sname, cmds, os1 + ow));
        }
        match r3 {
            Err(e) => {
                proof {
                    assert(unit_view(without_output(Err::<String, TmuxError>(e))) == run_in_order(sname, cmds, os1 + seq![o1, o2, o3]));
                }
                Err(e)
            },
            Ok(_) => {
                proof {
                    assert(run_in_order(sname, win, seq![o1, o2, o3]) == Ok::<(), TmuxFailure>(()));
                }
                Ok(word(name))
            },
        }
    }

    /// Sends `keys` to window `pane_id` verbatim, with no Enter appended.
    pub fn send_keys(&mut self, pane_id: &str, keys: &str) -> (r: TmuxResult<()>)
        ensures
            final(self).same_session(old(self)),
            final(self).issued() == old(self).issued().push(send_keys_words(target_of(old(self).name(), pane_id@), keys@)),
            exists|o: Result<CommandOutput, String>| unit_view(r) == discard_output(
                interpret(old(self).name(), send_keys_words(target_of(old(self).name(), pane_id@), keys@), o),
            ),
            r matches Err(e) ==> is_engine_failure(old(self).name(), e@),
    {
        let ghost words = send_keys_words(target_of(self.name(), pane_id@), keys@);
        let args = vec![word("send-keys"), word("-t"), self.target(pane_id), word(keys)];
        proof {
            assert(views(args@) =~= words);
        }
        match self.run_tmux(&args, Ghost(words)) {
            Err(e) => Err(e),
            Ok(_) => Ok(()),
        }
    }

    /// The text of window `pane_id`, starting `lines` lines back in its
    /// history, exactly as printed.
    pub fn capture_pane(&mut self, pane_id: &str, lines: i32) -> (r: TmuxResult<String>)
        ensures
            final(self).same_session(old(self)),
            final(self).issued() == old(self).issued().push(capture_words(target_of(old(self).name(), pane_id@), lines as int)),
            exists|o: Result<CommandOutput, String>| result_view(r) == interpret(
                old(self).name(),
                capture_words(target_of(old(self).name(), pane_id@), lines as int),
                o,
            ),
            r matches Err(e) ==> is_engine_failure(old(self).name(), e@),
    {
        let ghost words = capture_words(target_of(self.name(), pane_id@), lines as int);
        let mut start = String::from_str("-");
        push_signed(&mut start, lines);
        let args = vec![word("capture-pane"), word("-t"), self.target(pane_id), word("-p"), word("-S"), start];
        proof {
            assert(views(args@) =~= words);
        }
        self.run_tmux(&args, Ghost(words))
    }

    /// Destroys window `pane_id`.
    pub fn kill_pane(&mut self, pane_id: &str) -> (r: TmuxResult<()>)
        ensures
            final(self).same_session(old(self)),
            final(self).issued() == old(self).issued().push(kill_window_words(target_of(old(self).name(), pane_id@))),
            exists|o: Result<CommandOutput, String>| unit_view(r) == discard_output(
                interpret(old(self).name(), kill_window_words(target_of(old(self).name(), pane_id@)), o),
            ),
            r matches Err(e) ==> is_engine_failure(old(self).name(), e@),
    {
        let ghost words = kill_window_words(target_of(self.name(), pane_id@));
        let args = vec![word("kill-window"), word("-t"), self.target(pane_id)];
        proof {
            assert(views(args@) =~= words);
        }
        match self.run_tmux(&args, Ghost(words)) {
            Err(e) => Err(e),
            Ok(_) => Ok(()),
        }
    }

    /// Every window of the session, skipping malformed lines; empty when the
    /// session was never created.
    pub fn list_windows(&mut self) -> (r: TmuxResult<Vec<WindowInfo>>)
        ensures
            final(self).same_session(old(self)),
            final(self).issued() == if old(self).created() {
                old(self).issued().push(list_windows_words(old(self).name()))
            } else {
                old(self).issued()
            },
            !old(self).created() ==> (r matches Ok(ws) && ws@.len() == 0),
            old(self).created() ==> exists|o: Result<CommandOutput, String>| windows_view(r) == listing_windows(
                interpret(old(self).name(), list_windows_words(old(self).name()), o),
            ),
            r matches Err(e) ==> is_engine_failure(old(self).name(), e@),
    {
        if !self.session_created {
            return Ok(Vec::new());
        }
        let ghost words = list_windows_words(self.name());
        let args = vec![
            word("list-windows"),
            word("-t"),
            self.session_name.clone(),
            word("-F"),
            word("#{window_name}|#{pane_pid}|#{pane_dead}"),
        ];
        proof {
            assert(views(args@) =~= words);
        }
        match self.run_tmux(&args, Ghost(words)) {
            Err(e) => Err(e),
            Ok(output) => Ok(parse_window_list(output.as_str())),
        }
    }

    /// The window `pane_id`, from the first line of a listing scoped to it.
    pub fn get_window_info(&mut self, pane_id: &str) -> (r: TmuxResult<WindowInfo>)
        ensures
            final(self).same_session(old(self)),
            final(self).issued() == old(self).issued().push(list_windows_words(target_of(old(self).name(), pane_id@))),
            exists|o: Result<CommandOutput, String>| window_view(r) == scoped_window(
                pane_id@,
                interpret(old(self).name(), list_windows_words(target_of(old(self).name(), pane_id@)), o),
            ),
            r matches Err(e) ==> is_engine_failure(old(self).name(), e@) || e@ == TmuxFailure::WindowNotFound(pane_id@),
    {
        let ghost words = list_windows_words(target_of(self.name(), pane_id@));
        let args = vec![
            word("list-windows"),
            word("-t"),
            self.target(pane_id),
            word("-F"),
            word("#{window_name}|#{pane_pid}|#{pane_dead}"),
        ];
        proof {
            assert(views(args@) =~= words);
        }
        match self.run_tmux(&args, Ghost(words)) {
            Err(e) => Err(e),
            Ok(output) => parse_first_window(pane_id, output.as_str()),
        }
    }

    /// Kills the session, ignoring failures since it may already be gone.
    pub fn kill_session(&mut self) -> (r: TmuxResult<()>)
        ensures
            r is Ok,
            !final(self).created(),
            final(self).name() == old(self).name(),
            final(self).runner() == old(self).runner(),
            final(self).issued() == if old(self).created() {
                old(self).issued().push(kill_session_words(old(self).name()))
            } else {
                old(self).issued()
            },
    {
        if !self.session_created {
            return Ok(());
        }
        let ghost words = kill_session_words(self.name());
        let args = vec![word("kill-session"), word("-t"), self.session_name.clone()];
        proof {
            assert(views(args@) =~= words);
        }
        let _ = self.run_tmux(&args, Ghost(words));
        self.session_created = false;
        Ok(())
    }
}

} // verus!
