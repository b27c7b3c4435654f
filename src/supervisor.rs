//! The state of one supervised process kind: the live child, the exit flag,
//! bounded tails of its output, and the parameters of the current run.
//!
//! The state is generic over the child handle, so the code that spawns and
//! kills processes owns that part; every decision about the state lives here.
use vstd::prelude::*;
use crate::text::{
    clone_opt, concat_str, opt_str_view, contains, decimal, decimal_string, decode_lossy, keep_tail, opt_view,
    str_contains, truncate_output, utf8_lossy,
};

verus! {

/// How many of the most recent characters of each output stream are kept.
pub const OUTPUT_LIMIT: usize = 8000;

/// One event of a child's output stream.
pub enum ProcessEvent {
    /// A chunk of standard output, as raw bytes.
    Stdout(Vec<u8>),
    /// A chunk of standard error, as raw bytes.
    Stderr(Vec<u8>),
    /// The process ended, with its exit code when it has one.
    Terminated(Option<i32>),
    /// The transport reported an error.
    Error(String),
    /// Any other event; it changes nothing.
    Other,
}

/// The mutable state of one supervised process kind.
pub struct SupervisorState<C> {
    /// The name used in the messages this state writes.
    pub label: String,
    /// Text whose appearance on standard output marks the account as linked.
    pub link_marker: Option<String>,
    /// The live child, owned exclusively.
    pub child: Option<C>,
    /// Set once the child has terminated or its stream has failed.
    pub child_exited: bool,
    /// The workspace of the current run.
    pub workspace_path: Option<String>,
    /// The connection URL handed to the current run.
    pub connection_url: Option<String>,
    /// The most recent standard output.
    pub last_stdout: Option<String>,
    /// The most recent standard error.
    pub last_stderr: Option<String>,
    /// Whether the link marker has been seen.
    pub linked: bool,
}

/// The mathematical content of a `SupervisorState`.
pub struct SupervisorView {
    pub label: Seq<char>,
    pub link_marker: Option<Seq<char>>,
    pub has_child: bool,
    pub exited: bool,
    pub workspace_path: Option<Seq<char>>,
    pub connection_url: Option<Seq<char>>,
    pub stdout: Option<Seq<char>>,
    pub stderr: Option<Seq<char>>,
    pub linked: bool,
}

impl<C> View for SupervisorState<C> {
    type V = SupervisorView;

    open spec fn view(&self) -> SupervisorView {
        SupervisorView {
            label: self.label@,
            link_marker: opt_view(self.link_marker),
            has_child: self.child is Some,
            exited: self.child_exited,
            workspace_path: opt_view(self.workspace_path),
            connection_url: opt_view(self.connection_url),
            stdout: opt_view(self.last_stdout),
            stderr: opt_view(self.last_stderr),
            linked: self.linked,
        }
    }
}

/// A read-only copy of the observable state.
pub struct ProcessSnapshot {
    /// A child is registered and has not exited.
    pub running: bool,
    pub exited: bool,
    pub workspace_path: Option<String>,
    pub connection_url: Option<String>,
    pub last_stdout: Option<String>,
    pub last_stderr: Option<String>,
    pub linked: bool,
}

/// The mathematical content of a `ProcessSnapshot`.
pub struct SnapshotView {
    pub running: bool,
    pub exited: bool,
    pub workspace_path: Option<Seq<char>>,
    pub connection_url: Option<Seq<char>>,
    pub stdout: Option<Seq<char>>,
    pub stderr: Option<Seq<char>>,
    pub linked: bool,
}

impl View for ProcessSnapshot {
    type V = SnapshotView;

    open spec fn view(&self) -> SnapshotView {
        SnapshotView {
            running: self.running,
            exited: self.exited,
            workspace_path: opt_view(self.workspace_path),
            connection_url: opt_view(self.connection_url),
            stdout: opt_view(self.last_stdout),
            stderr: opt_view(self.last_stderr),
            linked: self.linked,
        }
    }
}

/// What a snapshot of `s` shows.
pub open spec fn snapshot_of(s: SupervisorView) -> SnapshotView {
    SnapshotView {
        running: s.has_child && !s.exited,
        exited: s.exited,
        workspace_path: s.workspace_path,
        connection_url: s.connection_url,
        stdout: s.stdout,
        stderr: s.stderr,
        linked: s.linked,
    }
}

/// The fresh state of a supervisor that has never run.
pub open spec fn idle(label: Seq<char>, link_marker: Option<Seq<char>>) -> SupervisorView {
    SupervisorView {
        label,
        link_marker,
        has_child: false,
        exited: false,
        workspace_path: None,
        connection_url: None,
        stdout: None,
        stderr: None,
        linked: false,
    }
}

/// `s` after a stop: the child is released, everything else stays.
pub open spec fn stopped(s: SupervisorView) -> SupervisorView {
    SupervisorView { has_child: false, ..s }
}

/// `s` after a new child was registered: output and exit flag are reset and
/// the run's parameters recorded.
pub open spec fn started(
    s: SupervisorView,
    workspace_path: Seq<char>,
    connection_url: Option<Seq<char>>,
) -> SupervisorView {
    SupervisorView {
        has_child: true,
        exited: false,
        workspace_path: Some(workspace_path),
        connection_url,
        stdout: None,
        stderr: None,
        ..s
    }
}

pub open spec fn or_empty(o: Option<Seq<char>>) -> Seq<char> {
    match o {
        Some(s) => s,
        None => Seq::empty(),
    }
}

/// A buffer after `text` is appended and the result cut to the retention limit.
pub open spec fn appended(buf: Option<Seq<char>>, text: Seq<char>) -> Option<Seq<char>> {
    Some(keep_tail(or_empty(buf) + text, OUTPUT_LIMIT as nat))
}

/// The message recorded when the process exits with `code`.
pub open spec fn exit_message(label: Seq<char>, code: i32) -> Seq<char> {
    label + " exited (code "@ + decimal(code as int) + ")."@
}

/// `s` after one event of the output stream.
pub open spec fn after_event(s: SupervisorView, ev: ProcessEvent) -> SupervisorView {
    match ev {
        ProcessEvent::Stdout(b) => {
            let line = utf8_lossy(b@);
            let seen = match s.link_marker {
                Some(m) => contains(line, m),
                None => false,
            };
            SupervisorView { stdout: appended(s.stdout, line), linked: s.linked || seen, ..s }
        },
        ProcessEvent::Stderr(b) => SupervisorView { stderr: appended(s.stderr, utf8_lossy(b@)), ..s },
        ProcessEvent::Terminated(code) => match code {
            Some(c) => SupervisorView {
                exited: true,
                stderr: Some(keep_tail(exit_message(s.label, c), OUTPUT_LIMIT as nat)),
                ..s
            },
            None => SupervisorView { exited: true, ..s },
        },
        ProcessEvent::Error(msg) => SupervisorView { exited: true, stderr: appended(s.stderr, msg@), ..s },
        ProcessEvent::Other => s,
    }
}

/// `buf` with `text` appended, keeping the most recent characters.
fn append_output(buf: &Option<String>, text: &str) -> (r: String)
    ensures
        Some(r@) == appended(opt_view(*buf), text@),
{
    let mut next = match buf {
        Some(b) => b.clone(),
        None => String::new(),
    };
    next.append(text);
    truncate_output(next.as_str(), OUTPUT_LIMIT)
}

impl<C> SupervisorState<C> {
    /// An idle supervisor whose messages name it `label`.
    pub fn new(label: &str, link_marker: Option<&str>) -> (r: Self)
        ensures
            r@ == idle(label@, opt_str_view(link_marker)),
    {
        SupervisorState {
            label: String::from_str(label),
            link_marker: match link_marker {
                Some(m) => Some(String::from_str(m)),
                None => None,
            },
            child: None,
            child_exited: false,
            workspace_path: None,
            connection_url: None,
            last_stdout: None,
            last_stderr: None,
            linked: false,
        }
    }

    /// Releases the live child, if any, and hands it back so that the caller
    /// terminates it. On an idle supervisor this changes nothing.
    pub fn stop_locked(&mut self) -> (r: Option<C>)
        ensures
            r == old(self).child,
            final(self).child is None,
            final(self)@ == stopped(old(self)@),
    {
        self.child.take()
    }

    /// Registers `child` as the live process of a new run: output and exit
    /// flag are cleared and the run's parameters recorded. A child that was
    /// still registered is handed back for termination, so no two children
    /// are ever held at once.
    pub fn start_locked(&mut self, child: C, workspace_path: String, connection_url: Option<String>) -> (r: Option<C>)
        ensures
            r == old(self).child,
            final(self).child == Some(child),
            final(self)@ == started(old(self)@, workspace_path@, opt_view(connection_url)),
    {
        let previous = self.child.take();
        self.child = Some(child);
        self.child_exited = false;
        self.workspace_path = Some(workspace_path);
        self.connection_url = connection_url;
        self.last_stdout = None;
        self.last_stderr = None;
        previous
    }

    /// A copy of the observable state.
    pub fn snapshot_locked(&self) -> (r: ProcessSnapshot)
        ensures
            r@ == snapshot_of(self@),
    {
        ProcessSnapshot {
            running: self.child.is_some() && !self.child_exited,
            exited: self.child_exited,
            workspace_path: clone_opt(&self.workspace_path),
            connection_url: clone_opt(&self.connection_url),
            last_stdout: clone_opt(&self.last_stdout),
            last_stderr: clone_opt(&self.last_stderr),
            linked: self.linked,
        }
    }

    /// Applies one event of the child's output stream.
    pub fn apply_event(&mut self, ev: ProcessEvent)
        ensures
            final(self).child == old(self).child,
            final(self)@ == after_event(old(self)@, ev),
    {
        match ev {
            ProcessEvent::Stdout(bytes) => {
                let line = decode_lossy(&bytes);
                let next = append_output(&self.last_stdout, line.as_str());
                self.last_stdout = Some(next);
                let seen = match &self.link_marker {
                    Some(m) => str_contains(line.as_str(), m.as_str()),
                    None => false,
                };
                if seen {
                    self.linked = true;
                }
            },
            ProcessEvent::Stderr(bytes) => {
                let line = decode_lossy(&bytes);
                let next = append_output(&self.last_stderr, line.as_str());
                self.last_stderr = Some(next);
            },
            ProcessEvent::Terminated(code) => {
                self.child_exited = true;
                if let Some(c) = code {
                    let head = concat_str(self.label.as_str(), " exited (code ");
                    let num = decimal_string(c as i64);
                    let msg = head.concat(num.as_str()).concat(").");
                    self.last_stderr = Some(truncate_output(msg.as_str(), OUTPUT_LIMIT));
                }
            },
            ProcessEvent::Error(message) => {
                self.child_exited = true;
                let next = append_output(&self.last_stderr, message.as_str());
                self.last_stderr = Some(next);
            },
            ProcessEvent::Other => {},
        }
    }
}

/// Both output buffers hold at most the retention limit.
pub open spec fn buffers_bounded(s: SupervisorView) -> bool {
    &&& or_empty(s.stdout).len() <= OUTPUT_LIMIT
    &&& or_empty(s.stderr).len() <= OUTPUT_LIMIT
}

/// Appending output never leaves more than the retention limit, and what is
/// kept is the most recent text: all of `text` when it fits, otherwise its
/// last `OUTPUT_LIMIT` characters.
pub proof fn lemma_output_bound(buf: Option<Seq<char>>, text: Seq<char>)
    ensures
        appended(buf, text)->0.len() <= OUTPUT_LIMIT,
        ({
            let kept = appended(buf, text)->0;
            text.len() <= OUTPUT_LIMIT ==> kept.subrange(kept.len() - text.len(), kept.len() as int)
                == text
        }),
        text.len() >= OUTPUT_LIMIT ==> appended(buf, text)->0 == text.subrange(
            text.len() - OUTPUT_LIMIT,
            text.len() as int,
        ),
{
    let all = or_empty(buf) + text;
    let kept = appended(buf, text)->0;
    if text.len() <= OUTPUT_LIMIT {
        assert(kept.subrange(kept.len() - text.len(), kept.len() as int) =~= text);
    }
    if text.len() >= OUTPUT_LIMIT {
        assert(kept =~= text.subrange(text.len() - OUTPUT_LIMIT, text.len() as int));
    }
}

/// Every event, stop and start keeps both buffers within the retention limit.
pub proof fn lemma_buffers_stay_bounded(
    s: SupervisorView,
    ev: ProcessEvent,
    workspace_path: Seq<char>,
    connection_url: Option<Seq<char>>,
)
    requires
        buffers_bounded(s),
    ensures
        buffers_bounded(after_event(s, ev)),
        buffers_bounded(stopped(s)),
        buffers_bounded(started(s, workspace_path, connection_url)),
{
    match ev {
        ProcessEvent::Stdout(b) => lemma_output_bound(s.stdout, utf8_lossy(b@)),
        ProcessEvent::Stderr(b) => lemma_output_bound(s.stderr, utf8_lossy(b@)),
        ProcessEvent::Error(m) => lemma_output_bound(s.stderr, m@),
        _ => {},
    }
}

/// Stopping an idle supervisor changes nothing, and its snapshot shows no
/// running child.
pub proof fn lemma_stop_when_idle(s: SupervisorView)
    requires
        !s.has_child,
    ensures
        stopped(s) == s,
        !snapshot_of(stopped(s)).running,
{
}

/// Starting twice in succession (the second start stopping the first run)
/// leaves exactly the second run: one child, no exit flag, empty buffers and
/// the second run's parameters, with nothing left of the first run.
pub proof fn lemma_start_twice(
    s: SupervisorView,
    first_path: Seq<char>,
    first_url: Option<Seq<char>>,
    second_path: Seq<char>,
    second_url: Option<Seq<char>>,
)
    ensures
        ({
            let twice = started(stopped(started(s, first_path, first_url)), second_path, second_url);
            &&& twice == started(s, second_path, second_url)
            &&& twice.has_child
            &&& !twice.exited
            &&& twice.stdout is None
            &&& twice.stderr is None
            &&& twice.workspace_path == Some(second_path)
            &&& snapshot_of(twice).running
        }),
{
}

} // verus!
