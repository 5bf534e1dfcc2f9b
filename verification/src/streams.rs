//! The items of the engine's streams: container lifecycle events, image pull
//! progress, container log lines and raw exec output.

use vstd::prelude::*;
use vstd::utf8::{decode_utf8, valid_utf8};
use crate::text::{lemma_strip_trailing, opt_text, strip_trailing, text_or_empty, texts, trim_end_char};

verus! {

/// The container lifecycle actions the events stream forwards; other event
/// types (image, network, volume, ...) are filtered out engine-side.
pub open spec fn container_event_actions() -> Seq<Seq<char>> {
    seq![
        "start"@,
        "stop"@,
        "die"@,
        "destroy"@,
        "create"@,
        "rename"@,
        "health_status"@,
    ]
}

/// The filters of the events request: type `container`, and the actions of
/// [`container_event_actions`].
pub fn container_event_filters() -> (r: Vec<(String, Vec<String>)>)
    ensures
        r.len() == 2,
        r@[0].0@ == "type"@,
        texts(r@[0].1@) == seq!["container"@],
        r@[1].0@ == "event"@,
        texts(r@[1].1@) == container_event_actions(),
{
    let mut kinds: Vec<String> = Vec::new();
    kinds.push("container".to_owned());
    let mut actions: Vec<String> = Vec::new();
    actions.push("start".to_owned());
    actions.push("stop".to_owned());
    actions.push("die".to_owned());
    actions.push("destroy".to_owned());
    actions.push("create".to_owned());
    actions.push("rename".to_owned());
    actions.push("health_status".to_owned());
    assert(texts(kinds@) =~= seq!["container"@]);
    assert(texts(actions@) =~= container_event_actions());
    let mut r: Vec<(String, Vec<String>)> = Vec::new();
    r.push(("type".to_owned(), kinds));
    r.push(("event".to_owned(), actions));
    r
}

/// A container lifecycle event, forwarded to the frontend so the table can
/// refresh itself instead of waiting for a manual Refresh click.
#[derive(Debug, Clone, PartialEq)]
pub struct ContainerEvent {
    pub action: String,
    pub container_id: String,
    pub container_name: Option<String>,
}

/// The event row for one engine event message: its action and actor id
/// (empty where absent) and the actor's `name` attribute.
pub fn container_event_from(action: Option<String>, actor_id: Option<String>, actor_name: Option<String>) -> (r: ContainerEvent)
    ensures
        r.action@ == opt_text(action),
        r.container_id@ == opt_text(actor_id),
        r.container_name == actor_name,
{
    ContainerEvent {
        action: text_or_empty(action),
        container_id: text_or_empty(actor_id),
        container_name: actor_name,
    }
}

/// One line of `docker pull` progress: layer id plus a human-readable status.
#[derive(Debug, Clone, PartialEq)]
pub struct PullProgress {
    pub id: Option<String>,
    pub status: String,
    pub progress: Option<String>,
}

/// The progress row for one pull update: the status is empty where absent.
pub fn pull_progress_from(id: Option<String>, status: Option<String>, progress: Option<String>) -> (r: PullProgress)
    ensures
        r.id == id,
        r.status@ == opt_text(status),
        r.progress == progress,
{
    PullProgress { id, status: text_or_empty(status), progress }
}

/// Which stream a chunk of container output came from.
#[derive(Debug, Clone, Copy, PartialEq, Eq, Structural)]
pub enum LogSource {
    StdOut,
    StdErr,
    StdIn,
    Console,
}

/// The name the frontend shows for a stream.
pub open spec fn source_label(source: LogSource) -> Seq<char> {
    match source {
        LogSource::StdOut => "stdout"@,
        LogSource::StdErr => "stderr"@,
        LogSource::StdIn => "stdin"@,
        LogSource::Console => "console"@,
    }
}

/// One line of container log output, tagged by which stream it came from.
#[derive(Debug, Clone, PartialEq)]
pub struct LogLine {
    pub stream: String,
    pub message: String,
}

/// The text `String::from_utf8_lossy` makes of `bytes`.
pub uninterp spec fn lossy_text(bytes: Seq<u8>) -> Seq<char>;

/// Decodes `bytes` as UTF-8 with `String::from_utf8_lossy`, each invalid
/// sequence becoming U+FFFD. Claimed: the result is a function of the bytes
/// alone, valid UTF-8 decodes to exactly its characters, and invalid input
/// yields at least one U+FFFD; where each replacement stands is not stated.
#[verifier::external_body]
fn decode_lossy(bytes: &[u8]) -> (r: String)
    ensures
        r@ == lossy_text(bytes@),
        valid_utf8(bytes@) ==> r@ == decode_utf8(bytes@),
        !valid_utf8(bytes@) ==> r@.contains('\u{FFFD}'),
{
    String::from_utf8_lossy(bytes).into_owned()
}

/// The stream name of `source`.
pub fn source_name(source: LogSource) -> (r: String)
    ensures
        r@ == source_label(source),
{
    match source {
        LogSource::StdOut => "stdout".to_owned(),
        LogSource::StdErr => "stderr".to_owned(),
        LogSource::StdIn => "stdin".to_owned(),
        LogSource::Console => "console".to_owned(),
    }
}

/// The log line for one chunk of container output: its stream's name, and
/// its text (decoded lossily) without trailing newlines.
pub fn log_line_from(source: LogSource, message: &[u8]) -> (r: LogLine)
    ensures
        r.stream@ == source_label(source),
        r.message@ == strip_trailing(lossy_text(message@), '\n'),
        valid_utf8(message@) ==> r.message@ == strip_trailing(decode_utf8(message@), '\n'),
        !valid_utf8(message@) ==> r.message@.contains('\u{FFFD}'),
{
    let text = decode_lossy(message);
    let trimmed = trim_end_char(text.as_str(), '\n');
    proof {
        lemma_strip_trailing(text@, '\n');
        if !valid_utf8(message@) {
            let k = choose|k: int| 0 <= k < text@.len() && text@[k] == '\u{FFFD}';
            assert(k < trimmed@.len());
            assert(trimmed@[k] == '\u{FFFD}');
        }
    }
    LogLine { stream: source_name(source), message: trimmed }
}

/// A raw chunk of exec output, decoded as (possibly lossy) UTF-8. Unlike
/// [`log_line_from`], nothing is split or trimmed: a terminal emulator needs
/// the bytes verbatim, bare `\r` and prompts without a newline included.
pub fn exec_output_text(message: &[u8]) -> (r: String)
    ensures
        r@ == lossy_text(message@),
        valid_utf8(message@) ==> r@ == decode_utf8(message@),
        !valid_utf8(message@) ==> r@.contains('\u{FFFD}'),
{
    decode_lossy(message)
}


/// How container logs are followed.
#[derive(Debug, Clone, PartialEq)]
pub struct LogFollowOptions {
    pub follow: bool,
    pub stdout: bool,
    pub stderr: bool,
    /// How many earlier lines to backfill first.
    pub tail: String,
}

/// Follow stdout and stderr, backfilling the last 500 lines first.
pub fn log_follow_options() -> (r: LogFollowOptions)
    ensures
        r.follow && r.stdout && r.stderr,
        r.tail@ == "500"@,
{
    LogFollowOptions { follow: true, stdout: true, stderr: true, tail: "500".to_owned() }
}

/// How an interactive exec session is created.
#[derive(Debug, Clone, PartialEq)]
pub struct ExecSessionOptions {
    pub attach_stdin: bool,
    pub attach_stdout: bool,
    pub attach_stderr: bool,
    pub tty: bool,
    pub cmd: Vec<String>,
}

/// An exec of `shell` alone, with a TTY and all three streams attached.
pub fn exec_session_options(shell: &str) -> (r: ExecSessionOptions)
    ensures
        r.attach_stdin && r.attach_stdout && r.attach_stderr && r.tty,
        texts(r.cmd@) == seq![shell@],
{
    let mut cmd: Vec<String> = Vec::new();
    cmd.push(shell.to_owned());
    assert(texts(cmd@) =~= seq![shell@]);
    ExecSessionOptions { attach_stdin: true, attach_stdout: true, attach_stderr: true, tty: true, cmd }
}

} // verus!
