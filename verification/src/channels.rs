//! Names of the event channels the frontend listens on, and the errors of
//! requests for sessions that do not run.

use vstd::prelude::*;

verus! {

/// The kinds of event the backend forwards to the frontend.
#[derive(Debug, Clone, Copy, PartialEq, Eq, Structural)]
pub enum Channel {
    /// Image pull progress, keyed by image.
    PullProgress,
    /// Container log lines, keyed by container id.
    LogLine,
    /// Container lifecycle events, keyed by connection id.
    ContainerEvent,
    /// Raw exec output, keyed by exec id.
    ExecOutput,
}

/// The name of a channel kind.
pub open spec fn channel_prefix(kind: Channel) -> Seq<char> {
    match kind {
        Channel::PullProgress => "pull-progress"@,
        Channel::LogLine => "log-line"@,
        Channel::ContainerEvent => "container-event"@,
        Channel::ExecOutput => "exec-output"@,
    }
}

/// The event name of channel `kind` for `key`: `<kind>:<key>`.
pub fn channel_name(kind: Channel, key: &str) -> (r: String)
    ensures
        r@ == channel_prefix(kind) + ":"@ + key@,
{
    let mut r = match kind {
        Channel::PullProgress => "pull-progress".to_owned(),
        Channel::LogLine => "log-line".to_owned(),
        Channel::ContainerEvent => "container-event".to_owned(),
        Channel::ExecOutput => "exec-output".to_owned(),
    };
    r.append(":");
    r.append(key);
    r
}

/// The error of a request for an exec session that does not run.
pub fn missing_exec_session(exec_id: &str) -> (r: String)
    ensures
        r@ == "no exec session for "@ + exec_id@,
{
    let mut r = "no exec session for ".to_owned();
    r.append(exec_id);
    r
}

} // verus!
