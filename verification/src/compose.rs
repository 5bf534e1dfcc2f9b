//! `docker compose` CLI passthrough: which connections it may run against,
//! and the command line it runs.

use vstd::prelude::*;
use crate::connections::ConnectionInfo;
use crate::text::{same_text, texts};

verus! {

/// One line of `docker compose` output, tagged by which stream it came from.
#[derive(Debug, Clone, PartialEq)]
pub struct ComposeLine {
    pub stream: String,
    pub message: String,
}

/// The refusal of compose against a remote engine.
pub open spec fn compose_remote_message() -> Seq<char> {
    "compose requires a local connection"@
}

/// Compose only works against the engine the local CLI itself talks to:
/// there's no way to point `docker compose` at an arbitrary remote host.
pub fn ensure_local(info: &ConnectionInfo) -> (r: Result<(), String>)
    ensures
        r is Ok <==> info.endpoint@ == "local"@,
        r matches Err(msg) ==> msg@ == compose_remote_message(),
{
    if !same_text(info.endpoint.as_str(), "local") {
        return Err("compose requires a local connection".to_owned());
    }
    Ok(())
}

/// The program compose runs: the `docker` CLI.
pub fn compose_program() -> (r: String)
    ensures
        r@ == "docker"@,
{
    "docker".to_owned()
}

/// The arguments of `docker compose -f <file> <args>`.
pub fn compose_args(file: &str, args: &[&str]) -> (r: Vec<String>)
    ensures
        texts(r@) == seq!["compose"@, "-f"@, file@] + args@.map_values(|a: &str| a@),
{
    let mut r: Vec<String> = Vec::new();
    r.push("compose".to_owned());
    r.push("-f".to_owned());
    r.push(file.to_owned());
    let mut i: usize = 0;
    while i < args.len()
        invariant
            i <= args.len(),
            texts(r@) == seq!["compose"@, "-f"@, file@] + args@.take(i as int).map_values(|a: &str| a@),
        decreases args.len() - i,
    {
        let ghost prev = texts(r@);
        r.push(args[i].to_owned());
        assert(texts(r@) =~= prev.push(args@[i as int]@));
        assert(args@.take(i + 1).map_values(|a: &str| a@) =~= args@.take(i as int).map_values(|a: &str| a@).push(args@[i as int]@));
        i = i + 1;
    }
    assert(args@.take(args.len() as int) =~= args@);
    r
}

} // verus!
