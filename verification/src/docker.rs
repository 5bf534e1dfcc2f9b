//! Shapes Docker Engine API replies into the rows the frontend renders, and
//! decides what each engine request is, before any request is sent.

use vstd::prelude::*;
use crate::connections::ConnectionInfo;
use crate::text::{
    display_name, first_display_name, opt_text, push_decimal, decimal, text_or_empty,
    list_or_empty, texts, push_char, same_text,
};

verus! {

/// One published port of a container as the engine lists it.
#[derive(Debug, Clone, Copy)]
pub struct PortRecord {
    pub private_port: u16,
    pub public_port: Option<u16>,
}

/// One mount of a container as the engine lists it.
#[derive(Debug, Clone)]
pub struct MountRecord {
    /// The mount is a named volume (not a bind or tmpfs mount).
    pub is_volume: bool,
    pub name: Option<String>,
}

/// One container as the engine's container list reports it.
#[derive(Debug, Clone)]
pub struct ContainerRecord {
    pub id: Option<String>,
    pub names: Option<Vec<String>>,
    pub image: Option<String>,
    pub state: Option<String>,
    pub status: Option<String>,
    pub ports: Option<Vec<PortRecord>>,
    pub mounts: Option<Vec<MountRecord>>,
}

/// What the frontend renders per container row.
#[derive(Debug, Clone, PartialEq)]
pub struct ContainerInfo {
    pub id: String,
    pub name: String,
    pub image: String,
    pub state: String,
    pub status: String,
    pub ports: Vec<String>,
}

/// `public:private`, both in decimal.
pub open spec fn port_text(public: u16, private: u16) -> Seq<char> {
    decimal(public as nat).push(':') + decimal(private as nat)
}

/// The published ports of `ports`, in order, each as [`port_text`]; ports
/// with no public side are left out.
pub open spec fn published_ports(ports: Seq<PortRecord>) -> Seq<Seq<char>>
    decreases ports.len(),
{
    if ports.len() == 0 {
        Seq::empty()
    } else {
        let rest = published_ports(ports.drop_last());
        match ports.last().public_port {
            Some(p) => rest.push(port_text(p, ports.last().private_port)),
            None => rest,
        }
    }
}

/// The ports of an engine record, none where the engine reported none.
pub open spec fn record_ports(r: ContainerRecord) -> Seq<PortRecord> {
    match r.ports {
        Some(v) => v@,
        None => Seq::empty(),
    }
}

/// The mounts of an engine record, none where the engine reported none.
pub open spec fn record_mounts(r: ContainerRecord) -> Seq<MountRecord> {
    match r.mounts {
        Some(v) => v@,
        None => Seq::empty(),
    }
}

/// The published ports are exactly the ports with a public side, in order,
/// each as `public:private`.
pub proof fn lemma_published_ports_are_the_public_ones(ports: Seq<PortRecord>)
    ensures
        published_ports(ports) == ports.filter(|p: PortRecord| p.public_port is Some).map_values(
            |p: PortRecord| port_text(p.public_port->0, p.private_port),
        ),
    decreases ports.len(),
{
    let keep = |p: PortRecord| p.public_port is Some;
    let show = |p: PortRecord| port_text(p.public_port->0, p.private_port);
    if ports.len() == 0 {
        assert(ports.filter(keep) =~= Seq::<PortRecord>::empty()) by {
            reveal(Seq::filter);
        }
        assert(ports.filter(keep).map_values(show) =~= Seq::<Seq<char>>::empty());
    } else {
        let rest = ports.drop_last();
        lemma_published_ports_are_the_public_ones(rest);
        assert(rest.push(ports.last()) =~= ports);
        rest.lemma_filter_push(ports.last(), keep);
        if keep(ports.last()) {
            assert(rest.filter(keep).push(ports.last()).map_values(show) =~= rest.filter(keep).map_values(show).push(
                show(ports.last()),
            ));
        }
    }
}

/// Formats one published port as `public:private`.
pub fn format_port(public: u16, private: u16) -> (r: String)
    ensures
        r@ == port_text(public, private),
{
    let mut s = String::new();
    push_decimal(&mut s, public as u64);
    push_char(&mut s, ':');
    push_decimal(&mut s, private as u64);
    assert(s@ =~= port_text(public, private));
    s
}

/// The `public:private` text of each published port, in order.
pub fn published_port_list(ports: &Vec<PortRecord>) -> (r: Vec<String>)
    ensures
        texts(r@) == published_ports(ports@),
{
    let mut r: Vec<String> = Vec::new();
    let mut i: usize = 0;
    while i < ports.len()
        invariant
            i <= ports.len(),
            texts(r@) == published_ports(ports@.take(i as int)),
        decreases ports.len() - i,
    {
        let p = ports[i];
        assert(ports@.take(i + 1).drop_last() =~= ports@.take(i as int));
        match p.public_port {
            Some(public) => {
                let s = format_port(public, p.private_port);
                r.push(s);
                assert(texts(r@) =~= published_ports(ports@.take(i as int)).push(s@));
            },
            None => {},
        }
        i = i + 1;
    }
    assert(ports@.take(ports.len() as int) =~= ports@);
    r
}

/// The container row for one engine record: absent texts become empty, the
/// name is the first listed name without its leading `/`, and the ports are
/// the published ones as `public:private`.
pub fn container_info_from(rec: ContainerRecord) -> (r: ContainerInfo)
    ensures
        r.id@ == opt_text(rec.id),
        r.name@ == display_name(rec.names),
        r.image@ == opt_text(rec.image),
        r.state@ == opt_text(rec.state),
        r.status@ == opt_text(rec.status),
        texts(r.ports@) == published_ports(record_ports(rec)),
{
    let name = first_display_name(&rec.names);
    let ports = match &rec.ports {
        Some(v) => published_port_list(v),
        None => Vec::new(),
    };
    proof {
        if rec.ports is None {
            assert(texts(ports@) =~= published_ports(Seq::<PortRecord>::empty()));
        }
    }
    ContainerInfo {
        id: text_or_empty(rec.id),
        name,
        image: text_or_empty(rec.image),
        state: text_or_empty(rec.state),
        status: text_or_empty(rec.status),
        ports,
    }
}


/// The endpoint that means the platform-default local socket.
pub open spec fn is_local_endpoint(endpoint: Seq<char>) -> bool {
    endpoint == "local"@
}

/// Only the literal endpoint `local` means the platform default: every
/// other endpoint, `tcp://localhost:2375` and any other text of a length
/// other than five included, names the engine to reach.
pub proof fn lemma_only_local_means_the_default(endpoint: Seq<char>)
    ensures
        is_local_endpoint(endpoint) <==> endpoint == "local"@,
        endpoint.len() != 5 ==> !is_local_endpoint(endpoint),
{
    reveal_strlit("local");
}

/// How to reach the engine of a saved connection.
#[derive(Debug, PartialEq)]
pub enum ClientPlan {
    /// The platform default: named pipe on Windows, `/var/run/docker.sock`
    /// elsewhere.
    LocalDefaults,
    /// Mutual TLS to `endpoint`; the client key is the connection's
    /// keyring secret, the certificates are files already on disk.
    Tls { endpoint: String, client_cert_path: String, ca_cert_path: String, connection_id: String },
    /// Plain HTTP to a `tcp://` or `http://` endpoint.
    Http { endpoint: String },
}

/// The refusal for a TLS connection without a client certificate path.
pub open spec fn missing_client_cert_message() -> Seq<char> {
    "TLS is enabled but no client certificate path is set"@
}

/// The refusal for a TLS connection without a CA certificate path.
pub open spec fn missing_ca_cert_message() -> Seq<char> {
    "TLS is enabled but no CA certificate path is set"@
}

/// Decides how to reach the engine of `info`: the endpoint `local` always
/// means the platform default; otherwise TLS when enabled, which needs
/// both certificate paths (the client one is checked first); otherwise
/// plain HTTP.
pub fn client_plan(info: &ConnectionInfo) -> (r: Result<ClientPlan, String>)
    ensures
        is_local_endpoint(info.endpoint@) ==> r == Ok::<ClientPlan, String>(ClientPlan::LocalDefaults),
        !is_local_endpoint(info.endpoint@) && info.use_tls && info.client_cert_path is None ==> (r matches Err(
            msg,
        ) && msg@ == missing_client_cert_message()),
        !is_local_endpoint(info.endpoint@) && info.use_tls && info.client_cert_path is Some
            && info.ca_cert_path is None ==> (r matches Err(msg) && msg@ == missing_ca_cert_message()),
        !is_local_endpoint(info.endpoint@) && info.use_tls && info.client_cert_path is Some
            && info.ca_cert_path is Some ==> (r matches Ok(ClientPlan::Tls {
            endpoint,
            client_cert_path,
            ca_cert_path,
            connection_id,
        }) && endpoint == info.endpoint && client_cert_path == info.client_cert_path->0 && ca_cert_path
            == info.ca_cert_path->0 && connection_id == info.id),
        !is_local_endpoint(info.endpoint@) && !info.use_tls ==> (r matches Ok(ClientPlan::Http { endpoint })
            && endpoint == info.endpoint),
        r == Ok::<ClientPlan, String>(ClientPlan::LocalDefaults) <==> info.endpoint@ == "local"@,
        info.endpoint@ != "local"@ && !info.use_tls ==> (r matches Ok(ClientPlan::Http { endpoint })
            && endpoint == info.endpoint),
{
    if same_text(info.endpoint.as_str(), "local") {
        return Ok(ClientPlan::LocalDefaults);
    }
    if info.use_tls {
        let cert = match &info.client_cert_path {
            Some(p) => p.clone(),
            None => {
                return Err("TLS is enabled but no client certificate path is set".to_owned());
            },
        };
        let ca = match &info.ca_cert_path {
            Some(p) => p.clone(),
            None => {
                return Err("TLS is enabled but no CA certificate path is set".to_owned());
            },
        };
        return Ok(ClientPlan::Tls {
            endpoint: info.endpoint.clone(),
            client_cert_path: cert,
            ca_cert_path: ca,
            connection_id: info.id.clone(),
        });
    }
    Ok(ClientPlan::Http { endpoint: info.endpoint.clone() })
}

/// The report of a reachable engine: `Docker <version> (API <api version>)`,
/// absent versions shown empty.
pub open spec fn version_report(version: Seq<char>, api_version: Seq<char>) -> Seq<char> {
    "Docker "@ + version + " (API "@ + api_version + ")"@
}

/// What the "test connection" button reports of the engine's version reply.
pub fn engine_version_text(version: Option<String>, api_version: Option<String>) -> (r: String)
    ensures
        r@ == version_report(opt_text(version), opt_text(api_version)),
{
    let v = text_or_empty(version);
    let a = text_or_empty(api_version);
    let mut r = "Docker ".to_owned();
    r.append(v.as_str());
    r.append(" (API ");
    r.append(a.as_str());
    r.append(")");
    r
}

/// A container lifecycle action the table offers.
#[derive(Debug, Clone, Copy, PartialEq, Eq, Structural)]
pub enum ContainerAction {
    Start,
    Stop,
    Restart,
}

/// The action named `name`, if it is one of `start`, `stop`, `restart`.
pub open spec fn action_named(name: Seq<char>) -> Option<ContainerAction> {
    if name == "start"@ {
        Some(ContainerAction::Start)
    } else if name == "stop"@ {
        Some(ContainerAction::Stop)
    } else if name == "restart"@ {
        Some(ContainerAction::Restart)
    } else {
        None
    }
}

/// Exactly three names are actions, each naming a different action; a name
/// that merely starts with one of them, or differs in case, is none.
pub proof fn lemma_actions_are_exact(name: Seq<char>)
    ensures
        action_named(name) is Some <==> set!["start"@, "stop"@, "restart"@].contains(name),
        action_named("start"@) == Some(ContainerAction::Start),
        action_named("stop"@) == Some(ContainerAction::Stop),
        action_named("restart"@) == Some(ContainerAction::Restart),
{
    reveal_strlit("start");
    reveal_strlit("stop");
    reveal_strlit("restart");
    assert("start"@[2] != "stop"@[2]);
    assert("restart"@.len() != "start"@.len());
    assert("restart"@.len() != "stop"@.len());
}

/// The refusal of an action that is none of `start`, `stop`, `restart`.
pub open spec fn unknown_action_message(name: Seq<char>) -> Seq<char> {
    "unknown container action: "@ + name
}

/// The refusal of an unknown action ends with the action's name.
pub proof fn lemma_refusal_names_the_action(name: Seq<char>)
    ensures
        unknown_action_message(name).subrange(
            unknown_action_message(name).len() - name.len(),
            unknown_action_message(name).len() as int,
        ) == name,
{
    assert(unknown_action_message(name).subrange(
        unknown_action_message(name).len() - name.len(),
        unknown_action_message(name).len() as int,
    ) =~= name);
}

/// Reads a container action by name; any other name is refused before a
/// request is made.
pub fn container_action(action: &str) -> (r: Result<ContainerAction, String>)
    ensures
        r is Ok <==> action_named(action@) is Some,
        r matches Ok(a) ==> action_named(action@) == Some(a),
        r matches Err(msg) ==> msg@ == unknown_action_message(action@),
{
    if same_text(action, "start") {
        Ok(ContainerAction::Start)
    } else if same_text(action, "stop") {
        Ok(ContainerAction::Stop)
    } else if same_text(action, "restart") {
        Ok(ContainerAction::Restart)
    } else {
        let mut msg = "unknown container action: ".to_owned();
        msg.append(action);
        Err(msg)
    }
}

/// A host:container port mapping from the create/run dialog.
#[derive(Debug, Clone, PartialEq)]
pub struct PortMapping {
    pub host: String,
    pub container: String,
}

/// The engine's key for a TCP container port: `<port>/tcp`.
pub open spec fn tcp_port_key(container: Seq<char>) -> Seq<char> {
    container + "/tcp"@
}

/// The exposed-port and binding entries for `ports`, in order: each as its
/// TCP container-port key and host port. Two mappings of the same
/// container port give two entries with the same key.
pub fn port_binding_plan(ports: &Vec<PortMapping>) -> (r: Vec<(String, String)>)
    ensures
        r.len() == ports.len(),
        forall|i: int| 0 <= i < r.len() ==> (#[trigger] r@[i]).0@ == tcp_port_key(ports@[i].container@)
            && r@[i].1@ == ports@[i].host@,
{
    let mut r: Vec<(String, String)> = Vec::new();
    let mut i: usize = 0;
    while i < ports.len()
        invariant
            i <= ports.len(),
            r.len() == i,
            forall|k: int| 0 <= k < i ==> (#[trigger] r@[k]).0@ == tcp_port_key(ports@[k].container@)
                && r@[k].1@ == ports@[k].host@,
        decreases ports.len() - i,
    {
        let mut key = ports[i].container.clone();
        key.append("/tcp");
        r.push((key, ports[i].host.clone()));
        i = i + 1;
    }
    r
}

/// What the frontend renders per image row.
#[derive(Debug, Clone, PartialEq)]
pub struct ImageInfo {
    pub id: String,
    pub tags: Vec<String>,
    pub size: i64,
    pub created: i64,
}

/// What a prune call removed and how much disk space it freed. Networks
/// don't report reclaimed space (there's nothing to reclaim), so it's `None`
/// there.
#[derive(Debug, Clone, PartialEq)]
pub struct PruneResult {
    pub deleted: Vec<String>,
    pub space_reclaimed: Option<i64>,
}

/// The result of pruning containers, volumes or networks: the names the
/// engine reports deleted (none where it reports none) and the space it
/// reports freed.
pub fn prune_result(deleted: Option<Vec<String>>, space_reclaimed: Option<i64>) -> (r: PruneResult)
    ensures
        r.deleted@ == (match deleted {
            Some(v) => v@,
            None => Seq::<String>::empty(),
        }),
        r.space_reclaimed == space_reclaimed,
{
    PruneResult { deleted: list_or_empty(deleted), space_reclaimed }
}

/// One removed image as the engine reports it: by digest, or by the tag
/// that was untagged.
#[derive(Debug, Clone)]
pub struct ImageDeleteRecord {
    pub deleted: Option<String>,
    pub untagged: Option<String>,
}

/// The name of each reported image removal, in order: its digest, else the
/// tag that was untagged; entries with neither are left out.
pub open spec fn removed_image_names(records: Seq<ImageDeleteRecord>) -> Seq<Seq<char>>
    decreases records.len(),
{
    if records.len() == 0 {
        Seq::empty()
    } else {
        let rest = removed_image_names(records.drop_last());
        let d = records.last();
        match d.deleted {
            Some(s) => rest.push(s@),
            None => match d.untagged {
                Some(t) => rest.push(t@),
                None => rest,
            },
        }
    }
}

/// The removed-image names are exactly the reported removals that name
/// something, in order, each by its digest where it has one and else by the
/// tag that was untagged.
pub proof fn lemma_removed_images_are_the_named_ones(records: Seq<ImageDeleteRecord>)
    ensures
        removed_image_names(records) == records.filter(
            |d: ImageDeleteRecord| d.deleted is Some || d.untagged is Some,
        ).map_values(
            |d: ImageDeleteRecord|
                if d.deleted is Some {
                    d.deleted->0@
                } else {
                    d.untagged->0@
                },
        ),
    decreases records.len(),
{
    let keep = |d: ImageDeleteRecord| d.deleted is Some || d.untagged is Some;
    let show = |d: ImageDeleteRecord|
        if d.deleted is Some {
            d.deleted->0@
        } else {
            d.untagged->0@
        };
    if records.len() == 0 {
        assert(records.filter(keep) =~= Seq::<ImageDeleteRecord>::empty()) by {
            reveal(Seq::filter);
        }
        assert(records.filter(keep).map_values(show) =~= Seq::<Seq<char>>::empty());
    } else {
        let rest = records.drop_last();
        lemma_removed_images_are_the_named_ones(rest);
        assert(rest.push(records.last()) =~= records);
        rest.lemma_filter_push(records.last(), keep);
        if keep(records.last()) {
            assert(rest.filter(keep).push(records.last()).map_values(show) =~= rest.filter(keep).map_values(show).push(
                show(records.last()),
            ));
        }
    }
}

/// The result of pruning dangling images.
pub fn image_prune_result(deleted: Option<Vec<ImageDeleteRecord>>, space_reclaimed: Option<i64>) -> (r: PruneResult)
    ensures
        texts(r.deleted@) == removed_image_names(match deleted {
            Some(v) => v@,
            None => Seq::<ImageDeleteRecord>::empty(),
        }),
        r.space_reclaimed == space_reclaimed,
{
    let records = match deleted {
        Some(v) => v,
        None => Vec::new(),
    };
    let mut names: Vec<String> = Vec::new();
    let mut i: usize = 0;
    while i < records.len()
        invariant
            i <= records.len(),
            texts(names@) == removed_image_names(records@.take(i as int)),
        decreases records.len() - i,
    {
        let d = &records[i];
        assert(records@.take(i + 1).drop_last() =~= records@.take(i as int));
        let ghost prev = names@;
        match &d.deleted {
            Some(s) => {
                names.push(s.clone());
                assert(texts(names@) =~= texts(prev).push(s@));
            },
            None => match &d.untagged {
                Some(t) => {
                    names.push(t.clone());
                    assert(texts(names@) =~= texts(prev).push(t@));
                },
                None => {},
            },
        }
        i = i + 1;
    }
    assert(records@.take(records.len() as int) =~= records@);
    PruneResult { deleted: names, space_reclaimed }
}

} // verus!
