//! Network rows, and the guard that keeps the engine's own networks.

use vstd::prelude::*;
use crate::text::{opt_text, same_text, text_or_empty};

verus! {

/// One network as the engine's network list reports it.
#[derive(Debug, Clone)]
pub struct NetworkRecord {
    pub id: Option<String>,
    pub name: Option<String>,
    pub driver: Option<String>,
    pub scope: Option<String>,
    /// The subnets of the network's IPAM configs, in order.
    pub subnets: Option<Vec<Option<String>>>,
}

/// One container attached to a network, as the network's inspect reply
/// reports it.
#[derive(Debug, Clone)]
pub struct AttachmentRecord {
    pub name: Option<String>,
    pub ipv4_address: Option<String>,
}

/// A container attached to a network, from the network's `Containers` map.
#[derive(Debug, Clone, PartialEq)]
pub struct NetworkAttachment {
    pub container: String,
    pub ip: String,
}

/// What the frontend renders per network row.
#[derive(Debug, Clone, PartialEq)]
pub struct NetworkInfo {
    pub id: String,
    pub name: String,
    pub driver: String,
    pub scope: String,
    pub subnet: String,
    pub is_builtin: bool,
    pub attachments: Vec<NetworkAttachment>,
}

/// The networks Docker creates on every engine: `bridge`, `host`, `none`.
pub open spec fn builtin_network(name: Seq<char>) -> bool {
    name == "bridge"@ || name == "host"@ || name == "none"@
}

/// Whether `name` is one of the engine's own networks.
pub fn is_builtin_network(name: &str) -> (r: bool)
    ensures
        r == builtin_network(name@),
{
    same_text(name, "bridge") || same_text(name, "host") || same_text(name, "none")
}

/// Exactly three names are built in: `bridge`, `host` and `none`. A name
/// that merely starts with one of them, with anything after it, is not.
pub proof fn lemma_builtin_names_are_exact(name: Seq<char>, rest: Seq<char>)
    ensures
        builtin_network(name) <==> set!["bridge"@, "host"@, "none"@].contains(name),
        rest.len() > 0 ==> !builtin_network("bridge"@ + rest),
        rest.len() > 0 ==> !builtin_network("host"@ + rest),
        rest.len() > 0 ==> !builtin_network("none"@ + rest),
        builtin_network("bridge"@) && builtin_network("host"@) && builtin_network("none"@),
{
    reveal_strlit("bridge");
    reveal_strlit("host");
    reveal_strlit("none");
    if rest.len() > 0 {
        assert(("bridge"@ + rest).len() > 6);
        assert(("host"@ + rest).len() > 4);
        assert(("none"@ + rest).len() > 4);
        if ("host"@ + rest) == "bridge"@ {
            assert(("host"@ + rest)[0] == 'h');
        }
        if ("none"@ + rest) == "bridge"@ {
            assert(("none"@ + rest)[0] == 'n');
        }
    }
}

/// The refusal to remove the built-in network `name`.
pub open spec fn builtin_removal_message(name: Seq<char>) -> Seq<char> {
    "cannot remove the built-in \""@ + name + "\" network"@
}

/// The refusal names the network it refuses to remove.
pub proof fn lemma_refusal_names_the_network(name: Seq<char>)
    ensures
        builtin_removal_message(name).subrange(
            "cannot remove the built-in \""@.len() as int,
            ("cannot remove the built-in \""@.len() + name.len()) as int,
        ) == name,
{
    assert(builtin_removal_message(name).subrange(
        "cannot remove the built-in \""@.len() as int,
        ("cannot remove the built-in \""@.len() + name.len()) as int,
    ) =~= name);
}

/// Refuses to remove the built-in `bridge`/`host`/`none` networks: the
/// engine allows it but it breaks every container relying on them.
pub fn ensure_removable(name: &str) -> (r: Result<(), String>)
    ensures
        r is Ok <==> !builtin_network(name@),
        r matches Err(msg) ==> msg@ == builtin_removal_message(name@),
{
    if is_builtin_network(name) {
        let mut msg = String::new();
        msg.append("cannot remove the built-in \"");
        msg.append(name);
        msg.append("\" network");
        return Err(msg);
    }
    Ok(())
}

/// The subnet of the first IPAM config, empty where there is none.
pub open spec fn first_subnet(subnets: Option<Vec<Option<String>>>) -> Seq<char> {
    match subnets {
        Some(v) => if v@.len() > 0 {
            opt_text(v@[0])
        } else {
            Seq::empty()
        },
        None => Seq::empty(),
    }
}

/// The texts of an attachment row: container name, address.
pub open spec fn attachment_texts(a: NetworkAttachment) -> (Seq<char>, Seq<char>) {
    (a.container@, a.ip@)
}

/// The attachment rows of the reported containers, absent texts empty.
pub open spec fn attachment_rows(records: Seq<AttachmentRecord>) -> Seq<(Seq<char>, Seq<char>)> {
    records.map_values(|a: AttachmentRecord| (opt_text(a.name), opt_text(a.ipv4_address)))
}

/// One attachment row per reported container, in order: row `k` holds the
/// name and address (empty where absent) of the `k`-th attachment.
pub proof fn lemma_one_row_per_attachment(records: Seq<AttachmentRecord>)
    ensures
        attachment_rows(records).len() == records.len(),
        forall|k: int|
            0 <= k < records.len() ==> #[trigger] attachment_rows(records)[k] == (
                opt_text(records[k].name),
                opt_text(records[k].ipv4_address),
            ),
{
}

/// The attachment rows of the containers a network reports, in order.
pub fn attachments_from(records: Vec<AttachmentRecord>) -> (r: Vec<NetworkAttachment>)
    ensures
        r@.map_values(|a: NetworkAttachment| attachment_texts(a)) == attachment_rows(records@),
{
    let mut r: Vec<NetworkAttachment> = Vec::new();
    let mut i: usize = 0;
    while i < records.len()
        invariant
            i <= records.len(),
            r@.map_values(|a: NetworkAttachment| attachment_texts(a)) == attachment_rows(records@.take(i as int)),
        decreases records.len() - i,
    {
        let a = &records[i];
        let container = match &a.name {
            Some(s) => s.clone(),
            None => String::new(),
        };
        let ip = match &a.ipv4_address {
            Some(s) => s.clone(),
            None => String::new(),
        };
        assert(container@ == opt_text(records@[i as int].name));
        assert(ip@ == opt_text(records@[i as int].ipv4_address));
        let ghost prev = r@;
        let row = NetworkAttachment { container, ip };
        r.push(row);
        assert(r@ =~= prev.push(row));
        assert(records@.take(i + 1) =~= records@.take(i as int).push(records@[i as int]));
        assert(r@.map_values(|a: NetworkAttachment| attachment_texts(a)) =~= prev.map_values(|a: NetworkAttachment| attachment_texts(a)).push(attachment_texts(row)));
        assert(attachment_rows(records@.take(i + 1)) =~= attachment_rows(records@.take(i as int)).push(attachment_texts(row)));
        i = i + 1;
    }
    assert(records@.take(records.len() as int) =~= records@);
    r
}

/// The network row for one listed network and the containers its inspect
/// reply reports: absent texts empty, the subnet that of the first IPAM
/// config, and `is_builtin` set for `bridge`, `host` and `none`.
pub fn network_info_from(rec: NetworkRecord, attached: Option<Vec<AttachmentRecord>>) -> (r: NetworkInfo)
    ensures
        r.id@ == opt_text(rec.id),
        r.name@ == opt_text(rec.name),
        r.driver@ == opt_text(rec.driver),
        r.scope@ == opt_text(rec.scope),
        r.subnet@ == first_subnet(rec.subnets),
        r.is_builtin == builtin_network(opt_text(rec.name)),
        r.attachments@.map_values(|a: NetworkAttachment| attachment_texts(a)) == attachment_rows(match attached {
            Some(v) => v@,
            None => Seq::<AttachmentRecord>::empty(),
        }),
{
    let subnet = match &rec.subnets {
        Some(v) => if v.len() > 0 {
            match &v[0] {
                Some(s) => s.clone(),
                None => String::new(),
            }
        } else {
            String::new()
        },
        None => String::new(),
    };
    let name = text_or_empty(rec.name);
    let is_builtin = is_builtin_network(name.as_str());
    let attachments = match attached {
        Some(v) => attachments_from(v),
        None => {
            let v: Vec<NetworkAttachment> = Vec::new();
            assert(v@.map_values(|a: NetworkAttachment| attachment_texts(a)) =~= attachment_rows(Seq::<AttachmentRecord>::empty()));
            v
        },
    };
    NetworkInfo {
        id: text_or_empty(rec.id),
        name,
        driver: text_or_empty(rec.driver),
        scope: text_or_empty(rec.scope),
        subnet,
        is_builtin,
        attachments,
    }
}

} // verus!
