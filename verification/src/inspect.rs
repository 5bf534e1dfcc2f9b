//! The detail panel of one container, from the engine's inspect reply.

use std::collections::HashMap;
use vstd::prelude::*;
use crate::text::{opt_text, strip_leading, text_or_empty, list_or_empty, trim_start_char, texts};

verus! {

/// One host binding of a container port as the engine reports it.
#[derive(Debug, Clone)]
pub struct HostBindingRecord {
    pub host_ip: Option<String>,
    pub host_port: Option<String>,
}

/// One container port (`"80/tcp"`) and its host bindings.
#[derive(Debug, Clone)]
pub struct PortMapRecord {
    pub container_port: String,
    pub bindings: Option<Vec<HostBindingRecord>>,
}

/// One mount of a container as inspect reports it.
#[derive(Debug, Clone)]
pub struct MountDetailRecord {
    pub source: Option<String>,
    pub destination: Option<String>,
    pub mode: Option<String>,
}

/// What the engine's inspect reply holds that the detail panel renders.
#[derive(Debug, Clone)]
pub struct InspectRecord {
    pub id: Option<String>,
    pub name: Option<String>,
    pub created: Option<String>,
    /// The image id the container runs (the top-level `Image`).
    pub image: Option<String>,
    /// The image the container was configured with (`Config.Image`).
    pub config_image: Option<String>,
    pub env: Option<Vec<String>>,
    pub labels: Option<HashMap<String, String>>,
    pub state: Option<String>,
    pub health: Option<String>,
    pub restart_policy: Option<String>,
    pub mounts: Option<Vec<MountDetailRecord>>,
    pub ports: Option<Vec<PortMapRecord>>,
}

/// A bind/volume mount attached to a container.
#[derive(Debug, Clone, PartialEq)]
pub struct MountInfo {
    pub source: String,
    pub destination: String,
    pub mode: String,
}

/// A host port bound to a container port (`"80/tcp"` etc).
#[derive(Debug, Clone, PartialEq)]
pub struct PortBinding {
    pub container_port: String,
    pub host_ip: String,
    pub host_port: String,
}

/// Everything `docker inspect` gives us that the detail panel renders.
#[derive(Debug, Clone, PartialEq)]
pub struct ContainerDetail {
    pub id: String,
    pub name: String,
    pub image: String,
    pub state: String,
    pub health: Option<String>,
    pub created: String,
    pub restart_policy: String,
    pub env: Vec<String>,
    pub labels: HashMap<String, String>,
    pub mounts: Vec<MountInfo>,
    pub ports: Vec<PortBinding>,
}

/// The texts of a port binding: container port, host address, host port.
pub open spec fn binding_texts(b: PortBinding) -> (Seq<char>, Seq<char>, Seq<char>) {
    (b.container_port@, b.host_ip@, b.host_port@)
}

/// The texts of a mount: source, destination, mode.
pub open spec fn mount_texts(m: MountInfo) -> (Seq<char>, Seq<char>, Seq<char>) {
    (m.source@, m.destination@, m.mode@)
}

/// The bindings of one container port, none where the engine reported none.
pub open spec fn record_bindings(e: PortMapRecord) -> Seq<HostBindingRecord> {
    match e.bindings {
        Some(v) => v@,
        None => Seq::empty(),
    }
}

/// The port rows of one container port: one per host binding, absent texts
/// empty.
pub open spec fn entry_bindings(e: PortMapRecord) -> Seq<(Seq<char>, Seq<char>, Seq<char>)> {
    record_bindings(e).map_values(
        |b: HostBindingRecord| (e.container_port@, opt_text(b.host_ip), opt_text(b.host_port)),
    )
}

/// The port rows of all container ports, in order.
pub open spec fn flat_bindings(entries: Seq<PortMapRecord>) -> Seq<(Seq<char>, Seq<char>, Seq<char>)>
    decreases entries.len(),
{
    if entries.len() == 0 {
        Seq::empty()
    } else {
        flat_bindings(entries.drop_last()) + entry_bindings(entries.last())
    }
}

/// The port rows, over every reported container port in order, one per host
/// binding of that port: container port, host address, host port (absent
/// texts empty). Their count is the sum of the binding counts, and each
/// binding of each entry appears with its entry's container port.
pub proof fn lemma_port_rows_cover_every_binding(entries: Seq<PortMapRecord>)
    ensures
        flat_bindings(entries) == entries.map_values(
            |e: PortMapRecord|
                record_bindings(e).map_values(
                    |b: HostBindingRecord| (e.container_port@, opt_text(b.host_ip), opt_text(b.host_port)),
                ),
        ).flatten(),
    decreases entries.len(),
{
    let f = |e: PortMapRecord|
        record_bindings(e).map_values(
            |b: HostBindingRecord| (e.container_port@, opt_text(b.host_ip), opt_text(b.host_port)),
        );
    if entries.len() == 0 {
        assert(entries.map_values(f) =~= Seq::<Seq<(Seq<char>, Seq<char>, Seq<char>)>>::empty());
    } else {
        let rest = entries.drop_last();
        lemma_port_rows_cover_every_binding(rest);
        assert(entries.map_values(f) =~= rest.map_values(f).push(f(entries.last())));
        rest.map_values(f).lemma_flatten_push(f(entries.last()));
        assert(entry_bindings(entries.last()) =~= f(entries.last()));
    }
}

/// The rows of the reported mounts, absent texts empty.
pub open spec fn mount_rows(mounts: Seq<MountDetailRecord>) -> Seq<(Seq<char>, Seq<char>, Seq<char>)> {
    mounts.map_values(
        |m: MountDetailRecord| (opt_text(m.source), opt_text(m.destination), opt_text(m.mode)),
    )
}

/// The port rows of the reported ports: one per host binding of each
/// container port.
pub fn port_bindings_from(entries: Vec<PortMapRecord>) -> (r: Vec<PortBinding>)
    ensures
        r@.map_values(|b: PortBinding| binding_texts(b)) == flat_bindings(entries@),
{
    let mut r: Vec<PortBinding> = Vec::new();
    let mut i: usize = 0;
    while i < entries.len()
        invariant
            i <= entries.len(),
            r@.map_values(|b: PortBinding| binding_texts(b)) == flat_bindings(entries@.take(i as int)),
        decreases entries.len() - i,
    {
        let e = &entries[i];
        let ghost before = r@.map_values(|b: PortBinding| binding_texts(b));
        let ghost bs = record_bindings(*e);
        let empty: Vec<HostBindingRecord> = Vec::new();
        let list: &Vec<HostBindingRecord> = match &e.bindings {
            Some(v) => v,
            None => &empty,
        };
        assert(list@ == bs);
        let mut j: usize = 0;
        while j < list.len()
            invariant
                j <= list.len(),
                list@ == bs,
                r@.map_values(|b: PortBinding| binding_texts(b)) == before + bs.take(j as int).map_values(
                    |b: HostBindingRecord| (e.container_port@, opt_text(b.host_ip), opt_text(b.host_port)),
                ),
            decreases list.len() - j,
        {
            let b = &list[j];
            let ip = match &b.host_ip {
                Some(s) => s.clone(),
                None => String::new(),
            };
            let port = match &b.host_port {
                Some(s) => s.clone(),
                None => String::new(),
            };
            let ghost prev = r@;
            let cp = e.container_port.clone();
            assert(cp@ == e.container_port@);
            assert(ip@ == opt_text(bs[j as int].host_ip));
            assert(port@ == opt_text(bs[j as int].host_port));
            let row = PortBinding { container_port: cp, host_ip: ip, host_port: port };
            let ghost row_texts = binding_texts(row);
            r.push(row);
            assert(r@ =~= prev.push(row));
            assert(r@.map_values(|b: PortBinding| binding_texts(b)) =~= prev.map_values(|b: PortBinding| binding_texts(b)).push(row_texts));
            assert(bs.take(j + 1) =~= bs.take(j as int).push(bs[j as int]));
            assert(r@.map_values(|b: PortBinding| binding_texts(b)) =~= before + bs.take(j + 1).map_values(
                |b: HostBindingRecord| (e.container_port@, opt_text(b.host_ip), opt_text(b.host_port)),
            ));
            j = j + 1;
        }
        assert(bs.take(list.len() as int) =~= bs);
        assert(entries@.take(i + 1).drop_last() =~= entries@.take(i as int));
        assert(entries@.take(i + 1).last() == *e);
        i = i + 1;
    }
    assert(entries@.take(entries.len() as int) =~= entries@);
    r
}

/// The mount rows of the reported mounts, in order.
pub fn mount_infos_from(mounts: Vec<MountDetailRecord>) -> (r: Vec<MountInfo>)
    ensures
        r@.map_values(|m: MountInfo| mount_texts(m)) == mount_rows(mounts@),
{
    let mut r: Vec<MountInfo> = Vec::new();
    let mut i: usize = 0;
    while i < mounts.len()
        invariant
            i <= mounts.len(),
            r@.map_values(|m: MountInfo| mount_texts(m)) == mount_rows(mounts@.take(i as int)),
        decreases mounts.len() - i,
    {
        let m = &mounts[i];
        let source = match &m.source {
            Some(s) => s.clone(),
            None => String::new(),
        };
        let destination = match &m.destination {
            Some(s) => s.clone(),
            None => String::new(),
        };
        let mode = match &m.mode {
            Some(s) => s.clone(),
            None => String::new(),
        };
        assert(source@ == opt_text(mounts@[i as int].source));
        assert(destination@ == opt_text(mounts@[i as int].destination));
        assert(mode@ == opt_text(mounts@[i as int].mode));
        let ghost prev = r@;
        let row = MountInfo { source, destination, mode };
        r.push(row);
        assert(r@ =~= prev.push(row));
        assert(mounts@.take(i + 1) =~= mounts@.take(i as int).push(mounts@[i as int]));
        assert(r@.map_values(|m: MountInfo| mount_texts(m)) =~= prev.map_values(|m: MountInfo| mount_texts(m)).push(mount_texts(row)));
        assert(mount_rows(mounts@.take(i + 1)) =~= mount_rows(mounts@.take(i as int)).push(mount_texts(row)));
        assert(r@.map_values(|m: MountInfo| mount_texts(m)) =~= mount_rows(mounts@.take(i + 1)));
        i = i + 1;
    }
    assert(mounts@.take(mounts.len() as int) =~= mounts@);
    r
}

/// The detail panel for one inspect reply: the image shown is the one the
/// container was configured with (by name), not the image id it runs;
/// absent texts become empty, the name loses its leading `/`, absent
/// lists and labels become empty, and the port rows are one per host
/// binding.
pub fn container_detail_from(rec: InspectRecord) -> (r: ContainerDetail)
    ensures
        r.id@ == opt_text(rec.id),
        r.name@ == strip_leading(opt_text(rec.name), '/'),
        r.image@ == opt_text(rec.config_image),
        r.state@ == opt_text(rec.state),
        r.health == rec.health,
        r.created@ == opt_text(rec.created),
        r.restart_policy@ == opt_text(rec.restart_policy),
        r.env@ == (match rec.env {
            Some(v) => v@,
            None => Seq::<String>::empty(),
        }),
        rec.labels is Some ==> r.labels == rec.labels->0,
        rec.labels is None ==> r.labels@ == Map::<String, String>::empty(),
        r.mounts@.map_values(|m: MountInfo| mount_texts(m)) == mount_rows(match rec.mounts {
            Some(v) => v@,
            None => Seq::<MountDetailRecord>::empty(),
        }),
        r.ports@.map_values(|b: PortBinding| binding_texts(b)) == flat_bindings(match rec.ports {
            Some(v) => v@,
            None => Seq::<PortMapRecord>::empty(),
        }),
{
    let raw_name = text_or_empty(rec.name);
    let name = trim_start_char(raw_name.as_str(), '/');
    let labels = match rec.labels {
        Some(l) => l,
        None => HashMap::new(),
    };
    let mounts = match rec.mounts {
        Some(v) => mount_infos_from(v),
        None => {
            let v: Vec<MountInfo> = Vec::new();
            assert(v@.map_values(|m: MountInfo| mount_texts(m)) =~= mount_rows(Seq::<MountDetailRecord>::empty()));
            v
        },
    };
    let ports = match rec.ports {
        Some(v) => port_bindings_from(v),
        None => {
            let v: Vec<PortBinding> = Vec::new();
            assert(v@.map_values(|b: PortBinding| binding_texts(b)) =~= flat_bindings(Seq::<PortMapRecord>::empty()));
            v
        },
    };
    ContainerDetail {
        id: text_or_empty(rec.id),
        name,
        image: text_or_empty(rec.config_image),
        state: text_or_empty(rec.state),
        health: rec.health,
        created: text_or_empty(rec.created),
        restart_policy: text_or_empty(rec.restart_policy),
        env: list_or_empty(rec.env),
        labels,
        mounts,
        ports,
    }
}

} // verus!
