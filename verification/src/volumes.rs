//! Volume rows, cross-referenced with the containers that mount them.

use std::collections::HashMap;
use vstd::prelude::*;
use crate::docker::{ContainerRecord, MountRecord, record_mounts};
use crate::text::{display_name, first_display_name, opt_text, text_or_empty, texts, same_text};

verus! {

/// One volume as the engine's volume list reports it.
#[derive(Debug, Clone)]
pub struct VolumeRecord {
    pub name: String,
    pub driver: String,
    pub mountpoint: String,
    pub created: Option<String>,
    pub labels: HashMap<String, String>,
}

/// What the frontend renders per volume row.
#[derive(Debug, Clone, PartialEq)]
pub struct VolumeInfo {
    pub name: String,
    pub driver: String,
    pub mountpoint: String,
    pub created: String,
    pub labels: HashMap<String, String>,
    /// Names of containers with a volume mount pointing at this volume.
    pub used_by: Vec<String>,
}

/// Whether `m` is a volume mount of the volume named `volume`.
pub open spec fn mounts_volume(m: MountRecord, volume: Seq<char>) -> bool {
    m.is_volume && (match m.name {
        Some(n) => n@ == volume,
        None => false,
    })
}

/// How many of `mounts` are volume mounts of `volume`.
pub open spec fn volume_mount_count(mounts: Seq<MountRecord>, volume: Seq<char>) -> nat
    decreases mounts.len(),
{
    if mounts.len() == 0 {
        0
    } else {
        volume_mount_count(mounts.drop_last(), volume) + if mounts_volume(mounts.last(), volume) {
            1nat
        } else {
            0nat
        }
    }
}

/// The names of the containers that mount `volume`, in container order,
/// a container's name repeated once per such mount.
pub open spec fn volume_users(containers: Seq<ContainerRecord>, volume: Seq<char>) -> Seq<Seq<char>>
    decreases containers.len(),
{
    if containers.len() == 0 {
        Seq::empty()
    } else {
        let c = containers.last();
        volume_users(containers.drop_last(), volume) + Seq::new(
            volume_mount_count(record_mounts(c), volume),
            |_k: int| display_name(c.names),
        )
    }
}

/// Whether a volume before position `i` has the same name as the one at `i`.
pub open spec fn named_earlier(volumes: Seq<VolumeRecord>, i: int) -> bool {
    exists|j: int| 0 <= j < i && (#[trigger] volumes[j]).name@ == volumes[i].name@
}

/// The users listed for the volume at position `i`: its users, unless an
/// earlier volume of the same name already took them.
pub open spec fn listed_users(volumes: Seq<VolumeRecord>, containers: Seq<ContainerRecord>, i: int) -> Seq<Seq<char>> {
    if named_earlier(volumes, i) {
        Seq::empty()
    } else {
        volume_users(containers, volumes[i].name@)
    }
}

/// Every name listed for a volume is that of a container with a volume
/// mount of it.
pub proof fn lemma_users_mount_the_volume(containers: Seq<ContainerRecord>, volume: Seq<char>, k: int)
    requires
        0 <= k < volume_users(containers, volume).len(),
    ensures
        exists|i: int|
            0 <= i < containers.len() && volume_mount_count(record_mounts(#[trigger] containers[i]), volume) > 0
                && volume_users(containers, volume)[k] == display_name(containers[i].names),
    decreases containers.len(),
{
    let rest = containers.drop_last();
    let c = containers.last();
    let prior = volume_users(rest, volume);
    if k < prior.len() {
        lemma_users_mount_the_volume(rest, volume, k);
        let i = choose|i: int|
            0 <= i < rest.len() && volume_mount_count(record_mounts(#[trigger] rest[i]), volume) > 0
                && prior[k] == display_name(rest[i].names);
        assert(containers[i] == rest[i]);
    } else {
        assert(containers[containers.len() - 1] == c);
    }
}

/// A volume that no container mounts lists no users.
pub proof fn lemma_unmounted_volume_has_no_users(containers: Seq<ContainerRecord>, volume: Seq<char>)
    requires
        forall|i: int| 0 <= i < containers.len() ==> volume_mount_count(record_mounts(#[trigger] containers[i]), volume) == 0,
    ensures
        volume_users(containers, volume) == Seq::<Seq<char>>::empty(),
    decreases containers.len(),
{
    if containers.len() > 0 {
        let rest = containers.drop_last();
        assert forall|i: int| 0 <= i < rest.len() implies volume_mount_count(record_mounts(#[trigger] rest[i]), volume) == 0 by {
            assert(rest[i] == containers[i]);
        }
        lemma_unmounted_volume_has_no_users(rest, volume);
        assert(volume_mount_count(record_mounts(containers[containers.len() - 1]), volume) == 0);
        assert(volume_users(containers, volume) =~= Seq::<Seq<char>>::empty());
    }
}

/// Only volume mounts count: a list of mounts none of which is a volume
/// mount of `volume` counts zero.
pub proof fn lemma_other_mounts_do_not_count(mounts: Seq<MountRecord>, volume: Seq<char>)
    requires
        forall|j: int| 0 <= j < mounts.len() ==> !mounts_volume(#[trigger] mounts[j], volume),
    ensures
        volume_mount_count(mounts, volume) == 0,
    decreases mounts.len(),
{
    if mounts.len() > 0 {
        let rest = mounts.drop_last();
        assert forall|j: int| 0 <= j < rest.len() implies !mounts_volume(#[trigger] rest[j], volume) by {
            assert(rest[j] == mounts[j]);
        }
        lemma_other_mounts_do_not_count(rest, volume);
        assert(!mounts_volume(mounts[mounts.len() - 1], volume));
    }
}

/// The test that a mount is a volume mount naming `volume`.
pub open spec fn names_volume(volume: Seq<char>) -> spec_fn(MountRecord) -> bool {
    |m: MountRecord| m.is_volume && m.name is Some && m.name->0@ == volume
}

proof fn lemma_count_is_filter(mounts: Seq<MountRecord>, volume: Seq<char>)
    ensures
        volume_mount_count(mounts, volume) == mounts.filter(names_volume(volume)).len(),
    decreases mounts.len(),
{
    if mounts.len() == 0 {
        assert(mounts.filter(names_volume(volume)) =~= Seq::<MountRecord>::empty()) by {
            reveal(Seq::filter);
        }
    } else {
        let rest = mounts.drop_last();
        lemma_count_is_filter(rest, volume);
        assert(rest.push(mounts.last()) =~= mounts);
        rest.lemma_filter_push(mounts.last(), names_volume(volume));
        assert(mounts_volume(mounts.last(), volume) == names_volume(volume)(mounts.last()));
    }
}

/// Who uses a volume: for each container in order, its display name once
/// for every one of its mounts (over its whole mount list) that is a volume
/// mount naming the volume, and nothing else.
pub proof fn lemma_volume_users_per_mount(containers: Seq<ContainerRecord>, volume: Seq<char>)
    ensures
        volume_users(containers, volume) == Seq::new(
            containers.len(),
            |i: int|
                Seq::new(
                    record_mounts(containers[i]).filter(names_volume(volume)).len(),
                    |_k: int| display_name(containers[i].names),
                ),
        ).flatten(),
    decreases containers.len(),
{
    let f = |i: int|
        Seq::new(
            record_mounts(containers[i]).filter(names_volume(volume)).len(),
            |_k: int| display_name(containers[i].names),
        );
    if containers.len() == 0 {
        assert(Seq::new(0, f) =~= Seq::<Seq<Seq<char>>>::empty());
    } else {
        let rest = containers.drop_last();
        let c = containers.last();
        lemma_volume_users_per_mount(rest, volume);
        let g = |i: int|
            Seq::new(
                record_mounts(rest[i]).filter(names_volume(volume)).len(),
                |_k: int| display_name(rest[i].names),
            );
        assert(Seq::new(containers.len(), f) =~= Seq::new(rest.len(), g).push(f(containers.len() - 1)));
        Seq::new(rest.len(), g).lemma_flatten_push(f(containers.len() - 1));
        lemma_count_is_filter(record_mounts(c), volume);
        assert(f(containers.len() - 1) =~= Seq::new(
            volume_mount_count(record_mounts(c), volume),
            |_k: int| display_name(c.names),
        ));
    }
}

/// The names of the containers that mount the volume named `volume`.
pub fn users_of_volume(containers: &Vec<ContainerRecord>, volume: &String) -> (r: Vec<String>)
    ensures
        texts(r@) == volume_users(containers@, volume@),
{
    let mut r: Vec<String> = Vec::new();
    let mut i: usize = 0;
    while i < containers.len()
        invariant
            i <= containers.len(),
            texts(r@) == volume_users(containers@.take(i as int), volume@),
        decreases containers.len() - i,
    {
        let c = &containers[i];
        let name = first_display_name(&c.names);
        let ghost before = texts(r@);
        let ghost mounts = record_mounts(*c);
        let empty: Vec<MountRecord> = Vec::new();
        let ms: &Vec<MountRecord> = match &c.mounts {
            Some(v) => v,
            None => &empty,
        };
        assert(ms@ == mounts);
        let mut j: usize = 0;
        while j < ms.len()
            invariant
                j <= ms.len(),
                ms@ == mounts,
                texts(r@) == before + Seq::new(
                    volume_mount_count(mounts.take(j as int), volume@),
                    |_k: int| name@,
                ),
            decreases ms.len() - j,
        {
            let m = &ms[j];
            assert(mounts.take(j + 1).drop_last() =~= mounts.take(j as int));
            let hit = m.is_volume && match &m.name {
                Some(n) => same_text(n.as_str(), volume.as_str()),
                None => false,
            };
            assert(hit == mounts_volume(mounts[j as int], volume@));
            if hit {
                let ghost prev = texts(r@);
                r.push(name.clone());
                assert(texts(r@) =~= prev.push(name@));
                assert(before + Seq::new(
                    volume_mount_count(mounts.take(j + 1), volume@),
                    |_k: int| name@,
                ) =~= prev.push(name@));
            } else {
                assert(before + Seq::new(
                    volume_mount_count(mounts.take(j + 1), volume@),
                    |_k: int| name@,
                ) =~= before + Seq::new(
                    volume_mount_count(mounts.take(j as int), volume@),
                    |_k: int| name@,
                ));
            }
            j = j + 1;
        }
        assert(mounts.take(ms.len() as int) =~= mounts);
        assert(containers@.take(i + 1).drop_last() =~= containers@.take(i as int));
        assert(containers@.take(i + 1).last() == *c);
        assert(name@ == display_name(c.names));
        i = i + 1;
    }
    assert(containers@.take(containers.len() as int) =~= containers@);
    r
}


/// Whether a volume before position `i` of `volumes` is named `name`.
fn is_named_before(volumes: &Vec<VolumeRecord>, i: usize) -> (r: bool)
    requires
        i < volumes.len(),
    ensures
        r == named_earlier(volumes@, i as int),
{
    let mut j: usize = 0;
    while j < i
        invariant
            i < volumes.len(),
            j <= i,
            forall|k: int| 0 <= k < j ==> (#[trigger] volumes@[k]).name@ != volumes@[i as int].name@,
        decreases i - j,
    {
        if same_text(volumes[j].name.as_str(), volumes[i].name.as_str()) {
            assert(volumes@[j as int].name@ == volumes@[i as int].name@);
            return true;
        }
        j = j + 1;
    }
    false
}

/// The volume rows for `volumes`, in order, each listing the containers that
/// mount it. Should two volumes share a name, the first lists the users and
/// the later ones list none.
pub fn volume_infos(volumes: Vec<VolumeRecord>, containers: &Vec<ContainerRecord>) -> (r: Vec<VolumeInfo>)
    ensures
        r.len() == volumes.len(),
        forall|i: int| 0 <= i < r.len() ==> {
            &&& (#[trigger] r@[i]).name == volumes@[i].name
            &&& r@[i].driver == volumes@[i].driver
            &&& r@[i].mountpoint == volumes@[i].mountpoint
            &&& r@[i].created@ == opt_text(volumes@[i].created)
            &&& r@[i].labels == volumes@[i].labels
            &&& texts(r@[i].used_by@) == listed_users(volumes@, containers@, i)
        },
{
    let n: usize = volumes.len();
    let mut users: Vec<Vec<String>> = Vec::new();
    let mut i: usize = 0;
    while i < n
        invariant
            n == volumes.len(),
            i <= n,
            users.len() == i,
            forall|k: int| 0 <= k < i ==> texts((#[trigger] users@[k])@) == listed_users(volumes@, containers@, k),
        decreases n - i,
    {
        let u = if is_named_before(&volumes, i) {
            Vec::new()
        } else {
            users_of_volume(containers, &volumes[i].name)
        };
        assert(texts(u@) =~= listed_users(volumes@, containers@, i as int));
        users.push(u);
        i = i + 1;
    }
    let ghost original = volumes@;
    let ghost all_users = users@;
    let mut rest = volumes;
    let mut r: Vec<VolumeInfo> = Vec::new();
    let mut k: usize = 0;
    while k < n
        invariant
            n == original.len(),
            all_users.len() == n,
            k <= n,
            r.len() == k,
            rest@ == original.skip(k as int),
            users@ == all_users.skip(k as int),
            forall|k2: int| 0 <= k2 < n ==> texts((#[trigger] all_users[k2])@) == listed_users(original, containers@, k2),
            forall|i2: int| 0 <= i2 < k ==> {
                &&& (#[trigger] r@[i2]).name == original[i2].name
                &&& r@[i2].driver == original[i2].driver
                &&& r@[i2].mountpoint == original[i2].mountpoint
                &&& r@[i2].created@ == opt_text(original[i2].created)
                &&& r@[i2].labels == original[i2].labels
                &&& texts(r@[i2].used_by@) == listed_users(original, containers@, i2)
            },
        decreases n - k,
    {
        let v = rest.remove(0);
        let used_by = users.remove(0);
        assert(rest@ =~= original.skip(k + 1));
        assert(users@ =~= all_users.skip(k + 1));
        r.push(VolumeInfo {
            name: v.name,
            driver: v.driver,
            mountpoint: v.mountpoint,
            created: text_or_empty(v.created),
            labels: v.labels,
            used_by,
        });
        k = k + 1;
    }
    r
}

} // verus!
