//! Saved Docker host connections: the profile list that the store file
//! holds, with upsert-by-id, lookup and removal.

use vstd::prelude::*;
use crate::text::same_text;

verus! {

/// One saved connection = one Docker engine.
#[derive(Debug, PartialEq)]
pub struct ConnectionInfo {
    pub id: String,
    pub name: String,
    /// `"local"` for the platform-default socket (named pipe on Windows,
    /// `/var/run/docker.sock` elsewhere), or a `tcp://host:port` URL for a
    /// remote engine.
    pub endpoint: String,
    /// When set, connect over mutual TLS: the client key PEM lives in the
    /// keyring, `client_cert_path` and `ca_cert_path` are plain paths to
    /// files already on disk.
    pub use_tls: bool,
    pub client_cert_path: Option<String>,
    pub ca_cert_path: Option<String>,
}

fn clone_opt(o: &Option<String>) -> (r: Option<String>)
    ensures
        r == *o,
{
    match o {
        Some(s) => Some(s.clone()),
        None => None,
    }
}

impl Clone for ConnectionInfo {
    fn clone(&self) -> (r: Self)
        ensures
            r == *self,
    {
        ConnectionInfo {
            id: self.id.clone(),
            name: self.name.clone(),
            endpoint: self.endpoint.clone(),
            use_tls: self.use_tls,
            client_cert_path: clone_opt(&self.client_cert_path),
            ca_cert_path: clone_opt(&self.ca_cert_path),
        }
    }
}

/// The position of the first profile with id `id`, or -1 where none has it.
pub open spec fn index_of(profiles: Seq<ConnectionInfo>, id: Seq<char>) -> int
    decreases profiles.len(),
{
    if profiles.len() == 0 {
        -1
    } else {
        let rest = index_of(profiles.drop_last(), id);
        if rest >= 0 {
            rest
        } else if profiles.last().id@ == id {
            profiles.len() - 1
        } else {
            -1
        }
    }
}

/// Whether some profile has id `id`.
pub open spec fn has_id(profiles: Seq<ConnectionInfo>, id: Seq<char>) -> bool {
    exists|i: int| 0 <= i < profiles.len() && (#[trigger] profiles[i]).id@ == id
}

/// The first profile with id `id`, if any.
pub open spec fn lookup(profiles: Seq<ConnectionInfo>, id: Seq<char>) -> Option<ConnectionInfo> {
    let i = index_of(profiles, id);
    if i >= 0 {
        Some(profiles[i])
    } else {
        None
    }
}

/// The profile list after saving `info`: the first profile with the same id
/// is replaced in place, and where there is none, `info` is appended.
pub open spec fn upsert(profiles: Seq<ConnectionInfo>, info: ConnectionInfo) -> Seq<ConnectionInfo> {
    let i = index_of(profiles, info.id@);
    if i >= 0 {
        profiles.update(i, info)
    } else {
        profiles.push(info)
    }
}

/// The profile list without any profile of id `id`.
pub open spec fn without_id(profiles: Seq<ConnectionInfo>, id: Seq<char>) -> Seq<ConnectionInfo> {
    profiles.filter(id_differs(id))
}

/// The test that a profile's id is not `id`.
pub open spec fn id_differs(id: Seq<char>) -> spec_fn(ConnectionInfo) -> bool {
    |c: ConnectionInfo| c.id@ != id
}

/// No two profiles share an id.
pub open spec fn unique_ids(profiles: Seq<ConnectionInfo>) -> bool {
    forall|i: int, j: int|
        0 <= i < profiles.len() && 0 <= j < profiles.len() && i != j ==> (#[trigger] profiles[i]).id@
            != (#[trigger] profiles[j]).id@
}

/// The error for an id that no saved profile has.
pub open spec fn unknown_connection_message(id: Seq<char>) -> Seq<char> {
    "no saved connection with id "@ + id
}

/// What `index_of` says of a position: it holds `id`, and no earlier one does.
pub proof fn lemma_index_of(profiles: Seq<ConnectionInfo>, id: Seq<char>)
    ensures
        -1 <= index_of(profiles, id) < profiles.len(),
        index_of(profiles, id) >= 0 ==> profiles[index_of(profiles, id)].id@ == id,
        forall|k: int| 0 <= k < profiles.len() && (index_of(profiles, id) < 0 || k < index_of(profiles, id))
            ==> (#[trigger] profiles[k]).id@ != id,
        index_of(profiles, id) >= 0 <==> has_id(profiles, id),
    decreases profiles.len(),
{
    if profiles.len() > 0 {
        let rest = profiles.drop_last();
        lemma_index_of(rest, id);
        assert forall|k: int| 0 <= k < rest.len() implies rest[k] == profiles[k] by {}
        if has_id(profiles, id) {
            let w = choose|i: int| 0 <= i < profiles.len() && (#[trigger] profiles[i]).id@ == id;
            if w < rest.len() {
                assert(rest[w].id@ == id);
            }
        }
    }
}

/// The profiles as the store held them, none where it has no file yet.
pub fn load(stored: Option<Vec<ConnectionInfo>>) -> (r: Vec<ConnectionInfo>)
    ensures
        stored matches Some(v) ==> r == v,
        stored is None ==> r@ == Seq::<ConnectionInfo>::empty(),
{
    match stored {
        Some(v) => v,
        None => Vec::new(),
    }
}

fn position_of(profiles: &Vec<ConnectionInfo>, id: &str) -> (r: Option<usize>)
    ensures
        r matches Some(i) ==> i < profiles.len() && i as int == index_of(profiles@, id@),
        r is None ==> index_of(profiles@, id@) < 0,
{
    proof {
        lemma_index_of(profiles@, id@);
    }
    let mut i: usize = 0;
    while i < profiles.len()
        invariant
            i <= profiles.len(),
            forall|k: int| 0 <= k < i ==> (#[trigger] profiles@[k]).id@ != id@,
        decreases profiles.len() - i,
    {
        if same_text(profiles[i].id.as_str(), id) {
            proof {
                lemma_index_of(profiles@, id@);
                let idx = index_of(profiles@, id@);
                assert(profiles@[i as int].id@ == id@);
                assert(!(idx < 0 || (i as int) < idx));
                if idx < i {
                    assert(profiles@[idx].id@ == id@);
                    assert(profiles@[idx].id@ != id@);
                }
            }
            return Some(i);
        }
        i = i + 1;
    }
    proof {
        if index_of(profiles@, id@) >= 0 {
            assert(profiles@[index_of(profiles@, id@)].id@ == id@);
        }
    }
    None
}

/// The saved profile with id `id`; an error where none has it.
pub fn get(profiles: &Vec<ConnectionInfo>, id: &str) -> (r: Result<ConnectionInfo, String>)
    ensures
        r is Ok <==> has_id(profiles@, id@),
        r matches Ok(c) ==> lookup(profiles@, id@) == Some(c),
        r matches Err(msg) ==> msg@ == unknown_connection_message(id@),
{
    proof {
        lemma_index_of(profiles@, id@);
    }
    match position_of(profiles, id) {
        Some(i) => Ok(profiles[i].clone()),
        None => {
            let mut msg = String::new();
            msg.append("no saved connection with id ");
            msg.append(id);
            Err(msg)
        },
    }
}

/// Saves `info`: it replaces the profile with the same id in place, or is
/// appended where no profile has that id.
pub fn save(profiles: &mut Vec<ConnectionInfo>, info: ConnectionInfo)
    ensures
        final(profiles)@ == upsert(old(profiles)@, info),
{
    match position_of(profiles, info.id.as_str()) {
        Some(i) => {
            profiles.set(i, info);
        },
        None => {
            profiles.push(info);
        },
    }
}

/// Removes every profile of id `id`; the others keep their order.
pub fn delete(profiles: &mut Vec<ConnectionInfo>, id: &str)
    ensures
        final(profiles)@ == without_id(old(profiles)@, id@),
{
    let ghost original = profiles@;
    let mut kept: Vec<ConnectionInfo> = Vec::new();
    let mut rest: Vec<ConnectionInfo> = Vec::new();
    std::mem::swap(&mut rest, profiles);
    let n: usize = rest.len();
    let mut i: usize = 0;
    assert(original.take(0).filter(id_differs(id@)) =~= Seq::<ConnectionInfo>::empty()) by {
        reveal(Seq::filter);
    }
    while i < n
        invariant
            n == original.len(),
            i <= n,
            rest@ == original.skip(i as int),
            kept@ == original.take(i as int).filter(id_differs(id@)),
        decreases n - i,
    {
        let c = rest.remove(0);
        assert(c == original[i as int]);
        assert(rest@ =~= original.skip(i + 1));
        let keep = !same_text(c.id.as_str(), id);
        assert(original.take(i + 1) =~= original.take(i as int).push(original[i as int]));
        proof {
            original.take(i as int).lemma_filter_push(original[i as int], id_differs(id@));
        }
        if keep {
            kept.push(c);
        }
        i = i + 1;
    }
    assert(original.take(n as int) =~= original);
    *profiles = kept;
}


proof fn lemma_index_of_at(profiles: Seq<ConnectionInfo>, id: Seq<char>, i: int)
    requires
        0 <= i < profiles.len(),
        profiles[i].id@ == id,
        forall|k: int| 0 <= k < i ==> (#[trigger] profiles[k]).id@ != id,
    ensures
        index_of(profiles, id) == i,
{
    lemma_index_of(profiles, id);
    let j = index_of(profiles, id);
    assert(!(j < 0 || i < j));
    if j < i {
        assert(profiles[j].id@ == id);
    }
}

proof fn lemma_lookup_push(profiles: Seq<ConnectionInfo>, x: ConnectionInfo, id: Seq<char>)
    ensures
        lookup(profiles.push(x), id) == if lookup(profiles, id) is Some {
            lookup(profiles, id)
        } else if x.id@ == id {
            Some(x)
        } else {
            None
        },
{
    lemma_index_of(profiles, id);
    assert(profiles.push(x).drop_last() =~= profiles);
}

/// Reading back a saved profile by its id gives that profile.
pub proof fn lemma_get_after_save(profiles: Seq<ConnectionInfo>, info: ConnectionInfo)
    ensures
        lookup(upsert(profiles, info), info.id@) == Some(info),
{
    let id = info.id@;
    lemma_index_of(profiles, id);
    let idx = index_of(profiles, id);
    if idx >= 0 {
        let after = profiles.update(idx, info);
        assert forall|k: int| 0 <= k < idx implies (#[trigger] after[k]).id@ != id by {
            assert(after[k] == profiles[k]);
        }
        lemma_index_of_at(after, id, idx);
    } else {
        lemma_lookup_push(profiles, info, id);
    }
}

/// Saving a profile leaves what every other id reads back unchanged.
pub proof fn lemma_save_keeps_others(profiles: Seq<ConnectionInfo>, info: ConnectionInfo, id: Seq<char>)
    requires
        id != info.id@,
    ensures
        lookup(upsert(profiles, info), id) == lookup(profiles, id),
{
    lemma_index_of(profiles, info.id@);
    let idx = index_of(profiles, info.id@);
    if idx >= 0 {
        let after = profiles.update(idx, info);
        lemma_index_of(profiles, id);
        lemma_index_of(after, id);
        let j = index_of(profiles, id);
        if j >= 0 {
            assert(j != idx);
            assert forall|k: int| 0 <= k < j implies (#[trigger] after[k]).id@ != id by {
                if k != idx {
                    assert(after[k] == profiles[k]);
                }
            }
            lemma_index_of_at(after, id, j);
        } else {
            if index_of(after, id) >= 0 {
                let w = index_of(after, id);
                if w != idx {
                    assert(after[w] == profiles[w]);
                }
            }
        }
    } else {
        lemma_lookup_push(profiles, info, id);
    }
}

/// Saving replaces rather than duplicates: the list keeps its length where
/// the id was saved before, and grows by one where it was not.
pub proof fn lemma_save_len(profiles: Seq<ConnectionInfo>, info: ConnectionInfo)
    ensures
        has_id(profiles, info.id@) ==> upsert(profiles, info).len() == profiles.len(),
        !has_id(profiles, info.id@) ==> upsert(profiles, info).len() == profiles.len() + 1,
{
    lemma_index_of(profiles, info.id@);
}

/// Once deleted, an id reads back as unknown.
pub proof fn lemma_get_after_delete(profiles: Seq<ConnectionInfo>, id: Seq<char>)
    ensures
        lookup(without_id(profiles, id), id) is None,
        !has_id(without_id(profiles, id), id),
{
    let pred = id_differs(id);
    let after = without_id(profiles, id);
    lemma_index_of(after, id);
    if has_id(after, id) {
        let w = choose|i: int| 0 <= i < after.len() && (#[trigger] after[i]).id@ == id;
        profiles.lemma_filter_pred(pred, w);
    }
}

/// Deleting one id leaves what every other id reads back unchanged.
pub proof fn lemma_delete_keeps_others(profiles: Seq<ConnectionInfo>, id: Seq<char>, other: Seq<char>)
    requires
        other != id,
    ensures
        lookup(without_id(profiles, id), other) == lookup(profiles, other),
    decreases profiles.len(),
{
    let pred = id_differs(id);
    if profiles.len() == 0 {
        assert(without_id(profiles, id) =~= profiles) by {
            reveal(Seq::filter);
        }
    } else {
        let s = profiles.drop_last();
        let x = profiles.last();
        assert(s.push(x) =~= profiles);
        lemma_delete_keeps_others(s, id, other);
        s.lemma_filter_push(x, pred);
        assert(without_id(profiles, id) == s.push(x).filter(pred));
        lemma_lookup_push(s, x, other);
        if pred(x) {
            lemma_lookup_push(without_id(s, id), x, other);
            assert(without_id(profiles, id) == without_id(s, id).push(x));
        } else {
            assert(without_id(profiles, id) == without_id(s, id));
            assert(x.id@ == id);
        }
    }
}

/// Saving keeps every id unique.
pub proof fn lemma_save_keeps_ids_unique(profiles: Seq<ConnectionInfo>, info: ConnectionInfo)
    requires
        unique_ids(profiles),
    ensures
        unique_ids(upsert(profiles, info)),
{
    lemma_index_of(profiles, info.id@);
    let after = upsert(profiles, info);
    assert forall|i: int, j: int|
        0 <= i < after.len() && 0 <= j < after.len() && i != j implies (#[trigger] after[i]).id@
            != (#[trigger] after[j]).id@ by {
        let idx = index_of(profiles, info.id@);
        if idx < 0 {
            if i == profiles.len() {
                assert(profiles[j].id@ != info.id@);
            } else if j == profiles.len() {
                assert(profiles[i].id@ != info.id@);
            } else {
                assert(after[i] == profiles[i] && after[j] == profiles[j]);
            }
        } else {
            if i == idx {
                assert(profiles[i].id@ == info.id@);
            } else if j == idx {
                assert(profiles[j].id@ == info.id@);
            }
        }
    }
}

/// Deleting keeps every id unique.
pub proof fn lemma_delete_keeps_ids_unique(profiles: Seq<ConnectionInfo>, id: Seq<char>)
    requires
        unique_ids(profiles),
    ensures
        unique_ids(without_id(profiles, id)),
    decreases profiles.len(),
{
    let pred = id_differs(id);
    if profiles.len() == 0 {
        assert(without_id(profiles, id) =~= profiles) by {
            reveal(Seq::filter);
        }
    } else {
        let s = profiles.drop_last();
        let x = profiles.last();
        assert(s.push(x) =~= profiles);
        assert(unique_ids(s)) by {
            assert forall|i: int, j: int|
                0 <= i < s.len() && 0 <= j < s.len() && i != j implies (#[trigger] s[i]).id@
                    != (#[trigger] s[j]).id@ by {
                assert(s[i] == profiles[i] && s[j] == profiles[j]);
            }
        }
        lemma_delete_keeps_ids_unique(s, id);
        s.lemma_filter_push(x, pred);
        if pred(x) {
            let f = without_id(s, id);
            let after = f.push(x);
            assert forall|i: int, j: int|
                0 <= i < after.len() && 0 <= j < after.len() && i != j implies (#[trigger] after[i]).id@
                    != (#[trigger] after[j]).id@ by {
                if i == f.len() {
                    assert(f.contains(f[j]));
                    s.lemma_filter_contains_rev(pred, f[j]);
                    let k = choose|k: int| 0 <= k < s.len() && s[k] == f[j];
                    assert(profiles[k] == s[k]);
                    assert(profiles[profiles.len() - 1] == x);
                } else if j == f.len() {
                    assert(f.contains(f[i]));
                    s.lemma_filter_contains_rev(pred, f[i]);
                    let k = choose|k: int| 0 <= k < s.len() && s[k] == f[i];
                    assert(profiles[k] == s[k]);
                    assert(profiles[profiles.len() - 1] == x);
                } else {
                    assert(after[i] == f[i] && after[j] == f[j]);
                }
            }
        }
    }
}

} // verus!
