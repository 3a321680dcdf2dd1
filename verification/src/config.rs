use vstd::prelude::*;

use crate::structs::{Config, ServerConfig};

verus! {

/// No two entries name the same community.
pub open spec fn distinct_ids(s: Seq<ServerConfig>) -> bool {
    forall|i: int, j: int| 0 <= i < j < s.len() ==> (#[trigger] s[i]).id != (#[trigger] s[j]).id
}

/// Some entry names this community.
pub open spec fn has_id(s: Seq<ServerConfig>, id: u64) -> bool {
    exists|i: int| 0 <= i < s.len() && (#[trigger] s[i]).id == id
}

/// The position of the entry naming this community; unique when the ids are
/// distinct.
pub open spec fn idx_of(s: Seq<ServerConfig>, id: u64) -> int {
    choose|i: int| 0 <= i < s.len() && (#[trigger] s[i]).id == id
}

/// In a registry with distinct ids, two positions naming the same community
/// coincide.
pub proof fn lemma_id_unique(s: Seq<ServerConfig>, a: int, b: int)
    requires
        distinct_ids(s),
        0 <= a < s.len(),
        0 <= b < s.len(),
        s[a].id == s[b].id,
    ensures
        a == b,
{
    if a < b {
        assert(s[a].id != s[b].id);
    } else if b < a {
        assert(s[b].id != s[a].id);
    }
}

/// The entries after writing `grant_role` for community `id`: the entry is
/// overwritten when present and appended when absent.
pub open spec fn upserted(s: Seq<ServerConfig>, id: u64, grant_role: u64) -> Seq<ServerConfig> {
    if has_id(s, id) {
        s.update(idx_of(s, id), (ServerConfig { id, grant_role_id: grant_role }))
    } else {
        s.push((ServerConfig { id, grant_role_id: grant_role }))
    }
}

/// Whether no two entries of this configuration name the same community.
/// Lets the surrounding application validate a configuration read from
/// storage before handing it over.
pub fn check_distinct_ids(config: &Config) -> (r: bool)
    ensures
        r == distinct_ids(config.servers@),
{
    let s = &config.servers;
    let n = s.len();
    let mut i: usize = 0;
    while i < n
        invariant
            i <= n,
            n == s@.len(),
            s@ == config.servers@,
            forall|p: int, q: int|
                0 <= p < q < n && p < i ==> (#[trigger] s@[p]).id != (#[trigger] s@[q]).id,
        decreases n - i,
    {
        let mut j: usize = i + 1;
        while j < n
            invariant
                i < j <= n || (i + 1 > n && j == i + 1),
                i < n,
                n == s@.len(),
                s@ == config.servers@,
                forall|p: int, q: int|
                    0 <= p < q < n && p < i ==> (#[trigger] s@[p]).id != (#[trigger] s@[q]).id,
                forall|q: int| i < q < j ==> s@[i as int].id != (#[trigger] s@[q]).id,
            decreases n - j,
        {
            if s[i].id == s[j].id {
                proof {
                    if distinct_ids(s@) {
                        lemma_id_unique(s@, i as int, j as int);
                    }
                }
                return false;
            }
            j += 1;
        }
        i += 1;
    }
    true
}

/// Per-community configuration registry, held in memory. The surrounding
/// application mirrors it to durable storage after every update.
pub struct ConfigManager {
    config: Config,
}

impl ConfigManager {
    /// The registered configurations.
    pub closed spec fn servers(self) -> Seq<ServerConfig> {
        self.config.servers@
    }

    /// Well-formed: at most one configuration per community.
    pub open spec fn wf(self) -> bool {
        distinct_ids(self.servers())
    }

    /// Wraps an initial configuration, as read from storage by the
    /// surrounding application.
    pub fn new(config: Config) -> (r: Self)
        requires
            distinct_ids(config.servers@),
        ensures
            r.wf(),
            r.servers() == config.servers@,
    {
        Self { config }
    }

    /// Read access to the whole configuration, for persistence by the
    /// surrounding application.
    pub fn config(&self) -> (r: &Config)
        ensures
            r.servers@ == self.servers(),
    {
        &self.config
    }

    /// The configuration registered for this community, if any; returns the
    /// first matching entry.
    pub fn get_server_config(&self, id: u64) -> (r: Option<&ServerConfig>)
        ensures
            match r {
                Some(c) => {
                    &&& has_id(self.servers(), id)
                    &&& c.id == id
                    &&& exists|i: int|
                        0 <= i < self.servers().len() && *c == (#[trigger] self.servers()[i])
                },
                None => !has_id(self.servers(), id),
            },
    {
        let s = &self.config.servers;
        let n = s.len();
        let mut i: usize = 0;
        while i < n
            invariant
                i <= n,
                n == s@.len(),
                s@ == self.servers(),
                forall|j: int| 0 <= j < i ==> (#[trigger] s@[j]).id != id,
            decreases n - i,
        {
            if s[i].id == id {
                proof {
                    let si = i as int;
                    assert(self.servers()[si].id == id);
                    assert(has_id(self.servers(), id));
                }
                return Some(&s[i]);
            }
            i += 1;
        }
        None
    }

    /// Registers `grant_role` for community `id`: overwrites the existing
    /// entry or appends a new one. The caller persists the registry
    /// afterwards.
    pub fn update_server_config(&mut self, id: u64, grant_role: u64)
        requires
            old(self).wf(),
        ensures
            final(self).servers() == upserted(old(self).servers(), id, grant_role),
            final(self).wf(),
    {
        proof {
            lemma_upsert_props(old(self).servers(), id, grant_role);
        }
        let n = self.config.servers.len();
        let mut i: usize = 0;
        while i < n
            invariant
                i <= n,
                n == self.config.servers@.len(),
                self.config.servers@ == old(self).servers(),
                old(self).wf(),
                forall|j: int| 0 <= j < i ==> (#[trigger] self.config.servers@[j]).id != id,
            decreases n - i,
        {
            if self.config.servers[i].id == id {
                proof {
                    let s = old(self).servers();
                    let si = i as int;
                    assert(s[si].id == id);
                    assert(has_id(s, id));
                    let i0 = idx_of(s, id);
                    lemma_id_unique(s, si, i0);
                    lemma_upsert_props(s, id, grant_role);
                }
                self.config.servers.set(i, ServerConfig { id, grant_role_id: grant_role });
                return;
            }
            i += 1;
        }
        self.config.servers.push(ServerConfig { id, grant_role_id: grant_role });
    }
}

/// What one upsert does to a well-formed registry: it stays well-formed, the
/// community is present afterwards, its entry carries the written role, and
/// the size grows exactly when the community was absent.
pub proof fn lemma_upsert_props(s: Seq<ServerConfig>, id: u64, grant_role: u64)
    requires
        distinct_ids(s),
    ensures
        distinct_ids(upserted(s, id, grant_role)),
        has_id(upserted(s, id, grant_role), id),
        upserted(s, id, grant_role)[idx_of(upserted(s, id, grant_role), id)] == (ServerConfig {
            id,
            grant_role_id: grant_role,
        }),
        has_id(s, id) ==> upserted(s, id, grant_role).len() == s.len(),
        !has_id(s, id) ==> upserted(s, id, grant_role).len() == s.len() + 1,
{
    let u = upserted(s, id, grant_role);
    let c = ServerConfig { id, grant_role_id: grant_role };
    if has_id(s, id) {
        let i0 = idx_of(s, id);
        assert(0 <= i0 < s.len() && s[i0].id == id);
        assert(u == s.update(i0, c));
        assert(forall|k: int| 0 <= k < u.len() ==> (#[trigger] u[k]).id == s[k].id);
        assert(u[i0].id == id);
        assert(has_id(u, id));
        let i1 = idx_of(u, id);
        assert(0 <= i1 < u.len() && u[i1].id == id);
        if i1 < i0 {
            assert(s[i1].id != s[i0].id);
        } else if i1 > i0 {
            assert(s[i0].id != s[i1].id);
        }
        assert(i1 == i0);
    } else {
        assert(u == s.push(c));
        assert(u[s.len() as int].id == id);
        assert(has_id(u, id));
        assert(forall|k: int| 0 <= k < s.len() ==> (#[trigger] u[k]).id == s[k].id);
        assert(forall|k: int| 0 <= k < s.len() ==> (#[trigger] s[k]).id != id);
        let i1 = idx_of(u, id);
        assert(0 <= i1 < u.len() && u[i1].id == id);
        assert(i1 == s.len());
    }
}

/// Law: after an upsert, looking the community up yields exactly the
/// just-written role.
pub proof fn lemma_upsert_then_get(s: Seq<ServerConfig>, id: u64, grant_role: u64)
    requires
        distinct_ids(s),
    ensures
        has_id(upserted(s, id, grant_role), id),
        upserted(s, id, grant_role)[idx_of(upserted(s, id, grant_role), id)].grant_role_id
            == grant_role,
{
    lemma_upsert_props(s, id, grant_role);
}

/// Law: a second upsert for the same community overwrites instead of
/// duplicating — the registry size is unchanged.
pub proof fn lemma_upsert_overwrites(s: Seq<ServerConfig>, id: u64, role_a: u64, role_b: u64)
    requires
        distinct_ids(s),
    ensures
        upserted(upserted(s, id, role_a), id, role_b).len() == upserted(s, id, role_a).len(),
{
    lemma_upsert_props(s, id, role_a);
    lemma_upsert_props(upserted(s, id, role_a), id, role_b);
}

} // verus!
