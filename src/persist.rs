//! Restoring a ledger from the tables of a persisted document.
//!
//! A document holds the group table, the source-name table, the four id
//! counters, the table from each sequence id to the edge that leads to it,
//! and the next sequence id. `Ledger::from_parts` rebuilds a ledger from
//! those tables and refuses tables that no ledger could have produced.
use vstd::prelude::*;
use crate::SrcName;
use crate::mcrt::SrcId;
use crate::ledger::{Ledger, LedgerError, Uid, MAX_EDGES, edges_wf, chain_of};
use crate::filter::{BitsMatch, matching_chains};
use crate::registry::{
    RegistryView, group_pairs, name_pairs, keys_unique, pairs_map, id_allocated,
    registry_model_wf, lemma_pairs_map_keys, lemma_pairs_map_value,
};

verus! {

/// Edges listed by a table of `(sequence id, edge)` entries.
pub open spec fn table_edges(t: Seq<(u32, Uid)>) -> Seq<Uid> {
    t.map_values(|p: (u32, Uid)| p.1)
}

/// The table of a ledger's edges: entry `k` is `(k + 1, edge k)`.
pub open spec fn prev_table(edges: Seq<Uid>) -> Seq<(u32, Uid)> {
    Seq::new(edges.len(), |k: int| ((k + 1) as u32, edges[k]))
}

/// Whether a table lists the edges of a trie, one per sequence id from 1 on,
/// and `next_seq_id` follows the last of them.
pub open spec fn table_valid(t: Seq<(u32, Uid)>, next_seq_id: u32) -> bool {
    &&& t.len() <= MAX_EDGES
    &&& next_seq_id == t.len() + 1
    &&& forall|k: int| 0 <= k < t.len() ==> (#[trigger] t[k]).0 == k + 1
    &&& edges_wf(table_edges(t))
}

/// Registry view of the given tables and counters.
pub open spec fn registry_of(
    grps: Seq<(String, SrcId)>,
    src_map: Seq<(SrcId, Vec<SrcName>)>,
    next_mat_id: u16,
    next_surf_id: u16,
    next_matsurf_id: u16,
    next_light_id: u16,
) -> RegistryView {
    RegistryView {
        groups: pairs_map(group_pairs(grps)),
        names: pairs_map(name_pairs(src_map)),
        next_mat_id,
        next_surf_id,
        next_matsurf_id,
        next_light_id,
    }
}

/// Whether the tables and counters form a consistent registry.
pub open spec fn registry_tables_valid(
    grps: Seq<(String, SrcId)>,
    src_map: Seq<(SrcId, Vec<SrcName>)>,
    next_mat_id: u16,
    next_surf_id: u16,
    next_matsurf_id: u16,
    next_light_id: u16,
) -> bool {
    &&& keys_unique(group_pairs(grps))
    &&& keys_unique(name_pairs(src_map))
    &&& registry_model_wf(
        registry_of(grps, src_map, next_mat_id, next_surf_id, next_matsurf_id, next_light_id),
    )
}

impl Ledger {
    fn allocated(&self, id: SrcId) -> (r: bool)
        ensures
            r == id_allocated(self.registry(), id),
    {
        match id {
            SrcId::NoSource => false,
            SrcId::Mat(x) => x < self.next_mat_id,
            SrcId::Surf(x) => x < self.next_surf_id,
            SrcId::MatSurf(x) => x > self.next_matsurf_id,
            SrcId::Light(x) => x < self.next_light_id,
        }
    }

    fn groups_unique(&self) -> (r: bool)
        ensures
            r == keys_unique(group_pairs(self.grps@)),
    {
        let ghost g = group_pairs(self.grps@);
        let n = self.grps.len();
        let mut i: usize = 0;
        while i < n
            invariant
                n == self.grps@.len(),
                g == group_pairs(self.grps@),
                i <= n,
                forall|a: int, b: int| 0 <= a < i && a < b < n ==> g[a].0 != g[b].0,
            decreases n - i,
        {
            let mut j: usize = i + 1;
            while j < n
                invariant
                    n == self.grps@.len(),
                    g == group_pairs(self.grps@),
                    i < n,
                    i + 1 <= j <= n,
                    forall|a: int, b: int| 0 <= a < i && a < b < n ==> g[a].0 != g[b].0,
                    forall|b: int| i < b < j ==> g[i as int].0 != g[b].0,
                decreases n - j,
            {
                if self.grps[i].0 == self.grps[j].0 {
                    proof {
                        assert(g[i as int].0 == g[j as int].0);
                    }
                    return false;
                }
                j += 1;
            }
            i += 1;
        }
        proof {
            assert forall|a: int, b: int|
                0 <= a < g.len() && 0 <= b < g.len() && a != b implies g[a].0 != g[b].0 by {
                if a > b {
                    assert(g[b].0 != g[a].0);
                }
            }
        }
        true
    }

    fn srcs_unique(&self) -> (r: bool)
        ensures
            r == keys_unique(name_pairs(self.src_map@)),
    {
        let ghost g = name_pairs(self.src_map@);
        let n = self.src_map.len();
        let mut i: usize = 0;
        while i < n
            invariant
                n == self.src_map@.len(),
                g == name_pairs(self.src_map@),
                i <= n,
                forall|a: int, b: int| 0 <= a < i && a < b < n ==> g[a].0 != g[b].0,
            decreases n - i,
        {
            let mut j: usize = i + 1;
            while j < n
                invariant
                    n == self.src_map@.len(),
                    g == name_pairs(self.src_map@),
                    i < n,
                    i + 1 <= j <= n,
                    forall|a: int, b: int| 0 <= a < i && a < b < n ==> g[a].0 != g[b].0,
                    forall|b: int| i < b < j ==> g[i as int].0 != g[b].0,
                decreases n - j,
            {
                if self.src_map[i].0 == self.src_map[j].0 {
                    proof {
                        assert(g[i as int].0 == g[j as int].0);
                    }
                    return false;
                }
                j += 1;
            }
            i += 1;
        }
        proof {
            assert forall|a: int, b: int|
                0 <= a < g.len() && 0 <= b < g.len() && a != b implies g[a].0 != g[b].0 by {
                if a > b {
                    assert(g[b].0 != g[a].0);
                }
            }
        }
        true
    }

    /// Whether the registry tables and counters are consistent: group names
    /// and ids are unique, every id was allocated by its counter, and every
    /// group names a registered id of its own.
    pub fn registry_ok(&self) -> (r: bool)
        ensures
            r == self.registry_wf(),
    {
        if !self.groups_unique() || !self.srcs_unique() {
            return false;
        }
        let ghost m = self.registry();
        let ghost gp = group_pairs(self.grps@);
        let ghost np = name_pairs(self.src_map@);
        let mut i: usize = 0;
        while i < self.src_map.len()
            invariant
                keys_unique(np),
                np == name_pairs(self.src_map@),
                m == self.registry(),
                i <= self.src_map@.len(),
                forall|j: int| 0 <= j < i ==> id_allocated(m, #[trigger] self.src_map@[j].0),
            decreases self.src_map@.len() - i,
        {
            if !self.allocated(self.src_map[i].0) {
                proof {
                    lemma_pairs_map_value(np, i as int);
                    assert(m.names.contains_key(np[i as int].0));
                }
                return false;
            }
            i += 1;
        }
        let mut i: usize = 0;
        while i < self.grps.len()
            invariant
                keys_unique(np),
                keys_unique(gp),
                np == name_pairs(self.src_map@),
                gp == group_pairs(self.grps@),
                m == self.registry(),
                i <= self.grps@.len(),
                forall|j: int| 0 <= j < i ==> m.names.contains_key(#[trigger] self.grps@[j].1),
                forall|a: int, b: int|
                    0 <= a < i && 0 <= b < self.grps@.len() && a != b ==> self.grps@[a].1
                        != self.grps@[b].1,
            decreases self.grps@.len() - i,
        {
            let id = self.grps[i].1;
            proof {
                lemma_pairs_map_value(gp, i as int);
            }
            match self.find_src(id) {
                None => {
                    proof {
                        assert(gp[i as int].1 == id);
                        assert(m.groups.contains_key(gp[i as int].0));
                        assert(!m.names.contains_key(m.groups[gp[i as int].0]));
                    }
                    return false;
                },
                Some(_) => {},
            }
            let mut j: usize = 0;
            while j < self.grps.len()
                invariant
                    keys_unique(gp),
                    gp == group_pairs(self.grps@),
                    m == self.registry(),
                    i < self.grps@.len(),
                    id == self.grps@[i as int].1,
                    j <= self.grps@.len(),
                    forall|b: int| 0 <= b < j && b != i ==> self.grps@[b].1 != id,
                decreases self.grps@.len() - j,
            {
                if j != i && self.grps[j].1 == id {
                    proof {
                        lemma_pairs_map_value(gp, i as int);
                        lemma_pairs_map_value(gp, j as int);
                        assert(gp[i as int].0 != gp[j as int].0);
                        assert(m.groups[gp[i as int].0] == m.groups[gp[j as int].0]);
                    }
                    return false;
                }
                j += 1;
            }
            proof {
                assert forall|a: int, b: int|
                    0 <= a < i + 1 && 0 <= b < self.grps@.len() && a != b implies self.grps@[a].1
                        != self.grps@[b].1 by {
                    if a == i {
                        assert(self.grps@[b].1 != id);
                    }
                }
            }
            i += 1;
        }
        proof {
            assert forall|id: SrcId| #[trigger] m.names.contains_key(id) implies id_allocated(
                m,
                id,
            ) by {
                lemma_pairs_map_keys(np, id);
                let j = choose|j: int| 0 <= j < np.len() && np[j].0 == id;
                assert(self.src_map@[j].0 == id);
            }
            assert forall|g: Seq<char>| #[trigger] m.groups.contains_key(g) implies m.names.contains_key(
                m.groups[g],
            ) by {
                lemma_pairs_map_keys(gp, g);
                let j = choose|j: int| 0 <= j < gp.len() && gp[j].0 == g;
                lemma_pairs_map_value(gp, j);
                assert(m.names.contains_key(self.grps@[j].1));
            }
            assert forall|g1: Seq<char>, g2: Seq<char>|
                m.groups.contains_key(g1) && m.groups.contains_key(g2) && #[trigger] m.groups[g1]
                    == #[trigger] m.groups[g2] implies g1 == g2 by {
                lemma_pairs_map_keys(gp, g1);
                lemma_pairs_map_keys(gp, g2);
                let a = choose|j: int| 0 <= j < gp.len() && gp[j].0 == g1;
                let b = choose|j: int| 0 <= j < gp.len() && gp[j].0 == g2;
                lemma_pairs_map_value(gp, a);
                lemma_pairs_map_value(gp, b);
                if a != b {
                    assert(self.grps@[a].1 != self.grps@[b].1);
                }
            }
        }
        true
    }

    /// Rebuilds a ledger from the tables of a persisted document. Fails with
    /// `InvalidDocument` unless the edge table lists the edges of a trie, one
    /// per sequence id from 1 on, `next_seq_id` follows them, and the
    /// registry tables are consistent.
    pub fn from_parts(
        grps: Vec<(String, SrcId)>,
        src_map: Vec<(SrcId, Vec<SrcName>)>,
        next_mat_id: u16,
        next_surf_id: u16,
        next_matsurf_id: u16,
        next_light_id: u16,
        prev: Vec<(u32, Uid)>,
        next_seq_id: u32,
    ) -> (r: Result<Ledger, LedgerError>)
        ensures
            r is Ok <==> table_valid(prev@, next_seq_id) && registry_tables_valid(
                grps@,
                src_map@,
                next_mat_id,
                next_surf_id,
                next_matsurf_id,
                next_light_id,
            ),
            r is Err ==> r == Err::<Ledger, LedgerError>(LedgerError::InvalidDocument),
            r is Ok ==> ({
                let l = r->Ok_0;
                &&& l.wf()
                &&& l@ == table_edges(prev@)
                &&& l.registry() == registry_of(
                    grps@,
                    src_map@,
                    next_mat_id,
                    next_surf_id,
                    next_matsurf_id,
                    next_light_id,
                )
            }),
    {
        let ghost t = prev@;
        let ghost te = table_edges(t);
        let mut l = Ledger::new();
        if prev.len() > MAX_EDGES || next_seq_id as usize != prev.len() + 1 {
            return Err(LedgerError::InvalidDocument);
        }
        let mut k: usize = 0;
        while k < prev.len()
            invariant
                t == prev@,
                te == table_edges(t),
                t.len() <= MAX_EDGES,
                k <= t.len(),
                l.wf(),
                l@ == te.take(k as int),
                l.grps@.len() == 0,
                l.src_map@.len() == 0,
                l.next_mat_id == 0,
                l.next_surf_id == 0,
                l.next_matsurf_id == u16::MAX,
                l.next_light_id == 0,
                forall|j: int| 0 <= j < k ==> (#[trigger] t[j]).0 == j + 1,
            decreases t.len() - k,
        {
            let (s, u) = prev[k];
            assert(te[k as int] == u);
            if s as usize != k + 1 || u.seq_no as usize > k {
                proof {
                    if s as usize == k + 1 {
                        assert(!edges_wf(te));
                    }
                }
                return Err(LedgerError::InvalidDocument);
            }
            if l.get_next(&u).is_some() {
                proof {
                    let j = l@.index_of(u);
                    assert(te[j] == u && te[k as int] == u && j != k);
                    assert(!te.no_duplicates());
                }
                return Err(LedgerError::InvalidDocument);
            }
            let _ = l.add_edge(u);
            proof {
                assert(te.take(k + 1) == te.take(k as int).push(u));
            }
            k += 1;
        }
        proof {
            assert(te.take(k as int) == te);
        }
        l.grps = grps;
        l.src_map = src_map;
        l.next_mat_id = next_mat_id;
        l.next_surf_id = next_surf_id;
        l.next_matsurf_id = next_matsurf_id;
        l.next_light_id = next_light_id;
        if !l.registry_ok() {
            return Err(LedgerError::InvalidDocument);
        }
        Ok(l)
    }
}

/// Persisting and restoring the edges of a ledger gives the same edges back,
/// so every chain and every search result is the same after a reload.
pub proof fn lemma_edge_table_round_trip(edges: Seq<Uid>)
    requires
        edges_wf(edges),
    ensures
        table_valid(prev_table(edges), (edges.len() + 1) as u32),
        table_edges(prev_table(edges)) == edges,
        forall|u: Uid| #[trigger] chain_of(table_edges(prev_table(edges)), u) == chain_of(edges, u),
        forall|f: Seq<BitsMatch>| #[trigger]
            matching_chains(table_edges(prev_table(edges)), f) == matching_chains(edges, f),
{
    assert(table_edges(prev_table(edges)) == edges);
}

/// Persisting and restoring the registry of a consistent ledger gives the
/// same registry back.
pub proof fn lemma_registry_round_trip(l: Ledger)
    requires
        l.wf(),
    ensures
        registry_tables_valid(
            l.grps@,
            l.src_map@,
            l.next_mat_id,
            l.next_surf_id,
            l.next_matsurf_id,
            l.next_light_id,
        ),
        registry_of(
            l.grps@,
            l.src_map@,
            l.next_mat_id,
            l.next_surf_id,
            l.next_matsurf_id,
            l.next_light_id,
        ) == l.registry(),
{
}

} // verus!
