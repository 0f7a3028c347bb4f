//! Registry of the sources that events are attributed to.
//!
//! Materials, surfaces and lights get ids from counters that ascend from 0;
//! combined material-surface pairs get ids from a counter that descends from
//! `u16::MAX`. A group name binds several registrations to one id, and every
//! id keeps the list of human-readable names registered under it.
use vstd::prelude::*;
use vstd::string::StringExecFns;
use crate::{SrcName, SrcNameView};
use crate::mcrt::SrcId;
use crate::ledger::{Ledger, LedgerError};

verus! {

/// Abstract state of the registry.
pub struct RegistryView {
    pub groups: Map<Seq<char>, SrcId>,
    pub names: Map<SrcId, Seq<SrcNameView>>,
    pub next_mat_id: u16,
    pub next_surf_id: u16,
    pub next_matsurf_id: u16,
    pub next_light_id: u16,
}

/// Map of a list of pairs; a later pair overrides an earlier one.
pub open spec fn pairs_map<K, V>(s: Seq<(K, V)>) -> Map<K, V>
    decreases s.len(),
{
    if s.len() == 0 {
        Map::empty()
    } else {
        pairs_map(s.drop_last()).insert(s.last().0, s.last().1)
    }
}

pub open spec fn keys_unique<K, V>(s: Seq<(K, V)>) -> bool {
    forall|i: int, j: int| 0 <= i < s.len() && 0 <= j < s.len() && i != j ==> s[i].0 != s[j].0
}

pub proof fn lemma_pairs_map_keys<K, V>(s: Seq<(K, V)>, k: K)
    ensures
        pairs_map(s).contains_key(k) <==> exists|i: int| 0 <= i < s.len() && s[i].0 == k,
    decreases s.len(),
{
    if s.len() > 0 {
        lemma_pairs_map_keys(s.drop_last(), k);
        if exists|i: int| 0 <= i < s.len() && s[i].0 == k {
            let i = choose|i: int| 0 <= i < s.len() && s[i].0 == k;
            if i < s.len() - 1 {
                assert(s.drop_last()[i] == s[i]);
            }
        }
        if exists|i: int| 0 <= i < s.len() - 1 && s.drop_last()[i].0 == k {
            let i = choose|i: int| 0 <= i < s.len() - 1 && s.drop_last()[i].0 == k;
            assert(s[i] == s.drop_last()[i]);
        }
    }
}

pub proof fn lemma_pairs_map_value<K, V>(s: Seq<(K, V)>, i: int)
    requires
        keys_unique(s),
        0 <= i < s.len(),
    ensures
        pairs_map(s).contains_key(s[i].0),
        pairs_map(s)[s[i].0] == s[i].1,
    decreases s.len(),
{
    if i < s.len() - 1 {
        lemma_pairs_map_value(s.drop_last(), i);
    }
}

/// Replacing the pair at `i` by `(k, v)`, where `k` is the key of that pair
/// or a new key.
pub proof fn lemma_pairs_map_update<K, V>(s: Seq<(K, V)>, i: int, k: K, v: V)
    requires
        keys_unique(s),
        0 <= i < s.len(),
        k == s[i].0 || forall|j: int| 0 <= j < s.len() ==> s[j].0 != k,
    ensures
        pairs_map(s.update(i, (k, v))) == pairs_map(s).remove(s[i].0).insert(k, v),
        keys_unique(s.update(i, (k, v))),
    decreases s.len(),
{
    let t = s.update(i, (k, v));
    let d = s.drop_last();
    if i == s.len() - 1 {
        assert(t.drop_last() == d);
        lemma_pairs_map_keys(d, s[i].0);
        assert(pairs_map(s).remove(s[i].0) == pairs_map(d));
    } else {
        assert(t.drop_last() == d.update(i, (k, v)));
        lemma_pairs_map_update(d, i, k, v);
        assert(s.last().0 != s[i].0);
        assert(s.last().0 != k);
        assert(pairs_map(t) == pairs_map(s).remove(s[i].0).insert(k, v));
    }
}

/// Appending a pair with a new key.
pub proof fn lemma_pairs_map_push<K, V>(s: Seq<(K, V)>, k: K, v: V)
    requires
        keys_unique(s),
        !pairs_map(s).contains_key(k),
    ensures
        pairs_map(s.push((k, v))) == pairs_map(s).insert(k, v),
        keys_unique(s.push((k, v))),
{
    assert(s.push((k, v)).drop_last() == s);
    lemma_pairs_map_keys(s, k);
}

/// Whether `id` could have been handed out by the counters of `m`.
pub open spec fn id_allocated(m: RegistryView, id: SrcId) -> bool {
    match id {
        SrcId::NoSource => false,
        SrcId::Mat(x) => x < m.next_mat_id,
        SrcId::Surf(x) => x < m.next_surf_id,
        SrcId::MatSurf(x) => x > m.next_matsurf_id,
        SrcId::Light(x) => x < m.next_light_id,
    }
}

/// Every named id was allocated, every group names a registered id, and no
/// two groups share an id.
pub open spec fn registry_model_wf(m: RegistryView) -> bool {
    &&& forall|id: SrcId| #[trigger] m.names.contains_key(id) ==> id_allocated(m, id)
    &&& forall|g: Seq<char>| #[trigger]
        m.groups.contains_key(g) ==> m.names.contains_key(m.groups[g])
    &&& forall|g1: Seq<char>, g2: Seq<char>|
        #![trigger m.groups[g1], m.groups[g2]]
        m.groups.contains_key(g1) && m.groups.contains_key(g2) && m.groups[g1] == m.groups[g2]
            ==> g1 == g2
}

/// Raising the ascending counters or lowering the descending one keeps the
/// registry consistent.
proof fn lemma_wf_counters(m: RegistryView, m1: RegistryView)
    requires
        registry_model_wf(m),
        m1.groups == m.groups,
        m1.names == m.names,
        m1.next_mat_id >= m.next_mat_id,
        m1.next_surf_id >= m.next_surf_id,
        m1.next_light_id >= m.next_light_id,
        m1.next_matsurf_id <= m.next_matsurf_id,
    ensures
        registry_model_wf(m1),
{
    assert forall|id: SrcId| #[trigger] m1.names.contains_key(id) implies id_allocated(m1, id) by {
        assert(id_allocated(m, id));
    }
}

/// Appending a name to an allocated id keeps the registry consistent.
proof fn lemma_wf_add_name(m: RegistryView, id: SrcId, n: SrcNameView)
    requires
        registry_model_wf(m),
        id_allocated(m, id),
    ensures
        registry_model_wf(RegistryView { names: add_name(m.names, id, n), ..m }),
{
}

/// Binding a new group to a new allocated id keeps the registry consistent.
proof fn lemma_wf_new_group(m: RegistryView, g: Seq<char>, id: SrcId, n: SrcNameView)
    requires
        registry_model_wf(m),
        id_allocated(m, id),
        !m.groups.contains_key(g),
        !m.names.contains_key(id),
    ensures
        registry_model_wf(
            RegistryView { groups: m.groups.insert(g, id), names: add_name(m.names, id, n), ..m },
        ),
{
    let m2 = RegistryView { groups: m.groups.insert(g, id), names: add_name(m.names, id, n), ..m };
    assert forall|g1: Seq<char>, g2: Seq<char>|
        m2.groups.contains_key(g1) && m2.groups.contains_key(g2) && #[trigger] m2.groups[g1]
            == #[trigger] m2.groups[g2] implies g1 == g2 by {
        if g1 != g && g2 != g {
            assert(m.groups[g1] == m.groups[g2]);
        } else if g1 == g && g2 != g {
            assert(m.names.contains_key(m.groups[g2]));
        } else if g1 != g && g2 == g {
            assert(m.names.contains_key(m.groups[g1]));
        }
    }
}

/// Names after appending `n` to the list of `id`.
pub open spec fn add_name(
    names: Map<SrcId, Seq<SrcNameView>>,
    id: SrcId,
    n: SrcNameView,
) -> Map<SrcId, Seq<SrcNameView>> {
    if names.contains_key(id) {
        names.insert(id, names[id].push(n))
    } else {
        names.insert(id, seq![n])
    }
}

/// Registering a light.
pub open spec fn register_light(m: RegistryView, name: Seq<char>) -> (
    Result<SrcId, LedgerError>,
    RegistryView,
) {
    if m.next_light_id == u16::MAX {
        (Err(LedgerError::SrcIdsExhausted), m)
    } else {
        let id = SrcId::Light(m.next_light_id);
        (
            Ok(id),
            RegistryView {
                names: add_name(m.names, id, SrcNameView::Light(name)),
                next_light_id: (m.next_light_id + 1) as u16,
                ..m
            },
        )
    }
}

/// Registering a material.
pub open spec fn register_mat(m: RegistryView, name: Seq<char>) -> (
    Result<SrcId, LedgerError>,
    RegistryView,
) {
    if m.next_mat_id == u16::MAX {
        (Err(LedgerError::SrcIdsExhausted), m)
    } else {
        let id = SrcId::Mat(m.next_mat_id);
        (
            Ok(id),
            RegistryView {
                names: add_name(m.names, id, SrcNameView::Mat(name)),
                next_mat_id: (m.next_mat_id + 1) as u16,
                ..m
            },
        )
    }
}

/// Re-keys the group `g`, bound to `old_id`, as a new material-surface id
/// that keeps the names of `old_id`, then appends `n` to them.
pub open spec fn promote(m: RegistryView, g: Seq<char>, old_id: SrcId, n: SrcNameView) -> (
    Result<SrcId, LedgerError>,
    RegistryView,
) {
    if m.next_matsurf_id == 0 {
        (Err(LedgerError::SrcIdsExhausted), m)
    } else {
        let id = SrcId::MatSurf(m.next_matsurf_id);
        (
            Ok(id),
            RegistryView {
                groups: m.groups.insert(g, id),
                names: m.names.remove(old_id).insert(id, m.names[old_id].push(n)),
                next_matsurf_id: (m.next_matsurf_id - 1) as u16,
                ..m
            },
        )
    }
}

/// Registering a surface, optionally under a group.
pub open spec fn register_surf(m: RegistryView, obj: Seq<char>, grp: Option<Seq<char>>) -> (
    Result<SrcId, LedgerError>,
    RegistryView,
) {
    let n = SrcNameView::Surf(obj);
    let fresh = SrcId::Surf(m.next_surf_id);
    match grp {
        Some(g) if m.groups.contains_key(g) => match m.groups[g] {
            SrcId::Surf(_) => (Ok(m.groups[g]), RegistryView { names: add_name(m.names, m.groups[g], n), ..m }),
            SrcId::MatSurf(_) => (Ok(m.groups[g]), RegistryView { names: add_name(m.names, m.groups[g], n), ..m }),
            SrcId::Mat(_) => promote(m, g, m.groups[g], n),
            SrcId::Light(_) => (Err(LedgerError::LightGroup), m),
            SrcId::NoSource => (Err(LedgerError::InvalidGroup), m),
        },
        _ => if m.next_surf_id == u16::MAX {
            (Err(LedgerError::SrcIdsExhausted), m)
        } else {
            (
                Ok(fresh),
                RegistryView {
                    groups: match grp {
                        Some(g) => m.groups.insert(g, fresh),
                        None => m.groups,
                    },
                    names: add_name(m.names, fresh, n),
                    next_surf_id: (m.next_surf_id + 1) as u16,
                    ..m
                },
            )
        },
    }
}

/// Registering an object made of a material, optionally under a group; the
/// name recorded is `name`.
pub open spec fn register_matsurf(m: RegistryView, name: Seq<char>, grp: Option<Seq<char>>) -> (
    Result<SrcId, LedgerError>,
    RegistryView,
) {
    let n = SrcNameView::MatSurf(name);
    let fresh = SrcId::MatSurf(m.next_matsurf_id);
    match grp {
        Some(g) if m.groups.contains_key(g) => match m.groups[g] {
            SrcId::MatSurf(_) => (Ok(m.groups[g]), RegistryView { names: add_name(m.names, m.groups[g], n), ..m }),
            SrcId::Surf(_) => promote(m, g, m.groups[g], n),
            SrcId::Mat(_) => promote(m, g, m.groups[g], n),
            SrcId::Light(_) => (Err(LedgerError::LightGroup), m),
            SrcId::NoSource => (Err(LedgerError::InvalidGroup), m),
        },
        _ => if m.next_matsurf_id == 0 {
            (Err(LedgerError::SrcIdsExhausted), m)
        } else {
            (
                Ok(fresh),
                RegistryView {
                    groups: match grp {
                        Some(g) => m.groups.insert(g, fresh),
                        None => m.groups,
                    },
                    names: add_name(m.names, fresh, n),
                    next_matsurf_id: (m.next_matsurf_id - 1) as u16,
                    ..m
                },
            )
        },
    }
}

pub open spec fn opt_view(s: Option<String>) -> Option<Seq<char>> {
    match s {
        Some(g) => Some(g@),
        None => None,
    }
}

pub open spec fn group_pairs(s: Seq<(String, SrcId)>) -> Seq<(Seq<char>, SrcId)> {
    s.map_values(|p: (String, SrcId)| (p.0@, p.1))
}

pub open spec fn name_list(v: Seq<SrcName>) -> Seq<SrcNameView> {
    v.map_values(|n: SrcName| n@)
}

pub open spec fn name_pairs(s: Seq<(SrcId, Vec<SrcName>)>) -> Seq<(SrcId, Seq<SrcNameView>)> {
    s.map_values(|p: (SrcId, Vec<SrcName>)| (p.0, name_list(p.1@)))
}

impl Ledger {
    /// Abstract state of the registry.
    pub open spec fn registry(&self) -> RegistryView {
        RegistryView {
            groups: pairs_map(group_pairs(self.grps@)),
            names: pairs_map(name_pairs(self.src_map@)),
            next_mat_id: self.next_mat_id,
            next_surf_id: self.next_surf_id,
            next_matsurf_id: self.next_matsurf_id,
            next_light_id: self.next_light_id,
        }
    }

    pub open spec fn registry_wf(&self) -> bool {
        &&& keys_unique(group_pairs(self.grps@))
        &&& keys_unique(name_pairs(self.src_map@))
        &&& registry_model_wf(self.registry())
    }

    pub open spec fn wf(&self) -> bool {
        self.trie_wf() && self.registry_wf()
    }

    pub open spec fn registry_unchanged(&self, o: Ledger) -> bool {
        &&& self.grps == o.grps
        &&& self.src_map == o.src_map
        &&& self.next_mat_id == o.next_mat_id
        &&& self.next_surf_id == o.next_surf_id
        &&& self.next_matsurf_id == o.next_matsurf_id
        &&& self.next_light_id == o.next_light_id
    }

    fn find_group(&self, name: &String) -> (r: Option<usize>)
        requires
            self.registry_wf(),
        ensures
            match r {
                Some(i) => i < self.grps@.len() && self.grps@[i as int].0@ == name@
                    && self.registry().groups.contains_key(name@)
                    && self.registry().groups[name@] == self.grps@[i as int].1,
                None => !self.registry().groups.contains_key(name@),
            },
    {
        let mut i: usize = 0;
        while i < self.grps.len()
            invariant
                self.registry_wf(),
                i <= self.grps@.len(),
                forall|j: int| 0 <= j < i ==> self.grps@[j].0@ != name@,
            decreases self.grps@.len() - i,
        {
            if self.grps[i].0 == *name {
                proof {
                    lemma_pairs_map_value(group_pairs(self.grps@), i as int);
                }
                return Some(i);
            }
            i += 1;
        }
        proof {
            lemma_pairs_map_keys(group_pairs(self.grps@), name@);
        }
        None
    }

    pub(crate) fn find_src(&self, id: SrcId) -> (r: Option<usize>)
        requires
            keys_unique(name_pairs(self.src_map@)),
        ensures
            match r {
                Some(i) => i < self.src_map@.len() && self.src_map@[i as int].0 == id
                    && self.registry().names.contains_key(id),
                None => !self.registry().names.contains_key(id),
            },
    {
        let mut i: usize = 0;
        while i < self.src_map.len()
            invariant
                keys_unique(name_pairs(self.src_map@)),
                i <= self.src_map@.len(),
                forall|j: int| 0 <= j < i ==> self.src_map@[j].0 != id,
            decreases self.src_map@.len() - i,
        {
            if self.src_map[i].0 == id {
                proof {
                    lemma_pairs_map_value(name_pairs(self.src_map@), i as int);
                }
                return Some(i);
            }
            i += 1;
        }
        proof {
            lemma_pairs_map_keys(name_pairs(self.src_map@), id);
        }
        None
    }

    /// Appends `n` to the names of `id`, creating the entry when absent.
    fn push_name(&mut self, id: SrcId, n: SrcName)
        requires
            keys_unique(group_pairs(old(self).grps@)),
            keys_unique(name_pairs(old(self).src_map@)),
        ensures
            final(self).registry() == (RegistryView {
                names: add_name(old(self).registry().names, id, n@),
                ..old(self).registry()
            }),
            keys_unique(group_pairs(final(self).grps@)),
            keys_unique(name_pairs(final(self).src_map@)),
            final(self).grps == old(self).grps,
            final(self).next == old(self).next,
            final(self).prev == old(self).prev,
    {
        let ghost s0 = name_pairs(self.src_map@);
        match self.find_src(id) {
            Some(i) => {
                let mut entry = self.src_map.remove(i);
                let ghost v0 = entry.1@;
                entry.1.push(n);
                self.src_map.insert(i, entry);
                proof {
                    lemma_pairs_map_value(s0, i as int);
                    assert(name_list(entry.1@) == name_list(v0).push(n@));
                    assert(name_pairs(self.src_map@) == s0.update(
                        i as int,
                        (id, name_list(v0).push(n@)),
                    ));
                    lemma_pairs_map_update(s0, i as int, id, name_list(v0).push(n@));
                    assert(pairs_map(name_pairs(self.src_map@)) == add_name(
                        pairs_map(s0),
                        id,
                        n@,
                    ));
                }
            },
            None => {
                let mut v: Vec<SrcName> = Vec::new();
                v.push(n);
                self.src_map.push((id, v));
                proof {
                    assert(name_list(v@) == seq![n@]);
                    assert(name_pairs(self.src_map@) == s0.push((id, seq![n@])));
                    lemma_pairs_map_push(s0, id, seq![n@]);
                }
            },
        }
    }

    /// Re-keys the group at index `i`, bound to the material or surface id
    /// `old_id`, as a new material-surface id, and appends `n` to its names.
    fn promote(&mut self, i: usize, old_id: SrcId, n: SrcName) -> (r: Result<SrcId, LedgerError>)
        requires
            old(self).wf(),
            i < old(self).grps@.len(),
            old(self).grps@[i as int].1 == old_id,
        ensures
            final(self).wf(),
            final(self)@ == old(self)@,
            (r, final(self).registry()) == promote(
                old(self).registry(),
                old(self).grps@[i as int].0@,
                old_id,
                n@,
            ),
    {
        let ghost m = self.registry();
        let ghost g0 = group_pairs(self.grps@);
        let ghost s0 = name_pairs(self.src_map@);
        proof {
            lemma_pairs_map_value(g0, i as int);
        }
        if self.next_matsurf_id == 0 {
            return Err(LedgerError::SrcIdsExhausted);
        }
        let id = SrcId::MatSurf(self.next_matsurf_id);
        let j = match self.find_src(old_id) {
            Some(j) => j,
            None => {
                proof {
                    assert(false);
                }
                return Err(LedgerError::InvalidGroup);
            },
        };
        proof {
            lemma_pairs_map_value(s0, j as int);
            lemma_pairs_map_keys(s0, id);
            assert(!m.names.contains_key(id));
            assert forall|k: int| 0 <= k < s0.len() implies s0[k].0 != id by {
                lemma_pairs_map_value(s0, k);
            }
        }
        self.next_matsurf_id = self.next_matsurf_id - 1;
        let mut entry = self.src_map.remove(j);
        let ghost v0 = entry.1@;
        entry.0 = id;
        entry.1.push(n);
        self.src_map.insert(j, entry);
        let mut ge = self.grps.remove(i);
        ge.1 = id;
        self.grps.insert(i, ge);
        proof {
            assert(name_list(entry.1@) == name_list(v0).push(n@));
            assert(name_pairs(self.src_map@) == s0.update(j as int, (id, name_list(v0).push(n@))));
            lemma_pairs_map_update(s0, j as int, id, name_list(v0).push(n@));
            assert(group_pairs(self.grps@) == g0.update(i as int, (g0[i as int].0, id)));
            lemma_pairs_map_update(g0, i as int, g0[i as int].0, id);
            assert(pairs_map(g0).remove(g0[i as int].0).insert(g0[i as int].0, id) == pairs_map(
                g0,
            ).insert(g0[i as int].0, id));
            let m2 = self.registry();
            assert forall|g: Seq<char>| #[trigger] m2.groups.contains_key(g) implies m2.names.contains_key(
                m2.groups[g],
            ) by {
                if g != g0[i as int].0 {
                    assert(m.groups[g] != old_id);
                }
            }
        }
        Ok(id)
    }

    /// Registers a light source; every light gets an id of its own.
    pub fn with_light(&mut self, light_name: String) -> (r: Result<SrcId, LedgerError>)
        requires
            old(self).wf(),
        ensures
            final(self).wf(),
            final(self)@ == old(self)@,
            (r, final(self).registry()) == register_light(old(self).registry(), light_name@),
    {
        if self.next_light_id == u16::MAX {
            return Err(LedgerError::SrcIdsExhausted);
        }
        let ghost m = self.registry();
        let id = SrcId::Light(self.next_light_id);
        self.next_light_id = self.next_light_id + 1;
        let ghost m1 = self.registry();
        proof {
            lemma_wf_counters(m, m1);
        }
        let n = SrcName::Light(light_name);
        self.push_name(id, n);
        proof {
            lemma_wf_add_name(m1, id, n@);
        }
        Ok(id)
    }

    /// Registers a material; every material gets an id of its own.
    pub fn with_mat(&mut self, mat_name: String) -> (r: Result<SrcId, LedgerError>)
        requires
            old(self).wf(),
        ensures
            final(self).wf(),
            final(self)@ == old(self)@,
            (r, final(self).registry()) == register_mat(old(self).registry(), mat_name@),
    {
        if self.next_mat_id == u16::MAX {
            return Err(LedgerError::SrcIdsExhausted);
        }
        let ghost m = self.registry();
        let id = SrcId::Mat(self.next_mat_id);
        self.next_mat_id = self.next_mat_id + 1;
        let ghost m1 = self.registry();
        proof {
            lemma_wf_counters(m, m1);
        }
        let n = SrcName::Mat(mat_name);
        self.push_name(id, n);
        proof {
            lemma_wf_add_name(m1, id, n@);
        }
        Ok(id)
    }

    /// Registers a surface. Under a group seen before, the group's id is
    /// returned (a material id is first promoted to a material-surface id);
    /// otherwise a new surface id is allocated and, with a group, bound to it.
    pub fn with_surf(&mut self, obj_name: String, grp: Option<String>) -> (r: Result<
        SrcId,
        LedgerError,
    >)
        requires
            old(self).wf(),
        ensures
            final(self).wf(),
            final(self)@ == old(self)@,
            (r, final(self).registry()) == register_surf(
                old(self).registry(),
                obj_name@,
                opt_view(grp),
            ),
    {
        let ghost m = self.registry();
        let n = SrcName::Surf(obj_name);
        let found = match &grp {
            Some(g) => self.find_group(g),
            None => None,
        };
        match found {
            Some(i) => {
                let cur = self.grps[i].1;
                match cur {
                    SrcId::Surf(_) => {
                        proof {
                            lemma_wf_add_name(m, cur, n@);
                        }
                        self.push_name(cur, n);
                        Ok(cur)
                    },
                    SrcId::MatSurf(_) => {
                        proof {
                            lemma_wf_add_name(m, cur, n@);
                        }
                        self.push_name(cur, n);
                        Ok(cur)
                    },
                    SrcId::Mat(_) => self.promote(i, cur, n),
                    SrcId::Light(_) => Err(LedgerError::LightGroup),
                    SrcId::NoSource => Err(LedgerError::InvalidGroup),
                }
            },
            None => {
                if self.next_surf_id == u16::MAX {
                    return Err(LedgerError::SrcIdsExhausted);
                }
                let id = SrcId::Surf(self.next_surf_id);
                proof {
                    lemma_pairs_map_keys(name_pairs(self.src_map@), id);
                    assert(!m.names.contains_key(id));
                }
                self.next_surf_id = self.next_surf_id + 1;
                let ghost m1 = self.registry();
                proof {
                    lemma_wf_counters(m, m1);
                }
                match grp {
                    Some(g) => {
                        let ghost g0 = group_pairs(self.grps@);
                        self.grps.push((g, id));
                        proof {
                            assert(group_pairs(self.grps@) == g0.push((g@, id)));
                            lemma_pairs_map_push(g0, g@, id);
                            lemma_wf_new_group(m1, g@, id, n@);
                        }
                    },
                    None => {
                        proof {
                            lemma_wf_add_name(m1, id, n@);
                        }
                    },
                }
                self.push_name(id, n);
                Ok(id)
            },
        }
    }

    /// Registers an object `obj_name` made of `mat_name`, recorded under the
    /// name `obj_name:mat_name`. Under a group seen before, the group's id is
    /// returned (a material or surface id is first promoted to a
    /// material-surface id); otherwise a new material-surface id is
    /// allocated and, with a group, bound to it.
    pub fn with_matsurf(&mut self, obj_name: String, mat_name: String, grp: Option<String>) -> (r:
        Result<SrcId, LedgerError>)
        requires
            old(self).wf(),
        ensures
            final(self).wf(),
            final(self)@ == old(self)@,
            (r, final(self).registry()) == register_matsurf(
                old(self).registry(),
                obj_name@ + ":"@ + mat_name@,
                opt_view(grp),
            ),
    {
        let ghost m = self.registry();
        let name = obj_name.concat(":");
        let name = name.concat(mat_name.as_str());
        let n = SrcName::MatSurf(name);
        let found = match &grp {
            Some(g) => self.find_group(g),
            None => None,
        };
        match found {
            Some(i) => {
                let cur = self.grps[i].1;
                match cur {
                    SrcId::MatSurf(_) => {
                        proof {
                            lemma_wf_add_name(m, cur, n@);
                        }
                        self.push_name(cur, n);
                        Ok(cur)
                    },
                    SrcId::Surf(_) => self.promote(i, cur, n),
                    SrcId::Mat(_) => self.promote(i, cur, n),
                    SrcId::Light(_) => Err(LedgerError::LightGroup),
                    SrcId::NoSource => Err(LedgerError::InvalidGroup),
                }
            },
            None => {
                if self.next_matsurf_id == 0 {
                    return Err(LedgerError::SrcIdsExhausted);
                }
                let id = SrcId::MatSurf(self.next_matsurf_id);
                proof {
                    lemma_pairs_map_keys(name_pairs(self.src_map@), id);
                    assert(!m.names.contains_key(id));
                }
                self.next_matsurf_id = self.next_matsurf_id - 1;
                let ghost m1 = self.registry();
                proof {
                    lemma_wf_counters(m, m1);
                }
                match grp {
                    Some(g) => {
                        let ghost g0 = group_pairs(self.grps@);
                        self.grps.push((g, id));
                        proof {
                            assert(group_pairs(self.grps@) == g0.push((g@, id)));
                            lemma_pairs_map_push(g0, g@, id);
                            lemma_wf_new_group(m1, g@, id, n@);
                        }
                    },
                    None => {
                        proof {
                            lemma_wf_add_name(m1, id, n@);
                        }
                    },
                }
                self.push_name(id, n);
                Ok(id)
            },
        }
    }

    /// Whether the ascending material and surface ids are still below the
    /// descending material-surface ids. When they are not, the id ranges
    /// have met and later ids may repeat.
    pub fn check_ids(&self) -> (r: bool)
        ensures
            r == (self.next_mat_id < self.next_matsurf_id && self.next_surf_id
                < self.next_matsurf_id),
    {
        self.next_mat_id < self.next_matsurf_id && self.next_surf_id < self.next_matsurf_id
    }

    /// The names registered under `id`, in registration order, or `None`
    /// when `id` has no entry.
    pub fn src_names(&self, id: SrcId) -> (r: Option<Vec<String>>)
        requires
            self.wf(),
        ensures
            r is Some <==> self.registry().names.contains_key(id),
            r is Some ==> ({
                let v = r->Some_0;
                let ns = self.registry().names[id];
                &&& v@.len() == ns.len()
                &&& forall|i: int| 0 <= i < v@.len() ==> (#[trigger] v@[i])@ == ns[i].text()
            }),
    {
        match self.find_src(id) {
            None => None,
            Some(j) => {
                proof {
                    lemma_pairs_map_value(name_pairs(self.src_map@), j as int);
                }
                let names = &self.src_map[j].1;
                let mut out: Vec<String> = Vec::new();
                let mut i: usize = 0;
                while i < names.len()
                    invariant
                        i <= names@.len(),
                        out@.len() == i,
                        forall|k: int| 0 <= k < i ==> (#[trigger] out@[k])@ == names@[k]@.text(),
                    decreases names@.len() - i,
                {
                    out.push(names[i].to_string());
                    i += 1;
                }
                Some(out)
            },
        }
    }

    /// The table of group names and their ids.
    pub fn get_groups(&self) -> (r: &Vec<(String, SrcId)>)
        ensures
            r == &self.grps,
    {
        &self.grps
    }

    /// The table of ids and the names registered under them.
    pub fn get_src_map(&self) -> (r: &Vec<(SrcId, Vec<SrcName>)>)
        ensures
            r == &self.src_map,
    {
        &self.src_map
    }
}

} // verus!
