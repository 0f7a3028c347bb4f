//! Prefix-sharing store of event chains.
//!
//! Each position of the trie is a sequence id; position 0 is the root. An
//! edge is a `Uid`: the parent position together with the event word taken
//! from there. Edges are numbered in the order they are first inserted, and
//! the edge with number `k` (counting from 0) leads to position `k + 1`, so
//! the ledger's contents are the sequence of its edges (`self@`).
use vstd::prelude::*;
use std::collections::HashMap;
use crate::{EventId, SrcName};
use crate::mcrt::SrcId;

verus! {

broadcast use vstd::std_specs::hash::group_hash_axioms;

/// One edge of the trie: an event observed at a position.
#[derive(Clone, Copy, Debug, PartialEq, Eq, Structural, Hash, PartialOrd, Ord)]
pub struct Uid {
    pub seq_no: u32,
    pub event: u32,
}

impl Uid {
    /// 64-bit key: sequence id in the high half, event word in the low half.
    pub open spec fn spec_encode(self) -> u64 {
        ((self.seq_no as u64) << 32) | (self.event as u64)
    }

    pub open spec fn spec_decode(key: u64) -> Uid {
        Uid { seq_no: (key >> 32) as u32, event: (key & 0xFFFF_FFFF) as u32 }
    }

    pub fn new(seq_no: u32, event: u32) -> (r: Self)
        ensures
            r == (Uid { seq_no, event }),
    {
        Uid { seq_no, event }
    }

    pub fn encode(&self) -> (r: u64)
        ensures
            r == self.spec_encode(),
    {
        ((self.seq_no as u64) << 32) | (self.event as u64)
    }

    pub fn decode(encoded: u64) -> (r: Self)
        ensures
            r == Self::spec_decode(encoded),
    {
        Uid { seq_no: (encoded >> 32) as u32, event: (encoded & 0xFFFF_FFFF) as u32 }
    }
}

/// Decoding the key of a Uid gives the Uid back.
pub proof fn lemma_uid_key_round_trip(u: Uid)
    ensures
        Uid::spec_decode(u.spec_encode()) == u,
{
    let s = u.seq_no;
    let e = u.event;
    assert((((s as u64) << 32 | (e as u64)) >> 32) as u32 == s) by (bit_vector);
    assert((((s as u64) << 32 | (e as u64)) & 0xFFFF_FFFF) as u32 == e) by (bit_vector);
}

/// Distinct Uids have distinct keys.
pub proof fn lemma_uid_key_injective(u: Uid, v: Uid)
    ensures
        u.spec_encode() == v.spec_encode() ==> u == v,
{
    lemma_uid_key_round_trip(u);
    lemma_uid_key_round_trip(v);
}

/// Why a ledger operation was refused.
#[derive(Clone, Copy, Debug, PartialEq, Eq, Structural)]
pub enum LedgerError {
    /// The parent Uid was never returned by an insertion.
    UnknownParent,
    /// No sequence id is left to allocate.
    SeqIdsExhausted,
    /// No id of the requested source kind is left to allocate.
    SrcIdsExhausted,
    /// The group is bound to a light source.
    LightGroup,
    /// The group is bound to a source kind that cannot be extended.
    InvalidGroup,
    /// Persisted tables that no ledger could have produced.
    InvalidDocument,
}

/// Largest number of edges: every position must be a `u32`.
pub const MAX_EDGES: usize = 0xFFFF_FFFE;

/// Trie of event chains, with the registry of sources the events refer to.
/// The fields are readable for contracts; the methods keep them consistent.
/// Every mutation takes `&mut self`, so workers that share a ledger hold it
/// behind one lock, and each insertion (look up the edge, allocate a
/// sequence id, record both directions) is one atomic step.
pub struct Ledger {
    pub grps: Vec<(String, SrcId)>,
    pub src_map: Vec<(SrcId, Vec<SrcName>)>,
    pub next_mat_id: u16,
    pub next_surf_id: u16,
    pub next_matsurf_id: u16,
    pub next_light_id: u16,
    pub next: HashMap<u64, u32>,
    pub prev: Vec<Uid>,
}

/// Position reached by the edge `u`, when `u` is an edge.
pub open spec fn position(edges: Seq<Uid>, u: Uid) -> int {
    edges.index_of(u) + 1
}

/// Edges after inserting `u`: unchanged when present, else appended.
pub open spec fn with_edge(edges: Seq<Uid>, u: Uid) -> Seq<Uid> {
    if edges.contains(u) {
        edges
    } else {
        edges.push(u)
    }
}

/// Edges of a trie: each leaves an earlier position, and none repeats.
pub open spec fn edges_wf(edges: Seq<Uid>) -> bool {
    &&& edges.len() <= MAX_EDGES
    &&& forall|k: int| 0 <= k < edges.len() ==> (#[trigger] edges[k]).seq_no <= k
    &&& edges.no_duplicates()
}

/// Root-to-`pos` path: the edges taken to reach position `pos`.
pub open spec fn path_to(edges: Seq<Uid>, pos: int) -> Seq<Uid>
    decreases pos,
{
    if 1 <= pos <= edges.len() && edges[pos - 1].seq_no < pos {
        path_to(edges, edges[pos - 1].seq_no as int).push(edges[pos - 1])
    } else {
        Seq::empty()
    }
}

/// Chain of `u`: the path to the position `u` leaves, then `u`.
pub open spec fn chain_of(edges: Seq<Uid>, u: Uid) -> Seq<Uid> {
    path_to(edges, u.seq_no as int).push(u)
}

/// Edges that leave position `pos`, in insertion order.
pub open spec fn children_at(edges: Seq<Uid>, pos: int) -> Seq<Uid> {
    edges.filter(|v: Uid| v.seq_no == pos)
}

impl View for Ledger {
    type V = Seq<Uid>;

    open spec fn view(&self) -> Seq<Uid> {
        self.prev@
    }
}

impl Ledger {
    /// The edge table and the key map are mutual inverses.
    pub open spec fn trie_wf(&self) -> bool {
        &&& edges_wf(self@)
        &&& forall|k: int|
            0 <= k < self@.len() ==> {
                &&& #[trigger] self.next@.contains_key(self@[k].spec_encode())
                &&& self.next@[self@[k].spec_encode()] == k + 1
            }
        &&& forall|key: u64| #[trigger]
            self.next@.contains_key(key) ==> {
                &&& 1 <= self.next@[key] <= self@.len()
                &&& self@[self.next@[key] - 1].spec_encode() == key
            }
    }

    /// Lookup of an edge through the key map.
    proof fn lemma_lookup(&self, u: Uid)
        requires
            self.trie_wf(),
        ensures
            self.next@.contains_key(u.spec_encode()) <==> self@.contains(u),
            self@.contains(u) ==> self.next@[u.spec_encode()] == position(self@, u),
            self@.contains(u) ==> 0 <= self@.index_of(u) < self@.len() && self@[self@.index_of(
                u,
            )] == u,
    {
        if self.next@.contains_key(u.spec_encode()) {
            let k = self.next@[u.spec_encode()] - 1;
            lemma_uid_key_injective(self@[k], u);
            assert(self@[k] == u);
        }
        if self@.contains(u) {
            let i = self@.index_of(u);
            assert(self.next@.contains_key(self@[i].spec_encode()));
            let k = self.next@[u.spec_encode()] - 1;
            lemma_uid_key_injective(self@[k], u);
            assert(self@[k] == self@[i]);
        }
    }

    /// An empty ledger.
    pub fn new() -> (r: Self)
        ensures
            r.wf(),
            r@ == Seq::<Uid>::empty(),
            r.grps@ == Seq::<(String, SrcId)>::empty(),
            r.src_map@ == Seq::<(SrcId, Vec<SrcName>)>::empty(),
            r.next_mat_id == 0,
            r.next_surf_id == 0,
            r.next_matsurf_id == u16::MAX,
            r.next_light_id == 0,
    {
        Ledger {
            grps: Vec::new(),
            src_map: Vec::new(),
            next_mat_id: 0,
            next_surf_id: 0,
            next_matsurf_id: u16::MAX,
            next_light_id: 0,
            next: HashMap::new(),
            prev: Vec::new(),
        }
    }

    /// Next sequence id to be allocated; 0 is the root.
    pub fn next_seq_id(&self) -> (r: u32)
        requires
            self.wf(),
        ensures
            r == self@.len() + 1,
    {
        (self.prev.len() + 1) as u32
    }

    /// Adds the edge `u`, unless it is present.
    pub(crate) fn add_edge(&mut self, u: Uid) -> (r: Result<Uid, LedgerError>)
        requires
            old(self).wf(),
            u.seq_no <= old(self)@.len(),
        ensures
            final(self).wf(),
            final(self).registry_unchanged(*old(self)),
            r == (if old(self)@.contains(u) || old(self)@.len() < MAX_EDGES {
                Ok::<Uid, LedgerError>(u)
            } else {
                Err(LedgerError::SeqIdsExhausted)
            }),
            r is Ok ==> final(self)@ == with_edge(old(self)@, u),
            r is Err ==> final(self)@ == old(self)@,
    {
        proof {
            self.lemma_lookup(u);
        }
        if self.next.contains_key(&u.encode()) {
            return Ok(u);
        }
        if self.prev.len() >= MAX_EDGES {
            return Err(LedgerError::SeqIdsExhausted);
        }
        let ghost old_edges = self@;
        let seq = (self.prev.len() + 1) as u32;
        self.next.insert(u.encode(), seq);
        self.prev.push(u);
        proof {
            assert(self@ == old_edges.push(u));
            assert forall|k: int| 0 <= k < self@.len() implies {
                &&& #[trigger] self.next@.contains_key(self@[k].spec_encode())
                &&& self.next@[self@[k].spec_encode()] == k + 1
            } by {
                if k < old_edges.len() {
                    assert(self@[k] == old_edges[k]);
                    lemma_uid_key_injective(old_edges[k], u);
                }
            }
            assert forall|key: u64| #[trigger] self.next@.contains_key(key) implies {
                &&& 1 <= self.next@[key] <= self@.len()
                &&& self@[self.next@[key] - 1].spec_encode() == key
            } by {
                if key != u.spec_encode() {
                    assert(old(self).next@.contains_key(key));
                }
            }
            assert(self@.no_duplicates());
        }
        Ok(u)
    }

    /// Registers `start_event` as a possible chain start, at sequence id 0.
    /// Inserting the same start event again returns the same Uid and leaves
    /// the ledger unchanged.
    pub fn insert_start(&mut self, start_event: EventId) -> (r: Result<Uid, LedgerError>)
        requires
            old(self).wf(),
        ensures
            final(self).wf(),
            final(self).registry_unchanged(*old(self)),
            ({
                let u = Uid { seq_no: 0, event: start_event.spec_encode() };
                if old(self)@.contains(u) || old(self)@.len() < MAX_EDGES {
                    r == Ok::<Uid, LedgerError>(u) && final(self)@ == with_edge(old(self)@, u)
                } else {
                    r == Err::<Uid, LedgerError>(LedgerError::SeqIdsExhausted) && final(self)@
                        == old(self)@
                }
            }),
    {
        let uid = Uid::new(0, start_event.encode());
        self.add_edge(uid)
    }

    /// Records `event` as taken after the edge `prev_event`. Fails with
    /// `UnknownParent` when `prev_event` is not an edge of the ledger. An
    /// edge already present is shared: the same Uid comes back and the ledger
    /// is unchanged.
    pub fn insert(&mut self, prev_event: Uid, event: EventId) -> (r: Result<Uid, LedgerError>)
        requires
            old(self).wf(),
        ensures
            final(self).wf(),
            final(self).registry_unchanged(*old(self)),
            !old(self)@.contains(prev_event) ==> r == Err::<Uid, LedgerError>(
                LedgerError::UnknownParent,
            ) && final(self)@ == old(self)@,
            old(self)@.contains(prev_event) ==> ({
                let u = Uid {
                    seq_no: position(old(self)@, prev_event) as u32,
                    event: event.spec_encode(),
                };
                if old(self)@.contains(u) || old(self)@.len() < MAX_EDGES {
                    r == Ok::<Uid, LedgerError>(u) && final(self)@ == with_edge(old(self)@, u)
                } else {
                    r == Err::<Uid, LedgerError>(LedgerError::SeqIdsExhausted) && final(self)@
                        == old(self)@
                }
            }),
    {
        proof {
            self.lemma_lookup(prev_event);
        }
        match self.next.get(&prev_event.encode()) {
            None => Err(LedgerError::UnknownParent),
            Some(seq) => {
                let uid = Uid::new(*seq, event.encode());
                self.add_edge(uid)
            },
        }
    }

    /// Position reached by the edge `uid`, if it is an edge.
    pub fn get_next(&self, uid: &Uid) -> (r: Option<u32>)
        requires
            self.wf(),
        ensures
            r == (if self@.contains(*uid) {
                Some(position(self@, *uid) as u32)
            } else {
                None
            }),
    {
        proof {
            self.lemma_lookup(*uid);
        }
        match self.next.get(&uid.encode()) {
            Some(s) => Some(*s),
            None => None,
        }
    }

    /// The edge that leads to position `seq_no`; `None` for the root and for
    /// positions not allocated.
    pub fn get_prev(&self, seq_no: u32) -> (r: Option<Uid>)
        requires
            self.wf(),
        ensures
            r == (if 1 <= seq_no <= self@.len() {
                Some(self@[seq_no - 1])
            } else {
                None
            }),
    {
        if 1 <= seq_no && (seq_no as usize) <= self.prev.len() {
            Some(self.prev[(seq_no - 1) as usize])
        } else {
            None
        }
    }

    /// Edges one step past `uid`, in insertion order.
    pub fn get_children(&self, uid: &Uid) -> (r: Vec<Uid>)
        requires
            self.wf(),
        ensures
            self@.contains(*uid) ==> r@ == children_at(self@, position(self@, *uid)),
            !self@.contains(*uid) ==> r@.len() == 0,
    {
        let mut out: Vec<Uid> = Vec::new();
        match self.get_next(uid) {
            None => out,
            Some(pos) => {
                let mut k: usize = 0;
                while k < self.prev.len()
                    invariant
                        self.wf(),
                        k <= self@.len(),
                        out@ == self@.take(k as int).filter(|v: Uid| v.seq_no == pos),
                    decreases self@.len() - k,
                {
                    proof {
                        reveal(Seq::filter);
                        assert(self@.take(k + 1).drop_last() == self@.take(k as int));
                    }
                    if self.prev[k].seq_no == pos {
                        out.push(self.prev[k]);
                    }
                    k += 1;
                }
                proof {
                    assert(self@.take(k as int) == self@);
                }
                out
            },
        }
    }

    /// The chain of `last_uid`: the edges from the root to `last_uid`.
    pub fn get_chain(&self, last_uid: Uid) -> (r: Vec<Uid>)
        requires
            self.wf(),
        ensures
            r@ == chain_of(self@, last_uid),
    {
        let ghost target = chain_of(self@, last_uid);
        let mut back: Vec<Uid> = Vec::new();
        back.push(last_uid);
        let mut seq_no = last_uid.seq_no;
        proof {
            assert(back@.reverse() == seq![last_uid]);
        }
        while seq_no != 0 && (seq_no as usize) <= self.prev.len()
            invariant
                self.wf(),
                target == path_to(self@, seq_no as int) + back@.reverse(),
            decreases seq_no,
        {
            let uid = self.prev[(seq_no - 1) as usize];
            proof {
                assert(uid.seq_no <= seq_no - 1);
                let b = back@;
                assert(b.push(uid).reverse() == seq![uid] + b.reverse());
                assert(path_to(self@, seq_no as int) == path_to(self@, uid.seq_no as int).push(
                    uid,
                ));
                assert(path_to(self@, uid.seq_no as int).push(uid) + b.reverse() == path_to(
                    self@,
                    uid.seq_no as int,
                ) + (seq![uid] + b.reverse()));
            }
            back.push(uid);
            seq_no = uid.seq_no;
        }
        proof {
            assert(path_to(self@, seq_no as int) == Seq::<Uid>::empty());
            assert(target == back@.reverse());
        }
        let mut chain: Vec<Uid> = Vec::new();
        while back.len() > 0
            invariant
                target == chain@ + back@.reverse(),
            decreases back@.len(),
        {
            let ghost b = back@;
            let uid = back.pop().unwrap();
            proof {
                assert(b == back@.push(uid));
                assert(b.reverse() == seq![uid] + back@.reverse());
                assert(chain@.push(uid) + back@.reverse() == chain@ + (seq![uid]
                    + back@.reverse()));
            }
            chain.push(uid);
        }
        proof {
            assert(back@.reverse() == Seq::<Uid>::empty());
            assert(target == chain@);
        }
        chain
    }

    /// Edges with the positions they lead to, in allocation order.
    pub fn get_next_map(&self) -> (r: Vec<(Uid, u32)>)
        requires
            self.wf(),
        ensures
            r@.len() == self@.len(),
            forall|k: int| 0 <= k < r@.len() ==> #[trigger] r@[k] == (self@[k], (k + 1) as u32),
    {
        let mut out: Vec<(Uid, u32)> = Vec::new();
        let mut k: usize = 0;
        while k < self.prev.len()
            invariant
                self.wf(),
                k <= self@.len(),
                out@.len() == k,
                forall|j: int| 0 <= j < k ==> #[trigger] out@[j] == (self@[j], (j + 1) as u32),
            decreases self@.len() - k,
        {
            out.push((self.prev[k], (k + 1) as u32));
            k += 1;
        }
        out
    }

    /// Positions with the edges that lead to them, in allocation order.
    pub fn get_prev_map(&self) -> (r: Vec<(u32, Uid)>)
        requires
            self.wf(),
        ensures
            r@.len() == self@.len(),
            forall|k: int| 0 <= k < r@.len() ==> #[trigger] r@[k] == ((k + 1) as u32, self@[k]),
    {
        let mut out: Vec<(u32, Uid)> = Vec::new();
        let mut k: usize = 0;
        while k < self.prev.len()
            invariant
                self.wf(),
                k <= self@.len(),
                out@.len() == k,
                forall|j: int| 0 <= j < k ==> #[trigger] out@[j] == ((j + 1) as u32, self@[j]),
            decreases self@.len() - k,
        {
            out.push(((k + 1) as u32, self.prev[k]));
            k += 1;
        }
        out
    }
}

/// Inserting an edge keeps every earlier edge, at the same position.
pub proof fn lemma_with_edge_keeps_positions(edges: Seq<Uid>, u: Uid, v: Uid)
    requires
        edges_wf(edges),
        edges_wf(with_edge(edges, u)),
        edges.contains(v),
    ensures
        with_edge(edges, u).contains(v),
        position(with_edge(edges, u), v) == position(edges, v),
{
    let e2 = with_edge(edges, u);
    let i = edges.index_of(v);
    assert(e2[i] == v);
    let j = e2.index_of(v);
    assert(e2[j] == v);
}

/// A chain reproduces its inserts: when `uids` starts with a start event and
/// each later Uid was inserted under the one before it, the chain of the
/// last Uid is `uids`, whatever else the ledger holds.
pub proof fn lemma_chain_follows_inserts(edges: Seq<Uid>, uids: Seq<Uid>)
    requires
        edges_wf(edges),
        uids.len() > 0,
        uids[0].seq_no == 0,
        forall|i: int| 0 <= i < uids.len() ==> edges.contains(#[trigger] uids[i]),
        forall|i: int|
            0 < i < uids.len() ==> #[trigger] uids[i].seq_no == position(edges, uids[i - 1]),
    ensures
        chain_of(edges, uids.last()) == uids,
    decreases uids.len(),
{
    if uids.len() == 1 {
        assert(path_to(edges, 0) == Seq::<Uid>::empty());
        assert(chain_of(edges, uids.last()) == uids);
    } else {
        let d = uids.drop_last();
        assert forall|i: int| 0 <= i < d.len() implies edges.contains(#[trigger] d[i]) by {
            assert(d[i] == uids[i]);
        }
        assert forall|i: int| 0 < i < d.len() implies #[trigger] d[i].seq_no == position(
            edges,
            d[i - 1],
        ) by {
            assert(d[i] == uids[i]);
            assert(uids[i].seq_no == position(edges, uids[i - 1]));
        }
        lemma_chain_follows_inserts(edges, d);
        let last = uids.last();
        let prev = d.last();
        assert(last.seq_no == position(edges, uids[uids.len() - 2]));
        assert(edges.contains(prev));
        let k = edges.index_of(prev);
        assert(edges[k] == prev);
        assert(edges[k].seq_no <= k);
        assert(path_to(edges, last.seq_no as int) == chain_of(edges, prev));
        assert(chain_of(edges, last) == d.push(last));
        assert(d.push(last) == uids);
    }
}

/// Inserting the same event under the same parent twice: the second insert
/// computes the same Uid (the parent keeps its position) and adds nothing.
pub proof fn lemma_insert_twice(edges: Seq<Uid>, parent: Uid, event: u32)
    requires
        edges_wf(edges),
        edges.contains(parent),
        edges_wf(
            with_edge(edges, Uid { seq_no: position(edges, parent) as u32, event }),
        ),
    ensures
        ({
            let u = Uid { seq_no: position(edges, parent) as u32, event };
            let once = with_edge(edges, u);
            &&& position(once, parent) == position(edges, parent)
            &&& with_edge(once, u) == once
        }),
{
    let u = Uid { seq_no: position(edges, parent) as u32, event };
    lemma_with_edge_keeps_positions(edges, u, parent);
    let once = with_edge(edges, u);
    if !edges.contains(u) {
        assert(once[edges.len() as int] == u);
    }
}

/// Registering the same start event twice in an empty ledger leaves one
/// start edge.
pub proof fn lemma_insert_start_idempotent(event: u32)
    ensures
        ({
            let u = Uid { seq_no: 0, event };
            with_edge(with_edge(Seq::<Uid>::empty(), u), u) == seq![u]
        }),
{
    let u = Uid { seq_no: 0, event };
    let once = with_edge(Seq::<Uid>::empty(), u);
    assert(once == seq![u]);
    assert(once[0] == u);
}

} // verus!
