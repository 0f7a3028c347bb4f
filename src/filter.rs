//! Bitmask filters over event words and the search of the ledger for chains
//! that contain a filter sequence as a subsequence.
use vstd::prelude::*;
use crate::raw;
use crate::raw::Pipeline;
use crate::emission::Emission;
use crate::mcrt::SrcId;
use crate::ledger::{Ledger, Uid};
use crate::{EventId, EventType};
use crate::mcrt::{MCRT, Material};

verus! {

/// Predicate on an event word: `raw` matches when `raw & mask == value`.
#[derive(Clone, Copy, Debug, PartialEq, Eq, Structural)]
pub struct BitsMatch {
    pub mask: u32,
    pub value: u32,
}

impl BitsMatch {
    pub open spec fn spec_matches(self, raw: u32) -> bool {
        raw & self.mask == self.value
    }

    pub fn new(mask: u32, value: u32) -> (r: Self)
        ensures
            r == (BitsMatch { mask, value }),
    {
        BitsMatch { mask, value }
    }

    pub fn matches(&self, raw: u32) -> (r: bool)
        ensures
            r == self.spec_matches(raw),
    {
        raw & self.mask == self.value
    }
}

/// Selection of material events; an absent field matches any value.
#[derive(Clone, Copy, Debug, PartialEq, Eq, Structural)]
pub enum MaterialSelect {
    Any,
    Absorption,
    Inelastic(Option<raw::Inelastic>, Option<raw::Direction>),
    Elastic(Option<raw::Elastic>, Option<raw::Direction>),
}

/// Selection of MCRT events; an absent field matches any value.
#[derive(Clone, Copy, Debug, PartialEq, Eq, Structural)]
pub enum McrtSelect {
    Any,
    Interface(Option<raw::Interface>),
    Reflector(Option<raw::Reflect>),
    Material(MaterialSelect),
}

/// Selection of one filter step: a pipeline and its taxonomy selectors.
#[derive(Clone, Copy, Debug, PartialEq, Eq, Structural)]
pub enum StepSelect {
    Emission(Option<Emission>),
    Mcrt(McrtSelect),
    Detection,
    Processing,
}

/// Why a filter step could not be built.
#[derive(Clone, Copy, Debug, PartialEq, Eq, Structural)]
pub enum FilterError {
    /// The source kind cannot be attributed to events of the step's pipeline.
    SrcNotAllowed,
}

/// A field contribution: `mask` and `value` or-ed into `acc`.
pub open spec fn with_field(acc: (u32, u32), mask: u32, value: u32) -> (u32, u32) {
    (acc.0 | mask, acc.1 | value)
}

pub open spec fn dir_part(acc: (u32, u32), d: Option<raw::Direction>) -> (u32, u32) {
    match d {
        Some(d) => with_field(acc, raw::DIRECTION_MASK, (d.spec_code() as u32) << 16),
        None => acc,
    }
}

pub open spec fn material_part(acc: (u32, u32), s: MaterialSelect) -> (u32, u32) {
    match s {
        MaterialSelect::Any => acc,
        MaterialSelect::Absorption => with_field(
            acc,
            raw::MATERIAL_MASK,
            (raw::Material::Absorption.spec_code() as u32) << 20,
        ),
        MaterialSelect::Inelastic(t, d) => {
            let a = with_field(
                acc,
                raw::MATERIAL_MASK,
                (raw::Material::Inelastic.spec_code() as u32) << 20,
            );
            let b = match t {
                Some(t) => with_field(a, raw::SCATTER_MASK, (t.spec_code() as u32) << 18),
                None => a,
            };
            dir_part(b, d)
        },
        MaterialSelect::Elastic(t, d) => {
            let a = with_field(
                acc,
                raw::MATERIAL_MASK,
                (raw::Material::Elastic.spec_code() as u32) << 20,
            );
            let b = match t {
                Some(t) => with_field(a, raw::SCATTER_MASK, (t.spec_code() as u32) << 18),
                None => a,
            };
            dir_part(b, d)
        },
    }
}

pub open spec fn mcrt_part(acc: (u32, u32), s: McrtSelect) -> (u32, u32) {
    match s {
        McrtSelect::Any => acc,
        McrtSelect::Interface(i) => {
            let a = with_field(
                acc,
                raw::MCRT_SUPER_MASK,
                (raw::McrtSuper::Interface.spec_code() as u32) << 22,
            );
            match i {
                Some(i) => with_field(a, raw::MCRT_SUB_MASK, (i.spec_code() as u32) << 16),
                None => a,
            }
        },
        McrtSelect::Reflector(r) => {
            let a = with_field(
                acc,
                raw::MCRT_SUPER_MASK,
                (raw::McrtSuper::Reflector.spec_code() as u32) << 22,
            );
            match r {
                Some(r) => with_field(a, raw::MCRT_SUB_MASK, (r.spec_code() as u32) << 16),
                None => a,
            }
        },
        McrtSelect::Material(m) => material_part(
            with_field(
                acc,
                raw::MCRT_SUPER_MASK,
                (raw::McrtSuper::Material.spec_code() as u32) << 22,
            ),
            m,
        ),
    }
}

/// Pipeline of a step selection.
pub open spec fn step_pipeline(sel: StepSelect) -> Pipeline {
    match sel {
        StepSelect::Emission(_) => Pipeline::Emission,
        StepSelect::Mcrt(_) => Pipeline::Mcrt,
        StepSelect::Detection => Pipeline::Detection,
        StepSelect::Processing => Pipeline::Processing,
    }
}

/// Whether a source constraint is legal for a step: MCRT steps take
/// materials, surfaces and material-surfaces, emission steps take lights,
/// and every step takes the absent constraint.
pub open spec fn src_allowed(sel: StepSelect, src: SrcId) -> bool {
    match src {
        SrcId::NoSource => true,
        SrcId::Mat(_) => sel is Mcrt,
        SrcId::Surf(_) => sel is Mcrt,
        SrcId::MatSurf(_) => sel is Mcrt,
        SrcId::Light(_) => sel is Emission,
    }
}

/// Mask and value of a step, in the bit layout of the event codec.
pub open spec fn step_bits(sel: StepSelect, src: SrcId) -> (u32, u32) {
    let p = (raw::PIPELINE_MASK, (step_pipeline(sel).spec_code() as u32) << 24);
    let t = match sel {
        StepSelect::Emission(Some(e)) => with_field(
            p,
            raw::TAXONOMY_MASK,
            (e.spec_code() as u32) << 16,
        ),
        StepSelect::Mcrt(m) => mcrt_part(p, m),
        _ => p,
    };
    match src {
        SrcId::NoSource => t,
        _ => with_field(t, raw::SRC_MASK, src.spec_payload() as u32),
    }
}

fn dir_bits(acc: (u32, u32), d: Option<raw::Direction>) -> (r: (u32, u32))
    ensures
        r == dir_part(acc, d),
{
    match d {
        Some(d) => (acc.0 | raw::DIRECTION_MASK, acc.1 | ((d.code() as u32) << 16)),
        None => acc,
    }
}

fn material_bits(acc: (u32, u32), s: MaterialSelect) -> (r: (u32, u32))
    ensures
        r == material_part(acc, s),
{
    match s {
        MaterialSelect::Any => acc,
        MaterialSelect::Absorption => (
            acc.0 | raw::MATERIAL_MASK,
            acc.1 | ((raw::Material::Absorption.code() as u32) << 20),
        ),
        MaterialSelect::Inelastic(t, d) => {
            let a = (
                acc.0 | raw::MATERIAL_MASK,
                acc.1 | ((raw::Material::Inelastic.code() as u32) << 20),
            );
            let b = match t {
                Some(t) => (a.0 | raw::SCATTER_MASK, a.1 | ((t.code() as u32) << 18)),
                None => a,
            };
            dir_bits(b, d)
        },
        MaterialSelect::Elastic(t, d) => {
            let a = (
                acc.0 | raw::MATERIAL_MASK,
                acc.1 | ((raw::Material::Elastic.code() as u32) << 20),
            );
            let b = match t {
                Some(t) => (a.0 | raw::SCATTER_MASK, a.1 | ((t.code() as u32) << 18)),
                None => a,
            };
            dir_bits(b, d)
        },
    }
}

fn mcrt_bits(acc: (u32, u32), s: McrtSelect) -> (r: (u32, u32))
    ensures
        r == mcrt_part(acc, s),
{
    match s {
        McrtSelect::Any => acc,
        McrtSelect::Interface(i) => {
            let a = (
                acc.0 | raw::MCRT_SUPER_MASK,
                acc.1 | ((raw::McrtSuper::Interface.code() as u32) << 22),
            );
            match i {
                Some(i) => (a.0 | raw::MCRT_SUB_MASK, a.1 | ((i.code() as u32) << 16)),
                None => a,
            }
        },
        McrtSelect::Reflector(r) => {
            let a = (
                acc.0 | raw::MCRT_SUPER_MASK,
                acc.1 | ((raw::McrtSuper::Reflector.code() as u32) << 22),
            );
            match r {
                Some(r) => (a.0 | raw::MCRT_SUB_MASK, a.1 | ((r.code() as u32) << 16)),
                None => a,
            }
        },
        McrtSelect::Material(m) => material_bits(
            (
                acc.0 | raw::MCRT_SUPER_MASK,
                acc.1 | ((raw::McrtSuper::Material.code() as u32) << 22),
            ),
            m,
        ),
    }
}

/// Builds the predicate of one filter step. A source constraint that the
/// step's pipeline cannot carry is refused.
pub fn filter_step(sel: StepSelect, src: SrcId) -> (r: Result<BitsMatch, FilterError>)
    ensures
        src_allowed(sel, src) ==> r == Ok::<BitsMatch, FilterError>(
            BitsMatch { mask: step_bits(sel, src).0, value: step_bits(sel, src).1 },
        ),
        !src_allowed(sel, src) ==> r == Err::<BitsMatch, FilterError>(FilterError::SrcNotAllowed),
{
    let allowed = match src {
        SrcId::NoSource => true,
        SrcId::Mat(_) => matches!(sel, StepSelect::Mcrt(_)),
        SrcId::Surf(_) => matches!(sel, StepSelect::Mcrt(_)),
        SrcId::MatSurf(_) => matches!(sel, StepSelect::Mcrt(_)),
        SrcId::Light(_) => matches!(sel, StepSelect::Emission(_)),
    };
    if !allowed {
        return Err(FilterError::SrcNotAllowed);
    }
    let pipeline = match sel {
        StepSelect::Emission(_) => Pipeline::Emission,
        StepSelect::Mcrt(_) => Pipeline::Mcrt,
        StepSelect::Detection => Pipeline::Detection,
        StepSelect::Processing => Pipeline::Processing,
    };
    let p = (raw::PIPELINE_MASK, (pipeline.code() as u32) << 24);
    let t = match sel {
        StepSelect::Emission(Some(e)) => (p.0 | raw::TAXONOMY_MASK, p.1 | ((e.code() as u32) << 16)),
        StepSelect::Mcrt(m) => mcrt_bits(p, m),
        _ => p,
    };
    let (mask, value) = match src {
        SrcId::NoSource => t,
        _ => (t.0 | raw::SRC_MASK, t.1 | src.encode()),
    };
    Ok(BitsMatch::new(mask, value))
}

/// Number of filter predicates consumed on reaching position `pos`: start
/// events consume none; every later edge whose event matches the next
/// predicate consumes it.
pub open spec fn consumed(edges: Seq<Uid>, filters: Seq<BitsMatch>, pos: int) -> nat
    decreases pos,
{
    if 1 <= pos <= edges.len() && edges[pos - 1].seq_no < pos {
        let q = edges[pos - 1].seq_no as int;
        if q == 0 {
            0
        } else {
            let c = consumed(edges, filters, q);
            if c < filters.len() && filters[c as int].spec_matches(edges[pos - 1].event) {
                c + 1
            } else {
                c
            }
        }
    } else {
        0
    }
}

/// Whether no edge leaves position `pos`: the edge to it ends a chain.
pub open spec fn is_terminal(edges: Seq<Uid>, pos: int) -> bool {
    forall|k: int| 0 <= k < edges.len() ==> #[trigger] edges[k].seq_no != pos
}

/// Terminal edges among the first `n` whose chains consume every predicate,
/// in insertion order.
pub open spec fn found_upto(edges: Seq<Uid>, filters: Seq<BitsMatch>, n: int) -> Seq<Uid>
    decreases n,
{
    if n <= 0 {
        Seq::empty()
    } else if is_terminal(edges, n) && consumed(edges, filters, n) == filters.len() {
        found_upto(edges, filters, n - 1).push(edges[n - 1])
    } else {
        found_upto(edges, filters, n - 1)
    }
}

/// Terminal edges whose chains contain the filter sequence, in order.
pub open spec fn matching_chains(edges: Seq<Uid>, filters: Seq<BitsMatch>) -> Seq<Uid> {
    found_upto(edges, filters, edges.len() as int)
}

/// Terminal edges among the first `n`, in insertion order.
pub open spec fn terminals_upto(edges: Seq<Uid>, n: int) -> Seq<Uid>
    decreases n,
{
    if n <= 0 {
        Seq::empty()
    } else if is_terminal(edges, n) {
        terminals_upto(edges, n - 1).push(edges[n - 1])
    } else {
        terminals_upto(edges, n - 1)
    }
}

proof fn lemma_consumed_bound(edges: Seq<Uid>, filters: Seq<BitsMatch>, pos: int)
    ensures
        consumed(edges, filters, pos) <= filters.len(),
    decreases pos,
{
    if 1 <= pos <= edges.len() && edges[pos - 1].seq_no < pos {
        lemma_consumed_bound(edges, filters, edges[pos - 1].seq_no as int);
    }
}

/// Finds the terminal Uids of the ledger whose chains contain the filter
/// sequence as a subsequence: the predicates must match events of the chain
/// in order, not necessarily adjacent ones. Start events are not tested.
/// Positions are visited in allocation order, so the count of predicates
/// consumed at a parent is known before its children are reached.
pub fn find_forward_uid_seq(ledger: &Ledger, bits_match_seq: Vec<BitsMatch>) -> (r: Vec<Uid>)
    requires
        ledger.wf(),
    ensures
        r@ == matching_chains(ledger@, bits_match_seq@),
{
    let ghost edges = ledger@;
    let ghost filters = bits_match_seq@;
    let n = ledger.prev.len();
    let mut has_kid: Vec<bool> = Vec::new();
    let mut p: usize = 0;
    while p <= n
        invariant
            n == edges.len(),
            edges == ledger@,
            ledger.wf(),
            p <= n + 1,
            has_kid@.len() == p,
            forall|j: int| 0 <= j < p ==> !has_kid@[j],
        decreases n + 1 - p,
    {
        has_kid.push(false);
        p += 1;
    }
    let mut k: usize = 0;
    while k < n
        invariant
            n == edges.len(),
            edges == ledger@,
            ledger.wf(),
            k <= n,
            has_kid@.len() == n + 1,
            forall|q: int|
                0 <= q <= n ==> (#[trigger] has_kid@[q] <==> exists|j: int|
                    0 <= j < k && #[trigger] edges[j].seq_no == q),
        decreases n - k,
    {
        let q = ledger.prev[k].seq_no as usize;
        assert(q <= k);
        has_kid.set(q, true);
        proof {
            assert forall|q2: int|
                0 <= q2 <= n implies (#[trigger] has_kid@[q2] <==> exists|j: int|
                    0 <= j < k + 1 && #[trigger] edges[j].seq_no == q2) by {
                if q2 == q {
                    assert(edges[k as int].seq_no == q2);
                } else {
                    if exists|j: int| 0 <= j < k + 1 && #[trigger] edges[j].seq_no == q2 {
                        let j = choose|j: int| 0 <= j < k + 1 && #[trigger] edges[j].seq_no == q2;
                        assert(j != k);
                    }
                }
            }
        }
        k += 1;
    }
    let len = bits_match_seq.len();
    let mut cons: Vec<usize> = Vec::new();
    cons.push(0);
    let mut found: Vec<Uid> = Vec::new();
    let mut pos: usize = 1;
    while pos <= n
        invariant
            n == edges.len(),
            edges == ledger@,
            filters == bits_match_seq@,
            len == filters.len(),
            ledger.wf(),
            1 <= pos <= n + 1,
            has_kid@.len() == n + 1,
            forall|q: int|
                0 <= q <= n ==> (#[trigger] has_kid@[q] <==> exists|j: int|
                    0 <= j < n && #[trigger] edges[j].seq_no == q),
            cons@.len() == pos,
            forall|t: int| 1 <= t < pos ==> #[trigger] cons@[t] == consumed(edges, filters, t),
            found@ == found_upto(edges, filters, pos - 1),
        decreases n + 1 - pos,
    {
        let e = ledger.prev[pos - 1];
        assert(e.seq_no <= pos - 1);
        let q = e.seq_no as usize;
        let c: usize = if q == 0 {
            0
        } else {
            let c0 = cons[q];
            proof {
                lemma_consumed_bound(edges, filters, q as int);
            }
            if c0 < len && bits_match_seq[c0].matches(e.event) {
                c0 + 1
            } else {
                c0
            }
        };
        assert(c == consumed(edges, filters, pos as int));
        cons.push(c);
        proof {
            if has_kid@[pos as int] {
                let j = choose|j: int| 0 <= j < n && #[trigger] edges[j].seq_no == pos;
                assert(!is_terminal(edges, pos as int));
            } else {
                assert forall|j: int| 0 <= j < edges.len() implies #[trigger] edges[j].seq_no
                    != pos by {
                    if edges[j].seq_no == pos {
                        assert(has_kid@[pos as int]);
                    }
                }
                assert(is_terminal(edges, pos as int));
            }
        }
        if !has_kid[pos] && c == len {
            found.push(e);
        }
        pos += 1;
    }
    found
}

proof fn lemma_consumed_empty(edges: Seq<Uid>, pos: int)
    ensures
        consumed(edges, Seq::<BitsMatch>::empty(), pos) == 0,
    decreases pos,
{
    if 1 <= pos <= edges.len() && edges[pos - 1].seq_no < pos {
        lemma_consumed_empty(edges, edges[pos - 1].seq_no as int);
    }
}

/// With an empty filter sequence every terminal Uid matches: the search
/// returns all chain ends of the ledger.
pub proof fn lemma_empty_filter_finds_all_terminals(edges: Seq<Uid>, n: int)
    ensures
        found_upto(edges, Seq::<BitsMatch>::empty(), n) == terminals_upto(edges, n),
    decreases n,
{
    if n > 0 {
        lemma_consumed_empty(edges, n);
        lemma_empty_filter_finds_all_terminals(edges, n - 1);
    }
}

/// The selection that names the whole taxonomy path of `t`.
pub open spec fn path_select(t: EventType) -> StepSelect {
    match t {
        EventType::Emission(e) => StepSelect::Emission(Some(e)),
        EventType::MCRT(m) => StepSelect::Mcrt(
            match m {
                MCRT::Interface(i) => McrtSelect::Interface(Some(i.spec_raw())),
                MCRT::Reflector(r) => McrtSelect::Reflector(Some(r.spec_raw())),
                MCRT::Material(x) => McrtSelect::Material(
                    match x {
                        Material::Absorption => MaterialSelect::Absorption,
                        Material::Inelastic(y) => MaterialSelect::Inelastic(
                            Some(y.spec_kind()),
                            Some(y.spec_dir().spec_raw()),
                        ),
                        Material::Elastic(y) => MaterialSelect::Elastic(
                            Some(y.spec_kind()),
                            Some(y.spec_dir().spec_raw()),
                        ),
                    },
                ),
            },
        ),
        EventType::Detection => StepSelect::Detection,
        EventType::Processing => StepSelect::Processing,
    }
}

proof fn lemma_shape_pipeline(p: u8, b: u8, s: u16)
    requires
        p < 16,
    ensures
        crate::event_word(p, b, s) & raw::PIPELINE_MASK == (p as u32) << 24,
{
    assert(crate::event_word(p, b, s) & raw::PIPELINE_MASK == (p as u32) << 24) by (bit_vector)
        requires
            p < 16,
    ;
}

proof fn lemma_shape_taxonomy(p: u8, b: u8, s: u16)
    requires
        p < 16,
    ensures
        crate::event_word(p, b, s) & (raw::PIPELINE_MASK | raw::TAXONOMY_MASK) == ((p as u32) << 24)
            | ((b as u32) << 16),
{
    assert(crate::event_word(p, b, s) & (raw::PIPELINE_MASK | raw::TAXONOMY_MASK) == ((p as u32)
        << 24) | ((b as u32) << 16)) by (bit_vector)
        requires
            p < 16,
    ;
}

proof fn lemma_shape_sub(p: u8, sup: u8, c: u8, s: u16)
    requires
        p < 16,
        sup < 4,
        c < 64,
    ensures
        crate::event_word(p, crate::mcrt::super_byte(sup, c), s) & ((raw::PIPELINE_MASK
            | raw::MCRT_SUPER_MASK) | raw::MCRT_SUB_MASK) == (((p as u32) << 24) | ((sup as u32)
            << 22)) | ((c as u32) << 16),
{
    assert(crate::event_word(p, crate::mcrt::super_byte(sup, c), s) & ((raw::PIPELINE_MASK
        | raw::MCRT_SUPER_MASK) | raw::MCRT_SUB_MASK) == (((p as u32) << 24) | ((sup as u32)
        << 22)) | ((c as u32) << 16)) by (bit_vector)
        requires
            p < 16,
            sup < 4,
            c < 64,
    ;
}

proof fn lemma_shape_kind(p: u8, sup: u8, k: u8, t: u8, d: u8, s: u16)
    requires
        p < 16,
        sup < 4,
        k < 4,
        t < 4,
        d < 4,
    ensures
        crate::event_word(p, crate::mcrt::super_byte(sup, crate::mcrt::material_sub(k, t, d)), s)
            & ((raw::PIPELINE_MASK | raw::MCRT_SUPER_MASK) | raw::MATERIAL_MASK) == (((p as u32)
            << 24) | ((sup as u32) << 22)) | ((k as u32) << 20),
        crate::event_word(p, crate::mcrt::super_byte(sup, crate::mcrt::material_sub(k, t, d)), s)
            & ((((raw::PIPELINE_MASK | raw::MCRT_SUPER_MASK) | raw::MATERIAL_MASK)
            | raw::SCATTER_MASK) | raw::DIRECTION_MASK) == (((((p as u32) << 24) | ((sup as u32)
            << 22)) | ((k as u32) << 20)) | ((t as u32) << 18)) | ((d as u32) << 16),
{
    assert(crate::event_word(p, crate::mcrt::super_byte(sup, crate::mcrt::material_sub(k, t, d)), s)
        & ((raw::PIPELINE_MASK | raw::MCRT_SUPER_MASK) | raw::MATERIAL_MASK) == (((p as u32) << 24)
        | ((sup as u32) << 22)) | ((k as u32) << 20)) by (bit_vector)
        requires
            p < 16,
            sup < 4,
            k < 4,
            t < 4,
            d < 4,
    ;
    assert(crate::event_word(p, crate::mcrt::super_byte(sup, crate::mcrt::material_sub(k, t, d)), s)
        & ((((raw::PIPELINE_MASK | raw::MCRT_SUPER_MASK) | raw::MATERIAL_MASK) | raw::SCATTER_MASK)
        | raw::DIRECTION_MASK) == (((((p as u32) << 24) | ((sup as u32) << 22)) | ((k as u32)
        << 20)) | ((t as u32) << 18)) | ((d as u32) << 16)) by (bit_vector)
        requires
            p < 16,
            sup < 4,
            k < 4,
            t < 4,
            d < 4,
    ;
}

proof fn lemma_no_low_bits()
    ensures
        raw::PIPELINE_MASK & 0xFFFF == 0,
        (raw::PIPELINE_MASK | raw::TAXONOMY_MASK) & 0xFFFF == 0,
        ((raw::PIPELINE_MASK | raw::MCRT_SUPER_MASK) | raw::MCRT_SUB_MASK) & 0xFFFF == 0,
        ((raw::PIPELINE_MASK | raw::MCRT_SUPER_MASK) | raw::MATERIAL_MASK) & 0xFFFF == 0,
        ((((raw::PIPELINE_MASK | raw::MCRT_SUPER_MASK) | raw::MATERIAL_MASK) | raw::SCATTER_MASK)
            | raw::DIRECTION_MASK) & 0xFFFF == 0,
{
    assert(raw::PIPELINE_MASK & 0xFFFF == 0 && (raw::PIPELINE_MASK | raw::TAXONOMY_MASK) & 0xFFFF
        == 0 && ((raw::PIPELINE_MASK | raw::MCRT_SUPER_MASK) | raw::MCRT_SUB_MASK) & 0xFFFF == 0
        && ((raw::PIPELINE_MASK | raw::MCRT_SUPER_MASK) | raw::MATERIAL_MASK) & 0xFFFF == 0 && ((((
    raw::PIPELINE_MASK | raw::MCRT_SUPER_MASK) | raw::MATERIAL_MASK) | raw::SCATTER_MASK)
        | raw::DIRECTION_MASK) & 0xFFFF == 0) by (bit_vector);
}

proof fn lemma_src_mask(w: u32, m: u32, v: u32, s: u16)
    requires
        w & m == v,
        m & 0xFFFF == 0,
        w & 0xFFFF == s as u32,
    ensures
        w & (m | 0xFFFF) == v | (s as u32),
{
    assert(w & (m | 0xFFFF) == (w & m) | (w & 0xFFFF)) by (bit_vector);
}

/// A filter step that names the whole taxonomy path of an event, with a
/// source constraint allowed for its pipeline and equal to the event's
/// source id (or none), matches the event's word: filter and codec share
/// one bit layout.
pub proof fn lemma_path_filter_matches(e: EventId, src: SrcId)
    requires
        src_allowed(path_select(e.event_type), src),
        src is NoSource || src.spec_payload() == e.src_id,
    ensures
        ({
            let bits = step_bits(path_select(e.event_type), src);
            (BitsMatch { mask: bits.0, value: bits.1 }).spec_matches(e.spec_encode())
        }),
{
    let p = e.event_type.spec_pipeline().spec_code();
    let b = e.event_type.spec_byte();
    let w = e.spec_encode();
    let t = step_bits(path_select(e.event_type), SrcId::NoSource);
    lemma_no_low_bits();
    match e.event_type {
        EventType::MCRT(m) => {
            match m {
                MCRT::Interface(i) => {
                    lemma_shape_sub(p, 0, i.spec_raw().spec_code(), e.src_id);
                },
                MCRT::Reflector(r) => {
                    lemma_shape_sub(p, 1, r.spec_raw().spec_code(), e.src_id);
                },
                MCRT::Material(x) => {
                    match x {
                        Material::Absorption => {
                            lemma_shape_kind(p, 2, 0, 0, 0, e.src_id);
                        },
                        Material::Inelastic(y) => {
                            lemma_shape_kind(
                                p,
                                2,
                                1,
                                y.spec_kind().spec_code(),
                                y.spec_dir().spec_raw().spec_code(),
                                e.src_id,
                            );
                        },
                        Material::Elastic(y) => {
                            lemma_shape_kind(
                                p,
                                2,
                                2,
                                y.spec_kind().spec_code(),
                                y.spec_dir().spec_raw().spec_code(),
                                e.src_id,
                            );
                        },
                    }
                },
            }
        },
        EventType::Emission(_) => {
            lemma_shape_taxonomy(p, b, e.src_id);
        },
        _ => {
            lemma_shape_pipeline(p, b, e.src_id);
        },
    }
    assert(w & t.0 == t.1);
    if !(src is NoSource) {
        crate::raw::lemma_word_fields(p as u32, b as u32, e.src_id as u32);
        lemma_src_mask(w, t.0, t.1, e.src_id);
    }
}

} // verus!
