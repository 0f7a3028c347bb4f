use aetherus_events::emission::Emission;
use aetherus_events::filter::{filter_step, find_forward_uid_seq, BitsMatch, FilterError, MaterialSelect, McrtSelect, StepSelect};
use aetherus_events::ledger::{Ledger, LedgerError, Uid};
use aetherus_events::mcrt::{Elastic, Interface, Material, ScatterDir, SrcId, MCRT};
use aetherus_events::raw;
use aetherus_events::{EventId, EventType, SrcName};

fn exact(e: &EventId) -> BitsMatch {
    BitsMatch::new(0xFFFF_FFFF, e.encode())
}

#[test]
fn subsequence_through_a_middle_event() {
    let mut l = Ledger::new();
    let a = EventId::new_emission(Emission::PointSource, 1);
    let b = EventId::new_mcrt(MCRT::Interface(Interface::Refraction), 2);
    let c = EventId::new(EventType::Detection, 0);
    let x = EventId::new_mcrt(MCRT::Material(Material::Absorption), 9);
    let ua = l.insert_start(a).unwrap();
    let ub = l.insert(ua, b).unwrap();
    let uc = l.insert(ub, c).unwrap();
    assert_eq!(ua, Uid::new(0, a.encode()));
    assert_eq!(ub, Uid::new(1, b.encode()));
    assert_eq!(uc, Uid::new(2, c.encode()));
    assert_eq!(l.get_chain(uc), vec![ua, ub, uc]);
    assert_eq!(find_forward_uid_seq(&l, vec![exact(&b)]), vec![uc]);
    assert_eq!(find_forward_uid_seq(&l, vec![exact(&x)]), Vec::<Uid>::new());
    assert_eq!(find_forward_uid_seq(&l, vec![exact(&b), exact(&c)]), vec![uc]);
    assert_eq!(find_forward_uid_seq(&l, vec![exact(&c), exact(&b)]), Vec::<Uid>::new());
    // the start event is not tested
    assert_eq!(find_forward_uid_seq(&l, vec![exact(&a)]), Vec::<Uid>::new());
}

fn branching() -> (Ledger, Vec<Uid>) {
    let mut l = Ledger::new();
    let r = l.insert_start(EventId::new_emission(Emission::PointSource, 0)).unwrap();
    let refr = l.insert(r, EventId::new_mcrt(MCRT::Interface(Interface::Refraction), 1)).unwrap();
    let refl = l.insert(r, EventId::new_mcrt(MCRT::Interface(Interface::Reflection), 1)).unwrap();
    let abs = l.insert(refr, EventId::new_mcrt(MCRT::Material(Material::Absorption), 2)).unwrap();
    let det = l.insert(refl, EventId::new(EventType::Detection, 0)).unwrap();
    let r2 = l.insert_start(EventId::new_emission(Emission::Laser, 1)).unwrap();
    (l, vec![r, refr, refl, abs, det, r2])
}

#[test]
fn empty_filter_returns_every_terminal() {
    let (l, u) = branching();
    assert_eq!(find_forward_uid_seq(&l, Vec::new()), vec![u[3], u[4], u[5]]);
}

#[test]
fn filter_on_interface_kind() {
    let (l, u) = branching();
    let refraction = filter_step(StepSelect::Mcrt(McrtSelect::Interface(Some(raw::Interface::Refraction))), SrcId::NoSource).unwrap();
    let any_interface = filter_step(StepSelect::Mcrt(McrtSelect::Interface(None)), SrcId::NoSource).unwrap();
    let detection = filter_step(StepSelect::Detection, SrcId::NoSource).unwrap();
    assert_eq!(find_forward_uid_seq(&l, vec![refraction]), vec![u[3]]);
    assert_eq!(find_forward_uid_seq(&l, vec![any_interface]), vec![u[3], u[4]]);
    assert_eq!(find_forward_uid_seq(&l, vec![any_interface, detection]), vec![u[4]]);
}

#[test]
fn reload_gives_same_chains_and_matches() {
    let (mut l, u) = branching();
    l.with_surf("surface1".to_string(), Some("group1".to_string())).unwrap();
    l.with_mat("material1".to_string()).unwrap();
    let refraction = filter_step(StepSelect::Mcrt(McrtSelect::Interface(Some(raw::Interface::Refraction))), SrcId::NoSource).unwrap();
    let filters = vec![vec![], vec![refraction]];
    let grps: Vec<(String, SrcId)> = l.get_groups().clone();
    let src_map: Vec<(SrcId, Vec<SrcName>)> = l.get_src_map().clone();
    let restored = Ledger::from_parts(
        grps,
        src_map,
        l.next_mat_id,
        l.next_surf_id,
        l.next_matsurf_id,
        l.next_light_id,
        l.get_prev_map(),
        l.next_seq_id(),
    )
    .unwrap();
    for x in &u {
        assert_eq!(restored.get_chain(*x), l.get_chain(*x));
    }
    for f in filters {
        assert_eq!(find_forward_uid_seq(&restored, f.clone()), find_forward_uid_seq(&l, f));
    }
    assert_eq!(restored.src_names(SrcId::Surf(0)), Some(vec!["surface1".to_string()]));
    assert_eq!(restored.src_names(SrcId::Mat(0)), Some(vec!["material1".to_string()]));
}

#[test]
fn inconsistent_documents_are_refused() {
    let (l, _) = branching();
    let table = l.get_prev_map();
    // wrong next sequence id
    assert!(matches!(
        Ledger::from_parts(Vec::new(), Vec::new(), 0, 0, u16::MAX, 0, table.clone(), 3),
        Err(LedgerError::InvalidDocument)
    ));
    // an edge listed twice
    let mut dup = table.clone();
    dup[1].1 = dup[0].1;
    assert!(matches!(
        Ledger::from_parts(Vec::new(), Vec::new(), 0, 0, u16::MAX, 0, dup, 7),
        Err(LedgerError::InvalidDocument)
    ));
    // sequence ids out of order
    let mut swapped = table.clone();
    swapped.swap(0, 1);
    assert!(matches!(
        Ledger::from_parts(Vec::new(), Vec::new(), 0, 0, u16::MAX, 0, swapped, 7),
        Err(LedgerError::InvalidDocument)
    ));
    // an id not allocated by its counter
    assert!(matches!(
        Ledger::from_parts(Vec::new(), vec![(SrcId::Mat(0), vec![])], 0, 0, u16::MAX, 0, Vec::new(), 1),
        Err(LedgerError::InvalidDocument)
    ));
    // a group bound to an id without names
    assert!(matches!(
        Ledger::from_parts(vec![("g".to_string(), SrcId::Surf(0))], Vec::new(), 0, 1, u16::MAX, 0, Vec::new(), 1),
        Err(LedgerError::InvalidDocument)
    ));
    assert!(Ledger::from_parts(Vec::new(), Vec::new(), 0, 0, u16::MAX, 0, table, 7).is_ok());
}

#[test]
fn filter_step_bits() {
    let f = filter_step(StepSelect::Mcrt(McrtSelect::Interface(Some(raw::Interface::Refraction))), SrcId::Surf(0xFFFF)).unwrap();
    assert_eq!(f, BitsMatch::new(0x0FFF_FFFF, 0x0301_FFFF));
    let g = filter_step(
        StepSelect::Mcrt(McrtSelect::Material(MaterialSelect::Elastic(Some(raw::Elastic::HenyeyGreenstein), Some(raw::Direction::Any)))),
        SrcId::Mat(0xFFFF),
    )
    .unwrap();
    assert_eq!(g, BitsMatch::new(0x0FFF_FFFF, 0x03A0_FFFF));
    let d = filter_step(StepSelect::Detection, SrcId::NoSource).unwrap();
    assert_eq!(d, BitsMatch::new(0x0F00_0000, 0x0500_0000));
    let e = filter_step(StepSelect::Emission(None), SrcId::Light(4)).unwrap();
    assert_eq!(e, BitsMatch::new(0x0F00_FFFF, 0x0100_0004));
    let m = filter_step(StepSelect::Mcrt(McrtSelect::Material(MaterialSelect::Any)), SrcId::NoSource).unwrap();
    assert_eq!(m, BitsMatch::new(0x0FC0_0000, 0x0380_0000));
    assert!(m.matches(0x03a40001));
    assert!(!m.matches(0x03000001));
}

#[test]
fn filter_source_must_suit_pipeline() {
    assert_eq!(filter_step(StepSelect::Mcrt(McrtSelect::Any), SrcId::Light(0)), Err(FilterError::SrcNotAllowed));
    assert_eq!(filter_step(StepSelect::Emission(None), SrcId::Mat(0)), Err(FilterError::SrcNotAllowed));
    assert_eq!(filter_step(StepSelect::Detection, SrcId::Surf(0)), Err(FilterError::SrcNotAllowed));
    assert_eq!(filter_step(StepSelect::Processing, SrcId::MatSurf(0)), Err(FilterError::SrcNotAllowed));
}

#[test]
fn path_filter_matches_its_event() {
    let e = EventId::new_mcrt(MCRT::Material(Material::Elastic(Elastic::Mie(ScatterDir::Side))), 12);
    let f = filter_step(
        StepSelect::Mcrt(McrtSelect::Material(MaterialSelect::Elastic(Some(raw::Elastic::Mie), Some(raw::Direction::Side)))),
        SrcId::Mat(12),
    )
    .unwrap();
    assert!(f.matches(e.encode()));
    let other = EventId::new_mcrt(MCRT::Material(Material::Elastic(Elastic::Mie(ScatterDir::Forward))), 12);
    assert!(!f.matches(other.encode()));
    let wrong_src = EventId::new_mcrt(MCRT::Material(Material::Elastic(Elastic::Mie(ScatterDir::Side))), 13);
    assert!(!f.matches(wrong_src.encode()));
    let laser = filter_step(StepSelect::Emission(Some(Emission::Laser)), SrcId::NoSource).unwrap();
    assert!(laser.matches(EventId::new_emission(Emission::Laser, 9).encode()));
    assert!(!laser.matches(EventId::new_emission(Emission::PointSource, 9).encode()));
}
