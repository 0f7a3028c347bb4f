use aetherus_events::emission::Emission;
use aetherus_events::ledger::{Ledger, LedgerError, Uid};
use aetherus_events::mcrt::{Elastic, Interface, Material, ScatterDir, SrcId, MCRT};
use aetherus_events::raw::{MatId, SurfId};
use aetherus_events::text::UidParseError;
use aetherus_events::{EventId, EventType, SrcName};

fn names(ledger: &Ledger, id: SrcId) -> Vec<String> {
    ledger.src_names(id).unwrap()
}

#[test]
fn produce_src_id() {
    let surfs = vec!["surf1".to_string(), "surf2".to_string(), "surf3".to_string()];
    let mats = vec!["mat1".to_string(), "mat2".to_string()];
    let objects = vec![
        ("obj1".to_string(), "mat1".to_string()),
        ("obj2".to_string(), "mat2".to_string()),
        ("obj3".to_string(), "mat1".to_string()),
    ];

    let mut ledger = Ledger::new();

    for mat in mats {
        let src_id = ledger.with_mat(mat.clone()).unwrap();
        assert!(ledger.src_names(src_id).is_some());
        assert_eq!(names(&ledger, src_id), vec![mat.clone()]);
    }

    for surf in surfs {
        let src_id = ledger.with_surf(surf.clone(), None).unwrap();
        assert!(ledger.src_names(src_id).is_some());
        assert_eq!(names(&ledger, src_id), vec![surf.clone()]);
    }

    for (obj, mat) in objects {
        let src_id = ledger.with_matsurf(obj.clone(), mat.clone(), None).unwrap();
        assert!(ledger.src_names(src_id).is_some());
        let expected_name = format!("{}:{}", obj.clone(), mat.clone());
        assert_eq!(names(&ledger, src_id), vec![expected_name]);
    }
}

#[test]
fn insert_events() {
    let mut ledger = Ledger::new();
    let emission_event = EventId { event_type: EventType::Emission(Emission::PointSource), src_id: 1 };
    let uid1 = ledger.insert_start(emission_event).unwrap();
    assert_eq!(uid1.seq_no, 0);
    let mcrt_event = EventId {
        event_type: EventType::MCRT(MCRT::Material(Material::Elastic(Elastic::HenyeyGreenstein(ScatterDir::Forward)))),
        src_id: 2,
    };
    let uid2 = ledger.insert(uid1.clone(), mcrt_event).unwrap();
    assert_eq!(uid2.seq_no, 1);
    let mcrt_event = EventId {
        event_type: EventType::MCRT(MCRT::Material(Material::Elastic(Elastic::Mie(ScatterDir::Forward)))),
        src_id: 2,
    };
    let uid3 = ledger.insert(uid2.clone(), mcrt_event).unwrap();
    assert_eq!(uid3.seq_no, 2);
    let chain = ledger.get_chain(uid3.clone());
    assert_eq!(chain.len(), 3);
    assert_eq!(chain[0], uid1);
    assert_eq!(chain[1], uid2);
    assert_eq!(chain[2], uid3);
}

fn ev(m: MCRT, src: u16) -> EventId {
    EventId::new_mcrt(m, src)
}

#[test]
fn chain_reproduces_inserts_with_branches() {
    let mut l = Ledger::new();
    let root = l.insert_start(EventId::new_emission(Emission::PointSource, 0)).unwrap();
    let a = l.insert(root, ev(MCRT::Interface(Interface::Refraction), 1)).unwrap();
    let b = l.insert(root, ev(MCRT::Interface(Interface::Reflection), 1)).unwrap();
    let a2 = l.insert(a, ev(MCRT::Material(Material::Absorption), 2)).unwrap();
    let b2 = l.insert(b, ev(MCRT::Material(Material::Absorption), 2)).unwrap();
    let b3 = l.insert(b2, EventId::new(EventType::Detection, 0)).unwrap();
    assert_eq!(l.get_chain(a2), vec![root, a, a2]);
    assert_eq!(l.get_chain(b3), vec![root, b, b2, b3]);
    assert_eq!(a2.event, 0x03800002);
    assert_ne!(a2, b2);
    assert_eq!(l.get_children(&root), vec![a, b]);
    assert_eq!(l.get_children(&b2), vec![b3]);
    assert_eq!(l.get_children(&b3), Vec::<Uid>::new());
}

#[test]
fn identical_sequences_share_one_path() {
    let mut l = Ledger::new();
    let e0 = EventId::new_emission(Emission::Laser, 3);
    let e1 = ev(MCRT::Interface(Interface::Refraction), 1);
    let e2 = ev(MCRT::Material(Material::Elastic(Elastic::Rayleigh(ScatterDir::Side))), 2);
    let r1 = l.insert_start(e0).unwrap();
    let u1 = l.insert(r1, e1).unwrap();
    let v1 = l.insert(u1, e2).unwrap();
    let next_after_first = l.next_seq_id();
    let r2 = l.insert_start(e0).unwrap();
    let u2 = l.insert(r2, e1).unwrap();
    let v2 = l.insert(u2, e2).unwrap();
    assert_eq!((r1, u1, v1), (r2, u2, v2));
    assert_eq!(l.next_seq_id(), next_after_first);
    assert_eq!(l.get_prev_map().len(), 3);
}

#[test]
fn insert_start_twice_keeps_one_root() {
    let mut l = Ledger::new();
    let e = EventId::new_emission(Emission::PointSource, 1);
    let a = l.insert_start(e).unwrap();
    let b = l.insert_start(e).unwrap();
    assert_eq!(a, b);
    assert_eq!(a, Uid::new(0, 0x01000001));
    assert_eq!(l.get_prev_map(), vec![(1, a)]);
    assert_eq!(l.get_next_map(), vec![(a, 1)]);
    assert_eq!(l.next_seq_id(), 2);
}

#[test]
fn unknown_parent_is_refused() {
    let mut l = Ledger::new();
    let r = l.insert(Uid::new(0, 0x01000001), EventId::new(EventType::Detection, 0));
    assert_eq!(r, Err(LedgerError::UnknownParent));
    assert_eq!(l.next_seq_id(), 1);
}

#[test]
fn lookups_of_positions() {
    let mut l = Ledger::new();
    let r = l.insert_start(EventId::new_emission(Emission::PointSource, 1)).unwrap();
    let c = l.insert(r, EventId::new(EventType::Detection, 0)).unwrap();
    assert_eq!(l.get_next(&r), Some(1));
    assert_eq!(l.get_next(&c), Some(2));
    assert_eq!(l.get_next(&Uid::new(5, 5)), None);
    assert_eq!(l.get_prev(0), None);
    assert_eq!(l.get_prev(1), Some(r));
    assert_eq!(l.get_prev(2), Some(c));
    assert_eq!(l.get_prev(3), None);
    // a Uid that is not an edge still gets a chain through its position
    assert_eq!(l.get_chain(Uid::new(1, 0x07000000)), vec![r, Uid::new(1, 0x07000000)]);
}

#[test]
fn surface_group_promoted_to_matsurf() {
    let mut l = Ledger::new();
    let s = l.with_surf("s1".to_string(), Some("g".to_string())).unwrap();
    assert_eq!(s, SrcId::Surf(0));
    let ms = l.with_matsurf("o".to_string(), "m".to_string(), Some("g".to_string())).unwrap();
    assert_eq!(ms, SrcId::MatSurf(65535));
    assert_eq!(names(&l, ms), vec!["s1".to_string(), "o:m".to_string()]);
    assert!(l.src_names(SrcId::Surf(0)).is_none());
    // the group now stands for the promoted id
    let again = l.with_surf("s2".to_string(), Some("g".to_string())).unwrap();
    assert_eq!(again, ms);
    assert_eq!(names(&l, ms), vec!["s1".to_string(), "o:m".to_string(), "s2".to_string()]);
    assert_eq!(l.get_groups().len(), 1);
    assert_eq!(l.get_groups()[0].1, SrcId::MatSurf(65535));
}

#[test]
fn grouped_surfaces_share_an_id() {
    let mut l = Ledger::new();
    let a = l.with_surf("a".to_string(), Some("g".to_string())).unwrap();
    let b = l.with_surf("b".to_string(), Some("g".to_string())).unwrap();
    let c = l.with_surf("c".to_string(), Some("h".to_string())).unwrap();
    assert_eq!(a, SrcId::Surf(0));
    assert_eq!(b, SrcId::Surf(0));
    assert_eq!(c, SrcId::Surf(1));
    assert_eq!(names(&l, a), vec!["a".to_string(), "b".to_string()]);
    let m1 = l.with_matsurf("x".to_string(), "y".to_string(), Some("k".to_string())).unwrap();
    let m2 = l.with_matsurf("z".to_string(), "y".to_string(), Some("k".to_string())).unwrap();
    assert_eq!(m1, SrcId::MatSurf(65535));
    assert_eq!(m2, m1);
    let m3 = l.with_matsurf("w".to_string(), "y".to_string(), None).unwrap();
    assert_eq!(m3, SrcId::MatSurf(65534));
}

#[test]
fn lights_get_their_own_ids() {
    let mut l = Ledger::new();
    assert_eq!(l.with_light("sun".to_string()), Ok(SrcId::Light(0)));
    assert_eq!(l.with_light("lamp".to_string()), Ok(SrcId::Light(1)));
    assert_eq!(names(&l, SrcId::Light(1)), vec!["lamp".to_string()]);
    assert!(l.check_ids());
}

fn restore_with_group(id: SrcId, name: SrcName) -> Ledger {
    Ledger::from_parts(
        vec![("g".to_string(), id)],
        vec![(id, vec![name])],
        1,
        1,
        u16::MAX,
        1,
        Vec::new(),
        1,
    )
    .unwrap()
}

#[test]
fn material_group_promoted_by_surface() {
    let mut l = restore_with_group(SrcId::Mat(0), SrcName::Mat("m".to_string()));
    let r = l.with_surf("s".to_string(), Some("g".to_string())).unwrap();
    assert_eq!(r, SrcId::MatSurf(65535));
    assert_eq!(names(&l, r), vec!["m".to_string(), "s".to_string()]);
    assert!(l.src_names(SrcId::Mat(0)).is_none());
}

#[test]
fn light_group_is_refused() {
    let mut l = restore_with_group(SrcId::Light(0), SrcName::Light("sun".to_string()));
    assert_eq!(l.with_surf("s".to_string(), Some("g".to_string())), Err(LedgerError::LightGroup));
    assert_eq!(
        l.with_matsurf("o".to_string(), "m".to_string(), Some("g".to_string())),
        Err(LedgerError::LightGroup)
    );
    assert_eq!(names(&l, SrcId::Light(0)), vec!["sun".to_string()]);
}

#[test]
fn exhausted_counters_are_reported() {
    let mut l = Ledger::from_parts(Vec::new(), Vec::new(), u16::MAX, u16::MAX, 0, u16::MAX, Vec::new(), 1).unwrap();
    assert_eq!(l.with_mat("m".to_string()), Err(LedgerError::SrcIdsExhausted));
    assert_eq!(l.with_surf("s".to_string(), None), Err(LedgerError::SrcIdsExhausted));
    assert_eq!(l.with_light("l".to_string()), Err(LedgerError::SrcIdsExhausted));
    assert_eq!(l.with_matsurf("o".to_string(), "m".to_string(), None), Err(LedgerError::SrcIdsExhausted));
    assert!(!l.check_ids());
}

#[test]
fn uid_key_round_trip() {
    let u = Uid::new(1, 0x03a40001);
    assert_eq!(u.encode(), 0x0000_0001_03a4_0001);
    assert_eq!(Uid::decode(0x0000_0001_03a4_0001), u);
    assert_eq!(Uid::decode(u.encode()), u);
}

#[test]
fn uid_text_form() {
    assert_eq!(Uid::parse("0x00000001_03a40001"), Ok(Uid::new(1, 0x03a40001)));
    assert_eq!(Uid::parse("0000000A_03A4000f"), Ok(Uid::new(10, 0x03a4000f)));
    assert_eq!(Uid::parse("0x0000001_03a40001"), Err(UidParseError::Length));
    assert_eq!(Uid::parse(""), Err(UidParseError::Length));
    assert_eq!(Uid::parse("0x00000001-03a40001"), Err(UidParseError::Format));
    assert_eq!(Uid::parse("0x0000000g_03a40001"), Err(UidParseError::Format));
    assert_eq!(Uid::parse("0x00000001_03a4000+"), Err(UidParseError::Format));
}

#[test]
fn raw_ids() {
    assert_eq!(MatId::new(3).id(), 3);
    assert_eq!(SurfId::new(65535).id(), 65535);
}
