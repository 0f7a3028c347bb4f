use aetherus_events::emission::Emission;
use aetherus_events::mcrt::{Elastic, Inelastic, Interface, Material, Reflector, ScatterDir, SrcId, MCRT};
use aetherus_events::raw::{DecodeError, Pipeline};
use aetherus_events::{EventId, EventType, RawEvent};

#[test]
fn decoding_mcrt_event() {
    let raw_event: u32 = 0x03a40001;
    let event_id = EventId::decode(raw_event).unwrap();
    match event_id.event_type {
        EventType::MCRT(mcrt_event) => match mcrt_event {
            MCRT::Material(material_event) => match material_event {
                Material::Elastic(elastic_event) => match elastic_event {
                    Elastic::Mie(scatter_dir) => {
                        assert_eq!(scatter_dir, ScatterDir::Any);
                    }
                    _ => panic!("Expected Elastic::Mie"),
                },
                _ => panic!("Expected Material::Elastic"),
            },
            _ => panic!("Expected MCRT::Material"),
        },
        _ => panic!("Expected EventType::MCRT"),
    }
    assert_eq!(event_id.src_id, 1);
}

#[test]
fn encoding_mcrt_event() {
    let mcrt_event = MCRT::Material(Material::Elastic(Elastic::Mie(ScatterDir::Any)));
    let event_id = EventId::new_mcrt(mcrt_event, 1);
    let raw_event = event_id.encode();
    assert_eq!(raw_event, 0x03a40001);
}

#[test]
fn mcrt_event_macro() {
    let event1 = MCRT::Interface(Interface::Reflection);
    assert_eq!(event1, MCRT::Interface(Interface::Reflection));
    let event2 = MCRT::Material(Material::Elastic(Elastic::Mie(ScatterDir::Any)));
    assert_eq!(event2, MCRT::Material(Material::Elastic(Elastic::Mie(ScatterDir::Any))));
}

#[test]
fn encoding_decoding() {
    let dec_list = vec![
        MCRT::Interface(Interface::Reflection),
        MCRT::Interface(Interface::Refraction),
        MCRT::Interface(Interface::ReEmittance),
        MCRT::Reflector(Reflector::Diffuse),
        MCRT::Reflector(Reflector::Specular),
        MCRT::Reflector(Reflector::Composite),
        MCRT::Reflector(Reflector::RetroReflective),
        MCRT::Material(Material::Absorption),
        MCRT::Material(Material::Inelastic(Inelastic::Raman(ScatterDir::Side))),
        MCRT::Material(Material::Inelastic(Inelastic::Fluorescence(ScatterDir::Forward))),
        MCRT::Material(Material::Elastic(Elastic::HenyeyGreenstein(ScatterDir::Backward))),
        MCRT::Material(Material::Elastic(Elastic::Mie(ScatterDir::Backward))),
        MCRT::Material(Material::Elastic(Elastic::Rayleigh(ScatterDir::Backward))),
        MCRT::Material(Material::Elastic(Elastic::SphericalCdf(ScatterDir::Backward))),
    ];
    let enc_list: Vec<u32> = vec![
        0x03000001, 0x03010002, 0x03040003, 0x03420004, 0x03440005, 0x03460006, 0x03480007,
        0x03800008, 0x03920009, 0x0395000a, 0x03a3000b, 0x03a7000c, 0x03ab000d, 0x03af000e,
    ];
    for (enc, dec) in enc_list.iter().zip(dec_list.iter()) {
        let decoded_event = MCRT::decode(*enc).unwrap();
        assert_eq!(*dec, decoded_event);
        assert_eq!(*enc & 0x00ff0000, dec.encode());
    }
}

#[test]
fn composite_retro_reflective_code() {
    let e = EventId::new_mcrt(MCRT::Reflector(Reflector::CompositeRetroReflective), 0);
    assert_eq!(e.encode(), 0x03490000);
    assert_eq!(EventId::decode(0x03490000).unwrap(), e);
}

#[test]
fn every_pipeline_round_trips() {
    let events = vec![
        EventId::new_emission(Emission::PointSource, 1),
        EventId::new_emission(Emission::Laser, 0xFFFF),
        EventId::new(EventType::Detection, 7),
        EventId::new(EventType::Processing, 0),
        EventId::new_mcrt(MCRT::Material(Material::Inelastic(Inelastic::Raman(ScatterDir::Backward))), 42),
        EventId::new_mcrt(MCRT::Interface(Interface::ReEmittance), 65535),
    ];
    for e in events {
        let raw = e.encode();
        assert_eq!(EventId::decode(raw), Ok(e));
        assert_eq!(raw.decode(), Ok(e));
    }
}

#[test]
fn pipeline_fields_of_words() {
    assert_eq!(EventId::new_emission(Emission::PointSource, 1).encode(), 0x01000001);
    assert_eq!(EventId::new_emission(Emission::Laser, 2).encode(), 0x01010002);
    assert_eq!(EventId::new(EventType::Detection, 0).encode(), 0x05000000);
    assert_eq!(EventId::new(EventType::Processing, 3).encode(), 0x07000003);
    assert_eq!(Pipeline::try_from(3), Ok(Pipeline::Mcrt));
    assert_eq!(Pipeline::try_from(2), Err(DecodeError::UnknownPipeline(2)));
    assert_eq!(Pipeline::Detection.encode(), 0x05000000);
}

#[test]
fn reserved_codes_are_decode_errors() {
    assert_eq!(EventId::decode(0x02000000), Err(DecodeError::UnknownPipeline(2)));
    assert_eq!(EventId::decode(0x00000000), Err(DecodeError::UnknownPipeline(0)));
    // interface sub-type 2 is reserved
    assert_eq!(EventId::decode(0x03020000), Err(DecodeError::UnknownSubType(0x02)));
    // reflector sub-type 3 is reserved
    assert_eq!(EventId::decode(0x03430000), Err(DecodeError::UnknownSubType(0x43)));
    // custom super-type
    assert_eq!(EventId::decode(0x03C00000), Err(DecodeError::UnknownSubType(0xC0)));
    // custom material kind
    assert_eq!(EventId::decode(0x03B00000), Err(DecodeError::UnknownSubType(0xB0)));
    // inelastic model 2 is reserved
    assert_eq!(EventId::decode(0x03980000), Err(DecodeError::UnknownSubType(0x98)));
    // emission kind 5 is unknown
    assert_eq!(EventId::decode(0x01050000), Err(DecodeError::UnknownSubType(0x05)));
}

#[test]
fn undefined_bits_are_ignored() {
    // absorption does not use the model and direction bits
    let e = EventId::decode(0x038f0004).unwrap();
    assert_eq!(e, EventId::new_mcrt(MCRT::Material(Material::Absorption), 4));
    assert_eq!(e.encode(), 0x03800004);
    // detection carries no taxonomy byte
    let d = EventId::decode(0x05ab0001).unwrap();
    assert_eq!(d.encode(), 0x05000001);
}

#[test]
fn raw_word_accessors() {
    let w: u32 = 0x03a40001;
    assert_eq!(w.id(), 1);
    assert_eq!(w.raw(), 0x03a40001);
    assert_eq!(w.pipeline(), Ok(Pipeline::Mcrt));
    assert_eq!(0x09000000u32.pipeline(), Err(DecodeError::UnknownPipeline(9)));
}

#[test]
fn src_id_payloads() {
    assert_eq!(SrcId::NoSource.encode(), 0);
    assert_eq!(SrcId::Mat(42).encode(), 42);
    assert_eq!(SrcId::MatSurf(65535).id(), 65535);
    assert_eq!(SrcId::Light(3).id(), 3);
    assert_eq!(ScatterDir::new(), ScatterDir::Any);
}
