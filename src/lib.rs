//! Encoding, storage and search of particle event histories.
//!
//! An event is a 32-bit word built from a hierarchical taxonomy (see `raw`
//! for the bit layout). Chains of events are kept in a prefix-sharing trie
//! (`ledger`), and ordered bitmask filters (`filter`) find the chains whose
//! events contain a given pattern as a subsequence.
pub mod raw;
pub mod emission;
pub mod mcrt;
pub mod ledger;
pub mod registry;
pub mod filter;
pub mod persist;
pub mod text;

use vstd::prelude::*;
use crate::raw::{DecodeError, Pipeline};

verus! {

/// Event taxonomy, one variant per pipeline.
#[derive(Clone, Copy, Debug, PartialEq, Eq, Structural)]
pub enum EventType {
    Emission(emission::Emission),
    MCRT(mcrt::MCRT),
    Detection,
    Processing,
}

/// An event taxonomy path together with the numeric source id.
#[derive(Clone, Copy, Debug, PartialEq, Eq, Structural)]
pub struct EventId {
    pub event_type: EventType,
    pub src_id: u16,
}

impl EventType {
    pub open spec fn spec_pipeline(self) -> Pipeline {
        match self {
            EventType::Emission(_) => Pipeline::Emission,
            EventType::MCRT(_) => Pipeline::Mcrt,
            EventType::Detection => Pipeline::Detection,
            EventType::Processing => Pipeline::Processing,
        }
    }

    /// Taxonomy byte; zero for the pipelines that carry no taxonomy.
    pub open spec fn spec_byte(self) -> u8 {
        match self {
            EventType::Emission(e) => e.spec_code(),
            EventType::MCRT(m) => m.spec_byte(),
            EventType::Detection => 0,
            EventType::Processing => 0,
        }
    }
}

/// Event word with pipeline code `p`, taxonomy byte `b` and source id `s`.
pub open spec fn event_word(p: u8, b: u8, s: u16) -> u32 {
    (((p as u32) << 24) | ((b as u32) << 16)) | (s as u32)
}

/// Event taxonomy held in an event word, or the error for an unknown code.
/// Bits that the active taxonomy path does not define are ignored.
pub open spec fn decode_event(raw: u32) -> Result<EventId, DecodeError> {
    let b = ((raw >> 16) & 0xFF) as u8;
    let s = (raw & 0xFFFF) as u16;
    match Pipeline::spec_from_code(((raw >> 24) & 0xF) as u8) {
        Ok(Pipeline::Emission) => match emission::Emission::spec_from_code(b) {
            Some(e) => Ok(EventId { event_type: EventType::Emission(e), src_id: s }),
            None => Err(DecodeError::UnknownSubType(b)),
        },
        Ok(Pipeline::Mcrt) => match mcrt::MCRT::spec_from_byte(b) {
            Ok(m) => Ok(EventId { event_type: EventType::MCRT(m), src_id: s }),
            Err(e) => Err(e),
        },
        Ok(Pipeline::Detection) => Ok(EventId { event_type: EventType::Detection, src_id: s }),
        Ok(Pipeline::Processing) => Ok(EventId { event_type: EventType::Processing, src_id: s }),
        Err(e) => Err(e),
    }
}

impl EventId {
    /// Event word of this event.
    pub open spec fn spec_encode(self) -> u32 {
        event_word(
            self.event_type.spec_pipeline().spec_code(),
            self.event_type.spec_byte(),
            self.src_id,
        )
    }

    pub fn new(event_type: EventType, src_id: u16) -> (r: Self)
        ensures
            r == (EventId { event_type, src_id }),
    {
        EventId { event_type, src_id }
    }

    pub fn new_emission(emission_event: emission::Emission, light_id: u16) -> (r: Self)
        ensures
            r == (EventId { event_type: EventType::Emission(emission_event), src_id: light_id }),
    {
        EventId { event_type: EventType::Emission(emission_event), src_id: light_id }
    }

    pub fn new_mcrt(mcrt_event: mcrt::MCRT, matsurf_id: u16) -> (r: Self)
        ensures
            r == (EventId { event_type: EventType::MCRT(mcrt_event), src_id: matsurf_id }),
    {
        EventId { event_type: EventType::MCRT(mcrt_event), src_id: matsurf_id }
    }

    /// Packs the event into its 32-bit word.
    pub fn encode(&self) -> (r: u32)
        ensures
            r == self.spec_encode(),
    {
        let (p, b) = match &self.event_type {
            EventType::Emission(e) => (Pipeline::Emission.code(), e.code()),
            EventType::MCRT(m) => (Pipeline::Mcrt.code(), m.byte()),
            EventType::Detection => (Pipeline::Detection.code(), 0u8),
            EventType::Processing => (Pipeline::Processing.code(), 0u8),
        };
        (((p as u32) << 24) | ((b as u32) << 16)) | (self.src_id as u32)
    }

    /// Unpacks an event word.
    pub fn decode(raw: u32) -> (r: Result<EventId, DecodeError>)
        ensures
            r == decode_event(raw),
    {
        let b = ((raw >> 16) & 0xFF) as u8;
        let s = (raw & 0xFFFF) as u16;
        match Pipeline::decode(raw) {
            Ok(Pipeline::Emission) => match emission::Emission::from_code(b) {
                Some(e) => Ok(EventId { event_type: EventType::Emission(e), src_id: s }),
                None => Err(DecodeError::UnknownSubType(b)),
            },
            Ok(Pipeline::Mcrt) => match mcrt::MCRT::from_byte(b) {
                Ok(m) => Ok(EventId { event_type: EventType::MCRT(m), src_id: s }),
                Err(e) => Err(e),
            },
            Ok(Pipeline::Detection) => Ok(EventId { event_type: EventType::Detection, src_id: s }),
            Ok(Pipeline::Processing) => Ok(
                EventId { event_type: EventType::Processing, src_id: s },
            ),
            Err(e) => Err(e),
        }
    }
}

/// Decoding the word of any event gives the event back.
pub proof fn lemma_event_round_trip(e: EventId)
    ensures
        decode_event(e.spec_encode()) == Ok::<EventId, DecodeError>(e),
{
    let p = e.event_type.spec_pipeline().spec_code();
    let b = e.event_type.spec_byte();
    raw::lemma_word_fields(p as u32, b as u32, e.src_id as u32);
    match e.event_type {
        EventType::MCRT(m) => {
            mcrt::lemma_mcrt_byte_round_trip(m);
        },
        _ => {},
    }
}

/// Name of a registered source, tagged by its kind.
#[derive(Clone, Debug, PartialEq, Eq)]
pub enum SrcName {
    Light(String),
    Surf(String),
    MatSurf(String),
    Mat(String),
    Detector(String),
}

impl SrcName {
    /// The human-readable name, without its kind.
    pub fn to_string(&self) -> (r: String)
        ensures
            r@ == self@.text(),
    {
        match self {
            SrcName::Light(name) => name.clone(),
            SrcName::Surf(name) => name.clone(),
            SrcName::MatSurf(name) => name.clone(),
            SrcName::Mat(name) => name.clone(),
            SrcName::Detector(name) => name.clone(),
        }
    }
}

/// A registered name, as seen by contracts.
pub enum SrcNameView {
    Light(Seq<char>),
    Surf(Seq<char>),
    MatSurf(Seq<char>),
    Mat(Seq<char>),
    Detector(Seq<char>),
}

impl View for SrcName {
    type V = SrcNameView;

    open spec fn view(&self) -> SrcNameView {
        match self {
            SrcName::Light(n) => SrcNameView::Light(n@),
            SrcName::Surf(n) => SrcNameView::Surf(n@),
            SrcName::MatSurf(n) => SrcNameView::MatSurf(n@),
            SrcName::Mat(n) => SrcNameView::Mat(n@),
            SrcName::Detector(n) => SrcNameView::Detector(n@),
        }
    }
}

impl SrcNameView {
    /// The name without its kind.
    pub open spec fn text(self) -> Seq<char> {
        match self {
            SrcNameView::Light(n) => n,
            SrcNameView::Surf(n) => n,
            SrcNameView::MatSurf(n) => n,
            SrcNameView::Mat(n) => n,
            SrcNameView::Detector(n) => n,
        }
    }
}

/// Access to an event word.
pub trait RawEvent {
    spec fn bits(&self) -> u32;

    /// The word itself.
    fn raw(&self) -> (r: u32)
        ensures
            r == self.bits(),
    ;

    /// The numeric source id held in the low 16 bits.
    fn id(&self) -> (r: u16)
        ensures
            r == (self.bits() & 0xFFFF) as u16,
    ;

    /// The pipeline that produced the event.
    fn pipeline(&self) -> (r: Result<Pipeline, DecodeError>)
        ensures
            r == Pipeline::spec_from_code(((self.bits() >> 24) & 0xF) as u8),
    ;

    /// The event taxonomy.
    fn decode(&self) -> (r: Result<EventId, DecodeError>)
        ensures
            r == decode_event(self.bits()),
    ;
}

impl RawEvent for u32 {
    open spec fn bits(&self) -> u32 {
        *self
    }

    fn raw(&self) -> (r: u32) {
        *self
    }

    fn id(&self) -> (r: u16) {
        (*self & 0xFFFF) as u16
    }

    fn pipeline(&self) -> (r: Result<Pipeline, DecodeError>) {
        Pipeline::decode(*self)
    }

    fn decode(&self) -> (r: Result<EventId, DecodeError>) {
        EventId::decode(*self)
    }
}

} // verus!
