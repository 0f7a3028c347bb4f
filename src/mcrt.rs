//! Taxonomy of Monte-Carlo radiative-transport events and its encoding into
//! the taxonomy byte of an event word.
use vstd::prelude::*;
use crate::raw;
use crate::raw::DecodeError;

verus! {

/// Physical entity an event is attributed to.
#[derive(Clone, Copy, Debug, PartialEq, Eq, Structural)]
pub enum SrcId {
    NoSource,
    Mat(u16),
    Surf(u16),
    MatSurf(u16),
    Light(u16),
}

impl SrcId {
    /// Numeric payload carried in the low bits of an event word.
    pub open spec fn spec_payload(self) -> u16 {
        match self {
            SrcId::NoSource => 0,
            SrcId::Mat(id) => id,
            SrcId::Surf(id) => id,
            SrcId::MatSurf(id) => id,
            SrcId::Light(id) => id,
        }
    }

    /// The source-id field of an event word; zero for `NoSource`.
    pub fn encode(&self) -> (r: u32)
        ensures
            r == self.spec_payload() as u32,
    {
        match self {
            SrcId::NoSource => 0,
            SrcId::Mat(id) => *id as u32,
            SrcId::Surf(id) => *id as u32,
            SrcId::MatSurf(id) => *id as u32,
            SrcId::Light(id) => *id as u32,
        }
    }

    /// The numeric id of a source other than `NoSource`.
    pub fn id(&self) -> (r: u16)
        requires
            !(self is NoSource),
        ensures
            r == self.spec_payload(),
    {
        match self {
            SrcId::NoSource => 0,
            SrcId::Mat(id) => *id,
            SrcId::Surf(id) => *id,
            SrcId::MatSurf(id) => *id,
            SrcId::Light(id) => *id,
        }
    }
}

/// MCRT event: super-type and its sub-tree.
#[derive(Clone, Copy, Debug, PartialEq, Eq, Structural)]
pub enum MCRT {
    Interface(Interface),
    Reflector(Reflector),
    Material(Material),
}

#[derive(Clone, Copy, Debug, PartialEq, Eq, Structural)]
pub enum Interface {
    Reflection,
    Refraction,
    ReEmittance,
}

#[derive(Clone, Copy, Debug, PartialEq, Eq, Structural)]
pub enum Reflector {
    Diffuse,
    Specular,
    Composite,
    RetroReflective,
    CompositeRetroReflective,
}

#[derive(Clone, Copy, Debug, PartialEq, Eq, Structural)]
pub enum Material {
    Absorption,
    Inelastic(Inelastic),
    Elastic(Elastic),
}

#[derive(Clone, Copy, Debug, PartialEq, Eq, Structural)]
pub enum Inelastic {
    Raman(ScatterDir),
    Fluorescence(ScatterDir),
}

#[derive(Clone, Copy, Debug, PartialEq, Eq, Structural)]
pub enum Elastic {
    HenyeyGreenstein(ScatterDir),
    Mie(ScatterDir),
    Rayleigh(ScatterDir),
    SphericalCdf(ScatterDir),
}

#[derive(Clone, Copy, Debug, PartialEq, Eq, Structural)]
pub enum ScatterDir {
    Any,
    Forward,
    Side,
    Backward,
}

/// Taxonomy byte of an MCRT event with super-type code `s` and sub-type `a`.
pub open spec fn super_byte(s: u8, a: u8) -> u8 {
    (s << 6) | a
}

/// Material sub-type with kind `k`, scattering model `t` and direction `d`.
pub open spec fn material_sub(k: u8, t: u8, d: u8) -> u8 {
    ((k << 4) | (t << 2)) | d
}

impl Interface {
    pub open spec fn spec_raw(self) -> raw::Interface {
        match self {
            Interface::Reflection => raw::Interface::Reflection,
            Interface::Refraction => raw::Interface::Refraction,
            Interface::ReEmittance => raw::Interface::ReEmittance,
        }
    }

    pub open spec fn spec_of(r: raw::Interface) -> Interface {
        match r {
            raw::Interface::Reflection => Interface::Reflection,
            raw::Interface::Refraction => Interface::Refraction,
            raw::Interface::ReEmittance => Interface::ReEmittance,
        }
    }

    /// Code of this interface sub-type.
    pub fn raw(self) -> (r: raw::Interface)
        ensures
            r == self.spec_raw(),
    {
        match self {
            Interface::Reflection => raw::Interface::Reflection,
            Interface::Refraction => raw::Interface::Refraction,
            Interface::ReEmittance => raw::Interface::ReEmittance,
        }
    }

    pub fn of(r: raw::Interface) -> (i: Interface)
        ensures
            i == Self::spec_of(r),
    {
        match r {
            raw::Interface::Reflection => Interface::Reflection,
            raw::Interface::Refraction => Interface::Refraction,
            raw::Interface::ReEmittance => Interface::ReEmittance,
        }
    }
}

impl Reflector {
    pub open spec fn spec_raw(self) -> raw::Reflect {
        match self {
            Reflector::Diffuse => raw::Reflect::Diffuse,
            Reflector::Specular => raw::Reflect::Specular,
            Reflector::Composite => raw::Reflect::Composite,
            Reflector::RetroReflective => raw::Reflect::RetroReflective,
            Reflector::CompositeRetroReflective => raw::Reflect::CompRetroRef,
        }
    }

    pub open spec fn spec_of(r: raw::Reflect) -> Reflector {
        match r {
            raw::Reflect::Diffuse => Reflector::Diffuse,
            raw::Reflect::Specular => Reflector::Specular,
            raw::Reflect::Composite => Reflector::Composite,
            raw::Reflect::RetroReflective => Reflector::RetroReflective,
            raw::Reflect::CompRetroRef => Reflector::CompositeRetroReflective,
        }
    }

    /// Code of this reflector sub-type.
    pub fn raw(self) -> (r: raw::Reflect)
        ensures
            r == self.spec_raw(),
    {
        match self {
            Reflector::Diffuse => raw::Reflect::Diffuse,
            Reflector::Specular => raw::Reflect::Specular,
            Reflector::Composite => raw::Reflect::Composite,
            Reflector::RetroReflective => raw::Reflect::RetroReflective,
            Reflector::CompositeRetroReflective => raw::Reflect::CompRetroRef,
        }
    }

    pub fn of(r: raw::Reflect) -> (i: Reflector)
        ensures
            i == Self::spec_of(r),
    {
        match r {
            raw::Reflect::Diffuse => Reflector::Diffuse,
            raw::Reflect::Specular => Reflector::Specular,
            raw::Reflect::Composite => Reflector::Composite,
            raw::Reflect::RetroReflective => Reflector::RetroReflective,
            raw::Reflect::CompRetroRef => Reflector::CompositeRetroReflective,
        }
    }
}

impl ScatterDir {
    pub open spec fn spec_raw(self) -> raw::Direction {
        match self {
            ScatterDir::Any => raw::Direction::Any,
            ScatterDir::Forward => raw::Direction::Forward,
            ScatterDir::Side => raw::Direction::Side,
            ScatterDir::Backward => raw::Direction::Backward,
        }
    }

    pub open spec fn spec_of(r: raw::Direction) -> ScatterDir {
        match r {
            raw::Direction::Any => ScatterDir::Any,
            raw::Direction::Forward => ScatterDir::Forward,
            raw::Direction::Side => ScatterDir::Side,
            raw::Direction::Backward => ScatterDir::Backward,
        }
    }

    /// The unconstrained direction.
    pub fn new() -> (r: ScatterDir)
        ensures
            r == ScatterDir::Any,
    {
        ScatterDir::Any
    }

    /// Code of this direction.
    pub fn raw(self) -> (r: raw::Direction)
        ensures
            r == self.spec_raw(),
    {
        match self {
            ScatterDir::Any => raw::Direction::Any,
            ScatterDir::Forward => raw::Direction::Forward,
            ScatterDir::Side => raw::Direction::Side,
            ScatterDir::Backward => raw::Direction::Backward,
        }
    }

    pub fn of(r: raw::Direction) -> (i: ScatterDir)
        ensures
            i == Self::spec_of(r),
    {
        match r {
            raw::Direction::Any => ScatterDir::Any,
            raw::Direction::Forward => ScatterDir::Forward,
            raw::Direction::Side => ScatterDir::Side,
            raw::Direction::Backward => ScatterDir::Backward,
        }
    }
}

impl Inelastic {
    pub open spec fn spec_kind(self) -> raw::Inelastic {
        match self {
            Inelastic::Raman(_) => raw::Inelastic::Raman,
            Inelastic::Fluorescence(_) => raw::Inelastic::Fluorescence,
        }
    }

    pub open spec fn spec_dir(self) -> ScatterDir {
        match self {
            Inelastic::Raman(d) => d,
            Inelastic::Fluorescence(d) => d,
        }
    }

    pub open spec fn spec_make(k: raw::Inelastic, d: ScatterDir) -> Inelastic {
        match k {
            raw::Inelastic::Raman => Inelastic::Raman(d),
            raw::Inelastic::Fluorescence => Inelastic::Fluorescence(d),
        }
    }
}

impl Elastic {
    pub open spec fn spec_kind(self) -> raw::Elastic {
        match self {
            Elastic::HenyeyGreenstein(_) => raw::Elastic::HenyeyGreenstein,
            Elastic::Mie(_) => raw::Elastic::Mie,
            Elastic::Rayleigh(_) => raw::Elastic::Rayleigh,
            Elastic::SphericalCdf(_) => raw::Elastic::SphericalCdf,
        }
    }

    pub open spec fn spec_dir(self) -> ScatterDir {
        match self {
            Elastic::HenyeyGreenstein(d) => d,
            Elastic::Mie(d) => d,
            Elastic::Rayleigh(d) => d,
            Elastic::SphericalCdf(d) => d,
        }
    }

    pub open spec fn spec_make(k: raw::Elastic, d: ScatterDir) -> Elastic {
        match k {
            raw::Elastic::HenyeyGreenstein => Elastic::HenyeyGreenstein(d),
            raw::Elastic::Mie => Elastic::Mie(d),
            raw::Elastic::Rayleigh => Elastic::Rayleigh(d),
            raw::Elastic::SphericalCdf => Elastic::SphericalCdf(d),
        }
    }
}

impl Material {
    /// Six-bit sub-type of a material event.
    pub open spec fn spec_sub(self) -> u8 {
        match self {
            Material::Absorption => material_sub(raw::Material::Absorption.spec_code(), 0, 0),
            Material::Inelastic(x) => material_sub(
                raw::Material::Inelastic.spec_code(),
                x.spec_kind().spec_code(),
                x.spec_dir().spec_raw().spec_code(),
            ),
            Material::Elastic(x) => material_sub(
                raw::Material::Elastic.spec_code(),
                x.spec_kind().spec_code(),
                x.spec_dir().spec_raw().spec_code(),
            ),
        }
    }

    /// Material event named by a six-bit sub-type; bits that the kind does
    /// not use are ignored.
    pub open spec fn spec_from_sub(a: u8) -> Option<Material> {
        let d = ScatterDir::spec_of(raw::Direction::spec_from_code(a & 3));
        let t = (a >> 2) & 3;
        match raw::Material::spec_from_code((a >> 4) & 3) {
            raw::Material::Absorption => Some(Material::Absorption),
            raw::Material::Inelastic => match raw::Inelastic::spec_from_code(t) {
                Some(k) => Some(Material::Inelastic(Inelastic::spec_make(k, d))),
                None => None,
            },
            raw::Material::Elastic => Some(
                Material::Elastic(Elastic::spec_make(raw::Elastic::spec_from_code(t), d)),
            ),
            raw::Material::Custom => None,
        }
    }

    fn sub(self) -> (r: u8)
        ensures
            r == self.spec_sub(),
    {
        match self {
            Material::Absorption => ((raw::Material::Absorption.code() << 4) | (0u8 << 2)) | 0u8,
            Material::Inelastic(x) => {
                let (k, d) = match x {
                    Inelastic::Raman(d) => (raw::Inelastic::Raman, d),
                    Inelastic::Fluorescence(d) => (raw::Inelastic::Fluorescence, d),
                };
                ((raw::Material::Inelastic.code() << 4) | (k.code() << 2)) | d.raw().code()
            },
            Material::Elastic(x) => {
                let (k, d) = match x {
                    Elastic::HenyeyGreenstein(d) => (raw::Elastic::HenyeyGreenstein, d),
                    Elastic::Mie(d) => (raw::Elastic::Mie, d),
                    Elastic::Rayleigh(d) => (raw::Elastic::Rayleigh, d),
                    Elastic::SphericalCdf(d) => (raw::Elastic::SphericalCdf, d),
                };
                ((raw::Material::Elastic.code() << 4) | (k.code() << 2)) | d.raw().code()
            },
        }
    }

    fn from_sub(a: u8) -> (r: Option<Material>)
        ensures
            r == Self::spec_from_sub(a),
    {
        let d = ScatterDir::of(raw::Direction::from_code(a & 3));
        let t = (a >> 2) & 3;
        match raw::Material::from_code((a >> 4) & 3) {
            raw::Material::Absorption => Some(Material::Absorption),
            raw::Material::Inelastic => match raw::Inelastic::from_code(t) {
                Some(k) => Some(
                    Material::Inelastic(
                        match k {
                            raw::Inelastic::Raman => Inelastic::Raman(d),
                            raw::Inelastic::Fluorescence => Inelastic::Fluorescence(d),
                        },
                    ),
                ),
                None => None,
            },
            raw::Material::Elastic => Some(
                Material::Elastic(
                    match raw::Elastic::from_code(t) {
                        raw::Elastic::HenyeyGreenstein => Elastic::HenyeyGreenstein(d),
                        raw::Elastic::Mie => Elastic::Mie(d),
                        raw::Elastic::Rayleigh => Elastic::Rayleigh(d),
                        raw::Elastic::SphericalCdf => Elastic::SphericalCdf(d),
                    },
                ),
            ),
            raw::Material::Custom => None,
        }
    }
}

impl MCRT {
    /// Taxonomy byte of this event.
    pub open spec fn spec_byte(self) -> u8 {
        match self {
            MCRT::Interface(i) => super_byte(
                raw::McrtSuper::Interface.spec_code(),
                i.spec_raw().spec_code(),
            ),
            MCRT::Reflector(r) => super_byte(
                raw::McrtSuper::Reflector.spec_code(),
                r.spec_raw().spec_code(),
            ),
            MCRT::Material(m) => super_byte(raw::McrtSuper::Material.spec_code(), m.spec_sub()),
        }
    }

    /// Event named by a taxonomy byte, or the error for a reserved code.
    pub open spec fn spec_from_byte(b: u8) -> Result<MCRT, DecodeError> {
        let a = b & 0x3F;
        match raw::McrtSuper::spec_from_code(b >> 6) {
            raw::McrtSuper::Interface => match raw::Interface::spec_from_code(a) {
                Some(i) => Ok(MCRT::Interface(Interface::spec_of(i))),
                None => Err(DecodeError::UnknownSubType(b)),
            },
            raw::McrtSuper::Reflector => match raw::Reflect::spec_from_code(a) {
                Some(r) => Ok(MCRT::Reflector(Reflector::spec_of(r))),
                None => Err(DecodeError::UnknownSubType(b)),
            },
            raw::McrtSuper::Material => match Material::spec_from_sub(a) {
                Some(m) => Ok(MCRT::Material(m)),
                None => Err(DecodeError::UnknownSubType(b)),
            },
            raw::McrtSuper::Custom => Err(DecodeError::UnknownSubType(b)),
        }
    }

    /// Taxonomy byte of this event.
    pub fn byte(&self) -> (r: u8)
        ensures
            r == self.spec_byte(),
    {
        match self {
            MCRT::Interface(i) => (raw::McrtSuper::Interface.code() << 6) | i.raw().code(),
            MCRT::Reflector(r) => (raw::McrtSuper::Reflector.code() << 6) | r.raw().code(),
            MCRT::Material(m) => (raw::McrtSuper::Material.code() << 6) | m.sub(),
        }
    }

    /// Event named by a taxonomy byte.
    pub fn from_byte(b: u8) -> (r: Result<MCRT, DecodeError>)
        ensures
            r == Self::spec_from_byte(b),
    {
        let a = b & 0x3F;
        match raw::McrtSuper::from_code(b >> 6) {
            raw::McrtSuper::Interface => match raw::Interface::from_code(a) {
                Some(i) => Ok(MCRT::Interface(Interface::of(i))),
                None => Err(DecodeError::UnknownSubType(b)),
            },
            raw::McrtSuper::Reflector => match raw::Reflect::from_code(a) {
                Some(r) => Ok(MCRT::Reflector(Reflector::of(r))),
                None => Err(DecodeError::UnknownSubType(b)),
            },
            raw::McrtSuper::Material => match Material::from_sub(a) {
                Some(m) => Ok(MCRT::Material(m)),
                None => Err(DecodeError::UnknownSubType(b)),
            },
            raw::McrtSuper::Custom => Err(DecodeError::UnknownSubType(b)),
        }
    }

    /// The taxonomy field of an event word, in place (bits 16..24).
    pub fn encode(&self) -> (r: u32)
        ensures
            r == (self.spec_byte() as u32) << 16,
    {
        (self.byte() as u32) << 16
    }

    /// The MCRT event held in the taxonomy field of an event word.
    pub fn decode(raw: u32) -> (r: Result<MCRT, DecodeError>)
        ensures
            r == Self::spec_from_byte(((raw >> 16) & 0xFF) as u8),
    {
        Self::from_byte(((raw >> 16) & 0xFF) as u8)
    }
}

/// Decoding the taxonomy byte of an MCRT event gives the event back.
pub proof fn lemma_mcrt_byte_round_trip(m: MCRT)
    ensures
        MCRT::spec_from_byte(m.spec_byte()) == Ok::<MCRT, DecodeError>(m),
{
    match m {
        MCRT::Interface(i) => {
            raw::lemma_byte_super(0, i.spec_raw().spec_code());
        },
        MCRT::Reflector(r) => {
            raw::lemma_byte_super(1, r.spec_raw().spec_code());
        },
        MCRT::Material(x) => {
            match x {
                Material::Absorption => {
                    raw::lemma_material_fields(0, 0, 0);
                },
                Material::Inelastic(y) => {
                    raw::lemma_material_fields(
                        1,
                        y.spec_kind().spec_code(),
                        y.spec_dir().spec_raw().spec_code(),
                    );
                },
                Material::Elastic(y) => {
                    raw::lemma_material_fields(
                        2,
                        y.spec_kind().spec_code(),
                        y.spec_dir().spec_raw().spec_code(),
                    );
                },
            }
            raw::lemma_byte_super(2, x.spec_sub());
        },
    }
}

} // verus!
