//! Bit layout of a 32-bit event word.
//!
//! From most to least significant bit: bits 24..28 hold the pipeline code,
//! bits 16..24 hold the pipeline-specific taxonomy byte and bits 0..16 hold
//! the numeric source identifier. For the MCRT pipeline the taxonomy byte is
//! split further: bits 6..8 of the byte select the super-type, the remaining
//! six bits are the super-type specific sub-type. A material sub-type uses
//! bits 4..6 for the interaction kind, bits 2..4 for the scattering model and
//! bits 0..2 for the scattering direction.
use vstd::prelude::*;

verus! {

/// Mask of the pipeline field within an event word.
pub const PIPELINE_MASK: u32 = 0x0F00_0000;

/// Position of the pipeline field within an event word.
pub const PIPELINE_SHIFT: u32 = 24;

/// Mask of the taxonomy byte within an event word.
pub const TAXONOMY_MASK: u32 = 0x00FF_0000;

/// Position of the taxonomy byte within an event word.
pub const TAXONOMY_SHIFT: u32 = 16;

/// Mask of the MCRT super-type within an event word.
pub const MCRT_SUPER_MASK: u32 = 0x00C0_0000;

/// Mask of the interface or reflector sub-type within an event word.
pub const MCRT_SUB_MASK: u32 = 0x003F_0000;

/// Mask of the material interaction kind within an event word.
pub const MATERIAL_MASK: u32 = 0x0030_0000;

/// Mask of the scattering model within an event word.
pub const SCATTER_MASK: u32 = 0x000C_0000;

/// Mask of the scattering direction within an event word.
pub const DIRECTION_MASK: u32 = 0x0003_0000;

/// Mask of the source identifier within an event word.
pub const SRC_MASK: u32 = 0x0000_FFFF;

/// Error raised when a bit pattern does not name a known taxonomy entry.
#[derive(Clone, Copy, Debug, PartialEq, Eq, Structural)]
pub enum DecodeError {
    /// The pipeline code is outside the known set.
    UnknownPipeline(u8),
    /// The pipeline is known but has no event taxonomy.
    UnsupportedPipeline(u8),
    /// A taxonomy byte holds a reserved or unknown sub-type code.
    UnknownSubType(u8),
}

/// Top-level stage that produced an event.
#[derive(Clone, Copy, Debug, PartialEq, Eq, Structural)]
pub enum Pipeline {
    Emission,
    Mcrt,
    Detection,
    Processing,
}

impl Pipeline {
    pub open spec fn spec_code(self) -> u8 {
        match self {
            Pipeline::Emission => 1,
            Pipeline::Mcrt => 3,
            Pipeline::Detection => 5,
            Pipeline::Processing => 7,
        }
    }

    pub open spec fn spec_from_code(c: u8) -> Result<Pipeline, DecodeError> {
        if c == 1 {
            Ok(Pipeline::Emission)
        } else if c == 3 {
            Ok(Pipeline::Mcrt)
        } else if c == 5 {
            Ok(Pipeline::Detection)
        } else if c == 7 {
            Ok(Pipeline::Processing)
        } else {
            Err(DecodeError::UnknownPipeline(c))
        }
    }

    /// The 4-bit pipeline code.
    pub fn code(self) -> (r: u8)
        ensures
            r == self.spec_code(),
            r < 16,
    {
        match self {
            Pipeline::Emission => 1,
            Pipeline::Mcrt => 3,
            Pipeline::Detection => 5,
            Pipeline::Processing => 7,
        }
    }

    /// Pipeline named by a 4-bit code; other codes are free for custom stages
    /// and are rejected here.
    pub fn try_from(c: u8) -> (r: Result<Pipeline, DecodeError>)
        ensures
            r == Self::spec_from_code(c),
    {
        if c == 1 {
            Ok(Pipeline::Emission)
        } else if c == 3 {
            Ok(Pipeline::Mcrt)
        } else if c == 5 {
            Ok(Pipeline::Detection)
        } else if c == 7 {
            Ok(Pipeline::Processing)
        } else {
            Err(DecodeError::UnknownPipeline(c))
        }
    }

    /// The pipeline field of an event word, in place.
    pub fn encode(self) -> (r: u32)
        ensures
            r == (self.spec_code() as u32) << 24,
    {
        (self.code() as u32) << 24
    }

    /// The pipeline of an event word.
    pub fn decode(raw: u32) -> (r: Result<Pipeline, DecodeError>)
        ensures
            r == Self::spec_from_code(((raw >> 24) & 0xF) as u8),
    {
        Self::try_from(((raw >> 24) & 0xF) as u8)
    }
}

/// Identifier of a material.
#[derive(Clone, Copy, Debug, PartialEq, Eq, Structural)]
pub struct MatId(pub u16);

impl MatId {
    pub fn new(id: u16) -> (r: Self)
        ensures
            r.0 == id,
    {
        MatId(id)
    }

    pub fn id(&self) -> (r: u16)
        ensures
            r == self.0,
    {
        self.0
    }
}

/// Identifier of a surface.
#[derive(Clone, Copy, Debug, PartialEq, Eq, Structural)]
pub struct SurfId(pub u16);

impl SurfId {
    pub fn new(id: u16) -> (r: Self)
        ensures
            r.0 == id,
    {
        SurfId(id)
    }

    pub fn id(&self) -> (r: u16)
        ensures
            r == self.0,
    {
        self.0
    }
}

/// MCRT super-type (2 bits).
#[derive(Clone, Copy, Debug, PartialEq, Eq, Structural)]
pub enum McrtSuper {
    Interface,
    Reflector,
    Material,
    Custom,
}

impl McrtSuper {
    pub open spec fn spec_code(self) -> u8 {
        match self {
            McrtSuper::Interface => 0,
            McrtSuper::Reflector => 1,
            McrtSuper::Material => 2,
            McrtSuper::Custom => 3,
        }
    }

    pub open spec fn spec_from_code(c: u8) -> McrtSuper {
        if c == 0 {
            McrtSuper::Interface
        } else if c == 1 {
            McrtSuper::Reflector
        } else if c == 2 {
            McrtSuper::Material
        } else {
            McrtSuper::Custom
        }
    }

    pub fn code(self) -> (r: u8)
        ensures
            r == self.spec_code(),
            r < 4,
    {
        match self {
            McrtSuper::Interface => 0,
            McrtSuper::Reflector => 1,
            McrtSuper::Material => 2,
            McrtSuper::Custom => 3,
        }
    }

    /// Super-type of a 2-bit code.
    pub fn from_code(c: u8) -> (r: McrtSuper)
        ensures
            r == Self::spec_from_code(c),
    {
        if c == 0 {
            McrtSuper::Interface
        } else if c == 1 {
            McrtSuper::Reflector
        } else if c == 2 {
            McrtSuper::Material
        } else {
            McrtSuper::Custom
        }
    }
}

/// Interface sub-type code (6 bits); codes not listed are reserved.
#[derive(Clone, Copy, Debug, PartialEq, Eq, Structural)]
pub enum Interface {
    Reflection,
    Refraction,
    ReEmittance,
}

impl Interface {
    pub open spec fn spec_code(self) -> u8 {
        match self {
            Interface::Reflection => 0,
            Interface::Refraction => 1,
            Interface::ReEmittance => 4,
        }
    }

    pub open spec fn spec_from_code(c: u8) -> Option<Interface> {
        if c == 0 {
            Some(Interface::Reflection)
        } else if c == 1 {
            Some(Interface::Refraction)
        } else if c == 4 {
            Some(Interface::ReEmittance)
        } else {
            None
        }
    }

    pub fn code(self) -> (r: u8)
        ensures
            r == self.spec_code(),
            r < 64,
    {
        match self {
            Interface::Reflection => 0,
            Interface::Refraction => 1,
            Interface::ReEmittance => 4,
        }
    }

    pub fn from_code(c: u8) -> (r: Option<Interface>)
        ensures
            r == Self::spec_from_code(c),
    {
        if c == 0 {
            Some(Interface::Reflection)
        } else if c == 1 {
            Some(Interface::Refraction)
        } else if c == 4 {
            Some(Interface::ReEmittance)
        } else {
            None
        }
    }
}

/// Reflector sub-type code (6 bits); codes not listed are reserved.
#[derive(Clone, Copy, Debug, PartialEq, Eq, Structural)]
pub enum Reflect {
    Diffuse,
    Specular,
    Composite,
    RetroReflective,
    CompRetroRef,
}

impl Reflect {
    pub open spec fn spec_code(self) -> u8 {
        match self {
            Reflect::Diffuse => 2,
            Reflect::Specular => 4,
            Reflect::Composite => 6,
            Reflect::RetroReflective => 8,
            Reflect::CompRetroRef => 9,
        }
    }

    pub open spec fn spec_from_code(c: u8) -> Option<Reflect> {
        if c == 2 {
            Some(Reflect::Diffuse)
        } else if c == 4 {
            Some(Reflect::Specular)
        } else if c == 6 {
            Some(Reflect::Composite)
        } else if c == 8 {
            Some(Reflect::RetroReflective)
        } else if c == 9 {
            Some(Reflect::CompRetroRef)
        } else {
            None
        }
    }

    pub fn code(self) -> (r: u8)
        ensures
            r == self.spec_code(),
            r < 64,
    {
        match self {
            Reflect::Diffuse => 2,
            Reflect::Specular => 4,
            Reflect::Composite => 6,
            Reflect::RetroReflective => 8,
            Reflect::CompRetroRef => 9,
        }
    }

    pub fn from_code(c: u8) -> (r: Option<Reflect>)
        ensures
            r == Self::spec_from_code(c),
    {
        if c == 2 {
            Some(Reflect::Diffuse)
        } else if c == 4 {
            Some(Reflect::Specular)
        } else if c == 6 {
            Some(Reflect::Composite)
        } else if c == 8 {
            Some(Reflect::RetroReflective)
        } else if c == 9 {
            Some(Reflect::CompRetroRef)
        } else {
            None
        }
    }
}

/// Material interaction kind (2 bits).
#[derive(Clone, Copy, Debug, PartialEq, Eq, Structural)]
pub enum Material {
    Absorption,
    Inelastic,
    Elastic,
    Custom,
}

impl Material {
    pub open spec fn spec_code(self) -> u8 {
        match self {
            Material::Absorption => 0,
            Material::Inelastic => 1,
            Material::Elastic => 2,
            Material::Custom => 3,
        }
    }

    pub open spec fn spec_from_code(c: u8) -> Material {
        if c == 0 {
            Material::Absorption
        } else if c == 1 {
            Material::Inelastic
        } else if c == 2 {
            Material::Elastic
        } else {
            Material::Custom
        }
    }

    pub fn code(self) -> (r: u8)
        ensures
            r == self.spec_code(),
            r < 4,
    {
        match self {
            Material::Absorption => 0,
            Material::Inelastic => 1,
            Material::Elastic => 2,
            Material::Custom => 3,
        }
    }

    pub fn from_code(c: u8) -> (r: Material)
        ensures
            r == Self::spec_from_code(c),
    {
        if c == 0 {
            Material::Absorption
        } else if c == 1 {
            Material::Inelastic
        } else if c == 2 {
            Material::Elastic
        } else {
            Material::Custom
        }
    }
}

/// Inelastic scattering model (2 bits); codes 2 and 3 are reserved.
#[derive(Clone, Copy, Debug, PartialEq, Eq, Structural)]
pub enum Inelastic {
    Raman,
    Fluorescence,
}

impl Inelastic {
    pub open spec fn spec_code(self) -> u8 {
        match self {
            Inelastic::Raman => 0,
            Inelastic::Fluorescence => 1,
        }
    }

    pub open spec fn spec_from_code(c: u8) -> Option<Inelastic> {
        if c == 0 {
            Some(Inelastic::Raman)
        } else if c == 1 {
            Some(Inelastic::Fluorescence)
        } else {
            None
        }
    }

    pub fn code(self) -> (r: u8)
        ensures
            r == self.spec_code(),
            r < 4,
    {
        match self {
            Inelastic::Raman => 0,
            Inelastic::Fluorescence => 1,
        }
    }

    pub fn from_code(c: u8) -> (r: Option<Inelastic>)
        ensures
            r == Self::spec_from_code(c),
    {
        if c == 0 {
            Some(Inelastic::Raman)
        } else if c == 1 {
            Some(Inelastic::Fluorescence)
        } else {
            None
        }
    }
}

/// Elastic scattering model (2 bits).
#[derive(Clone, Copy, Debug, PartialEq, Eq, Structural)]
pub enum Elastic {
    HenyeyGreenstein,
    Mie,
    Rayleigh,
    SphericalCdf,
}

impl Elastic {
    pub open spec fn spec_code(self) -> u8 {
        match self {
            Elastic::HenyeyGreenstein => 0,
            Elastic::Mie => 1,
            Elastic::Rayleigh => 2,
            Elastic::SphericalCdf => 3,
        }
    }

    pub open spec fn spec_from_code(c: u8) -> Elastic {
        if c == 0 {
            Elastic::HenyeyGreenstein
        } else if c == 1 {
            Elastic::Mie
        } else if c == 2 {
            Elastic::Rayleigh
        } else {
            Elastic::SphericalCdf
        }
    }

    pub fn code(self) -> (r: u8)
        ensures
            r == self.spec_code(),
            r < 4,
    {
        match self {
            Elastic::HenyeyGreenstein => 0,
            Elastic::Mie => 1,
            Elastic::Rayleigh => 2,
            Elastic::SphericalCdf => 3,
        }
    }

    pub fn from_code(c: u8) -> (r: Elastic)
        ensures
            r == Self::spec_from_code(c),
    {
        if c == 0 {
            Elastic::HenyeyGreenstein
        } else if c == 1 {
            Elastic::Mie
        } else if c == 2 {
            Elastic::Rayleigh
        } else {
            Elastic::SphericalCdf
        }
    }
}

/// Scattering direction (2 bits).
#[derive(Clone, Copy, Debug, PartialEq, Eq, Structural)]
pub enum Direction {
    Any,
    Forward,
    Side,
    Backward,
}

impl Direction {
    pub open spec fn spec_code(self) -> u8 {
        match self {
            Direction::Any => 0,
            Direction::Forward => 1,
            Direction::Side => 2,
            Direction::Backward => 3,
        }
    }

    pub open spec fn spec_from_code(c: u8) -> Direction {
        if c == 0 {
            Direction::Any
        } else if c == 1 {
            Direction::Forward
        } else if c == 2 {
            Direction::Side
        } else {
            Direction::Backward
        }
    }

    pub fn code(self) -> (r: u8)
        ensures
            r == self.spec_code(),
            r < 4,
    {
        match self {
            Direction::Any => 0,
            Direction::Forward => 1,
            Direction::Side => 2,
            Direction::Backward => 3,
        }
    }

    pub fn from_code(c: u8) -> (r: Direction)
        ensures
            r == Self::spec_from_code(c),
    {
        if c == 0 {
            Direction::Any
        } else if c == 1 {
            Direction::Forward
        } else if c == 2 {
            Direction::Side
        } else {
            Direction::Backward
        }
    }
}

/// Splitting an event word into pipeline code, taxonomy byte and source id.
pub proof fn lemma_word_fields(p: u32, b: u32, s: u32)
    requires
        p < 16,
        b < 256,
        s < 65536,
    ensures
        ((((p << 24) | (b << 16)) | s) >> 24) & 0xF == p,
        ((((p << 24) | (b << 16)) | s) >> 16) & 0xFF == b,
        (((p << 24) | (b << 16)) | s) & 0xFFFF == s,
{
    assert(((((p << 24) | (b << 16)) | s) >> 24) & 0xF == p) by (bit_vector)
        requires
            p < 16,
            b < 256,
            s < 65536,
    ;
    assert(((((p << 24) | (b << 16)) | s) >> 16) & 0xFF == b) by (bit_vector)
        requires
            p < 16,
            b < 256,
            s < 65536,
    ;
    assert((((p << 24) | (b << 16)) | s) & 0xFFFF == s) by (bit_vector)
        requires
            p < 16,
            b < 256,
            s < 65536,
    ;
}

/// Splitting an MCRT taxonomy byte into super-type and six-bit sub-type.
pub proof fn lemma_byte_super(s: u8, a: u8)
    requires
        s < 4,
        a < 64,
    ensures
        ((s << 6) | a) >> 6 == s,
        ((s << 6) | a) & 0x3F == a,
{
    assert(((s << 6) | a) >> 6 == s) by (bit_vector)
        requires
            s < 4,
            a < 64,
    ;
    assert(((s << 6) | a) & 0x3F == a) by (bit_vector)
        requires
            s < 4,
            a < 64,
    ;
}

/// Splitting a material sub-type into kind, model and direction.
pub proof fn lemma_material_fields(k: u8, t: u8, d: u8)
    requires
        k < 4,
        t < 4,
        d < 4,
    ensures
        (((k << 4) | (t << 2)) | d) < 64,
        ((((k << 4) | (t << 2)) | d) >> 4) & 3 == k,
        ((((k << 4) | (t << 2)) | d) >> 2) & 3 == t,
        (((k << 4) | (t << 2)) | d) & 3 == d,
{
    assert((((k << 4) | (t << 2)) | d) < 64) by (bit_vector)
        requires
            k < 4,
            t < 4,
            d < 4,
    ;
    assert(((((k << 4) | (t << 2)) | d) >> 4) & 3 == k) by (bit_vector)
        requires
            k < 4,
            t < 4,
            d < 4,
    ;
    assert(((((k << 4) | (t << 2)) | d) >> 2) & 3 == t) by (bit_vector)
        requires
            k < 4,
            t < 4,
            d < 4,
    ;
    assert((((k << 4) | (t << 2)) | d) & 3 == d) by (bit_vector)
        requires
            k < 4,
            t < 4,
            d < 4,
    ;
}

} // verus!
