//! Scene descriptions. Numbers of a description are single-precision bit patterns: nothing here
//! computes with them.
use vstd::prelude::*;

verus! {

/// Bit pattern of a single-precision number.
pub type Bits = u32;

/// One as a single-precision number.
pub const ONE: Bits = 0x3F80_0000;

/// Placement of an entity in world space.
#[derive(Clone, Copy, Debug, PartialEq, Eq)]
pub struct TransformDesc {
    /// Translation in world units.
    pub translation: [Bits; 3],
    /// Orientation as a quaternion in `(x, y, z, w)` order.
    pub rotation: [Bits; 4],
    /// Scale per axis.
    pub scale: [Bits; 3],
}

/// Geometry of an entity, generated at load time.
#[derive(Clone, Copy, Debug, PartialEq, Eq)]
pub enum MeshDesc {
    /// Sphere around the origin of the transform.
    Sphere { radius: Bits, segments: u32, rings: u32 },
}

/// Surface of an entity.
#[derive(Clone, Copy, Debug, PartialEq, Eq)]
pub enum MaterialDesc {
    /// Non-metal with specular reflection.
    Dielectric { base_color: [Bits; 3], roughness: Bits },
    /// Conductor with tinted specular reflection.
    Metal { base_color: [Bits; 3], roughness: Bits },
    /// Base layer below a clear coat.
    Coat { base_color: [Bits; 3], coat_weight: Bits, coat_roughness: Bits },
}

/// A renderable object: its name and its three components.
#[derive(Debug)]
pub struct EntityDesc {
    pub name: String,
    pub transform: TransformDesc,
    pub mesh: MeshDesc,
    pub material: MaterialDesc,
}

/// A light source.
#[derive(Clone, Copy, Debug, PartialEq, Eq)]
pub enum LightDesc {
    /// Light that shines along a fixed direction.
    Directional { direction: [Bits; 3], intensity: Bits, color: [Bits; 3] },
}

/// The viewing camera.
#[derive(Clone, Copy, Debug, PartialEq, Eq)]
pub struct CameraDesc {
    pub position: [Bits; 3],
    pub target: [Bits; 3],
    pub up: [Bits; 3],
    /// Vertical field of view in degrees.
    pub fov: Bits,
    pub near: Bits,
    pub far: Bits,
}

/// A scene: entities, lights, camera and ambient light.
#[derive(Debug)]
pub struct Scene {
    pub name: String,
    pub entities: Vec<EntityDesc>,
    pub lights: Vec<LightDesc>,
    pub camera: CameraDesc,
    pub ambient: [Bits; 3],
}

} // verus!
