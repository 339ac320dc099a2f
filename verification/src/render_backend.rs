//! Sizing and capacity of a renderer.
use vstd::prelude::*;

use crate::declarations::TextureFormat;
use crate::renderer::{MAX_MATERIALS, MAX_OBJECTS};

verus! {

/// What a surface texture is used for.
#[derive(Clone, Copy, Debug, PartialEq, Eq, Structural)]
pub enum SurfaceUsage {
    /// It is drawn into.
    RenderAttachment,
}

/// When frames reach the screen.
#[derive(Clone, Copy, Debug, PartialEq, Eq, Structural)]
pub enum PresentMode {
    /// As soon as they are ready.
    AutoNoVsync,
}

/// How a surface is configured. The alpha mode and the color space are left to the platform.
#[derive(Debug)]
pub struct SurfaceConfiguration {
    pub usage: SurfaceUsage,
    pub format: TextureFormat,
    pub width: u32,
    pub height: u32,
    pub present_mode: PresentMode,
    /// Further formats in which the texture is viewed.
    pub view_formats: Vec<TextureFormat>,
    pub desired_maximum_frame_latency: u32,
}

/// View of a [`SurfaceConfiguration`].
#[verifier::ext_equal]
pub struct SurfaceView {
    pub usage: SurfaceUsage,
    pub format: TextureFormat,
    pub width: u32,
    pub height: u32,
    pub present_mode: PresentMode,
    pub view_formats: Seq<TextureFormat>,
    pub desired_maximum_frame_latency: u32,
}

impl View for SurfaceConfiguration {
    type V = SurfaceView;

    open spec fn view(&self) -> SurfaceView {
        SurfaceView {
            usage: self.usage,
            format: self.format,
            width: self.width,
            height: self.height,
            present_mode: self.present_mode,
            view_formats: self.view_formats@,
            desired_maximum_frame_latency: self.desired_maximum_frame_latency,
        }
    }
}

/// A surface that is drawn into, without further formats, two frames ahead at most.
pub open spec fn drawn_surface(format: TextureFormat, width: u32, height: u32) -> SurfaceView {
    SurfaceView {
        usage: SurfaceUsage::RenderAttachment,
        format,
        width,
        height,
        present_mode: PresentMode::AutoNoVsync,
        view_formats: Seq::empty(),
        desired_maximum_frame_latency: 2,
    }
}

/// A surface that is drawn into, without further formats, two frames ahead at most.
pub fn surface_configuration(format: TextureFormat, width: u32, height: u32) -> (c:
    SurfaceConfiguration)
    ensures
        c@ == drawn_surface(format, width, height),
{
    SurfaceConfiguration {
        usage: SurfaceUsage::RenderAttachment,
        format,
        width,
        height,
        present_mode: PresentMode::AutoNoVsync,
        view_formats: Vec::new(),
        desired_maximum_frame_latency: 2,
    }
}

/// Sizing and capacity knobs.
#[derive(Debug)]
pub struct RenderBackendConfig {
    pub surface_config: SurfaceConfiguration,
    /// Samples per pixel of the g-buffer and lighting passes.
    pub sample_count: u32,
    /// Upper bound on instances per frame.
    pub max_objects: u32,
    /// Upper bound on materials per frame.
    pub max_materials: u32,
}

impl Default for RenderBackendConfig {
    /// An 800 by 600 surface, one sample, and the renderer's capacities.
    fn default() -> (config: RenderBackendConfig)
        ensures
            config.surface_config@ == drawn_surface(TextureFormat::Rgba8UnormSrgb, 800, 600),
            config.sample_count == 1,
            config.max_objects == MAX_OBJECTS,
            config.max_materials == MAX_MATERIALS,
    {
        RenderBackendConfig {
            surface_config: surface_configuration(TextureFormat::Rgba8UnormSrgb, 800, 600),
            sample_count: 1,
            max_objects: MAX_OBJECTS,
            max_materials: MAX_MATERIALS,
        }
    }
}

} // verus!
