//! The renderer's decisions: pipelines, recorded passes, capacities and texture sizes.
//!
//! Everything here is a plain value. Creating GPU objects from the descriptions and recording
//! the passes is left to the caller.
use vstd::prelude::*;
#[allow(unused_imports)]
use vstd::string::*;

use crate::declarations;
use crate::declarations::{Color, TextureFormat};
use crate::frame_wiring;
use crate::frame_wiring::Technique;
use crate::shaders;
use crate::shaders::bloom_generated;
use crate::shaders::buffer_layouts;
use crate::shaders::composite_generated;
use crate::shaders::gbuffer_generated;
use crate::shaders::hdr_composite_generated;
use crate::shaders::lighting_generated;
use crate::shaders::openpbr;
use crate::shaders::pbr_generated;
use crate::shaders::{bgl_entries, BindGroupLayoutEntry};
use crate::system::PassBody;
use crate::transient_pool::format_bytes_per_pixel;

verus! {

/// Instances that a renderer holds.
pub const MAX_OBJECTS: u32 = 256;

/// Materials that a renderer holds.
pub const MAX_MATERIALS: u32 = 64;

/// Formats of the g-buffer: albedo, normal, material, world position, parameters and depth.
pub const GBUFFER_FORMATS: [TextureFormat; 6] = [
    TextureFormat::Rgba8Unorm,
    TextureFormat::Rg16Float,
    TextureFormat::R32Uint,
    TextureFormat::Rg16Float,
    TextureFormat::Rgba16Float,
    TextureFormat::Depth32Float,
];

/// Format of the forward layer and of the bloom levels.
pub const LAYER_FORMAT: TextureFormat = TextureFormat::Rgba16Float;

/// How a pipeline mixes its color into a target.
#[derive(Clone, Copy, Debug, PartialEq, Eq, Structural)]
pub enum Blend {
    /// Blending is off.
    Off,
    /// The new color replaces the old one.
    Replace,
    /// The new color covers the old one by its alpha.
    Alpha,
    /// The new color is added to the old one.
    Add,
}

/// How vertices make triangles.
#[derive(Clone, Copy, Debug, PartialEq, Eq, Structural)]
pub enum Topology {
    TriangleList,
    TriangleStrip,
}

/// A color target of a pipeline.
#[derive(Clone, Copy, Debug, PartialEq, Eq, Structural)]
pub struct ColorTarget {
    pub format: TextureFormat,
    pub blend: Blend,
}

/// What a pipeline draws. Meshes are lists of counter-clockwise triangles seen from their front,
/// tested against and written to a depth buffer where nearer fragments win. Quads are strips
/// without depth.
#[derive(Clone, Copy, Debug, PartialEq, Eq)]
pub struct Geometry {
    /// Vertices come from a mesh, else from the vertex index alone.
    pub mesh: bool,
    pub topology: Topology,
    pub cull_back: bool,
    /// Format of the depth buffer.
    pub depth: Option<TextureFormat>,
    pub samples: u32,
}

/// A pipeline: its shaders, bind group layout, targets and geometry.
#[derive(Debug)]
pub struct PipelineDesc {
    pub label: &'static str,
    pub vertex: String,
    pub vertex_entry: &'static str,
    pub fragment: String,
    pub fragment_entry: &'static str,
    pub entries: Vec<BindGroupLayoutEntry>,
    pub targets: Vec<ColorTarget>,
    pub geometry: Geometry,
}

/// View of a [`PipelineDesc`].
pub struct PipelineView {
    pub label: Seq<char>,
    pub vertex: Seq<char>,
    pub vertex_entry: Seq<char>,
    pub fragment: Seq<char>,
    pub fragment_entry: Seq<char>,
    pub entries: Seq<BindGroupLayoutEntry>,
    pub targets: Seq<ColorTarget>,
    pub geometry: Geometry,
}

impl View for PipelineDesc {
    type V = PipelineView;

    open spec fn view(&self) -> PipelineView {
        PipelineView {
            label: self.label@,
            vertex: self.vertex@,
            vertex_entry: self.vertex_entry@,
            fragment: self.fragment@,
            fragment_entry: self.fragment_entry@,
            entries: self.entries@,
            targets: self.targets@,
            geometry: self.geometry,
        }
    }
}

/// Drawn meshes.
pub open spec fn mesh_geometry(samples: u32) -> Geometry {
    Geometry {
        mesh: true,
        topology: Topology::TriangleList,
        cull_back: true,
        depth: Some(TextureFormat::Depth32Float),
        samples,
    }
}

/// A full-screen quad.
pub open spec fn quad_geometry(samples: u32) -> Geometry {
    Geometry {
        mesh: false,
        topology: Topology::TriangleStrip,
        cull_back: false,
        depth: None,
        samples,
    }
}

/// One target.
pub open spec fn one_target(format: TextureFormat, blend: Blend) -> Seq<ColorTarget> {
    seq![ColorTarget { format, blend }]
}

fn meshes(samples: u32) -> (g: Geometry)
    ensures
        g == mesh_geometry(samples),
{
    Geometry {
        mesh: true,
        topology: Topology::TriangleList,
        cull_back: true,
        depth: Some(TextureFormat::Depth32Float),
        samples,
    }
}

fn quads(samples: u32) -> (g: Geometry)
    ensures
        g == quad_geometry(samples),
{
    Geometry {
        mesh: false,
        topology: Topology::TriangleStrip,
        cull_back: false,
        depth: None,
        samples,
    }
}

fn single(format: TextureFormat, blend: Blend) -> (targets: Vec<ColorTarget>)
    ensures
        targets@ == one_target(format, blend),
{
    let mut targets: Vec<ColorTarget> = Vec::new();
    targets.push(ColorTarget { format, blend });
    targets
}

/// The pipeline that shades meshes straight into a surface.
pub open spec fn pbr_pipeline_of(format: TextureFormat, samples: u32) -> PipelineView {
    PipelineView {
        label: "pbr render pipeline"@,
        vertex: gbuffer_generated::gbuffer_vertex_text(),
        vertex_entry: gbuffer_generated::VERTEX_ENTRY_POINT@,
        fragment: pbr_generated::pbr_text(),
        fragment_entry: pbr_generated::FRAGMENT_ENTRY_POINT@,
        entries: shaders::table_entries(pbr_generated::pbr_rows(), false),
        targets: one_target(format, Blend::Replace),
        geometry: mesh_geometry(samples),
    }
}

/// The pipeline that shades meshes straight into a surface.
pub fn pbr_pipeline(format: TextureFormat, samples: u32) -> (p: PipelineDesc)
    ensures
        p@ == pbr_pipeline_of(format, samples),
{
    PipelineDesc {
        label: "pbr render pipeline",
        vertex: shaders::pbr_vertex(),
        vertex_entry: gbuffer_generated::VERTEX_ENTRY_POINT,
        fragment: shaders::pbr_fragment(),
        fragment_entry: pbr_generated::FRAGMENT_ENTRY_POINT,
        entries: bgl_entries(&pbr_generated::pbr_resources(), false),
        targets: single(format, Blend::Replace),
        geometry: meshes(samples),
    }
}

/// Targets of the g-buffer pipeline. Integers cannot be blended.
pub open spec fn gbuffer_targets() -> Seq<ColorTarget> {
    seq![
        ColorTarget { format: GBUFFER_FORMATS@[0], blend: Blend::Replace },
        ColorTarget { format: GBUFFER_FORMATS@[1], blend: Blend::Replace },
        ColorTarget { format: GBUFFER_FORMATS@[2], blend: Blend::Off },
        ColorTarget { format: GBUFFER_FORMATS@[3], blend: Blend::Replace },
        ColorTarget { format: GBUFFER_FORMATS@[4], blend: Blend::Replace },
    ]
}

/// The pipeline that fills the g-buffer.
pub open spec fn gbuffer_pipeline_of(samples: u32) -> PipelineView {
    PipelineView {
        label: "gbuffer pipeline"@,
        vertex: gbuffer_generated::gbuffer_vertex_text(),
        vertex_entry: gbuffer_generated::VERTEX_ENTRY_POINT@,
        fragment: gbuffer_generated::gbuffer_text(),
        fragment_entry: gbuffer_generated::FRAGMENT_ENTRY_POINT@,
        entries: shaders::table_entries(gbuffer_generated::gbuffer_rows(), false),
        targets: gbuffer_targets(),
        geometry: mesh_geometry(samples),
    }
}

/// The pipeline that fills the g-buffer.
pub fn gbuffer_pipeline(samples: u32) -> (p: PipelineDesc)
    ensures
        p@ == gbuffer_pipeline_of(samples),
{
    let mut targets: Vec<ColorTarget> = Vec::new();
    for i in 0..5usize
        invariant
            targets@ == gbuffer_targets().subrange(0, i as int),
            i <= 5,
    {
        let blend = if i == 2 {
            Blend::Off
        } else {
            Blend::Replace
        };
        targets.push(ColorTarget { format: GBUFFER_FORMATS[i], blend });
        assert(gbuffer_targets().subrange(0, i + 1) == gbuffer_targets().subrange(
            0,
            i as int,
        ).push(gbuffer_targets()[i as int]));
    }
    assert(gbuffer_targets().subrange(0, 5) == gbuffer_targets());
    PipelineDesc {
        label: "gbuffer pipeline",
        vertex: shaders::gbuffer_vertex(),
        vertex_entry: gbuffer_generated::VERTEX_ENTRY_POINT,
        fragment: shaders::gbuffer_fragment(),
        fragment_entry: gbuffer_generated::FRAGMENT_ENTRY_POINT,
        entries: bgl_entries(&gbuffer_generated::gbuffer_resources(), false),
        targets,
        geometry: meshes(samples),
    }
}

/// The pipeline that lights the g-buffer into a layer of the given format. Its texture bindings
/// are multisampled where the g-buffer is.
pub open spec fn lighting_pipeline_of(format: TextureFormat, samples: u32) -> PipelineView {
    PipelineView {
        label: "lighting pipeline"@,
        vertex: lighting_generated::lighting_vertex_text(),
        vertex_entry: lighting_generated::VERTEX_ENTRY_POINT@,
        fragment: lighting_generated::lighting_text(),
        fragment_entry: lighting_generated::FRAGMENT_ENTRY_POINT@,
        entries: shaders::table_entries(lighting_generated::lighting_rows(), samples > 1),
        targets: one_target(format, Blend::Replace),
        geometry: quad_geometry(samples),
    }
}

/// The pipeline that lights the g-buffer into a layer of the given format. Its texture bindings
/// are multisampled where the g-buffer is.
pub fn lighting_pipeline(format: TextureFormat, samples: u32) -> (p: PipelineDesc)
    ensures
        p@ == lighting_pipeline_of(format, samples),
{
    PipelineDesc {
        label: "lighting pipeline",
        vertex: shaders::lighting_vertex(),
        vertex_entry: lighting_generated::VERTEX_ENTRY_POINT,
        fragment: shaders::lighting_fragment(),
        fragment_entry: lighting_generated::FRAGMENT_ENTRY_POINT,
        entries: bgl_entries(&lighting_generated::lighting_resources(), samples > 1),
        targets: single(format, Blend::Replace),
        geometry: quads(samples),
    }
}

/// The pipeline that shades meshes into the forward layer.
pub open spec fn forward_pipeline_of(samples: u32) -> PipelineView {
    PipelineView {
        label: "forward pipeline"@,
        vertex: gbuffer_generated::gbuffer_vertex_text(),
        vertex_entry: gbuffer_generated::VERTEX_ENTRY_POINT@,
        fragment: pbr_generated::pbr_text(),
        fragment_entry: pbr_generated::FRAGMENT_ENTRY_POINT@,
        entries: shaders::table_entries(pbr_generated::pbr_rows(), false),
        targets: one_target(LAYER_FORMAT, Blend::Alpha),
        geometry: mesh_geometry(samples),
    }
}

/// The pipeline that shades meshes into the forward layer.
pub fn forward_pipeline(samples: u32) -> (p: PipelineDesc)
    ensures
        p@ == forward_pipeline_of(samples),
{
    PipelineDesc {
        label: "forward pipeline",
        vertex: shaders::pbr_vertex(),
        vertex_entry: gbuffer_generated::VERTEX_ENTRY_POINT,
        fragment: shaders::pbr_fragment(),
        fragment_entry: pbr_generated::FRAGMENT_ENTRY_POINT,
        entries: bgl_entries(&pbr_generated::pbr_resources(), false),
        targets: single(LAYER_FORMAT, Blend::Alpha),
        geometry: meshes(samples),
    }
}

/// The pipeline that mixes the layers into the output.
pub open spec fn composite_pipeline_of(format: TextureFormat) -> PipelineView {
    PipelineView {
        label: "composite pipeline"@,
        vertex: hdr_composite_generated::hdr_vertex_text(),
        vertex_entry: hdr_composite_generated::VERTEX_ENTRY_POINT@,
        fragment: hdr_composite_generated::hdr_text(),
        fragment_entry: hdr_composite_generated::FRAGMENT_ENTRY_POINT@,
        entries: shaders::table_entries(hdr_composite_generated::hdr_rows(), false),
        targets: one_target(format, Blend::Replace),
        geometry: quad_geometry(1),
    }
}

/// The pipeline that mixes the layers into the output.
pub fn composite_pipeline(format: TextureFormat) -> (p: PipelineDesc)
    ensures
        p@ == composite_pipeline_of(format),
{
    PipelineDesc {
        label: "composite pipeline",
        vertex: shaders::composite_vertex(),
        vertex_entry: hdr_composite_generated::VERTEX_ENTRY_POINT,
        fragment: shaders::composite_fragment(),
        fragment_entry: hdr_composite_generated::FRAGMENT_ENTRY_POINT,
        entries: bgl_entries(&hdr_composite_generated::hdr_resources(), false),
        targets: single(format, Blend::Replace),
        geometry: quads(1),
    }
}

/// A pipeline of the bloom chain: down it replaces a cleared level, up it adds to a loaded one.
pub open spec fn bloom_pipeline_of(up: bool) -> PipelineView {
    PipelineView {
        label: "bloom pipeline"@,
        vertex: bloom_generated::bloom_text(),
        vertex_entry: bloom_generated::VERTEX_ENTRY_POINT@,
        fragment: bloom_generated::bloom_text(),
        fragment_entry: bloom_generated::FRAGMENT_ENTRY_POINT@,
        entries: shaders::table_entries(bloom_generated::bloom_rows(), false),
        targets: one_target(
            LAYER_FORMAT,
            if up {
                Blend::Add
            } else {
                Blend::Off
            },
        ),
        geometry: quad_geometry(1),
    }
}

/// A pipeline of the bloom chain: down it replaces a cleared level, up it adds to a loaded one.
pub fn bloom_pipeline(up: bool) -> (p: PipelineDesc)
    ensures
        p@ == bloom_pipeline_of(up),
{
    let blend = if up {
        Blend::Add
    } else {
        Blend::Off
    };
    PipelineDesc {
        label: "bloom pipeline",
        vertex: shaders::bloom_fragment(),
        vertex_entry: bloom_generated::VERTEX_ENTRY_POINT,
        fragment: shaders::bloom_fragment(),
        fragment_entry: bloom_generated::FRAGMENT_ENTRY_POINT,
        entries: bgl_entries(&bloom_generated::bloom_resources(), false),
        targets: single(LAYER_FORMAT, blend),
        geometry: quads(1),
    }
}

/// The pipeline that mixes the user interface over the lit image.
pub open spec fn ui_pipeline_of(format: TextureFormat) -> PipelineView {
    PipelineView {
        label: "composite pipeline"@,
        vertex: composite_generated::composite_text(),
        vertex_entry: composite_generated::SHORT_VERTEX_ENTRY_POINT@,
        fragment: composite_generated::composite_text(),
        fragment_entry: composite_generated::SHORT_FRAGMENT_ENTRY_POINT@,
        entries: shaders::table_entries(composite_generated::composite_rows(), false),
        targets: one_target(format, Blend::Replace),
        geometry: quad_geometry(1),
    }
}

/// The pipeline that mixes the user interface over the lit image.
pub fn ui_pipeline(format: TextureFormat) -> (p: PipelineDesc)
    ensures
        p@ == ui_pipeline_of(format),
{
    PipelineDesc {
        label: "composite pipeline",
        vertex: composite_generated::wgsl_source(),
        vertex_entry: composite_generated::SHORT_VERTEX_ENTRY_POINT,
        fragment: composite_generated::wgsl_source(),
        fragment_entry: composite_generated::SHORT_FRAGMENT_ENTRY_POINT,
        entries: bgl_entries(&composite_generated::composite_resources(), false),
        targets: single(format, Blend::Replace),
        geometry: quads(1),
    }
}

/// What a pass finds in an attachment.
#[derive(Clone, Copy, Debug, PartialEq, Eq, Structural)]
pub enum Load {
    /// The attachment is cleared first.
    Clear(Color),
    /// The attachment keeps its contents.
    Keep,
}

/// What a pass draws.
#[derive(Clone, Copy, Debug, PartialEq, Eq, Structural)]
pub enum Draw {
    /// The indexed mesh, once per instance.
    Mesh,
    /// Four vertices of a full-screen quad, once.
    Quad,
}

/// A recorded pass: how its attachments start and what it draws. Everything drawn is stored.
#[derive(Debug)]
pub struct PassDesc {
    pub label: &'static str,
    pub colors: Vec<Load>,
    /// The depth attachment. Clearing it sets the farthest depth, the red channel of the color.
    pub depth: Option<Load>,
    pub draw: Draw,
}

/// View of a [`PassDesc`].
#[verifier::ext_equal]
pub struct PassView {
    pub label: Seq<char>,
    pub colors: Seq<Load>,
    pub depth: Option<Load>,
    pub draw: Draw,
}

impl View for PassDesc {
    type V = PassView;

    open spec fn view(&self) -> PassView {
        PassView {
            label: self.label@,
            colors: self.colors@,
            depth: self.depth,
            draw: self.draw,
        }
    }
}

/// What is recorded for a pass of the frame.
pub open spec fn recorded(body: PassBody) -> PassView {
    match body {
        PassBody::Gbuffer => PassView {
            label: "gbuffer pass"@,
            colors: Seq::new(5, |i: int| Load::Clear(declarations::transparent())),
            depth: Some(Load::Clear(declarations::white())),
            draw: Draw::Mesh,
        },
        PassBody::Lighting => PassView {
            label: "lighting pass"@,
            colors: seq![Load::Clear(declarations::black())],
            depth: None,
            draw: Draw::Quad,
        },
        PassBody::Forward { owns_depth } => PassView {
            label: "forward pass"@,
            colors: seq![Load::Clear(declarations::transparent())],
            depth: Some(
                if owns_depth {
                    Load::Clear(declarations::white())
                } else {
                    Load::Keep
                },
            ),
            draw: Draw::Mesh,
        },
        PassBody::BloomUp => PassView {
            label: "bloom up pass"@,
            colors: seq![Load::Keep],
            depth: None,
            draw: Draw::Quad,
        },
        PassBody::Composite { .. } => PassView {
            label: "composite pass"@,
            colors: seq![Load::Clear(declarations::black())],
            depth: None,
            draw: Draw::Quad,
        },
        _ => PassView {
            label: "bloom down pass"@,
            colors: seq![Load::Clear(declarations::black())],
            depth: None,
            draw: Draw::Quad,
        },
    }
}

/// What is recorded for a pass of the frame.
pub fn pass_desc(body: PassBody) -> (p: PassDesc)
    ensures
        p@ == recorded(body),
{
    let mut colors: Vec<Load> = Vec::new();
    match body {
        PassBody::Gbuffer => {
            for i in 0..5usize
                invariant
                    i <= 5,
                    colors@ == Seq::new(
                        i as nat,
                        |k: int| Load::Clear(declarations::transparent()),
                    ),
            {
                colors.push(Load::Clear(Color::transparent()));
            }
            PassDesc {
                label: "gbuffer pass",
                colors,
                depth: Some(Load::Clear(Color::white())),
                draw: Draw::Mesh,
            }
        },
        PassBody::Lighting => {
            colors.push(Load::Clear(Color::black()));
            PassDesc { label: "lighting pass", colors, depth: None, draw: Draw::Quad }
        },
        PassBody::Forward { owns_depth } => {
            colors.push(Load::Clear(Color::transparent()));
            let depth = if owns_depth {
                Load::Clear(Color::white())
            } else {
                Load::Keep
            };
            PassDesc { label: "forward pass", colors, depth: Some(depth), draw: Draw::Mesh }
        },
        PassBody::BloomUp => {
            colors.push(Load::Keep);
            PassDesc { label: "bloom up pass", colors, depth: None, draw: Draw::Quad }
        },
        PassBody::Composite { .. } => {
            colors.push(Load::Clear(Color::black()));
            PassDesc { label: "composite pass", colors, depth: None, draw: Draw::Quad }
        },
        _ => {
            colors.push(Load::Clear(Color::black()));
            PassDesc { label: "bloom down pass", colors, depth: None, draw: Draw::Quad }
        },
    }
}

/// The pipeline that a pass of the frame draws with.
pub open spec fn pipeline_of(body: PassBody, format: TextureFormat, samples: u32) -> PipelineView {
    match body {
        PassBody::Gbuffer => gbuffer_pipeline_of(samples),
        PassBody::Lighting => lighting_pipeline_of(format, samples),
        PassBody::Forward { .. } => forward_pipeline_of(samples),
        PassBody::BloomUp => bloom_pipeline_of(true),
        PassBody::Composite { .. } => composite_pipeline_of(format),
        _ => bloom_pipeline_of(false),
    }
}

/// Targets of the pipeline that a pass of the frame draws with.
pub open spec fn targets_of(body: PassBody, format: TextureFormat) -> Seq<ColorTarget> {
    match body {
        PassBody::Gbuffer => gbuffer_targets(),
        PassBody::Lighting => one_target(format, Blend::Replace),
        PassBody::Forward { .. } => one_target(LAYER_FORMAT, Blend::Alpha),
        PassBody::BloomUp => one_target(LAYER_FORMAT, Blend::Add),
        PassBody::Composite { .. } => one_target(format, Blend::Replace),
        _ => one_target(LAYER_FORMAT, Blend::Off),
    }
}

/// Depth format of the pipeline that a pass of the frame draws with.
pub open spec fn depth_of(body: PassBody) -> Option<TextureFormat> {
    match body {
        PassBody::Gbuffer => Some(TextureFormat::Depth32Float),
        PassBody::Forward { .. } => Some(TextureFormat::Depth32Float),
        _ => None,
    }
}

#[verifier::spinoff_prover]
proof fn lemma_pipeline_parts(body: PassBody, format: TextureFormat, samples: u32)
    ensures
        pipeline_of(body, format, samples).targets == targets_of(body, format),
        pipeline_of(body, format, samples).geometry.depth == depth_of(body),
{
}

/// The pipeline that a pass of the frame draws with.
#[verifier::spinoff_prover]
pub fn pipeline_for(body: PassBody, format: TextureFormat, samples: u32) -> (p: PipelineDesc)
    ensures
        p@ == pipeline_of(body, format, samples),
        p@.targets == targets_of(body, format),
        p@.geometry.depth == depth_of(body),
{
    proof {
        lemma_pipeline_parts(body, format, samples);
    }
    match body {
        PassBody::Gbuffer => gbuffer_pipeline(samples),
        PassBody::Lighting => lighting_pipeline(format, samples),
        PassBody::Forward { .. } => forward_pipeline(samples),
        PassBody::BloomUp => bloom_pipeline(true),
        PassBody::Composite { .. } => composite_pipeline(format),
        _ => bloom_pipeline(false),
    }
}

/// Passes of a frame on the renderer's own textures: the hybrid frame without bloom.
pub fn scene_passes() -> (bodies: Vec<PassBody>)
    ensures
        bodies@.len() == frame_wiring::frame_bodies(Technique::Hybrid, false).len(),
        forall|i: int|
            0 <= i < bodies@.len() ==> frame_wiring::frame_bodies(Technique::Hybrid, false)[i]
                == Some(#[trigger] bodies@[i]),
{
    let mut bodies: Vec<PassBody> = Vec::new();
    bodies.push(PassBody::Gbuffer);
    bodies.push(PassBody::Lighting);
    bodies.push(PassBody::Forward { owns_depth: false });
    bodies.push(PassBody::Composite { shader_mode: Technique::Hybrid.composite_mode(), bloom: false });
    bodies
}

/// The lesser of a count and a capacity.
pub open spec fn capped(count: nat, capacity: nat) -> nat {
    if count < capacity {
        count
    } else {
        capacity
    }
}

/// Materials that fit the material buffer. Those behind them are dropped.
pub fn material_count(count: usize) -> (n: usize)
    ensures
        n as nat == capped(count as nat, MAX_MATERIALS as nat),
{
    if count < MAX_MATERIALS as usize {
        count
    } else {
        MAX_MATERIALS as usize
    }
}

/// Instances that fit the instance buffer. Those behind them are dropped.
pub fn instance_count(count: usize) -> (n: usize)
    ensures
        n as nat == capped(count as nat, MAX_OBJECTS as nat),
{
    if count < MAX_OBJECTS as usize {
        count
    } else {
        MAX_OBJECTS as usize
    }
}

/// Lights that fit the lighting block. Those behind them are dropped.
pub fn light_count(count: usize) -> (n: u32)
    ensures
        n as nat == capped(count as nat, buffer_layouts::MAX_LIGHTS as nat),
{
    if count < buffer_layouts::MAX_LIGHTS as usize {
        count as u32
    } else {
        buffer_layouts::MAX_LIGHTS
    }
}

/// Bytes of the instance buffer.
pub fn instance_buffer_size() -> (bytes: u64)
    ensures
        bytes as nat == buffer_layouts::span_of(buffer_layouts::PER_OBJECT@) * MAX_OBJECTS,
{
    proof {
        buffer_layouts::lemma_span_bound(buffer_layouts::PER_OBJECT@);
    }
    let layout = buffer_layouts::struct_layout(&buffer_layouts::PER_OBJECT);
    assert(layout.1 * MAX_OBJECTS <= u32::MAX * 256) by (nonlinear_arith)
        requires
            layout.1 <= u32::MAX,
            MAX_OBJECTS == 256,
    ;
    (layout.1 as u64) * (MAX_OBJECTS as u64)
}

/// Bytes of the material buffer.
pub fn material_buffer_size() -> (bytes: u64)
    ensures
        bytes as nat == openpbr::OPENPBR_MATERIAL_SIZE * MAX_MATERIALS,
{
    (openpbr::OPENPBR_MATERIAL_SIZE as u64) * (MAX_MATERIALS as u64)
}

/// Size and format of what a renderer draws.
#[derive(Debug)]
pub struct RendererState {
    width: u32,
    height: u32,
    samples: u32,
    format: TextureFormat,
}

/// View of a [`RendererState`].
pub struct RendererView {
    pub width: u32,
    pub height: u32,
    pub samples: u32,
    pub format: TextureFormat,
}

impl View for RendererState {
    type V = RendererView;

    closed spec fn view(&self) -> RendererView {
        RendererView {
            width: self.width,
            height: self.height,
            samples: self.samples,
            format: self.format,
        }
    }
}

/// An extent of at least one pixel.
pub open spec fn at_least_one(n: u32) -> u32 {
    if n == 0 {
        1
    } else {
        n
    }
}

fn positive(n: u32) -> (m: u32)
    ensures
        m == at_least_one(n),
{
    if n == 0 {
        1
    } else {
        n
    }
}

/// A texture to create: two-dimensional, drawn into and sampled.
#[derive(Clone, Copy, Debug, PartialEq, Eq)]
pub struct TextureDesc {
    pub label: &'static str,
    pub format: TextureFormat,
    pub width: u32,
    pub height: u32,
    pub samples: u32,
}

impl TextureDesc {
    /// Bytes of the texture.
    pub open spec fn size(self) -> nat {
        self.format.bytes() * (self.width as nat * self.height as nat * self.samples as nat)
    }
}

/// Bytes of the first `n` textures.
pub open spec fn total_size(textures: Seq<TextureDesc>, n: int) -> nat
    decreases n,
{
    if n <= 0 {
        0
    } else {
        total_size(textures, n - 1) + textures[n - 1].size()
    }
}

impl RendererView {
    /// A texture of the output's size.
    pub open spec fn texture(self, label: &'static str, format: TextureFormat) -> TextureDesc {
        TextureDesc {
            label,
            format,
            width: self.width,
            height: self.height,
            samples: self.samples,
        }
    }

    /// The persistent textures: the g-buffer, the lit image and the forward layer.
    pub open spec fn textures(self) -> Seq<TextureDesc> {
        seq![
            self.texture("gbuffer albedo", GBUFFER_FORMATS@[0]),
            self.texture("gbuffer normal", GBUFFER_FORMATS@[1]),
            self.texture("gbuffer material_id", GBUFFER_FORMATS@[2]),
            self.texture("gbuffer world_position", GBUFFER_FORMATS@[3]),
            self.texture("gbuffer material_params", GBUFFER_FORMATS@[4]),
            self.texture("gbuffer depth", GBUFFER_FORMATS@[5]),
            self.texture("pbr render target", self.format),
            self.texture("forward color target", LAYER_FORMAT),
        ]
    }

    /// Bytes of one sample of one pixel over all persistent textures: the g-buffer, the lit image
    /// and the forward layer.
    pub open spec fn sample_bytes(self) -> nat {
        GBUFFER_FORMATS@[0].bytes() + GBUFFER_FORMATS@[1].bytes() + GBUFFER_FORMATS@[2].bytes()
            + GBUFFER_FORMATS@[3].bytes() + GBUFFER_FORMATS@[4].bytes()
            + GBUFFER_FORMATS@[5].bytes() + self.format.bytes() + LAYER_FORMAT.bytes()
    }

    /// Bytes of the persistent textures.
    pub open spec fn texture_size(self) -> nat {
        self.sample_bytes() * (self.width as nat * self.height as nat * self.samples as nat)
    }
}

impl RendererState {
    /// A renderer for an output of the given size. Extents of zero count as one pixel.
    pub fn new(width: u32, height: u32, format: TextureFormat, samples: u32) -> (r: RendererState)
        ensures
            r@ == (RendererView {
                width: at_least_one(width),
                height: at_least_one(height),
                samples,
                format,
            }),
    {
        RendererState { width: positive(width), height: positive(height), samples, format }
    }

    /// Sets the output size. Extents of zero count as one pixel.
    pub fn resize(&mut self, width: u32, height: u32)
        ensures
            final(self)@ == (RendererView {
                width: at_least_one(width),
                height: at_least_one(height),
                ..old(self)@
            }),
    {
        self.width = positive(width);
        self.height = positive(height);
    }

    /// Width and height of the output.
    pub fn size(&self) -> (size: (u32, u32))
        ensures
            size == (self@.width, self@.height),
    {
        (self.width, self.height)
    }

    /// Samples per pixel.
    pub fn samples(&self) -> (samples: u32)
        ensures
            samples == self@.samples,
    {
        self.samples
    }

    /// Format of the output.
    pub fn format(&self) -> (format: TextureFormat)
        ensures
            format == self@.format,
    {
        self.format
    }

    fn texture(&self, label: &'static str, format: TextureFormat) -> (t: TextureDesc)
        ensures
            t == self@.texture(label, format),
    {
        TextureDesc {
            label,
            format,
            width: self.width,
            height: self.height,
            samples: self.samples,
        }
    }

    /// The persistent textures: the g-buffer, the lit image and the forward layer.
    pub fn persistent_textures(&self) -> (textures: Vec<TextureDesc>)
        ensures
            textures@ == self@.textures(),
    {
        vec![
            self.texture("gbuffer albedo", GBUFFER_FORMATS[0]),
            self.texture("gbuffer normal", GBUFFER_FORMATS[1]),
            self.texture("gbuffer material_id", GBUFFER_FORMATS[2]),
            self.texture("gbuffer world_position", GBUFFER_FORMATS[3]),
            self.texture("gbuffer material_params", GBUFFER_FORMATS[4]),
            self.texture("gbuffer depth", GBUFFER_FORMATS[5]),
            self.texture("pbr render target", self.format),
            self.texture("forward color target", LAYER_FORMAT),
        ]
    }

    /// Bytes of the persistent textures: the g-buffer, the lit image and the forward layer.
    pub fn texture_budget(&self) -> (bytes: u64)
        requires
            self@.texture_size() <= u64::MAX,
        ensures
            bytes as nat == self@.texture_size(),
    {
        let mut sample: u64 = 0;
        sample = sample + format_bytes_per_pixel(GBUFFER_FORMATS[0]) as u64;
        sample = sample + format_bytes_per_pixel(GBUFFER_FORMATS[1]) as u64;
        sample = sample + format_bytes_per_pixel(GBUFFER_FORMATS[2]) as u64;
        sample = sample + format_bytes_per_pixel(GBUFFER_FORMATS[3]) as u64;
        sample = sample + format_bytes_per_pixel(GBUFFER_FORMATS[4]) as u64;
        sample = sample + format_bytes_per_pixel(GBUFFER_FORMATS[5]) as u64;
        sample = sample + format_bytes_per_pixel(self.format) as u64;
        sample = sample + format_bytes_per_pixel(LAYER_FORMAT) as u64;
        assert(sample as nat == self@.sample_bytes());
        let ghost area = self.width as int * self.height as int;
        let ghost pixels = area * self.samples as int;
        proof {
            assert(0 <= area <= u64::MAX) by (nonlinear_arith)
                requires
                    area == self.width as int * self.height as int,
                    self.width <= u32::MAX,
                    self.height <= u32::MAX,
            ;
            assert(0 <= pixels <= sample * pixels) by (nonlinear_arith)
                requires
                    pixels == area * self.samples as int,
                    0 <= area,
                    sample >= 1,
            ;
        }
        let area: u64 = (self.width as u64) * (self.height as u64);
        let pixels: u64 = area * (self.samples as u64);
        sample * pixels
    }
}

} // verus!
