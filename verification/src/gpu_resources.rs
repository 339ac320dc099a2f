//! Frame decisions of the scheduled renderer: when a mesh is made anew, what an acquired surface
//! leads to, and the handover of recorded commands.
use vstd::prelude::*;
#[allow(unused_imports)]
use vstd::string::*;

use crate::declarations::TextureFormat;
use crate::extraction;
use crate::extraction::extract_render_data;
use crate::render_backend;
use crate::render_backend::SurfaceConfiguration;
use crate::renderer;
use crate::schedule_bridge;
use crate::schedule_bridge::{PassSystem, PassSystemView, Schedule};
use crate::store::RenderStore;

verus! {

/// Size and format of the surface.
#[derive(Clone, Copy, Debug, PartialEq, Eq)]
pub struct GpuSurfaceState {
    pub size: (u32, u32),
    pub format: TextureFormat,
}

/// The tessellation to make a mesh with: the wanted one, unless the mesh has it already.
pub fn mesh_to_create(cached: (u32, u32), wanted: (u32, u32)) -> (params: Option<(u32, u32)>)
    ensures
        params == if cached == wanted {
            None
        } else {
            Some(wanted)
        },
{
    if cached.0 == wanted.0 && cached.1 == wanted.1 {
        None
    } else {
        Some(wanted)
    }
}

/// What asking the surface for a texture gave.
#[derive(Clone, Copy, Debug, PartialEq, Eq, Structural)]
pub enum Acquired {
    Success,
    Suboptimal,
    Outdated,
    Lost,
    Occluded,
    Timeout,
    Validation,
}

/// Which of the resources that presenting needs are installed.
#[derive(Clone, Copy, Debug, PartialEq, Eq, Structural)]
pub struct PresentResources {
    pub device: bool,
    pub queue: bool,
    pub surface_state: bool,
    pub surface: bool,
    pub store: bool,
    pub frame_state: bool,
    pub mesh: bool,
    pub command_buffers: bool,
    pub present_target: bool,
}

impl PresentResources {
    /// All of them are.
    pub open spec fn complete(self) -> bool {
        self.device && self.queue && self.surface_state && self.surface && self.store
            && self.frame_state && self.mesh && self.command_buffers && self.present_target
    }

    /// Whether all of them are. Presenting starts only then.
    pub fn is_complete(&self) -> (yes: bool)
        ensures
            yes == self.complete(),
    {
        self.device && self.queue && self.surface_state && self.surface && self.store
            && self.frame_state && self.mesh && self.command_buffers && self.present_target
    }
}

/// What to do with an acquired surface.
#[derive(Debug)]
pub enum PresentAction {
    /// Record the frame with so many instances and hand it over.
    Record { instance_count: u32 },
    /// Configure the surface anew and skip the frame.
    Reconfigure(SurfaceConfiguration),
    /// Skip the frame.
    Skip,
}

/// The frame is recorded.
pub open spec fn records(acquired: Acquired) -> bool {
    acquired == Acquired::Success || acquired == Acquired::Suboptimal
}

/// The surface is configured anew.
pub open spec fn reconfigures(acquired: Acquired) -> bool {
    acquired == Acquired::Outdated || acquired == Acquired::Lost
}

/// Decides what to do with an acquired surface: a texture is recorded into, also a suboptimal
/// one; an outdated or lost surface is configured anew with its last size, at least one pixel,
/// and format; else the frame is skipped.
pub fn present_action(acquired: Acquired, state: GpuSurfaceState, store: &RenderStore) -> (action:
    PresentAction)
    requires
        store.wf(),
        extraction::indexes_fit(store@),
    ensures
        records(acquired) ==> (action matches PresentAction::Record { instance_count }
            && instance_count == extraction::extraction(store@).instances.len()),
        reconfigures(acquired) ==> (action matches PresentAction::Reconfigure(config) && config@
            == render_backend::drawn_surface(
            state.format,
            renderer::at_least_one(state.size.0),
            renderer::at_least_one(state.size.1),
        )),
        !records(acquired) && !reconfigures(acquired) ==> action is Skip,
{
    match acquired {
        Acquired::Success | Acquired::Suboptimal => {
            let extracted = extract_render_data(store);
            proof {
                extraction::lemma_materials_pair_up(store@, store@.transforms.len() as int);
            }
            PresentAction::Record { instance_count: extracted.instances.len() as u32 }
        },
        Acquired::Outdated | Acquired::Lost => {
            let width: u32 = if state.size.0 == 0 {
                1
            } else {
                state.size.0
            };
            let height: u32 = if state.size.1 == 0 {
                1
            } else {
                state.size.1
            };
            PresentAction::Reconfigure(
                render_backend::surface_configuration(state.format, width, height),
            )
        },
        _ => PresentAction::Skip,
    }
}

/// Every outcome of asking for a texture leads to one action: with a texture the frame is recorded,
/// also where the surface no longer fits exactly; a surface that is gone or no longer fits at all
/// is configured anew; and where nothing is wrong with the surface but no texture came, neither.
pub proof fn every_outcome_leads_to_one_action(acquired: Acquired)
    ensures
        !(records(acquired) && reconfigures(acquired)),
        match acquired {
            Acquired::Success | Acquired::Suboptimal => records(acquired),
            Acquired::Outdated | Acquired::Lost => reconfigures(acquired),
            Acquired::Occluded | Acquired::Timeout | Acquired::Validation => !records(acquired)
                && !reconfigures(acquired),
        },
{
}

/// A surface that is configured anew keeps its format and its size, with extents of zero raised to one
/// pixel.
pub proof fn surfaces_keep_their_size(state: GpuSurfaceState)
    ensures
        ({
            let config = render_backend::drawn_surface(
                state.format,
                renderer::at_least_one(state.size.0),
                renderer::at_least_one(state.size.1),
            );
            &&& config.format == state.format
            &&& config.width >= 1 && config.height >= 1
            &&& state.size.0 >= 1 ==> config.width == state.size.0
            &&& state.size.1 >= 1 ==> config.height == state.size.1
            &&& state.size.0 == 0 ==> config.width == 1
            &&& state.size.1 == 0 ==> config.height == 1
        }),
{
}

/// Recorded commands of a frame that wait for their submission, in the order of recording.
#[derive(Debug)]
pub struct FrameCommandBuffers<B> {
    buffers: Vec<B>,
}

impl<B> View for FrameCommandBuffers<B> {
    type V = Seq<B>;

    closed spec fn view(&self) -> Seq<B> {
        self.buffers@
    }
}

impl<B> FrameCommandBuffers<B> {
    /// Nothing recorded.
    pub fn new() -> (b: FrameCommandBuffers<B>)
        ensures
            b@ == Seq::<B>::empty(),
    {
        FrameCommandBuffers { buffers: Vec::new() }
    }

    /// Number of waiting commands.
    pub fn len(&self) -> (n: usize)
        ensures
            n == self@.len(),
    {
        self.buffers.len()
    }

    /// Adds recorded commands.
    pub fn push(&mut self, buffer: B)
        ensures
            final(self)@ == old(self)@.push(buffer),
    {
        self.buffers.push(buffer);
    }

    /// Takes all waiting commands, in the order of recording, and leaves none.
    pub fn flush(&mut self) -> (out: Vec<B>)
        ensures
            out@ == old(self)@,
            final(self)@ == Seq::<B>::empty(),
    {
        let mut out: Vec<B> = Vec::new();
        out.append(&mut self.buffers);
        assert(out@ =~= old(self)@);
        out
    }
}

/// The acquired surface texture of a frame, on its way from recording to presentation.
#[derive(Debug)]
pub struct FramePresentTarget<F> {
    frame: Option<F>,
}

impl<F> View for FramePresentTarget<F> {
    type V = Option<F>;

    closed spec fn view(&self) -> Option<F> {
        self.frame
    }
}

impl<F> FramePresentTarget<F> {
    /// No texture.
    pub fn new() -> (t: FramePresentTarget<F>)
        ensures
            t@ == None::<F>,
    {
        FramePresentTarget { frame: None }
    }

    /// Hands a texture over. One that still waits is dropped.
    pub fn put(&mut self, frame: F)
        ensures
            final(self)@ == Some(frame),
    {
        self.frame = Some(frame);
    }

    /// Takes the texture, where one waits.
    pub fn take(&mut self) -> (frame: Option<F>)
        ensures
            frame == old(self)@,
            final(self)@ == None::<F>,
    {
        self.frame.take()
    }
}

/// Ends a frame: what to submit, in order, and then what to present. Nothing waits afterwards.
pub fn flush_frame<B, F>(
    buffers: &mut FrameCommandBuffers<B>,
    target: &mut FramePresentTarget<F>,
) -> (out: (Vec<B>, Option<F>))
    ensures
        out.0@ == old(buffers)@,
        out.1 == old(target)@,
        final(buffers)@ == Seq::<B>::empty(),
        final(target)@ == None::<F>,
{
    let frame = target.take();
    let submitted = buffers.flush();
    (submitted, frame)
}

/// The component store.
pub const STORE: u32 = 0;

/// The placement lane.
pub const TRANSFORM_LANE: u32 = 1;

/// The geometry lane.
pub const MESH_LANE: u32 = 2;

/// The surface lane.
pub const MATERIAL_LANE: u32 = 3;

/// The device.
pub const DEVICE: u32 = 4;

/// The queue.
pub const QUEUE: u32 = 5;

/// The surface.
pub const SURFACE: u32 = 6;

/// Size and format of the surface.
pub const SURFACE_STATE: u32 = 7;

/// The renderer and its frame.
pub const FRAME_STATE: u32 = 8;

/// The mesh with its tessellation.
pub const FRAME_MESH: u32 = 9;

/// The recorded commands.
pub const COMMAND_BUFFERS: u32 = 10;

/// The acquired texture.
pub const PRESENT_TARGET: u32 = 11;

/// The camera.
pub const ORBIT_CAMERA: u32 = 12;

/// The lights.
pub const RENDER_LIGHTS: u32 = 13;

/// Resources that `render_mesh` reads.
pub const RENDER_MESH_READS: [u32; 5] = [STORE, TRANSFORM_LANE, MESH_LANE, MATERIAL_LANE, DEVICE];

/// Resources that `render_mesh` writes.
pub const RENDER_MESH_WRITES: [u32; 1] = [FRAME_MESH];

/// Resources that `render_submit` reads.
pub const RENDER_SUBMIT_READS: [u32; 9] = [
    STORE,
    TRANSFORM_LANE,
    MESH_LANE,
    MATERIAL_LANE,
    ORBIT_CAMERA,
    RENDER_LIGHTS,
    DEVICE,
    QUEUE,
    SURFACE_STATE,
];

/// Resources that `render_submit` writes.
pub const RENDER_SUBMIT_WRITES: [u32; 1] = [FRAME_STATE];

/// Resources that `render_present` reads.
pub const RENDER_PRESENT_READS: [u32; 9] = [
    DEVICE,
    QUEUE,
    SURFACE,
    SURFACE_STATE,
    STORE,
    TRANSFORM_LANE,
    MESH_LANE,
    MATERIAL_LANE,
    FRAME_MESH,
];

/// Resources that `render_present` writes.
pub const RENDER_PRESENT_WRITES: [u32; 3] = [FRAME_STATE, COMMAND_BUFFERS, PRESENT_TARGET];

/// Resources that `render_flush` reads.
pub const RENDER_FLUSH_READS: [u32; 1] = [QUEUE];

/// Resources that `render_flush` writes.
pub const RENDER_FLUSH_WRITES: [u32; 2] = [COMMAND_BUFFERS, PRESENT_TARGET];

/// The systems of a rendered frame, in registration order.
pub open spec fn frame_system_views() -> Seq<PassSystemView> {
    seq![
        PassSystemView {
            name: "render_mesh"@,
            reads: RENDER_MESH_READS@,
            writes: RENDER_MESH_WRITES@,
        },
        PassSystemView {
            name: "render_submit"@,
            reads: RENDER_SUBMIT_READS@,
            writes: RENDER_SUBMIT_WRITES@,
        },
        PassSystemView {
            name: "render_present"@,
            reads: RENDER_PRESENT_READS@,
            writes: RENDER_PRESENT_WRITES@,
        },
        PassSystemView {
            name: "render_flush"@,
            reads: RENDER_FLUSH_READS@,
            writes: RENDER_FLUSH_WRITES@,
        },
    ]
}

fn copied(keys: &[u32]) -> (out: Vec<u32>)
    ensures
        out@ == keys@,
{
    let mut out: Vec<u32> = Vec::new();
    for i in 0..keys.len()
        invariant
            out@ == keys@.subrange(0, i as int),
    {
        out.push(keys[i]);
        assert(keys@.subrange(0, i + 1) == keys@.subrange(0, i as int).push(keys@[i as int]));
    }
    assert(keys@.subrange(0, keys@.len() as int) == keys@);
    out
}

fn system(name: &str, reads: &[u32], writes: &[u32]) -> (s: PassSystem)
    ensures
        s@ == (PassSystemView { name: name@, reads: reads@, writes: writes@ }),
{
    PassSystem { name: name.to_owned(), reads: copied(reads), writes: copied(writes) }
}

/// The systems of a rendered frame: the mesh and the uploads first, then recording, then
/// submission and presentation. The order follows from what they access.
pub fn frame_systems() -> (schedule: Schedule)
    ensures
        schedule.systems@.len() == 4,
        forall|i: int|
            0 <= i < 4 ==> (#[trigger] schedule.systems@[i])@ == frame_system_views()[i],
        schedule.edges@.len() == 0,
{
    let mut systems: Vec<PassSystem> = Vec::new();
    systems.push(system("render_mesh", &RENDER_MESH_READS, &RENDER_MESH_WRITES));
    systems.push(system("render_submit", &RENDER_SUBMIT_READS, &RENDER_SUBMIT_WRITES));
    systems.push(system("render_present", &RENDER_PRESENT_READS, &RENDER_PRESENT_WRITES));
    systems.push(system("render_flush", &RENDER_FLUSH_READS, &RENDER_FLUSH_WRITES));
    Schedule { systems, edges: Vec::new() }
}

/// Every system declares what it works on: the three that draw read the store and its lanes; the uploads
/// read camera, lights and queue; presenting declares all that it needs; submission declares the
/// recorded commands, the acquired texture and the queue.
pub proof fn systems_declare_what_they_work_on(i: int, lane: u32)
    requires
        0 <= i < 3,
        lane == STORE || lane == TRANSFORM_LANE || lane == MESH_LANE || lane == MATERIAL_LANE,
    ensures
        ({
            let v = frame_system_views();
            &&& v[i].reads.contains(lane)
            &&& v[0].reads.contains(DEVICE) && v[0].writes.contains(FRAME_MESH)
            &&& v[1].reads.contains(ORBIT_CAMERA) && v[1].reads.contains(RENDER_LIGHTS)
            &&& v[1].reads.contains(DEVICE) && v[1].reads.contains(QUEUE)
            &&& v[1].reads.contains(SURFACE_STATE) && v[1].writes.contains(FRAME_STATE)
            &&& v[2].reads.contains(DEVICE) && v[2].reads.contains(QUEUE)
            &&& v[2].reads.contains(SURFACE) && v[2].reads.contains(SURFACE_STATE)
            &&& v[2].reads.contains(FRAME_MESH) && v[2].writes.contains(FRAME_STATE)
            &&& v[2].writes.contains(COMMAND_BUFFERS) && v[2].writes.contains(PRESENT_TARGET)
            &&& v[3].reads.contains(QUEUE) && v[3].writes.contains(COMMAND_BUFFERS)
            &&& v[3].writes.contains(PRESENT_TARGET)
        }),
{
    let v = frame_system_views();
    assert(v[0].reads[0] == STORE && v[0].reads[1] == TRANSFORM_LANE && v[0].reads[2] == MESH_LANE
        && v[0].reads[3] == MATERIAL_LANE && v[0].reads[4] == DEVICE);
    assert(v[0].writes[0] == FRAME_MESH);
    assert(v[1].reads[0] == STORE && v[1].reads[1] == TRANSFORM_LANE && v[1].reads[2] == MESH_LANE
        && v[1].reads[3] == MATERIAL_LANE && v[1].reads[4] == ORBIT_CAMERA && v[1].reads[5]
        == RENDER_LIGHTS && v[1].reads[6] == DEVICE && v[1].reads[7] == QUEUE && v[1].reads[8]
        == SURFACE_STATE);
    assert(v[1].writes[0] == FRAME_STATE);
    assert(v[2].reads[0] == DEVICE && v[2].reads[1] == QUEUE && v[2].reads[2] == SURFACE
        && v[2].reads[3] == SURFACE_STATE && v[2].reads[4] == STORE && v[2].reads[5]
        == TRANSFORM_LANE && v[2].reads[6] == MESH_LANE && v[2].reads[7] == MATERIAL_LANE
        && v[2].reads[8] == FRAME_MESH);
    assert(v[2].writes[0] == FRAME_STATE && v[2].writes[1] == COMMAND_BUFFERS && v[2].writes[2]
        == PRESENT_TARGET);
    assert(v[3].reads[0] == QUEUE);
    assert(v[3].writes[0] == COMMAND_BUFFERS && v[3].writes[1] == PRESENT_TARGET);
    assert(i == 0 || i == 1 || i == 2);
}

/// What the systems access puts them in order: recording comes after the mesh and after the
/// uploads, submission after recording, and the mesh and the uploads may run side by side.
pub proof fn recording_comes_between_uploads_and_submission(schedule: Schedule)
    requires
        schedule.systems@.len() == 4,
        forall|i: int|
            0 <= i < 4 ==> (#[trigger] schedule.systems@[i])@ == frame_system_views()[i],
        schedule.edges@.len() == 0,
    ensures
        schedule.dependencies().depends(0, 2),
        schedule.dependencies().depends(1, 2),
        schedule.dependencies().depends(2, 3),
        !schedule.dependencies().depends(0, 1),
{
    let v = frame_system_views();
    assert(schedule.systems@[0]@ == v[0]);
    assert(schedule.systems@[1]@ == v[1]);
    assert(schedule.systems@[2]@ == v[2]);
    assert(schedule.systems@[3]@ == v[3]);
    assert(v[0].writes[0] == FRAME_MESH && v[2].reads[8] == FRAME_MESH);
    assert(v[1].writes[0] == FRAME_STATE && v[2].writes[0] == FRAME_STATE);
    assert(v[2].writes[1] == COMMAND_BUFFERS && v[3].writes[0] == COMMAND_BUFFERS);
    assert(v[0].writes.contains(FRAME_MESH) && v[2].reads.contains(FRAME_MESH));
    assert(v[1].writes.contains(FRAME_STATE) && v[2].writes.contains(FRAME_STATE));
    assert(v[2].writes.contains(COMMAND_BUFFERS) && v[3].writes.contains(COMMAND_BUFFERS));
    assert(schedule_bridge::type_conflict_on(v[0], v[2], FRAME_MESH));
    assert(schedule_bridge::type_conflict_on(v[1], v[2], FRAME_STATE));
    assert(schedule_bridge::type_conflict_on(v[2], v[3], COMMAND_BUFFERS));
    assert forall|key: u32| !#[trigger] schedule_bridge::type_conflict_on(v[0], v[1], key) by {
        assert(v[0].writes.contains(key) ==> key == FRAME_MESH);
        assert(v[1].writes.contains(key) ==> key == FRAME_STATE);
    }
}

} // verus!
