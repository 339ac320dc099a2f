//! What every recorded pass is bound to: shader inputs by binding number, color targets, depth
//! buffer and bloom parameters.
use vstd::prelude::*;

use crate::declarations::{Color, ResourceId};
use crate::scene::{Bits, ONE};
use crate::system::PassBody;

verus! {

/// What a shader input is bound to.
#[derive(Clone, Copy, Debug, PartialEq, Eq)]
pub enum Bound {
    /// The camera buffer.
    Camera,
    /// The instance buffer.
    Instances,
    /// The material buffer.
    Materials,
    /// The lighting buffer.
    Lighting,
    /// The buffer of the bloom and composite parameters.
    BloomParams,
    /// The sampler of the pass.
    Sampler,
    /// A texture of the frame.
    View(ResourceId),
}

/// Inputs and attachments of a recorded pass.
#[derive(Debug)]
pub struct PassInputs {
    /// Shader inputs; the position is the binding number.
    pub bound: Vec<Bound>,
    /// Color attachments, in target order.
    pub colors: Vec<ResourceId>,
    /// Depth attachment.
    pub depth: Option<ResourceId>,
}

/// Composite layers by position among the declared reads: deferred, forward and bloom. A layer
/// that the technique does not produce is bound to one that it does, with no effect.
pub open spec fn composite_layers(shader_mode: u32, bloom: bool) -> (int, int, int) {
    let forward: int = if shader_mode == 2 {
        1
    } else {
        0
    };
    (
        0,
        forward,
        if bloom {
            forward + 1
        } else {
            forward
        },
    )
}

/// The pass declares what it is bound to: enough reads and writes for its body.
pub open spec fn declares(body: PassBody, reads: nat, writes: nat) -> bool {
    match body {
        PassBody::Gbuffer => writes == 6,
        PassBody::Lighting => reads == 6 && writes == 1,
        PassBody::Forward { owns_depth } => if owns_depth {
            writes == 2
        } else {
            reads == 1 && writes == 1
        },
        PassBody::Composite { shader_mode, bloom } => reads == composite_layers(
            shader_mode,
            bloom,
        ).2 + 1 && writes == 1,
        _ => reads == 1 && writes == 1,
    }
}

/// Whether a pass with so many reads and writes declares what its body is bound to.
pub fn can_bind(body: PassBody, reads: usize, writes: usize) -> (yes: bool)
    ensures
        yes == declares(body, reads as nat, writes as nat),
{
    match body {
        PassBody::Gbuffer => writes == 6,
        PassBody::Lighting => reads == 6 && writes == 1,
        PassBody::Forward { owns_depth } => if owns_depth {
            writes == 2
        } else {
            reads == 1 && writes == 1
        },
        PassBody::Composite { shader_mode, bloom } => {
            let layers: usize = if shader_mode == 2 {
                2
            } else {
                1
            };
            let needed: usize = if bloom {
                layers + 1
            } else {
                layers
            };
            reads == needed && writes == 1
        },
        _ => reads == 1 && writes == 1,
    }
}

/// Shader inputs of a pass, by binding number.
pub open spec fn bound_of(body: PassBody, reads: Seq<ResourceId>) -> Seq<Bound> {
    match body {
        PassBody::Gbuffer => seq![Bound::Camera, Bound::Instances, Bound::Materials],
        PassBody::Lighting => seq![
            Bound::Camera,
            Bound::Lighting,
            Bound::Materials,
            Bound::View(reads[0]),
            Bound::View(reads[1]),
            Bound::View(reads[2]),
            Bound::View(reads[3]),
            Bound::View(reads[4]),
            Bound::View(reads[5]),
            Bound::Sampler,
        ],
        PassBody::Forward { .. } => seq![
            Bound::Camera,
            Bound::Instances,
            Bound::Materials,
            Bound::Lighting,
        ],
        PassBody::Composite { shader_mode, bloom } => {
            let layers = composite_layers(shader_mode, bloom);
            seq![
                Bound::View(reads[layers.0]),
                Bound::View(reads[layers.1]),
                Bound::Sampler,
                Bound::View(reads[layers.2]),
                Bound::BloomParams,
            ]
        },
        _ => seq![Bound::View(reads[0]), Bound::Sampler, Bound::BloomParams],
    }
}

/// Color attachments of a pass, in target order.
pub open spec fn colors_of(body: PassBody, writes: Seq<(ResourceId, Option<Color>)>) -> Seq<
    ResourceId,
> {
    match body {
        PassBody::Gbuffer => seq![
            writes[0].0,
            writes[1].0,
            writes[2].0,
            writes[3].0,
            writes[4].0,
        ],
        PassBody::Forward { owns_depth } => if owns_depth {
            seq![writes[1].0]
        } else {
            seq![writes[0].0]
        },
        _ => seq![writes[0].0],
    }
}

/// Depth attachment of a pass.
pub open spec fn depth_of(
    body: PassBody,
    reads: Seq<ResourceId>,
    writes: Seq<(ResourceId, Option<Color>)>,
) -> Option<ResourceId> {
    match body {
        PassBody::Gbuffer => Some(writes[5].0),
        PassBody::Forward { owns_depth } => if owns_depth {
            Some(writes[0].0)
        } else {
            Some(reads[0])
        },
        _ => None,
    }
}

/// Inputs and attachments of a pass, from what it declares.
pub fn pass_inputs(
    body: PassBody,
    reads: &Vec<ResourceId>,
    writes: &Vec<(ResourceId, Option<Color>)>,
) -> (inputs: PassInputs)
    requires
        declares(body, reads@.len(), writes@.len()),
    ensures
        inputs.bound@ == bound_of(body, reads@),
        inputs.colors@ == colors_of(body, writes@),
        inputs.depth == depth_of(body, reads@, writes@),
{
    match body {
        PassBody::Gbuffer => PassInputs {
            bound: vec![Bound::Camera, Bound::Instances, Bound::Materials],
            colors: vec![writes[0].0, writes[1].0, writes[2].0, writes[3].0, writes[4].0],
            depth: Some(writes[5].0),
        },
        PassBody::Lighting => PassInputs {
            bound: vec![
                Bound::Camera,
                Bound::Lighting,
                Bound::Materials,
                Bound::View(reads[0]),
                Bound::View(reads[1]),
                Bound::View(reads[2]),
                Bound::View(reads[3]),
                Bound::View(reads[4]),
                Bound::View(reads[5]),
                Bound::Sampler,
            ],
            colors: vec![writes[0].0],
            depth: None,
        },
        PassBody::Forward { owns_depth } => PassInputs {
            bound: vec![Bound::Camera, Bound::Instances, Bound::Materials, Bound::Lighting],
            colors: vec![if owns_depth { writes[1].0 } else { writes[0].0 }],
            depth: Some(if owns_depth { writes[0].0 } else { reads[0] }),
        },
        PassBody::Composite { shader_mode, bloom } => {
            let forward: usize = if shader_mode == 2 {
                1
            } else {
                0
            };
            let glow: usize = if bloom {
                forward + 1
            } else {
                forward
            };
            PassInputs {
                bound: vec![
                    Bound::View(reads[0]),
                    Bound::View(reads[forward]),
                    Bound::Sampler,
                    Bound::View(reads[glow]),
                    Bound::BloomParams,
                ],
                colors: vec![writes[0].0],
                depth: None,
            }
        },
        _ => PassInputs {
            bound: vec![Bound::View(reads[0]), Bound::Sampler, Bound::BloomParams],
            colors: vec![writes[0].0],
            depth: None,
        },
    }
}

/// Shader inputs of a pass on the renderer's own textures. There the composite pass, which runs
/// without bloom, has the lit image in place of the bloom layer.
pub open spec fn scene_bound_of(body: PassBody, reads: Seq<ResourceId>) -> Seq<Bound> {
    match body {
        PassBody::Composite { .. } => bound_of(body, reads).update(3, Bound::View(reads[0])),
        _ => bound_of(body, reads),
    }
}

/// Inputs and attachments of a pass on the renderer's own textures.
pub fn scene_inputs(
    body: PassBody,
    reads: &Vec<ResourceId>,
    writes: &Vec<(ResourceId, Option<Color>)>,
) -> (inputs: PassInputs)
    requires
        declares(body, reads@.len(), writes@.len()),
    ensures
        inputs.bound@ == scene_bound_of(body, reads@),
        inputs.colors@ == colors_of(body, writes@),
        inputs.depth == depth_of(body, reads@, writes@),
{
    let mut inputs = pass_inputs(body, reads, writes);
    if let PassBody::Composite { .. } = body {
        inputs.bound.set(3, Bound::View(reads[0]));
    }
    inputs
}

/// Luminance above which a pixel feeds the bloom chain: 0.7 in single precision.
pub const BLOOM_BRIGHT_THRESHOLD: Bits = 0x3F33_3333;

/// Parameters of the bloom and composite passes.
#[derive(Clone, Copy, Debug, PartialEq, Eq, Structural)]
pub struct BloomUniform {
    /// Gate of the bright pass.
    pub threshold: Bits,
    /// Weight of the bloom chain in the composite pass.
    pub intensity: Bits,
    /// Layer mix of the composite pass.
    pub mode: u32,
}

/// Parameters that a pass writes before it is recorded. The passes that add a level back use the
/// ones at hand.
pub open spec fn params_of(body: PassBody) -> Option<BloomUniform> {
    match body {
        PassBody::BloomBright { .. } => Some(
            BloomUniform { threshold: BLOOM_BRIGHT_THRESHOLD, intensity: 0, mode: 0 },
        ),
        PassBody::BloomDown => Some(BloomUniform { threshold: 0, intensity: 0, mode: 0 }),
        PassBody::Composite { shader_mode, bloom } => Some(
            BloomUniform {
                threshold: 0,
                intensity: if bloom {
                    ONE
                } else {
                    0
                },
                mode: shader_mode,
            },
        ),
        _ => None,
    }
}

/// Parameters that a pass writes before it is recorded.
pub fn bloom_params(body: PassBody) -> (params: Option<BloomUniform>)
    ensures
        params == params_of(body),
{
    match body {
        PassBody::BloomBright { .. } => Some(
            BloomUniform { threshold: BLOOM_BRIGHT_THRESHOLD, intensity: 0, mode: 0 },
        ),
        PassBody::BloomDown => Some(BloomUniform { threshold: 0, intensity: 0, mode: 0 }),
        PassBody::Composite { shader_mode, bloom } => Some(
            BloomUniform {
                threshold: 0,
                intensity: if bloom {
                    ONE
                } else {
                    0
                },
                mode: shader_mode,
            },
        ),
        _ => None,
    }
}

impl Default for BloomUniform {
    /// Parameters of a new renderer.
    fn default() -> (params: BloomUniform)
        ensures
            params == (BloomUniform { threshold: 0, intensity: ONE, mode: 0 }),
    {
        BloomUniform { threshold: 0, intensity: ONE, mode: 0 }
    }
}

} // verus!
