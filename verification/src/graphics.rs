//! The decisions of the surface manager and of the frame renderer.
//!
//! The device, the surface and the depth buffer live with the shell. This
//! module holds what they are configured with, and says for each tick
//! what is to be done with them.

use vstd::prelude::*;
use crate::linear::ONE;

verus! {

/// Frames the presentation engine may queue.
pub const FRAME_LATENCY: u32 = 2;

/// Bit pattern, in double precision, of the red of the background: `0.19`.
pub const CLEAR_RED: u64 = 0x3FC8_51EB_851E_B852;

/// Bit pattern, in double precision, of the green of the background: `0.24`.
pub const CLEAR_GREEN: u64 = 0x3FCE_B851_EB85_1EB8;

/// Bit pattern, in double precision, of the blue of the background: `0.42`.
pub const CLEAR_BLUE: u64 = 0x3FDA_E147_AE14_7AE1;

/// Bit pattern, in double precision, of the alpha of the background: `1.0`.
pub const CLEAR_ALPHA: u64 = 0x3FF0_0000_0000_0000;

/// What the surface is configured with. Formats, present modes and alpha
/// modes are named by their place in the lists the surface supports.
#[derive(Clone, Copy, Debug, PartialEq, Eq)]
pub struct SurfaceConfiguration {
    pub format: usize,
    pub width: u32,
    pub height: u32,
    pub present_mode: usize,
    pub alpha_mode: usize,
    pub desired_maximum_frame_latency: u32,
}

/// A depth buffer: one layer, one mip level, one sample, 32-bit float
/// depth, usable as a render target and for sampling.
#[derive(Clone, Copy, Debug, PartialEq, Eq)]
pub struct DepthTexture {
    pub width: u32,
    pub height: u32,
    pub depth_or_array_layers: u32,
    pub mip_level_count: u32,
    pub sample_count: u32,
    pub render_attachment: bool,
    pub texture_binding: bool,
}

/// What the surface manager owns, as far as its decisions go.
#[derive(Clone, Copy, Debug, PartialEq, Eq)]
pub struct Graphics {
    pub surface_config: SurfaceConfiguration,
    pub surface_format: usize,
    pub depth_texture: DepthTexture,
}

/// Whether the next image of the surface could be acquired, and if not, why.
#[derive(Clone, Copy, Debug, PartialEq, Eq)]
pub enum SurfaceStatus {
    Good,
    Timeout,
    Outdated,
    Lost,
    OutOfMemory,
}

/// One pass that clears the color target and the depth target and draws
/// nothing. The view of the color target has the format `view_format`.
#[derive(Clone, Copy, Debug, PartialEq, Eq)]
pub struct ClearPass {
    pub view_format: usize,
    pub red: u64,
    pub green: u64,
    pub blue: u64,
    pub alpha: u64,
    pub depth: u32,
}

/// What to do in a tick, given how acquiring the image went.
#[derive(Clone, Copy, Debug, PartialEq, Eq)]
pub enum FramePlan {
    /// Record the pass, submit it, present the image.
    Draw(ClearPass),
    /// The surface is stale: configure it anew and draw nothing this tick.
    Reconfigure(SurfaceConfiguration),
    /// Nothing can be drawn, and configuring anew would not help.
    Fail,
}

/// A step of drawing one frame.
#[derive(Clone, Copy, Debug, PartialEq, Eq)]
pub enum FrameStep {
    CreateView,
    CreateEncoder,
    BeginRenderPass,
    EndRenderPass,
    FinishEncoder,
    Submit,
    Present,
}

/// The depth buffer for a surface of the given size.
pub open spec fn spec_depth_texture(width: u32, height: u32) -> DepthTexture {
    DepthTexture {
        width,
        height,
        depth_or_array_layers: 1,
        mip_level_count: 1,
        sample_count: 1,
        render_attachment: true,
        texture_binding: true,
    }
}

/// Describes the depth buffer for a surface of the given size.
pub fn create_depth_texture(width: u32, height: u32) -> (texture: DepthTexture)
    ensures
        texture == spec_depth_texture(width, height),
{
    DepthTexture {
        width,
        height,
        depth_or_array_layers: 1,
        mip_level_count: 1,
        sample_count: 1,
        render_attachment: true,
        texture_binding: true,
    }
}

/// Picks the surface format from the formats the surface supports, given
/// for each whether it is sRGB: the first that is not, or the first of all
/// if there is no such format. The list must not be empty.
pub fn select_surface_format(srgb: &[bool]) -> (chosen: usize)
    requires
        srgb@.len() > 0,
    ensures
        chosen < srgb@.len(),
        srgb@[chosen as int] ==> chosen == 0 && forall|i: int| 0 <= i < srgb@.len() ==> srgb@[i],
        !srgb@[chosen as int] ==> forall|i: int| 0 <= i < chosen ==> srgb@[i],
{
    let mut i: usize = 0;
    while i < srgb.len()
        invariant
            i <= srgb@.len(),
            forall|j: int| 0 <= j < i ==> srgb@[j],
        decreases srgb@.len() - i,
    {
        if !srgb[i] {
            return i;
        }
        i += 1;
    }
    0
}

impl Graphics {
    /// The depth buffer has the size of the surface.
    pub open spec fn wf(&self) -> bool {
        &&& self.depth_texture == spec_depth_texture(
            self.surface_config.width,
            self.surface_config.height,
        )
        &&& self.surface_format == self.surface_config.format
    }

    /// What is owned after the surface was made with format `format` and
    /// the given size.
    pub open spec fn created(format: usize, width: u32, height: u32) -> Graphics {
        Graphics {
            surface_config: SurfaceConfiguration {
                format,
                width,
                height,
                present_mode: 0,
                alpha_mode: 0,
                desired_maximum_frame_latency: FRAME_LATENCY,
            },
            surface_format: format,
            depth_texture: spec_depth_texture(width, height),
        }
    }

    /// What is owned after a resize to the given size: both dimensions are
    /// raised to at least one, and the depth buffer follows the surface.
    pub open spec fn resized(self, width: u32, height: u32) -> Graphics {
        let width = if width == 0 {
            1
        } else {
            width
        };
        let height = if height == 0 {
            1
        } else {
            height
        };
        Graphics {
            surface_config: SurfaceConfiguration { width, height, ..self.surface_config },
            surface_format: self.surface_format,
            depth_texture: spec_depth_texture(width, height),
        }
    }
}

/// Decides what the surface and the depth buffer are made with: the
/// format picked by [`select_surface_format`], the first present mode and
/// alpha mode, the given size for both. `srgb` says of each supported
/// format whether it is sRGB and must not be empty.
pub fn create_renderer_resources(srgb: &[bool], width: u32, height: u32) -> (graphics: Graphics)
    requires
        srgb@.len() > 0,
    ensures
        graphics.wf(),
        graphics.surface_format < srgb@.len(),
        srgb@[graphics.surface_format as int] ==> graphics.surface_format == 0 && forall|i: int|
            0 <= i < srgb@.len() ==> srgb@[i],
        !srgb@[graphics.surface_format as int] ==> forall|i: int|
            0 <= i < graphics.surface_format ==> srgb@[i],
        graphics == Graphics::created(graphics.surface_format, width, height),
{
    let surface_format = select_surface_format(srgb);
    let surface_config = SurfaceConfiguration {
        format: surface_format,
        width,
        height,
        present_mode: 0,
        alpha_mode: 0,
        desired_maximum_frame_latency: FRAME_LATENCY,
    };
    let depth_texture = create_depth_texture(width, height);
    Graphics { surface_config, surface_format, depth_texture }
}

/// Resizes the surface and the depth buffer. A dimension of zero is taken
/// as one, so the surface is never empty.
pub fn resize_renderer(graphics: &mut Graphics, width: u32, height: u32)
    ensures
        *final(graphics) == old(graphics).resized(width, height),
        final(graphics).surface_config.width >= 1,
        final(graphics).surface_config.height >= 1,
        final(graphics).depth_texture.width == final(graphics).surface_config.width,
        final(graphics).depth_texture.height == final(graphics).surface_config.height,
        old(graphics).wf() ==> final(graphics).wf(),
{
    let width = if width == 0 {
        1
    } else {
        width
    };
    let height = if height == 0 {
        1
    } else {
        height
    };
    graphics.surface_config.width = width;
    graphics.surface_config.height = height;
    graphics.depth_texture = create_depth_texture(width, height);
}

/// Resizing twice to the same size gives what resizing once gives.
pub proof fn law_resize_is_idempotent(graphics: Graphics, width: u32, height: u32)
    ensures
        graphics.resized(width, height).resized(width, height) == graphics.resized(width, height),
{
}

/// What a tick does with the image it tried to acquire.
pub open spec fn spec_render_frame(graphics: Graphics, acquired: SurfaceStatus) -> FramePlan {
    match acquired {
        SurfaceStatus::Good => FramePlan::Draw(
            ClearPass {
                view_format: graphics.surface_format,
                red: CLEAR_RED,
                green: CLEAR_GREEN,
                blue: CLEAR_BLUE,
                alpha: CLEAR_ALPHA,
                depth: ONE,
            },
        ),
        SurfaceStatus::Outdated | SurfaceStatus::Lost => FramePlan::Reconfigure(
            graphics.surface_config,
        ),
        SurfaceStatus::Timeout | SurfaceStatus::OutOfMemory => FramePlan::Fail,
    }
}

/// Decides what a tick does, given how acquiring the next image went. With
/// an image, one pass clears the color target to the background and the
/// depth target to the far value. A stale surface is configured anew with
/// what it had, and the tick draws nothing. Nothing else can be recovered.
pub fn render_frame(graphics: &Graphics, acquired: SurfaceStatus) -> (plan: FramePlan)
    ensures
        plan == spec_render_frame(*graphics, acquired),
{
    match acquired {
        SurfaceStatus::Good => FramePlan::Draw(
            ClearPass {
                view_format: graphics.surface_format,
                red: CLEAR_RED,
                green: CLEAR_GREEN,
                blue: CLEAR_BLUE,
                alpha: CLEAR_ALPHA,
                depth: ONE,
            },
        ),
        SurfaceStatus::Outdated => FramePlan::Reconfigure(graphics.surface_config),
        SurfaceStatus::Lost => FramePlan::Reconfigure(graphics.surface_config),
        SurfaceStatus::Timeout => FramePlan::Fail,
        SurfaceStatus::OutOfMemory => FramePlan::Fail,
    }
}

/// The steps of drawing one frame, in order.
pub open spec fn spec_draw_steps() -> Seq<FrameStep> {
    seq![
        FrameStep::CreateView,
        FrameStep::CreateEncoder,
        FrameStep::BeginRenderPass,
        FrameStep::EndRenderPass,
        FrameStep::FinishEncoder,
        FrameStep::Submit,
        FrameStep::Present,
    ]
}

/// The steps of drawing one frame on an acquired image, in order: the
/// pass ends before the encoder is finished, one command buffer is
/// submitted, and the image is presented last.
pub fn draw_steps() -> (steps: Vec<FrameStep>)
    ensures
        steps@ == spec_draw_steps(),
{
    let mut steps: Vec<FrameStep> = Vec::new();
    steps.push(FrameStep::CreateView);
    steps.push(FrameStep::CreateEncoder);
    steps.push(FrameStep::BeginRenderPass);
    steps.push(FrameStep::EndRenderPass);
    steps.push(FrameStep::FinishEncoder);
    steps.push(FrameStep::Submit);
    steps.push(FrameStep::Present);
    assert(steps@ =~= spec_draw_steps());
    steps
}

} // verus!
