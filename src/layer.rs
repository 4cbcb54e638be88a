//! The per-layer configuration and runtime record.
use vstd::prelude::*;

use crate::layout::{MousePosition, Resolution};

verus! {

/// An RGBA colour with eight bits per channel.
#[derive(Clone, Copy, Debug, PartialEq, Eq, Structural)]
pub struct Color {
    pub r: u8,
    pub g: u8,
    pub b: u8,
    pub a: u8,
}

/// Opaque white: the tint that leaves a texture's colours as they are.
pub open spec fn white_spec() -> Color {
    Color { r: 255, g: 255, b: 255, a: 255 }
}

impl Color {
    /// Opaque white.
    pub fn white() -> (r: Color)
        ensures
            r == white_spec(),
    {
        Color { r: 255, g: 255, b: 255, a: 255 }
    }

    /// A light purple.
    pub fn purple() -> (r: Color)
        ensures
            r == (Color { r: 200, g: 122, b: 255, a: 255 }),
    {
        Color { r: 200, g: 122, b: 255, a: 255 }
    }
}

/// The identity of one layer: every record, query and stage of a layer
/// carries it, and distinct layers carry distinct tags.
#[derive(Clone, Copy, Debug, PartialEq, Eq, Structural)]
pub struct LayerTag {
    pub id: u32,
}

/// A marker type that names one layer.
pub trait RenderLayerIdentifier: Sized {
    /// The marker value.
    fn new() -> Self;

    /// The layer's name, for messages about it.
    fn get_name() -> String;

    /// The tag under which the layer's record is stored.
    fn layer_tag() -> LayerTag;
}

/// How a surface is sampled when it is scaled.
#[derive(Clone, Copy, Debug, PartialEq, Eq, Structural)]
pub enum FilterMode {
    Nearest,
    Linear,
}

/// An offscreen surface of a fixed size.
#[derive(Clone, Copy, Debug, PartialEq, Eq, Structural)]
pub struct RenderTarget {
    pub width: u32,
    pub height: u32,
    pub filter: FilterMode,
}

/// An axis-aligned rectangle in pixels.
#[derive(Clone, Copy, Debug, PartialEq, Eq, Structural)]
pub struct Rect {
    pub x: u32,
    pub y: u32,
    pub w: u32,
    pub h: u32,
}

/// A 2D camera: the world rectangle it shows, and the surface it draws into
/// (`None` for the screen).
#[derive(Clone, Copy, Debug, PartialEq, Eq, Structural)]
pub struct Camera2D {
    pub display_rect: Rect,
    pub render_target: Option<RenderTarget>,
}

/// A reference to a material of the rendering backend.
#[derive(Clone, Copy, Debug, PartialEq, Eq, Structural)]
pub struct MaterialHandle {
    pub id: u32,
}

/// How a layer is set up.
#[derive(Clone, Copy, Debug, PartialEq, Eq, Structural)]
pub struct RenderLayerConfig {
    /// The size of the layer's surface; both dimensions must be positive.
    pub resolution: Resolution,
    /// The colour the surface is cleared to each frame.
    pub clear_color: Color,
    /// Whether the layer is drawn onto the screen.
    pub display: bool,
    /// Reserved for a post-processing effect.
    pub post_processing_shader: Option<MaterialHandle>,
}

impl RenderLayerConfig {
    /// The resolution has area.
    pub open spec fn valid(self) -> bool {
        self.resolution.width > 0 && self.resolution.height > 0
    }

    /// Whether the resolution has area.
    pub fn is_valid(&self) -> (r: bool)
        ensures
            r == self.valid(),
    {
        self.resolution.width > 0 && self.resolution.height > 0
    }
}

/// The runtime record of one layer.
#[derive(Clone, Copy, Debug, PartialEq, Eq, Structural)]
pub struct RenderLayerBundle {
    /// The layer's camera, bound to its offscreen surface.
    pub camera: Camera2D,
    /// The colour the surface is cleared to each frame.
    pub clear_color: Color,
    /// The cursor in layer pixels, as of the last prepare stage.
    pub mouse_position: MousePosition,
    /// The layer this record belongs to.
    pub layer_identifier: LayerTag,
}

/// The camera of a layer of size `res`: it shows `(0, 0, w, h)` and draws
/// into a surface of exactly that size, sampled nearest-neighbour.
pub open spec fn layer_camera_spec(res: Resolution) -> Camera2D {
    Camera2D {
        display_rect: Rect { x: 0, y: 0, w: res.width, h: res.height },
        render_target: Some(RenderTarget { width: res.width, height: res.height, filter: FilterMode::Nearest }),
    }
}

/// The record that building a layer with `config` under `tag` creates.
pub open spec fn bundle_spec(config: RenderLayerConfig, tag: LayerTag) -> RenderLayerBundle {
    RenderLayerBundle {
        camera: layer_camera_spec(config.resolution),
        clear_color: config.clear_color,
        mouse_position: MousePosition { x: 0, y: 0 },
        layer_identifier: tag,
    }
}

impl RenderLayerBundle {
    /// The camera draws into a surface with area.
    pub open spec fn wf(self) -> bool {
        match self.camera.render_target {
            Some(t) => t.width > 0 && t.height > 0,
            None => false,
        }
    }

    /// The size of the layer's surface.
    pub open spec fn target_size(self) -> Resolution {
        match self.camera.render_target {
            Some(t) => Resolution { width: t.width, height: t.height },
            None => Resolution { width: 0, height: 0 },
        }
    }

    /// The record of a new layer built from `config` under `tag`.
    pub fn new(config: &RenderLayerConfig, tag: LayerTag) -> (r: RenderLayerBundle)
        requires
            config.valid(),
        ensures
            r == bundle_spec(*config, tag),
            r.wf(),
            r.target_size() == config.resolution,
    {
        let res = config.resolution;
        RenderLayerBundle {
            camera: Camera2D {
                display_rect: Rect { x: 0, y: 0, w: res.width, h: res.height },
                render_target: Some(RenderTarget { width: res.width, height: res.height, filter: FilterMode::Nearest }),
            },
            clear_color: config.clear_color,
            mouse_position: MousePosition { x: 0, y: 0 },
            layer_identifier: tag,
        }
    }

    /// The size of the layer's surface.
    pub fn surface_size(&self) -> (r: Resolution)
        requires
            self.wf(),
        ensures
            r == self.target_size(),
            r.width > 0,
            r.height > 0,
    {
        match self.camera.render_target {
            Some(t) => Resolution { width: t.width, height: t.height },
            None => Resolution { width: 0, height: 0 },
        }
    }
}

} // verus!
