//! State shared by the whole frame: time step, input and viewport, as well
//! as the plain data that describes images and how they are sampled.

use std::collections::HashMap;
use vstd::prelude::*;
use crate::linear::{Vec2, ZERO};

verus! {

broadcast use vstd::std_specs::hash::group_hash_axioms;

/// The number of a physical key.
pub type KeyCode = u32;

/// The key that ends the run.
pub const ESCAPE: KeyCode = 27;

/// Whether a key or button is down.
#[derive(Clone, Copy, Debug, PartialEq, Eq, Structural)]
pub enum ElementState {
    Pressed,
    Released,
}

/// The last known state of each key seen so far.
#[derive(Debug)]
pub struct Keyboard {
    pub keystates: HashMap<KeyCode, ElementState>,
}

impl Clone for Keyboard {
    fn clone(&self) -> (copy: Self)
        ensures
            copy.keystates@ == self.keystates@,
    {
        Keyboard { keystates: self.keystates.clone() }
    }
}

impl Default for Keyboard {
    fn default() -> (keyboard: Self)
        ensures
            keyboard.keystates@ == Map::<KeyCode, ElementState>::empty(),
    {
        Keyboard { keystates: HashMap::new() }
    }
}

/// Whether `keycode` is known and down.
pub fn is_key_pressed(keyboard: &Keyboard, keycode: KeyCode) -> (pressed: bool)
    ensures
        pressed == (keyboard.keystates@.contains_key(keycode) && keyboard.keystates@[keycode]
            == ElementState::Pressed),
{
    match keyboard.keystates.get(&keycode) {
        Some(state) => match state {
            ElementState::Pressed => true,
            ElementState::Released => false,
        },
        None => false,
    }
}

/// Flag of [`MouseButtons`]: the left button was clicked.
pub const LEFT_CLICKED: u8 = 1;

/// Flag of [`MouseButtons`]: the middle button was clicked.
pub const MIDDLE_CLICKED: u8 = 2;

/// Flag of [`MouseButtons`]: the right button was clicked.
pub const RIGHT_CLICKED: u8 = 4;

/// Flag of [`MouseButtons`]: the pointer moved.
pub const MOVED: u8 = 8;

/// Flag of [`MouseButtons`]: the wheel turned.
pub const SCROLLED: u8 = 16;

/// All flags of [`MouseButtons`].
pub const ALL_MOUSE_FLAGS: u8 = 31;

/// A set of mouse flags.
#[derive(Clone, Copy, Debug, PartialEq, Eq)]
pub struct MouseButtons {
    bits: u8,
}

impl MouseButtons {
    /// The flags of the set, one bit each.
    pub closed spec fn spec_bits(&self) -> u8 {
        self.bits
    }

    /// Only known flags are ever in a set.
    pub closed spec fn wf(&self) -> bool {
        self.bits & !ALL_MOUSE_FLAGS == 0
    }

    /// The set without any flag.
    pub fn empty() -> (set: Self)
        ensures
            set.wf(),
            set.spec_bits() == 0,
    {
        assert(0u8 & !31u8 == 0) by (bit_vector);
        MouseButtons { bits: 0 }
    }

    /// The set of the known flags among `bits`.
    pub fn from_bits_truncate(bits: u8) -> (set: Self)
        ensures
            set.wf(),
            set.spec_bits() == bits & ALL_MOUSE_FLAGS,
    {
        assert((bits & 31u8) & !31u8 == 0) by (bit_vector);
        MouseButtons { bits: bits & ALL_MOUSE_FLAGS }
    }

    /// The flags of the set, one bit each.
    #[verifier::when_used_as_spec(spec_bits)]
    pub fn bits(&self) -> (bits: u8)
        ensures
            bits == self.spec_bits(),
    {
        self.bits
    }

    /// Whether no flag is in the set.
    pub fn is_empty(&self) -> (none: bool)
        ensures
            none == (self.spec_bits() == 0),
    {
        self.bits == 0
    }

    /// Whether every flag of `other` is in the set.
    pub fn contains(&self, other: MouseButtons) -> (all: bool)
        ensures
            all == (self.spec_bits() & other.spec_bits() == other.spec_bits()),
    {
        self.bits & other.bits == other.bits
    }

    /// Puts the flags of `other` in the set.
    pub fn insert(&mut self, other: MouseButtons)
        requires
            old(self).wf(),
            other.wf(),
        ensures
            final(self).wf(),
            final(self).spec_bits() == old(self).spec_bits() | other.spec_bits(),
    {
        let a = self.bits;
        let b = other.bits;
        assert((a | b) & !31u8 == 0) by (bit_vector)
            requires
                a & !31u8 == 0,
                b & !31u8 == 0,
        ;
        self.bits = a | b;
    }

    /// Takes the flags of `other` out of the set.
    pub fn remove(&mut self, other: MouseButtons)
        requires
            old(self).wf(),
        ensures
            final(self).wf(),
            final(self).spec_bits() == old(self).spec_bits() & !other.spec_bits(),
    {
        let a = self.bits;
        let b = other.bits;
        assert((a & !b) & !31u8 == 0) by (bit_vector)
            requires
                a & !31u8 == 0,
        ;
        self.bits = a & !b;
    }
}

impl Default for MouseButtons {
    fn default() -> (set: Self)
        ensures
            set.wf(),
            set.spec_bits() == 0,
    {
        MouseButtons::empty()
    }
}

/// Buttons, position and wheel of the pointer.
#[derive(Clone, Copy, Debug, PartialEq, Eq)]
pub struct Mouse {
    pub buttons: MouseButtons,
    pub position: Vec2,
    pub position_delta: Vec2,
    pub offset_from_center: Vec2,
    pub wheel_delta: Vec2,
}

impl Default for Mouse {
    fn default() -> (mouse: Self)
        ensures
            mouse.buttons.wf(),
            mouse.buttons.spec_bits() == 0,
            mouse.position == Vec2::splat(ZERO),
            mouse.position_delta == Vec2::splat(ZERO),
            mouse.offset_from_center == Vec2::splat(ZERO),
            mouse.wheel_delta == Vec2::splat(ZERO),
    {
        Mouse {
            buttons: MouseButtons::empty(),
            position: Vec2::default(),
            position_delta: Vec2::default(),
            offset_from_center: Vec2::default(),
            wheel_delta: Vec2::default(),
        }
    }
}

/// What every system may read during a frame. The shell writes it before
/// the frame starts.
#[derive(Debug)]
pub struct Resources {
    /// Seconds since the last frame, as a bit pattern.
    pub delta_time: u32,
    pub keyboard: Keyboard,
    pub mouse: Mouse,
    pub viewport_width: u32,
    pub viewport_height: u32,
}

impl Resources {
    /// No time has passed, no key or button is known, and the viewport is empty.
    pub open spec fn is_initial(&self) -> bool {
        &&& self.delta_time == ZERO
        &&& self.keyboard.keystates@ == Map::<KeyCode, ElementState>::empty()
        &&& self.mouse.buttons.wf()
        &&& self.mouse.buttons.spec_bits() == 0
        &&& self.mouse.position == Vec2::splat(ZERO)
        &&& self.mouse.position_delta == Vec2::splat(ZERO)
        &&& self.mouse.offset_from_center == Vec2::splat(ZERO)
        &&& self.mouse.wheel_delta == Vec2::splat(ZERO)
        &&& self.viewport_width == 0
        &&& self.viewport_height == 0
    }
}

impl Clone for Resources {
    fn clone(&self) -> (copy: Self)
        ensures
            copy.delta_time == self.delta_time,
            copy.keyboard.keystates@ == self.keyboard.keystates@,
            copy.mouse == self.mouse,
            copy.viewport_width == self.viewport_width,
            copy.viewport_height == self.viewport_height,
    {
        Resources {
            delta_time: self.delta_time,
            keyboard: self.keyboard.clone(),
            mouse: self.mouse,
            viewport_width: self.viewport_width,
            viewport_height: self.viewport_height,
        }
    }
}

impl Default for Resources {
    fn default() -> (resources: Self)
        ensures
            resources.is_initial(),
    {
        Resources {
            delta_time: ZERO,
            keyboard: Keyboard::default(),
            mouse: Mouse::default(),
            viewport_width: 0,
            viewport_height: 0,
        }
    }
}

/// The layout of one pixel.
#[derive(Clone, Copy, Debug, PartialEq, Eq, Hash)]
pub enum ImageFormat {
    R8,
    R8G8,
    R8G8B8,
    R8G8B8A8,
    B8G8R8,
    B8G8R8A8,
    R16,
    R16G16,
    R16G16B16,
    R16G16B16A16,
    R16F,
    R16G16F,
    R16G16B16F,
    R16G16B16A16F,
    R32,
    R32G32,
    R32G32B32,
    R32G32B32A32,
    R32F,
    R32G32F,
    R32G32B32F,
    R32G32B32A32F,
}

/// Pixels with their layout and size.
#[derive(Debug)]
pub struct Image {
    pub pixels: Vec<u8>,
    pub format: ImageFormat,
    pub width: u32,
    pub height: u32,
}

/// How a texture is magnified.
#[derive(Clone, Copy, Debug, PartialEq, Eq)]
pub enum MagFilter {
    Nearest,
    Linear,
}

impl Default for MagFilter {
    fn default() -> (filter: Self)
        ensures
            filter == MagFilter::Linear,
    {
        MagFilter::Linear
    }
}

/// How a texture is minified.
#[derive(Clone, Copy, Debug, PartialEq, Eq)]
pub enum MinFilter {
    Nearest,
    Linear,
    NearestMipmapNearest,
    LinearMipmapNearest,
    NearestMipmapLinear,
    LinearMipmapLinear,
}

impl Default for MinFilter {
    fn default() -> (filter: Self)
        ensures
            filter == MinFilter::Linear,
    {
        MinFilter::Linear
    }
}

/// What a texture shows outside its edges.
#[derive(Clone, Copy, Debug, PartialEq, Eq)]
pub enum WrappingMode {
    ClampToEdge,
    MirroredRepeat,
    Repeat,
}

impl Default for WrappingMode {
    fn default() -> (mode: Self)
        ensures
            mode == WrappingMode::Repeat,
    {
        WrappingMode::Repeat
    }
}

/// Filters and wrapping modes along both axes.
#[derive(Clone, Copy, Debug, PartialEq, Eq)]
pub struct Sampler {
    pub min_filter: MinFilter,
    pub mag_filter: MagFilter,
    pub wrap_s: WrappingMode,
    pub wrap_t: WrappingMode,
}

impl Default for Sampler {
    fn default() -> (sampler: Self)
        ensures
            sampler == (Sampler {
                min_filter: MinFilter::Linear,
                mag_filter: MagFilter::Linear,
                wrap_s: WrappingMode::Repeat,
                wrap_t: WrappingMode::Repeat,
            }),
    {
        Sampler {
            min_filter: MinFilter::Linear,
            mag_filter: MagFilter::Linear,
            wrap_s: WrappingMode::Repeat,
            wrap_t: WrappingMode::Repeat,
        }
    }
}

/// An image and, optionally, a sampler, each by its index.
#[derive(Clone, Copy, Debug, PartialEq, Eq)]
pub struct Texture {
    pub image_index: usize,
    pub sampler_index: Option<usize>,
}

} // verus!
