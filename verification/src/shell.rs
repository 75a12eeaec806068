//! The decisions of the window shell: what each window event leads to.
//!
//! The shell owns the window and the device. It reports what happened and
//! does what the answer says.

use vstd::prelude::*;
use crate::components::{ACTIVE_CAMERA, CAMERA, LOCAL_TRANSFORM, PLAYER};
use crate::graphics::{create_renderer_resources, resize_renderer, Graphics};
use crate::resources::{KeyCode, ESCAPE};
use crate::entity::EntityId;
use crate::systems::run_systems;
use crate::world::{can_spawn, spawn_entities, World};

verus! {

/// The kinds of the entity a fresh [`AppState`] spawns.
pub const PLAYER_CAMERA_KINDS: u32 = ACTIVE_CAMERA | CAMERA | LOCAL_TRANSFORM | PLAYER;

/// A window event, as far as the run loop tells events apart.
#[derive(Clone, Copy, Debug, PartialEq, Eq)]
pub enum WindowEvent {
    /// A key went down or up; `key_code` is known unless the key could not
    /// be identified.
    KeyboardInput { key_code: Option<KeyCode> },
    /// The window has a new inner size.
    Resized { width: u32, height: u32 },
    /// The user asked to close the window.
    CloseRequested,
    /// The window should be drawn.
    RedrawRequested,
    /// Any other event.
    Other,
}

impl WindowEvent {
    /// Whether the event is an input event, which a running application
    /// hands to its state: a key, or anything the run loop does not handle
    /// itself.
    pub open spec fn spec_is_input(&self) -> bool {
        self is KeyboardInput || self is Other
    }

    /// Whether the event is an input event, which a running application
    /// hands to its state.
    #[verifier::when_used_as_spec(spec_is_input)]
    pub fn is_input(&self) -> (input: bool)
        ensures
            input == self.spec_is_input(),
    {
        match self {
            WindowEvent::KeyboardInput { .. } => true,
            WindowEvent::Other => true,
            _ => false,
        }
    }
}

/// What the shell does after a window event. After everything but
/// `Ignored` it also asks the window for a redraw.
#[derive(Clone, Copy, Debug, PartialEq, Eq)]
pub enum Reaction {
    /// The application is not running yet: do nothing.
    Ignored,
    /// Leave the run loop.
    Exit,
    /// Configure the surface and make the depth buffer as given.
    Resize(Graphics),
    /// The systems have run: draw a frame, then report it with
    /// [`App::frame_rendered`].
    Render,
    /// Nothing but the redraw request: the event was handed to the state.
    Forwarded,
}

impl Reaction {
    /// Whether the shell asks the window for a redraw after this reaction.
    pub open spec fn spec_requests_redraw(&self) -> bool {
        !(self is Ignored)
    }

    /// Whether the shell asks the window for a redraw after this reaction.
    #[verifier::when_used_as_spec(spec_requests_redraw)]
    pub fn requests_redraw(&self) -> (redraw: bool)
        ensures
            redraw == self.spec_requests_redraw(),
    {
        match self {
            Reaction::Ignored => false,
            _ => true,
        }
    }
}

/// What an application adds to the run loop. Every method may change the
/// state and the world in any way that keeps the world well formed; an
/// implementation can say for each method what it makes of them.
pub trait State: Sized {
    /// What `initialize` makes of a state and a world: `state` and `world`
    /// before the call, `after` and `world_after` behind it. Anything,
    /// unless the implementation says more.
    open spec fn initialized(state: Self, world: World, after: Self, world_after: World) -> bool {
        true
    }

    /// What `receive_event` makes of a state and a world, given the event.
    /// Anything, unless the implementation says more.
    open spec fn received(
        state: Self,
        world: World,
        event: WindowEvent,
        after: Self,
        world_after: World,
    ) -> bool {
        true
    }

    /// What `update` makes of a state and a world. Anything, unless the
    /// implementation says more.
    open spec fn updated(state: Self, world: World, after: Self, world_after: World) -> bool {
        true
    }

    /// Called once, when the window exists.
    fn initialize(&mut self, world: &mut World)
        requires
            old(world).wf(),
        ensures
            final(world).wf(),
            Self::initialized(*old(self), *old(world), *final(self), *final(world)),
    ;

    /// Called for every event the run loop does not handle itself.
    fn receive_event(&mut self, world: &mut World, event: &WindowEvent)
        requires
            old(world).wf(),
        ensures
            final(world).wf(),
            Self::received(*old(self), *old(world), *event, *final(self), *final(world)),
    ;

    /// Called once per frame, after the frame was drawn.
    fn update(&mut self, world: &mut World)
        requires
            old(world).wf(),
        ensures
            final(world).wf(),
            Self::updated(*old(self), *old(world), *final(self), *final(world)),
    ;
}

/// The state of the demo: one entity that is player and active camera.
#[derive(Debug)]
pub struct AppState {}

impl Default for AppState {
    fn default() -> (state: Self) {
        AppState {  }
    }
}

impl State for AppState {
    /// The player's camera was spawned, if the world had room for one more
    /// entity; else nothing changed.
    open spec fn initialized(state: Self, world: World, after: Self, world_after: World) -> bool {
        &&& after == state
        &&& if world.slot_count() < u32::MAX {
            World::spawned(world, world_after, PLAYER_CAMERA_KINDS, seq![world.next_id(0)])
        } else {
            world_after == world
        }
    }

    /// Nothing changed.
    open spec fn received(
        state: Self,
        world: World,
        event: WindowEvent,
        after: Self,
        world_after: World,
    ) -> bool {
        after == state && world_after == world
    }

    /// Nothing changed.
    open spec fn updated(state: Self, world: World, after: Self, world_after: World) -> bool {
        after == state && world_after == world
    }

    /// Spawns the player's camera, if the world has room for one more
    /// entity.
    fn initialize(&mut self, world: &mut World) {
        if can_spawn(world, 1) {
            let ids = spawn_entities(world, PLAYER_CAMERA_KINDS, 1);
            assert(ids@ =~= seq![old(world).next_id(0)]);
        }
    }

    fn receive_event(&mut self, world: &mut World, event: &WindowEvent) {
    }

    fn update(&mut self, world: &mut World) {
    }
}

/// The run loop's own state.
pub struct App<S: State> {
    pub world: World,
    pub state: Option<S>,
    /// Whether the window exists.
    pub window: bool,
    /// Whether the frame clock was started.
    pub last_render_time: bool,
    pub graphics: Option<Graphics>,
    pub last_size: (u32, u32),
}

/// `dimension`, or one if it is zero.
pub open spec fn at_least_one(dimension: u32) -> u32 {
    if dimension == 0 {
        1
    } else {
        dimension
    }
}

impl<S: State> App<S> {
    /// The world is well formed, and so is what the renderer owns.
    pub open spec fn wf(&self) -> bool {
        &&& self.world.wf()
        &&& self.graphics matches Some(graphics) ==> graphics.wf()
    }

    /// Window, frame clock, renderer and state are all there.
    pub open spec fn spec_is_running(&self) -> bool {
        self.window && self.last_render_time && self.graphics is Some && self.state is Some
    }

    /// What a window event leads to.
    pub open spec fn reaction_to(&self, event: WindowEvent) -> Reaction {
        if !self.spec_is_running() {
            Reaction::Ignored
        } else {
            match event {
                WindowEvent::KeyboardInput { key_code } => if key_code == Some(ESCAPE) {
                    Reaction::Exit
                } else {
                    Reaction::Forwarded
                },
                WindowEvent::Resized { width, height } => Reaction::Resize(
                    self.graphics->0.resized(width, height),
                ),
                WindowEvent::CloseRequested => Reaction::Exit,
                WindowEvent::RedrawRequested => Reaction::Render,
                WindowEvent::Other => Reaction::Forwarded,
            }
        }
    }

    /// An application that has `state`, not yet initialized, and the empty
    /// world, and neither window nor renderer yet.
    pub fn new(state: S) -> (app: Self)
        ensures
            app.wf(),
            app.world@ == Map::<EntityId, crate::row::Row>::empty(),
            app.world.slot_count() == 0,
            app.world.table_count() == 0,
            app.world.free_slots() == Seq::<u32>::empty(),
            forall|e: EntityId| !app.world.contains(e) && !app.world.is_stale(e),
            app.world.spec_resources().is_initial(),
            app.state == Some(state),
            !app.window,
            !app.last_render_time,
            app.graphics is None,
            app.last_size == (0u32, 0u32),
    {
        App {
            world: World::new(),
            state: Some(state),
            window: false,
            last_render_time: false,
            graphics: None,
            last_size: (0, 0),
        }
    }

    /// Whether window, frame clock, renderer and state are all there.
    #[verifier::when_used_as_spec(spec_is_running)]
    pub fn is_running(&self) -> (running: bool)
        ensures
            running == self.spec_is_running(),
    {
        self.window && self.last_render_time && self.graphics.is_some() && self.state.is_some()
    }

    /// The application was resumed. `window` is the inner size of the
    /// window the shell made for it, or nothing if it could not make one.
    /// The first window is kept and the state is initialized; the answer
    /// is then the size to make the renderer for. Without a window, or
    /// with a window already there, nothing happens.
    pub fn resumed(&mut self, window: Option<(u32, u32)>) -> (size: Option<(u32, u32)>)
        requires
            old(self).wf(),
        ensures
            final(self).wf(),
            size == if old(self).window {
                None
            } else {
                window
            },
            final(self).window == (old(self).window || window is Some),
            final(self).last_render_time == old(self).last_render_time,
            final(self).graphics == old(self).graphics,
            final(self).last_size == old(self).last_size,
            size is None ==> final(self).world == old(self).world && final(self).state == old(self).state,
            final(self).state is Some == old(self).state is Some,
            size is Some && old(self).state is Some ==> S::initialized(
                old(self).state->0,
                old(self).world,
                final(self).state->0,
                final(self).world,
            ),
            old(self).state is None ==> final(self).world == old(self).world,
    {
        let Some(size) = window else {
            return None;
        };
        if self.window {
            return None;
        }
        match &mut self.state {
            Some(state) => {
                state.initialize(&mut self.world);
            },
            None => {},
        }
        self.window = true;
        Some(size)
    }

    /// The shell has a device for the window. `srgb` says of each format
    /// the surface supports whether it is sRGB and must not be empty. The
    /// answer is what to configure the surface and make the depth buffer
    /// with; the frame clock starts.
    pub fn renderer_created(&mut self, srgb: &[bool], width: u32, height: u32) -> (graphics:
        Graphics)
        requires
            old(self).wf(),
            srgb@.len() > 0,
        ensures
            final(self).wf(),
            final(self).graphics == Some(graphics),
            final(self).last_render_time,
            graphics == Graphics::created(graphics.surface_format, width, height),
            graphics.surface_format < srgb@.len(),
            srgb@[graphics.surface_format as int] ==> graphics.surface_format == 0 && forall|
                i: int,
            | 0 <= i < srgb@.len() ==> srgb@[i],
            !srgb@[graphics.surface_format as int] ==> forall|i: int|
                0 <= i < graphics.surface_format ==> srgb@[i],
            final(self).world == old(self).world,
            final(self).state == old(self).state,
            final(self).window == old(self).window,
            final(self).last_size == old(self).last_size,
    {
        let graphics = create_renderer_resources(srgb, width, height);
        self.graphics = Some(graphics);
        self.last_render_time = true;
        graphics
    }

    /// Handles one window event of a running application; before it runs,
    /// every event is ignored. Every input event goes to the state first:
    /// every key, Escape too, and everything the run loop does not handle
    /// itself. Escape and a close request end the run. A new size, with
    /// zero taken as one, resizes the renderer and is remembered. A redraw
    /// request runs the systems for one tick and then has a frame drawn.
    pub fn window_event(&mut self, event: WindowEvent) -> (reaction: Reaction)
        requires
            old(self).wf(),
        ensures
            final(self).wf(),
            reaction == old(self).reaction_to(event),
            final(self).window == old(self).window,
            final(self).last_render_time == old(self).last_render_time,
            final(self).spec_is_running() == old(self).spec_is_running(),
            reaction matches Reaction::Resize(graphics) ==> final(self).graphics == Some(graphics),
            reaction is Resize ==> (event matches WindowEvent::Resized { width, height }
                && final(self).last_size == (at_least_one(width), at_least_one(height))),
            !(reaction is Resize) ==> final(self).graphics == old(self).graphics && final(self).last_size == old(self).last_size,
            reaction is Render ==> World::same_entities(old(self).world, final(self).world),
            old(self).spec_is_running() && event.spec_is_input() ==> old(self).state is Some
                && final(self).state is Some && S::received(
                old(self).state->0,
                old(self).world,
                event,
                final(self).state->0,
                final(self).world,
            ),
            !(old(self).spec_is_running() && event.spec_is_input()) ==> final(self).state == old(self).state,
            !(old(self).spec_is_running() && event.spec_is_input()) && !(reaction is Render)
                ==> final(self).world == old(self).world,
    {
        if !self.is_running() {
            return Reaction::Ignored;
        }
        match event {
            WindowEvent::Resized { width, height } => {
                let mut graphics = match self.graphics {
                    Some(graphics) => graphics,
                    None => {
                        return Reaction::Ignored;
                    },
                };
                resize_renderer(&mut graphics, width, height);
                self.graphics = Some(graphics);
                self.last_size = (graphics.surface_config.width, graphics.surface_config.height);
                Reaction::Resize(graphics)
            },
            WindowEvent::CloseRequested => Reaction::Exit,
            WindowEvent::RedrawRequested => {
                run_systems(&mut self.world);
                Reaction::Render
            },
            WindowEvent::KeyboardInput { key_code } => {
                match &mut self.state {
                    Some(state) => {
                        state.receive_event(&mut self.world, &event);
                    },
                    None => {},
                }
                match key_code {
                    Some(key_code) => if key_code == ESCAPE {
                        Reaction::Exit
                    } else {
                        Reaction::Forwarded
                    },
                    None => Reaction::Forwarded,
                }
            },
            WindowEvent::Other => {
                match &mut self.state {
                    Some(state) => {
                        state.receive_event(&mut self.world, &event);
                    },
                    None => {},
                }
                Reaction::Forwarded
            },
        }
    }

    /// The frame asked for by [`Reaction::Render`] was drawn: the state
    /// gets its update, once, on the world as it stands. Without a state
    /// nothing happens.
    pub fn frame_rendered(&mut self)
        requires
            old(self).wf(),
        ensures
            final(self).wf(),
            final(self).window == old(self).window,
            final(self).last_render_time == old(self).last_render_time,
            final(self).graphics == old(self).graphics,
            final(self).last_size == old(self).last_size,
            final(self).state is Some == old(self).state is Some,
            old(self).state is Some ==> S::updated(
                old(self).state->0,
                old(self).world,
                final(self).state->0,
                final(self).world,
            ),
            old(self).state is None ==> final(self).world == old(self).world,
    {
        match &mut self.state {
            Some(state) => {
                state.update(&mut self.world);
            },
            None => {},
        }
    }
}

} // verus!
