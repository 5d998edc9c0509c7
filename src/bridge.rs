//! The run loop that joins the console to a host scheduler. Each iteration
//! goes through five phases in order: poll input, let the host run one
//! update, let the host render into the console, then present. The host's
//! exit request, read after its update, ends the loop once the iteration is
//! complete.
use vstd::prelude::*;

use crate::console::{blank_cell, Console, ConsoleView};
use crate::font::{drawable, Font, FontError, FontGeometry, FontState, atlas_geometry_of};
use crate::input::{InputEvent, InputSnapshot, InputTracker, InputTrackerView, translated};

verus! {

/// Console columns when the configuration leaves them open.
pub const DEFAULT_CONSOLE_WIDTH: u32 = 80;

/// Console rows when the configuration leaves them open.
pub const DEFAULT_CONSOLE_HEIGHT: u32 = 25;

/// The font file used when the configuration names none.
pub const DEFAULT_FONT: &'static str = "terminal_8x8.png";

/// How the host asks for its console: a size of zero and an empty font name
/// leave the default.
pub struct DoryenConfig {
    pub console_width: u32,
    pub console_height: u32,
    pub font: String,
}

impl Default for DoryenConfig {
    fn default() -> (r: DoryenConfig)
        ensures
            r.console_width == 0,
            r.console_height == 0,
            r.font@ == Seq::<char>::empty(),
    {
        DoryenConfig { console_width: 0, console_height: 0, font: String::new() }
    }
}

/// The console size that a configuration asks for.
pub open spec fn configured_size(width: u32, height: u32) -> (u32, u32) {
    (
        if width == 0 { DEFAULT_CONSOLE_WIDTH } else { width },
        if height == 0 { DEFAULT_CONSOLE_HEIGHT } else { height },
    )
}

impl DoryenConfig {
    /// The console size to create.
    pub fn console_size(&self) -> (r: (u32, u32))
        ensures
            r == configured_size(self.console_width, self.console_height),
    {
        (
            if self.console_width == 0 { DEFAULT_CONSOLE_WIDTH } else { self.console_width },
            if self.console_height == 0 { DEFAULT_CONSOLE_HEIGHT } else { self.console_height },
        )
    }

    /// The font file to load.
    pub fn font_file(&self) -> (r: String)
        ensures
            r@ == if self.font@.len() == 0 { DEFAULT_FONT@ } else { self.font@ },
    {
        if self.font.unicode_len() == 0 {
            DEFAULT_FONT.to_owned()
        } else {
            self.font.clone()
        }
    }
}

/// Where the loop stands: the phase that comes next.
#[derive(Clone, Copy, PartialEq, Eq, Debug)]
pub enum Phase {
    /// Not yet initialised.
    Created,
    /// Poll and translate input.
    Input,
    /// Let the host run one update.
    Update,
    /// Let the host render into the console.
    Render,
    /// Take a finished font load into use and draw.
    Present,
    /// The host asked to exit and the last iteration is complete.
    Stopped,
}

/// A notification or call the loop asks the host for.
#[derive(Clone, Copy, PartialEq, Eq, Debug)]
pub enum HostStep {
    /// The window exists, with this size in pixels.
    WindowCreated(u32, u32),
    /// The window now has this size in pixels.
    WindowResized(u32, u32),
    /// Run the host's one-time startup.
    RunStartup,
    /// Call the host's init callback with the console.
    CallInit,
}

/// What the present phase asks of the graphics layer.
#[derive(Clone, Copy, PartialEq, Eq, Debug)]
pub struct Frame {
    /// Upload the font atlas that has just been taken into use, with this
    /// geometry, and bind it.
    pub upload_font: Option<FontGeometry>,
    /// Draw the console and swap buffers.
    pub draw: bool,
}

/// The console, its font, the viewport, the remembered input and the phase
/// of the loop.
pub struct Doryen {
    console: Console,
    font: FontState,
    viewport: (u32, u32),
    input: InputTracker,
    phase: Phase,
    exit_requested: bool,
}

pub struct DoryenView {
    pub console: ConsoleView,
    pub font: FontState,
    pub viewport: (u32, u32),
    pub input: InputTrackerView,
    pub phase: Phase,
    pub exit_requested: bool,
}

impl View for Doryen {
    type V = DoryenView;

    closed spec fn view(&self) -> DoryenView {
        DoryenView {
            console: self.console@,
            font: self.font,
            viewport: self.viewport,
            input: self.input@,
            phase: self.phase,
            exit_requested: self.exit_requested,
        }
    }
}

impl Doryen {
    pub closed spec fn wf(&self) -> bool {
        self.console.wf()
    }

    /// The loop state for a configuration: a blank console of the
    /// configured size, no font, an empty viewport, no input seen.
    pub fn new(config: &DoryenConfig) -> (r: Doryen)
        requires
            ({
                let (w, h) = configured_size(config.console_width, config.console_height);
                w * h <= usize::MAX
            }),
        ensures
            r.wf(),
            ({
                let (w, h) = configured_size(config.console_width, config.console_height);
                &&& r@.console.width == w
                &&& r@.console.height == h
            }),
            forall|px: int, py: int| r@.console.in_bounds(px, py) ==> #[trigger] r@.console.at(px, py) == blank_cell(),
            r@.console.colors == Map::<Seq<char>, crate::color::Color>::empty(),
            r@.font == FontState::Unloaded,
            r@.viewport == (0u32, 0u32),
            r@.input.keys == Seq::<u32>::empty(),
            r@.input.buttons == Seq::<u32>::empty(),
            r@.input.cursor == None::<(i32, i32)>,
            r@.phase == Phase::Created,
            !r@.exit_requested,
    {
        let (w, h) = config.console_size();
        Doryen {
            console: Console::new(0, 0, w, h),
            font: FontState::Unloaded,
            viewport: (0, 0),
            input: InputTracker::new(),
            phase: Phase::Created,
            exit_requested: false,
        }
    }

    /// The console.
    pub fn con(&self) -> (r: &Console)
        ensures
            r@ == self@.console,
    {
        &self.console
    }

    /// The console, to paint into.
    pub fn con_mut(&mut self) -> (r: &mut Console)
        requires
            old(self).wf(),
        ensures
            (*r)@ == old(self)@.console,
            (*r).wf(),
            final(self)@ == (DoryenView { console: (*final(r))@, ..old(self)@ }),
            (*final(r)).wf() ==> final(self).wf(),
    {
        &mut self.console
    }

    /// The font state.
    pub fn font_state(&self) -> (r: FontState)
        ensures
            r == self@.font,
    {
        self.font
    }

    /// The viewport size in pixels.
    pub fn viewport(&self) -> (r: (u32, u32))
        ensures
            r == self@.viewport,
    {
        self.viewport
    }

    /// The phase that comes next.
    pub fn phase(&self) -> (r: Phase)
        ensures
            r == self@.phase,
    {
        self.phase
    }

    /// Whether the loop goes on.
    pub fn is_running(&self) -> (r: bool)
        ensures
            r == (self@.phase != Phase::Stopped),
    {
        match self.phase {
            Phase::Stopped => false,
            _ => true,
        }
    }

    /// Starts loading the font behind the asset `handle`.
    pub fn load_font(&mut self, handle: u64)
        ensures
            final(self)@ == (DoryenView { font: FontState::Loading(handle), ..old(self)@ }),
            old(self).wf() ==> final(self).wf(),
    {
        self.font.request_load(handle);
    }

    /// Initialises the loop on a viewport of `width × height` pixels, and
    /// says what the host is to do, in order, before the first iteration.
    pub fn init(&mut self, width: u32, height: u32) -> (r: Vec<HostStep>)
        requires
            old(self)@.phase == Phase::Created,
        ensures
            final(self)@ == (DoryenView { viewport: (width, height), phase: Phase::Input, ..old(self)@ }),
            old(self).wf() ==> final(self).wf(),
            r@ == seq![HostStep::WindowCreated(width, height), HostStep::RunStartup, HostStep::CallInit],
    {
        self.viewport = (width, height);
        self.phase = Phase::Input;
        let mut r: Vec<HostStep> = Vec::new();
        r.push(HostStep::WindowCreated(width, height));
        r.push(HostStep::RunStartup);
        r.push(HostStep::CallInit);
        assert(r@ =~= seq![HostStep::WindowCreated(width, height), HostStep::RunStartup, HostStep::CallInit]);
        r
    }

    /// Takes a new viewport size; the host is to be told before the next
    /// input is translated.
    pub fn resize(&mut self, width: u32, height: u32) -> (r: HostStep)
        ensures
            final(self)@ == (DoryenView { viewport: (width, height), ..old(self)@ }),
            old(self).wf() ==> final(self).wf(),
            r == HostStep::WindowResized(width, height),
    {
        self.viewport = (width, height);
        HostStep::WindowResized(width, height)
    }

    /// The input phase: the events that the polled state gives, in order,
    /// for the host's event queues.
    pub fn poll_input(&mut self, snap: &InputSnapshot) -> (r: Vec<InputEvent>)
        requires
            old(self)@.phase == Phase::Input,
        ensures
            r@ == translated(
                old(self)@.input.keys,
                old(self)@.input.buttons,
                old(self)@.input.cursor,
                snap.keys@,
                snap.buttons@,
                snap.cursor,
            ),
            final(self)@ == (DoryenView {
                input: InputTrackerView { keys: snap.keys@, buttons: snap.buttons@, cursor: Some(snap.cursor) },
                phase: Phase::Update,
                ..old(self)@
            }),
            old(self).wf() ==> final(self).wf(),
    {
        let r = self.input.translate(snap);
        self.phase = Phase::Update;
        r
    }

    /// The host has run its update; `exit_requested` is its exit signal.
    pub fn host_updated(&mut self, exit_requested: bool)
        requires
            old(self)@.phase == Phase::Update,
        ensures
            final(self)@ == (DoryenView { phase: Phase::Render, exit_requested, ..old(self)@ }),
            old(self).wf() ==> final(self).wf(),
    {
        self.exit_requested = exit_requested;
        self.phase = Phase::Render;
    }

    /// The host has rendered into the console.
    pub fn host_rendered(&mut self)
        requires
            old(self)@.phase == Phase::Render,
        ensures
            final(self)@ == (DoryenView { phase: Phase::Present, ..old(self)@ }),
            old(self).wf() ==> final(self).wf(),
    {
        self.phase = Phase::Present;
    }

    /// The present phase. `ready` is the font asset if its load has
    /// finished: a font that is loading is then taken into use. The console
    /// is drawn only with a drawable font. The loop then stops if the host
    /// asked to exit, and otherwise goes on to the next iteration.
    pub fn present(&mut self, ready: Option<&Font>) -> (r: Frame)
        requires
            old(self)@.phase == Phase::Present,
        ensures
            ({
                let font = match (old(self)@.font, ready) {
                    (FontState::Loading(_), Some(f)) => match atlas_geometry_of(f.width, f.height, f.cell_size) {
                        Ok(g) => FontState::Loaded(g),
                        Err(_) => old(self)@.font,
                    },
                    _ => old(self)@.font,
                };
                &&& final(self)@ == (DoryenView {
                    font,
                    phase: if old(self)@.exit_requested { Phase::Stopped } else { Phase::Input },
                    ..old(self)@
                })
                &&& r.upload_font == match (old(self)@.font, font) {
                    (FontState::Loading(_), FontState::Loaded(g)) => Some(g),
                    _ => None::<FontGeometry>,
                }
                &&& r.draw == match font {
                    FontState::Loaded(g) => drawable(g),
                    _ => false,
                }
            }),
            old(self).wf() ==> final(self).wf(),
    {
        let mut upload_font: Option<FontGeometry> = None;
        if let Some(f) = ready {
            if let Some(_) = self.font.loading_handle() {
                let loaded: Result<FontGeometry, FontError> = self.font.asset_ready(f);
                if let Ok(g) = loaded {
                    upload_font = Some(g);
                }
            }
        }
        let draw = self.font.can_draw();
        self.phase = if self.exit_requested { Phase::Stopped } else { Phase::Input };
        Frame { upload_font, draw }
    }
}

} // verus!
