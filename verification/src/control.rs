//! Decisions of the window event loop: what each window event asks the
//! renderer to do, how the surface follows resizes, what a failed frame
//! leads to, and which surface colour format is used.
use vstd::prelude::*;
use crate::input::{KeyState, KEY_ESCAPE};

verus! {

// ── Surface size ─────────────────────────────────────────────────────────────

/// Size of the drawing surface in physical pixels.
#[derive(Clone, Copy, Debug, PartialEq, Eq, Structural)]
pub struct Viewport {
    pub width: u32,
    pub height: u32,
}

/// The surface size after a resize request: a request with a zero
/// dimension (a minimised window) is ignored.
pub open spec fn resized(v: Viewport, width: u32, height: u32) -> Viewport {
    if width != 0 && height != 0 {
        Viewport { width, height }
    } else {
        v
    }
}

impl Viewport {
    pub fn new(width: u32, height: u32) -> (r: Self)
        ensures
            r.width == width,
            r.height == height,
    {
        Viewport { width, height }
    }

    /// Applies a resize request (`resize` of the renderer state); returns
    /// whether it was applied, in which case the surface and depth buffer
    /// must be reconfigured.
    pub fn resize(&mut self, width: u32, height: u32) -> (applied: bool)
        ensures
            applied == (width != 0 && height != 0),
            *final(self) == resized(*old(self), width, height),
    {
        if width == 0 || height == 0 {
            return false;
        }
        self.width = width;
        self.height = height;
        true
    }
}

/// A request with both dimensions non-zero sets the surface size to exactly
/// the request, whatever the size was; any other request leaves it as it is.
pub proof fn lemma_resize_sets_requested_size(v: Viewport, width: u32, height: u32)
    ensures
        width != 0 && height != 0 ==> resized(v, width, height).width == width && resized(
            v,
            width,
            height,
        ).height == height,
        width == 0 || height == 0 ==> resized(v, width, height) == v,
{
}

/// Resizing to the current size leaves the size unchanged.
pub proof fn lemma_resize_to_current_size(v: Viewport)
    ensures
        resized(v, v.width, v.height) == v,
{
}

/// A resize request is a pure function of the request: applying the same
/// request twice is applying it once.
pub proof fn lemma_resize_idempotent(v: Viewport, width: u32, height: u32)
    ensures
        resized(resized(v, width, height), width, height) == resized(v, width, height),
{
}

// ── Event routing ────────────────────────────────────────────────────────────

/// A window event of the explorer's window, with cursor positions of type `P`.
#[derive(Clone, Copy, Debug, PartialEq, Eq)]
pub enum WindowInput<P> {
    CloseRequested,
    Resized { width: u32, height: u32 },
    CursorLeft,
    CursorMoved(P),
    Key { code: u32, state: KeyState },
    RedrawRequested,
    Unhandled,
}

/// An event of the event loop.
#[derive(Clone, Copy, Debug, PartialEq, Eq)]
pub enum LoopEvent<P> {
    /// An event of the explorer's own window.
    Window(WindowInput<P>),
    /// The loop has handled all pending events: time to advance a frame.
    AboutToWait,
    /// Any other event, or an event of another window.
    Unhandled,
}

/// What the renderer is asked to do, in order.
#[derive(Clone, Copy, Debug, PartialEq, Eq)]
pub enum Command<P> {
    /// Leave the event loop.
    Exit,
    /// Resize the surface.
    Resize { width: u32, height: u32 },
    /// Turn the camera by the cursor's motion from one position to the next.
    RotateCamera { from: P, to: P },
    /// Record a key press or release.
    Key { code: u32, state: KeyState },
    /// Draw a frame.
    Render,
    /// Advance the simulation by the elapsed frame time and ask for a redraw.
    Advance,
}

/// The last cursor position known after an event, and the commands the event
/// gives: the cursor's motion turns the camera only from a known position,
/// Escape quits (and is still recorded as a key event), closing the window
/// quits.
pub open spec fn route<P>(last: Option<P>, event: LoopEvent<P>) -> (Option<P>, Seq<Command<P>>) {
    match event {
        LoopEvent::Window(w) => match w {
            WindowInput::CloseRequested => (last, seq![Command::Exit]),
            WindowInput::Resized { width, height } => (
                last,
                seq![Command::Resize { width, height }],
            ),
            WindowInput::CursorLeft => (None, Seq::empty()),
            WindowInput::CursorMoved(p) => (
                Some(p),
                match last {
                    Some(q) => seq![Command::RotateCamera { from: q, to: p }],
                    None => Seq::empty(),
                },
            ),
            WindowInput::Key { code, state } => (
                last,
                if code == KEY_ESCAPE {
                    seq![Command::Exit, Command::Key { code, state }]
                } else {
                    seq![Command::Key { code, state }]
                },
            ),
            WindowInput::RedrawRequested => (last, seq![Command::Render]),
            WindowInput::Unhandled => (last, Seq::empty()),
        },
        LoopEvent::AboutToWait => (last, seq![Command::Advance]),
        LoopEvent::Unhandled => (last, Seq::empty()),
    }
}

/// Turns loop events into renderer commands, remembering the last cursor
/// position inside the window.
pub struct EventRouter<P> {
    last_cursor: Option<P>,
}

impl<P: Copy> EventRouter<P> {
    /// The last cursor position seen inside the window, if any.
    pub closed spec fn last_cursor(&self) -> Option<P> {
        self.last_cursor
    }

    /// A router that has seen no cursor yet.
    pub fn new() -> (r: Self)
        ensures
            r.last_cursor() == None::<P>,
    {
        EventRouter { last_cursor: None }
    }

    /// The commands for one event (the body of the event handler of `run`).
    pub fn handle(&mut self, event: LoopEvent<P>) -> (commands: Vec<Command<P>>)
        ensures
            (final(self).last_cursor(), commands@) == route(old(self).last_cursor(), event),
    {
        match event {
            LoopEvent::Window(w) => match w {
                WindowInput::CloseRequested => vec![Command::Exit],
                WindowInput::Resized { width, height } => vec![Command::Resize { width, height }],
                WindowInput::CursorLeft => {
                    self.last_cursor = None;
                    Vec::new()
                },
                WindowInput::CursorMoved(p) => {
                    let commands = match self.last_cursor {
                        Some(q) => vec![Command::RotateCamera { from: q, to: p }],
                        None => Vec::new(),
                    };
                    self.last_cursor = Some(p);
                    commands
                },
                WindowInput::Key { code, state } => {
                    if code == KEY_ESCAPE {
                        vec![Command::Exit, Command::Key { code, state }]
                    } else {
                        vec![Command::Key { code, state }]
                    }
                },
                WindowInput::RedrawRequested => vec![Command::Render],
                WindowInput::Unhandled => Vec::new(),
            },
            LoopEvent::AboutToWait => vec![Command::Advance],
            LoopEvent::Unhandled => Vec::new(),
        }
    }
}

/// Only the cursor's own events change the last known cursor position: it
/// leaving forgets it, it moving sets it to the new position, and every other
/// event (keys, resizes, redraws, frame ticks, ...) keeps it.
pub proof fn lemma_cursor_memory<P>(last: Option<P>, event: LoopEvent<P>)
    ensures
        event == LoopEvent::<P>::Window(WindowInput::CursorLeft) ==> route(last, event).0 == None::<P>,
        (forall|p: P| event == LoopEvent::<P>::Window(WindowInput::CursorMoved(p)) ==> route(last, event).0
            == Some(p)),
        !(event matches LoopEvent::Window(WindowInput::CursorLeft)) && !(event matches LoopEvent::Window(
            WindowInput::CursorMoved(_),
        )) ==> route(last, event).0 == last,
{
}

/// What each event asks of the renderer, apart from the cursor's motion:
/// closing quits, a resize is passed on with its size, a key event is
/// recorded with its code and state as the last command (after a quit for
/// Escape), a redraw request draws a frame, the end of a batch of events
/// advances the simulation, and nothing else gives a command.
pub proof fn lemma_event_commands<P>(last: Option<P>, event: LoopEvent<P>)
    ensures
        event == LoopEvent::<P>::Window(WindowInput::CloseRequested) ==> route(last, event).1 == seq![
            Command::<P>::Exit,
        ],
        forall|width: u32, height: u32|
            event == LoopEvent::<P>::Window(WindowInput::Resized { width, height }) ==> route(
                last,
                event,
            ).1 == seq![Command::<P>::Resize { width, height }],
        forall|code: u32, state: KeyState|
            event == LoopEvent::<P>::Window(WindowInput::Key { code, state }) ==> {
                let cmds = route(last, event).1;
                &&& cmds.len() == if code == KEY_ESCAPE {
                    2int
                } else {
                    1int
                }
                &&& cmds.last() == Command::<P>::Key { code, state }
                &&& code == KEY_ESCAPE ==> cmds[0] == Command::<P>::Exit
            },
        event == LoopEvent::<P>::Window(WindowInput::RedrawRequested) ==> route(last, event).1 == seq![
            Command::<P>::Render,
        ],
        event == LoopEvent::<P>::AboutToWait ==> route(last, event).1 == seq![Command::<P>::Advance],
        event == LoopEvent::<P>::Unhandled || event == LoopEvent::<P>::Window(WindowInput::Unhandled)
            || event == LoopEvent::<P>::Window(WindowInput::CursorLeft) ==> route(last, event).1
            == Seq::<Command<P>>::empty(),
        forall|p: P|
            event == LoopEvent::<P>::Window(WindowInput::CursorMoved(p)) ==> route(last, event).1
                == match last {
                Some(q) => seq![Command::<P>::RotateCamera { from: q, to: p }],
                None => Seq::<Command<P>>::empty(),
            },
{
}

/// After the cursor leaves the window, its next motion does not turn the
/// camera: there is no known position to turn from.
pub proof fn lemma_no_rotation_after_cursor_left<P>(last: Option<P>, p: P)
    ensures
        route(
            route(last, LoopEvent::Window(WindowInput::CursorLeft)).0,
            LoopEvent::Window(WindowInput::CursorMoved(p)),
        ).1 == Seq::<Command<P>>::empty(),
{
}

/// Two successive cursor motions turn the camera from the first position to
/// the second, whatever came before.
pub proof fn lemma_successive_motions_rotate<P>(last: Option<P>, p: P, q: P)
    ensures
        route(
            route(last, LoopEvent::Window(WindowInput::CursorMoved(p))).0,
            LoopEvent::Window(WindowInput::CursorMoved(q)),
        ).1 == seq![Command::RotateCamera { from: p, to: q }],
{
}

/// Escape quits whether it is pressed or released; every other key is only
/// recorded.
pub proof fn lemma_escape_quits<P>(last: Option<P>, code: u32, state: KeyState)
    ensures
        route(last, LoopEvent::Window(WindowInput::Key { code, state })).1.contains(
            Command::<P>::Exit,
        ) == (code == KEY_ESCAPE),
{
    let cmds = route(last, LoopEvent::Window(WindowInput::Key { code, state })).1;
    if code == KEY_ESCAPE {
        assert(cmds[0] == Command::<P>::Exit);
    } else {
        assert(cmds =~= seq![Command::<P>::Key { code, state }]);
        assert(!cmds.contains(Command::<P>::Exit)) by {
            if cmds.contains(Command::<P>::Exit) {
                let i = choose|i: int| 0 <= i < cmds.len() && cmds[i] == Command::<P>::Exit;
                assert(cmds[i] == Command::<P>::Key { code, state });
            }
        }
    }
}

// ── Frame outcome ────────────────────────────────────────────────────────────

/// Why the surface could not give a frame to draw into.
#[derive(Clone, Copy, Debug, PartialEq, Eq, Structural)]
pub enum SurfaceFault {
    Lost,
    Outdated,
    OutOfMemory,
    Timeout,
}

/// What follows a frame.
#[derive(Clone, Copy, Debug, PartialEq, Eq, Structural)]
pub enum FrameFollowUp {
    /// Nothing: go on.
    Continue,
    /// Reconfigure the surface at the given size.
    Reconfigure { width: u32, height: u32 },
    /// Leave the event loop.
    Exit,
}

/// A lost or outdated surface is reconfigured at the current size; running
/// out of memory quits; a timeout skips the frame.
pub open spec fn follow_up(outcome: Result<(), SurfaceFault>, v: Viewport) -> FrameFollowUp {
    match outcome {
        Ok(()) => FrameFollowUp::Continue,
        Err(SurfaceFault::Lost) | Err(SurfaceFault::Outdated) => FrameFollowUp::Reconfigure {
            width: v.width,
            height: v.height,
        },
        Err(SurfaceFault::OutOfMemory) => FrameFollowUp::Exit,
        Err(SurfaceFault::Timeout) => FrameFollowUp::Continue,
    }
}

/// The follow-up of each frame outcome: a lost or outdated surface is
/// reconfigured at exactly the current size, only running out of memory
/// quits, and a drawn or timed-out frame goes on.
pub proof fn lemma_frame_follow_up(v: Viewport)
    ensures
        follow_up(Ok(()), v) == FrameFollowUp::Continue,
        follow_up(Err(SurfaceFault::Lost), v) == (FrameFollowUp::Reconfigure {
            width: v.width,
            height: v.height,
        }),
        follow_up(Err(SurfaceFault::Outdated), v) == (FrameFollowUp::Reconfigure {
            width: v.width,
            height: v.height,
        }),
        follow_up(Err(SurfaceFault::OutOfMemory), v) == FrameFollowUp::Exit,
        follow_up(Err(SurfaceFault::Timeout), v) == FrameFollowUp::Continue,
        forall|o: Result<(), SurfaceFault>|
            #[trigger] follow_up(o, v) == FrameFollowUp::Exit <==> o == Err::<(), SurfaceFault>(
                SurfaceFault::OutOfMemory,
            ),
{
}

/// What follows a frame whose drawing had the given outcome (the
/// `RedrawRequested` arm of `run`).
pub fn after_render(outcome: Result<(), SurfaceFault>, viewport: &Viewport) -> (r: FrameFollowUp)
    ensures
        r == follow_up(outcome, *viewport),
{
    match outcome {
        Ok(()) => FrameFollowUp::Continue,
        Err(SurfaceFault::Lost) | Err(SurfaceFault::Outdated) => FrameFollowUp::Reconfigure {
            width: viewport.width,
            height: viewport.height,
        },
        Err(SurfaceFault::OutOfMemory) => FrameFollowUp::Exit,
        Err(SurfaceFault::Timeout) => FrameFollowUp::Continue,
    }
}

// ── Surface format ───────────────────────────────────────────────────────────

/// Picks the surface colour format among those the surface supports, given
/// for each whether it is sRGB: the first sRGB format, else the first format;
/// `None` when the surface supports none.
pub fn choose_surface_format(srgb: &Vec<bool>) -> (r: Option<usize>)
    ensures
        r is None <==> srgb@.len() == 0,
        r matches Some(i) ==> i < srgb@.len(),
        (exists|j: int| 0 <= j < srgb@.len() && srgb@[j]) ==> (r matches Some(i) && srgb@[i as int]
            && forall|j: int| 0 <= j < i ==> !srgb@[j]),
        (forall|j: int| 0 <= j < srgb@.len() ==> !srgb@[j]) && srgb@.len() > 0 ==> r == Some(
            0usize,
        ),
{
    let mut i: usize = 0;
    while i < srgb.len()
        invariant
            i <= srgb@.len(),
            forall|j: int| 0 <= j < i ==> !srgb@[j],
        decreases srgb@.len() - i,
    {
        if srgb[i] {
            return Some(i);
        }
        i = i + 1;
    }
    if srgb.len() == 0 {
        None
    } else {
        Some(0)
    }
}

} // verus!
