use scene_explorer::control::{
    after_render, choose_surface_format, Command, EventRouter, FrameFollowUp, LoopEvent,
    SurfaceFault, Viewport, WindowInput,
};
use scene_explorer::input::{KeyState, KEY_ESCAPE, KEY_W};

type Pos = (i32, i32);

fn window(w: WindowInput<Pos>) -> LoopEvent<Pos> {
    LoopEvent::Window(w)
}

#[test]
fn close_request_exits() {
    let mut r: EventRouter<Pos> = EventRouter::new();
    assert_eq!(r.handle(window(WindowInput::CloseRequested)), vec![Command::Exit]);
}

#[test]
fn resize_is_forwarded() {
    let mut r: EventRouter<Pos> = EventRouter::new();
    assert_eq!(
        r.handle(window(WindowInput::Resized { width: 800, height: 600 })),
        vec![Command::Resize { width: 800, height: 600 }]
    );
}

#[test]
fn cursor_motion_rotates_only_from_a_known_position() {
    let mut r: EventRouter<Pos> = EventRouter::new();
    assert!(r.handle(window(WindowInput::CursorMoved((10, 10)))).is_empty());
    assert_eq!(
        r.handle(window(WindowInput::CursorMoved((13, 7)))),
        vec![Command::RotateCamera { from: (10, 10), to: (13, 7) }]
    );
    assert!(r.handle(window(WindowInput::CursorLeft)).is_empty());
    assert!(r.handle(window(WindowInput::CursorMoved((50, 50)))).is_empty());
    assert_eq!(
        r.handle(window(WindowInput::CursorMoved((51, 49)))),
        vec![Command::RotateCamera { from: (50, 50), to: (51, 49) }]
    );
}

#[test]
fn escape_exits_and_is_recorded() {
    let mut r: EventRouter<Pos> = EventRouter::new();
    assert_eq!(
        r.handle(window(WindowInput::Key { code: KEY_ESCAPE, state: KeyState::Pressed })),
        vec![Command::Exit, Command::Key { code: KEY_ESCAPE, state: KeyState::Pressed }]
    );
    assert_eq!(
        r.handle(window(WindowInput::Key { code: KEY_ESCAPE, state: KeyState::Released })),
        vec![Command::Exit, Command::Key { code: KEY_ESCAPE, state: KeyState::Released }]
    );
    assert_eq!(
        r.handle(window(WindowInput::Key { code: KEY_W, state: KeyState::Pressed })),
        vec![Command::Key { code: KEY_W, state: KeyState::Pressed }]
    );
}

#[test]
fn redraw_and_frame_tick() {
    let mut r: EventRouter<Pos> = EventRouter::new();
    assert_eq!(r.handle(window(WindowInput::RedrawRequested)), vec![Command::Render]);
    assert_eq!(r.handle(LoopEvent::AboutToWait), vec![Command::Advance]);
    assert!(r.handle(LoopEvent::Unhandled).is_empty());
    assert!(r.handle(window(WindowInput::Unhandled)).is_empty());
}

#[test]
fn unhandled_events_keep_the_cursor() {
    let mut r: EventRouter<Pos> = EventRouter::new();
    r.handle(window(WindowInput::CursorMoved((1, 1))));
    r.handle(LoopEvent::AboutToWait);
    r.handle(window(WindowInput::RedrawRequested));
    assert_eq!(
        r.handle(window(WindowInput::CursorMoved((2, 3)))),
        vec![Command::RotateCamera { from: (1, 1), to: (2, 3) }]
    );
}

#[test]
fn viewport_ignores_zero_sizes() {
    let mut v = Viewport::new(1280, 720);
    assert!(!v.resize(0, 720));
    assert_eq!(v, Viewport { width: 1280, height: 720 });
    assert!(!v.resize(640, 0));
    assert_eq!(v, Viewport { width: 1280, height: 720 });
    assert!(v.resize(640, 480));
    assert_eq!(v, Viewport { width: 640, height: 480 });
    assert!(v.resize(640, 480));
    assert_eq!(v, Viewport { width: 640, height: 480 });
}

#[test]
fn frame_outcomes() {
    let v = Viewport::new(800, 600);
    assert_eq!(after_render(Ok(()), &v), FrameFollowUp::Continue);
    assert_eq!(
        after_render(Err(SurfaceFault::Lost), &v),
        FrameFollowUp::Reconfigure { width: 800, height: 600 }
    );
    assert_eq!(
        after_render(Err(SurfaceFault::Outdated), &v),
        FrameFollowUp::Reconfigure { width: 800, height: 600 }
    );
    assert_eq!(after_render(Err(SurfaceFault::OutOfMemory), &v), FrameFollowUp::Exit);
    assert_eq!(after_render(Err(SurfaceFault::Timeout), &v), FrameFollowUp::Continue);
}

#[test]
fn surface_format_prefers_srgb() {
    assert_eq!(choose_surface_format(&vec![false, true, true]), Some(1));
    assert_eq!(choose_surface_format(&vec![true, false]), Some(0));
    assert_eq!(choose_surface_format(&vec![false, false]), Some(0));
    assert_eq!(choose_surface_format(&vec![]), None);
}
