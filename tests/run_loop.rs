use bevy_doryen::bridge::{Doryen, DoryenConfig, Frame, HostStep, Phase};
use bevy_doryen::font::{Font, FontGeometry, FontState};
use bevy_doryen::input::{InputEvent, InputSnapshot, InputTracker};

fn snap(keys: &[u32], buttons: &[u32], cursor: (i32, i32)) -> InputSnapshot {
    InputSnapshot { keys: keys.to_vec(), buttons: buttons.to_vec(), cursor }
}

#[test]
fn press_then_release_gives_one_edge_each() {
    let mut t = InputTracker::new();
    let first = t.translate(&snap(&[5], &[], (0, 0)));
    assert_eq!(first, vec![InputEvent::KeyDown(5), InputEvent::CursorMoved(0, 0)]);
    let second = t.translate(&snap(&[], &[], (0, 0)));
    assert_eq!(second, vec![InputEvent::KeyUp(5)]);
    let third = t.translate(&snap(&[], &[], (0, 0)));
    assert!(third.is_empty());
}

#[test]
fn held_key_gives_no_repeat() {
    let mut t = InputTracker::new();
    t.translate(&snap(&[1, 2], &[], (3, 4)));
    let r = t.translate(&snap(&[2, 1], &[], (3, 4)));
    assert!(r.is_empty());
}

#[test]
fn events_come_keys_then_mouse_then_cursor() {
    let mut t = InputTracker::new();
    t.translate(&snap(&[1], &[0], (3, 4)));
    let r = t.translate(&snap(&[2, 2], &[1], (5, 4)));
    assert_eq!(
        r,
        vec![
            InputEvent::KeyDown(2),
            InputEvent::KeyUp(1),
            InputEvent::MouseDown(1),
            InputEvent::MouseUp(0),
            InputEvent::CursorMoved(5, 4),
        ]
    );
}

#[test]
fn config_defaults() {
    let cfg = DoryenConfig::default();
    assert_eq!(cfg.console_size(), (80, 25));
    assert_eq!(cfg.font_file(), "terminal_8x8.png");
    let cfg = DoryenConfig { console_width: 80, console_height: 45, font: "big_16x16.png".to_string() };
    assert_eq!(cfg.console_size(), (80, 45));
    assert_eq!(cfg.font_file(), "big_16x16.png");
    let d = Doryen::new(&DoryenConfig { console_width: 0, console_height: 7, font: String::new() });
    assert_eq!((d.con().get_width(), d.con().get_height()), (80, 7));
}

#[test]
fn init_then_iterations_follow_the_phases() {
    let mut d = Doryen::new(&DoryenConfig::default());
    assert_eq!(d.phase(), Phase::Created);
    let steps = d.init(640, 200);
    assert_eq!(steps, vec![HostStep::WindowCreated(640, 200), HostStep::RunStartup, HostStep::CallInit]);
    assert_eq!(d.viewport(), (640, 200));
    d.load_font(9);
    assert_eq!(d.font_state(), FontState::Loading(9));

    // The font is not ready: input and update still run, nothing is drawn.
    assert_eq!(d.phase(), Phase::Input);
    let ev = d.poll_input(&snap(&[4], &[], (1, 1)));
    assert_eq!(ev[0], InputEvent::KeyDown(4));
    d.host_updated(false);
    d.con_mut().print_color(0, 0, "hi", bevy_doryen::text::TextAlign::Left, None);
    d.host_rendered();
    assert_eq!(d.present(None), Frame { upload_font: None, draw: false });
    assert_eq!(d.con().get_cell(1, 0).unwrap().glyph, 'i' as u16);

    // The font arrives: it is uploaded once and the console is drawn.
    let font = Font::new_from_rgba(128, 128, Vec::new());
    let ev = d.poll_input(&snap(&[], &[], (1, 1)));
    assert_eq!(ev, vec![InputEvent::KeyUp(4)]);
    d.host_updated(false);
    d.host_rendered();
    let geometry = FontGeometry { font_width: 128, font_height: 128, char_width: 8, char_height: 8 };
    assert_eq!(d.present(Some(&font)), Frame { upload_font: Some(geometry), draw: true });
    assert_eq!(d.font_state(), FontState::Loaded(geometry));

    // A resize is taken; an exit request ends the loop after the iteration.
    assert_eq!(d.resize(800, 600), HostStep::WindowResized(800, 600));
    assert_eq!(d.viewport(), (800, 600));
    d.poll_input(&snap(&[], &[], (1, 1)));
    d.host_updated(true);
    assert!(d.is_running());
    d.host_rendered();
    assert_eq!(d.present(Some(&font)), Frame { upload_font: None, draw: true });
    assert!(!d.is_running());
    assert_eq!(d.phase(), Phase::Stopped);
}

#[test]
fn uneven_font_never_draws() {
    let mut d = Doryen::new(&DoryenConfig::default());
    d.init(10, 10);
    d.load_font(1);
    let font = Font::new_from_rgba(100, 100, Vec::new());
    d.poll_input(&snap(&[], &[], (0, 0)));
    d.host_updated(false);
    d.host_rendered();
    assert_eq!(d.present(Some(&font)), Frame { upload_font: None, draw: false });
    assert_eq!(d.font_state(), FontState::Loading(1));
}
