use bradar_de::geometry::Rect;
use bradar_de::render::{frame_plan, parse_hex_rgba, FillRole, FrameGeometry, Rgba8};
use bradar_de::window::WindowManager;

fn rgba(r: u8, g: u8, b: u8, a: u8) -> Rgba8 {
    Rgba8 { r, g, b, a }
}

#[test]
fn hex_colours() {
    assert_eq!(parse_hex_rgba("#7aa2f7"), rgba(0x7a, 0xa2, 0xf7, 255));
    assert_eq!(parse_hex_rgba("0F0F14"), rgba(15, 15, 20, 255));
    assert_eq!(parse_hex_rgba("#11223344"), rgba(0x11, 0x22, 0x33, 0x44));
    assert_eq!(parse_hex_rgba("##ff0000"), rgba(255, 0, 0, 255));
}

#[test]
fn hex_colour_oddities() {
    assert_eq!(parse_hex_rgba("#fff"), rgba(0, 0, 0, 255));
    assert_eq!(parse_hex_rgba(""), rgba(0, 0, 0, 255));
    assert_eq!(parse_hex_rgba("#zz8000"), rgba(0, 0x80, 0, 255));
    assert_eq!(parse_hex_rgba("+f+a-1"), rgba(15, 10, 0, 255));
    assert_eq!(parse_hex_rgba("ffé00"), rgba(255, 0, 0, 255));
}

#[test]
fn frame_plan_layers() {
    let mut wm: WindowManager<()> = WindowManager::new(1920, 1080, 32, 0);
    let a = wm.add_window((), 100, 50);
    let b = wm.add_window((), 10, 10);
    wm.focus(a);
    wm.set_geometry(b, 0, 40, 10, 10);
    let g = FrameGeometry { screen_width: 1920, screen_height: 1080, bar_height: 32, border_width: 2 };
    let fills = frame_plan(&g, &wm, true, 5, 6);
    assert_eq!(fills.len(), 1 + 8 + 1 + 1);
    assert_eq!(fills[0].role, FillRole::Background);
    assert_eq!(fills[0].rect, Rect { x: 0, y: 0, w: 1920, h: 1080 });
    // the other window first, the focused one last (on top)
    assert_eq!(fills[1].rect, Rect { x: -2, y: 38, w: 14, h: 2 });
    assert!(fills[1..5].iter().all(|f| f.role == FillRole::BorderInactive));
    // focused window: (910, 515) 100x50
    assert_eq!(fills[5].rect, Rect { x: 908, y: 513, w: 104, h: 2 });
    assert_eq!(fills[6].rect, Rect { x: 908, y: 565, w: 104, h: 2 });
    assert_eq!(fills[7].rect, Rect { x: 908, y: 515, w: 2, h: 50 });
    assert_eq!(fills[8].rect, Rect { x: 1010, y: 515, w: 2, h: 50 });
    assert!(fills[5..9].iter().all(|f| f.role == FillRole::BorderActive));
    assert_eq!(fills[9].rect, Rect { x: 0, y: 0, w: 1920, h: 32 });
    assert_eq!(fills[9].role, FillRole::Bar);
    assert_eq!(fills[10].rect, Rect { x: 5, y: 6, w: 8, h: 8 });
    assert_eq!(fills[10].role, FillRole::Cursor);
}

#[test]
fn frame_plan_without_bar_or_windows() {
    let wm: WindowManager<()> = WindowManager::new(640, 480, 20, 0);
    let g = FrameGeometry { screen_width: 640, screen_height: 480, bar_height: 20, border_width: 1 };
    let fills = frame_plan(&g, &wm, false, 0, 0);
    assert_eq!(fills.len(), 2);
    assert_eq!(fills[1].role, FillRole::Cursor);
}
