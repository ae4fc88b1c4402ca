use bradar_de::layout::{Layout, LayoutMode};
use bradar_de::window::{WindowId, WindowManager};

fn geometry(wm: &WindowManager<u8>, id: WindowId) -> (i32, i32, u32, u32) {
    let s = wm.get(id).unwrap();
    (s.x, s.y, s.width, s.height)
}

#[test]
fn new_reads_mode_name() {
    assert_eq!(Layout::new("tiling").mode, LayoutMode::Tiling);
    assert_eq!(Layout::new("floating").mode, LayoutMode::Floating);
    assert_eq!(Layout::new("Tiling").mode, LayoutMode::Floating);
    assert_eq!(Layout::new("").mode, LayoutMode::Floating);
    assert_eq!(Layout::new("tiling ").mode, LayoutMode::Floating);
}

#[test]
fn toggle_twice_restores_mode() {
    let mut l = Layout::new("tiling");
    l.toggle();
    assert_eq!(l.mode, LayoutMode::Floating);
    l.toggle();
    assert_eq!(l.mode, LayoutMode::Tiling);
}

#[test]
fn floating_leaves_windows_alone() {
    let mut wm: WindowManager<u8> = WindowManager::new(1920, 1080, 32, 0);
    let a = wm.add_window(0, 300, 200);
    let before = geometry(&wm, a);
    Layout::new("floating").arrange(&mut wm);
    assert_eq!(geometry(&wm, a), before);
}

#[test]
fn tiling_single_window_fills_screen() {
    let mut wm: WindowManager<u8> = WindowManager::new(1920, 1080, 32, 0);
    let a = wm.add_window(0, 300, 200);
    Layout::new("tiling").arrange(&mut wm);
    assert_eq!(geometry(&wm, a), (8, 40, 1904, 1032));
}

#[test]
fn tiling_splits_focused_left_rest_right() {
    let mut wm: WindowManager<u8> = WindowManager::new(1920, 1080, 32, 0);
    let a = wm.add_window(0, 300, 200);
    let b = wm.add_window(1, 300, 200);
    let c = wm.add_window(2, 300, 200);
    wm.focus(b);
    Layout::new("tiling").arrange(&mut wm);
    assert_eq!(geometry(&wm, b), (8, 40, 948, 1032));
    assert_eq!(geometry(&wm, a), (964, 40, 948, 512));
    assert_eq!(geometry(&wm, c), (964, 560, 948, 512));
}

#[test]
fn tiling_skips_hidden_windows() {
    let mut wm: WindowManager<u8> = WindowManager::new(1000, 800, 0, 0);
    let a = wm.add_window(0, 100, 100);
    let b = wm.add_window(1, 100, 100);
    wm.minimize(b);
    let hidden = geometry(&wm, b);
    Layout::new("tiling").arrange(&mut wm);
    assert_eq!(geometry(&wm, a), (8, 8, 984, 784));
    assert_eq!(geometry(&wm, b), hidden);
}

#[test]
fn tiling_with_nothing_visible_does_nothing() {
    let mut wm: WindowManager<u8> = WindowManager::new(1000, 800, 0, 0);
    let a = wm.add_window(0, 100, 100);
    wm.get_mut(a).unwrap().workspace = 2;
    let before = geometry(&wm, a);
    Layout::new("tiling").arrange(&mut wm);
    assert_eq!(geometry(&wm, a), before);
}

#[test]
fn tiling_right_column_rounds_height_down() {
    let mut wm: WindowManager<u8> = WindowManager::new(1000, 830, 30, 0);
    let a = wm.add_window(0, 100, 100);
    let b = wm.add_window(1, 100, 100);
    let c = wm.add_window(2, 100, 100);
    let d = wm.add_window(3, 100, 100);
    // usable 800, right column of 3: (800 - 32) / 3 = 256
    assert_eq!(geometry_after(&mut wm, d), (8, 38, 488, 784));
    assert_eq!(geometry(&wm, a), (504, 38, 488, 256));
    assert_eq!(geometry(&wm, b), (504, 302, 488, 256));
    assert_eq!(geometry(&wm, c), (504, 566, 488, 256));
}

fn geometry_after(wm: &mut WindowManager<u8>, id: WindowId) -> (i32, i32, u32, u32) {
    Layout::new("tiling").arrange(wm);
    geometry(wm, id)
}
