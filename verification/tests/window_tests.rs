use bradar_de::animation::WindowAnimPlan;
use bradar_de::window::{WindowId, WindowManager};

fn manager(duration_ms: u64) -> WindowManager<u32> {
    WindowManager::new(1920, 1080, 32, duration_ms)
}

#[test]
fn new_manager_is_empty() {
    let wm = manager(0);
    assert_eq!(wm.window_count(), 0);
    assert_eq!(wm.focused, None);
    assert_eq!(wm.active_workspace, 0);
    assert!(wm.visible_windows().is_empty());
    assert_eq!(wm.focused_title(), None);
}

#[test]
fn add_window_centres_and_focuses() {
    let mut wm = manager(0);
    let id = wm.add_window(7, 800, 600);
    assert_eq!(id, WindowId(0));
    assert_eq!(wm.focused, Some(id));
    let s = wm.get(id).unwrap();
    assert_eq!((s.x, s.y, s.width, s.height), (560, 240, 800, 600));
    assert_eq!(s.window, 7);
    assert_eq!(s.title, "Window");
    assert_eq!(s.workspace, 0);
    assert!(!s.minimized && !s.maximized && !s.fullscreen);
    assert_eq!(s.animation, None);
    assert_eq!(wm.focused_title(), Some("Window"));
}

#[test]
fn add_window_keeps_window_on_screen_and_below_bar() {
    let mut wm = manager(0);
    let id = wm.add_window(1, 2000, 1070);
    let s = wm.get(id).unwrap();
    assert_eq!((s.x, s.y), (0, 32));
    // odd differences round toward zero
    let id2 = wm.add_window(2, 1921, 999);
    let s2 = wm.get(id2).unwrap();
    assert_eq!((s2.x, s2.y), (0, 40));
}

#[test]
fn add_window_with_animations_plans_opening() {
    let mut wm = manager(200);
    let id = wm.add_window(1, 100, 100);
    assert_eq!(wm.get(id).unwrap().animation, Some(WindowAnimPlan::Open { duration_ms: 200 }));
}

#[test]
fn ids_are_fresh_and_increasing() {
    let mut wm = manager(0);
    let a = wm.add_window(1, 10, 10);
    let b = wm.add_window(2, 10, 10);
    wm.remove_window(a);
    let c = wm.add_window(3, 10, 10);
    assert_eq!((a, b, c), (WindowId(0), WindowId(1), WindowId(2)));
    assert_eq!(wm.window_ids(), vec![b, c]);
}

#[test]
fn remove_undoes_add() {
    let mut wm = manager(0);
    let a = wm.add_window(1, 10, 10);
    let before = wm.window_ids();
    let b = wm.add_window(2, 10, 10);
    assert_eq!(wm.window_count(), 2);
    wm.remove_window(b);
    assert_eq!(wm.window_ids(), before);
    assert_eq!(wm.window_count(), 1);
    assert_eq!(wm.focused, Some(a));
}

#[test]
fn removing_focused_moves_focus_to_first_window() {
    let mut wm = manager(0);
    let a = wm.add_window(1, 10, 10);
    let b = wm.add_window(2, 10, 10);
    let c = wm.add_window(3, 10, 10);
    assert_eq!(wm.focused, Some(c));
    wm.remove_window(c);
    assert_eq!(wm.focused, Some(a));
    wm.remove_window(b);
    assert_eq!(wm.focused, Some(a));
    wm.remove_window(a);
    assert_eq!(wm.focused, None);
    wm.remove_window(WindowId(42));
    assert_eq!(wm.window_count(), 0);
}

#[test]
fn focus_only_managed_windows() {
    let mut wm = manager(0);
    let a = wm.add_window(1, 10, 10);
    let _b = wm.add_window(2, 10, 10);
    wm.focus(a);
    assert_eq!(wm.focused, Some(a));
    wm.focus(WindowId(99));
    assert_eq!(wm.focused, Some(a));
}

#[test]
fn focus_at_picks_topmost_shown_window() {
    let mut wm = manager(0);
    let a = wm.add_window(1, 800, 600); // (560, 240)
    let b = wm.add_window(2, 400, 300); // (760, 390)
    let c = wm.add_window(3, 10, 10); // (955, 535)
    wm.set_geometry(c, 0, 40, 10, 10);
    // with neither overlapping window focused, the newer one is above
    assert_eq!(wm.focused, Some(c));
    assert_eq!(wm.focus_at(800, 400), Some(b));
    assert_eq!(wm.focused, Some(b));
    assert_eq!(wm.focus_at(600, 250), Some(a));
    assert_eq!(wm.focused, Some(a));
    // the focused window is on top of everything
    assert_eq!(wm.focus_at(800, 400), Some(a));
    assert_eq!(wm.focused, Some(a));
    // right and bottom edges are outside
    assert_eq!(wm.focus_at(1360, 300), None);
    assert_eq!(wm.focused, Some(a));
    assert_eq!(wm.focus_at(559, 300), None);
    wm.focus(c);
    wm.minimize(b);
    assert_eq!(wm.focus_at(800, 400), Some(a));
}

#[test]
fn stacked_windows_put_focused_last() {
    let mut wm = manager(0);
    let a = wm.add_window(1, 10, 10);
    let b = wm.add_window(2, 10, 10);
    let c = wm.add_window(3, 10, 10);
    wm.focus(a);
    let ids: Vec<WindowId> = wm.stacked_windows().iter().map(|s| s.id).collect();
    assert_eq!(ids, vec![b, c, a]);
}

#[test]
fn move_window_jumps_without_animations() {
    let mut wm = manager(0);
    let a = wm.add_window(1, 10, 10);
    wm.move_window(a, -5, 70);
    let s = wm.get(a).unwrap();
    assert_eq!((s.x, s.y), (-5, 70));
    assert_eq!(s.animation, None);
}

#[test]
fn move_window_plans_a_half_length_move() {
    let mut wm = manager(301);
    let a = wm.add_window(1, 10, 10);
    let (x, y) = (wm.get(a).unwrap().x, wm.get(a).unwrap().y);
    wm.move_window(a, 100, 200);
    let s = wm.get(a).unwrap();
    assert_eq!((s.x, s.y), (x, y));
    assert_eq!(
        s.animation,
        Some(WindowAnimPlan::Move { from_x: x, to_x: 100, from_y: y, to_y: 200, duration_ms: 150 })
    );
}

#[test]
fn maximize_twice_restores_place_and_size() {
    let mut wm = manager(0);
    let a = wm.add_window(1, 100, 100);
    wm.maximize(a);
    let s = wm.get(a).unwrap();
    assert!(s.maximized);
    assert_eq!((s.x, s.y, s.width, s.height), (0, 32, 1920, 1048));
    assert_eq!(s.saved_geometry, Some((910, 490, 100, 100)));
    wm.maximize(a);
    let s = wm.get(a).unwrap();
    assert!(!s.maximized);
    assert_eq!((s.x, s.y, s.width, s.height), (910, 490, 100, 100));
    assert_eq!(s.saved_geometry, None);
}

#[test]
fn minimize_moves_focus_to_first_shown_window() {
    let mut wm = manager(0);
    let a = wm.add_window(1, 10, 10);
    let b = wm.add_window(2, 10, 10);
    let c = wm.add_window(3, 10, 10);
    wm.minimize(a);
    assert_eq!(wm.focused, Some(c));
    wm.minimize(c);
    assert_eq!(wm.focused, Some(b));
    assert!(wm.get(c).unwrap().minimized);
    wm.minimize(b);
    assert_eq!(wm.focused, None);
}

#[test]
fn switch_workspace_focuses_first_window_there() {
    let mut wm = manager(0);
    let a = wm.add_window(1, 10, 10);
    let b = wm.add_window(2, 10, 10);
    wm.get_mut(a).unwrap().workspace = 1;
    wm.get_mut(b).unwrap().workspace = 1;
    wm.switch_workspace(1);
    assert_eq!(wm.active_workspace, 1);
    assert_eq!(wm.focused, Some(a));
    wm.switch_workspace(2);
    assert_eq!(wm.focused, None);
    assert!(wm.visible_windows().is_empty());
}

#[test]
fn visible_windows_put_focused_first() {
    let mut wm = manager(0);
    let a = wm.add_window(1, 10, 10);
    let b = wm.add_window(2, 10, 10);
    let c = wm.add_window(3, 10, 10);
    let d = wm.add_window(4, 10, 10);
    wm.get_mut(d).unwrap().workspace = 3;
    wm.focus(b);
    let ids: Vec<WindowId> = wm.visible_windows().iter().map(|s| s.id).collect();
    assert_eq!(ids, vec![b, a, c]);
    wm.minimize(a);
    let ids: Vec<WindowId> = wm.visible_windows().iter().map(|s| s.id).collect();
    assert_eq!(ids, vec![b, c]);
}

#[test]
fn set_geometry_and_animation_change_one_window() {
    let mut wm = manager(100);
    let a = wm.add_window(1, 10, 10);
    let b = wm.add_window(2, 10, 10);
    wm.set_geometry(a, 1, 2, 3, 4);
    wm.set_animation(a, None);
    let s = wm.get(a).unwrap();
    assert_eq!((s.x, s.y, s.width, s.height, s.animation), (1, 2, 3, 4, None));
    assert_eq!(wm.get(b).unwrap().animation, Some(WindowAnimPlan::Open { duration_ms: 100 }));
    assert!(wm.get(WindowId(7)).is_none());
}

#[test]
fn geometry_reads_size_as_i32() {
    let mut wm = manager(0);
    let a = wm.add_window(1, 10, 20);
    let g = wm.get(a).unwrap().geometry();
    assert_eq!((g.x, g.y, g.w, g.h), (955, 530, 10, 20));
    wm.set_geometry(a, 0, 0, u32::MAX, 5);
    let g = wm.get(a).unwrap().geometry();
    assert_eq!((g.w, g.h), (-1, 5));
}

#[test]
fn focus_on_an_unmanaged_id_is_tolerated() {
    let mut wm = manager(0);
    let a = wm.add_window(1, 10, 10);
    wm.focused = Some(WindowId(99));
    assert_eq!(wm.focused_title(), None);
    wm.remove_window(a);
    assert_eq!(wm.focused, Some(WindowId(99)));
    wm.switch_workspace(0);
    assert_eq!(wm.focused, None);
}
