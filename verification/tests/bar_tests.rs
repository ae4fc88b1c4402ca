use bradar_de::bar::{Bar, Widget, WorkspaceDot};
use bradar_de::config::BarConfig;

fn bar(format: &str) -> Bar {
    Bar::new(BarConfig { enabled: true, height: 30, clock_format: format.to_string() }, 1920)
}

#[test]
fn new_bar_layout() {
    let b = bar("%H:%M");
    assert_eq!(b.width, 1920);
    assert!(matches!(b.left.as_slice(), [Widget::Workspaces { active: 0, total: 9 }]));
    assert!(matches!(b.center.as_slice(), [Widget::ActiveWindow { title }] if title.is_empty()));
    assert!(matches!(b.right.as_slice(), [Widget::Clock]));
}

#[test]
fn update_shows_workspace_and_title() {
    let mut b = bar("%H:%M");
    b.update(3, Some("Firefox"));
    let d = b.render_data_at("12:00".to_string());
    assert_eq!(d.height, 30);
    assert_eq!(d.time, "12:00");
    assert_eq!(d.active_title, "Firefox");
    assert_eq!(d.workspace_dots.len(), 9);
    for (i, dot) in d.workspace_dots.iter().enumerate() {
        assert_eq!(*dot, WorkspaceDot { index: i, active: i == 3 });
    }
    b.update(12, None);
    let d = b.render_data_at(String::new());
    assert_eq!(d.active_title, "");
    assert!(d.workspace_dots.iter().all(|dot| !dot.active));
}

#[test]
fn dots_and_title_follow_widgets() {
    let mut b = bar("%H:%M");
    b.left.push(Widget::Spacer);
    b.left.push(Widget::Workspaces { active: 1, total: 2 });
    b.center.insert(0, Widget::Clock);
    b.center.push(Widget::ActiveWindow { title: "second".to_string() });
    b.update(0, Some("term"));
    let d = b.render_data_at("t".to_string());
    let dots: Vec<(usize, bool)> = d.workspace_dots.iter().map(|d| (d.index, d.active)).collect();
    assert_eq!(dots.len(), 11);
    assert_eq!(dots[0], (0, true));
    assert_eq!(dots[9], (0, true));
    assert_eq!(dots[10], (1, false));
    assert_eq!(d.active_title, "term");
    assert!(matches!(&b.center[2], Widget::ActiveWindow { title } if title == "term"));
    assert!(matches!(b.right.as_slice(), [Widget::Clock]));
}

#[test]
fn clock_uses_the_format() {
    let b = bar("%% static");
    assert_eq!(b.current_time(), "% static");
    let d = b.render_data();
    assert_eq!(d.time, "% static");
    let d = b.render_data_checked().unwrap();
    assert_eq!(d.time, "% static");
    let clock = bar("%H:%M").render_data_checked().unwrap().time;
    assert_eq!(clock.len(), 5);
    assert_eq!(&clock[2..3], ":");
}

#[test]
fn bad_clock_format_is_refused() {
    let b = bar("%Q %H");
    assert!(b.render_data_checked().is_none());
}
