use snowland::display::Display;
use snowland::position::{DisplaySelection, HorizontalPositionAnchor, ModulePosition, VerticalPositionAnchor};
use snowland::protocol::Display as ReportedDisplay;
use snowland::scene::{DisplayLayout, SceneData};

fn display(name: &str, id: &str, primary: bool, x: i32, y: i32, width: i32, height: i32) -> Display {
    Display::new(name.to_string(), id.to_string(), primary, x, y, width, height)
}

#[test]
fn display_reports_its_properties() {
    let d = display("Main", "DP-1", true, 10, 20, 1920, 1080);
    assert_eq!(d.name(), "Main");
    assert_eq!(d.id(), "DP-1");
    assert!(d.primary());
    assert_eq!((d.x(), d.y(), d.width(), d.height()), (10, 20, 1920, 1080));
    assert_eq!(d.describe(), "Main 1920x1080");
}

#[test]
fn uninitialized_display_is_a_placeholder() {
    let d = Display::uninitialized();
    assert_eq!(d.name(), "Virtual uninitialized Display");
    assert_eq!(d.id(), "UNINITIALIZED");
    assert!(!d.primary());
    assert_eq!((d.x(), d.y(), d.width(), d.height()), (-1, -1, -1, -1));
    assert_eq!(d.describe(), "Virtual uninitialized Display -1x-1");
}

#[test]
fn remapping_moves_only_the_position() {
    let d = display("Side", "HDMI-1", false, 0, 0, 800, 600).remap_coordinates(-800, 300);
    assert_eq!((d.x(), d.y()), (-800, 300));
    assert_eq!((d.name().as_str(), d.id().as_str(), d.width(), d.height()), ("Side", "HDMI-1", 800, 600));
    assert_eq!(d.clone(), d);
}

#[test]
fn the_first_flagged_display_becomes_primary() {
    let mut layout = DisplayLayout::new();
    assert_eq!(layout.primary_display().id(), "UNINITIALIZED");
    layout.update_displays(vec![
        display("A", "a", false, 0, 0, 10, 10),
        display("B", "b", true, 10, 0, 20, 20),
        display("C", "c", true, 30, 0, 30, 30),
    ]);
    assert_eq!(layout.primary_display().id(), "b");
    layout.update_displays(vec![display("A", "a", false, 0, 0, 10, 10), display("B", "b", false, 1, 1, 1, 1)]);
    assert_eq!(layout.primary_display().id(), "a");
    layout.update_displays(vec![]);
    assert_eq!(layout.primary_display().id(), "UNINITIALIZED");
}

#[test]
fn lookup_finds_the_last_display_with_an_id() {
    let mut layout = DisplayLayout::new();
    layout.update_displays(vec![
        display("First", "x", false, 0, 0, 1, 1),
        display("Other", "y", false, 0, 0, 2, 2),
        display("Second", "x", false, 0, 0, 3, 3),
    ]);
    assert_eq!(layout.lookup_display(&"x".to_string()).unwrap().name(), "Second");
    assert_eq!(layout.lookup_display(&"y".to_string()).unwrap().name(), "Other");
    assert!(layout.lookup_display(&"z".to_string()).is_none());
}

#[test]
fn anchors_place_content_in_the_available_space() {
    assert_eq!(HorizontalPositionAnchor::Left.compute(100, 30), 0);
    assert_eq!(HorizontalPositionAnchor::Center.compute(100, 30), 35);
    assert_eq!(HorizontalPositionAnchor::Center.compute(101, 31), 35);
    assert_eq!(HorizontalPositionAnchor::Center.compute(-5, 3), -3);
    assert_eq!(HorizontalPositionAnchor::Right.compute(100, 30), 70);
    assert_eq!(VerticalPositionAnchor::Top.compute(50, 10), 0);
    assert_eq!(VerticalPositionAnchor::Center.compute(50, 10), 20);
    assert_eq!(VerticalPositionAnchor::Bottom.compute(50, 10), 40);
    assert_eq!(HorizontalPositionAnchor::default(), HorizontalPositionAnchor::Center);
    assert_eq!(VerticalPositionAnchor::default(), VerticalPositionAnchor::Center);
}

#[test]
fn baselines_lie_below_the_top_edge() {
    assert_eq!(VerticalPositionAnchor::Top.compute_baselined(50, 10), 10);
    assert_eq!(VerticalPositionAnchor::Center.compute_baselined(50, 10), 30);
    assert_eq!(VerticalPositionAnchor::Bottom.compute_baselined(50, 10), 50);
    assert_eq!(VerticalPositionAnchor::Center.compute_baselined(50, 11), 30);
    assert_eq!(VerticalPositionAnchor::Center.compute(50, 11) + 11, 31);
}

#[test]
fn positions_are_relative_to_the_selected_display() {
    let mut layout = DisplayLayout::new();
    layout.update_displays(vec![
        display("Left", "l", false, 0, 0, 1000, 500),
        display("Right", "r", true, 1000, 100, 800, 600),
    ]);
    let data = SceneData::new(&layout, 1800, 700);
    assert_eq!((data.width(), data.height()), (1800, 700));

    let on_primary = ModulePosition::new(HorizontalPositionAnchor::Right, VerticalPositionAnchor::Top, DisplaySelection::Primary, -5, 7);
    assert_eq!(on_primary.compute_position(&data, 100, 50), Some((1000 + 700 - 5, 100 + 7)));
    assert_eq!(on_primary.compute_position_baselined(&data, 100, 50), Some((1695, 100 + 50 + 7)));

    let whole = ModulePosition::new(HorizontalPositionAnchor::Center, VerticalPositionAnchor::Bottom, DisplaySelection::NoDisplay, 0, 0);
    assert_eq!(whole.compute_position(&data, 200, 100), Some((800, 600)));

    let left = ModulePosition::new(HorizontalPositionAnchor::Left, VerticalPositionAnchor::Center, DisplaySelection::Identified { id: "l".to_string(), name: "Left".to_string() }, 3, 0);
    assert_eq!(left.compute_position(&data, 10, 10), Some((3, 245)));

    let missing = ModulePosition::new(HorizontalPositionAnchor::Left, VerticalPositionAnchor::Top, DisplaySelection::Identified { id: "gone".to_string(), name: "Gone".to_string() }, 0, 0);
    assert_eq!(missing.compute_position(&data, 10, 10), None);
    assert_eq!(missing.compute_position_baselined(&data, 10, 10), None);
}

#[test]
fn module_position_defaults_to_the_primary_center() {
    let p = ModulePosition::default();
    assert_eq!(p.horizontal(), HorizontalPositionAnchor::Center);
    assert_eq!(p.vertical(), VerticalPositionAnchor::Center);
    assert_eq!(p.display(), &DisplaySelection::Primary);
    assert_eq!((p.x_offset(), p.y_offset()), (0, 0));
    assert_eq!(DisplaySelection::default(), DisplaySelection::Primary);
}

#[test]
fn displays_are_reported_with_all_properties() {
    let d = display("Main", "DP-1", true, -10, 20, 640, 480);
    let report = ReportedDisplay::from_display(&d);
    assert_eq!(report.name, "Main");
    assert_eq!(report.id, "DP-1");
    assert_eq!((report.x, report.y, report.width, report.height, report.primary), (-10, 20, 640, 480, true));
}
