use thumbcache::geometry::fit_dimensions;
use thumbcache::geometry::half_dimensions;
use thumbcache::geometry::Tier;
use thumbcache::shell_types::DialogOptions;
use thumbcache::shell_types::Position;
use thumbcache::shell_types::WatcherCommand;

#[test]
fn tier_edges() {
    assert_eq!(Tier::Normal.edge(), 128);
    assert_eq!(Tier::Large.edge(), 256);
}

#[test]
fn fitting_keeps_the_aspect_ratio() {
    assert_eq!(fit_dimensions(100, 200, 256), (128, 256));
    assert_eq!(fit_dimensions(200, 100, 256), (256, 128));
    assert_eq!(fit_dimensions(100, 100, 256), (256, 256));
    assert_eq!(fit_dimensions(100, 200, 128), (64, 128));
    // Rounding is to nearest, and never below one pixel.
    assert_eq!(fit_dimensions(3000, 1, 256), (256, 1));
    assert_eq!(fit_dimensions(300, 200, 256), (256, 171));
}

#[test]
fn swapped_sources_give_swapped_thumbnails() {
    let (w, h) = fit_dimensions(123, 457, 256);
    assert_eq!(fit_dimensions(457, 123, 256), (h, w));
}

#[test]
fn halving_rounds_up_and_never_vanishes() {
    assert_eq!(half_dimensions(256, 128), (128, 64));
    assert_eq!(half_dimensions(255, 1), (128, 1));
    assert_eq!(half_dimensions(1, 2), (1, 1));
}

#[test]
fn shell_types_carry_plain_values() {
    let p = Position { x: -3, y: 40 };
    assert_eq!((p.x, p.y), (-3, 40));
    let w = WatcherCommand::Watch(String::from("/tmp"), true);
    assert!(matches!(w, WatcherCommand::Watch(_, true)));
    let u = WatcherCommand::Unwatch(String::from("/tmp"));
    assert!(matches!(u, WatcherCommand::Unwatch(_)));
    let d = DialogOptions {
        dialog_type: String::from("confirm"),
        title: Some(String::from("t")),
        kind: None,
        ok_label: Some(String::from("OK")),
        cancel_label: Some(String::from("Cancel")),
        message: String::from("m"),
    };
    assert_eq!(d.dialog_type, "confirm");
    assert_eq!(d.message, "m");
}
