//! Tests for the window attribute builders and getters.

use keter_test::window::Position;
use keter_test::window::Size;
use keter_test::window::Theme;
use keter_test::window::WindowAttributes;
use keter_test::window::WindowButtons;
use keter_test::window::WindowLevel;
use keter_test::RunnerError;

#[test]
fn defaults_match_the_documented_values() {
    let attrs = WindowAttributes::default();
    assert_eq!(attrs.inner_size(), Size { width: 800, height: 600 });
    assert_eq!(attrs.min_inner_size(), None);
    assert_eq!(attrs.max_inner_size(), None);
    assert_eq!(attrs.position(), None);
    assert_eq!(attrs.title(), "Winit window");
    assert!(attrs.resizable());
    assert!(!attrs.maximized());
    assert!(!attrs.visible());
    assert!(attrs.transparent());
    assert!(!attrs.blur());
    assert!(attrs.decorations());
    assert_eq!(attrs.window_level(), WindowLevel::Normal);
    assert_eq!(attrs.theme(), None);
    assert!(attrs.enabled_buttons.contains(WindowButtons::all()));
}

#[test]
fn builders_set_exactly_their_attribute() {
    let attrs = WindowAttributes::default()
        .with_inner_size(Size { width: 1024, height: 768 })
        .with_min_inner_size(Size { width: 100, height: 100 })
        .with_max_inner_size(Size { width: 4096, height: 4096 })
        .with_position(Position { x: -5, y: 40 })
        .with_title("demo".to_string())
        .with_maximized(true)
        .with_visible(true)
        .with_resizable(false)
        .with_transparent(false)
        .with_blur(true)
        .with_decorations(false)
        .with_window_level(WindowLevel::AlwaysOnTop)
        .with_theme(Some(Theme::Dark));

    assert_eq!(attrs.inner_size(), Size { width: 1024, height: 768 });
    assert_eq!(attrs.min_inner_size(), Some(Size { width: 100, height: 100 }));
    assert_eq!(attrs.max_inner_size(), Some(Size { width: 4096, height: 4096 }));
    assert_eq!(attrs.position(), Some(Position { x: -5, y: 40 }));
    assert_eq!(attrs.title(), "demo");
    assert!(attrs.maximized());
    assert!(attrs.visible());
    assert!(!attrs.resizable());
    assert!(!attrs.transparent());
    assert!(attrs.blur());
    assert!(!attrs.decorations());
    assert_eq!(attrs.window_level(), WindowLevel::AlwaysOnTop);
    assert_eq!(attrs.theme(), Some(Theme::Dark));
}

#[test]
fn button_sets_behave_as_bit_sets() {
    let all = WindowButtons::all();
    let none = WindowButtons::empty();
    assert!(all.contains(none));
    assert!(all.contains(all));
    assert!(none.contains(none));
    assert!(!none.contains(all));
}

#[test]
fn error_messages_are_not_empty() {
    let errors = vec![
        RunnerError::Spawn("x".to_string()),
        RunnerError::NonZeroExit(Some(2)),
        RunnerError::Timeout,
        RunnerError::Protocol,
        RunnerError::EnvironmentUnavailable("y".to_string()),
        RunnerError::DoubleCompletion,
    ];
    for e in errors {
        assert!(!e.message().is_empty());
    }
}
