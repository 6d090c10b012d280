use cozydot::config::{Gnome, Idle, LinuxDesktop};

fn with_timeout(timeout: &str) -> LinuxDesktop {
    LinuxDesktop {
        gnome: Some(Gnome {
            button_layout: None,
            dash_to_dock: false,
            extensions: Vec::new(),
            files: None,
            idle: Some(Idle { timeout: Some(timeout.to_string()), dim: None }),
            keyboard: None,
            rounded_window_corners: false,
            terminal: None,
        }),
    }
}

#[test]
fn idle_timeouts_are_whole_seconds_within_32_bits() {
    with_timeout("5m").validate().unwrap();
    with_timeout("1h 30m").validate().unwrap();
    with_timeout("100000000000ns").validate().unwrap();
    assert_eq!(
        with_timeout("1500ms").validate().unwrap_err(),
        "desktop.linux.gnome.idle.timeout: must resolve to whole seconds"
    );
    assert_eq!(
        with_timeout("5000000000s").validate().unwrap_err(),
        "desktop.linux.gnome.idle.timeout: exceeds uint32 range"
    );
    assert_eq!(with_timeout("soon").validate().unwrap_err(), "desktop.linux.gnome.idle.timeout");
}

#[test]
fn durations_beyond_reach_are_refused_without_parsing() {
    assert_eq!(
        with_timeout("18446744073709551615s 1000000000ns").validate().unwrap_err(),
        "desktop.linux.gnome.idle.timeout: exceeds uint32 range"
    );
}

#[test]
fn whole_second_durations_that_overflow_are_parse_errors() {
    assert_eq!(with_timeout("584942417356y").validate().unwrap_err(), "desktop.linux.gnome.idle.timeout");
    assert_eq!(with_timeout("99999999999999999999999s").validate().unwrap_err(), "desktop.linux.gnome.idle.timeout");
    assert_eq!(
        with_timeout("18446744073709551615s").validate().unwrap_err(),
        "desktop.linux.gnome.idle.timeout: exceeds uint32 range"
    );
}
