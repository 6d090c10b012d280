use cozydot::config::{Dock, Finder, MacosDesktop, Screenshots, SearchScope, Theme};
use cozydot::operations::desktop_macos::{macos_desktop_steps, MacosStep, HOME_UNSET};

fn run(step: &MacosStep) -> (String, String, Vec<String>, bool) {
    match step {
        MacosStep::Run(c) => (c.label.clone(), c.program.clone(), c.args.clone(), c.check),
        MacosStep::CreateDirectory(d) => panic!("unexpected directory {d}"),
    }
}

fn args(items: &[&str]) -> Vec<String> {
    items.iter().map(|item| item.to_string()).collect()
}

fn desktop(location: Option<&str>) -> MacosDesktop {
    MacosDesktop {
        dialogs: None,
        dock: Some(Dock { autohide: Some(true), mru_spaces: None, show_recent_applications: None }),
        finder: Some(Finder {
            ds_store_on_external: None,
            search_scope: Some(SearchScope::SCcf),
            show_filename_extensions: None,
            show_hidden_files: Some(false),
            show_path_bar: None,
            show_status_bar: None,
            sort_folders_first: None,
            warn_on_extension_change: None,
        }),
        keyboard: None,
        screenshots: Some(Screenshots { location: location.map(str::to_string) }),
        trackpad: None,
    }
}

#[test]
fn macos_settings_are_written_then_dock_and_finder_restart() {
    let (steps, failure) = macos_desktop_steps(Some(Theme::Dark), &Some(desktop(Some("~/Pictures/Shots"))), Some("/Users/me"));
    assert!(failure.is_none());
    assert_eq!(steps.len(), 8);
    assert_eq!(
        run(&steps[0]),
        ("macOS appearance".into(), "defaults".into(), args(&["write", "-g", "AppleInterfaceStyle", "-string", "Dark"]), true)
    );
    assert_eq!(run(&steps[1]).2, args(&["write", "com.apple.dock", "autohide", "-bool", "true"]));
    assert_eq!(run(&steps[2]).2, args(&["write", "com.apple.finder", "FXDefaultSearchScope", "-string", "SCcf"]));
    assert_eq!(run(&steps[3]).2, args(&["write", "com.apple.finder", "AppleShowAllFiles", "-bool", "false"]));
    match &steps[4] {
        MacosStep::CreateDirectory(d) => assert_eq!(d, "/Users/me/Pictures/Shots"),
        _ => panic!("expected the screenshot folder"),
    }
    assert_eq!(
        run(&steps[5]).2,
        args(&["write", "com.apple.screencapture", "location", "-string", "/Users/me/Pictures/Shots"])
    );
    assert_eq!(run(&steps[6]), ("Dock restart".into(), "killall".into(), args(&["Dock"]), false));
    assert_eq!(run(&steps[7]), ("Finder restart".into(), "killall".into(), args(&["Finder"]), false));
}

#[test]
fn light_theme_deletes_the_style_and_no_restart_without_writes() {
    let (steps, failure) = macos_desktop_steps(Some(Theme::Light), &None, None);
    assert!(failure.is_none());
    assert_eq!(steps.len(), 1);
    assert_eq!(run(&steps[0]).2, args(&["delete", "-g", "AppleInterfaceStyle"]));
    assert!(!run(&steps[0]).3);
}

#[test]
fn home_relative_screenshots_need_a_home() {
    let (steps, failure) = macos_desktop_steps(None, &Some(desktop(Some("~/Shots"))), None);
    assert_eq!(failure.unwrap(), HOME_UNSET);
    assert_eq!(steps.len(), 3);
    let (steps, failure) = macos_desktop_steps(None, &Some(desktop(Some("/tmp/shots"))), None);
    assert!(failure.is_none());
    match &steps[3] {
        MacosStep::CreateDirectory(d) => assert_eq!(d, "/tmp/shots"),
        _ => panic!("expected the screenshot folder"),
    }
}
