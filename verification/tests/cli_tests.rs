use sc2dsu::cli::{parse_args_from, Mode};

fn parse(args: &[&str]) -> Mode {
    let owned: Vec<String> = args.iter().map(|s| (*s).to_string()).collect();
    parse_args_from(&owned)
}

#[test]
fn parse_args_defaults_to_visible_gui() {
    assert_eq!(parse(&[]), Mode::Gui { start_minimized: false });
    assert_eq!(parse(&["some-positional-arg"]), Mode::Gui { start_minimized: false });
}

#[test]
fn parse_args_recognizes_each_mode() {
    assert_eq!(parse(&["--probe"]), Mode::Probe);
    assert_eq!(parse(&["-p"]), Mode::Probe);
    assert_eq!(parse(&["--headless"]), Mode::Headless);
    assert_eq!(parse(&["-H"]), Mode::Headless);
    assert_eq!(parse(&["--gui"]), Mode::Gui { start_minimized: false });
    assert_eq!(parse(&["--tray"]), Mode::Gui { start_minimized: true });
    assert_eq!(parse(&["--minimized"]), Mode::Gui { start_minimized: true });
}

#[test]
fn parse_args_uses_first_recognized_flag() {
    assert_eq!(parse(&["--gui", "--probe"]), Mode::Gui { start_minimized: false });
}

#[test]
fn parse_args_skips_unknown_before_first_flag() {
    assert_eq!(parse(&["x", "--verbose", "-H", "--probe"]), Mode::Headless);
    assert_eq!(parse(&["--tray", "--gui"]), Mode::Gui { start_minimized: true });
}

#[test]
fn parse_args_is_case_and_prefix_sensitive() {
    assert_eq!(parse(&["--PROBE"]), Mode::Gui { start_minimized: false });
    assert_eq!(parse(&["--probe2"]), Mode::Gui { start_minimized: false });
    assert_eq!(parse(&["-h"]), Mode::Gui { start_minimized: false });
    assert_eq!(parse(&["--prob"]), Mode::Gui { start_minimized: false });
}
