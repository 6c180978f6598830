use zarr_cli::args::{history_dir, parse_cli_args, startup_mode, CliArgs, Mode, HISTORY_FILE};

fn parse(words: &[&str]) -> Result<CliArgs, String> {
    parse_cli_args(&words.iter().map(|w| w.to_string()).collect())
}

#[test]
fn no_arguments() {
    let a = parse(&[]).unwrap();
    assert!(a.files.is_empty() && a.commands.is_empty() && !a.help && !a.version);
}

#[test]
fn files_and_commands_keep_their_order() {
    let a = parse(&["a.sql", "-c", "SELECT 1", "--file", "b.sql", "--command", "-f", "-f", "-"])
        .unwrap();
    assert_eq!(a.files, vec!["a.sql", "b.sql", "-"]);
    assert_eq!(a.commands, vec!["SELECT 1", "-f"]);
}

#[test]
fn flags() {
    for w in ["-h", "--help"] {
        let a = parse(&[w]).unwrap();
        assert!(a.help && !a.version);
    }
    for w in ["-V", "--version"] {
        let a = parse(&[w]).unwrap();
        assert!(a.version && !a.help);
    }
}

#[test]
fn a_lone_dash_or_nothing_is_a_path() {
    assert_eq!(parse(&["-", ""]).unwrap().files, vec!["-", ""]);
}

#[test]
fn options_need_their_values() {
    assert_eq!(parse(&["-f"]).unwrap_err(), "-f requires a path argument");
    assert_eq!(parse(&["x", "--file"]).unwrap_err(), "--file requires a path argument");
    assert_eq!(parse(&["-c"]).unwrap_err(), "-c requires a SQL argument");
    assert_eq!(parse(&["--command"]).unwrap_err(), "--command requires a SQL argument");
}

#[test]
fn unknown_options_are_refused() {
    assert_eq!(parse(&["-x"]).unwrap_err(), "Unknown option: -x (try --help)");
    assert_eq!(parse(&["-h", "--", "-f"]).unwrap_err(), "Unknown option: -- (try --help)");
    assert_eq!(parse(&["-é"]).unwrap_err(), "Unknown option: -é (try --help)");
}

#[test]
fn arguments_add_up() {
    let a = parse(&["a", "-c", "x"]).unwrap();
    let b = parse(&["-h", "-c", "y", "b"]).unwrap();
    let ab = parse(&["a", "-c", "x", "-h", "-c", "y", "b"]).unwrap();
    assert_eq!(ab.files, [a.files, b.files].concat());
    assert_eq!(ab.commands, [a.commands, b.commands].concat());
    assert_eq!(ab.help, a.help || b.help);
}

#[test]
fn a_file_needs_no_option() {
    assert_eq!(parse(&["-f", "a"]).unwrap().files, parse(&["a"]).unwrap().files);
}

#[test]
fn the_version_comes_before_help_and_help_before_work() {
    assert!(matches!(startup_mode(&parse(&["-h", "-V", "a"]).unwrap(), true), Mode::Version));
    assert!(matches!(startup_mode(&parse(&["a", "-h"]).unwrap(), true), Mode::Help));
    assert!(matches!(startup_mode(&parse(&["a"]).unwrap(), false), Mode::Batch));
    assert!(matches!(startup_mode(&parse(&["-c", "x"]).unwrap(), false), Mode::Batch));
    assert!(matches!(startup_mode(&parse(&[]).unwrap(), true), Mode::Batch));
    assert!(matches!(startup_mode(&parse(&[]).unwrap(), false), Mode::Interactive));
}

#[test]
fn history_stands_in_the_home_directory() {
    assert_eq!(history_dir(Some("/home/u".to_string())), "/home/u");
    assert_eq!(history_dir(None), ".");
    assert_eq!(HISTORY_FILE, ".zarr_cli_history");
}
