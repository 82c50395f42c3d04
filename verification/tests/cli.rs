use cosmic_term::cli::parse_args;

fn args(v: &[&str]) -> Vec<String> {
    v.iter().map(|s| s.to_string()).collect()
}

#[test]
fn no_arguments() {
    let r = parse_args(&args(&["cosmic-term"]));
    assert!(r.daemonize);
    assert_eq!(r.shell_program, None);
    assert!(r.shell_args.is_empty());
    assert!(r.ignored.is_empty());
}

#[test]
fn no_daemon_and_unknown_options() {
    let r = parse_args(&args(&["cosmic-term", "--foo", "--no-daemon", "-x"]));
    assert!(!r.daemonize);
    assert_eq!(r.ignored, vec!["--foo", "-x"]);
    assert_eq!(r.shell_program, None);
}

#[test]
fn command_after_e() {
    let r = parse_args(&args(&["cosmic-term", "-e", "htop", "--no-daemon", "-d", "5"]));
    assert!(r.daemonize);
    assert_eq!(r.shell_program, Some("htop".to_string()));
    assert_eq!(r.shell_args, vec!["--no-daemon", "-d", "5"]);
}

#[test]
fn terminators() {
    let r = parse_args(&args(&["cosmic-term", "--no-daemon", "--", "vim"]));
    assert!(!r.daemonize);
    assert_eq!(r.shell_program, Some("vim".to_string()));
    let r = parse_args(&args(&["cosmic-term", "--command"]));
    assert_eq!(r.shell_program, None);
}

#[test]
fn empty_argument_list() {
    let r = parse_args(&vec![]);
    assert!(r.daemonize);
    assert_eq!(r.shell_program, None);
}
