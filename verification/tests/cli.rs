use arctis_chatmix::cli::{parse_args, Invocation, Options, Rest, Supervisor};

fn parsed(args: &[&str]) -> Invocation {
    parse_args(&args.iter().map(|a| a.to_string()).collect())
}

const PLAIN: Options = Options { status: false, manage_default: true, verbose: false };

#[test]
fn options_are_read() {
    assert_eq!(parsed(&[]), Invocation::Run(PLAIN));
    assert_eq!(parsed(&["status"]), Invocation::Run(Options { status: true, ..PLAIN }));
    assert_eq!(
        parsed(&["--no-default-sink"]),
        Invocation::Run(Options { manage_default: false, ..PLAIN })
    );
    assert_eq!(parsed(&["-v"]), Invocation::Run(Options { verbose: true, ..PLAIN }));
    assert_eq!(parsed(&["--verbose"]), Invocation::Run(Options { verbose: true, ..PLAIN }));
}

#[test]
fn options_combine_in_any_order() {
    let all = Invocation::Run(Options { status: true, manage_default: false, verbose: true });
    assert_eq!(parsed(&["status", "-v", "--no-default-sink"]), all);
    assert_eq!(parsed(&["--no-default-sink", "--verbose", "status", "-v"]), all);
}

#[test]
fn the_first_other_argument_decides() {
    assert_eq!(parsed(&["-h"]), Invocation::Help);
    assert_eq!(parsed(&["-v", "--help", "--bogus"]), Invocation::Help);
    assert_eq!(
        parsed(&["status", "--bogus", "--help"]),
        Invocation::Unknown("--bogus".to_string())
    );
    assert_eq!(parsed(&[""]), Invocation::Unknown(String::new()));
    assert_eq!(parsed(&["Status"]), Invocation::Unknown("Status".to_string()));
}

#[test]
fn a_found_device_is_announced() {
    let mut supervisor = Supervisor::new();
    assert_eq!(
        supervisor.found("Nova", "/dev/hidraw3", 0),
        "found Nova at /dev/hidraw3"
    );
    assert_eq!(
        supervisor.found("Nova", "/dev/hidraw3", 1),
        "found Nova at /dev/hidraw3 (+1 listen node)"
    );
    assert_eq!(
        supervisor.found("Nova", "/dev/hidraw3", 12),
        "found Nova at /dev/hidraw3 (+12 listen nodes)"
    );
}

#[test]
fn waiting_is_announced_once() {
    let mut supervisor = Supervisor::new();
    let waiting = "waiting for a supported Arctis device...".to_string();
    assert_eq!(supervisor.none_found(), Rest { log: Some(waiting.clone()), secs: 2 });
    assert_eq!(supervisor.none_found(), Rest { log: None, secs: 2 });
    supervisor.found("Nova", "/dev/hidraw3", 0);
    assert_eq!(supervisor.none_found(), Rest { log: Some(waiting), secs: 2 });
}

#[test]
fn a_session_is_followed_by_the_next_search() {
    assert_eq!(Supervisor::session_over(Ok(true)), Some(Rest { log: None, secs: 2 }));
    assert_eq!(Supervisor::session_over(Ok(false)), None);
    assert_eq!(
        Supervisor::session_over(Err("cannot open it".to_string())),
        Some(Rest { log: Some("error: cannot open it".to_string()), secs: 5 })
    );
}
