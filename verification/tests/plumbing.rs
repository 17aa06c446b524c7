use arctis_chatmix::modules::setup_sinks;
use arctis_chatmix::plumbing::{Next, Plumbing};

const LISTING: &str = "7\tmodule-null-sink\tsink_name=\"Arctis Game\"\n\
    8\tmodule-loopback\tsource=mic.monitor sink=\"Arctis Game\"\n\
    9\tmodule-loopback\tsource=\"Arctis Game.monitor\" sink=foo\n";

/// The arguments of the command that is next.
fn args(plumbing: &Plumbing) -> Vec<String> {
    match plumbing.next() {
        Next::Run(args) => args,
        Next::Over(r) => panic!("over: {r:?}"),
    }
}

#[test]
fn leftovers_are_unloaded_before_the_sinks_are_built() {
    let mut run = Plumbing::setup("alsa_out");
    assert_eq!(args(&run), ["list", "modules", "short"]);
    run.step(Ok(LISTING.to_string()));
    assert_eq!(args(&run), ["unload-module", "7"]);
    run.step(Err("no such module".to_string()));
    assert_eq!(args(&run), ["unload-module", "9"]);
    run.step(Ok(String::new()));
    for (i, command) in setup_sinks("alsa_out").into_iter().enumerate() {
        assert_eq!(args(&run), command);
        run.step(Ok(format!("{}\n", 536870912 + i)));
    }
    assert_eq!(run.next(), Next::Over(Ok(())));
}

#[test]
fn modules_that_cannot_be_listed_stay() {
    let mut run = Plumbing::setup("alsa_out");
    run.step(Err("connection refused".to_string()));
    assert_eq!(args(&run), setup_sinks("alsa_out")[0]);
}

#[test]
fn the_first_failed_load_ends_the_setup() {
    let mut run = Plumbing::setup("alsa_out");
    run.step(Ok(String::new()));
    run.step(Ok("12\n".to_string()));
    run.step(Err("pactl load-module failed".to_string()));
    assert_eq!(run.next(), Next::Over(Err("pactl load-module failed".to_string())));
    run.step(Ok("13\n".to_string()));
    assert_eq!(run.next(), Next::Over(Err("pactl load-module failed".to_string())));

    let mut run = Plumbing::setup("alsa_out");
    run.step(Ok(String::new()));
    run.step(Ok("what".to_string()));
    assert_eq!(
        run.next(),
        Next::Over(Err("unexpected pactl load-module output: what".to_string()))
    );
}

#[test]
fn a_teardown_only_unloads() {
    let mut run = Plumbing::teardown();
    assert_eq!(args(&run), ["list", "modules", "short"]);
    run.step(Ok(LISTING.to_string()));
    assert_eq!(args(&run), ["unload-module", "7"]);
    run.step(Ok(String::new()));
    assert_eq!(args(&run), ["unload-module", "9"]);
    run.step(Ok(String::new()));
    assert_eq!(run.next(), Next::Over(Ok(())));

    let mut run = Plumbing::teardown();
    run.step(Err("connection refused".to_string()));
    assert_eq!(run.next(), Next::Over(Ok(())));
}
