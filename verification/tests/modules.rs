use arctis_chatmix::modules::{
    get_default_sink, load_module, module_args, module_is_ours, notify_low_battery, pactl_result,
    parse_module_line, set_mix, setup_sinks, unload_our_modules, volume_of,
};

#[test]
fn module_line_parses() {
    let line = "536870917\tmodule-null-sink\tsink_name=arctis_chat sink_properties=node.description=\"Arctis\\ Chat\"\t";
    let (index, arg) = parse_module_line(line).unwrap();
    assert_eq!(index, "536870917");
    assert!(arg.contains("arctis_chat"));
    assert_eq!(parse_module_line(""), None);
    assert_eq!(parse_module_line("not-a-number\tname\targ"), None);
    // Modules can legitimately have no argument column.
    assert_eq!(parse_module_line("12\tmodule-x"), Some(("12", "")));
}

#[test]
fn our_modules_are_recognised() {
    // Current naming (quoted, spaces): the null sink and its loopback.
    assert!(module_is_ours(
        r#"sink_name="Arctis Game" sink_properties=node.description="Arctis\ Game" node.nick="Arctis\ Game""#
    ));
    assert!(module_is_ours(
        r#"source="Arctis Chat.monitor" sink=alsa_output.usb-SteelSeries.analog-stereo latency_msec=0"#
    ));
    // The earlier, unquoted names still match, for the cleanup after an upgrade.
    assert!(module_is_ours("sink_name=arctis_chat sink_properties=x"));
    assert!(module_is_ours("source=arctis_game.monitor sink=foo"));
}

#[test]
fn user_modules_mentioning_our_sinks_are_spared() {
    // A user loopback routing INTO our sink is not ours.
    assert!(!module_is_ours(r#"source=mic.monitor sink="Arctis Game""#));
    // A sink merely mentioning the name in its description is not ours.
    assert!(!module_is_ours(
        r#"sink_name=mysink sink_properties=node.description="Arctis Game copy""#
    ));
    assert!(!module_is_ours(""));
}

#[test]
fn lines_that_are_no_module_lines() {
    assert_eq!(parse_module_line("12"), None);
    assert_eq!(parse_module_line("\tname\targ"), None);
    assert_eq!(parse_module_line(" 12 \tname\targ"), Some(("12", "arg")));
    assert_eq!(parse_module_line("12\t\t"), Some(("12", "")));
    assert_eq!(parse_module_line("1 2\tname\targ"), None);
    assert_eq!(parse_module_line("12\tname\targ\tmore"), Some(("12", "arg")));
}

fn pair(key: &str, value: &str) -> (String, String) {
    (key.to_string(), value.to_string())
}

#[test]
fn module_arguments_are_split() {
    assert_eq!(
        module_args(r#"sink_name="Arctis Game" a=b\ c  plain d="e"f= g==h"#),
        [pair("sink_name", "Arctis Game"), pair("a", "b c"), pair("d", "ef="), pair("g", "=h")]
    );
    assert_eq!(module_args(""), []);
    assert_eq!(module_args(r#"a="open quote"#), [pair("a", "open quote")]);
    assert_eq!(module_args(r#"a=\"b\\"#), [pair("a", "\"b\\")]);
    assert_eq!(module_args("a=1\u{2003}b=2"), [pair("a", "1"), pair("b", "2")]);
}

#[test]
fn a_source_needs_the_monitor_suffix() {
    assert!(!module_is_ours("source=arctis_game sink=foo"));
    assert!(!module_is_ours("sink_name=arctis_game.monitor"));
    assert!(module_is_ours("sink=foo source=arctis_chat.monitor"));
}

#[test]
fn only_our_modules_are_unloaded() {
    let listing = "1\tmodule-x\t\n\
        536870917\tmodule-null-sink\tsink_name=\"Arctis Game\"\n\
        536870918\tmodule-loopback\tsource=mic.monitor sink=\"Arctis Game\"\n\
        not a module\n\
        536870919\tmodule-loopback\tsource=\"Arctis Chat.monitor\" sink=foo\r\n\
        7\tmodule-null-sink\tsink_name=arctis_chat";
    assert_eq!(
        unload_our_modules(listing),
        [
            ["unload-module", "536870917"],
            ["unload-module", "536870919"],
            ["unload-module", "7"],
        ]
    );
    assert!(unload_our_modules("").is_empty());
}

#[test]
fn the_sinks_and_their_loopbacks_are_loaded() {
    let all = setup_sinks("alsa_out");
    assert_eq!(all.len(), 4);
    assert_eq!(
        all[0],
        [
            "load-module",
            "module-null-sink",
            "sink_name=\"Arctis Game\"",
            "sink_properties=node.description=\"Arctis\\ Game\" node.nick=\"Arctis\\ Game\"",
        ]
    );
    assert_eq!(
        all[1],
        [
            "load-module",
            "module-loopback",
            "source=\"Arctis Game.monitor\"",
            "sink=alsa_out",
            "latency_msec=0",
        ]
    );
    assert_eq!(
        all[2],
        [
            "load-module",
            "module-null-sink",
            "sink_name=\"Arctis Chat\"",
            "sink_properties=node.description=\"Arctis\\ Chat\" node.nick=\"Arctis\\ Chat\"",
        ]
    );
    assert_eq!(
        all[3],
        [
            "load-module",
            "module-loopback",
            "source=\"Arctis Chat.monitor\"",
            "sink=alsa_out",
            "latency_msec=0",
        ]
    );
    // What is loaded is recognised when it is listed again.
    for args in &all {
        let line = format!("9\t{}\t{}", args[1], args[2..].join(" "));
        assert_eq!(unload_our_modules(&line), [["unload-module", "9"]]);
    }
}

#[test]
fn the_index_of_a_loaded_module_is_read() {
    assert_eq!(load_module(Ok("536870917\n".to_string())), Ok(536870917));
    assert_eq!(load_module(Ok(" +7 ".to_string())), Ok(7));
    assert_eq!(load_module(Ok("4294967295".to_string())), Ok(u32::MAX));
    for bad in ["", "+", "-1", "12a", "4294967296", "1 2"] {
        assert_eq!(
            load_module(Ok(bad.to_string())),
            Err(format!("unexpected pactl load-module output: {bad}"))
        );
    }
    assert_eq!(load_module(Err("failed".to_string())), Err("failed".to_string()));
}

#[test]
fn a_failed_command_says_what_it_was() {
    let args = vec!["list".to_string(), "modules".to_string(), "short".to_string()];
    assert_eq!(
        pactl_result(&args, true, "out\n".to_string(), "complaint"),
        Ok("out\n".to_string())
    );
    assert_eq!(
        pactl_result(&args, false, "out".to_string(), " Connection refused\n"),
        Err("pactl list modules short failed: Connection refused".to_string())
    );
}

#[test]
fn the_default_sink_is_read() {
    assert_eq!(get_default_sink("Arctis Game\n"), Some("Arctis Game".to_string()));
    assert_eq!(get_default_sink(" \n"), None);
    assert_eq!(get_default_sink(""), None);
}

#[test]
fn volumes_are_capped() {
    assert_eq!(
        set_mix(60, 200),
        [
            ["set-sink-volume", "Arctis Game", "60%"],
            ["set-sink-volume", "Arctis Chat", "100%"],
        ]
    );
    assert_eq!(volume_of(0), "0%");
    assert_eq!(volume_of(100), "100%");
}

#[test]
fn the_notification_names_the_charge() {
    assert_eq!(
        notify_low_battery(25),
        [
            "-u",
            "critical",
            "-a",
            "rust-arctis-chatmix",
            "Arctis headset battery low",
            "25% remaining",
        ]
    );
}
