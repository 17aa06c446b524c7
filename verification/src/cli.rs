//! The command line, and what the daemon does between two sessions.
use vstd::prelude::*;

use crate::text::{decimal, decimal_of, err_text, opt_text, same_text, texts};

verus! {

/// Seconds to wait before a device is looked for again.
pub const SEARCH_SECS: u64 = 2;

/// Seconds to wait after a session that could not begin.
pub const ERROR_SECS: u64 = 5;

// ---------------------------------------------------------------------------
// The command line
// ---------------------------------------------------------------------------

/// What the arguments ask for.
#[derive(Clone, Copy, PartialEq, Eq, Debug, Structural)]
pub struct Options {
    /// Show the status once, in place of the daemon.
    pub status: bool,
    /// The default sink is the daemon's to claim and hand back.
    pub manage_default: bool,
    /// Log every adjustment of the dial.
    pub verbose: bool,
}

/// What a command line comes to.
#[derive(Debug, PartialEq, Eq)]
pub enum Invocation {
    Run(Options),
    Help,
    /// The first argument that means nothing.
    Unknown(String),
}

/// An [`Invocation`] with its texts.
pub enum Order {
    Run(Options),
    Help,
    Unknown(Seq<char>),
}

impl View for Invocation {
    type V = Order;

    open spec fn view(&self) -> Order {
        match self {
            Invocation::Run(options) => Order::Run(*options),
            Invocation::Help => Order::Help,
            Invocation::Unknown(arg) => Order::Unknown(arg@),
        }
    }
}

/// An argument that asks for verbosity.
pub open spec fn is_verbose(arg: Seq<char>) -> bool {
    arg == "--verbose"@ || arg == "-v"@
}

/// An argument that asks for help.
pub open spec fn is_help(arg: Seq<char>) -> bool {
    arg == "--help"@ || arg == "-h"@
}

/// An argument that sets an option.
pub open spec fn is_option(arg: Seq<char>) -> bool {
    arg == "status"@ || arg == "--no-default-sink"@ || is_verbose(arg)
}

/// The number of arguments before the first that sets no option.
pub open spec fn options_end(args: Seq<Seq<char>>) -> int
    decreases args.len(),
{
    if args.len() == 0 || !is_option(args[0]) {
        0
    } else {
        1 + options_end(args.drop_first())
    }
}

/// Some argument is `arg`.
pub open spec fn given(args: Seq<Seq<char>>, arg: Seq<char>) -> bool {
    exists|i: int| 0 <= i < args.len() && #[trigger] args[i] == arg
}

/// The options that arguments set.
pub open spec fn options(args: Seq<Seq<char>>) -> Options {
    Options {
        status: given(args, "status"@),
        manage_default: !given(args, "--no-default-sink"@),
        verbose: given(args, "--verbose"@) || given(args, "-v"@),
    }
}

/// What arguments come to: the first that sets no option decides, where there is one.
pub open spec fn ordered(args: Seq<Seq<char>>) -> Order {
    let end = options_end(args);
    if end == args.len() {
        Order::Run(options(args))
    } else if is_help(args[end]) {
        Order::Help
    } else {
        Order::Unknown(args[end])
    }
}

/// `end` is the number of arguments before the first that sets no option.
proof fn lemma_options_end(args: Seq<Seq<char>>, end: int)
    requires
        0 <= end <= args.len(),
        forall|i: int| 0 <= i < end ==> is_option(#[trigger] args[i]),
        end < args.len() ==> !is_option(args[end]),
    ensures
        options_end(args) == end,
    decreases args.len(),
{
    if end > 0 {
        assert(is_option(args[0]));
        assert forall|i: int| 0 <= i < end - 1 implies is_option(
            #[trigger] args.drop_first()[i],
        ) by {
            assert(is_option(args[i + 1]));
        }
        lemma_options_end(args.drop_first(), end - 1);
    }
}

/// What one more argument changes.
proof fn lemma_given(args: Seq<Seq<char>>, next: Seq<char>, arg: Seq<char>)
    ensures
        given(args.push(next), arg) <==> given(args, arg) || next == arg,
{
    let more = args.push(next);
    if given(args, arg) {
        let i = choose|i: int| 0 <= i < args.len() && #[trigger] args[i] == arg;
        assert(more[i] == arg);
    }
    if next == arg {
        assert(more[args.len() as int] == arg);
    }
    if given(more, arg) {
        let i = choose|i: int| 0 <= i < more.len() && #[trigger] more[i] == arg;
        if i < args.len() {
            assert(args[i] == arg);
        }
    }
}

/// Reads the command line, without the name of the program.
pub fn parse_args(args: &Vec<String>) -> (r: Invocation)
    ensures
        r@ == ordered(texts(args@)),
{
    let mut status = false;
    let mut manage_default = true;
    let mut verbose = false;
    let ghost all = texts(args@);
    let mut i: usize = 0;
    assert(all.len() == args@.len());
    while i < args.len()
        invariant
            i <= args@.len(),
            all == texts(args@),
            forall|j: int| 0 <= j < i ==> is_option(#[trigger] all[j]),
            (Options { status, manage_default, verbose }) == options(all.take(i as int)),
        decreases args@.len() - i,
    {
        let arg = args[i].as_str();
        proof {
            assert(all[i as int] == arg@);
            assert(all.take(i + 1) =~= all.take(i as int).push(arg@));
            reveal_strlit("status");
            reveal_strlit("--no-default-sink");
            reveal_strlit("--verbose");
            reveal_strlit("-v");
            reveal_strlit("--help");
            reveal_strlit("-h");
            lemma_given(all.take(i as int), arg@, "status"@);
            lemma_given(all.take(i as int), arg@, "--no-default-sink"@);
            lemma_given(all.take(i as int), arg@, "--verbose"@);
            lemma_given(all.take(i as int), arg@, "-v"@);
        }
        if same_text(arg, "status") {
            status = true;
        } else if same_text(arg, "--no-default-sink") {
            manage_default = false;
        } else if same_text(arg, "--verbose") || same_text(arg, "-v") {
            verbose = true;
        } else {
            proof {
                lemma_options_end(all, i as int);
            }
            return if same_text(arg, "--help") || same_text(arg, "-h") {
                Invocation::Help
            } else {
                Invocation::Unknown(arg.to_owned())
            };
        }
        i += 1;
    }
    proof {
        lemma_options_end(all, i as int);
        assert(all.take(i as int) =~= all);
    }
    Invocation::Run(Options { status, manage_default, verbose })
}

// ---------------------------------------------------------------------------
// Between two sessions
// ---------------------------------------------------------------------------

/// What is logged when a device is found.
pub open spec fn found_message(name: Seq<char>, path: Seq<char>, extra: nat) -> Seq<char> {
    "found "@ + name + " at "@ + path + if extra == 0 {
        seq![]
    } else if extra == 1 {
        " (+1 listen node)"@
    } else {
        " (+"@ + decimal(extra) + " listen nodes)"@
    }
}

/// What to log, and how long to wait, before a device is looked for again.
#[derive(Debug, PartialEq, Eq)]
pub struct Rest {
    pub log: Option<String>,
    pub secs: u64,
}

/// A [`Rest`] with its texts.
pub struct Respite {
    pub log: Option<Seq<char>>,
    pub secs: u64,
}

impl View for Rest {
    type V = Respite;

    open spec fn view(&self) -> Respite {
        Respite { log: opt_text(self.log), secs: self.secs }
    }
}

/// The part of the daemon that outlives its sessions.
#[derive(Clone, Copy, PartialEq, Eq, Debug, Structural)]
pub struct Supervisor {
    /// That a device is waited for has been logged.
    pub announced: bool,
}

impl Supervisor {
    /// No device was found: that is logged once, until one is.
    pub open spec fn missed(self) -> (Supervisor, Respite) {
        (
            Supervisor { announced: true },
            Respite {
                log: if self.announced {
                    None
                } else {
                    Some("waiting for a supported Arctis device..."@)
                },
                secs: SEARCH_SECS,
            },
        )
    }

    /// What follows a session: nothing after one that was told to stop.
    pub open spec fn after_session(result: Result<bool, Seq<char>>) -> Option<Respite> {
        match result {
            Ok(true) => Some(Respite { log: None, secs: SEARCH_SECS }),
            Ok(false) => None,
            Err(e) => Some(Respite { log: Some("error: "@ + e), secs: ERROR_SECS }),
        }
    }

    pub fn new() -> (r: Supervisor)
        ensures
            r == (Supervisor { announced: false }),
    {
        Supervisor { announced: false }
    }

    /// No device was found.
    pub fn none_found(&mut self) -> (r: Rest)
        ensures
            *final(self) == old(self).missed().0,
            r@ == old(self).missed().1,
    {
        let log = if self.announced {
            None
        } else {
            Some("waiting for a supported Arctis device...".to_owned())
        };
        self.announced = true;
        Rest { log, secs: SEARCH_SECS }
    }

    /// A device was found, with `extra` nodes to listen on besides the command node. Returns
    /// what is logged.
    pub fn found(&mut self, name: &str, path: &str, extra: u32) -> (r: String)
        ensures
            *final(self) == (Supervisor { announced: false }),
            r@ == found_message(name@, path@, extra as nat),
    {
        self.announced = false;
        let mut r = "found ".to_owned();
        r.append(name);
        r.append(" at ");
        r.append(path);
        let ghost head = r@;
        if extra == 0 {
            assert(head + Seq::<char>::empty() =~= head);
        } else if extra == 1 {
            r.append(" (+1 listen node)");
        } else {
            let mut nodes = " (+".to_owned();
            nodes.append(decimal_of(extra).as_str());
            nodes.append(" listen nodes)");
            r.append(nodes.as_str());
        }
        r
    }

    /// A session is over. Nothing follows one that was told to stop.
    pub fn session_over(result: Result<bool, String>) -> (r: Option<Rest>)
        ensures
            (match r {
                Some(rest) => Some(rest@),
                None => None,
            }) == Supervisor::after_session(err_text(result)),
    {
        match result {
            Ok(reconnect) => if reconnect {
                Some(Rest { log: None, secs: SEARCH_SECS })
            } else {
                None
            },
            Err(e) => {
                let mut text = "error: ".to_owned();
                text.append(e.as_str());
                Some(Rest { log: Some(text), secs: ERROR_SECS })
            },
        }
    }
}

// ---------------------------------------------------------------------------
// What holds of every command line and every wait
// ---------------------------------------------------------------------------

/// Help is shown where it is asked for before anything unknown, whatever follows.
pub proof fn help_comes_before_what_follows_it(
    before: Seq<Seq<char>>,
    help: Seq<char>,
    rest: Seq<Seq<char>>,
)
    requires
        forall|i: int| 0 <= i < before.len() ==> is_option(#[trigger] before[i]),
        is_help(help),
    ensures
        ordered(before.push(help) + rest) == Order::Help,
{
    let args = before.push(help) + rest;
    reveal_strlit("status");
    reveal_strlit("--no-default-sink");
    reveal_strlit("--verbose");
    reveal_strlit("-v");
    reveal_strlit("--help");
    reveal_strlit("-h");
    assert(args[before.len() as int] == help);
    assert(!is_option(help)) by {
        assert("--help"@.len() == 6 && "-h"@.len() == 2 && "-h"@[1] == 'h' && "-v"@[1] == 'v');
        assert("status"@[0] == 's' && "--help"@[0] == '-');
    }
    assert forall|i: int| 0 <= i < before.len() implies is_option(#[trigger] args[i]) by {
        assert(args[i] == before[i]);
    }
    lemma_options_end(args, before.len() as int);
}

/// The order of the options does not matter, nor how often one is given.
pub proof fn options_may_come_in_any_order(args: Seq<Seq<char>>, others: Seq<Seq<char>>)
    requires
        forall|i: int| 0 <= i < args.len() ==> is_option(#[trigger] args[i]),
        forall|i: int| 0 <= i < others.len() ==> is_option(#[trigger] others[i]),
        forall|arg: Seq<char>| given(args, arg) <==> given(others, arg),
    ensures
        ordered(args) == ordered(others),
        ordered(args) is Run,
{
    lemma_options_end(args, args.len() as int);
    lemma_options_end(others, others.len() as int);
}

/// That a device is waited for is logged once, until one is found.
pub proof fn a_wait_is_announced_once(supervisor: Supervisor)
    ensures
        supervisor.missed().0.missed().1.log is None,
        !supervisor.announced ==> supervisor.missed().1.log is Some,
{
}

/// Only a session that was told to stop is the last one.
pub proof fn only_a_stop_is_final(result: Result<bool, Seq<char>>)
    ensures
        Supervisor::after_session(result) is None <==> result == Ok::<bool, Seq<char>>(false),
{
}

/// One of the four arguments that set an option.
pub open spec fn is_one_of_four(arg: Seq<char>) -> bool {
    arg == "status"@ || arg == "--no-default-sink"@ || arg == "--verbose"@ || arg == "-v"@
}

/// Arguments that only set options run the program: `status` asks for the status,
/// `--no-default-sink` leaves the default sink alone, `--verbose` and `-v` log more, and nothing
/// else has any of these effects.
pub proof fn each_option_has_its_effect(args: Seq<Seq<char>>)
    requires
        forall|i: int| 0 <= i < args.len() ==> is_one_of_four(#[trigger] args[i]),
    ensures
        ordered(args) matches Order::Run(options) && {
            &&& options.status <==> args.contains("status"@)
            &&& options.manage_default <==> !args.contains("--no-default-sink"@)
            &&& options.verbose <==> args.contains("--verbose"@) || args.contains("-v"@)
        },
{
    assert forall|i: int| 0 <= i < args.len() implies is_option(#[trigger] args[i]) by {
        assert(is_one_of_four(args[i]));
    }
    lemma_options_end(args, args.len() as int);
    assert forall|arg: Seq<char>| given(args, arg) <==> args.contains(arg) by {
        if args.contains(arg) {
            let i = choose|i: int| 0 <= i < args.len() && args[i] == arg;
            assert(args[i] == arg);
        }
    }
}

/// The first argument that is none of the four decides: `--help` and `-h` ask for help, and any
/// other is unknown, whatever follows.
pub proof fn the_first_other_argument_decides(
    before: Seq<Seq<char>>,
    arg: Seq<char>,
    rest: Seq<Seq<char>>,
)
    requires
        forall|i: int| 0 <= i < before.len() ==> is_one_of_four(#[trigger] before[i]),
        !is_one_of_four(arg),
    ensures
        ordered(before.push(arg) + rest) == if arg == "--help"@ || arg == "-h"@ {
            Order::Help
        } else {
            Order::Unknown(arg)
        },
{
    let args = before.push(arg) + rest;
    assert(args[before.len() as int] == arg);
    assert forall|i: int| 0 <= i < before.len() implies is_option(#[trigger] args[i]) by {
        assert(is_one_of_four(before[i]));
        assert(args[i] == before[i]);
    }
    lemma_options_end(args, before.len() as int);
}

/// A device is looked for again after two seconds, and after five where a session could not
/// begin, which is logged with its error.
pub proof fn the_next_search_comes_in_time(supervisor: Supervisor, e: Seq<char>)
    ensures
        supervisor.missed().1.secs == 2,
        supervisor.missed().0.announced,
        supervisor.missed().1.log == if supervisor.announced {
            None
        } else {
            Some("waiting for a supported Arctis device..."@)
        },
        Supervisor::after_session(Ok(true)) == Some(Respite { log: None, secs: 2 }),
        Supervisor::after_session(Ok(false)) is None,
        Supervisor::after_session(Err(e)) == Some(Respite { log: Some("error: "@ + e), secs: 5 }),
{
}

/// A found device is announced with its name and path, and the number of further nodes where
/// there are any.
pub proof fn a_found_device_is_announced_with_its_nodes(
    name: Seq<char>,
    path: Seq<char>,
    extra: nat,
)
    ensures
        found_message(name, path, 0) == "found "@ + name + " at "@ + path,
        extra > 0 ==> found_message(name, path, extra) == "found "@ + name + " at "@ + path + (
        " (+"@ + decimal(extra) + (if extra == 1 {
            " listen node)"@
        } else {
            " listen nodes)"@
        })),
{
    reveal_strlit(" (+");
    reveal_strlit(" (+1 listen node)");
    reveal_strlit(" listen node)");
    assert(found_message(name, path, 0) =~= "found "@ + name + " at "@ + path);
    if extra == 1 {
        assert(decimal(1) =~= seq!['1']);
        assert(" (+1 listen node)"@ =~= " (+"@ + decimal(1) + " listen node)"@);
    }
}

} // verus!
