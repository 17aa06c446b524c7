//! The run of commands to the sound server that builds or removes the virtual sinks.
//!
//! A [`Plumbing`] runs no command itself. [`Plumbing::next`] says what to run, and
//! [`Plumbing::step`] takes what it came to.
use vstd::prelude::*;

use crate::modules::{
    arg_lists, both_texts, load_module, loaded, setup_commands, setup_sinks, unload_commands,
    unload_our_modules,
};
use crate::text::{copied, err_text, lines, opt_text, texts};

verus! {

/// Where a run of commands stands.
#[derive(Debug)]
pub enum Chore {
    /// Listing the loaded modules.
    List,
    /// Unloading modules of ours, at the command of this number.
    Unload(Vec<Vec<String>>, usize),
    /// Loading modules, at the command of this number.
    Load(Vec<Vec<String>>, usize),
    Done(Result<(), String>),
}

/// A run of commands. It first unloads every module of ours, those of an earlier run
/// included, and then builds the sinks where it has a sink to route them into.
#[derive(Debug)]
pub struct Plumbing {
    pub target: Option<String>,
    pub chore: Chore,
}

/// What is next in a run of commands.
#[derive(Debug, PartialEq, Eq)]
pub enum Next {
    /// Run the command line tool with these arguments.
    Run(Vec<String>),
    /// Nothing: the run is over.
    Over(Result<(), String>),
}

/// A [`Chore`] with its texts: the commands that are left.
pub enum Task {
    List,
    Unload(Seq<Seq<Seq<char>>>),
    Load(Seq<Seq<Seq<char>>>),
    Done(Result<(), Seq<char>>),
}

/// A [`Plumbing`] with its texts.
pub struct Works {
    pub target: Option<Seq<char>>,
    pub task: Task,
}

/// A [`Next`] with its texts.
pub enum Errand {
    Run(Seq<Seq<char>>),
    Over(Result<(), Seq<char>>),
}

impl View for Chore {
    type V = Task;

    open spec fn view(&self) -> Task {
        match self {
            Chore::List => Task::List,
            Chore::Unload(commands, i) => Task::Unload(arg_lists(commands@).skip(*i as int)),
            Chore::Load(commands, i) => Task::Load(arg_lists(commands@).skip(*i as int)),
            Chore::Done(r) => Task::Done(err_text(*r)),
        }
    }
}

impl View for Plumbing {
    type V = Works;

    open spec fn view(&self) -> Works {
        Works { target: opt_text(self.target), task: self.chore@ }
    }
}

impl View for Next {
    type V = Errand;

    open spec fn view(&self) -> Errand {
        match self {
            Next::Run(args) => Errand::Run(texts(args@)),
            Next::Over(r) => Errand::Over(err_text(*r)),
        }
    }
}

/// The command that lists the loaded modules.
pub open spec fn list_command() -> Seq<Seq<char>> {
    seq!["list"@, "modules"@, "short"@]
}

impl Works {
    /// A run before its first command.
    pub open spec fn start(target: Option<Seq<char>>) -> Works {
        Works { target: target, task: Task::List }
    }

    pub open spec fn at(self, task: Task) -> Works {
        Works { task: task, ..self }
    }

    /// What is next.
    pub open spec fn errand(self) -> Errand {
        match self.task {
            Task::List => Errand::Run(list_command()),
            Task::Unload(rest) => Errand::Run(rest[0]),
            Task::Load(rest) => Errand::Run(rest[0]),
            Task::Done(r) => Errand::Over(r),
        }
    }

    /// These commands are left to unload modules; after them the sinks are built.
    pub open spec fn unloading(self, rest: Seq<Seq<Seq<char>>>) -> Works {
        if rest.len() > 0 {
            self.at(Task::Unload(rest))
        } else {
            self.loading(
                match self.target {
                    Some(target) => setup_commands(target),
                    None => seq![],
                },
            )
        }
    }

    /// These commands are left to load modules.
    pub open spec fn loading(self, rest: Seq<Seq<Seq<char>>>) -> Works {
        self.at(
            if rest.len() > 0 {
                Task::Load(rest)
            } else {
                Task::Done(Ok(()))
            },
        )
    }

    /// The run after a command came to `output`. Where the modules cannot be listed none is
    /// unloaded; that one cannot be unloaded is of no consequence; the first that cannot be
    /// loaded ends the run.
    pub open spec fn told(self, output: Result<Seq<char>, Seq<char>>) -> Works {
        match self.task {
            Task::List => self.unloading(
                match output {
                    Ok(listing) => unload_commands(lines(listing)),
                    Err(_) => seq![],
                },
            ),
            Task::Unload(rest) => self.unloading(rest.drop_first()),
            Task::Load(rest) => match loaded(output) {
                Ok(_) => self.loading(rest.drop_first()),
                Err(e) => self.at(Task::Done(Err(e))),
            },
            Task::Done(_) => self,
        }
    }
}

impl Plumbing {
    /// The command at hand is one of those left.
    pub open spec fn wf(self) -> bool {
        match self.chore {
            Chore::Unload(commands, i) => i < commands@.len(),
            Chore::Load(commands, i) => i < commands@.len(),
            _ => true,
        }
    }

    /// The run that builds the sinks and routes them into `real_sink`.
    pub fn setup(real_sink: &str) -> (r: Plumbing)
        ensures
            r@ == Works::start(Some(real_sink@)),
            r.wf(),
    {
        Plumbing { target: Some(real_sink.to_owned()), chore: Chore::List }
    }

    /// The run that removes the sinks.
    pub fn teardown() -> (r: Plumbing)
        ensures
            r@ == Works::start(None),
            r.wf(),
    {
        Plumbing { target: None, chore: Chore::List }
    }

    /// What is next.
    pub fn next(&self) -> (r: Next)
        requires
            self.wf(),
        ensures
            r@ == self@.errand(),
    {
        match &self.chore {
            Chore::List => {
                let args = vec!["list".to_owned(), "modules".to_owned(), "short".to_owned()];
                assert(texts(args@) =~= list_command());
                Next::Run(args)
            },
            Chore::Unload(commands, i) => Next::Run(copied(&commands[*i])),
            Chore::Load(commands, i) => Next::Run(copied(&commands[*i])),
            Chore::Done(result) => Next::Over(
                match result {
                    Ok(_) => Ok(()),
                    Err(e) => Err(e.clone()),
                },
            ),
        }
    }

    fn unload(&mut self, commands: Vec<Vec<String>>, i: usize)
        requires
            i <= commands@.len(),
        ensures
            final(self)@ == old(self)@.unloading(arg_lists(commands@).skip(i as int)),
            final(self).wf(),
    {
        if i < commands.len() {
            self.chore = Chore::Unload(commands, i);
        } else {
            let sinks = match &self.target {
                Some(target) => setup_sinks(target.as_str()),
                None => Vec::new(),
            };
            assert(arg_lists(sinks@).skip(0) =~= match self@.target {
                Some(target) => setup_commands(target),
                None => seq![],
            });
            self.load(sinks, 0);
        }
    }

    fn load(&mut self, commands: Vec<Vec<String>>, i: usize)
        requires
            i <= commands@.len(),
        ensures
            final(self)@ == old(self)@.loading(arg_lists(commands@).skip(i as int)),
            final(self).wf(),
    {
        self.chore = if i < commands.len() {
            Chore::Load(commands, i)
        } else {
            Chore::Done(Ok(()))
        };
    }

    /// Goes on after the command at hand came to `output`.
    pub fn step(&mut self, output: Result<String, String>)
        requires
            old(self).wf(),
        ensures
            final(self)@ == old(self)@.told(both_texts(output)),
            final(self).wf(),
    {
        let mut chore = Chore::List;
        std::mem::swap(&mut chore, &mut self.chore);
        match chore {
            Chore::List => {
                let commands = match output {
                    Ok(listing) => unload_our_modules(listing.as_str()),
                    Err(_) => Vec::new(),
                };
                assert(arg_lists(commands@).skip(0) =~= match both_texts(output) {
                    Ok(listing) => unload_commands(lines(listing)),
                    Err(_) => seq![],
                });
                self.unload(commands, 0);
            },
            Chore::Unload(commands, i) => {
                let count = commands.len();
                assert(i < count);
                let next: usize = i + 1;
                assert(arg_lists(commands@).skip(i as int).drop_first() =~= arg_lists(
                    commands@,
                ).skip(next as int));
                self.unload(commands, next);
            },
            Chore::Load(commands, i) => {
                let count = commands.len();
                assert(i < count);
                let next: usize = i + 1;
                assert(arg_lists(commands@).skip(i as int).drop_first() =~= arg_lists(
                    commands@,
                ).skip(next as int));
                match load_module(output) {
                    Ok(_) => self.load(commands, next),
                    Err(e) => {
                        self.chore = Chore::Done(Err(e));
                    },
                }
            },
            done => {
                self.chore = done;
            },
        }
    }
}

// ---------------------------------------------------------------------------
// What holds of every run
// ---------------------------------------------------------------------------

/// The run after all of `outputs`.
pub open spec fn worked(works: Works, outputs: Seq<Result<Seq<char>, Seq<char>>>) -> Works
    decreases outputs.len(),
{
    if outputs.len() == 0 {
        works
    } else {
        worked(works.told(outputs[0]), outputs.drop_first())
    }
}

/// The commands that are run while `outputs` come back.
pub open spec fn commands_run(
    works: Works,
    outputs: Seq<Result<Seq<char>, Seq<char>>>,
) -> Seq<Seq<Seq<char>>>
    decreases outputs.len(),
{
    if outputs.len() == 0 {
        seq![]
    } else {
        match works.errand() {
            Errand::Run(args) => seq![args] + commands_run(
                works.told(outputs[0]),
                outputs.drop_first(),
            ),
            Errand::Over(_) => seq![],
        }
    }
}

/// The commands that build the sinks, where there is a sink to route them into.
pub open spec fn building(target: Option<Seq<char>>) -> Seq<Seq<Seq<char>>> {
    match target {
        Some(target) => setup_commands(target),
        None => seq![],
    }
}

/// Every output is that of a module that was loaded.
pub open spec fn all_loaded(outputs: Seq<Result<Seq<char>, Seq<char>>>) -> bool {
    forall|i: int| 0 <= i < outputs.len() ==> loaded(#[trigger] outputs[i]) is Ok
}

proof fn lemma_loading(
    works: Works,
    rest: Seq<Seq<Seq<char>>>,
    outputs: Seq<Result<Seq<char>, Seq<char>>>,
)
    requires
        outputs.len() == rest.len(),
        all_loaded(outputs),
    ensures
        commands_run(works.loading(rest), outputs) == rest,
        worked(works.loading(rest), outputs) == works.at(Task::Done(Ok(()))),
    decreases rest.len(),
{
    if rest.len() > 0 {
        assert(loaded(outputs[0]) is Ok);
        assert forall|i: int| 0 <= i < outputs.drop_first().len() implies loaded(
            #[trigger] outputs.drop_first()[i],
        ) is Ok by {
            assert(outputs.drop_first()[i] == outputs[i + 1]);
        }
        lemma_loading(works, rest.drop_first(), outputs.drop_first());
        let next = works.loading(rest).told(outputs[0]);
        assert(next == works.loading(rest.drop_first()));
        assert(seq![rest[0]] + rest.drop_first() =~= rest);
    } else {
        assert(commands_run(works.loading(rest), outputs) =~= rest);
    }
}

proof fn lemma_unloading(
    works: Works,
    rest: Seq<Seq<Seq<char>>>,
    outputs: Seq<Result<Seq<char>, Seq<char>>>,
)
    requires
        outputs.len() >= rest.len(),
    ensures
        commands_run(works.unloading(rest), outputs) == rest + commands_run(
            works.loading(building(works.target)),
            outputs.skip(rest.len() as int),
        ),
        worked(works.unloading(rest), outputs) == worked(
            works.loading(building(works.target)),
            outputs.skip(rest.len() as int),
        ),
    decreases rest.len(),
{
    if rest.len() > 0 {
        lemma_unloading(works, rest.drop_first(), outputs.drop_first());
        let next = works.unloading(rest).told(outputs[0]);
        assert(next == works.unloading(rest.drop_first()));
        assert(outputs.drop_first().skip(rest.len() - 1) =~= outputs.skip(rest.len() as int));
        assert(seq![rest[0]] + rest.drop_first() =~= rest);
        let tail = commands_run(
            works.loading(building(works.target)),
            outputs.skip(rest.len() as int),
        );
        assert(seq![rest[0]] + (rest.drop_first() + tail) =~= rest + tail);
    } else {
        assert(outputs.skip(0) =~= outputs);
        let tail = commands_run(works.loading(building(works.target)), outputs);
        assert(rest + tail =~= tail);
    }
}

/// Before anything is loaded, every listed module of ours is unloaded, whether or not that
/// succeeds; then the sinks are built. Where every load succeeds, so does the run.
pub proof fn leftovers_go_before_the_sinks_come(
    target: Option<Seq<char>>,
    listing: Seq<char>,
    unloads: Seq<Result<Seq<char>, Seq<char>>>,
    loads: Seq<Result<Seq<char>, Seq<char>>>,
)
    requires
        unloads.len() == unload_commands(lines(listing)).len(),
        loads.len() == building(target).len(),
        all_loaded(loads),
    ensures
        ({
            let outputs = seq![Ok::<Seq<char>, Seq<char>>(listing)] + unloads + loads;
            &&& commands_run(Works::start(target), outputs) == seq![list_command()]
                + unload_commands(lines(listing)) + building(target)
            &&& worked(Works::start(target), outputs).task == Task::Done(Ok(()))
        }),
{
    let outputs = seq![Ok::<Seq<char>, Seq<char>>(listing)] + unloads + loads;
    let start = Works::start(target);
    let commands = unload_commands(lines(listing));
    assert(outputs.drop_first() =~= unloads + loads);
    lemma_unloading(start, commands, unloads + loads);
    assert((unloads + loads).skip(commands.len() as int) =~= loads);
    lemma_loading(start, building(target), loads);
    assert(seq![list_command()] + (commands + building(target)) =~= seq![list_command()] + commands
        + building(target));
}

/// The first module that cannot be loaded ends the run, with its error.
pub proof fn a_failed_load_ends_the_run(works: Works, output: Result<Seq<char>, Seq<char>>)
    requires
        works.task is Load,
        loaded(output) is Err,
    ensures
        works.told(output).task == Task::Done(Err(loaded(output)->Err_0)),
{
}

/// Removing the sinks loads nothing and does not fail, whatever the commands come to.
pub proof fn a_removal_loads_nothing(outputs: Seq<Result<Seq<char>, Seq<char>>>)
    ensures
        ({
            let works = worked(Works::start(None), outputs);
            &&& works.task !is Load
            &&& works.task matches Task::Done(r) ==> r is Ok
        }),
{
    lemma_removal(Works::start(None), outputs);
}

proof fn lemma_removal(works: Works, outputs: Seq<Result<Seq<char>, Seq<char>>>)
    requires
        works.target is None,
        works.task !is Load,
        works.task matches Task::Done(r) ==> r is Ok,
    ensures
        worked(works, outputs).task !is Load,
        worked(works, outputs).task matches Task::Done(r) ==> r is Ok,
    decreases outputs.len(),
{
    if outputs.len() > 0 {
        lemma_removal(works.told(outputs[0]), outputs.drop_first());
    }
}

/// Where the modules cannot be listed none is unloaded, and the sinks are built all the same.
pub proof fn an_unknown_list_stops_nothing(
    target: Option<Seq<char>>,
    e: Seq<char>,
    loads: Seq<Result<Seq<char>, Seq<char>>>,
)
    requires
        loads.len() == building(target).len(),
        all_loaded(loads),
    ensures
        ({
            let outputs = seq![Err::<Seq<char>, Seq<char>>(e)] + loads;
            &&& commands_run(Works::start(target), outputs) == seq![
                seq!["list"@, "modules"@, "short"@],
            ] + building(target)
            &&& worked(Works::start(target), outputs).task == Task::Done(Ok(()))
        }),
{
    let outputs = seq![Err::<Seq<char>, Seq<char>>(e)] + loads;
    let start = Works::start(target);
    assert(outputs.drop_first() =~= loads);
    lemma_loading(start, building(target), loads);
    assert(start.told(outputs[0]) == start.loading(building(target)));
}

} // verus!
