//! The commands `install`, `update` and `list`.
//!
//! A command over several managers alternates decisions with work on the
//! system: probes that tell which tools are installed, and command lines to
//! execute. The decisions are made here. Each function returns a [`Step`]
//! that says what the caller is to do next; the caller does it and reports
//! the answer with [`probed`] or [`exited`], until a step ends the command.

use crate::command::resolved;
use crate::config::{
    first_named, first_named_is_exact, has_named, manager_names, tool_views, tools_of, Config,
    ConfigView, ManagerView, Probe, ProbeView, Tool, ToolView,
};
use crate::error::{Outcome, OutcomeView, StmError, StmErrorView};
use vstd::prelude::*;

verus! {

/// What a command asks of each manager.
#[derive(Clone, Copy, PartialEq, Eq, Debug)]
pub enum Operation {
    /// Install the tools that are not installed yet.
    Install,
    /// Update all tools, installed or not.
    Update,
}

/// The view of a [`Step`].
pub enum StepView {
    Probe { position: int, probes: Seq<ProbeView> },
    Execute { position: int, line: Seq<char> },
    Finished,
    Aborted(StmErrorView),
}

/// What the caller is to do next.
#[derive(PartialEq, Eq, Debug)]
pub enum Step<'a> {
    /// Make these probes, one for each tool of the manager requested at
    /// `position`, and report the answers in the same order with [`probed`].
    Probe { position: usize, probes: Vec<Probe<'a>> },
    /// Execute this command line for the manager requested at `position`, and
    /// report how it ended with [`exited`].
    Execute { position: usize, line: String },
    /// Every requested manager was handled.
    Finished,
    /// The command ends here with this failure; nothing more is executed.
    Aborted(StmError),
}

/// The view of each of the probes.
pub open spec fn probe_views(probes: Seq<Probe<'_>>) -> Seq<ProbeView> {
    probes.map_values(|p: Probe<'_>| p@)
}

impl<'a> View for Step<'a> {
    type V = StepView;

    open spec fn view(&self) -> StepView {
        match *self {
            Step::Probe { position, probes } => StepView::Probe {
                position: position as int,
                probes: probe_views(probes@),
            },
            Step::Execute { position, line } => StepView::Execute {
                position: position as int,
                line: line@,
            },
            Step::Finished => StepView::Finished,
            Step::Aborted(error) => StepView::Aborted(error@),
        }
    }
}

/// The packages of the tools, in the order of the tools.
pub open spec fn all_packages(tools: Seq<ToolView>) -> Seq<Seq<char>> {
    tools.map_values(|t: ToolView| t.package)
}

/// The probes of the tools, in the order of the tools.
pub open spec fn all_probes(tools: Seq<ToolView>) -> Seq<ProbeView> {
    tools.map_values(|t: ToolView| t.probe())
}

/// What was found for the tool at position `k`: the answer at that position,
/// and nothing where no answer was given.
pub open spec fn answer(found: Seq<bool>, k: int) -> bool {
    0 <= k < found.len() && found[k]
}

/// The packages of those tools that are not installed, in the order of the
/// tools, where `found` holds the answers to their probes.
pub open spec fn missing_packages(tools: Seq<ToolView>, found: Seq<bool>) -> Seq<Seq<char>>
    decreases tools.len(),
{
    if tools.len() == 0 {
        Seq::empty()
    } else {
        let last = tools.len() - 1;
        let before = missing_packages(tools.drop_last(), found);
        if tools[last].is_installed(answer(found, last)) {
            before
        } else {
            before.push(tools[last].package)
        }
    }
}

/// The packages of the tools, in the order of the tools.
pub fn packages_of<'a>(tools: &Vec<&'a Tool>) -> (packages: Vec<&'a str>)
    ensures
        packages.deep_view() == all_packages(tool_views(tools@)),
{
    let mut packages: Vec<&'a str> = Vec::new();
    let mut i: usize = 0;
    while i < tools.len()
        invariant
            i <= tools@.len(),
            packages@.len() == i,
            forall|k: int| 0 <= k < i ==> packages@[k]@ == tools@[k]@.package,
        decreases tools@.len() - i,
    {
        let tool: &'a Tool = tools[i];
        packages.push(tool.package.as_str());
        i += 1;
    }
    assert(packages.deep_view() == all_packages(tool_views(tools@)));
    packages
}

/// The probes of the tools, in the order of the tools.
pub fn probes_of<'a>(tools: &Vec<&'a Tool>) -> (probes: Vec<Probe<'a>>)
    ensures
        probe_views(probes@) == all_probes(tool_views(tools@)),
{
    let mut probes: Vec<Probe<'a>> = Vec::new();
    let mut i: usize = 0;
    while i < tools.len()
        invariant
            i <= tools@.len(),
            probes@.len() == i,
            forall|k: int| 0 <= k < i ==> probes@[k]@ == tools@[k]@.probe(),
        decreases tools@.len() - i,
    {
        let tool: &'a Tool = tools[i];
        probes.push(tool.probe());
        i += 1;
    }
    assert(probe_views(probes@) == all_probes(tool_views(tools@)));
    probes
}

/// The packages of those tools that are not installed, in the order of the
/// tools, where `found` holds the answers to their probes in the same order.
/// A tool without an answer counts as not found.
pub fn missing_of<'a>(tools: &Vec<&'a Tool>, found: &Vec<bool>) -> (packages: Vec<&'a str>)
    ensures
        packages.deep_view() == missing_packages(tool_views(tools@), found@),
{
    let mut packages: Vec<&'a str> = Vec::new();
    let mut i: usize = 0;
    while i < tools.len()
        invariant
            i <= tools@.len(),
            packages.deep_view() == missing_packages(tool_views(tools@).take(i as int), found@),
        decreases tools@.len() - i,
    {
        let tool: &'a Tool = tools[i];
        let answered = i < found.len() && found[i];
        proof {
            let seen = tool_views(tools@).take(i + 1);
            assert(seen.drop_last() == tool_views(tools@).take(i as int));
            assert(seen[i as int] == tool@);
            assert(answered == answer(found@, i as int));
        }
        if !tool.is_installed(answered) {
            let ghost before = packages.deep_view();
            packages.push(tool.package.as_str());
            assert(packages.deep_view() == before.push(tool@.package));
        }
        i += 1;
    }
    assert(tool_views(tools@).take(i as int) == tool_views(tools@));
    packages
}

/// Whether every requested name is the name of some manager.
pub open spec fn all_known(managers: Seq<ManagerView>, names: Seq<Seq<char>>) -> bool {
    forall|k: int| 0 <= k < names.len() ==> has_named(managers, #[trigger] names[k])
}

/// Whether position `k` holds the first requested name that no manager has.
pub open spec fn is_first_unknown(
    managers: Seq<ManagerView>,
    names: Seq<Seq<char>>,
    k: int,
) -> bool {
    &&& 0 <= k < names.len()
    &&& !has_named(managers, names[k])
    &&& forall|j: int| 0 <= j < k ==> has_named(managers, #[trigger] names[j])
}

/// The first requested name that no manager has, if there is one.
pub open spec fn first_unknown(managers: Seq<ManagerView>, names: Seq<Seq<char>>) -> Option<
    Seq<char>,
> {
    if all_known(managers, names) {
        None
    } else {
        Some(names[choose|k: int| is_first_unknown(managers, names, k)])
    }
}

/// The first unknown name is the one at the first position that holds an
/// unknown name.
pub proof fn first_unknown_at(managers: Seq<ManagerView>, names: Seq<Seq<char>>, k: int)
    requires
        is_first_unknown(managers, names, k),
    ensures
        first_unknown(managers, names) == Some(names[k]),
{
    let chosen = choose|c: int| is_first_unknown(managers, names, c);
    assert(is_first_unknown(managers, names, chosen));
    assert(chosen == k);
}

/// Validates the requested managers: they pass where each of them is in the
/// configuration. The failure
/// names the first requested manager that is not.
pub fn validate_managers(config: &Config, managers: &Vec<String>) -> (verdict: Result<(), StmError>)
    ensures
        verdict is Ok <==> all_known(config@.managers, managers.deep_view()),
        verdict matches Err(error) ==> exists|k: int|
            is_first_unknown(config@.managers, managers.deep_view(), k) && error@
                == StmErrorView::UnknownManager(managers.deep_view()[k]),
        verdict matches Err(error) ==> first_unknown(config@.managers, managers.deep_view())
            matches Some(name) && error@ == StmErrorView::UnknownManager(name),
{
    let ghost names = managers.deep_view();
    let mut k: usize = 0;
    while k < managers.len()
        invariant
            k <= managers@.len(),
            names == managers.deep_view(),
            forall|j: int| 0 <= j < k ==> has_named(config@.managers, #[trigger] names[j]),
        decreases managers@.len() - k,
    {
        if config.find_manager(managers[k].as_str()).is_none() {
            proof {
                assert(is_first_unknown(config@.managers, names, k as int));
                first_unknown_at(config@.managers, names, k as int);
            }
            return Err(StmError::UnknownManager(managers[k].clone()));
        }
        k += 1;
    }
    Ok(())
}

/// The step that takes up the manager requested at `position`: for an
/// installation the probes of its tools, for an update the command line for
/// all its tools. Past the last requested manager the command is finished.
pub open spec fn entered(
    config: ConfigView,
    operation: Operation,
    names: Seq<Seq<char>>,
    position: int,
) -> StepView {
    if position < 0 || position >= names.len() {
        StepView::Finished
    } else {
        match first_named(config.managers, names[position]) {
            None => StepView::Aborted(StmErrorView::UnknownManager(names[position])),
            Some(manager) => {
                let tools = tools_of(config.tools, manager.name);
                match operation {
                    Operation::Install => StepView::Probe { position, probes: all_probes(tools) },
                    Operation::Update => StepView::Execute {
                        position,
                        line: manager.update_line(all_packages(tools)),
                    },
                }
            },
        }
    }
}

/// The first step of a command: it is rejected where a requested manager is
/// unknown, before anything is probed or executed; else the first requested
/// manager is taken up.
pub open spec fn begun(config: ConfigView, operation: Operation, names: Seq<Seq<char>>) -> StepView {
    match first_unknown(config.managers, names) {
        Some(name) => StepView::Aborted(StmErrorView::UnknownManager(name)),
        None => entered(config, operation, names, 0),
    }
}

/// The step after the probes for the manager at `position` were answered:
/// the command line that installs its tools that are not installed.
pub open spec fn after_probe(
    config: ConfigView,
    names: Seq<Seq<char>>,
    position: int,
    found: Seq<bool>,
) -> StepView {
    if position < 0 || position >= names.len() {
        StepView::Finished
    } else {
        match first_named(config.managers, names[position]) {
            None => StepView::Aborted(StmErrorView::UnknownManager(names[position])),
            Some(manager) => StepView::Execute {
                position,
                line: manager.install_line(
                    missing_packages(tools_of(config.tools, manager.name), found),
                ),
            },
        }
    }
}

/// The step after the command line for the manager at `position` ended: the
/// first failure ends the whole command; after a success the next requested
/// manager is taken up.
pub open spec fn after_exit(
    config: ConfigView,
    operation: Operation,
    names: Seq<Seq<char>>,
    position: int,
    outcome: OutcomeView,
) -> StepView {
    if !outcome.succeeded() {
        StepView::Aborted(StmErrorView::Execution(outcome))
    } else {
        entered(config, operation, names, position + 1)
    }
}

/// A command that requests an unknown manager is rejected at its first step,
/// by the name of that manager: nothing is probed and nothing executed.
pub proof fn unknown_manager_is_rejected(
    config: ConfigView,
    operation: Operation,
    names: Seq<Seq<char>>,
)
    requires
        !all_known(config.managers, names),
    ensures
        begun(config, operation, names) matches StepView::Aborted(
            StmErrorView::UnknownManager(name),
        ) && names.contains(name) && !has_named(config.managers, name),
{
    let k = least_unknown(config.managers, names, names.len() as int);
    first_unknown_at(config.managers, names, k);
}

/// The least position below `bound` that holds an unknown name.
proof fn least_unknown(managers: Seq<ManagerView>, names: Seq<Seq<char>>, bound: int) -> (first:
    int)
    requires
        0 <= bound <= names.len(),
        exists|k: int| 0 <= k < bound && !has_named(managers, #[trigger] names[k]),
    ensures
        is_first_unknown(managers, names, first),
        first < bound,
    decreases bound,
{
    if exists|k: int| 0 <= k < bound - 1 && !has_named(managers, #[trigger] names[k]) {
        least_unknown(managers, names, bound - 1)
    } else {
        bound - 1
    }
}

/// A command of known managers begins with the first of them; over no
/// managers it is finished at once.
pub proof fn known_managers_begin(config: ConfigView, operation: Operation, names: Seq<Seq<char>>)
    requires
        all_known(config.managers, names),
    ensures
        begun(config, operation, names) == entered(config, operation, names, 0),
        names.len() == 0 ==> begun(config, operation, names) == StepView::Finished,
{
}

/// An update takes every tool of the manager, whatever is installed: its
/// command line holds the package of each, in the order of the tools.
pub proof fn update_takes_every_tool(config: ConfigView, names: Seq<Seq<char>>, position: int)
    requires
        0 <= position < names.len(),
        has_named(config.managers, names[position]),
    ensures
        first_named(config.managers, names[position]) matches Some(manager) && entered(
            config,
            Operation::Update,
            names,
            position,
        ) == (StepView::Execute {
            position,
            line: resolved(
                manager.update_command,
                all_packages(tools_of(config.tools, names[position])),
            ),
        }),
{
    first_named_is_exact(config.managers, names[position]);
}

/// An installation takes the tools of the manager that are not installed:
/// after the probes its command line holds the package of each tool whose
/// probe found nothing, in the order of the tools.
pub proof fn install_takes_missing_tools(
    config: ConfigView,
    names: Seq<Seq<char>>,
    position: int,
    found: Seq<bool>,
)
    requires
        0 <= position < names.len(),
        has_named(config.managers, names[position]),
    ensures
        first_named(config.managers, names[position]) matches Some(manager) && entered(
            config,
            Operation::Install,
            names,
            position,
        ) == (StepView::Probe {
            position,
            probes: all_probes(tools_of(config.tools, names[position])),
        }) && after_probe(config, names, position, found) == (StepView::Execute {
            position,
            line: resolved(
                manager.install_command,
                missing_packages(tools_of(config.tools, names[position]), found),
            ),
        }),
{
    first_named_is_exact(config.managers, names[position]);
}

/// The first failure ends the command: after a command line that did not
/// succeed nothing more is probed or executed, whatever was requested.
pub proof fn first_failure_stops(
    config: ConfigView,
    operation: Operation,
    names: Seq<Seq<char>>,
    position: int,
    outcome: OutcomeView,
)
    requires
        !outcome.succeeded(),
    ensures
        after_exit(config, operation, names, position, outcome) == StepView::Aborted(
            StmErrorView::Execution(outcome),
        ),
{
}

/// After a success the next requested manager is taken up, and after the
/// last one the command is finished.
pub proof fn success_goes_on(
    config: ConfigView,
    operation: Operation,
    names: Seq<Seq<char>>,
    position: int,
)
    ensures
        after_exit(config, operation, names, position, OutcomeView::Exited(Some(0i32))) == entered(
            config,
            operation,
            names,
            position + 1,
        ),
        position + 1 >= names.len() ==> after_exit(
            config,
            operation,
            names,
            position,
            OutcomeView::Exited(Some(0i32)),
        ) == StepView::Finished,
{
}

/// Where none of the tools is installed, the package of every tool is
/// missing; where all of them are installed, none is.
pub proof fn missing_packages_by_answer(tools: Seq<ToolView>, found: Seq<bool>)
    ensures
        (forall|k: int| 0 <= k < tools.len() ==> !(#[trigger] tools[k]).is_installed(answer(found, k)))
            ==> missing_packages(tools, found) == all_packages(tools),
        (forall|k: int| 0 <= k < tools.len() ==> (#[trigger] tools[k]).is_installed(answer(found, k)))
            ==> missing_packages(tools, found) == Seq::<Seq<char>>::empty(),
    decreases tools.len(),
{
    if tools.len() > 0 {
        missing_packages_by_answer(tools.drop_last(), found);
        assert(all_packages(tools) == all_packages(tools.drop_last()).push(tools.last().package));
    }
}

/// Takes up the manager requested at `position`.
fn enter<'a>(
    config: &'a Config,
    operation: Operation,
    managers: &Vec<String>,
    position: usize,
) -> (step: Step<'a>)
    ensures
        step@ == entered(config@, operation, managers.deep_view(), position as int),
{
    if position >= managers.len() {
        return Step::Finished;
    }
    match config.find_manager(managers[position].as_str()) {
        None => Step::Aborted(StmError::UnknownManager(managers[position].clone())),
        Some(manager) => {
            let tools = config.tools.filter_by_manager(manager.name.as_str());
            match operation {
                Operation::Install => Step::Probe { position, probes: probes_of(&tools) },
                Operation::Update => {
                    let packages = packages_of(&tools);
                    Step::Execute { position, line: manager.update_line(&packages) }
                },
            }
        },
    }
}

/// Begins a command over the requested managers.
fn begin<'a>(config: &'a Config, operation: Operation, managers: &Vec<String>) -> (step: Step<'a>)
    ensures
        step@ == begun(config@, operation, managers.deep_view()),
{
    match validate_managers(config, managers) {
        Err(error) => Step::Aborted(error),
        Ok(()) => {
            assert(first_unknown(config@.managers, managers.deep_view()) is None);
            enter(config, operation, managers, 0)
        },
    }
}

/// Begins the installation, for each requested manager in turn, of its tools
/// that are not installed.
pub fn install_command<'a>(config: &'a Config, managers: &Vec<String>) -> (step: Step<'a>)
    ensures
        step@ == begun(config@, Operation::Install, managers.deep_view()),
{
    begin(config, Operation::Install, managers)
}

/// Begins the update, for each requested manager in turn, of all its tools.
pub fn update_command<'a>(config: &'a Config, managers: &Vec<String>) -> (step: Step<'a>)
    ensures
        step@ == begun(config@, Operation::Update, managers.deep_view()),
{
    begin(config, Operation::Update, managers)
}

/// Goes on after the probes of [`Step::Probe`] at `position` were made;
/// `found` holds the answers, in the order of the probes.
pub fn probed<'a>(
    config: &'a Config,
    managers: &Vec<String>,
    position: usize,
    found: &Vec<bool>,
) -> (step: Step<'a>)
    ensures
        step@ == after_probe(config@, managers.deep_view(), position as int, found@),
{
    if position >= managers.len() {
        return Step::Finished;
    }
    match config.find_manager(managers[position].as_str()) {
        None => Step::Aborted(StmError::UnknownManager(managers[position].clone())),
        Some(manager) => {
            let tools = config.tools.filter_by_manager(manager.name.as_str());
            let packages = missing_of(&tools, found);
            Step::Execute { position, line: manager.install_line(&packages) }
        },
    }
}

/// Goes on after the command line of [`Step::Execute`] at `position` was
/// executed and ended with `outcome`.
pub fn exited<'a>(
    config: &'a Config,
    operation: Operation,
    managers: &Vec<String>,
    position: usize,
    outcome: Outcome,
) -> (step: Step<'a>)
    ensures
        step@ == after_exit(
            config@,
            operation,
            managers.deep_view(),
            position as int,
            outcome@,
        ),
{
    if !outcome.succeeded() {
        Step::Aborted(StmError::Execution(outcome))
    } else if position >= managers.len() {
        Step::Finished
    } else {
        enter(config, operation, managers, position + 1)
    }
}

/// The text of a manager listing: each name in order, each followed by a
/// line break.
pub open spec fn listing(names: Seq<Seq<char>>) -> Seq<char>
    decreases names.len(),
{
    if names.len() == 0 {
        Seq::empty()
    } else {
        listing(names.drop_last()) + names.last() + seq!['\n']
    }
}

/// The text that `list` prints: the name of every manager, one on each line,
/// in the order of their declaration.
pub fn list_command(config: &Config) -> (text: String)
    ensures
        text@ == listing(manager_names(config@.managers)),
{
    let names = config.managers.names();
    let mut text = String::new();
    let mut i: usize = 0;
    proof {
        reveal_strlit("\n");
        assert("\n"@ == seq!['\n']);
    }
    while i < names.len()
        invariant
            i <= names@.len(),
            "\n"@ == seq!['\n'],
            text@ == listing(names.deep_view().take(i as int)),
        decreases names@.len() - i,
    {
        proof {
            let seen = names.deep_view().take(i + 1);
            assert(seen.drop_last() == names.deep_view().take(i as int));
            assert(seen.last() == names@[i as int]@);
        }
        text.append(names[i].as_str());
        text.append("\n");
        i += 1;
    }
    assert(names.deep_view().take(i as int) == names.deep_view());
    text
}

/// Whether `v` is the name of a manager of the configuration; where it is
/// not, the failure holds the diagnostic to show.
pub fn has_valid_manager(config: &Config, v: String) -> (valid: Result<(), String>)
    ensures
        valid is Ok <==> has_named(config@.managers, v@),
        valid matches Err(message) ==> message@ == "invalid manager "@ + v@,
{
    match config.find_manager(v.as_str()) {
        Some(_) => Ok(()),
        None => Err(StmError::UnknownManager(v).message()),
    }
}

} // verus!
