//! The configuration model: managers, tools, and the queries over them.
//!
//! Every type has a view that holds its text as sequences of characters; the
//! contracts of the queries are stated over those views.

use crate::error::{StmError, StmErrorView};
use crate::text::same_text;
use vstd::prelude::*;
use vstd::seq_lib::lemma_filter_view_commute;

verus! {

/// The directory of this program within the configuration directory of the
/// user.
pub const APP_DIR_NAME: &'static str = "stm";

/// The name of the configuration file within that directory.
pub const CONFIG_FILE_NAME: &'static str = "config.json";

/// The environment variable that tells other programs where that directory
/// is.
pub const CONFIG_PATH_VARIABLE: &'static str = "STM_CONFIG_PATH";

/// The view of a [`Manager`]: its texts as sequences of characters.
pub struct ManagerView {
    pub name: Seq<char>,
    pub install_command: Seq<char>,
    pub update_command: Seq<char>,
}

/// A named external package-management tool with its two command templates.
#[derive(PartialEq, Eq, Debug)]
pub struct Manager {
    pub name: String,
    pub install_command: String,
    pub update_command: String,
}

impl View for Manager {
    type V = ManagerView;

    open spec fn view(&self) -> ManagerView {
        ManagerView {
            name: self.name@,
            install_command: self.install_command@,
            update_command: self.update_command@,
        }
    }
}

impl Manager {
    /// A manager with the given name and command templates.
    pub fn new(name: &str, install_command: &str, update_command: &str) -> (manager: Self)
        ensures
            manager@.name == name@,
            manager@.install_command == install_command@,
            manager@.update_command == update_command@,
    {
        Self {
            name: String::from_str(name),
            install_command: String::from_str(install_command),
            update_command: String::from_str(update_command),
        }
    }
}

/// The view of a [`Tool`]: its texts as sequences of characters.
pub struct ToolView {
    pub package: Seq<char>,
    pub binary: Option<Seq<char>>,
    pub path: Option<Seq<char>>,
    pub manager: Seq<char>,
}

/// A package tracked for one manager, with the ways to tell whether it is
/// already installed: a binary on the search path, or a path on disk.
#[derive(PartialEq, Eq, Debug)]
pub struct Tool {
    pub package: String,
    pub binary: Option<String>,
    pub path: Option<String>,
    pub manager: String,
}

/// The text of an optional string.
pub open spec fn optional_text(text: Option<String>) -> Option<Seq<char>> {
    match text {
        Some(t) => Some(t@),
        None => None,
    }
}

/// The text of an optional string slice, the empty text where there is none.
pub open spec fn text_or_empty(text: Option<&str>) -> Seq<char> {
    match text {
        Some(t) => t@,
        None => Seq::empty(),
    }
}

impl View for Tool {
    type V = ToolView;

    open spec fn view(&self) -> ToolView {
        ToolView {
            package: self.package@,
            binary: optional_text(self.binary),
            path: optional_text(self.path),
            manager: self.manager@,
        }
    }
}

impl Tool {
    /// A tool of `manager`. Both detection fields are set: each holds the
    /// given text, or the empty text where none is given.
    pub fn new(package: &str, binary: Option<&str>, path: Option<&str>, manager: &str) -> (tool:
        Self)
        ensures
            tool@.package == package@,
            tool@.binary == Some(text_or_empty(binary)),
            tool@.path == Some(text_or_empty(path)),
            tool@.manager == manager@,
    {
        let binary_text = match binary {
            Some(b) => String::from_str(b),
            None => String::new(),
        };
        let path_text = match path {
            Some(p) => String::from_str(p),
            None => String::new(),
        };
        Self {
            package: String::from_str(package),
            binary: Some(binary_text),
            path: Some(path_text),
            manager: String::from_str(manager),
        }
    }

    /// A tool detected by a binary on the search path.
    pub fn new_binary(package: &str, binary: &str, manager: &str) -> (tool: Self)
        ensures
            tool@.package == package@,
            tool@.binary == Some(binary@),
            tool@.path == Some(Seq::<char>::empty()),
            tool@.manager == manager@,
    {
        Self::new(package, Some(binary), None, manager)
    }

    /// A tool detected by a path on disk.
    pub fn new_path(package: &str, path: &str, manager: &str) -> (tool: Self)
        ensures
            tool@.package == package@,
            tool@.binary == Some(Seq::<char>::empty()),
            tool@.path == Some(path@),
            tool@.manager == manager@,
    {
        Self::new(package, None, Some(path), manager)
    }
}

/// The view of a [`Probe`].
pub enum ProbeView {
    Binary(Seq<char>),
    Path(Seq<char>),
    Nothing,
}

/// A probe: the one look at the system that tells whether a tool is
/// installed.
#[derive(Clone, Copy, PartialEq, Eq, Debug)]
pub enum Probe<'a> {
    /// Is a binary of this name found on the search path?
    Binary(&'a str),
    /// Does this path exist on disk?
    Path(&'a str),
    /// The tool names nothing to look for.
    Nothing,
}

impl<'a> View for Probe<'a> {
    type V = ProbeView;

    open spec fn view(&self) -> ProbeView {
        match *self {
            Probe::Binary(name) => ProbeView::Binary(name@),
            Probe::Path(path) => ProbeView::Path(path@),
            Probe::Nothing => ProbeView::Nothing,
        }
    }
}

/// Whether a detection field is set to some text that is not empty.
pub open spec fn is_set(field: Option<Seq<char>>) -> bool {
    field matches Some(text) && text.len() > 0
}

impl ToolView {
    /// The probe that decides whether the tool is installed: by its binary
    /// where that is set, whatever the path; else by its path where that is
    /// set; else none.
    pub open spec fn probe(self) -> ProbeView {
        if is_set(self.binary) {
            ProbeView::Binary(self.binary->0)
        } else if is_set(self.path) {
            ProbeView::Path(self.path->0)
        } else {
            ProbeView::Nothing
        }
    }

    /// Whether the tool counts as installed, given what its probe found. A
    /// tool with nothing to look for never does.
    pub open spec fn is_installed(self, found: bool) -> bool {
        !(self.probe() is Nothing) && found
    }
}

impl Tool {
    /// The probe that decides whether this tool is installed.
    pub fn probe(&self) -> (probe: Probe<'_>)
        ensures
            probe@ == self@.probe(),
    {
        if let Some(binary) = &self.binary {
            if !binary.as_str().is_empty() {
                return Probe::Binary(binary.as_str());
            }
        }
        if let Some(path) = &self.path {
            if !path.as_str().is_empty() {
                return Probe::Path(path.as_str());
            }
        }
        Probe::Nothing
    }

    /// Whether this tool counts as installed, where `found` is the answer of
    /// the system to [`Tool::probe`]. The answer is not looked at where the
    /// tool has nothing to look for.
    pub fn is_installed(&self, found: bool) -> (installed: bool)
        ensures
            installed == self@.is_installed(found),
    {
        match self.probe() {
            Probe::Nothing => false,
            _ => found,
        }
    }
}

/// A set binary alone decides the probe: the path has no part in it.
pub proof fn binary_decides(tool: ToolView, other: ToolView)
    requires
        is_set(tool.binary),
        other.binary == tool.binary,
    ensures
        tool.probe() == ProbeView::Binary(tool.binary->0),
        other.probe() == tool.probe(),
        forall|found: bool| other.is_installed(found) == tool.is_installed(found),
{
}

/// Without a set binary, a set path decides the probe.
pub proof fn path_decides_without_binary(tool: ToolView)
    requires
        !is_set(tool.binary),
        is_set(tool.path),
    ensures
        tool.probe() == ProbeView::Path(tool.path->0),
        forall|found: bool| tool.is_installed(found) == found,
{
}

/// A tool with neither field set is never installed, whatever was found.
pub proof fn nothing_set_is_not_installed(tool: ToolView, found: bool)
    requires
        !is_set(tool.binary),
        !is_set(tool.path),
    ensures
        tool.probe() is Nothing,
        !tool.is_installed(found),
{
}

/// The managers of a configuration, in the order of their declaration.
#[derive(PartialEq, Eq, Debug)]
pub struct ManagerList(pub Vec<Manager>);

impl View for ManagerList {
    type V = Seq<ManagerView>;

    open spec fn view(&self) -> Seq<ManagerView> {
        self.0@.map_values(|m: Manager| m@)
    }
}

/// The names of the managers, in the order of the managers.
pub open spec fn manager_names(managers: Seq<ManagerView>) -> Seq<Seq<char>> {
    managers.map_values(|m: ManagerView| m.name)
}

/// Whether some manager has exactly this name.
pub open spec fn has_named(managers: Seq<ManagerView>, name: Seq<char>) -> bool {
    exists|i: int| 0 <= i < managers.len() && managers[i].name == name
}

/// Whether position `i` holds the first manager that has exactly this name.
pub open spec fn is_first_named(managers: Seq<ManagerView>, name: Seq<char>, i: int) -> bool {
    &&& 0 <= i < managers.len()
    &&& managers[i].name == name
    &&& forall|j: int| 0 <= j < i ==> managers[j].name != name
}

/// The first manager that has exactly this name, if there is one.
pub open spec fn first_named(managers: Seq<ManagerView>, name: Seq<char>) -> Option<ManagerView> {
    if has_named(managers, name) {
        Some(managers[choose|i: int| is_first_named(managers, name, i)])
    } else {
        None
    }
}

/// The search for a name finds the manager at the first position that holds
/// the name.
pub proof fn first_named_at(managers: Seq<ManagerView>, name: Seq<char>, i: int)
    requires
        is_first_named(managers, name, i),
    ensures
        first_named(managers, name) == Some(managers[i]),
{
    let chosen = choose|k: int| is_first_named(managers, name, k);
    assert(is_first_named(managers, name, chosen));
    assert(chosen == i);
}

/// The search for a name finds a manager with exactly that name, and none
/// stands before it under the same name; it finds nothing only where no
/// manager has the name.
pub proof fn first_named_is_exact(managers: Seq<ManagerView>, name: Seq<char>)
    ensures
        first_named(managers, name) is Some <==> has_named(managers, name),
        first_named(managers, name) matches Some(m) ==> m.name == name && exists|i: int|
            is_first_named(managers, name, i) && managers[i] == m,
{
    if has_named(managers, name) {
        let first = least_named(managers, name, managers.len() as int);
        first_named_at(managers, name, first);
    }
}

/// The least position below `bound` that holds the name.
proof fn least_named(managers: Seq<ManagerView>, name: Seq<char>, bound: int) -> (first: int)
    requires
        0 <= bound <= managers.len(),
        exists|i: int| 0 <= i < bound && managers[i].name == name,
    ensures
        is_first_named(managers, name, first),
        first < bound,
    decreases bound,
{
    if exists|i: int| 0 <= i < bound - 1 && managers[i].name == name {
        least_named(managers, name, bound - 1)
    } else {
        bound - 1
    }
}

impl ManagerList {
    /// The names of all managers, in the order of their declaration.
    pub fn names(&self) -> (names: Vec<&String>)
        ensures
            names.deep_view() == manager_names(self@),
            names@.len() == self.0@.len(),
            forall|i: int| 0 <= i < names@.len() ==> *names@[i] == self.0@[i].name,
    {
        let mut names: Vec<&String> = Vec::new();
        let mut i: usize = 0;
        while i < self.0.len()
            invariant
                i <= self.0@.len(),
                names@.len() == i,
                forall|k: int| 0 <= k < i ==> *names@[k] == self.0@[k].name,
            decreases self.0@.len() - i,
        {
            names.push(&self.0[i].name);
            i += 1;
        }
        assert(names.deep_view() == manager_names(self@));
        names
    }
}

/// The tools of a configuration, in the order of their declaration.
#[derive(PartialEq, Eq, Debug)]
pub struct ToolList(pub Vec<Tool>);

impl View for ToolList {
    type V = Seq<ToolView>;

    open spec fn view(&self) -> Seq<ToolView> {
        self.0@.map_values(|t: Tool| t@)
    }
}

/// The predicate that a tool belongs to the manager of this name.
pub open spec fn owned_by(manager: Seq<char>) -> spec_fn(ToolView) -> bool {
    |t: ToolView| t.manager == manager
}

/// The tools of the manager of this name, in the order of the tools.
pub open spec fn tools_of(tools: Seq<ToolView>, manager: Seq<char>) -> Seq<ToolView> {
    tools.filter(owned_by(manager))
}

/// The view of each of the tools.
pub open spec fn tool_views(tools: Seq<&Tool>) -> Seq<ToolView> {
    tools.map_values(|t: &Tool| t@)
}

/// A tool whose manager is not in the configuration is inert: it is not among
/// the tools of any manager that is.
pub proof fn orphaned_tool_is_inert(config: ConfigView, tool: ToolView, name: Seq<char>)
    requires
        !has_named(config.managers, tool.manager),
        has_named(config.managers, name),
    ensures
        !tools_of(config.tools, name).contains(tool),
{
    let owned = tools_of(config.tools, name);
    if owned.contains(tool) {
        let i = choose|i: int| 0 <= i < owned.len() && owned[i] == tool;
        config.tools.lemma_filter_pred(owned_by(name), i);
    }
}

impl ToolList {
    /// The tools whose manager is exactly `manager`, in the order of their
    /// declaration; none where no tool names that manager.
    pub fn filter_by_manager(&self, manager: &str) -> (tools: Vec<&Tool>)
        ensures
            tools@.map_values(|t: &Tool| *t) == self.0@.filter(|t: Tool| t.manager@ == manager@),
            tool_views(tools@) == tools_of(self@, manager@),
            (forall|i: int| 0 <= i < self@.len() ==> self@[i].manager != manager@)
                ==> tools@.len() == 0,
    {
        let ghost wanted = |t: Tool| t.manager@ == manager@;
        let mut tools: Vec<&Tool> = Vec::new();
        let mut i: usize = 0;
        while i < self.0.len()
            invariant
                i <= self.0@.len(),
                wanted == |t: Tool| t.manager@ == manager@,
                tools@.map_values(|t: &Tool| *t) == self.0@.take(i as int).filter(wanted),
            decreases self.0@.len() - i,
        {
            let tool = &self.0[i];
            proof {
                let seen = self.0@.take(i as int);
                assert(self.0@.take(i + 1) == seen.push(*tool));
                seen.lemma_filter_push(*tool, wanted);
            }
            if same_text(manager, tool.manager.as_str()) {
                tools.push(tool);
            }
            i += 1;
        }
        proof {
            assert(self.0@.take(i as int) == self.0@);
            lemma_filter_view_commute(self.0@, wanted, owned_by(manager@));
            assert(tool_views(tools@) == tools@.map_values(|t: &Tool| *t).map_values(
                |t: Tool| t@,
            ));
            if forall|i: int| 0 <= i < self@.len() ==> self@[i].manager != manager@ {
                self@.lemma_all_neg_filter_empty(owned_by(manager@));
            }
        }
        tools
    }
}

/// The view of a [`Config`]: its managers and its tools, each in order.
pub struct ConfigView {
    pub managers: Seq<ManagerView>,
    pub tools: Seq<ToolView>,
}

/// A loaded configuration. It is read, never changed, while a command runs.
#[derive(PartialEq, Eq, Debug)]
pub struct Config {
    pub managers: ManagerList,
    pub tools: ToolList,
}

impl View for Config {
    type V = ConfigView;

    open spec fn view(&self) -> ConfigView {
        ConfigView { managers: self.managers@, tools: self.tools@ }
    }
}

/// Whether the manager at position `i` breaks the rule that every manager
/// has a name, and one that no manager before it has.
pub open spec fn is_faulty(managers: Seq<ManagerView>, i: int) -> bool {
    managers[i].name.len() == 0 || exists|j: int|
        0 <= j < i && managers[j].name == managers[i].name
}

/// Whether position `i` holds the first manager that breaks the rule.
pub open spec fn is_first_faulty(managers: Seq<ManagerView>, i: int) -> bool {
    &&& 0 <= i < managers.len()
    &&& is_faulty(managers, i)
    &&& forall|k: int| 0 <= k < i ==> !is_faulty(managers, k)
}

/// The failure that reports the faulty manager at position `i`.
pub open spec fn fault_at(managers: Seq<ManagerView>, i: int) -> StmErrorView {
    if managers[i].name.len() == 0 {
        StmErrorView::ConfigParse("manager without a name"@)
    } else {
        StmErrorView::ConfigParse("duplicate manager "@ + managers[i].name)
    }
}

impl ConfigView {
    /// A configuration is well formed where every manager has a name that is
    /// not empty, and no two managers have the same name.
    pub open spec fn well_formed(self) -> bool {
        &&& forall|i: int| 0 <= i < self.managers.len() ==> self.managers[i].name.len() > 0
        &&& forall|i: int, j: int|
            0 <= i < j < self.managers.len() ==> self.managers[i].name != self.managers[j].name
    }
}

/// In a well-formed configuration a name is a key: the search for the name
/// of a manager finds that manager, wherever it stands.
pub proof fn name_is_key(config: ConfigView, i: int)
    requires
        config.well_formed(),
        0 <= i < config.managers.len(),
    ensures
        first_named(config.managers, config.managers[i].name) == Some(config.managers[i]),
{
    assert(is_first_named(config.managers, config.managers[i].name, i));
    first_named_at(config.managers, config.managers[i].name, i);
}

impl Config {
    /// Validates the configuration: it passes where it is well formed. The
    /// failure reports the first manager without a name or with the name of
    /// an earlier one.
    pub fn validate(&self) -> (verdict: Result<(), StmError>)
        ensures
            verdict is Ok <==> self@.well_formed(),
            verdict matches Err(error) ==> exists|i: int|
                is_first_faulty(self@.managers, i) && error@ == fault_at(self@.managers, i),
    {
        let managers = &self.managers.0;
        let mut i: usize = 0;
        while i < managers.len()
            invariant
                i <= managers@.len(),
                managers@ == self.managers.0@,
                forall|k: int| 0 <= k < i ==> !is_faulty(self@.managers, k),
            decreases managers@.len() - i,
        {
            let name = managers[i].name.as_str();
            if name.is_empty() {
                assert(is_first_faulty(self@.managers, i as int));
                return Err(StmError::ConfigParse(String::from_str("manager without a name")));
            }
            let mut j: usize = 0;
            while j < i
                invariant
                    j <= i < managers@.len(),
                    managers@ == self.managers.0@,
                    name@ == self@.managers[i as int].name,
                    name@.len() > 0,
                    forall|k: int| 0 <= k < i ==> !is_faulty(self@.managers, k),
                    forall|k: int| 0 <= k < j ==> self@.managers[k].name != name@,
                decreases i - j,
            {
                if same_text(managers[j].name.as_str(), name) {
                    assert(self@.managers[j as int].name == self@.managers[i as int].name);
                    assert(is_first_faulty(self@.managers, i as int));
                    return Err(
                        StmError::ConfigParse(String::from_str("duplicate manager ").concat(name)),
                    );
                }
                j += 1;
            }
            i += 1;
        }
        assert(self@.well_formed()) by {
            let all = self@.managers;
            assert forall|a: int, b: int| 0 <= a < b < all.len() implies all[a].name
                != all[b].name by {
                assert(!is_faulty(all, b));
            }
            assert forall|a: int| 0 <= a < all.len() implies all[a].name.len() > 0 by {
                assert(!is_faulty(all, a));
            }
        }
        Ok(())
    }

    /// The first manager whose name is exactly `name`; none where no manager
    /// has that name.
    pub fn find_manager(&self, name: &str) -> (found: Option<&Manager>)
        ensures
            found is Some <==> has_named(self@.managers, name@),
            found matches Some(m) ==> exists|i: int|
                is_first_named(self@.managers, name@, i) && *m == self.managers.0@[i],
            found matches Some(m) ==> first_named(self@.managers, name@) == Some(m@),
    {
        let mut i: usize = 0;
        while i < self.managers.0.len()
            invariant
                i <= self.managers.0@.len(),
                forall|j: int| 0 <= j < i ==> self@.managers[j].name != name@,
            decreases self.managers.0@.len() - i,
        {
            let manager = &self.managers.0[i];
            if same_text(name, manager.name.as_str()) {
                proof {
                    assert(is_first_named(self@.managers, name@, i as int));
                    first_named_at(self@.managers, name@, i as int);
                }
                return Some(manager);
            }
            i += 1;
        }
        None
    }
}

} // verus!
