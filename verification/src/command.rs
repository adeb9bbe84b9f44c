//! Command templates and their resolution into command lines.

use crate::config::{Manager, ManagerView};
use crate::text::{join, joined, substitute, substituted};
use vstd::prelude::*;

verus! {

/// The token in a command template that stands for the list of packages.
pub const PLACEHOLDER: &'static str = "{{packages}}";

/// The packages as they stand in a command line: in order, a space between
/// each two.
pub open spec fn package_list(packages: Seq<Seq<char>>) -> Seq<char> {
    joined(packages, seq![' '])
}

/// The command line of a template for these packages: the template with the
/// list of packages in the place of every placeholder. For no packages the
/// list is empty, and the command line is still made.
pub open spec fn resolved(template: Seq<char>, packages: Seq<Seq<char>>) -> Seq<char> {
    substituted(template, PLACEHOLDER@, package_list(packages))
}

/// Resolves a command template for these packages.
pub fn resolve(template: &str, packages: &Vec<&str>) -> (line: String)
    ensures
        line@ == resolved(template@, packages.deep_view()),
{
    proof {
        reveal_strlit(" ");
        assert(" "@ == seq![' ']);
    }
    let list = join(packages, " ");
    substitute(template, PLACEHOLDER, list.as_str())
}

impl ManagerView {
    /// The command line that installs these packages.
    pub open spec fn install_line(self, packages: Seq<Seq<char>>) -> Seq<char> {
        resolved(self.install_command, packages)
    }

    /// The command line that updates these packages.
    pub open spec fn update_line(self, packages: Seq<Seq<char>>) -> Seq<char> {
        resolved(self.update_command, packages)
    }
}

impl Manager {
    /// The command line that installs these packages with this manager.
    pub fn install_line(&self, packages: &Vec<&str>) -> (line: String)
        ensures
            line@ == self@.install_line(packages.deep_view()),
    {
        resolve(self.install_command.as_str(), packages)
    }

    /// The command line that updates these packages with this manager.
    pub fn update_line(&self, packages: &Vec<&str>) -> (line: String)
        ensures
            line@ == self@.update_line(packages.deep_view()),
    {
        resolve(self.update_command.as_str(), packages)
    }
}

} // verus!
