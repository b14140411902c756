//! The rules that the engine scores a file against.
//!
//! A rule is a predicate on a file's attributes together with a weight. A
//! file that satisfies the rule earns the weight; any other file earns
//! nothing from it. Rules have no state, so the order in which they are
//! evaluated cannot matter.

use crate::file_info::{FileAttributes, FileAttributesView};
use crate::text::{
    after_last, check_ends_with, check_occurs_from, chars_of, count_of, count_symbol, ends_with,
    occurs_from, position_after_last,
};
use vstd::prelude::*;

verus! {

/// The character that separates the components of a path.
pub const SEPARATOR: char = '/';

/// A classification rule: one variant per kind.
#[derive(Clone, Debug, PartialEq, Eq)]
pub enum Rule {
    /// The path ends with a dot followed by `extension`.
    Extension { extension: String, weight: u32 },
    /// The file name, which is what follows the last separator of the path,
    /// holds `fragment`.
    NameContains { fragment: String, weight: u32 },
    /// The file was last modified at least `seconds` before the rule set was loaded.
    OlderThan { seconds: u64, weight: u32 },
    /// The path holds at least `depth` separators.
    MinDepth { depth: u64, weight: u32 },
}

/// Mathematical value of a [`Rule`].
pub enum RuleView {
    Extension { extension: Seq<char>, weight: u32 },
    NameContains { fragment: Seq<char>, weight: u32 },
    OlderThan { seconds: u64, weight: u32 },
    MinDepth { depth: u64, weight: u32 },
}

impl View for Rule {
    type V = RuleView;

    open spec fn view(&self) -> RuleView {
        match self {
            Rule::Extension { extension, weight } => RuleView::Extension {
                extension: extension@,
                weight: *weight,
            },
            Rule::NameContains { fragment, weight } => RuleView::NameContains {
                fragment: fragment@,
                weight: *weight,
            },
            Rule::OlderThan { seconds, weight } => RuleView::OlderThan {
                seconds: *seconds,
                weight: *weight,
            },
            Rule::MinDepth { depth, weight } => RuleView::MinDepth {
                depth: *depth,
                weight: *weight,
            },
        }
    }
}

impl RuleView {
    /// What a file that satisfies the rule earns.
    pub open spec fn weight(self) -> u32 {
        match self {
            RuleView::Extension { weight, .. } => weight,
            RuleView::NameContains { weight, .. } => weight,
            RuleView::OlderThan { weight, .. } => weight,
            RuleView::MinDepth { weight, .. } => weight,
        }
    }

    /// A rule is malformed when it names an empty extension or an empty fragment.
    pub open spec fn well_formed(self) -> bool {
        match self {
            RuleView::Extension { extension, .. } => extension.len() > 0,
            RuleView::NameContains { fragment, .. } => fragment.len() > 0,
            RuleView::OlderThan { .. } => true,
            RuleView::MinDepth { .. } => true,
        }
    }

    /// Whether `file` satisfies the rule, in a rule set loaded at `loaded_at`.
    /// No file satisfies a malformed rule.
    pub open spec fn satisfied_by(self, file: FileAttributesView, loaded_at: u64) -> bool {
        match self {
            RuleView::Extension { extension, .. } => extension.len() > 0 && ends_with(
                file.path,
                seq!['.'] + extension,
            ),
            RuleView::NameContains { fragment, .. } => fragment.len() > 0 && occurs_from(
                file.path,
                fragment,
                after_last(file.path, SEPARATOR),
            ),
            RuleView::OlderThan { seconds, .. } => file.last_modified <= loaded_at && loaded_at
                - file.last_modified >= seconds,
            RuleView::MinDepth { depth, .. } => count_of(file.path, SEPARATOR) >= depth,
        }
    }

    /// What `file` earns from the rule: its weight if the file satisfies it, else nothing.
    pub open spec fn contribution(self, file: FileAttributesView, loaded_at: u64) -> nat {
        if self.satisfied_by(file, loaded_at) {
            self.weight() as nat
        } else {
            0
        }
    }
}

impl Rule {
    /// What a file that satisfies the rule earns.
    pub fn weight(&self) -> (weight: u32)
        ensures
            weight == self@.weight(),
    {
        match self {
            Rule::Extension { weight, .. } => *weight,
            Rule::NameContains { weight, .. } => *weight,
            Rule::OlderThan { weight, .. } => *weight,
            Rule::MinDepth { weight, .. } => *weight,
        }
    }

    /// Whether the rule is well formed.
    pub fn is_well_formed(&self) -> (well_formed: bool)
        ensures
            well_formed == self@.well_formed(),
    {
        match self {
            Rule::Extension { extension, .. } => {
                let empty = extension.as_str().is_empty();
                !empty
            },
            Rule::NameContains { fragment, .. } => {
                let empty = fragment.as_str().is_empty();
                !empty
            },
            Rule::OlderThan { .. } => true,
            Rule::MinDepth { .. } => true,
        }
    }

    /// Whether `file` satisfies the rule, in a rule set loaded at `loaded_at`.
    pub fn is_satisfied_by(&self, file: &FileAttributes, loaded_at: u64) -> (satisfied: bool)
        ensures
            satisfied == self@.satisfied_by(file@, loaded_at),
    {
        let path = chars_of(file.path.as_str());
        self.check(file, &path, loaded_at)
    }

    /// Whether `file` satisfies the rule, given the characters of its path.
    pub(crate) fn check(&self, file: &FileAttributes, path: &Vec<char>, loaded_at: u64) -> (satisfied:
        bool)
        requires
            path@ == file@.path,
        ensures
            satisfied == self@.satisfied_by(file@, loaded_at),
    {
        match self {
            Rule::Extension { extension, .. } => {
                let wanted = chars_of(extension.as_str());
                if wanted.len() == 0 {
                    return false;
                }
                let mut suffix: Vec<char> = Vec::new();
                suffix.push('.');
                let mut at: usize = 0;
                while at < wanted.len()
                    invariant
                        at <= wanted.len(),
                        suffix@ == seq!['.'] + wanted@.take(at as int),
                    decreases wanted.len() - at,
                {
                    suffix.push(wanted[at]);
                    at = at + 1;
                    assert(suffix@ =~= seq!['.'] + wanted@.take(at as int));
                }
                assert(wanted@.take(at as int) =~= wanted@);
                check_ends_with(path, &suffix)
            },
            Rule::NameContains { fragment, .. } => {
                let wanted = chars_of(fragment.as_str());
                if wanted.len() == 0 {
                    return false;
                }
                let name_start = position_after_last(path, SEPARATOR);
                check_occurs_from(path, &wanted, name_start)
            },
            Rule::OlderThan { seconds, .. } => {
                file.last_modified <= loaded_at && loaded_at - file.last_modified >= *seconds
            },
            Rule::MinDepth { depth, .. } => {
                let separators = count_symbol(path, SEPARATOR);
                separators as u64 >= *depth
            },
        }
    }
}

} // verus!
