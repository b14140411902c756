//! Loading a rule set from its description.
//!
//! A description is a text of lines. In a line, fields are separated by
//! blanks. A line without fields, and a line whose first field starts with
//! `#`, says nothing. Every other line describes one rule in three fields:
//! the kind, its argument, and the weight.
//!
//! ```text
//! # kind          argument  weight
//! extension       tmp       5
//! name_contains   backup    3
//! older_than      86400     2
//! min_depth       4         1
//! ```
//!
//! A line that does not describe a rule is reported and skipped; the lines
//! around it are loaded all the same.

use crate::text::{chars_of, parse_decimal, spec_number, spells, string_from};
use crate::tidy_algo::{rule_views, RuleSet};
use crate::tidy_rules::{Rule, RuleView};
use vstd::prelude::*;
use vstd::slice::slice_subrange;

verus! {

/// What is wrong with a line that names a known kind of rule.
#[derive(Clone, Copy, Debug, PartialEq, Eq, Structural)]
pub enum ParseReason {
    /// The line does not have three fields.
    FieldCount,
    /// The argument of the rule is not a number that fits.
    BadNumber,
    /// The weight is not a number that fits.
    BadWeight,
}

/// Why a rule, or the whole rule set, could not be loaded.
#[derive(Clone, Debug, PartialEq, Eq)]
pub enum RuleLoadError {
    /// There is no description to load from.
    FileNotFound,
    /// Line number `line`, counted from one, does not describe a rule.
    ParseError { line: usize, reason: ParseReason },
    /// A line names a kind of rule that does not exist.
    UnknownRuleKind { name: String },
}

/// Mathematical value of a [`RuleLoadError`].
pub enum RuleLoadErrorView {
    FileNotFound,
    ParseError { line: nat, reason: ParseReason },
    UnknownRuleKind { name: Seq<char> },
}

impl View for RuleLoadError {
    type V = RuleLoadErrorView;

    open spec fn view(&self) -> RuleLoadErrorView {
        match self {
            RuleLoadError::FileNotFound => RuleLoadErrorView::FileNotFound,
            RuleLoadError::ParseError { line, reason } => RuleLoadErrorView::ParseError {
                line: *line as nat,
                reason: *reason,
            },
            RuleLoadError::UnknownRuleKind { name } => RuleLoadErrorView::UnknownRuleKind {
                name: name@,
            },
        }
    }
}

/// What one line of a description says.
#[derive(Clone, Debug, PartialEq, Eq)]
pub enum ParsedLine {
    /// Nothing: the line is empty or a comment.
    Skipped,
    /// A rule.
    Rule(Rule),
    /// Nothing that can be loaded.
    Error(RuleLoadError),
}

/// Mathematical value of a [`ParsedLine`].
pub enum ParsedLineView {
    Skipped,
    Rule(RuleView),
    Error(RuleLoadErrorView),
}

impl View for ParsedLine {
    type V = ParsedLineView;

    open spec fn view(&self) -> ParsedLineView {
        match self {
            ParsedLine::Skipped => ParsedLineView::Skipped,
            ParsedLine::Rule(rule) => ParsedLineView::Rule(rule@),
            ParsedLine::Error(error) => ParsedLineView::Error(error@),
        }
    }
}

/// The outcome of loading a description: the rules that were loaded, their
/// number, and one error for each line that was reported and skipped.
#[derive(Clone, Debug, PartialEq, Eq)]
pub struct LoadReport {
    pub rule_set: RuleSet,
    pub loaded: usize,
    pub errors: Vec<RuleLoadError>,
}

/// The values of `errors`, in order.
pub open spec fn error_views(errors: Seq<RuleLoadError>) -> Seq<RuleLoadErrorView> {
    errors.map_values(|error: RuleLoadError| error@)
}

/// Whether `c` separates fields.
pub open spec fn is_blank(c: char) -> bool {
    c == ' ' || c == '\t' || c == '\r'
}

/// Where the field that starts at `from` ends: at the next blank, or at the
/// end of the line.
pub open spec fn field_end(line: Seq<char>, from: int) -> int
    decreases line.len() - from,
{
    if from < 0 || from >= line.len() || is_blank(line[from]) {
        from
    } else {
        field_end(line, from + 1)
    }
}

/// The fields of `line` from position `from` on.
pub open spec fn fields_from(line: Seq<char>, from: int) -> Seq<Seq<char>>
    decreases line.len() - from,
{
    if from < 0 || from >= line.len() {
        Seq::empty()
    } else if is_blank(line[from]) {
        fields_from(line, from + 1)
    } else {
        let end = field_end(line, from);
        if from < end <= line.len() {
            seq![line.subrange(from, end)] + fields_from(line, end)
        } else {
            Seq::empty()
        }
    }
}

/// The fields of `line`: its longest runs of characters that are not blank.
pub open spec fn fields(line: Seq<char>) -> Seq<Seq<char>> {
    fields_from(line, 0)
}

/// Whether `name` is a kind of rule.
pub open spec fn known_kind(name: Seq<char>) -> bool {
    name == "extension"@ || name == "name_contains"@ || name == "older_than"@ || name
        == "min_depth"@
}

/// The error for line `line_no` and `reason`.
pub open spec fn parse_error(line_no: nat, reason: ParseReason) -> ParsedLineView {
    ParsedLineView::Error(RuleLoadErrorView::ParseError { line: line_no, reason })
}

/// What the three fields of line `line_no` say, `kind` being a kind of rule.
pub open spec fn spec_parse_rule(
    kind: Seq<char>,
    argument: Seq<char>,
    weight: Seq<char>,
    line_no: nat,
) -> ParsedLineView {
    let weighed = spec_number(weight, u32::MAX as nat);
    if kind == "extension"@ || kind == "name_contains"@ {
        match weighed {
            None => parse_error(line_no, ParseReason::BadWeight),
            Some(weight) => if kind == "extension"@ {
                ParsedLineView::Rule(
                    RuleView::Extension { extension: argument, weight: weight as u32 },
                )
            } else {
                ParsedLineView::Rule(
                    RuleView::NameContains { fragment: argument, weight: weight as u32 },
                )
            },
        }
    } else {
        match spec_number(argument, u64::MAX as nat) {
            None => parse_error(line_no, ParseReason::BadNumber),
            Some(number) => match weighed {
                None => parse_error(line_no, ParseReason::BadWeight),
                Some(weight) => if kind == "older_than"@ {
                    ParsedLineView::Rule(
                        RuleView::OlderThan { seconds: number as u64, weight: weight as u32 },
                    )
                } else {
                    ParsedLineView::Rule(
                        RuleView::MinDepth { depth: number as u64, weight: weight as u32 },
                    )
                },
            },
        }
    }
}

/// What `line`, which is line number `line_no`, says.
pub open spec fn spec_parse_line(line: Seq<char>, line_no: nat) -> ParsedLineView {
    let fields = fields(line);
    if fields.len() == 0 || fields[0][0] == '#' {
        ParsedLineView::Skipped
    } else if !known_kind(fields[0]) {
        ParsedLineView::Error(RuleLoadErrorView::UnknownRuleKind { name: fields[0] })
    } else if fields.len() != 3 {
        parse_error(line_no, ParseReason::FieldCount)
    } else {
        spec_parse_rule(fields[0], fields[1], fields[2], line_no)
    }
}

/// Where the line that starts at `from` ends: at the next line feed, or at
/// the end of the text.
pub open spec fn line_end(text: Seq<char>, from: int) -> int
    decreases text.len() - from,
{
    if from < 0 || from >= text.len() || text[from] == '\n' {
        from
    } else {
        line_end(text, from + 1)
    }
}

/// What the lines of `text` from position `from` on say, the first of them
/// being line number `line_no`.
pub open spec fn parse_from(text: Seq<char>, from: int, line_no: nat) -> Seq<ParsedLineView>
    decreases text.len() + 1 - from,
{
    if from < 0 || from >= text.len() {
        Seq::empty()
    } else {
        let end = line_end(text, from);
        if from <= end <= text.len() {
            seq![spec_parse_line(text.subrange(from, end), line_no)] + parse_from(
                text,
                end + 1,
                line_no + 1,
            )
        } else {
            Seq::empty()
        }
    }
}

/// What the lines of `text` say, in order.
pub open spec fn parsed_lines(text: Seq<char>) -> Seq<ParsedLineView> {
    parse_from(text, 0, 1)
}

/// The rules among `lines`, in order.
pub open spec fn rules_of(lines: Seq<ParsedLineView>) -> Seq<RuleView>
    decreases lines.len(),
{
    if lines.len() == 0 {
        Seq::empty()
    } else {
        let earlier = rules_of(lines.drop_last());
        match lines.last() {
            ParsedLineView::Rule(rule) => earlier.push(rule),
            _ => earlier,
        }
    }
}

/// The errors among `lines`, in order.
pub open spec fn errors_of(lines: Seq<ParsedLineView>) -> Seq<RuleLoadErrorView>
    decreases lines.len(),
{
    if lines.len() == 0 {
        Seq::empty()
    } else {
        let earlier = errors_of(lines.drop_last());
        match lines.last() {
            ParsedLineView::Error(error) => earlier.push(error),
            _ => earlier,
        }
    }
}

/// How many of `lines` describe a rule.
pub open spec fn count_rules(lines: Seq<ParsedLineView>) -> nat
    decreases lines.len(),
{
    if lines.len() == 0 {
        0
    } else {
        count_rules(lines.drop_last()) + if lines.last() is Rule {
            1nat
        } else {
            0nat
        }
    }
}

/// How many of `lines` are malformed.
pub open spec fn count_errors(lines: Seq<ParsedLineView>) -> nat
    decreases lines.len(),
{
    if lines.len() == 0 {
        0
    } else {
        count_errors(lines.drop_last()) + if lines.last() is Error {
            1nat
        } else {
            0nat
        }
    }
}

fn is_blank_char(c: char) -> (blank: bool)
    ensures
        blank == is_blank(c),
{
    c == ' ' || c == '\t' || c == '\r'
}

/// The fields of `line`, each as the positions where it starts and ends.
fn split_fields(line: &[char]) -> (ranges: Vec<(usize, usize)>)
    ensures
        ranges@.len() == fields(line@).len(),
        forall|k: int|
            0 <= k < ranges@.len() ==> {
                let (start, end) = #[trigger] ranges@[k];
                &&& start < end <= line@.len()
                &&& line@.subrange(start as int, end as int) == fields(line@)[k]
            },
{
    let mut ranges: Vec<(usize, usize)> = Vec::new();
    let ghost mut done: Seq<Seq<char>> = Seq::empty();
    let mut at: usize = 0;
    assert(done + fields_from(line@, 0) =~= fields(line@));
    while at < line.len()
        invariant
            at <= line.len(),
            fields(line@) == done + fields_from(line@, at as int),
            ranges@.len() == done.len(),
            forall|k: int|
                0 <= k < ranges@.len() ==> {
                    let (start, end) = #[trigger] ranges@[k];
                    &&& start < end <= line@.len()
                    &&& line@.subrange(start as int, end as int) == done[k]
                },
        decreases line.len() - at,
    {
        if is_blank_char(line[at]) {
            at = at + 1;
        } else {
            let start = at;
            let mut end = at + 1;
            while end < line.len() && !is_blank_char(line[end])
                invariant
                    start < end <= line.len(),
                    field_end(line@, start as int) == field_end(line@, end as int),
                decreases line.len() - end,
            {
                end = end + 1;
            }
            proof {
                let field = line@.subrange(start as int, end as int);
                let rest = fields_from(line@, end as int);
                assert(fields_from(line@, start as int) == seq![field] + rest);
                assert(done + (seq![field] + rest) =~= done.push(field) + rest);
                done = done.push(field);
            }
            ranges.push((start, end));
            at = end;
        }
    }
    assert(done + fields_from(line@, at as int) =~= done);
    ranges
}

/// Reads the three fields of a line whose first field is a kind of rule.
fn parse_rule(kind: &[char], argument: &[char], weight: &[char], line_no: usize) -> (parsed:
    ParsedLine)
    requires
        known_kind(kind@),
    ensures
        parsed@ == spec_parse_rule(kind@, argument@, weight@, line_no as nat),
{
    let weighed: Option<u32> = match parse_decimal(weight) {
        Some(value) => if value <= u32::MAX as u64 {
            Some(value as u32)
        } else {
            None
        },
        None => None,
    };
    assert(match weighed {
        Some(value) => spec_number(weight@, u32::MAX as nat) == Some(value as nat),
        None => spec_number(weight@, u32::MAX as nat) is None,
    });
    let is_extension = spells(kind, "extension");
    if is_extension || spells(kind, "name_contains") {
        match weighed {
            None => ParsedLine::Error(
                RuleLoadError::ParseError { line: line_no, reason: ParseReason::BadWeight },
            ),
            Some(weight) => if is_extension {
                ParsedLine::Rule(Rule::Extension { extension: string_from(argument), weight })
            } else {
                ParsedLine::Rule(Rule::NameContains { fragment: string_from(argument), weight })
            },
        }
    } else {
        match parse_decimal(argument) {
            None => ParsedLine::Error(
                RuleLoadError::ParseError { line: line_no, reason: ParseReason::BadNumber },
            ),
            Some(number) => match weighed {
                None => ParsedLine::Error(
                    RuleLoadError::ParseError { line: line_no, reason: ParseReason::BadWeight },
                ),
                Some(weight) => if spells(kind, "older_than") {
                    ParsedLine::Rule(Rule::OlderThan { seconds: number, weight })
                } else {
                    ParsedLine::Rule(Rule::MinDepth { depth: number, weight })
                },
            },
        }
    }
}

/// Reads one line of a description. `line_no` is its number, counted from one.
pub fn parse_line(line: &[char], line_no: usize) -> (parsed: ParsedLine)
    ensures
        parsed@ == spec_parse_line(line@, line_no as nat),
{
    let ranges = split_fields(line);
    if ranges.len() == 0 {
        return ParsedLine::Skipped;
    }
    let (kind_start, kind_end) = ranges[0];
    if line[kind_start] == '#' {
        return ParsedLine::Skipped;
    }
    let kind = slice_subrange(line, kind_start, kind_end);
    let known = spells(kind, "extension") || spells(kind, "name_contains") || spells(
        kind,
        "older_than",
    ) || spells(kind, "min_depth");
    if !known {
        return ParsedLine::Error(RuleLoadError::UnknownRuleKind { name: string_from(kind) });
    }
    if ranges.len() != 3 {
        return ParsedLine::Error(
            RuleLoadError::ParseError { line: line_no, reason: ParseReason::FieldCount },
        );
    }
    let (argument_start, argument_end) = ranges[1];
    let (weight_start, weight_end) = ranges[2];
    let argument = slice_subrange(line, argument_start, argument_end);
    let weight = slice_subrange(line, weight_start, weight_end);
    parse_rule(kind, argument, weight, line_no)
}

/// Loads the rules that `text` describes. Every line that describes a rule
/// gives one rule, in the order of the lines; every other line that is not
/// empty and no comment gives one error. `loaded` is the number of rules.
pub fn parse_rules(text: &str, loaded_at: u64) -> (report: LoadReport)
    ensures
        report.rule_set@.rules == rules_of(parsed_lines(text@)),
        report.rule_set@.loaded_at == loaded_at,
        report.loaded == count_rules(parsed_lines(text@)),
        error_views(report.errors@) == errors_of(parsed_lines(text@)),
        report.errors@.len() == count_errors(parsed_lines(text@)),
{
    let chars = chars_of(text);
    let mut rules: Vec<Rule> = Vec::new();
    let mut errors: Vec<RuleLoadError> = Vec::new();
    let ghost mut done: Seq<ParsedLineView> = Seq::empty();
    let mut start: usize = 0;
    let mut lines_read: usize = 0;
    assert(done + parse_from(chars@, 0, 1) =~= parsed_lines(text@));
    while start < chars.len()
        invariant
            chars@ == text@,
            lines_read <= start <= chars.len(),
            parsed_lines(text@) == done + parse_from(
                chars@,
                start as int,
                (lines_read + 1) as nat,
            ),
            rule_views(rules@) == rules_of(done),
            error_views(errors@) == errors_of(done),
            rules@.len() == count_rules(done),
            errors@.len() == count_errors(done),
        decreases chars.len() - start,
    {
        let line_no: usize = lines_read + 1;
        let mut end = start;
        while end < chars.len() && chars[end] != '\n'
            invariant
                start <= end <= chars.len(),
                line_end(chars@, start as int) == line_end(chars@, end as int),
            decreases chars.len() - end,
        {
            end = end + 1;
        }
        let line = slice_subrange(chars.as_slice(), start, end);
        let parsed = parse_line(line, line_no);
        proof {
            let rest = parse_from(chars@, end + 1, (line_no + 1) as nat);
            assert(parse_from(chars@, start as int, line_no as nat) == seq![parsed@] + rest);
            assert(done + (seq![parsed@] + rest) =~= done.push(parsed@) + rest);
            assert(done.push(parsed@).drop_last() =~= done);
            done = done.push(parsed@);
        }
        match parsed {
            ParsedLine::Rule(rule) => {
                assert(rule_views(rules@.push(rule)) =~= rule_views(rules@).push(rule@));
                rules.push(rule);
            },
            ParsedLine::Error(error) => {
                assert(error_views(errors@.push(error)) =~= error_views(errors@).push(error@));
                errors.push(error);
            },
            ParsedLine::Skipped => {},
        }
        lines_read = line_no;
        start = if end < chars.len() {
            end + 1
        } else {
            end
        };
    }
    assert(done + parse_from(chars@, start as int, (lines_read + 1) as nat) =~= done);
    let loaded = rules.len();
    LoadReport { rule_set: RuleSet::from_rules(rules, loaded_at), loaded, errors }
}

/// Loads a rule set from `source`, the text of its description, or `None`
/// if there is no description. Only a missing description fails the load;
/// a malformed line is reported in the result and skipped.
pub fn load_rules(source: Option<&str>, loaded_at: u64) -> (result: Result<
    LoadReport,
    RuleLoadError,
>)
    ensures
        match result {
            Ok(report) => {
                &&& source matches Some(text)
                &&& report.rule_set@.rules == rules_of(parsed_lines(text@))
                &&& report.rule_set@.loaded_at == loaded_at
                &&& report.loaded == count_rules(parsed_lines(text@))
                &&& error_views(report.errors@) == errors_of(parsed_lines(text@))
                &&& report.errors@.len() == count_errors(parsed_lines(text@))
            },
            Err(error) => source is None && error@ == RuleLoadErrorView::FileNotFound,
        },
{
    match source {
        Some(text) => Ok(parse_rules(text, loaded_at)),
        None => Err(RuleLoadError::FileNotFound),
    }
}

/// Loading counts every line once: as many rules are loaded as lines
/// describe a rule, as many errors are reported as lines are malformed, and
/// together they are no more than there are lines.
pub proof fn lemma_every_line_is_counted(lines: Seq<ParsedLineView>)
    ensures
        rules_of(lines).len() == count_rules(lines),
        errors_of(lines).len() == count_errors(lines),
        count_rules(lines) + count_errors(lines) <= lines.len(),
    decreases lines.len(),
{
    if lines.len() > 0 {
        lemma_every_line_is_counted(lines.drop_last());
    }
}

/// A malformed line takes nothing away from the lines before it: the rules
/// loaded from a text that goes on with a malformed line are those loaded
/// from the text without it.
pub proof fn lemma_malformed_line_is_skipped(lines: Seq<ParsedLineView>, line: ParsedLineView)
    requires
        line is Error,
    ensures
        rules_of(lines.push(line)) == rules_of(lines),
        count_rules(lines.push(line)) == count_rules(lines),
        count_errors(lines.push(line)) == count_errors(lines) + 1,
{
    assert(lines.push(line).drop_last() =~= lines);
}

/// A line ends at the first line feed at or after its start, or at the end
/// of the text if there is none.
pub proof fn lemma_line_ends_at_first_line_feed(text: Seq<char>, from: int)
    requires
        0 <= from <= text.len(),
    ensures
        from <= line_end(text, from) <= text.len(),
        line_end(text, from) < text.len() ==> text[line_end(text, from)] == '\n',
        forall|k: int| from <= k < line_end(text, from) ==> text[k] != '\n',
    decreases text.len() - from,
{
    if from < text.len() && text[from] != '\n' {
        lemma_line_ends_at_first_line_feed(text, from + 1);
    }
}

/// A field ends at the first blank at or after its start, or at the end of
/// the line if there is none.
pub proof fn lemma_field_ends_at_first_blank(line: Seq<char>, from: int)
    requires
        0 <= from <= line.len(),
    ensures
        from <= field_end(line, from) <= line.len(),
        field_end(line, from) < line.len() ==> is_blank(line[field_end(line, from)]),
        forall|k: int| from <= k < field_end(line, from) ==> !is_blank(line[k]),
    decreases line.len() - from,
{
    if from < line.len() && !is_blank(line[from]) {
        lemma_field_ends_at_first_blank(line, from + 1);
    }
}

/// No field is empty.
pub proof fn lemma_fields_are_not_empty(line: Seq<char>, from: int)
    ensures
        forall|k: int|
            0 <= k < fields_from(line, from).len() ==> (#[trigger] fields_from(line, from)[k]).len()
                > 0,
    decreases line.len() - from,
{
    if from < 0 || from >= line.len() {
        assert(fields_from(line, from).len() == 0);
    } else if is_blank(line[from]) {
        lemma_fields_are_not_empty(line, from + 1);
        assert(fields_from(line, from) == fields_from(line, from + 1));
    } else {
        let end = field_end(line, from);
        if !(from < end <= line.len()) {
            assert(fields_from(line, from).len() == 0);
        } else {
            lemma_fields_are_not_empty(line, end);
            let first = seq![line.subrange(from, end)];
            let rest = fields_from(line, end);
            assert(fields_from(line, from) == first + rest);
            assert forall|k: int| 0 <= k < (first + rest).len() implies (#[trigger] (first
                + rest)[k]).len() > 0 by {
                if k > 0 {
                    assert((first + rest)[k] == rest[k - 1]);
                } else {
                    assert((first + rest)[0] == line.subrange(from, end));
                }
            }
        }
    }
}

/// A line that describes a rule describes a well-formed rule.
pub proof fn lemma_parsed_rule_is_well_formed(line: Seq<char>, line_no: nat)
    ensures
        spec_parse_line(line, line_no) matches ParsedLineView::Rule(rule) ==> rule.well_formed(),
{
    lemma_fields_are_not_empty(line, 0);
    if spec_parse_line(line, line_no) is Rule {
        assert(fields(line).len() == 3);
        assert(fields(line)[1].len() > 0);
    }
}

/// Whether every rule among `lines` is well formed.
pub open spec fn rules_are_well_formed(lines: Seq<ParsedLineView>) -> bool {
    forall|k: int|
        0 <= k < lines.len() ==> (#[trigger] lines[k] matches ParsedLineView::Rule(rule)
            ==> rule.well_formed())
}

proof fn lemma_lines_hold_well_formed_rules(text: Seq<char>, from: int, line_no: nat)
    ensures
        rules_are_well_formed(parse_from(text, from, line_no)),
    decreases text.len() + 1 - from,
{
    if from < 0 || from >= text.len() {
    } else {
        let end = line_end(text, from);
        if from <= end <= text.len() {
            let first = seq![spec_parse_line(text.subrange(from, end), line_no)];
            let rest = parse_from(text, end + 1, line_no + 1);
            lemma_parsed_rule_is_well_formed(text.subrange(from, end), line_no);
            lemma_lines_hold_well_formed_rules(text, end + 1, line_no + 1);
            assert(parse_from(text, from, line_no) == first + rest);
            assert forall|k: int| 0 <= k < (first + rest).len() implies (#[trigger] (first
                + rest)[k] matches ParsedLineView::Rule(rule) ==> rule.well_formed()) by {
                if k > 0 {
                    assert((first + rest)[k] == rest[k - 1]);
                }
            }
        }
    }
}

proof fn lemma_rules_of_well_formed_lines(lines: Seq<ParsedLineView>)
    requires
        rules_are_well_formed(lines),
    ensures
        forall|k: int|
            0 <= k < rules_of(lines).len() ==> (#[trigger] rules_of(lines)[k]).well_formed(),
    decreases lines.len(),
{
    if lines.len() > 0 {
        let earlier = lines.drop_last();
        assert(rules_are_well_formed(earlier)) by {
            assert forall|k: int| 0 <= k < earlier.len() implies (#[trigger] earlier[k] matches ParsedLineView::Rule(
                rule,
            ) ==> rule.well_formed()) by {
                assert(earlier[k] == lines[k]);
            }
        }
        lemma_rules_of_well_formed_lines(earlier);
        assert(lines[lines.len() - 1] == lines.last());
        let loaded = rules_of(lines);
        assert forall|k: int| 0 <= k < loaded.len() implies (#[trigger] loaded[k]).well_formed() by {
            if k < rules_of(earlier).len() {
                assert(loaded[k] == rules_of(earlier)[k]);
            }
        }
    }
}

/// Every rule that is loaded from a description is well formed, whatever
/// the description holds.
pub proof fn lemma_loaded_rules_are_well_formed(text: Seq<char>)
    ensures
        forall|k: int|
            0 <= k < rules_of(parsed_lines(text)).len() ==> (#[trigger] rules_of(
                parsed_lines(text),
            )[k]).well_formed(),
{
    lemma_lines_hold_well_formed_rules(text, 0, 1);
    lemma_rules_of_well_formed_lines(parsed_lines(text));
}

} // verus!
