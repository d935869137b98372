//! The six forms of log line that carry a measurement, written as regular
//! expressions, and the search of one line for one of them.

use vstd::prelude::*;

verus! {

/// A line that reports one iteration: its number and its time.
pub const ITER_FORWARD_BACKWARD: &'static str =
    r"Iteration: (?P<iter>\d+) forward-backward time: (?P<time>\d*[.]\d*) ms[.]";

/// A line that reports the forward pass of a layer: its name and its time.
pub const LAYER_FORWARD: &'static str =
    r"(?P<layer>[[:alnum:]]+)\s+forward: (?P<time>\d*[.]\d*) ms[.]";

/// A line that reports the backward pass of a layer: its name and its time.
pub const LAYER_BACKWARD: &'static str =
    r"(?P<layer>[[:alnum:]]+)\s+backward: (?P<time>\d*[.]\d*) ms[.]";

/// A line that reports the mean forward pass.
pub const AVG_FORWARD: &'static str = r"Average Forward pass: (?P<time>\d*[.]\d*) ms[.]";

/// A line that reports the mean backward pass.
pub const AVG_BACKWARD: &'static str = r"Average Backward pass: (?P<time>\d*[.]\d*) ms[.]";

/// A line that reports the mean forward and backward pass.
pub const AVG_FORWARD_BACKWARD: &'static str =
    r"Average Forward-Backward: (?P<time>\d*[.]\d*) ms[.]";

/// The forms of line, in the order in which a line is tried against them.
#[derive(Clone, Copy, Debug, PartialEq, Eq, Structural)]
pub enum PatternKind {
    IterForwardBackward,
    LayerForward,
    LayerBackward,
    AvgForward,
    AvgBackward,
    AvgForwardBackward,
}

impl PatternKind {
    /// The regular expression of the form.
    pub open spec fn expression_text(self) -> Seq<char> {
        match self {
            PatternKind::IterForwardBackward => ITER_FORWARD_BACKWARD@,
            PatternKind::LayerForward => LAYER_FORWARD@,
            PatternKind::LayerBackward => LAYER_BACKWARD@,
            PatternKind::AvgForward => AVG_FORWARD@,
            PatternKind::AvgBackward => AVG_BACKWARD@,
            PatternKind::AvgForwardBackward => AVG_FORWARD_BACKWARD@,
        }
    }

    /// The regular expression of the form.
    pub fn expression(self) -> (text: &'static str)
        ensures
            text@ == self.expression_text(),
    {
        match self {
            PatternKind::IterForwardBackward => ITER_FORWARD_BACKWARD,
            PatternKind::LayerForward => LAYER_FORWARD,
            PatternKind::LayerBackward => LAYER_BACKWARD,
            PatternKind::AvgForward => AVG_FORWARD,
            PatternKind::AvgBackward => AVG_BACKWARD,
            PatternKind::AvgForwardBackward => AVG_FORWARD_BACKWARD,
        }
    }
}

/// What the search of one line for one expression came to.
#[derive(Clone, Debug, PartialEq, Eq)]
pub enum Scan {
    /// The expression was not accepted as a regular expression.
    Invalid,
    /// The expression matches nowhere in the line.
    Miss,
    /// The leftmost match. Entry 0 is the matched text, entry `i` the text
    /// that the `i`-th group of the expression took, `None` for a group
    /// that took no part in the match.
    Hit(Vec<Option<String>>),
}

/// A search result as plain values.
pub enum ScanModel {
    Invalid,
    Miss,
    Hit(Seq<Option<Seq<char>>>),
}

impl View for Scan {
    type V = ScanModel;

    open spec fn view(&self) -> ScanModel {
        match self {
            Scan::Invalid => ScanModel::Invalid,
            Scan::Miss => ScanModel::Miss,
            Scan::Hit(groups) => ScanModel::Hit(groups.deep_view()),
        }
    }
}

/// What compiling `pattern` with `regex::Regex::new` and searching `line`
/// with `Regex::captures` comes to: `Invalid` when the pattern is refused,
/// `Miss` when the search finds nothing, else the groups of the match that
/// the search finds.
pub uninterp spec fn scan_of(pattern: Seq<char>, line: Seq<char>) -> ScanModel;

/// Compiles `pattern` with `regex::Regex::new` and searches `line` with
/// `Regex::captures`. Nothing is proved of the regular expression engine:
/// the result is taken to be a function of the pattern and the line alone,
/// which `scan_of` names. A refused pattern gives `Invalid`, a search
/// without a match `Miss`, and a match gives the text of every group as
/// `Captures::iter` hands them out.
#[verifier::external_body]
fn scan(pattern: &str, line: &str) -> (found: Scan)
    ensures
        found@ == scan_of(pattern@, line@),
{
    match regex::Regex::new(pattern) {
        Err(_) => Scan::Invalid,
        Ok(expression) => match expression.captures(line) {
            None => Scan::Miss,
            Some(groups) => Scan::Hit(
                groups.iter().map(|group| group.map(|text| text.as_str().to_string())).collect(),
            ),
        },
    }
}

/// Searches `line` for the form `kind`.
pub fn search(kind: PatternKind, line: &str) -> (found: Scan)
    ensures
        found@ == scan_of(kind.expression_text(), line@),
{
    scan(kind.expression(), line)
}

} // verus!
