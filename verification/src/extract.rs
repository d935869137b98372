//! From a line of diagnostic output to the events that it reports.
//!
//! A line is searched for each of the six forms in turn, and every form
//! that is found gives one event. A form that is found with a number that
//! cannot be read, or with a time that is no span above zero, is a fault:
//! the line then gives no events at all, only the first such fault.

use crate::clock::elapsed;
use crate::duration::Duration;
use crate::event::{BenchmarkEvent, EventModel};
use crate::measure::{decode_milliseconds, read_decimal, Millis, NumberError};
use crate::pattern::{scan_of, search, PatternKind, Scan, ScanModel};
use crate::text::{decimal_value, parse_u32, spells_u32};
use std::time::Instant;
use vstd::prelude::*;

verus! {

/// What is wrong with a line in which a form was found.
#[derive(Clone, Copy, Debug, PartialEq, Eq, Structural)]
pub enum Flaw {
    /// The regular expression of the form was not accepted.
    Expression,
    /// The match lacks a group that the form has.
    Field,
    /// The iteration is not a number of at most 32 bits in ASCII digits.
    Iteration,
    /// The time is not a measurement.
    Time(NumberError),
    /// The time is less than one nanosecond.
    NotPositive,
}

/// A fault in a line: the form that was found, and what is wrong.
#[derive(Clone, Copy, Debug, PartialEq, Eq, Structural)]
pub struct ExtractError {
    pub kind: PatternKind,
    pub flaw: Flaw,
}

/// The results of searching one line for each of the six forms.
#[derive(Clone, Debug, PartialEq, Eq)]
pub struct LineScans {
    pub iter_forward_backward: Scan,
    pub layer_forward: Scan,
    pub layer_backward: Scan,
    pub avg_forward: Scan,
    pub avg_backward: Scan,
    pub avg_forward_backward: Scan,
}

/// The six search results as plain values.
pub struct LineScansModel {
    pub iter_forward_backward: ScanModel,
    pub layer_forward: ScanModel,
    pub layer_backward: ScanModel,
    pub avg_forward: ScanModel,
    pub avg_backward: ScanModel,
    pub avg_forward_backward: ScanModel,
}

impl View for LineScans {
    type V = LineScansModel;

    open spec fn view(&self) -> LineScansModel {
        LineScansModel {
            iter_forward_backward: self.iter_forward_backward@,
            layer_forward: self.layer_forward@,
            layer_backward: self.layer_backward@,
            avg_forward: self.avg_forward@,
            avg_backward: self.avg_backward@,
            avg_forward_backward: self.avg_forward_backward@,
        }
    }
}

impl LineScansModel {
    /// The result of the search for the form `kind`.
    pub open spec fn of(self, kind: PatternKind) -> ScanModel {
        match kind {
            PatternKind::IterForwardBackward => self.iter_forward_backward,
            PatternKind::LayerForward => self.layer_forward,
            PatternKind::LayerBackward => self.layer_backward,
            PatternKind::AvgForward => self.avg_forward,
            PatternKind::AvgBackward => self.avg_backward,
            PatternKind::AvgForwardBackward => self.avg_forward_backward,
        }
    }
}

/// Events, or the fault that stands in their place.
pub type Extraction = Result<Seq<EventModel>, ExtractError>;

/// The text of group `place` of a match, if the match has such a group and
/// the group took part.
pub open spec fn group_text(groups: Seq<Option<Seq<char>>>, place: int) -> Option<Seq<char>> {
    if 0 <= place < groups.len() {
        groups[place]
    } else {
        None
    }
}

/// The iteration that `text` gives.
pub open spec fn iteration_of(text: Seq<char>) -> Result<u32, Flaw> {
    if spells_u32(text) {
        Ok(decimal_value(text) as u32)
    } else {
        Err(Flaw::Iteration)
    }
}

/// The span, in nanoseconds, that `text` gives as a time in milliseconds.
pub open spec fn time_of(text: Seq<char>) -> Result<nat, Flaw> {
    match read_decimal(text) {
        Err(e) => Err(Flaw::Time(e)),
        Ok(value) => if value.nanos == 0 {
            Err(Flaw::NotPositive)
        } else {
            Ok(value.nanos)
        },
    }
}

/// The span that group `place` of a match gives.
pub open spec fn group_time(groups: Seq<Option<Seq<char>>>, place: int) -> Result<nat, Flaw> {
    match group_text(groups, place) {
        None => Err(Flaw::Field),
        Some(text) => time_of(text),
    }
}

/// The event that a match of the form `kind` gives when seen at `at`. The
/// forms with an iteration or a layer hold it in group 1 and the time in
/// group 2; the others hold the time in group 1.
pub open spec fn hit_event(kind: PatternKind, groups: Seq<Option<Seq<char>>>, at: nat) -> Result<
    EventModel,
    Flaw,
> {
    match kind {
        PatternKind::IterForwardBackward => match group_text(groups, 1) {
            None => Err(Flaw::Field),
            Some(number) => match iteration_of(number) {
                Err(flaw) => Err(flaw),
                Ok(iteration) => match group_time(groups, 2) {
                    Err(flaw) => Err(flaw),
                    Ok(time) => Ok(
                        EventModel::IterForwardBackward { timestamp: at, iteration, time },
                    ),
                },
            },
        },
        PatternKind::LayerForward => match group_text(groups, 1) {
            None => Err(Flaw::Field),
            Some(layer) => match group_time(groups, 2) {
                Err(flaw) => Err(flaw),
                Ok(time) => Ok(EventModel::LayerForward { timestamp: at, layer, time }),
            },
        },
        PatternKind::LayerBackward => match group_text(groups, 1) {
            None => Err(Flaw::Field),
            Some(layer) => match group_time(groups, 2) {
                Err(flaw) => Err(flaw),
                Ok(time) => Ok(EventModel::LayerBackward { timestamp: at, layer, time }),
            },
        },
        PatternKind::AvgForward => match group_time(groups, 1) {
            Err(flaw) => Err(flaw),
            Ok(time) => Ok(EventModel::AvgForward { timestamp: at, time }),
        },
        PatternKind::AvgBackward => match group_time(groups, 1) {
            Err(flaw) => Err(flaw),
            Ok(time) => Ok(EventModel::AvgBackward { timestamp: at, time }),
        },
        PatternKind::AvgForwardBackward => match group_time(groups, 1) {
            Err(flaw) => Err(flaw),
            Ok(time) => Ok(EventModel::AvgForwardBackward { timestamp: at, time }),
        },
    }
}

/// What the search for the form `kind` gives when seen at `at`: no event
/// where the form is not found, one where it is, a fault where it is found
/// and cannot be read.
pub open spec fn scan_event(kind: PatternKind, scan: ScanModel, at: nat) -> Result<
    Option<EventModel>,
    ExtractError,
> {
    match scan {
        ScanModel::Invalid => Err(ExtractError { kind, flaw: Flaw::Expression }),
        ScanModel::Miss => Ok(None),
        ScanModel::Hit(groups) => match hit_event(kind, groups, at) {
            Ok(event) => Ok(Some(event)),
            Err(flaw) => Err(ExtractError { kind, flaw }),
        },
    }
}

/// The events so far, with what one more search adds. A fault stays.
pub open spec fn with_scan(sofar: Extraction, kind: PatternKind, scan: ScanModel, at: nat)
    -> Extraction {
    match sofar {
        Err(fault) => Err(fault),
        Ok(events) => match scan_event(kind, scan, at) {
            Err(fault) => Err(fault),
            Ok(None) => Ok(events),
            Ok(Some(event)) => Ok(events.push(event)),
        },
    }
}

/// The events that six search results give when seen at `at`: those of
/// each form in turn, or the first fault.
pub open spec fn scans_events(scans: LineScansModel, at: nat) -> Extraction {
    let none = Ok::<Seq<EventModel>, ExtractError>(Seq::empty());
    let first = with_scan(none, PatternKind::IterForwardBackward, scans.iter_forward_backward, at);
    let second = with_scan(first, PatternKind::LayerForward, scans.layer_forward, at);
    let third = with_scan(second, PatternKind::LayerBackward, scans.layer_backward, at);
    let fourth = with_scan(third, PatternKind::AvgForward, scans.avg_forward, at);
    let fifth = with_scan(fourth, PatternKind::AvgBackward, scans.avg_backward, at);
    with_scan(fifth, PatternKind::AvgForwardBackward, scans.avg_forward_backward, at)
}

/// What searching `line` for each of the six forms comes to.
pub open spec fn line_scans(line: Seq<char>) -> LineScansModel {
    LineScansModel {
        iter_forward_backward: scan_of(PatternKind::IterForwardBackward.expression_text(), line),
        layer_forward: scan_of(PatternKind::LayerForward.expression_text(), line),
        layer_backward: scan_of(PatternKind::LayerBackward.expression_text(), line),
        avg_forward: scan_of(PatternKind::AvgForward.expression_text(), line),
        avg_backward: scan_of(PatternKind::AvgBackward.expression_text(), line),
        avg_forward_backward: scan_of(PatternKind::AvgForwardBackward.expression_text(), line),
    }
}

/// The events that `line` gives when seen at `at`.
#[verifier::opaque]
pub open spec fn line_events(line: Seq<char>, at: nat) -> Extraction {
    scans_events(line_scans(line), at)
}

/// Whether `found` is what `expected` says: the same fault, or events with
/// the same models in the same order.
pub open spec fn agrees(found: Result<Vec<BenchmarkEvent>, ExtractError>, expected: Extraction)
    -> bool {
    match found {
        Ok(events) => expected == Ok::<Seq<EventModel>, ExtractError>(events.deep_view()),
        Err(fault) => expected == Err::<Seq<EventModel>, ExtractError>(fault),
    }
}

/// The text of group `place` of a match.
fn group<'a>(groups: &'a Vec<Option<String>>, place: usize) -> (text: Option<&'a String>)
    ensures
        match text {
            Some(t) => group_text(groups.deep_view(), place as int) == Some(t@),
            None => group_text(groups.deep_view(), place as int) is None,
        },
{
    if place < groups.len() {
        match &groups[place] {
            Some(text) => Some(text),
            None => None,
        }
    } else {
        None
    }
}

/// The span that group `place` of a match gives.
fn time_in(groups: &Vec<Option<String>>, place: usize) -> (time: Result<Duration, Flaw>)
    ensures
        match time {
            Ok(span) => group_time(groups.deep_view(), place as int) == Ok::<nat, Flaw>(span@),
            Err(flaw) => group_time(groups.deep_view(), place as int) == Err::<nat, Flaw>(flaw),
        },
{
    let text = match group(groups, place) {
        Some(text) => text,
        None => {
            return Err(Flaw::Field);
        },
    };
    let value = match Millis::parse(text.as_str()) {
        Ok(value) => value,
        Err(e) => {
            return Err(Flaw::Time(e));
        },
    };
    if !value.is_positive() {
        return Err(Flaw::NotPositive);
    }
    let span = decode_milliseconds(value);
    if span.is_zero() {
        Err(Flaw::NotPositive)
    } else {
        Ok(span)
    }
}

/// The event that a match of the form `kind`, seen at `at`, gives.
pub fn event_of_hit(kind: PatternKind, groups: &Vec<Option<String>>, at: Duration) -> (made:
    Result<BenchmarkEvent, Flaw>)
    ensures
        match made {
            Ok(event) => hit_event(kind, groups.deep_view(), at@) == Ok::<EventModel, Flaw>(
                event@,
            ),
            Err(flaw) => hit_event(kind, groups.deep_view(), at@) == Err::<EventModel, Flaw>(flaw),
        },
        made matches Ok(event) ==> event@.time() > 0 && event@.timestamp() == at@,
{
    match kind {
        PatternKind::IterForwardBackward => {
            let number = match group(groups, 1) {
                Some(number) => number,
                None => {
                    return Err(Flaw::Field);
                },
            };
            let iteration = match parse_u32(number.as_str()) {
                Some(iteration) => iteration,
                None => {
                    return Err(Flaw::Iteration);
                },
            };
            match time_in(groups, 2) {
                Ok(time) => Ok(
                    BenchmarkEvent::IterForwardBackward { timestamp: at, iteration, time },
                ),
                Err(flaw) => Err(flaw),
            }
        },
        PatternKind::LayerForward => {
            let layer = match group(groups, 1) {
                Some(layer) => layer.clone(),
                None => {
                    return Err(Flaw::Field);
                },
            };
            match time_in(groups, 2) {
                Ok(time) => Ok(BenchmarkEvent::LayerForward { timestamp: at, layer, time }),
                Err(flaw) => Err(flaw),
            }
        },
        PatternKind::LayerBackward => {
            let layer = match group(groups, 1) {
                Some(layer) => layer.clone(),
                None => {
                    return Err(Flaw::Field);
                },
            };
            match time_in(groups, 2) {
                Ok(time) => Ok(BenchmarkEvent::LayerBackward { timestamp: at, layer, time }),
                Err(flaw) => Err(flaw),
            }
        },
        PatternKind::AvgForward => match time_in(groups, 1) {
            Ok(time) => Ok(BenchmarkEvent::AvgForward { timestamp: at, time }),
            Err(flaw) => Err(flaw),
        },
        PatternKind::AvgBackward => match time_in(groups, 1) {
            Ok(time) => Ok(BenchmarkEvent::AvgBackward { timestamp: at, time }),
            Err(flaw) => Err(flaw),
        },
        PatternKind::AvgForwardBackward => match time_in(groups, 1) {
            Ok(time) => Ok(BenchmarkEvent::AvgForwardBackward { timestamp: at, time }),
            Err(flaw) => Err(flaw),
        },
    }
}

/// What the search for the form `kind`, seen at `at`, gives.
pub fn event_of_scan(kind: PatternKind, scan: &Scan, at: Duration) -> (made: Result<
    Option<BenchmarkEvent>,
    ExtractError,
>)
    ensures
        match made {
            Ok(Some(event)) => scan_event(kind, scan@, at@) == Ok::<
                Option<EventModel>,
                ExtractError,
            >(Some(event@)),
            Ok(None) => scan_event(kind, scan@, at@) == Ok::<Option<EventModel>, ExtractError>(
                None,
            ),
            Err(fault) => scan_event(kind, scan@, at@) == Err::<
                Option<EventModel>,
                ExtractError,
            >(fault),
        },
{
    match scan {
        Scan::Invalid => Err(ExtractError { kind, flaw: Flaw::Expression }),
        Scan::Miss => Ok(None),
        Scan::Hit(groups) => match event_of_hit(kind, groups, at) {
            Ok(event) => Ok(Some(event)),
            Err(flaw) => Err(ExtractError { kind, flaw }),
        },
    }
}

/// Adds to `events` what the search for the form `kind` gives.
fn add_event(events: &mut Vec<BenchmarkEvent>, kind: PatternKind, scan: &Scan, at: Duration) -> (done:
    Result<(), ExtractError>)
    ensures
        match done {
            Ok(()) => with_scan(Ok(old(events).deep_view()), kind, scan@, at@) == Ok::<
                Seq<EventModel>,
                ExtractError,
            >(final(events).deep_view()),
            Err(fault) => with_scan(Ok(old(events).deep_view()), kind, scan@, at@) == Err::<
                Seq<EventModel>,
                ExtractError,
            >(fault),
        },
{
    match event_of_scan(kind, scan, at) {
        Err(fault) => Err(fault),
        Ok(None) => Ok(()),
        Ok(Some(event)) => {
            events.push(event);
            assert(events.deep_view() =~= old(events).deep_view().push(event@));
            Ok(())
        },
    }
}

/// The events that six search results give when seen at `at`.
pub fn events_of_scans(scans: &LineScans, at: Duration) -> (found: Result<
    Vec<BenchmarkEvent>,
    ExtractError,
>)
    ensures
        agrees(found, scans_events(scans@, at@)),
{
    let mut events: Vec<BenchmarkEvent> = Vec::new();
    assert(events.deep_view() =~= Seq::<EventModel>::empty());
    add_event(&mut events, PatternKind::IterForwardBackward, &scans.iter_forward_backward, at)?;
    add_event(&mut events, PatternKind::LayerForward, &scans.layer_forward, at)?;
    add_event(&mut events, PatternKind::LayerBackward, &scans.layer_backward, at)?;
    add_event(&mut events, PatternKind::AvgForward, &scans.avg_forward, at)?;
    add_event(&mut events, PatternKind::AvgBackward, &scans.avg_backward, at)?;
    add_event(&mut events, PatternKind::AvgForwardBackward, &scans.avg_forward_backward, at)?;
    Ok(events)
}

/// What the form `kind` gives of `line`, seen at `at`: nothing where the
/// form is not in the line.
pub fn event_of_line(kind: PatternKind, line: &str, at: Duration) -> (made: Result<
    Option<BenchmarkEvent>,
    ExtractError,
>)
    ensures
        match made {
            Ok(Some(event)) => scan_event(kind, scan_of(kind.expression_text(), line@), at@)
                == Ok::<Option<EventModel>, ExtractError>(Some(event@)),
            Ok(None) => scan_event(kind, scan_of(kind.expression_text(), line@), at@) == Ok::<
                Option<EventModel>,
                ExtractError,
            >(None),
            Err(fault) => scan_event(kind, scan_of(kind.expression_text(), line@), at@) == Err::<
                Option<EventModel>,
                ExtractError,
            >(fault),
        },
{
    let found = search(kind, line);
    event_of_scan(kind, &found, at)
}

/// Searches `line` for each of the six forms.
pub fn scan_line(line: &str) -> (scans: LineScans)
    ensures
        scans@ == line_scans(line@),
{
    LineScans {
        iter_forward_backward: search(PatternKind::IterForwardBackward, line),
        layer_forward: search(PatternKind::LayerForward, line),
        layer_backward: search(PatternKind::LayerBackward, line),
        avg_forward: search(PatternKind::AvgForward, line),
        avg_backward: search(PatternKind::AvgBackward, line),
        avg_forward_backward: search(PatternKind::AvgForwardBackward, line),
    }
}

/// The events that `line` reports, stamped with the time `at`.
pub fn extract_at(line: &str, at: Duration) -> (found: Result<Vec<BenchmarkEvent>, ExtractError>)
    ensures
        agrees(found, line_events(line@, at@)),
{
    reveal(line_events);
    let scans = scan_line(line);
    events_of_scans(&scans, at)
}

/// The events that `line` reports, stamped with the time that has passed
/// since `baseline` when the call is made. The clock is read once, so all
/// events of one line bear the same time.
pub fn extract(line: &str, baseline: Instant) -> (found: Result<Vec<BenchmarkEvent>, ExtractError>)
    ensures
        exists|at: nat| agrees(found, #[trigger] line_events(line@, at)),
{
    let at = elapsed(&baseline);
    let found = extract_at(line, at);
    assert(agrees(found, line_events(line@, at@)));
    found
}

/// A line in which none of the six forms is found gives no event, and no
/// fault either.
pub proof fn lemma_no_form_no_event(scans: LineScansModel, at: nat)
    requires
        forall|kind: PatternKind| scans.of(kind) is Miss,
    ensures
        scans_events(scans, at) == Ok::<Seq<EventModel>, ExtractError>(Seq::empty()),
{
    assert(scans.of(PatternKind::IterForwardBackward) is Miss);
    assert(scans.of(PatternKind::LayerForward) is Miss);
    assert(scans.of(PatternKind::LayerBackward) is Miss);
    assert(scans.of(PatternKind::AvgForward) is Miss);
    assert(scans.of(PatternKind::AvgBackward) is Miss);
    assert(scans.of(PatternKind::AvgForwardBackward) is Miss);
}

/// A line in which just one of the six forms is found, and can be read,
/// gives just the event of that form.
pub proof fn lemma_one_form_one_event(scans: LineScansModel, found: PatternKind, at: nat)
    requires
        forall|kind: PatternKind| kind != found ==> scans.of(kind) is Miss,
        scan_event(found, scans.of(found), at) matches Ok(Some(_)),
    ensures
        scans_events(scans, at) == Ok::<Seq<EventModel>, ExtractError>(
            seq![scan_event(found, scans.of(found), at).unwrap().unwrap()],
        ),
{
    let event = scan_event(found, scans.of(found), at).unwrap().unwrap();
    assert(found != PatternKind::IterForwardBackward ==> scans.of(
        PatternKind::IterForwardBackward,
    ) is Miss);
    assert(found != PatternKind::LayerForward ==> scans.of(PatternKind::LayerForward) is Miss);
    assert(found != PatternKind::LayerBackward ==> scans.of(PatternKind::LayerBackward) is Miss);
    assert(found != PatternKind::AvgForward ==> scans.of(PatternKind::AvgForward) is Miss);
    assert(found != PatternKind::AvgBackward ==> scans.of(PatternKind::AvgBackward) is Miss);
    assert(found != PatternKind::AvgForwardBackward ==> scans.of(
        PatternKind::AvgForwardBackward,
    ) is Miss);
    assert(Seq::<EventModel>::empty().push(event) =~= seq![event]);
}

/// Every event that a line gives bears the time at which the line was
/// seen and a span above zero, and a line gives six events at most.
pub proof fn lemma_events_are_sound(scans: LineScansModel, at: nat)
    ensures
        scans_events(scans, at) matches Ok(events) ==> {
            &&& events.len() <= 6
            &&& forall|i: int|
                0 <= i < events.len() ==> (#[trigger] events[i]).timestamp() == at && events[i].time()
                    > 0
        },
{
    let none = Ok::<Seq<EventModel>, ExtractError>(Seq::empty());
    let first = with_scan(none, PatternKind::IterForwardBackward, scans.iter_forward_backward, at);
    let second = with_scan(first, PatternKind::LayerForward, scans.layer_forward, at);
    let third = with_scan(second, PatternKind::LayerBackward, scans.layer_backward, at);
    let fourth = with_scan(third, PatternKind::AvgForward, scans.avg_forward, at);
    let fifth = with_scan(fourth, PatternKind::AvgBackward, scans.avg_backward, at);
    lemma_step_is_sound(none, PatternKind::IterForwardBackward, scans.iter_forward_backward, at, 0);
    lemma_step_is_sound(first, PatternKind::LayerForward, scans.layer_forward, at, 1);
    lemma_step_is_sound(second, PatternKind::LayerBackward, scans.layer_backward, at, 2);
    lemma_step_is_sound(third, PatternKind::AvgForward, scans.avg_forward, at, 3);
    lemma_step_is_sound(fourth, PatternKind::AvgBackward, scans.avg_backward, at, 4);
    lemma_step_is_sound(fifth, PatternKind::AvgForwardBackward, scans.avg_forward_backward, at, 5);
}

/// Whether `sofar` holds at most `limit` events, each seen at `at` and
/// with a span above zero.
pub open spec fn sound(sofar: Extraction, at: nat, limit: nat) -> bool {
    sofar matches Ok(events) ==> {
        &&& events.len() <= limit
        &&& forall|i: int|
            0 <= i < events.len() ==> (#[trigger] events[i]).timestamp() == at && events[i].time() > 0
    }
}

/// One more search keeps the events sound and adds one at most.
proof fn lemma_step_is_sound(
    sofar: Extraction,
    kind: PatternKind,
    scan: ScanModel,
    at: nat,
    limit: nat,
)
    requires
        sound(sofar, at, limit),
    ensures
        sound(with_scan(sofar, kind, scan, at), at, limit + 1),
{
}

} // verus!
