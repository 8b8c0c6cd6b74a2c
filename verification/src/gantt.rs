//! The timeline ("Gantt") model: sub-items, items, per-resource lines, and
//! the assembled timeline with its global time bound.
//!
//! Each executable type has a mathematical model (`*Model`) reached through
//! its view, so that contracts can speak about sequences of characters and
//! instants instead of heap values.

use vstd::prelude::*;

use crate::time_range::TimeRange;

verus! {

/// Raised when a timestamp string of a record does not match the fixed
/// `YYYY-MM-DD HH:MM:SS` pattern or names an invalid date or time.
#[derive(Clone, Copy, PartialEq, Eq, Structural, Debug)]
pub struct TimeParseError;

/// Raised by timeline assembly when, after filtering, no record at all is
/// left to span the global time bound.
#[derive(Clone, Copy, PartialEq, Eq, Structural, Debug)]
pub enum TimelineError {
    EmptyTimeline,
}

/// One named sub-phase within a task's span.
#[derive(Debug)]
pub struct GanttSubItem {
    pub name: String,
    pub category: String,
    pub time: TimeRange,
}

/// Mathematical model of a [`GanttSubItem`].
#[verifier::ext_equal]
pub struct SubItemModel {
    pub name: Seq<char>,
    pub category: Seq<char>,
    pub time: TimeRange,
}

impl View for GanttSubItem {
    type V = SubItemModel;

    open spec fn view(&self) -> SubItemModel {
        SubItemModel { name: self.name@, category: self.category@, time: self.time }
    }
}

/// Model of a list of key/value string pairs.
pub open spec fn pairs_model(v: Seq<(String, String)>) -> Seq<(Seq<char>, Seq<char>)> {
    v.map_values(|p: (String, String)| (p.0@, p.1@))
}

/// Model of a list of strings.
pub open spec fn strings_model(v: Seq<String>) -> Seq<Seq<char>> {
    v.map_values(|s: String| s@)
}

/// The characters of an optional string; absent reads as empty.
pub open spec fn opt_string_model(o: Option<String>) -> Seq<char> {
    match o {
        Some(s) => s@,
        None => Seq::empty(),
    }
}

/// Clone an optional label, reading an absent one as the empty string.
pub fn opt_string_value(o: &Option<String>) -> (r: String)
    ensures
        r@ == opt_string_model(*o),
{
    match o {
        Some(s) => s.clone(),
        None => String::new(),
    }
}

/// One row of a timeline line: a task together with its sub-phases, its
/// scheduled and actual spans, and its auxiliary key/value annotations.
#[derive(Debug)]
pub struct GanttItem {
    pub name: String,
    pub category: String,
    pub sub_items: Vec<GanttSubItem>,
    pub scheduled_time: TimeRange,
    pub time: TimeRange,
    pub produces: Vec<(String, String)>,
    pub resources: Vec<(String, String)>,
    pub info: Vec<(String, String)>,
}

/// Mathematical model of a [`GanttItem`].
#[verifier::ext_equal]
pub struct ItemModel {
    pub name: Seq<char>,
    pub category: Seq<char>,
    pub sub_items: Seq<SubItemModel>,
    pub scheduled_time: TimeRange,
    pub time: TimeRange,
    pub produces: Seq<(Seq<char>, Seq<char>)>,
    pub resources: Seq<(Seq<char>, Seq<char>)>,
    pub info: Seq<(Seq<char>, Seq<char>)>,
}

impl View for GanttItem {
    type V = ItemModel;

    open spec fn view(&self) -> ItemModel {
        ItemModel {
            name: self.name@,
            category: self.category@,
            sub_items: self.sub_items@.map_values(|s: GanttSubItem| s@),
            scheduled_time: self.scheduled_time,
            time: self.time,
            produces: pairs_model(self.produces@),
            resources: pairs_model(self.resources@),
            info: pairs_model(self.info@),
        }
    }
}

/// Model of a vector of items.
pub open spec fn items_model(v: Seq<GanttItem>) -> Seq<ItemModel> {
    v.map_values(|x: GanttItem| x@)
}

/// The ordered sequence of timeline items belonging to one resource.
#[derive(Debug)]
pub struct GanttLine {
    pub name: String,
    pub category: String,
    pub items: Vec<GanttItem>,
}

/// Mathematical model of a [`GanttLine`].
#[verifier::ext_equal]
pub struct LineModel {
    pub name: Seq<char>,
    pub category: Seq<char>,
    pub items: Seq<ItemModel>,
}

impl View for GanttLine {
    type V = LineModel;

    open spec fn view(&self) -> LineModel {
        LineModel { name: self.name@, category: self.category@, items: items_model(self.items@) }
    }
}

/// The assembled timeline: the global time bound, one line per resource,
/// and the cross-reference category labels exposed to the renderer.
#[derive(Debug)]
pub struct Gantt {
    pub time: TimeRange,
    pub lines: Vec<GanttLine>,
    pub link_info: Vec<String>,
}

/// Mathematical model of a [`Gantt`].
#[verifier::ext_equal]
pub struct GanttModel {
    pub time: TimeRange,
    pub lines: Seq<LineModel>,
    pub link_info: Seq<Seq<char>>,
}

impl View for Gantt {
    type V = GanttModel;

    open spec fn view(&self) -> GanttModel {
        GanttModel {
            time: self.time,
            lines: self.lines@.map_values(|l: GanttLine| l@),
            link_info: strings_model(self.link_info@),
        }
    }
}

impl Gantt {
    pub fn new(time: TimeRange, lines: Vec<GanttLine>, link_info: Vec<String>) -> (r: Gantt)
        ensures
            r.time == time,
            r.lines == lines,
            r.link_info == link_info,
    {
        Gantt { time, lines, link_info }
    }

    /// The day (whole days since the Unix epoch, rounding toward minus
    /// infinity) on which the timeline's bound starts.
    pub fn start_date(&self) -> (r: i64)
        ensures
            r == self.time.start as int / crate::time_range::SECONDS_PER_DAY as int,
    {
        self.time.start.checked_div_euclid(crate::time_range::SECONDS_PER_DAY).unwrap()
    }

    /// The day (whole days since the Unix epoch) on which the bound ends.
    pub fn end_date(&self) -> (r: i64)
        ensures
            r == self.time.end as int / crate::time_range::SECONDS_PER_DAY as int,
    {
        self.time.end.checked_div_euclid(crate::time_range::SECONDS_PER_DAY).unwrap()
    }

    /// Seconds after midnight at which the bound starts on its day.
    pub fn start_day_time(&self) -> (r: i64)
        ensures
            r == self.time.start as int % crate::time_range::SECONDS_PER_DAY as int,
    {
        self.time.start.checked_rem_euclid(crate::time_range::SECONDS_PER_DAY).unwrap()
    }

    /// Seconds after midnight at which the bound ends on its day.
    pub fn end_day_time(&self) -> (r: i64)
        ensures
            r == self.time.end as int % crate::time_range::SECONDS_PER_DAY as int,
    {
        self.time.end.checked_rem_euclid(crate::time_range::SECONDS_PER_DAY).unwrap()
    }
}

} // verus!
