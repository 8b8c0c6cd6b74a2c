//! Source records of the generic multi-stage schedule: tasks whose
//! sub-stages are supplied directly by the document rather than synthesized.
//!
//! Timestamps arrive as `YYYY-MM-DD HH:MM:SS` strings; the scheduled span is
//! optional and falls back to the actual span when either end is absent.

use vstd::prelude::*;
use vstd::string::StringExecFns;

use crate::clock::{parse_time_field, parsed_instant};
use crate::gantt::{
    GanttItem, GanttSubItem, ItemModel, SubItemModel, TimeParseError, pairs_model,
};
use crate::task_dto::TaskDTO;
use crate::time_range::TimeRange;

verus! {

/// A sub-stage supplied directly by the source document.
#[derive(Debug, Clone)]
pub struct SubTaskDTO {
    pub name: String,
    pub category: String,
    pub start_time_str: String,
    pub end_time_str: String,
    pub info: Vec<(String, String)>,
}

/// Whether both timestamps of a sub-stage parse.
pub open spec fn sub_task_parses(s: SubTaskDTO) -> bool {
    &&& parsed_instant(s.start_time_str@) is Some
    &&& parsed_instant(s.end_time_str@) is Some
}

/// The sub-item a sub-stage maps into, one for one, without re-derivation.
pub open spec fn sub_task_model(s: SubTaskDTO) -> SubItemModel {
    SubItemModel {
        name: s.name@,
        category: s.category@,
        time: TimeRange {
            start: parsed_instant(s.start_time_str@)->0,
            end: parsed_instant(s.end_time_str@)->0,
        },
    }
}

impl SubTaskDTO {
    pub fn start_time(&self) -> (r: Result<i64, TimeParseError>)
        ensures
            r is Ok <==> parsed_instant(self.start_time_str@) is Some,
            r matches Ok(t) ==> parsed_instant(self.start_time_str@) == Some(t),
    {
        parse_time_field(&self.start_time_str)
    }

    pub fn end_time(&self) -> (r: Result<i64, TimeParseError>)
        ensures
            r is Ok <==> parsed_instant(self.end_time_str@) is Some,
            r matches Ok(t) ==> parsed_instant(self.end_time_str@) == Some(t),
    {
        parse_time_field(&self.end_time_str)
    }
}

/// A generic top-level task with executor, order, optional produce and
/// material labels, cross-reference pairs, an optional scheduled span, and
/// explicit sub-stages.
#[derive(Debug, Clone)]
pub struct NormalTaskDTO {
    pub name: String,
    pub category: String,
    pub executor: String,
    pub order: String,
    pub produce: Option<String>,
    pub material: Option<String>,
    pub resources: Vec<(String, String)>,
    pub scheduled_start_time_str: Option<String>,
    pub scheduled_end_time_str: Option<String>,
    pub start_time_str: String,
    pub end_time_str: String,
    pub info: Vec<(String, String)>,
    pub sub_tasks: Vec<SubTaskDTO>,
}

/// Whether an optional timestamp is either absent or parses.
pub open spec fn opt_time_parses(o: Option<String>) -> bool {
    match o {
        Some(s) => parsed_instant(s@) is Some,
        None => true,
    }
}

/// The scheduled span of a task: the scheduled pair when both ends are
/// present, otherwise the actual span.
pub open spec fn scheduled_model(t: NormalTaskDTO) -> TimeRange {
    match (t.scheduled_start_time_str, t.scheduled_end_time_str) {
        (Some(a), Some(b)) => TimeRange {
            start: parsed_instant(a@)->0,
            end: parsed_instant(b@)->0,
        },
        _ => TimeRange {
            start: parsed_instant(t.start_time_str@)->0,
            end: parsed_instant(t.end_time_str@)->0,
        },
    }
}

/// The produce annotations of a task: always its order, then its produce
/// label when present, then its material label when present.
pub open spec fn produces_model(t: NormalTaskDTO) -> Seq<(Seq<char>, Seq<char>)> {
    let base = seq![("order"@, t.order@)];
    let with_produce = match t.produce {
        Some(p) => base.push(("process"@, p@)),
        None => base,
    };
    match t.material {
        Some(m) => with_produce.push(("material"@, m@)),
        None => with_produce,
    }
}

/// Copy a list of key/value pairs.
fn clone_pairs(v: &Vec<(String, String)>) -> (r: Vec<(String, String)>)
    ensures
        pairs_model(r@) == pairs_model(v@),
{
    let mut r: Vec<(String, String)> = Vec::new();
    let mut i: usize = 0;
    while i < v.len()
        invariant
            i <= v@.len(),
            r@.len() == i,
            forall|q: int|
                0 <= q < i ==> (#[trigger] r@[q]).0@ == v@[q].0@ && r@[q].1@ == v@[q].1@,
        decreases v@.len() - i,
    {
        let p = &v[i];
        let c0 = p.0.clone();
        let c1 = p.1.clone();
        r.push((c0, c1));
        i = i + 1;
    }
    proof {
        assert(pairs_model(r@) =~= pairs_model(v@));
    }
    r
}

impl TaskDTO for NormalTaskDTO {
    /// The generic schema groups tasks by the executor that runs them.
    open spec fn key_spec(&self) -> Seq<char> {
        self.executor@
    }

    open spec fn parses_spec(&self) -> bool {
        &&& parsed_instant(self.start_time_str@) is Some
        &&& parsed_instant(self.end_time_str@) is Some
        &&& opt_time_parses(self.scheduled_start_time_str)
        &&& opt_time_parses(self.scheduled_end_time_str)
        &&& forall|i: int|
            0 <= i < self.sub_tasks@.len() ==> sub_task_parses(#[trigger] self.sub_tasks@[i])
    }

    open spec fn item_model(&self) -> ItemModel {
        ItemModel {
            name: self.name@,
            category: self.category@,
            sub_items: self.sub_tasks@.map_values(|s: SubTaskDTO| sub_task_model(s)),
            scheduled_time: scheduled_model(*self),
            time: TimeRange {
                start: parsed_instant(self.start_time_str@)->0,
                end: parsed_instant(self.end_time_str@)->0,
            },
            produces: produces_model(*self),
            resources: pairs_model(self.resources@),
            info: pairs_model(self.info@),
        }
    }

    fn equipment_no(&self) -> (r: &String) {
        &self.executor
    }

    fn to_gantt_item(&self) -> (r: Result<GanttItem, TimeParseError>) {
        let t0 = match parse_time_field(&self.start_time_str) {
            Ok(v) => v,
            Err(e) => {
                return Err(e);
            },
        };
        let t1 = match parse_time_field(&self.end_time_str) {
            Ok(v) => v,
            Err(e) => {
                return Err(e);
            },
        };
        let actual = TimeRange { start: t0, end: t1 };
        let scheduled = match (&self.scheduled_start_time_str, &self.scheduled_end_time_str) {
            (Some(a), Some(b)) => {
                let sa = match parse_time_field(a) {
                    Ok(v) => v,
                    Err(e) => {
                        return Err(e);
                    },
                };
                let sb = match parse_time_field(b) {
                    Ok(v) => v,
                    Err(e) => {
                        return Err(e);
                    },
                };
                TimeRange { start: sa, end: sb }
            },
            (Some(a), None) => {
                match parse_time_field(a) {
                    Ok(_) => actual,
                    Err(e) => {
                        return Err(e);
                    },
                }
            },
            (None, Some(b)) => {
                match parse_time_field(b) {
                    Ok(_) => actual,
                    Err(e) => {
                        return Err(e);
                    },
                }
            },
            (None, None) => actual,
        };
        let mut sub_items: Vec<GanttSubItem> = Vec::new();
        let mut j: usize = 0;
        while j < self.sub_tasks.len()
            invariant
                j <= self.sub_tasks@.len(),
                sub_items@.len() == j,
                forall|q: int| 0 <= q < j ==> sub_task_parses(#[trigger] self.sub_tasks@[q]),
                forall|q: int|
                    0 <= q < j ==> (#[trigger] sub_items@[q])@ == sub_task_model(
                        self.sub_tasks@[q],
                    ),
            decreases self.sub_tasks@.len() - j,
        {
            let st = &self.sub_tasks[j];
            let s0 = match st.start_time() {
                Ok(v) => v,
                Err(e) => {
                    proof {
                        assert(!sub_task_parses(self.sub_tasks@[j as int]));
                    }
                    return Err(e);
                },
            };
            let s1 = match st.end_time() {
                Ok(v) => v,
                Err(e) => {
                    proof {
                        assert(!sub_task_parses(self.sub_tasks@[j as int]));
                    }
                    return Err(e);
                },
            };
            sub_items.push(GanttSubItem {
                name: st.name.clone(),
                category: st.category.clone(),
                time: TimeRange { start: s0, end: s1 },
            });
            j = j + 1;
        }
        let mut produces: Vec<(String, String)> = Vec::new();
        produces.push((String::from_str("order"), self.order.clone()));
        match &self.produce {
            Some(p) => {
                produces.push((String::from_str("process"), p.clone()));
            },
            None => {},
        }
        match &self.material {
            Some(m) => {
                produces.push((String::from_str("material"), m.clone()));
            },
            None => {},
        }
        let item = GanttItem {
            name: self.name.clone(),
            category: self.category.clone(),
            sub_items,
            scheduled_time: scheduled,
            time: actual,
            produces,
            resources: clone_pairs(&self.resources),
            info: clone_pairs(&self.info),
        };
        proof {
            assert(item@.sub_items =~= self.item_model().sub_items);
            assert(item@.produces =~= produces_model(*self));
            assert(item@ == self.item_model());
        }
        Ok(item)
    }
}

/// A generic-task document: one list of top-level tasks.
#[derive(Debug, Clone)]
pub struct ResponseDTO {
    pub tasks: Vec<NormalTaskDTO>,
}

} // verus!
