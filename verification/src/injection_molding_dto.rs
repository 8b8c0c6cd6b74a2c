//! Source records of the manufacturing schedule: injection-moulding
//! batches, quality-testing batches, and planned equipment stops.
//!
//! Each record carries its timestamps as strings in the fixed
//! `YYYY-MM-DD HH:MM:SS` pattern and adapts itself into one timeline item,
//! decomposing its span into the sub-phases of its category.

use vstd::prelude::*;
use vstd::string::StringExecFns;
use vstd::string::StrSliceExecFns;

use crate::clock::{parse_time_field, parsed_instant};
use crate::gantt::{
    GanttItem, GanttSubItem, ItemModel, SubItemModel, TimeParseError, opt_string_model,
    opt_string_value,
};
use crate::task_dto::TaskDTO;
use crate::time_range::{SECONDS_PER_DAY, TimeRange};

verus! {

/// Length of the prefix of `s` before its first backslash (all of `s` when
/// it has none).
pub open spec fn backslash_prefix_len(s: Seq<char>) -> int
    decreases s.len(),
{
    if s.len() == 0 {
        0
    } else if s[0] == '\\' {
        0
    } else {
        1 + backslash_prefix_len(s.drop_first())
    }
}

/// The drawing number encoded in a combined `drawing\material` label: the
/// prefix before the first backslash.
pub open spec fn drawing_no_of(s: Seq<char>) -> Seq<char> {
    s.take(backslash_prefix_len(s))
}

proof fn lemma_backslash_prefix_len(s: Seq<char>, i: int)
    requires
        0 <= i <= s.len(),
        forall|j: int| 0 <= j < i ==> s[j] != '\\',
        i < s.len() ==> s[i] == '\\',
    ensures
        backslash_prefix_len(s) == i,
    decreases s.len(),
{
    if s.len() == 0 {
    } else if s[0] == '\\' {
        assert(i == 0);
    } else {
        let rest = s.drop_first();
        lemma_backslash_prefix_len(rest, i - 1);
    }
}

/// An injection-moulding batch: one span with three internal timestamps
/// that imply four sub-phases.
#[derive(Debug, Clone)]
pub struct InjectionMoldingTaskDTO {
    pub equipment_no: String,
    pub batch_no: String,
    pub material_no: String,
    pub material_name: String,
    pub drawing_no_and_material: String,
    pub mould_no: Option<String>,
    pub model_type: String,
    pub manufacture_quantity: u64,
    pub batch_quantity: u64,
    pub finish_gap_quantity: u64,
    pub finish_quantity: u64,
    pub manuf_note: Option<String>,
    pub note: Option<String>,
    pub product_material_no: String,
    pub cycle_time: u64,
    pub start_time_str: String,
    pub end_time_str: String,
    pub expiration_start_date_str: String,
    pub expiration_end_date_str: String,
    pub plan_order_no: String,
    pub state: String,
    pub mould_transform_end_time_str: String,
    pub mould_style_transform_end_time_str: String,
    pub injection_start_time_str: String,
}

impl InjectionMoldingTaskDTO {
    /// The drawing number: the prefix of the combined label before its
    /// first backslash.
    pub fn drawing_no(&self) -> (r: String)
        ensures
            r@ == drawing_no_of(self.drawing_no_and_material@),
    {
        let s = self.drawing_no_and_material.as_str();
        let n = s.unicode_len();
        let mut i: usize = 0;
        while i < n
            invariant
                i <= n,
                n == s@.len(),
                s@ == self.drawing_no_and_material@,
                forall|j: int| 0 <= j < i ==> s@[j] != '\\',
            decreases n - i,
        {
            if s.get_char(i) == '\\' {
                let sub = s.substring_char(0, i);
                let r = sub.to_owned();
                proof {
                    lemma_backslash_prefix_len(s@, i as int);
                    assert(sub@ == s@.subrange(0, i as int));
                    assert(r@ == sub@);
                    assert(s@ == self.drawing_no_and_material@);
                    assert(backslash_prefix_len(self.drawing_no_and_material@) == i as int);
                    assert(r@ =~= drawing_no_of(self.drawing_no_and_material@));
                }
                return r;
            }
            i = i + 1;
        }
        proof {
            lemma_backslash_prefix_len(s@, n as int);
        }
        s.substring_char(0, n).to_owned()
    }

    pub fn start_time(&self) -> (r: Result<i64, TimeParseError>)
        ensures
            r is Ok <==> parsed_instant(self.start_time_str@) is Some,
            r matches Ok(t) ==> parsed_instant(self.start_time_str@) == Some(t),
    {
        parse_time_field(&self.start_time_str)
    }

    pub fn end_time(&self) -> (r: Result<i64, TimeParseError>)
        ensures
            r is Ok <==> parsed_instant(self.end_time_str@) is Some,
            r matches Ok(t) ==> parsed_instant(self.end_time_str@) == Some(t),
    {
        parse_time_field(&self.end_time_str)
    }

    pub fn mould_transform_end_time(&self) -> (r: Result<i64, TimeParseError>)
        ensures
            r is Ok <==> parsed_instant(self.mould_transform_end_time_str@) is Some,
            r matches Ok(t) ==> parsed_instant(self.mould_transform_end_time_str@) == Some(t),
    {
        parse_time_field(&self.mould_transform_end_time_str)
    }

    pub fn mould_style_transform_end_time(&self) -> (r: Result<i64, TimeParseError>)
        ensures
            r is Ok <==> parsed_instant(self.mould_style_transform_end_time_str@) is Some,
            r matches Ok(t) ==> parsed_instant(self.mould_style_transform_end_time_str@) == Some(
                t,
            ),
    {
        parse_time_field(&self.mould_style_transform_end_time_str)
    }

    pub fn injection_start_time(&self) -> (r: Result<i64, TimeParseError>)
        ensures
            r is Ok <==> parsed_instant(self.injection_start_time_str@) is Some,
            r matches Ok(t) ==> parsed_instant(self.injection_start_time_str@) == Some(t),
    {
        parse_time_field(&self.injection_start_time_str)
    }

    /// The day (whole days since the Unix epoch) on which the batch's
    /// produce expires.
    pub fn expiration_date(&self) -> (r: Result<i64, TimeParseError>)
        ensures
            r is Ok <==> parsed_instant(self.expiration_start_date_str@) is Some,
            r matches Ok(d) ==> parsed_instant(self.expiration_start_date_str@) matches Some(t)
                && d == t as int / SECONDS_PER_DAY as int,
    {
        let t = parse_time_field(&self.expiration_start_date_str)?;
        Ok(t.checked_div_euclid(SECONDS_PER_DAY).unwrap())
    }
}

impl TaskDTO for InjectionMoldingTaskDTO {
    open spec fn key_spec(&self) -> Seq<char> {
        self.equipment_no@
    }

    open spec fn parses_spec(&self) -> bool {
        &&& parsed_instant(self.start_time_str@) is Some
        &&& parsed_instant(self.end_time_str@) is Some
        &&& parsed_instant(self.mould_transform_end_time_str@) is Some
        &&& parsed_instant(self.mould_style_transform_end_time_str@) is Some
        &&& parsed_instant(self.injection_start_time_str@) is Some
    }

    open spec fn item_model(&self) -> ItemModel {
        let t0 = parsed_instant(self.start_time_str@)->0;
        let t1 = parsed_instant(self.mould_transform_end_time_str@)->0;
        let t2 = parsed_instant(self.mould_style_transform_end_time_str@)->0;
        let t3 = parsed_instant(self.injection_start_time_str@)->0;
        let t4 = parsed_instant(self.end_time_str@)->0;
        ItemModel {
            name: self.batch_no@,
            category: "Manufacturing"@,
            sub_items: seq![
                SubItemModel {
                    name: "Mould Transform"@,
                    category: "Mould Transform"@,
                    time: TimeRange { start: t0, end: t1 },
                },
                SubItemModel {
                    name: "Mould Style Transform"@,
                    category: "Mould Style Transform"@,
                    time: TimeRange { start: t1, end: t2 },
                },
                SubItemModel {
                    name: "Material Transform"@,
                    category: "Material Transform"@,
                    time: TimeRange { start: t2, end: t3 },
                },
                SubItemModel {
                    name: "Injection"@,
                    category: "Injection"@,
                    time: TimeRange { start: t3, end: t4 },
                },
            ],
            scheduled_time: TimeRange { start: t0, end: t4 },
            time: TimeRange { start: t0, end: t4 },
            produces: seq![("order"@, self.plan_order_no@)],
            resources: seq![("mould number"@, opt_string_model(self.mould_no))],
            info: seq![("material"@, self.material_no@), ("model"@, self.model_type@)],
        }
    }

    fn equipment_no(&self) -> (r: &String) {
        &self.equipment_no
    }

    fn to_gantt_item(&self) -> (r: Result<GanttItem, TimeParseError>) {
        let t0 = self.start_time()?;
        let t4 = self.end_time()?;
        let t1 = self.mould_transform_end_time()?;
        let t2 = self.mould_style_transform_end_time()?;
        let t3 = self.injection_start_time()?;
        let mut sub_items: Vec<GanttSubItem> = Vec::new();
        sub_items.push(GanttSubItem {
            name: String::from_str("Mould Transform"),
            category: String::from_str("Mould Transform"),
            time: TimeRange { start: t0, end: t1 },
        });
        sub_items.push(GanttSubItem {
            name: String::from_str("Mould Style Transform"),
            category: String::from_str("Mould Style Transform"),
            time: TimeRange { start: t1, end: t2 },
        });
        sub_items.push(GanttSubItem {
            name: String::from_str("Material Transform"),
            category: String::from_str("Material Transform"),
            time: TimeRange { start: t2, end: t3 },
        });
        sub_items.push(GanttSubItem {
            name: String::from_str("Injection"),
            category: String::from_str("Injection"),
            time: TimeRange { start: t3, end: t4 },
        });
        let mut produces: Vec<(String, String)> = Vec::new();
        produces.push((String::from_str("order"), self.plan_order_no.clone()));
        let mut resources: Vec<(String, String)> = Vec::new();
        resources.push((String::from_str("mould number"), opt_string_value(&self.mould_no)));
        let mut info: Vec<(String, String)> = Vec::new();
        info.push((String::from_str("material"), self.material_no.clone()));
        info.push((String::from_str("model"), self.model_type.clone()));
        let item = GanttItem {
            name: self.batch_no.clone(),
            category: String::from_str("Manufacturing"),
            sub_items,
            scheduled_time: TimeRange { start: t0, end: t4 },
            time: TimeRange { start: t0, end: t4 },
            produces,
            resources,
            info,
        };
        proof {
            assert(item@.sub_items =~= self.item_model().sub_items);
            assert(item@.produces =~= self.item_model().produces);
            assert(item@.resources =~= self.item_model().resources);
            assert(item@.info =~= self.item_model().info);
            assert(item@ == self.item_model());
        }
        Ok(item)
    }
}

/// Law: the four decomposed sub-phases of an injection-moulding batch are
/// contiguous — each ends where the next begins — and jointly cover the
/// batch's actual span exactly.
pub proof fn lemma_injection_molding_decomposition(t: InjectionMoldingTaskDTO)
    ensures
        t.item_model().sub_items.len() == 4,
        t.item_model().sub_items[0].time.start == t.item_model().time.start,
        forall|i: int|
            0 <= i < 3 ==> (#[trigger] t.item_model().sub_items[i]).time.end
                == t.item_model().sub_items[i + 1].time.start,
        t.item_model().sub_items[3].time.end == t.item_model().time.end,
{
}

/// A quality-testing batch: one span with one internal timestamp that
/// implies two sub-phases.
#[derive(Debug, Clone)]
pub struct TestingTaskDTO {
    pub equipment_no: String,
    pub batch_no: String,
    pub mould_no: Option<String>,
    pub note: Option<String>,
    pub expiration_date_str: String,
    pub plan_order_no: String,
    pub cycle_time: u64,
    pub start_time_str: String,
    pub mould_transform_end_time_str: String,
    pub testing_start_time_str: String,
    pub end_time_str: String,
}

impl TestingTaskDTO {
    pub fn start_time(&self) -> (r: Result<i64, TimeParseError>)
        ensures
            r is Ok <==> parsed_instant(self.start_time_str@) is Some,
            r matches Ok(t) ==> parsed_instant(self.start_time_str@) == Some(t),
    {
        parse_time_field(&self.start_time_str)
    }

    pub fn end_time(&self) -> (r: Result<i64, TimeParseError>)
        ensures
            r is Ok <==> parsed_instant(self.end_time_str@) is Some,
            r matches Ok(t) ==> parsed_instant(self.end_time_str@) == Some(t),
    {
        parse_time_field(&self.end_time_str)
    }

    pub fn testing_start_time(&self) -> (r: Result<i64, TimeParseError>)
        ensures
            r is Ok <==> parsed_instant(self.testing_start_time_str@) is Some,
            r matches Ok(t) ==> parsed_instant(self.testing_start_time_str@) == Some(t),
    {
        parse_time_field(&self.testing_start_time_str)
    }

    /// The day (whole days since the Unix epoch) on which the batch's
    /// produce expires.
    pub fn expiration_date(&self) -> (r: Result<i64, TimeParseError>)
        ensures
            r is Ok <==> parsed_instant(self.expiration_date_str@) is Some,
            r matches Ok(d) ==> parsed_instant(self.expiration_date_str@) matches Some(t) && d
                == t as int / SECONDS_PER_DAY as int,
    {
        let t = parse_time_field(&self.expiration_date_str)?;
        Ok(t.checked_div_euclid(SECONDS_PER_DAY).unwrap())
    }
}

impl TaskDTO for TestingTaskDTO {
    open spec fn key_spec(&self) -> Seq<char> {
        self.equipment_no@
    }

    open spec fn parses_spec(&self) -> bool {
        &&& parsed_instant(self.start_time_str@) is Some
        &&& parsed_instant(self.end_time_str@) is Some
        &&& parsed_instant(self.testing_start_time_str@) is Some
    }

    open spec fn item_model(&self) -> ItemModel {
        let t0 = parsed_instant(self.start_time_str@)->0;
        let ts = parsed_instant(self.testing_start_time_str@)->0;
        let t1 = parsed_instant(self.end_time_str@)->0;
        ItemModel {
            name: self.batch_no@,
            category: "Testing"@,
            sub_items: seq![
                SubItemModel {
                    name: "Mould Transform"@,
                    category: "Mould Transform"@,
                    time: TimeRange { start: t0, end: ts },
                },
                SubItemModel {
                    name: "Testing"@,
                    category: "Testing"@,
                    time: TimeRange { start: ts, end: t1 },
                },
            ],
            scheduled_time: TimeRange { start: t0, end: t1 },
            time: TimeRange { start: t0, end: t1 },
            produces: seq![("order"@, self.plan_order_no@)],
            resources: seq![("mould number"@, opt_string_model(self.mould_no))],
            info: Seq::empty(),
        }
    }

    fn equipment_no(&self) -> (r: &String) {
        &self.equipment_no
    }

    fn to_gantt_item(&self) -> (r: Result<GanttItem, TimeParseError>) {
        let t0 = self.start_time()?;
        let t1 = self.end_time()?;
        let ts = self.testing_start_time()?;
        let mut sub_items: Vec<GanttSubItem> = Vec::new();
        sub_items.push(GanttSubItem {
            name: String::from_str("Mould Transform"),
            category: String::from_str("Mould Transform"),
            time: TimeRange { start: t0, end: ts },
        });
        sub_items.push(GanttSubItem {
            name: String::from_str("Testing"),
            category: String::from_str("Testing"),
            time: TimeRange { start: ts, end: t1 },
        });
        let mut produces: Vec<(String, String)> = Vec::new();
        produces.push((String::from_str("order"), self.plan_order_no.clone()));
        let mut resources: Vec<(String, String)> = Vec::new();
        resources.push((String::from_str("mould number"), opt_string_value(&self.mould_no)));
        let info: Vec<(String, String)> = Vec::new();
        let item = GanttItem {
            name: self.batch_no.clone(),
            category: String::from_str("Testing"),
            sub_items,
            scheduled_time: TimeRange { start: t0, end: t1 },
            time: TimeRange { start: t0, end: t1 },
            produces,
            resources,
            info,
        };
        proof {
            assert(item@.sub_items =~= self.item_model().sub_items);
            assert(item@.produces =~= self.item_model().produces);
            assert(item@.resources =~= self.item_model().resources);
            assert(item@.info =~= self.item_model().info);
            assert(item@ == self.item_model());
        }
        Ok(item)
    }
}

/// A planned equipment stop: one span, no sub-phases, fixed category
/// `Unavailable`.
#[derive(Debug, Clone)]
pub struct StopPlanDTO {
    pub equipment_no: String,
    pub start_time_str: String,
    pub end_time_str: String,
}

impl StopPlanDTO {
    pub fn start_time(&self) -> (r: Result<i64, TimeParseError>)
        ensures
            r is Ok <==> parsed_instant(self.start_time_str@) is Some,
            r matches Ok(t) ==> parsed_instant(self.start_time_str@) == Some(t),
    {
        parse_time_field(&self.start_time_str)
    }

    pub fn end_time(&self) -> (r: Result<i64, TimeParseError>)
        ensures
            r is Ok <==> parsed_instant(self.end_time_str@) is Some,
            r matches Ok(t) ==> parsed_instant(self.end_time_str@) == Some(t),
    {
        parse_time_field(&self.end_time_str)
    }
}

impl TaskDTO for StopPlanDTO {
    open spec fn key_spec(&self) -> Seq<char> {
        self.equipment_no@
    }

    open spec fn parses_spec(&self) -> bool {
        &&& parsed_instant(self.start_time_str@) is Some
        &&& parsed_instant(self.end_time_str@) is Some
    }

    open spec fn item_model(&self) -> ItemModel {
        let t0 = parsed_instant(self.start_time_str@)->0;
        let t1 = parsed_instant(self.end_time_str@)->0;
        ItemModel {
            name: self.equipment_no@,
            category: "Unavailable"@,
            sub_items: Seq::empty(),
            scheduled_time: TimeRange { start: t0, end: t1 },
            time: TimeRange { start: t0, end: t1 },
            produces: Seq::empty(),
            resources: Seq::empty(),
            info: Seq::empty(),
        }
    }

    fn equipment_no(&self) -> (r: &String) {
        &self.equipment_no
    }

    fn to_gantt_item(&self) -> (r: Result<GanttItem, TimeParseError>) {
        let t0 = self.start_time()?;
        let t1 = self.end_time()?;
        let item = GanttItem {
            name: self.equipment_no.clone(),
            category: String::from_str("Unavailable"),
            sub_items: Vec::new(),
            scheduled_time: TimeRange { start: t0, end: t1 },
            time: TimeRange { start: t0, end: t1 },
            produces: Vec::new(),
            resources: Vec::new(),
            info: Vec::new(),
        };
        proof {
            assert(item@.sub_items =~= self.item_model().sub_items);
            assert(item@.produces =~= self.item_model().produces);
            assert(item@.resources =~= self.item_model().resources);
            assert(item@.info =~= self.item_model().info);
            assert(item@ == self.item_model());
        }
        Ok(item)
    }
}

} // verus!
