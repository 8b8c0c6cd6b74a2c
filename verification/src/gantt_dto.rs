//! The wire model handed to the renderer: every instant rendered back to a
//! `YYYY-MM-DD HH:MM:SS` string, every annotation as a key/value pair.

use vstd::prelude::*;

use crate::clock::{format_instant, formatted_instant};
use crate::gantt::{
    Gantt, GanttItem, GanttLine, GanttModel, GanttSubItem, ItemModel, LineModel, SubItemModel,
    strings_model,
};

verus! {

/// One sub-phase, rendered.
#[derive(Debug)]
pub struct GanttSubItemDTO {
    pub name: String,
    pub category: String,
    pub start_time: String,
    pub end_time: String,
}

/// Whether a rendered sub-item reads back the model `m`.
pub open spec fn sub_item_dto_matches(d: GanttSubItemDTO, m: SubItemModel) -> bool {
    &&& d.name@ == m.name
    &&& d.category@ == m.category
    &&& d.start_time@ == formatted_instant(m.time.start)
    &&& d.end_time@ == formatted_instant(m.time.end)
}

impl GanttSubItemDTO {
    pub fn from(value: &GanttSubItem) -> (r: GanttSubItemDTO)
        ensures
            sub_item_dto_matches(r, value@),
    {
        GanttSubItemDTO {
            name: value.name.clone(),
            category: value.category.clone(),
            start_time: format_instant(value.time.start),
            end_time: format_instant(value.time.end),
        }
    }
}

/// One key/value annotation, rendered.
#[derive(Debug)]
pub struct GanttItemInfoDTO {
    pub key: String,
    pub value: String,
}

/// Whether a rendered annotation reads back the pair `p`.
pub open spec fn info_dto_matches(d: GanttItemInfoDTO, p: (Seq<char>, Seq<char>)) -> bool {
    d.key@ == p.0 && d.value@ == p.1
}

/// Render a list of key/value pairs.
fn info_pairs(v: &Vec<(String, String)>) -> (r: Vec<GanttItemInfoDTO>)
    ensures
        r@.len() == v@.len(),
        forall|i: int|
            0 <= i < v@.len() ==> info_dto_matches(
                #[trigger] r@[i],
                crate::gantt::pairs_model(v@)[i],
            ),
{
    let mut r: Vec<GanttItemInfoDTO> = Vec::new();
    let mut i: usize = 0;
    while i < v.len()
        invariant
            i <= v@.len(),
            r@.len() == i,
            forall|q: int|
                0 <= q < i ==> (#[trigger] r@[q]).key@ == v@[q].0@ && r@[q].value@ == v@[q].1@,
        decreases v@.len() - i,
    {
        let p = &v[i];
        r.push(GanttItemInfoDTO { key: p.0.clone(), value: p.1.clone() });
        i = i + 1;
    }
    r
}

/// One timeline item, rendered.
#[derive(Debug)]
pub struct GanttItemDTO {
    pub name: String,
    pub category: String,
    pub sub_items: Vec<GanttSubItemDTO>,
    pub scheduled_start_time: String,
    pub scheduled_end_time: String,
    pub start_time: String,
    pub end_time: String,
    pub produces: Vec<GanttItemInfoDTO>,
    pub resources: Vec<GanttItemInfoDTO>,
    pub info: Vec<GanttItemInfoDTO>,
}

/// Whether a rendered item reads back the model `m`.
pub open spec fn item_dto_matches(d: GanttItemDTO, m: ItemModel) -> bool {
    &&& d.name@ == m.name
    &&& d.category@ == m.category
    &&& d.sub_items@.len() == m.sub_items.len()
    &&& forall|i: int|
        0 <= i < m.sub_items.len() ==> sub_item_dto_matches(
            #[trigger] d.sub_items@[i],
            m.sub_items[i],
        )
    &&& d.scheduled_start_time@ == formatted_instant(m.scheduled_time.start)
    &&& d.scheduled_end_time@ == formatted_instant(m.scheduled_time.end)
    &&& d.start_time@ == formatted_instant(m.time.start)
    &&& d.end_time@ == formatted_instant(m.time.end)
    &&& d.produces@.len() == m.produces.len()
    &&& forall|i: int|
        0 <= i < m.produces.len() ==> info_dto_matches(#[trigger] d.produces@[i], m.produces[i])
    &&& d.resources@.len() == m.resources.len()
    &&& forall|i: int|
        0 <= i < m.resources.len() ==> info_dto_matches(#[trigger] d.resources@[i], m.resources[i])
    &&& d.info@.len() == m.info.len()
    &&& forall|i: int|
        0 <= i < m.info.len() ==> info_dto_matches(#[trigger] d.info@[i], m.info[i])
}

impl GanttItemDTO {
    pub fn from(value: &GanttItem) -> (r: GanttItemDTO)
        ensures
            item_dto_matches(r, value@),
    {
        let mut sub_items: Vec<GanttSubItemDTO> = Vec::new();
        let mut i: usize = 0;
        while i < value.sub_items.len()
            invariant
                i <= value.sub_items@.len(),
                sub_items@.len() == i,
                forall|q: int|
                    0 <= q < i ==> sub_item_dto_matches(
                        #[trigger] sub_items@[q],
                        value.sub_items@[q]@,
                    ),
            decreases value.sub_items@.len() - i,
        {
            let d = GanttSubItemDTO::from(&value.sub_items[i]);
            sub_items.push(d);
            i = i + 1;
        }
        let r = GanttItemDTO {
            name: value.name.clone(),
            category: value.category.clone(),
            sub_items,
            scheduled_start_time: format_instant(value.scheduled_time.start),
            scheduled_end_time: format_instant(value.scheduled_time.end),
            start_time: format_instant(value.time.start),
            end_time: format_instant(value.time.end),
            produces: info_pairs(&value.produces),
            resources: info_pairs(&value.resources),
            info: info_pairs(&value.info),
        };
        proof {
            assert(forall|q: int|
                0 <= q < value@.sub_items.len() ==> value@.sub_items[q] == value.sub_items@[q]@);
        }
        r
    }
}

/// One resource's line, rendered.
#[derive(Debug)]
pub struct GanttLineDTO {
    pub name: String,
    pub category: String,
    pub items: Vec<GanttItemDTO>,
}

/// Whether a rendered line reads back the model `m`.
pub open spec fn line_dto_matches(d: GanttLineDTO, m: LineModel) -> bool {
    &&& d.name@ == m.name
    &&& d.category@ == m.category
    &&& d.items@.len() == m.items.len()
    &&& forall|i: int|
        0 <= i < m.items.len() ==> item_dto_matches(#[trigger] d.items@[i], m.items[i])
}

impl GanttLineDTO {
    pub fn from(value: &GanttLine) -> (r: GanttLineDTO)
        ensures
            line_dto_matches(r, value@),
    {
        let mut items: Vec<GanttItemDTO> = Vec::new();
        let mut i: usize = 0;
        while i < value.items.len()
            invariant
                i <= value.items@.len(),
                items@.len() == i,
                forall|q: int|
                    0 <= q < i ==> item_dto_matches(#[trigger] items@[q], value.items@[q]@),
            decreases value.items@.len() - i,
        {
            let d = GanttItemDTO::from(&value.items[i]);
            items.push(d);
            i = i + 1;
        }
        let r = GanttLineDTO { name: value.name.clone(), category: value.category.clone(), items };
        proof {
            assert(forall|q: int|
                0 <= q < value@.items.len() ==> value@.items[q] == value.items@[q]@);
        }
        r
    }
}

/// The whole timeline, rendered.
#[derive(Debug)]
pub struct GanttDTO {
    pub start_time: String,
    pub end_time: String,
    pub link_info: Vec<String>,
    pub lines: Vec<GanttLineDTO>,
}

/// Whether a rendered timeline reads back the model `m`.
pub open spec fn gantt_dto_matches(d: GanttDTO, m: GanttModel) -> bool {
    &&& d.start_time@ == formatted_instant(m.time.start)
    &&& d.end_time@ == formatted_instant(m.time.end)
    &&& strings_model(d.link_info@) == m.link_info
    &&& d.lines@.len() == m.lines.len()
    &&& forall|i: int|
        0 <= i < m.lines.len() ==> line_dto_matches(#[trigger] d.lines@[i], m.lines[i])
}

impl GanttDTO {
    pub fn from(value: &Gantt) -> (r: GanttDTO)
        ensures
            gantt_dto_matches(r, value@),
    {
        let mut link_info: Vec<String> = Vec::new();
        let mut i: usize = 0;
        while i < value.link_info.len()
            invariant
                i <= value.link_info@.len(),
                link_info@.len() == i,
                forall|q: int| 0 <= q < i ==> (#[trigger] link_info@[q])@ == value.link_info@[q]@,
            decreases value.link_info@.len() - i,
        {
            let s = value.link_info[i].clone();
            link_info.push(s);
            i = i + 1;
        }
        let mut lines: Vec<GanttLineDTO> = Vec::new();
        let mut j: usize = 0;
        while j < value.lines.len()
            invariant
                j <= value.lines@.len(),
                lines@.len() == j,
                forall|q: int|
                    0 <= q < j ==> line_dto_matches(#[trigger] lines@[q], value.lines@[q]@),
            decreases value.lines@.len() - j,
        {
            let d = GanttLineDTO::from(&value.lines[j]);
            lines.push(d);
            j = j + 1;
        }
        let r = GanttDTO {
            start_time: format_instant(value.time.start),
            end_time: format_instant(value.time.end),
            link_info,
            lines,
        };
        proof {
            assert(strings_model(r.link_info@) =~= value@.link_info);
            assert(forall|q: int|
                0 <= q < value@.lines.len() ==> value@.lines[q] == value.lines@[q]@);
        }
        r
    }
}

} // verus!
