//! Line building, the global time bound, and timeline assembly.
//!
//! Each resource key yields exactly one line; a key whose records are all
//! filtered out yields an empty line, which stays in the timeline but takes
//! no part in the bound. The bound spans from the earliest actual start to
//! the latest actual end over every item of every line, and cannot be
//! computed when no item at all is left: that is the empty-timeline error.

use vstd::prelude::*;
use vstd::string::StringExecFns;

use crate::gantt::{
    Gantt, GanttItem, GanttLine, ItemModel, LineModel, TimelineError, strings_model,
};
use crate::sort::sort_by_start;
use crate::sort::sort_items;
use crate::task_dto::{
    TaskDTO, collect_items, dedup, derefs, distinct_keys_into, keys_of, retained_items,
    tasks_with_key, with_key,
};
use crate::time_range::TimeRange;

verus! {

/// Model of a vector of lines.
pub open spec fn lines_model(v: Seq<GanttLine>) -> Seq<LineModel> {
    v.map_values(|l: GanttLine| l@)
}

/// The item at position `j` of line `i`.
pub open spec fn item_at(lines: Seq<LineModel>, i: int, j: int) -> ItemModel {
    lines[i].items[j]
}

/// Whether `(i, j)` addresses an item.
pub open spec fn valid_idx(lines: Seq<LineModel>, i: int, j: int) -> bool {
    0 <= i < lines.len() && 0 <= j < lines[i].items.len()
}

/// `b` encloses the actual span of every item of every line.
pub open spec fn bound_covers(lines: Seq<LineModel>, b: TimeRange) -> bool {
    forall|i: int, j: int|
        valid_idx(lines, i, j) ==> b.start <= (#[trigger] item_at(lines, i, j)).time.start
            && item_at(lines, i, j).time.end <= b.end
}

/// Some item starts exactly at `b.start` and some item ends exactly at
/// `b.end`: the bound is the minimum start and the maximum end.
pub open spec fn bound_tight(lines: Seq<LineModel>, b: TimeRange) -> bool {
    &&& exists|i: int, j: int|
        valid_idx(lines, i, j) && (#[trigger] item_at(lines, i, j)).time.start == b.start
    &&& exists|i: int, j: int|
        valid_idx(lines, i, j) && (#[trigger] item_at(lines, i, j)).time.end == b.end
}

/// Whether any line holds at least one item.
pub open spec fn has_item(lines: Seq<LineModel>) -> bool {
    exists|i: int| 0 <= i < lines.len() && (#[trigger] lines[i]).items.len() > 0
}

/// The earliest start and the latest end over one line's items.
fn line_bound(line: &GanttLine) -> (r: Option<TimeRange>)
    ensures
        r is Some <==> line@.items.len() > 0,
        r matches Some(b) ==> {
            &&& exists|j: int|
                0 <= j < line@.items.len() && (#[trigger] line@.items[j]).time.start == b.start
            &&& exists|j: int|
                0 <= j < line@.items.len() && (#[trigger] line@.items[j]).time.end == b.end
            &&& forall|j: int|
                0 <= j < line@.items.len() ==> b.start <= (#[trigger] line@.items[j]).time.start
                    && line@.items[j].time.end <= b.end
        },
{
    if line.items.len() == 0 {
        return None;
    }
    let mut bstart = line.items[0].time.start;
    let mut bend = line.items[0].time.end;
    proof {
        assert(line@.items[0].time == line.items@[0].time);
    }
    let mut j: usize = 1;
    while j < line.items.len()
        invariant
            1 <= j <= line.items@.len(),
            line@.items.len() == line.items@.len(),
            exists|q: int| 0 <= q < j && (#[trigger] line@.items[q]).time.start == bstart,
            exists|q: int| 0 <= q < j && (#[trigger] line@.items[q]).time.end == bend,
            forall|q: int|
                0 <= q < j ==> bstart <= (#[trigger] line@.items[q]).time.start
                    && line@.items[q].time.end <= bend,
        decreases line.items@.len() - j,
    {
        let it = &line.items[j];
        proof {
            assert((line@.items[j as int]).time == it.time);
        }
        if it.time.start < bstart {
            bstart = it.time.start;
        }
        if it.time.end > bend {
            bend = it.time.end;
        }
        j = j + 1;
    }
    Some(TimeRange { start: bstart, end: bend })
}

/// The global bound: the minimum actual start and the maximum actual end
/// over all items of all lines. An empty line contributes nothing; when
/// every line is empty there is nothing to span, and the calculation fails
/// with the empty-timeline error instead of assuming an item exists.
pub fn compute_bound(lines: &Vec<GanttLine>) -> (r: Result<TimeRange, TimelineError>)
    ensures
        r is Ok <==> has_item(lines_model(lines@)),
        r matches Ok(b) ==> bound_covers(lines_model(lines@), b) && bound_tight(
            lines_model(lines@),
            b,
        ),
        r is Err ==> r == Err::<TimeRange, TimelineError>(TimelineError::EmptyTimeline),
{
    let ghost lm = lines_model(lines@);
    let mut acc: Option<TimeRange> = None;
    let mut i: usize = 0;
    while i < lines.len()
        invariant
            i <= lines@.len(),
            lm == lines_model(lines@),
            lm.len() == lines@.len(),
            acc is None ==> forall|q: int| 0 <= q < i ==> (#[trigger] lm[q]).items.len() == 0,
            acc matches Some(b) ==> {
                &&& exists|q: int, j: int|
                    q < i && valid_idx(lm, q, j) && (#[trigger] item_at(lm, q, j)).time.start
                        == b.start
                &&& exists|q: int, j: int|
                    q < i && valid_idx(lm, q, j) && (#[trigger] item_at(lm, q, j)).time.end
                        == b.end
                &&& forall|q: int, j: int|
                    q < i && valid_idx(lm, q, j) ==> b.start <= (#[trigger] item_at(
                        lm,
                        q,
                        j,
                    )).time.start && item_at(lm, q, j).time.end <= b.end
            },
        decreases lines@.len() - i,
    {
        let lb = line_bound(&lines[i]);
        proof {
            assert(lm[i as int] == lines@[i as int]@);
        }
        match lb {
            Some(nb) => {
                let merged = match acc {
                    Some(b) => {
                        TimeRange {
                            start: if nb.start < b.start {
                                nb.start
                            } else {
                                b.start
                            },
                            end: if nb.end > b.end {
                                nb.end
                            } else {
                                b.end
                            },
                        }
                    },
                    None => nb,
                };
                proof {
                    let line = lines@[i as int];
                    let wjs = choose|j: int|
                        0 <= j < line@.items.len() && (#[trigger] line@.items[j]).time.start
                            == nb.start;
                    let wje = choose|j: int|
                        0 <= j < line@.items.len() && (#[trigger] line@.items[j]).time.end
                            == nb.end;
                    assert(item_at(lm, i as int, wjs).time.start == nb.start);
                    assert(item_at(lm, i as int, wje).time.end == nb.end);
                    if merged.start == nb.start {
                        assert(valid_idx(lm, i as int, wjs) && item_at(
                            lm,
                            i as int,
                            wjs,
                        ).time.start == merged.start);
                    }
                    if merged.end == nb.end {
                        assert(valid_idx(lm, i as int, wje) && item_at(lm, i as int, wje).time.end
                            == merged.end);
                    }
                    assert forall|q: int, j: int|
                        q < i + 1 && valid_idx(lm, q, j) implies merged.start <= (#[trigger] item_at(
                        lm,
                        q,
                        j,
                    )).time.start && item_at(lm, q, j).time.end <= merged.end by {
                        if q == i as int {
                            assert(line@.items[j].time.start >= nb.start);
                            assert(line@.items[j].time.end <= nb.end);
                        }
                    }
                }
                acc = Some(merged);
            },
            None => {},
        }
        i = i + 1;
    }
    match acc {
        Some(b) => {
            proof {
                assert(has_item(lm));
            }
            Ok(b)
        },
        None => {
            proof {
                assert forall|q: int| 0 <= q < lm.len() implies (#[trigger] lm[q]).items.len()
                    == 0 by {}
                assert(!has_item(lm));
            }
            Err(TimelineError::EmptyTimeline)
        },
    }
}

/// The sorted items of the line for resource `k`, built from one record
/// list: the retained records with that key, adapted and ordered by start.
pub open spec fn line_items<T: TaskDTO>(tasks: Seq<T>, k: Seq<char>) -> Seq<ItemModel> {
    sort_by_start(retained_items(with_key(tasks, k)))
}

impl GanttLine {
    /// Build the line of one resource: drop records whose timestamps fail
    /// to parse or whose span is zero, adapt the rest, and sort by actual
    /// start. The line's own category is fixed to `Normal`.
    pub fn new<T: TaskDTO>(name: &String, tasks: &Vec<&T>) -> (r: GanttLine)
        ensures
            r@.name == name@,
            r@.category == "Normal"@,
            r@.items == sort_by_start(retained_items(derefs(tasks@))),
    {
        let mut items: Vec<GanttItem> = Vec::new();
        proof {
            assert(crate::gantt::items_model(items@) =~= Seq::<ItemModel>::empty());
        }
        collect_items(&mut items, tasks);
        proof {
            assert(crate::gantt::items_model(items@) =~= retained_items(derefs(tasks@)));
        }
        let items = sort_items(items);
        GanttLine { name: name.clone(), category: String::from_str("Normal"), items }
    }
}

/// Sorting neither adds nor removes items.
proof fn lemma_sort_contains(s: Seq<ItemModel>, m: ItemModel)
    ensures
        sort_by_start(s).contains(m) <==> s.contains(m),
{
    broadcast use vstd::seq_lib::group_to_multiset_ensures;

    crate::sort::lemma_sort_by_start_props(s);
    assert(s.contains(m) <==> s.to_multiset().count(m) > 0);
    assert(sort_by_start(s).contains(m) <==> sort_by_start(s).to_multiset().count(m) > 0);
}

/// Every item contributed by a record list is the adaptation of one of its
/// retained records.
proof fn lemma_retained_items_contains<T: TaskDTO>(s: Seq<T>, m: ItemModel)
    requires
        retained_items(s).contains(m),
    ensures
        exists|i: int|
            0 <= i < s.len() && crate::task_dto::retained(#[trigger] s[i]) && s[i].item_model()
                == m,
    decreases s.len(),
{
    if s.len() == 0 {
    } else {
        let rest = retained_items(s.drop_last());
        let r = retained_items(s);
        let w = choose|w: int| 0 <= w < r.len() && r[w] == m;
        if crate::task_dto::retained(s.last()) {
            if w < rest.len() {
                assert(rest.contains(m));
                lemma_retained_items_contains(s.drop_last(), m);
                let i = choose|i: int|
                    0 <= i < s.drop_last().len() && crate::task_dto::retained(
                        #[trigger] s.drop_last()[i],
                    ) && s.drop_last()[i].item_model() == m;
                assert(s[i] == s.drop_last()[i]);
            } else {
                assert(m == s.last().item_model());
                assert(s[s.len() - 1] == s.last());
            }
        } else {
            assert(rest.contains(m));
            lemma_retained_items_contains(s.drop_last(), m);
            let i = choose|i: int|
                0 <= i < s.drop_last().len() && crate::task_dto::retained(
                    #[trigger] s.drop_last()[i],
                ) && s.drop_last()[i].item_model() == m;
            assert(s[i] == s.drop_last()[i]);
        }
    }
}

/// Every record of `k`'s group is an input record whose key is `k`.
proof fn lemma_with_key_members<T: TaskDTO>(s: Seq<T>, k: Seq<char>, t: T)
    requires
        with_key(s, k).contains(t),
    ensures
        s.contains(t),
        t.key_spec() == k,
    decreases s.len(),
{
    if s.len() == 0 {
    } else {
        let rest = with_key(s.drop_last(), k);
        let r = with_key(s, k);
        let w = choose|w: int| 0 <= w < r.len() && r[w] == t;
        if s.last().key_spec() == k && w == rest.len() {
            assert(t == s.last());
            assert(s[s.len() - 1] == t);
        } else {
            assert(rest.contains(t));
            lemma_with_key_members(s.drop_last(), k, t);
            let i = choose|i: int| 0 <= i < s.drop_last().len() && s.drop_last()[i] == t;
            assert(s[i] == t);
        }
    }
}

/// Law: grouping is exact. Every item of the line built for resource `k` is
/// the adaptation of a retained input record whose resource key is `k`; a
/// record keyed to another resource never appears in `k`'s line.
pub proof fn lemma_line_item_from_own_resource<T: TaskDTO>(
    tasks: Seq<T>,
    k: Seq<char>,
    m: ItemModel,
)
    requires
        line_items(tasks, k).contains(m),
    ensures
        exists|t: T|
            #[trigger] tasks.contains(t) && t.key_spec() == k && crate::task_dto::retained(t)
                && t.item_model() == m,
{
    lemma_sort_contains(retained_items(with_key(tasks, k)), m);
    lemma_retained_items_contains(with_key(tasks, k), m);
    let i = choose|i: int|
        0 <= i < with_key(tasks, k).len() && crate::task_dto::retained(
            #[trigger] with_key(tasks, k)[i],
        ) && with_key(tasks, k)[i].item_model() == m;
    let t = with_key(tasks, k)[i];
    assert(with_key(tasks, k).contains(t));
    lemma_with_key_members(tasks, k, t);
}

/// Law: a record whose span has zero duration, or whose timestamps do not
/// parse, never appears in output: every item of every line stems from a
/// retained record, whose actual span is non-degenerate.
pub proof fn lemma_no_degenerate_item<T: TaskDTO>(tasks: Seq<T>, k: Seq<char>, m: ItemModel)
    requires
        line_items(tasks, k).contains(m),
    ensures
        m.time.start != m.time.end,
{
    lemma_line_item_from_own_resource(tasks, k, m);
}

/// A record with key `k` stands in `k`'s group.
proof fn lemma_with_key_complete<T: TaskDTO>(s: Seq<T>, k: Seq<char>, idx: int)
    requires
        0 <= idx < s.len(),
        s[idx].key_spec() == k,
    ensures
        with_key(s, k).contains(s[idx]),
    decreases s.len(),
{
    if idx == s.len() - 1 {
        let r = with_key(s, k);
        assert(r[r.len() - 1] == s[idx]);
    } else {
        lemma_with_key_complete(s.drop_last(), k, idx);
        let rest = with_key(s.drop_last(), k);
        let w = choose|w: int| 0 <= w < rest.len() && rest[w] == s.drop_last()[idx];
        assert(with_key(s, k)[w] == rest[w]);
    }
}

/// A retained record's item stands among its list's contributions.
proof fn lemma_retained_items_complete<T: TaskDTO>(s: Seq<T>, idx: int)
    requires
        0 <= idx < s.len(),
        crate::task_dto::retained(s[idx]),
    ensures
        retained_items(s).contains(s[idx].item_model()),
    decreases s.len(),
{
    if idx == s.len() - 1 {
        let r = retained_items(s);
        assert(r[r.len() - 1] == s[idx].item_model());
    } else {
        lemma_retained_items_complete(s.drop_last(), idx);
        let rest = retained_items(s.drop_last());
        let w = choose|w: int|
            0 <= w < rest.len() && rest[w] == s.drop_last()[idx].item_model();
        assert(retained_items(s)[w] == rest[w]);
    }
}

/// Law: grouping and filtering are complete. Every retained record appears,
/// as its adapted item, in the line of its own resource key.
pub proof fn lemma_retained_record_appears<T: TaskDTO>(tasks: Seq<T>, idx: int)
    requires
        0 <= idx < tasks.len(),
        crate::task_dto::retained(tasks[idx]),
    ensures
        line_items(tasks, tasks[idx].key_spec()).contains(tasks[idx].item_model()),
{
    let k = tasks[idx].key_spec();
    lemma_with_key_complete(tasks, k, idx);
    let g = with_key(tasks, k);
    let w = choose|w: int| 0 <= w < g.len() && g[w] == tasks[idx];
    lemma_retained_items_complete(g, w);
    lemma_sort_contains(retained_items(g), tasks[idx].item_model());
}

/// Dropping a record that is not retained changes no line's items.
proof fn lemma_unretained_removed<T: TaskDTO>(tasks: Seq<T>, idx: int, k: Seq<char>)
    requires
        0 <= idx < tasks.len(),
        !crate::task_dto::retained(tasks[idx]),
    ensures
        retained_items(with_key(tasks.remove(idx), k)) == retained_items(with_key(tasks, k)),
    decreases tasks.len(),
{
    let rm = tasks.remove(idx);
    if idx == tasks.len() - 1 {
        assert(rm =~= tasks.drop_last());
        if tasks.last().key_spec() == k {
            let w = with_key(tasks.drop_last(), k);
            assert(with_key(tasks, k) == w.push(tasks.last()));
            assert(w.push(tasks.last()).drop_last() =~= w);
        }
    } else {
        assert(rm.drop_last() =~= tasks.drop_last().remove(idx));
        assert(rm.last() == tasks.last());
        assert(tasks.drop_last()[idx] == tasks[idx]);
        lemma_unretained_removed(tasks.drop_last(), idx, k);
        let wa = with_key(rm.drop_last(), k);
        let wb = with_key(tasks.drop_last(), k);
        if tasks.last().key_spec() == k {
            assert(with_key(rm, k) == wa.push(tasks.last()));
            assert(with_key(tasks, k) == wb.push(tasks.last()));
            assert(wa.push(tasks.last()).drop_last() =~= wa);
            assert(wb.push(tasks.last()).drop_last() =~= wb);
        } else {
            assert(with_key(rm, k) == wa);
            assert(with_key(tasks, k) == wb);
        }
    }
}

/// Law: per-record failure is contained. A record that the line builder
/// drops (an unparseable timestamp, or a zero-duration span) leaves every
/// line exactly as it would have been had the record not been in the input.
pub proof fn lemma_dropped_record_affects_nothing<T: TaskDTO>(tasks: Seq<T>, idx: int, k: Seq<char>)
    requires
        0 <= idx < tasks.len(),
        !crate::task_dto::retained(tasks[idx]),
    ensures
        line_items(tasks.remove(idx), k) == line_items(tasks, k),
{
    lemma_unretained_removed(tasks, idx, k);
}

/// The resource role labels of one generic task, in pair order.
pub open spec fn res_keys(t: crate::normal_task_dto::NormalTaskDTO) -> Seq<Seq<char>> {
    t.resources@.map_values(|p: (String, String)| p.0@)
}

/// The resource role labels of a whole generic-task list, in list order.
pub open spec fn resource_key_seq(tasks: Seq<crate::normal_task_dto::NormalTaskDTO>) -> Seq<
    Seq<char>,
>
    decreases tasks.len(),
{
    if tasks.len() == 0 {
        Seq::empty()
    } else {
        resource_key_seq(tasks.drop_last()) + res_keys(tasks.last())
    }
}

/// The cross-reference labels of a generic-task timeline: the fixed order
/// label, then every resource role label in first-seen order.
pub open spec fn link_labels(tasks: Seq<crate::normal_task_dto::NormalTaskDTO>) -> Seq<Seq<char>> {
    dedup(seq!["order"@] + resource_key_seq(tasks))
}

/// Collect the cross-reference labels of a generic-task document.
fn collect_link_labels(tasks: &Vec<crate::normal_task_dto::NormalTaskDTO>) -> (r: Vec<String>)
    ensures
        strings_model(r@) == link_labels(tasks@),
{
    let mut labels: Vec<String> = Vec::new();
    proof {
        assert(strings_model(labels@) =~= dedup(Seq::<Seq<char>>::empty()));
    }
    let order = String::from_str("order");
    crate::task_dto::push_label(&mut labels, &order, Ghost(Seq::empty()));
    proof {
        assert(Seq::<Seq<char>>::empty().push("order"@) =~= seq!["order"@]);
        assert(seq!["order"@] + resource_key_seq(tasks@.take(0)) =~= seq!["order"@]);
    }
    let mut i: usize = 0;
    while i < tasks.len()
        invariant
            i <= tasks@.len(),
            strings_model(labels@) == dedup(
                seq!["order"@] + resource_key_seq(tasks@.take(i as int)),
            ),
        decreases tasks@.len() - i,
    {
        let t = &tasks[i];
        let ghost base = seq!["order"@] + resource_key_seq(tasks@.take(i as int));
        proof {
            assert(res_keys(*t).take(0) =~= Seq::<Seq<char>>::empty());
            assert(base + res_keys(*t).take(0) =~= base);
        }
        let mut j: usize = 0;
        while j < t.resources.len()
            invariant
                j <= t.resources@.len(),
                *t == tasks@[i as int],
                0 <= i < tasks@.len(),
                base == seq!["order"@] + resource_key_seq(tasks@.take(i as int)),
                strings_model(labels@) == dedup(base + res_keys(*t).take(j as int)),
            decreases t.resources@.len() - j,
        {
            let p = &t.resources[j];
            crate::task_dto::push_label(&mut labels, &p.0, Ghost(base + res_keys(*t).take(j as int)));
            proof {
                assert(res_keys(*t).take(j as int + 1) =~= res_keys(*t).take(j as int).push(
                    t.resources@[j as int].0@,
                ));
                assert((base + res_keys(*t).take(j as int)).push(t.resources@[j as int].0@) =~= base
                    + res_keys(*t).take(j as int + 1));
            }
            j = j + 1;
        }
        proof {
            assert(res_keys(*t).take(t.resources@.len() as int) =~= res_keys(*t));
            assert(tasks@.take(i as int + 1).drop_last() =~= tasks@.take(i as int));
            assert(tasks@.take(i as int + 1).last() == tasks@[i as int]);
            assert(base + res_keys(tasks@[i as int]) =~= seq!["order"@] + resource_key_seq(
                tasks@.take(i as int + 1),
            ));
        }
        i = i + 1;
    }
    proof {
        assert(tasks@.take(tasks@.len() as int) =~= tasks@);
    }
    labels
}

/// One line per key, each built from the records of `tasks` with that key.
pub fn build_lines<T: TaskDTO>(keys: &Vec<String>, tasks: &Vec<T>) -> (r: Vec<GanttLine>)
    ensures
        r@.len() == keys@.len(),
        forall|i: int|
            0 <= i < r@.len() ==> (#[trigger] r@[i])@ == (LineModel {
                name: keys@[i]@,
                category: "Normal"@,
                items: line_items(tasks@, keys@[i]@),
            }),
{
    let mut r: Vec<GanttLine> = Vec::new();
    let mut i: usize = 0;
    while i < keys.len()
        invariant
            i <= keys@.len(),
            r@.len() == i,
            forall|q: int|
                0 <= q < i ==> (#[trigger] r@[q])@ == (LineModel {
                    name: keys@[q]@,
                    category: "Normal"@,
                    items: line_items(tasks@, keys@[q]@),
                }),
        decreases keys@.len() - i,
    {
        let sub = tasks_with_key(tasks, &keys[i]);
        let line = GanttLine::new(&keys[i], &sub);
        r.push(line);
        i = i + 1;
    }
    r
}

/// Build the timeline of a generic-task document: group the tasks by
/// executor, build one line per executor (empty when all its records are
/// dropped), compute the global bound over all lines, and attach the
/// cross-reference labels. Fails with the empty-timeline error exactly when
/// no record at all is retained.
pub fn build_gantt(tasks: &Vec<crate::normal_task_dto::NormalTaskDTO>) -> (r: Result<
    Gantt,
    TimelineError,
>)
    ensures
        r matches Ok(g) ==> {
            let keys = dedup(keys_of(tasks@));
            &&& g@.lines.len() == keys.len()
            &&& forall|i: int|
                0 <= i < keys.len() ==> #[trigger] g@.lines[i] == (LineModel {
                    name: keys[i],
                    category: "Normal"@,
                    items: line_items(tasks@, keys[i]),
                })
            &&& bound_covers(g@.lines, g@.time)
            &&& bound_tight(g@.lines, g@.time)
            &&& g@.link_info == link_labels(tasks@)
        },
        r is Ok <==> exists|i: int|
            0 <= i < dedup(keys_of(tasks@)).len() && (#[trigger] line_items(
                tasks@,
                dedup(keys_of(tasks@))[i],
            )).len() > 0,
        r is Err ==> r == Err::<Gantt, TimelineError>(TimelineError::EmptyTimeline),
{
    let ghost dk = dedup(keys_of(tasks@));
    let mut keys: Vec<String> = Vec::new();
    proof {
        assert(strings_model(keys@) =~= dedup(Seq::<Seq<char>>::empty()));
    }
    distinct_keys_into(&mut keys, tasks, Ghost(Seq::empty()));
    proof {
        assert(Seq::<Seq<char>>::empty() + keys_of(tasks@) =~= keys_of(tasks@));
        assert(strings_model(keys@) == dk);
    }
    let lines = build_lines(&keys, tasks);
    let ghost lm = lines_model(lines@);
    proof {
        assert(lm.len() == dk.len());
        assert(forall|i: int| 0 <= i < lm.len() ==> #[trigger] lm[i] == lines@[i]@);
        assert forall|i: int| 0 <= i < lm.len() implies #[trigger] lm[i] == (LineModel {
            name: dk[i],
            category: "Normal"@,
            items: line_items(tasks@, dk[i]),
        }) by {
            assert(strings_model(keys@)[i] == keys@[i]@);
        }
    }
    let bound = match compute_bound(&lines) {
        Ok(b) => b,
        Err(e) => {
            proof {
                assert forall|i: int|
                    0 <= i < dk.len() implies (#[trigger] line_items(tasks@, dk[i])).len()
                    == 0 by {
                    assert(lm[i].items.len() == 0);
                }
            }
            return Err(e);
        },
    };
    proof {
        let w = choose|i: int| 0 <= i < lm.len() && (#[trigger] lm[i]).items.len() > 0;
        assert((line_items(tasks@, dk[w])).len() > 0);
    }
    let link_info = collect_link_labels(tasks);
    let g = Gantt::new(bound, lines, link_info);
    proof {
        assert(g@.lines =~= lm);
    }
    Ok(g)
}

/// The distinct resource keys of a manufacturing schedule, in first-seen
/// order across the batch list, then the testing list, then the stop plans.
pub open spec fn manufacturing_keys(
    batches: Seq<crate::injection_molding_dto::InjectionMoldingTaskDTO>,
    testing: Seq<crate::injection_molding_dto::TestingTaskDTO>,
    stop_plans: Seq<crate::injection_molding_dto::StopPlanDTO>,
) -> Seq<Seq<char>> {
    dedup(keys_of(batches) + keys_of(testing) + keys_of(stop_plans))
}

/// The sorted items of one manufacturing line: the retained records of each
/// list with that key, adapted, in list-precedence order, then sorted
/// stably by actual start.
pub open spec fn manufacturing_line_items(
    batches: Seq<crate::injection_molding_dto::InjectionMoldingTaskDTO>,
    testing: Seq<crate::injection_molding_dto::TestingTaskDTO>,
    stop_plans: Seq<crate::injection_molding_dto::StopPlanDTO>,
    k: Seq<char>,
) -> Seq<ItemModel> {
    sort_by_start(
        retained_items(with_key(batches, k)) + retained_items(with_key(testing, k))
            + retained_items(with_key(stop_plans, k)),
    )
}

/// Build the timeline of a manufacturing schedule: group the three record
/// lists by equipment, build one line per equipment key seen in any list,
/// compute the global bound, and expose the fixed mould-number label as the
/// only cross-reference dimension.
pub fn build_manufacturing_gantt(
    batches: &Vec<crate::injection_molding_dto::InjectionMoldingTaskDTO>,
    testing: &Vec<crate::injection_molding_dto::TestingTaskDTO>,
    stop_plans: &Vec<crate::injection_molding_dto::StopPlanDTO>,
) -> (r: Result<Gantt, TimelineError>)
    ensures
        r matches Ok(g) ==> {
            let keys = manufacturing_keys(batches@, testing@, stop_plans@);
            &&& g@.lines.len() == keys.len()
            &&& forall|i: int|
                0 <= i < keys.len() ==> #[trigger] g@.lines[i] == (LineModel {
                    name: keys[i],
                    category: "Normal"@,
                    items: manufacturing_line_items(batches@, testing@, stop_plans@, keys[i]),
                })
            &&& bound_covers(g@.lines, g@.time)
            &&& bound_tight(g@.lines, g@.time)
            &&& g@.link_info == seq!["mould number"@]
        },
        r is Ok <==> exists|i: int|
            0 <= i < manufacturing_keys(batches@, testing@, stop_plans@).len() && (
            #[trigger] manufacturing_line_items(
                batches@,
                testing@,
                stop_plans@,
                manufacturing_keys(batches@, testing@, stop_plans@)[i],
            )).len() > 0,
        r is Err ==> r == Err::<Gantt, TimelineError>(TimelineError::EmptyTimeline),
{
    let ghost mk = manufacturing_keys(batches@, testing@, stop_plans@);
    let mut keys: Vec<String> = Vec::new();
    proof {
        assert(strings_model(keys@) =~= dedup(Seq::<Seq<char>>::empty()));
    }
    distinct_keys_into(&mut keys, batches, Ghost(Seq::empty()));
    proof {
        assert(Seq::<Seq<char>>::empty() + keys_of(batches@) =~= keys_of(batches@));
    }
    distinct_keys_into(&mut keys, testing, Ghost(keys_of(batches@)));
    distinct_keys_into(&mut keys, stop_plans, Ghost(keys_of(batches@) + keys_of(testing@)));
    proof {
        assert(keys_of(batches@) + keys_of(testing@) + keys_of(stop_plans@) =~= (keys_of(batches@)
            + keys_of(testing@)) + keys_of(stop_plans@));
        assert(strings_model(keys@) == mk);
    }
    let mut lines: Vec<GanttLine> = Vec::new();
    let mut i: usize = 0;
    while i < keys.len()
        invariant
            i <= keys@.len(),
            lines@.len() == i,
            strings_model(keys@) == mk,
            mk == manufacturing_keys(batches@, testing@, stop_plans@),
            forall|q: int|
                0 <= q < i ==> #[trigger] lines@[q]@ == (LineModel {
                    name: mk[q],
                    category: "Normal"@,
                    items: manufacturing_line_items(batches@, testing@, stop_plans@, mk[q]),
                }),
        decreases keys@.len() - i,
    {
        let key = &keys[i];
        let b = tasks_with_key(batches, key);
        let t = tasks_with_key(testing, key);
        let s = tasks_with_key(stop_plans, key);
        let mut items: Vec<GanttItem> = Vec::new();
        proof {
            assert(crate::gantt::items_model(items@) =~= Seq::<ItemModel>::empty());
        }
        collect_items(&mut items, &b);
        collect_items(&mut items, &t);
        collect_items(&mut items, &s);
        proof {
            assert(crate::gantt::items_model(items@) =~= retained_items(with_key(batches@, key@))
                + retained_items(with_key(testing@, key@)) + retained_items(
                with_key(stop_plans@, key@),
            ));
            assert(strings_model(keys@)[i as int] == keys@[i as int]@);
        }
        let items = sort_items(items);
        lines.push(
            GanttLine { name: key.clone(), category: String::from_str("Normal"), items },
        );
        i = i + 1;
    }
    let ghost lm = lines_model(lines@);
    proof {
        assert(lm.len() == mk.len());
        assert(forall|q: int| 0 <= q < lm.len() ==> #[trigger] lm[q] == lines@[q]@);
    }
    let bound = match compute_bound(&lines) {
        Ok(b) => b,
        Err(e) => {
            proof {
                assert forall|q: int|
                    0 <= q < mk.len() implies (#[trigger] manufacturing_line_items(
                    batches@,
                    testing@,
                    stop_plans@,
                    mk[q],
                )).len() == 0 by {
                    assert(lm[q].items.len() == 0);
                }
            }
            return Err(e);
        },
    };
    proof {
        let w = choose|q: int| 0 <= q < lm.len() && (#[trigger] lm[q]).items.len() > 0;
        assert((manufacturing_line_items(batches@, testing@, stop_plans@, mk[w])).len() > 0);
    }
    let mut link_info: Vec<String> = Vec::new();
    link_info.push(String::from_str("mould number"));
    let g = Gantt::new(bound, lines, link_info);
    proof {
        assert(g@.link_info =~= seq!["mould number"@]);
        assert(g@.lines =~= lm);
    }
    Ok(g)
}

} // verus!
