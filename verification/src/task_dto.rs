//! The capability set shared by all top-level task records, and the
//! grouping stage that partitions records by resource key.
//!
//! Grouping is a stable partition: the distinct keys appear in first-seen
//! order, and within one key the records keep their input order.

use vstd::prelude::*;

use crate::gantt::{GanttItem, ItemModel, TimeParseError, strings_model};

verus! {

/// Every top-level task record names the resource (equipment or executor)
/// that runs it and can adapt itself into one timeline item.
pub trait TaskDTO: Sized {
    /// The resource key under which the record is grouped.
    spec fn key_spec(&self) -> Seq<char>;

    /// Whether every timestamp string the record requires parses under the
    /// fixed `YYYY-MM-DD HH:MM:SS` pattern.
    spec fn parses_spec(&self) -> bool;

    /// The timeline item that the record adapts into; meaningful only when
    /// `parses_spec()` holds.
    spec fn item_model(&self) -> ItemModel;

    /// The resource key of this record.
    fn equipment_no(&self) -> (r: &String)
        ensures
            r@ == self.key_spec(),
    ;

    /// Adapt this record into a timeline item, decomposing its span into
    /// the sub-phases of its category. Fails exactly when some required
    /// timestamp does not parse.
    fn to_gantt_item(&self) -> (r: Result<GanttItem, TimeParseError>)
        ensures
            r is Ok <==> self.parses_spec(),
            r matches Ok(it) ==> it@ == self.item_model(),
    ;
}

/// A record is retained in the timeline when its timestamps parse and its
/// actual span has non-zero duration.
pub open spec fn retained<T: TaskDTO>(t: T) -> bool {
    t.parses_spec() && t.item_model().time.start != t.item_model().time.end
}

/// The items that a list of records contributes to its line, in list order.
pub open spec fn retained_items<T: TaskDTO>(tasks: Seq<T>) -> Seq<ItemModel>
    decreases tasks.len(),
{
    if tasks.len() == 0 {
        Seq::empty()
    } else {
        let rest = retained_items(tasks.drop_last());
        if retained(tasks.last()) {
            rest.push(tasks.last().item_model())
        } else {
            rest
        }
    }
}

/// The sub-sequence of records whose resource key is `k`, in input order.
pub open spec fn with_key<T: TaskDTO>(tasks: Seq<T>, k: Seq<char>) -> Seq<T>
    decreases tasks.len(),
{
    if tasks.len() == 0 {
        Seq::empty()
    } else {
        let rest = with_key(tasks.drop_last(), k);
        if tasks.last().key_spec() == k {
            rest.push(tasks.last())
        } else {
            rest
        }
    }
}

/// The resource keys of all records in a list, in list order.
pub open spec fn keys_of<T: TaskDTO>(tasks: Seq<T>) -> Seq<Seq<char>> {
    tasks.map_values(|t: T| t.key_spec())
}

/// First-seen-order deduplication of a key sequence.
pub open spec fn dedup(s: Seq<Seq<char>>) -> Seq<Seq<char>>
    decreases s.len(),
{
    if s.len() == 0 {
        Seq::empty()
    } else {
        let prev = dedup(s.drop_last());
        if prev.contains(s.last()) {
            prev
        } else {
            prev.push(s.last())
        }
    }
}

/// The values behind a sequence of references.
pub open spec fn derefs<T>(s: Seq<&T>) -> Seq<T> {
    s.map_values(|t: &T| *t)
}

/// Law: deduplication keeps exactly the keys of its input.
pub proof fn lemma_dedup_contains(s: Seq<Seq<char>>, x: Seq<char>)
    ensures
        dedup(s).contains(x) <==> s.contains(x),
    decreases s.len(),
{
    if s.len() > 0 {
        lemma_dedup_contains(s.drop_last(), x);
        let dl = s.drop_last();
        assert(s.contains(x) <==> dl.contains(x) || s.last() == x) by {
            if s.contains(x) {
                let i = choose|i: int| 0 <= i < s.len() && s[i] == x;
                if i < s.len() - 1 {
                    assert(dl[i] == x);
                }
            }
            if dl.contains(x) {
                let i = choose|i: int| 0 <= i < dl.len() && dl[i] == x;
                assert(s[i] == x);
            }
            if s.last() == x {
                assert(s[s.len() - 1] == x);
            }
        }
        let prev = dedup(dl);
        if prev.contains(s.last()) {
        } else {
            let r = prev.push(s.last());
            assert(r.contains(x) <==> prev.contains(x) || s.last() == x) by {
                if r.contains(x) {
                    let i = choose|i: int| 0 <= i < r.len() && r[i] == x;
                    if i < prev.len() {
                        assert(prev[i] == x);
                    }
                }
                if prev.contains(x) {
                    let i = choose|i: int| 0 <= i < prev.len() && prev[i] == x;
                    assert(r[i] == x);
                }
                if s.last() == x {
                    assert(r[r.len() - 1] == x);
                }
            }
        }
    }
}

/// Law: deduplication leaves no key twice.
pub proof fn lemma_dedup_no_duplicates(s: Seq<Seq<char>>)
    ensures
        dedup(s).no_duplicates(),
    decreases s.len(),
{
    if s.len() > 0 {
        lemma_dedup_no_duplicates(s.drop_last());
        let prev = dedup(s.drop_last());
        if !prev.contains(s.last()) {
            let r = prev.push(s.last());
            assert forall|i: int, j: int|
                0 <= i < r.len() && 0 <= j < r.len() && i != j implies r[i] != r[j] by {
                if i < prev.len() && j < prev.len() {
                } else if i < prev.len() {
                    assert(!prev.contains(s.last()));
                    assert(prev[i] == r[i]);
                    if r[i] == s.last() {
                        assert(prev.contains(s.last()));
                    }
                } else {
                    assert(prev[j] == r[j]);
                    if r[j] == s.last() {
                        assert(prev.contains(s.last()));
                    }
                }
            }
        }
    }
}

/// Whether some key in `keys` reads as `k`.
pub(crate) fn contains_string(keys: &Vec<String>, k: &String) -> (r: bool)
    ensures
        r <==> strings_model(keys@).contains(k@),
{
    let mut idx: usize = 0;
    while idx < keys.len()
        invariant
            idx <= keys@.len(),
            forall|j: int| 0 <= j < idx ==> keys@[j]@ != k@,
        decreases keys@.len() - idx,
    {
        if keys[idx] == *k {
            proof {
                assert(strings_model(keys@)[idx as int] == k@);
            }
            return true;
        }
        idx = idx + 1;
    }
    proof {
        assert(forall|j: int|
            0 <= j < strings_model(keys@).len() ==> strings_model(keys@)[j] != k@);
    }
    false
}

/// Append to `keys` (already the deduplication of the ghost key sequence
/// `src`) every key of `tasks` not seen before, in first-seen order.
pub(crate) fn distinct_keys_into<T: TaskDTO>(
    keys: &mut Vec<String>,
    tasks: &Vec<T>,
    src: Ghost<Seq<Seq<char>>>,
)
    requires
        strings_model(old(keys)@) == dedup(src@),
    ensures
        strings_model(final(keys)@) == dedup(src@ + keys_of(tasks@)),
{
    proof {
        assert(src@ + keys_of(tasks@.take(0)) =~= src@);
    }
    let mut j: usize = 0;
    while j < tasks.len()
        invariant
            j <= tasks@.len(),
            strings_model(keys@) == dedup(src@ + keys_of(tasks@.take(j as int))),
        decreases tasks@.len() - j,
    {
        let t = &tasks[j];
        let k = t.equipment_no();
        let ghost pre = src@ + keys_of(tasks@.take(j as int));
        let present = contains_string(keys, k);
        if !present {
            keys.push(k.clone());
            proof {
                assert(strings_model(keys@) =~= dedup(pre).push(k@));
            }
        }
        proof {
            assert(src@ + keys_of(tasks@.take(j as int + 1)) =~= pre.push(tasks@[j as int].key_spec()));
            assert(pre.push(tasks@[j as int].key_spec()).drop_last() =~= pre);
        }
        j = j + 1;
    }
    proof {
        assert(tasks@.take(tasks@.len() as int) =~= tasks@);
    }
}

/// Append one label to `labels` (already the deduplication of the ghost
/// label sequence `src`) unless it was seen before.
pub(crate) fn push_label(labels: &mut Vec<String>, l: &String, src: Ghost<Seq<Seq<char>>>)
    requires
        strings_model(old(labels)@) == dedup(src@),
    ensures
        strings_model(final(labels)@) == dedup(src@.push(l@)),
{
    proof {
        assert(src@.push(l@).drop_last() =~= src@);
    }
    let present = contains_string(labels, l);
    if !present {
        labels.push(l.clone());
        proof {
            assert(strings_model(labels@) =~= dedup(src@).push(l@));
        }
    }
}

/// The records of `tasks` whose resource key is `k`, in input order.
pub fn tasks_with_key<'a, T: TaskDTO>(tasks: &'a Vec<T>, k: &String) -> (r: Vec<&'a T>)
    ensures
        derefs(r@) == with_key(tasks@, k@),
{
    let mut r: Vec<&'a T> = Vec::new();
    proof {
        assert(derefs(r@) =~= with_key(tasks@.take(0), k@));
        assert(tasks@.take(0) =~= Seq::<T>::empty());
    }
    let mut j: usize = 0;
    while j < tasks.len()
        invariant
            j <= tasks@.len(),
            derefs(r@) == with_key(tasks@.take(j as int), k@),
        decreases tasks@.len() - j,
    {
        let t = &tasks[j];
        if *t.equipment_no() == *k {
            r.push(t);
            proof {
                assert(derefs(r@) =~= with_key(tasks@.take(j as int), k@).push(tasks@[j as int]));
            }
        }
        proof {
            assert(tasks@.take(j as int + 1).drop_last() =~= tasks@.take(j as int));
            assert(tasks@.take(j as int + 1).last() == tasks@[j as int]);
        }
        j = j + 1;
    }
    proof {
        assert(tasks@.take(tasks@.len() as int) =~= tasks@);
    }
    r
}

/// Adapt each record, drop those whose timestamps fail to parse or whose
/// span is zero, and append the surviving items to `out` in list order.
pub fn collect_items<T: TaskDTO>(out: &mut Vec<GanttItem>, tasks: &Vec<&T>)
    ensures
        crate::gantt::items_model(final(out)@) == crate::gantt::items_model(old(out)@)
            + retained_items(derefs(tasks@)),
{
    proof {
        assert(derefs(tasks@.take(0)) =~= Seq::<T>::empty());
        assert(crate::gantt::items_model(out@) =~= crate::gantt::items_model(out@)
            + retained_items(derefs(tasks@.take(0))));
    }
    let mut j: usize = 0;
    while j < tasks.len()
        invariant
            j <= tasks@.len(),
            crate::gantt::items_model(out@) == crate::gantt::items_model(old(out)@)
                + retained_items(derefs(tasks@.take(j as int))),
        decreases tasks@.len() - j,
    {
        let t: &T = tasks[j];
        let ghost pre = derefs(tasks@.take(j as int));
        proof {
            assert(derefs(tasks@.take(j as int + 1)) =~= pre.push(*tasks@[j as int]));
            assert(pre.push(*tasks@[j as int]).drop_last() =~= pre);
        }
        match t.to_gantt_item() {
            Ok(it) => {
                if it.time.start != it.time.end {
                    proof {
                        assert(it@.time == it.time);
                        assert(retained(*tasks@[j as int]));
                    }
                    out.push(it);
                    proof {
                        assert(crate::gantt::items_model(out@) =~= (crate::gantt::items_model(
                            old(out)@,
                        ) + retained_items(pre)).push(tasks@[j as int].item_model()));
                    }
                } else {
                    proof {
                        assert(!retained(*tasks@[j as int]));
                    }
                }
            },
            Err(_) => {
                proof {
                    assert(!retained(*tasks@[j as int]));
                }
            },
        }
        j = j + 1;
    }
    proof {
        assert(tasks@.take(tasks@.len() as int) =~= tasks@);
    }
}

/// Partition `tasks` by resource key: one entry per distinct key in
/// first-seen order, each holding the key's records in input order.
pub fn group<'a, T: TaskDTO>(tasks: &'a Vec<T>) -> (r: Vec<(String, Vec<&'a T>)>)
    ensures
        r@.len() == dedup(keys_of(tasks@)).len(),
        forall|i: int|
            0 <= i < r@.len() ==> (#[trigger] r@[i]).0@ == dedup(keys_of(tasks@))[i] && derefs(
                r@[i].1@,
            ) == with_key(tasks@, r@[i].0@),
{
    let mut keys: Vec<String> = Vec::new();
    proof {
        assert(strings_model(keys@) =~= dedup(Seq::<Seq<char>>::empty()));
    }
    distinct_keys_into(&mut keys, tasks, Ghost(Seq::empty()));
    proof {
        assert(Seq::<Seq<char>>::empty() + keys_of(tasks@) =~= keys_of(tasks@));
    }
    let mut r: Vec<(String, Vec<&'a T>)> = Vec::new();
    let mut i: usize = 0;
    while i < keys.len()
        invariant
            i <= keys@.len(),
            r@.len() == i,
            strings_model(keys@) == dedup(keys_of(tasks@)),
            forall|q: int|
                0 <= q < i ==> (#[trigger] r@[q]).0@ == dedup(keys_of(tasks@))[q] && derefs(
                    r@[q].1@,
                ) == with_key(tasks@, r@[q].0@),
        decreases keys@.len() - i,
    {
        let sub = tasks_with_key(tasks, &keys[i]);
        r.push((keys[i].clone(), sub));
        i = i + 1;
    }
    r
}

} // verus!
