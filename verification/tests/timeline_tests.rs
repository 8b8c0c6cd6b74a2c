use gantt_renderer::gantt::{Gantt, TimelineError, opt_string_value};
use gantt_renderer::gantt_dto::{GanttDTO, GanttItemDTO, GanttLineDTO, GanttSubItemDTO};
use gantt_renderer::injection_molding_dto::{InjectionMoldingTaskDTO, StopPlanDTO, TestingTaskDTO};
use gantt_renderer::normal_task_dto::{NormalTaskDTO, ResponseDTO, SubTaskDTO};
use gantt_renderer::renderer::distinct_labels;
use gantt_renderer::sub_chart::SubChartCache;
use gantt_renderer::task_dto::{TaskDTO, group};
use gantt_renderer::time_range::TimeRange;
use gantt_renderer::timeline::{build_gantt, build_manufacturing_gantt, compute_bound};

fn moulding_task(equipment: &str, batch: &str, times: [&str; 5]) -> InjectionMoldingTaskDTO {
    InjectionMoldingTaskDTO {
        equipment_no: equipment.to_string(),
        batch_no: batch.to_string(),
        material_no: "MAT-1".to_string(),
        material_name: "resin".to_string(),
        drawing_no_and_material: "D-100\\resin".to_string(),
        mould_no: Some("MOULD-7".to_string()),
        model_type: "T1".to_string(),
        manufacture_quantity: 100,
        batch_quantity: 10,
        finish_gap_quantity: 0,
        finish_quantity: 100,
        manuf_note: None,
        note: None,
        product_material_no: "PM-1".to_string(),
        cycle_time: 30,
        start_time_str: times[0].to_string(),
        mould_transform_end_time_str: times[1].to_string(),
        mould_style_transform_end_time_str: times[2].to_string(),
        injection_start_time_str: times[3].to_string(),
        end_time_str: times[4].to_string(),
        expiration_start_date_str: "2024-03-01 00:00:00".to_string(),
        expiration_end_date_str: "2024-04-01 00:00:00".to_string(),
        plan_order_no: "ORDER-1".to_string(),
        state: "planned".to_string(),
    }
}

fn simple_moulding_task(equipment: &str, batch: &str, start: &str, end: &str) -> InjectionMoldingTaskDTO {
    moulding_task(equipment, batch, [start, start, start, start, end])
}

fn normal_task(executor: &str, name: &str, start: &str, end: &str) -> NormalTaskDTO {
    NormalTaskDTO {
        name: name.to_string(),
        category: "Produce".to_string(),
        executor: executor.to_string(),
        order: "O-9".to_string(),
        produce: None,
        material: None,
        resources: Vec::new(),
        scheduled_start_time_str: None,
        scheduled_end_time_str: None,
        start_time_str: start.to_string(),
        end_time_str: end.to_string(),
        info: Vec::new(),
        sub_tasks: Vec::new(),
    }
}

// Two manufacturing tasks for resource M1, one of them zero-duration, yield
// exactly one line with exactly one item.
#[test]
fn zero_duration_task_is_dropped() {
    let batches = vec![
        simple_moulding_task("M1", "B1", "2024-01-01 08:00:00", "2024-01-01 10:00:00"),
        simple_moulding_task("M1", "B2", "2024-01-01 09:00:00", "2024-01-01 09:00:00"),
    ];
    let g = build_manufacturing_gantt(&batches, &Vec::new(), &Vec::new()).unwrap();
    assert_eq!(g.lines.len(), 1);
    assert_eq!(g.lines[0].name, "M1");
    assert_eq!(g.lines[0].items.len(), 1);
    assert_eq!(g.lines[0].items[0].name, "B1");
}

// A task with an unparseable timestamp is dropped; no other task in the
// batch is affected.
#[test]
fn unparseable_timestamp_drops_only_that_task() {
    let tasks = vec![
        normal_task("W1", "ok", "2024-01-01 08:00:00", "2024-01-01 10:00:00"),
        normal_task("W1", "bad", "2024-13-77 08:00:00", "2024-01-01 10:00:00"),
        normal_task("W1", "ok2", "2024-01-01 11:00:00", "2024-01-01 12:00:00"),
    ];
    let g = build_gantt(&tasks).unwrap();
    assert_eq!(g.lines.len(), 1);
    assert_eq!(g.lines[0].items.len(), 2);
    assert_eq!(g.lines[0].items[0].name, "ok");
    assert_eq!(g.lines[0].items[1].name, "ok2");
}

// Items within a line are sorted non-decreasingly by actual start; items
// with identical starts keep list-precedence order (batches before testing).
#[test]
fn items_sorted_by_start_with_stable_tie_break() {
    let batches = vec![
        simple_moulding_task("M1", "late", "2024-01-01 12:00:00", "2024-01-01 13:00:00"),
        simple_moulding_task("M1", "early", "2024-01-01 08:00:00", "2024-01-01 09:00:00"),
        simple_moulding_task("M1", "tie-batch", "2024-01-01 10:00:00", "2024-01-01 11:00:00"),
    ];
    let testing = vec![TestingTaskDTO {
        equipment_no: "M1".to_string(),
        batch_no: "tie-test".to_string(),
        mould_no: None,
        note: None,
        expiration_date_str: "2024-02-01 00:00:00".to_string(),
        plan_order_no: "ORDER-2".to_string(),
        cycle_time: 5,
        start_time_str: "2024-01-01 10:00:00".to_string(),
        mould_transform_end_time_str: "2024-01-01 10:10:00".to_string(),
        testing_start_time_str: "2024-01-01 10:20:00".to_string(),
        end_time_str: "2024-01-01 10:40:00".to_string(),
    }];
    let g = build_manufacturing_gantt(&batches, &testing, &Vec::new()).unwrap();
    assert_eq!(g.lines.len(), 1);
    let names: Vec<&str> = g.lines[0].items.iter().map(|i| i.name.as_str()).collect();
    assert_eq!(names, vec!["early", "tie-batch", "tie-test", "late"]);
    let starts: Vec<i64> = g.lines[0].items.iter().map(|i| i.time.start).collect();
    for w in starts.windows(2) {
        assert!(w[0] <= w[1]);
    }
}

// The bound spans from the earliest start to the latest end across lines.
#[test]
fn bound_spans_earliest_start_to_latest_end() {
    let batches = vec![
        simple_moulding_task("M1", "B1", "2024-01-01 08:00:00", "2024-01-01 10:00:00"),
        simple_moulding_task("M2", "B2", "2024-01-01 07:00:00", "2024-01-01 09:30:00"),
    ];
    let g = build_manufacturing_gantt(&batches, &Vec::new(), &Vec::new()).unwrap();
    assert_eq!(g.lines.len(), 2);
    // 2024-01-01 07:00:00 UTC and 2024-01-01 10:00:00 UTC as epoch seconds.
    assert_eq!(g.time.start, 1704092400);
    assert_eq!(g.time.end, 1704103200);
    let dto = GanttDTO::from(&g);
    assert_eq!(dto.start_time, "2024-01-01 07:00:00");
    assert_eq!(dto.end_time, "2024-01-01 10:00:00");
}

// The four decomposed sub-phases are contiguous and cover the span exactly.
#[test]
fn injection_molding_decomposition_is_contiguous() {
    let batches = vec![moulding_task(
        "M1",
        "B1",
        [
            "2024-01-01 08:00:00",
            "2024-01-01 08:15:00",
            "2024-01-01 08:30:00",
            "2024-01-01 08:45:00",
            "2024-01-01 10:00:00",
        ],
    )];
    let g = build_manufacturing_gantt(&batches, &Vec::new(), &Vec::new()).unwrap();
    let item = &g.lines[0].items[0];
    assert_eq!(item.sub_items.len(), 4);
    assert_eq!(item.sub_items[0].name, "Mould Transform");
    assert_eq!(item.sub_items[1].name, "Mould Style Transform");
    assert_eq!(item.sub_items[2].name, "Material Transform");
    assert_eq!(item.sub_items[3].name, "Injection");
    assert_eq!(item.sub_items[0].time.start, item.time.start);
    for w in item.sub_items.windows(2) {
        assert_eq!(w[0].time.end, w[1].time.start);
    }
    assert_eq!(item.sub_items[3].time.end, item.time.end);
    let dto = GanttItemDTO::from(item);
    assert_eq!(dto.sub_items[0].start_time, "2024-01-01 08:00:00");
    assert_eq!(dto.sub_items[0].end_time, "2024-01-01 08:15:00");
    assert_eq!(dto.sub_items[3].start_time, "2024-01-01 08:45:00");
    assert_eq!(dto.sub_items[3].end_time, "2024-01-01 10:00:00");
}

// A task keyed to one resource never appears in another resource's line.
#[test]
fn grouping_keeps_resources_apart() {
    let batches = vec![
        simple_moulding_task("M1", "B1", "2024-01-01 08:00:00", "2024-01-01 10:00:00"),
        simple_moulding_task("M2", "B2", "2024-01-01 08:00:00", "2024-01-01 10:00:00"),
    ];
    let g = build_manufacturing_gantt(&batches, &Vec::new(), &Vec::new()).unwrap();
    assert_eq!(g.lines.len(), 2);
    for line in &g.lines {
        assert_eq!(line.items.len(), 1);
        if line.name == "M1" {
            assert_eq!(line.items[0].name, "B1");
        } else {
            assert_eq!(line.name, "M2");
            assert_eq!(line.items[0].name, "B2");
        }
    }
}

// A resource whose records are all dropped yields an empty line, which is
// kept in the timeline but excluded from the bound.
#[test]
fn empty_line_is_kept_and_excluded_from_bound() {
    let batches = vec![
        simple_moulding_task("M1", "B1", "2024-01-01 08:00:00", "2024-01-01 10:00:00"),
        simple_moulding_task("M2", "B2", "not a time", "2024-01-01 10:00:00"),
    ];
    let g = build_manufacturing_gantt(&batches, &Vec::new(), &Vec::new()).unwrap();
    assert_eq!(g.lines.len(), 2);
    assert_eq!(g.lines[1].name, "M2");
    assert_eq!(g.lines[1].items.len(), 0);
    assert_eq!(g.time.start, 1704096000);
    assert_eq!(g.time.end, 1704103200);
}

// When every record is dropped the bound has no defined result and the
// empty-timeline error is surfaced instead of a crash.
#[test]
fn all_records_dropped_yields_empty_timeline_error() {
    let batches = vec![simple_moulding_task(
        "M1",
        "B1",
        "2024-01-01 09:00:00",
        "2024-01-01 09:00:00",
    )];
    let r = build_manufacturing_gantt(&batches, &Vec::new(), &Vec::new());
    assert!(matches!(r, Err(TimelineError::EmptyTimeline)));
    let r2 = build_gantt(&Vec::new());
    assert!(matches!(r2, Err(TimelineError::EmptyTimeline)));
}

// An empty lines vector and a vector of empty lines both fail the bound.
#[test]
fn compute_bound_fails_only_without_items() {
    let r = compute_bound(&Vec::new());
    assert!(matches!(r, Err(TimelineError::EmptyTimeline)));
}

// The timestamp parser accepts exactly the fixed pattern and maps into
// epoch seconds; malformed and invalid-calendar strings are errors.
#[test]
fn timestamp_parsing_is_exact() {
    let t = simple_moulding_task("M1", "B1", "2024-01-01 08:00:00", "2024-01-01 10:00:00");
    assert_eq!(t.start_time().unwrap(), 1704096000);
    assert_eq!(t.end_time().unwrap(), 1704103200);
    let bad = simple_moulding_task("M1", "B1", "2024-02-30 08:00:00", "2024-01-01 10:00:00");
    assert!(bad.start_time().is_err());
    let bad2 = simple_moulding_task("M1", "B1", "2024/01/01 08:00:00", "2024-01-01 10:00:00");
    assert!(bad2.start_time().is_err());
    let bad3 = simple_moulding_task("M1", "B1", "", "2024-01-01 10:00:00");
    assert!(bad3.start_time().is_err());
}

// The expiration date is the day number of the parsed expiration instant.
#[test]
fn expiration_date_is_day_number() {
    let t = simple_moulding_task("M1", "B1", "2024-01-01 08:00:00", "2024-01-01 10:00:00");
    // 2024-03-01 00:00:00 UTC = 1709251200 s = day 19783.
    assert_eq!(t.expiration_date().unwrap(), 19783);
}

// The drawing number is the prefix of the combined label before the first
// backslash; a label without a backslash is returned whole.
#[test]
fn drawing_no_takes_prefix_before_backslash() {
    let t = simple_moulding_task("M1", "B1", "2024-01-01 08:00:00", "2024-01-01 10:00:00");
    assert_eq!(t.drawing_no(), "D-100");
    let mut t2 = simple_moulding_task("M1", "B1", "2024-01-01 08:00:00", "2024-01-01 10:00:00");
    t2.drawing_no_and_material = "PLAIN".to_string();
    assert_eq!(t2.drawing_no(), "PLAIN");
    t2.drawing_no_and_material = "\\tail".to_string();
    assert_eq!(t2.drawing_no(), "");
}

// Grouping is a stable partition in first-seen key order.
#[test]
fn group_partitions_stably() {
    let tasks = vec![
        simple_moulding_task("M1", "A", "2024-01-01 08:00:00", "2024-01-01 09:00:00"),
        simple_moulding_task("M2", "B", "2024-01-01 08:00:00", "2024-01-01 09:00:00"),
        simple_moulding_task("M1", "C", "2024-01-01 08:00:00", "2024-01-01 09:00:00"),
    ];
    let groups = group(&tasks);
    assert_eq!(groups.len(), 2);
    assert_eq!(groups[0].0, "M1");
    assert_eq!(groups[1].0, "M2");
    let first: Vec<&str> = groups[0].1.iter().map(|t| t.batch_no.as_str()).collect();
    assert_eq!(first, vec!["A", "C"]);
    let second: Vec<&str> = groups[1].1.iter().map(|t| t.batch_no.as_str()).collect();
    assert_eq!(second, vec!["B"]);
}

// The generic variant's link info is the order label plus each resource
// role label at first sight; the manufacturing variant's is fixed.
#[test]
fn link_info_labels() {
    let mut t1 = normal_task("W1", "a", "2024-01-01 08:00:00", "2024-01-01 09:00:00");
    t1.resources = vec![
        ("mould".to_string(), "X".to_string()),
        ("jig".to_string(), "Y".to_string()),
    ];
    let mut t2 = normal_task("W2", "b", "2024-01-01 08:00:00", "2024-01-01 09:00:00");
    t2.resources = vec![("mould".to_string(), "Z".to_string())];
    let g = build_gantt(&vec![t1, t2]).unwrap();
    assert_eq!(g.link_info, vec!["order", "mould", "jig"]);

    let batches = vec![simple_moulding_task(
        "M1",
        "B1",
        "2024-01-01 08:00:00",
        "2024-01-01 10:00:00",
    )];
    let mg = build_manufacturing_gantt(&batches, &Vec::new(), &Vec::new()).unwrap();
    assert_eq!(mg.link_info, vec!["mould number"]);
}

// The scheduled span falls back to the actual span when either end is
// absent, and is used when both are present.
#[test]
fn scheduled_span_fallback() {
    let mut t = normal_task("W1", "a", "2024-01-01 08:00:00", "2024-01-01 09:00:00");
    let g = build_gantt(&vec![t.clone()]).unwrap();
    let item = &g.lines[0].items[0];
    assert_eq!(item.scheduled_time, item.time);

    t.scheduled_start_time_str = Some("2024-01-01 07:30:00".to_string());
    t.scheduled_end_time_str = Some("2024-01-01 09:30:00".to_string());
    let g2 = build_gantt(&vec![t]).unwrap();
    let item2 = &g2.lines[0].items[0];
    assert_eq!(item2.scheduled_time.start, 1704094200);
    assert_eq!(item2.scheduled_time.end, 1704101400);
    assert_eq!(item2.time.start, 1704096000);
}

// A present but malformed scheduled timestamp drops the record.
#[test]
fn malformed_scheduled_timestamp_drops_record() {
    let mut t = normal_task("W1", "a", "2024-01-01 08:00:00", "2024-01-01 09:00:00");
    t.scheduled_start_time_str = Some("garbage".to_string());
    let r = build_gantt(&vec![t]);
    assert!(matches!(r, Err(TimelineError::EmptyTimeline)));
}

// Generic sub-stages map one for one into sub-items; a malformed sub-stage
// timestamp drops the whole record.
#[test]
fn generic_sub_stages_map_one_for_one() {
    let mut t = normal_task("W1", "a", "2024-01-01 08:00:00", "2024-01-01 10:00:00");
    t.sub_tasks = vec![
        SubTaskDTO {
            name: "phase-a".to_string(),
            category: "setup".to_string(),
            start_time_str: "2024-01-01 08:00:00".to_string(),
            end_time_str: "2024-01-01 09:00:00".to_string(),
            info: Vec::new(),
        },
        SubTaskDTO {
            name: "phase-b".to_string(),
            category: "run".to_string(),
            start_time_str: "2024-01-01 09:00:00".to_string(),
            end_time_str: "2024-01-01 10:00:00".to_string(),
            info: Vec::new(),
        },
    ];
    let g = build_gantt(&vec![t.clone()]).unwrap();
    let item = &g.lines[0].items[0];
    assert_eq!(item.sub_items.len(), 2);
    assert_eq!(item.sub_items[0].name, "phase-a");
    assert_eq!(item.sub_items[1].category, "run");

    t.sub_tasks[1].end_time_str = "bad".to_string();
    let r = build_gantt(&vec![t]);
    assert!(matches!(r, Err(TimelineError::EmptyTimeline)));
}

// Stop plans appear with the fixed Unavailable category and no sub-items.
#[test]
fn stop_plan_is_unavailable_without_sub_items() {
    let stops = vec![StopPlanDTO {
        equipment_no: "M1".to_string(),
        start_time_str: "2024-01-01 08:00:00".to_string(),
        end_time_str: "2024-01-01 09:00:00".to_string(),
    }];
    let g = build_manufacturing_gantt(&Vec::new(), &Vec::new(), &stops).unwrap();
    assert_eq!(g.lines.len(), 1);
    assert_eq!(g.lines[0].name, "M1");
    assert_eq!(g.lines[0].category, "Normal");
    let item = &g.lines[0].items[0];
    assert_eq!(item.category, "Unavailable");
    assert_eq!(item.sub_items.len(), 0);
}

// The rendered timeline formats every instant back into the fixed pattern.
#[test]
fn rendered_dto_round_trips_instants() {
    let tasks = vec![normal_task(
        "W1",
        "a",
        "2024-01-01 08:00:00",
        "2024-01-01 10:00:00",
    )];
    let g = build_gantt(&tasks).unwrap();
    let dto = GanttDTO::from(&g);
    assert_eq!(dto.start_time, "2024-01-01 08:00:00");
    assert_eq!(dto.end_time, "2024-01-01 10:00:00");
    assert_eq!(dto.lines.len(), 1);
    let line: &GanttLineDTO = &dto.lines[0];
    assert_eq!(line.name, "W1");
    assert_eq!(line.category, "Normal");
    let item = &line.items[0];
    assert_eq!(item.start_time, "2024-01-01 08:00:00");
    assert_eq!(item.end_time, "2024-01-01 10:00:00");
    assert_eq!(item.scheduled_start_time, "2024-01-01 08:00:00");
    assert_eq!(item.produces[0].key, "order");
    assert_eq!(item.produces[0].value, "O-9");
}

// Day and time-of-day getters split the bound's instants.
#[test]
fn gantt_date_and_day_time_getters() {
    let g = Gantt::new(
        TimeRange { start: 1704096000, end: 1704103200 },
        Vec::new(),
        Vec::new(),
    );
    // 1704096000 = day 19723 * 86400 + 28800.
    assert_eq!(g.start_date(), 19723);
    assert_eq!(g.start_day_time(), 28800);
    assert_eq!(g.end_date(), 19723);
    assert_eq!(g.end_day_time(), 36000);
}

// The sub-chart cache is last-write-wins with a defined empty read.
#[test]
fn sub_chart_cache_overwrites() {
    let mut cache = SubChartCache::new();
    assert!(cache.load_sub_chart_data().is_none());
    cache.store_sub_chart_data("first".to_string());
    assert_eq!(cache.load_sub_chart_data().unwrap(), "first");
    cache.store_sub_chart_data("second".to_string());
    assert_eq!(cache.load_sub_chart_data().unwrap(), "second");
}

// The bin-packing aggregation keeps one label per distinct value, in
// first-seen order.
#[test]
fn distinct_labels_dedup_in_first_seen_order() {
    let labels = vec![
        "crate".to_string(),
        "box".to_string(),
        "crate".to_string(),
        "bag".to_string(),
        "box".to_string(),
    ];
    let d = distinct_labels(&labels);
    assert_eq!(d, vec!["crate", "box", "bag"]);
    assert_eq!(d.len(), 3);
}

// An absent optional label reads as the empty string.
#[test]
fn absent_optional_label_reads_empty() {
    assert_eq!(opt_string_value(&None), "");
    assert_eq!(opt_string_value(&Some("x".to_string())), "x");
    let mut t = simple_moulding_task("M1", "B1", "2024-01-01 08:00:00", "2024-01-01 10:00:00");
    t.mould_no = None;
    let g = build_manufacturing_gantt(&vec![t], &Vec::new(), &Vec::new()).unwrap();
    let item = &g.lines[0].items[0];
    assert_eq!(item.resources[0].0, "mould number");
    assert_eq!(item.resources[0].1, "");
}

// The equipment accessor returns each variant's grouping key.
#[test]
fn equipment_no_returns_key() {
    let t = simple_moulding_task("M9", "B1", "2024-01-01 08:00:00", "2024-01-01 10:00:00");
    assert_eq!(t.equipment_no().as_str(), "M9");
    let n = normal_task("W3", "a", "2024-01-01 08:00:00", "2024-01-01 09:00:00");
    assert_eq!(n.equipment_no().as_str(), "W3");
    let r = ResponseDTO { tasks: vec![n] };
    assert_eq!(r.tasks.len(), 1);
}
