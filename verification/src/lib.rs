//! Timeline construction for production-scheduling dashboards.
//!
//! Heterogeneous scheduling records (injection-moulding batches, quality
//! testing batches, planned equipment stops, and generic multi-stage tasks)
//! are adapted into one task model, decomposed into named sub-phases,
//! grouped by the resource that executes them, sorted, and assembled into a
//! per-resource timeline with a global time bound.

pub mod clock;
pub mod task_dto;
pub mod sort;
pub mod gantt;
pub mod gantt_dto;
pub mod injection_molding_dto;
pub mod normal_task_dto;
pub mod renderer;
pub mod sub_chart;
pub mod time_range;
pub mod timeline;
