//! Monte Carlo estimation of a project's total duration from per-task
//! three-point estimates: the exact, integer and bit-level parts of the engine.
//!
//! Sample values are IEEE-754 binary64 numbers carried as their bit patterns
//! (`u64`); the floating-point operations on them (the inverse CDF, addition,
//! the raw bucket index) are supplied or computed by the caller.

pub mod bucket;
pub mod error;
pub mod ieee;
pub mod sampler;
pub mod series;
pub mod simulate;
pub mod stats;
pub mod table;

pub use bucket::{bucket_index, bucket_samples, histogram_bar_lengths};
pub use error::Error;
pub use ieee::{float_eq, float_le, float_lt, is_nan_bits, total_order_key};
pub use sampler::{check_probability, check_task_bounds};
pub use series::{check_sample_count, series_range};
pub use simulate::{run_monte_carlo, sample_task, sum_in_order, total_series, SampledSeries, TaskBounds};
pub use table::{detect_header, parse_header_with_separator, parse_task_cells, HeaderInfo, TaskCells};
pub use stats::{order_statistics, percentile_index, percentile_ranks, select_order_statistics, sort_samples, OrderStats};
