//! Navigation-and-loading engine of a terminal dashboard for application
//! performance data: the screen state machine, the bookkeeping of background
//! loads, the debounced application search and the time-series renderer,
//! with the helpers they rest on.

pub mod apps;
pub mod datasets;
pub mod engine;
pub mod error;
pub mod gateway;
pub mod helpers;
pub mod json;
pub mod links;
pub mod order;
pub mod output;
pub mod plain;
pub mod search;
pub mod series;
pub mod text;
pub mod view;

pub use apps::{filtered_app_indices, resolve_app, Application};
pub use datasets::{
    dataset_for, endpoints_as_list, errors_as_list, format_endpoint_table, insights_as_list,
    time_sort_key, RecordList, Row, TabData,
};
pub use engine::{
    ActiveApp, CacheKey, Command, Drill, DrillContent, Engine, Key, Options, Screen, Slot,
};
pub use error::{ApiError, AuthError, Error};
pub use helpers::{
    calculate_range, format_time, format_timestamp_display, get_api_key, parse_range, parse_time,
    KeySearch,
    validate_time_range, ApiKeySource, Timestamp,
};
pub use json::{JsonNumber, JsonValue};
pub use links::{decode_endpoint_id, parse_scout_url, ParsedScoutUrl, ScoutUrlType};
pub use output::{truncate, OutputFormat};
pub use plain::format_plain;
pub use search::SearchState;
pub use series::{
    collect_series_points, downsample, metric_unit, render_series, SeriesChart, SeriesPoint,
    SeriesView,
};
pub use view::Tab;
