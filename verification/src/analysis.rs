//! The analysis kernel: pure functions on laps.

pub mod corners;
pub mod curvature;
pub mod delta;
pub mod nearest;
pub mod overlay;
pub mod summary;
pub mod track;

pub use corners::per_corner_metrics;
pub use curvature::{curvature_series, peak_indices};
pub use delta::rolling_delta_vs_reference;
pub use nearest::{sample_speed_at_distance, time_at_distance};
pub use overlay::overlay_speed_vs_distance;
pub use summary::{lap_summary, stddev, thirds};
pub use track::{auto_sectors, bbox_of, build_track_map};
