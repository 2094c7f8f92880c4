//! Telemetry ingestion and lap analysis for driving simulators.
//!
//! The crate decodes what three games send (F1 2024/2025 and Gran Turismo 7 over
//! UDP, Le Mans Ultimate through shared memory) into samples, cuts the stream of
//! samples of each source into laps, and analyses laps: speed against distance,
//! the gap to a reference lap, a map of the track with corners and sectors, and
//! the driving in each corner.
//!
//! It does no I/O and computes without floating point. A quantity that the
//! games give as a float is held as a whole number of thousandths of its unit,
//! rounded toward zero; `ieee` turns the bit pattern of a float into that
//! number. Whoever owns a socket or a memory view drives an adapter through
//! `ingest::TelemetrySource::step`.

pub mod analysis;
pub mod f1;
pub mod gt7;
pub mod ieee;
pub mod ingest;
pub mod interchange;
pub mod lmu;
pub mod math;
pub mod model;
pub mod ops;
pub mod session;
pub mod wire;
