//! A metrics-instrumentation core: monotonic counters, free-moving gauges
//! and bucketed histograms with validated names and labels, collected by an
//! immutable registry that renders the deterministic, line-oriented
//! exposition text format.
pub mod atomics;
pub mod counter;
pub mod error;
pub mod export;
pub mod gauge;
pub mod group;
pub mod histogram;
pub mod label;
pub mod num;
pub mod registry;
pub mod render;
pub mod text;

pub use atomics::{AtomicNum, NumCell};
pub use counter::{Counter, IntCounter, UintCounter};
pub use error::{PromError, PromErrorKind};
pub use export::Exportable;
pub use gauge::{Gauge, IntGauge, UintGauge};
pub use group::{CounterGroup, Group, HistogramGroup, Key};
pub use histogram::{Histogram, HistogramBuilder, HistogramCore, LocalHistogram};
pub use label::{Label, Labeled, Metric};
pub use num::Num;
pub use registry::{Collectable, Collector, Descriptor, Registry, RegistryBuilder};
