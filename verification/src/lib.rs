//! A quota tracker that reports to a messenger, a cons list with shared
//! tails, a slice splitter, a counter step and a naming trait, with the
//! integer model of the `f64` ratio that the tracker's thresholds use.

pub mod float_ratio;
pub mod limit_tracker;
pub mod outbox;
pub mod shared_list;
pub mod split;
pub mod counter;
pub mod naming;
