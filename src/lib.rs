//! Training-log analytics: per-muscle load tracking, the choice of the next
//! exercise, fatigue-aware goals with record consolidation, and trend
//! samples, over an exercise catalog and a clock supplied by the caller.

pub mod text;
pub mod exercises;
pub mod tips;
pub mod training;
pub mod order;
pub mod muscle_tracker;
pub mod history;
pub mod recommender;
pub mod progress_goal;
pub mod predictor;
pub mod summary;
pub mod analytics;
pub mod session;
