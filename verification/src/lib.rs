//! The model behind a terminal monitor for NVIDIA GPUs.

pub mod app;
pub mod draw;
pub mod graphs;
pub mod keys;
pub mod layout;
pub mod metrics;
pub mod monitor;
pub mod picture;
pub mod process;
pub mod rate;
pub mod readings;
pub mod series;
pub mod side;
pub mod sort;
pub mod style;
pub mod text;
pub mod top;
