pub mod config;
pub mod branch_predictor;
pub mod components;
pub mod pipeline;
pub mod tomasulo;
pub mod visualization;
pub mod simulator;
pub mod walkthrough;
