pub mod cli;
pub mod clock;
pub mod commands;
pub mod container;
pub mod order;
pub mod progress;
pub mod puzzle;
pub mod style;
pub mod text;
pub mod ui;
pub mod workspace;
