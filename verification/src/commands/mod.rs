pub mod hint;
pub mod list;
pub mod next;
pub mod reset;
pub mod solution;
pub mod start;
pub mod status;
pub mod verify;
