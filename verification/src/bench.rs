pub mod outcome;
pub mod scheduler;
pub mod sort;
