//! What each operation is for, said of its inputs and its results in the plainest terms.

pub mod answers;
pub mod hosts;
pub mod pages;
pub mod paths;
pub mod publishing;
pub mod resolving;
pub mod serving;
pub mod settings;
pub mod tables;
pub mod texts;
pub mod views;
