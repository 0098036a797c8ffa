//! What holds of the library as a whole, proved from what its functions state.

pub mod comments;
pub mod documents;
pub mod editing;
pub mod languages;
pub mod markers;
pub mod numbers;
pub mod reading;
pub mod searching;
pub mod selections;
pub mod trimming;
pub mod types;
pub mod views;
pub mod visits;
pub mod writing;
