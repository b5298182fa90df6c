//! What holds of the library, over all inputs. Each law says in terms of the
//! inputs and the results alone what an operation is for.

pub mod dashboard;
pub mod git;
pub mod hindsight;
pub mod metrics;
pub mod screen;
pub mod secrets;
pub mod service;
pub mod text;
