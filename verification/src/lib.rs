pub mod app;
pub mod paths;
pub mod text;
pub mod worker;

use vstd::prelude::*;

verus! {

/// A descriptive failure carried by a background task.
#[derive(Debug)]
pub struct TaskError {
    pub message: String,
}

impl TaskError {
    pub fn new(message: String) -> (r: TaskError)
        ensures
            r.message == message,
    {
        TaskError { message }
    }
}

} // verus!
