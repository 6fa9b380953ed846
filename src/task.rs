//! The run mode chosen on the command line.
use crate::text::{lowercase, lower_of, text_eq};
use vstd::prelude::*;

verus! {

/// The two ways the program runs.
#[derive(Debug, Clone, Copy, PartialEq, Eq, Structural)]
pub enum TaskType {
    Server,
    Client,
}

/// The mode that a lower-case mode word names.
pub open spec fn task_for(word: Seq<char>) -> Option<TaskType> {
    if word == "server"@ {
        Some(TaskType::Server)
    } else if word == "client"@ {
        Some(TaskType::Client)
    } else {
        None
    }
}

/// Reads the run mode from its command-line word.
#[derive(Debug)]
pub struct Task {}

impl Task {
    /// The mode named by `task`, in any letter case.
    pub fn from_string(task: &str) -> (r: Option<TaskType>)
        ensures
            r == task_for(lower_of(task@)),
    {
        let lowered = lowercase(task);
        Task::from_lowered(lowered.as_str())
    }

    /// The mode named by an already lower-cased word.
    pub fn from_lowered(word: &str) -> (r: Option<TaskType>)
        ensures
            r == task_for(word@),
    {
        if text_eq(word, "server") {
            Some(TaskType::Server)
        } else if text_eq(word, "client") {
            Some(TaskType::Client)
        } else {
            None
        }
    }
}

} // verus!
