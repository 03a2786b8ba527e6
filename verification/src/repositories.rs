//! The collaborator interfaces the session depends on: something that runs
//! commands and something that answers for the file system. The host
//! provides the implementations; the library states nothing of them.
use vstd::prelude::*;
use crate::entities::Command;

verus! {

/// Runs a command and reports what it produced.
pub trait CommandRepository {
    fn execute_command(&self, command: &Command) -> Result<Command, String>;
}

/// Answers directory queries and directory changes.
pub trait FileSystemRepository {
    fn list_directory(&self, path: &str) -> Result<Vec<String>, String>;

    fn get_current_directory(&self) -> Result<String, String>;

    fn change_directory(&self, path: &str) -> Result<(), String>;
}

} // verus!
