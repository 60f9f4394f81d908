use vstd::prelude::*;

verus! {

/// A command of the package manager.
#[derive(Clone, Debug, PartialEq, Eq)]
pub enum Command {
    /// Creates the directories and the database.
    Init,
    /// Lists the installed packages.
    List,
    /// Installs the named package from the repository.
    Install(String),
    /// Updates the named package to the repository's version.
    Update(String),
    /// Removes the named package's record and binary.
    Delete(String),
}

impl Command {
    /// Every command but `init` first makes sure that the directories and the
    /// database exist.
    pub fn checks_setup_first(&self) -> (b: bool)
        ensures
            b == !(self is Init),
    {
        match self {
            Command::Init => false,
            _ => true,
        }
    }
}

} // verus!
