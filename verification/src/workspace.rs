//! The decisions taken while the workspace is set up and a file is opened:
//! what to do once the disk has answered.

use crate::editor::Error;
use vstd::prelude::*;

verus! {

/// What looking for a path on the disk gave.
#[derive(Debug)]
pub enum Lookup {
    /// The path is there.
    Found,
    /// Nothing is there under the path.
    Missing,
    /// The disk could not say, for the reason given.
    Failed(std::io::ErrorKind),
}

/// What is to be done about the workspace directory.
#[derive(Debug)]
pub enum SetupStep {
    /// Nothing more: setting up has ended like this.
    Done(Result<bool, Error>),
    /// Create the directory, with the directories above it.
    CreateDirectory,
}

/// What is to be done about the file to open.
#[derive(Debug)]
pub enum OpenStep {
    /// Read the file into the buffer.
    Read,
    /// Create the file with these words in it, and show them.
    CreateWith(&'static str),
    /// Give up.
    Fail(Error),
}

/// The words of a file that the editor creates.
pub open spec fn welcome() -> Seq<char> {
    "= Welcome to AscDoc"@
}

/// What follows when the workspace directory has been looked for.
pub open spec fn setup_after(lookup: Lookup) -> SetupStep {
    match lookup {
        Lookup::Found => SetupStep::Done(Ok(false)),
        Lookup::Missing => SetupStep::CreateDirectory,
        Lookup::Failed(why) => SetupStep::Done(Err(Error::IoError(why))),
    }
}

/// How setting up ends when the directory has or has not been created: with
/// `true` for a new directory.
pub open spec fn setup_end(created: Result<(), std::io::ErrorKind>) -> Result<bool, Error> {
    match created {
        Ok(_) => Ok(true),
        Err(why) => Err(Error::IoError(why)),
    }
}

/// What follows when the workspace directory has been looked for: a
/// directory that is there is left alone, a missing one is created, and any
/// other answer ends the set-up.
pub fn setup_step(lookup: Lookup) -> (step: SetupStep)
    ensures
        step == setup_after(lookup),
{
    match lookup {
        Lookup::Found => SetupStep::Done(Ok(false)),
        Lookup::Missing => SetupStep::CreateDirectory,
        Lookup::Failed(why) => SetupStep::Done(Err(Error::IoError(why))),
    }
}

/// How setting up ends when the directory has or has not been created.
pub fn setup_created(created: Result<(), std::io::ErrorKind>) -> (end: Result<bool, Error>)
    ensures
        end == setup_end(created),
{
    match created {
        Ok(_) => Ok(true),
        Err(why) => Err(Error::IoError(why)),
    }
}

/// What follows when the file to open has been looked for: a file that is
/// there is read, a missing one is created with a welcome, and any other
/// answer is the failure.
pub fn open_step(lookup: Lookup) -> (step: OpenStep)
    ensures
        match lookup {
            Lookup::Found => step is Read,
            Lookup::Missing => step matches OpenStep::CreateWith(words) && words@ == welcome(),
            Lookup::Failed(why) => step == OpenStep::Fail(Error::IoError(why)),
        },
{
    match lookup {
        Lookup::Found => OpenStep::Read,
        Lookup::Missing => OpenStep::CreateWith("= Welcome to AscDoc"),
        Lookup::Failed(why) => OpenStep::Fail(Error::IoError(why)),
    }
}

} // verus!
