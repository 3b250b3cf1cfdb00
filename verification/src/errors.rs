use vstd::prelude::*;

verus! {

/// The user's home directory could not be located.
#[derive(Debug)]
pub struct HomeDirError;

/// The process is not attached to an interactive terminal.
#[derive(Debug)]
pub struct NonInteractiveTty;

/// An error reported by the chat-platform client, carried as its text.
#[derive(Debug)]
pub struct InternalSerenityError(pub String);

impl HomeDirError {
    pub fn message(&self) -> (r: String)
        ensures
            r@ == "Unable to locate user home directory"@,
    {
        String::from_str("Unable to locate user home directory")
    }
}

impl NonInteractiveTty {
    pub fn message(&self) -> (r: String)
        ensures
            r@ == "Must be run in a interactive terminal"@,
    {
        String::from_str("Must be run in a interactive terminal")
    }
}

impl InternalSerenityError {
    pub fn message(&self) -> (r: String)
        ensures
            r@ == "Error originating from Serentity:\n"@ + self.0@,
    {
        let mut s = String::from_str("Error originating from Serentity:\n");
        s.append(self.0.as_str());
        s
    }
}

} // verus!
