//! Errors of the scripting interface.

use vstd::prelude::*;
use vstd::string::StringExecFns;

verus! {

/// What can go wrong with the scripting interface.
#[derive(Debug, Clone, Copy, PartialEq, Eq, Structural)]
pub enum LuaError {
    /// The scripting interface was used before it was initialized.
    NotInitialized,
}

impl LuaError {
    /// The text that describes the error.
    pub open spec fn text(self) -> Seq<char> {
        match self {
            LuaError::NotInitialized => "Lua API not initialized - ensure DLL is properly loaded"@,
        }
    }

    /// The text that describes the error.
    pub fn message(&self) -> (text: String)
        ensures
            text@ == self.text(),
    {
        match self {
            LuaError::NotInitialized => String::from_str(
                "Lua API not initialized - ensure DLL is properly loaded",
            ),
        }
    }
}

} // verus!
