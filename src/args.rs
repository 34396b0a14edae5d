use vstd::prelude::*;

use crate::strmap::StringMap;

verus! {

/// Yes, no, or decide by asking (or by looking at the terminal).
#[derive(Clone, Copy, Debug, PartialEq, Eq, Structural)]
pub enum Yna {
    Yes,
    No,
    Auto,
}

/// What the command line asks for.
#[derive(Clone, Debug)]
pub enum Action {
    Help,
    Version,
    Create,
    Alias(String),
    Config,
    Load,
    Remove,
    List,
    Edit,
}

/// The parsed command line.
pub struct Args {
    pub use_color: Yna,
    pub template: String,
    pub directory: String,
    pub action: Action,
    pub vars: StringMap,
    pub prompt_answer: Yna,
}

impl Args {
    /// Whether output is colored; `Auto` has been settled before this is asked.
    pub fn use_color(&self) -> (r: bool)
        ensures
            r == (self.use_color == Yna::Yes),
    {
        self.use_color == Yna::Yes
    }
}

impl Action {
    /// Whether the action works on a named template.
    pub fn needs_template(&self) -> (r: bool)
        ensures
            r == (self is Create || self is Alias || self is Load || self is Remove || self is Edit),
    {
        match self {
            Action::Create | Action::Alias(_) | Action::Load | Action::Remove | Action::Edit => true,
            _ => false,
        }
    }
}

} // verus!
