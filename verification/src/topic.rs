//! The quiz topics and their names.

use crate::text::same_text;
use vstd::prelude::*;

verus! {

/// A quiz subject.
#[derive(Clone, Copy, Debug, PartialEq, Eq, Structural)]
pub enum Topic {
    Programming,
    Math,
    Blockchain,
    Security,
}

impl Topic {
    /// The topic that `name` names, if it names one.
    pub open spec fn named(name: Seq<char>) -> Option<Topic> {
        if name == "programming"@ {
            Some(Topic::Programming)
        } else if name == "math"@ {
            Some(Topic::Math)
        } else if name == "blockchain"@ {
            Some(Topic::Blockchain)
        } else if name == "security"@ {
            Some(Topic::Security)
        } else {
            None
        }
    }

    /// Looks a topic up by its name.
    pub fn from_name(name: &str) -> (t: Option<Topic>)
        ensures
            t == Topic::named(name@),
    {
        if same_text(name, "programming") {
            Some(Topic::Programming)
        } else if same_text(name, "math") {
            Some(Topic::Math)
        } else if same_text(name, "blockchain") {
            Some(Topic::Blockchain)
        } else if same_text(name, "security") {
            Some(Topic::Security)
        } else {
            None
        }
    }
}

} // verus!
