//! Permission to run tools.

use crate::json::Json;
use crate::text::{concat3, same_text};
use vstd::prelude::*;
use vstd::string::*;

verus! {

/// The verdict on a tool call.
#[derive(Debug, PartialEq, Eq)]
pub enum Decision {
    /// Run the tool.
    Allow,
    /// Do not run the tool. The model gets the reason as a tool error, and the run goes on.
    Deny(String),
    /// Ask the user. Where nobody can be asked, this means no.
    AskUser {
        /// The question.
        prompt: String,
    },
}

/// Model of a verdict.
#[verifier::ext_equal]
pub enum DecisionView {
    Allow,
    Deny(Seq<char>),
    AskUser { prompt: Seq<char> },
}

impl View for Decision {
    type V = DecisionView;

    open spec fn view(&self) -> DecisionView {
        match *self {
            Decision::Allow => DecisionView::Allow,
            Decision::Deny(reason) => DecisionView::Deny(reason@),
            Decision::AskUser { prompt } => DecisionView::AskUser { prompt: prompt@ },
        }
    }
}

impl DeepView for Decision {
    type V = DecisionView;

    open spec fn deep_view(&self) -> DecisionView {
        self@
    }
}

impl Clone for Decision {
    fn clone(&self) -> (r: Self)
        ensures
            r@ == self@,
    {
        match self {
            Decision::Allow => Decision::Allow,
            Decision::Deny(reason) => Decision::Deny(reason.clone()),
            Decision::AskUser { prompt } => Decision::AskUser { prompt: prompt.clone() },
        }
    }
}

/// Allows every tool call.
#[derive(Debug, Clone, Copy)]
pub struct AllowAll;

impl Default for AllowAll {
    fn default() -> (r: Self)
        ensures
            r == AllowAll,
    {
        AllowAll
    }
}

impl AllowAll {
    /// Whether the tool may run with these arguments.
    pub fn check(&self, tool: &str, arguments: &Json) -> (r: Decision)
        ensures
            r@ == DecisionView::Allow,
    {
        Decision::Allow
    }
}

/// Denies every tool call.
#[derive(Debug, Clone, Copy)]
pub struct DenyAll;

impl Default for DenyAll {
    fn default() -> (r: Self)
        ensures
            r == DenyAll,
    {
        DenyAll
    }
}

impl DenyAll {
    /// Whether the tool may run with these arguments.
    pub fn check(&self, tool: &str, arguments: &Json) -> (r: Decision)
        ensures
            r@ == DecisionView::Deny("DenyAll policy"@),
    {
        Decision::Deny("DenyAll policy".to_owned())
    }
}

/// Whether a name is in a list.
fn listed(names: &Vec<String>, name: &str) -> (r: bool)
    ensures
        r == names.deep_view().contains(name@),
{
    let mut i: usize = 0;
    while i < names.len()
        invariant
            i <= names@.len(),
            forall|j: int| 0 <= j < i ==> (#[trigger] names@[j])@ != name@,
        decreases names@.len() - i,
    {
        if same_text(names[i].as_str(), name) {
            assert(names.deep_view()[i as int] == name@);
            return true;
        }
        i = i + 1;
    }
    assert forall|j: int| 0 <= j < names.deep_view().len() implies names.deep_view()[j] != name@ by {
        assert(names.deep_view()[j] == names@[j]@);
    }
    false
}

/// Allows the tools whose names are in the list, and asks about any other.
#[derive(Debug)]
pub struct AllowList {
    allowed: Vec<String>,
}

impl View for AllowList {
    type V = Set<Seq<char>>;

    closed spec fn view(&self) -> Set<Seq<char>> {
        self.allowed.deep_view().to_set()
    }
}

impl Clone for AllowList {
    fn clone(&self) -> (r: Self)
        ensures
            r@ == self@,
    {
        let allowed = self.allowed.clone();
        assert(allowed.deep_view() =~= self.allowed.deep_view());
        AllowList { allowed }
    }
}

impl AllowList {
    /// A policy from the names of the tools that may run.
    pub fn new(names: Vec<String>) -> (r: Self)
        ensures
            r@ == names.deep_view().to_set(),
    {
        AllowList { allowed: names }
    }

    /// Whether the tool may run with these arguments.
    pub fn check(&self, tool: &str, arguments: &Json) -> (r: Decision)
        ensures
            r@ == if self@.contains(tool@) {
                DecisionView::Allow
            } else {
                DecisionView::AskUser { prompt: "Allow tool '"@ + tool@ + "'?"@ }
            },
    {
        if listed(&self.allowed, tool) {
            Decision::Allow
        } else {
            Decision::AskUser { prompt: concat3("Allow tool '", tool, "'?") }
        }
    }
}

/// Denies the tools whose names are in the list, and allows any other.
#[derive(Debug)]
pub struct DenyList {
    denied: Vec<String>,
}

impl View for DenyList {
    type V = Set<Seq<char>>;

    closed spec fn view(&self) -> Set<Seq<char>> {
        self.denied.deep_view().to_set()
    }
}

impl Clone for DenyList {
    fn clone(&self) -> (r: Self)
        ensures
            r@ == self@,
    {
        let denied = self.denied.clone();
        assert(denied.deep_view() =~= self.denied.deep_view());
        DenyList { denied }
    }
}

impl DenyList {
    /// A policy from the names of the tools that may not run.
    pub fn new(names: Vec<String>) -> (r: Self)
        ensures
            r@ == names.deep_view().to_set(),
    {
        DenyList { denied: names }
    }

    /// Whether the tool may run with these arguments.
    pub fn check(&self, tool: &str, arguments: &Json) -> (r: Decision)
        ensures
            r@ == if self@.contains(tool@) {
                DecisionView::Deny("tool '"@ + tool@ + "' is in deny list"@)
            } else {
                DecisionView::Allow
            },
    {
        if listed(&self.denied, tool) {
            Decision::Deny(concat3("tool '", tool, "' is in deny list"))
        } else {
            Decision::Allow
        }
    }
}

/// How a question to the user that was put on a channel came back.
pub enum Asked {
    /// Nobody receives on the channel.
    Closed,
    /// The question was received and dropped without an answer.
    Dropped,
    /// The user answered.
    Answered(Decision),
}

/// The verdict that follows from a question on a channel: no answer means no.
pub fn asked_decision(asked: Asked) -> (r: Decision)
    ensures
        r@ == match asked {
            Asked::Closed => DecisionView::Deny("ask-user channel closed"@),
            Asked::Dropped => DecisionView::Deny("ask-user channel dropped"@),
            Asked::Answered(d) => d@,
        },
{
    match asked {
        Asked::Closed => Decision::Deny("ask-user channel closed".to_owned()),
        Asked::Dropped => Decision::Deny("ask-user channel dropped".to_owned()),
        Asked::Answered(d) => d,
    }
}

} // verus!
