//! Carrying out one request against a loaded registry.
use vstd::prelude::*;
use crate::error::Error;
use crate::registry::{
    add_spec, delete_spec, matches_view, modify_spec, search_spec, show_spec, Match, Registry,
    RegistryModel,
};
use crate::request::{Action, ActionModel};
use crate::text::{opt_string_view, strings_view};

verus! {

/// What a request produced, over plain text.
pub enum OutcomeModel {
    Added(Seq<char>, Seq<char>),
    Modified(Seq<char>, Seq<char>),
    Deleted(Seq<char>, Option<Seq<char>>),
    Shown(Seq<char>, Option<Seq<Seq<char>>>),
    Found(Seq<(Seq<char>, Seq<Seq<char>>)>),
    Help,
}

/// What a request produced, for the caller to report.
#[allow(inconsistent_fields)]
pub enum Outcome {
    /// `tag` was added to `command`.
    Added { command: String, tag: String },
    /// `tag` was appended to the existing `command`.
    Modified { command: String, tag: String },
    /// `command` was removed, or with a tag, that tag was removed from it.
    Deleted { command: String, tag: Option<String> },
    /// The tags of `command`, or `None` where it is not in the database.
    Shown { command: String, tags: Option<Vec<String>> },
    /// The commands that a search found.
    Found { matches: Vec<Match> },
    /// The usage text was asked for.
    Help,
}

impl View for Outcome {
    type V = OutcomeModel;

    open spec fn view(&self) -> OutcomeModel {
        match self {
            Outcome::Added { command, tag } => OutcomeModel::Added(command@, tag@),
            Outcome::Modified { command, tag } => OutcomeModel::Modified(command@, tag@),
            Outcome::Deleted { command, tag } => OutcomeModel::Deleted(command@, opt_string_view(*tag)),
            Outcome::Shown { command, tags } => OutcomeModel::Shown(
                command@,
                match tags {
                    Some(v) => Some(strings_view(v@)),
                    None => None,
                },
            ),
            Outcome::Found { matches } => OutcomeModel::Found(matches_view(matches@)),
            Outcome::Help => OutcomeModel::Help,
        }
    }
}

/// The outcomes after which the database must be written back.
pub open spec fn changes_store(o: OutcomeModel) -> bool {
    o is Added || o is Modified || o is Deleted
}

impl Outcome {
    /// Whether the database was changed and must be written back.
    pub fn needs_save(&self) -> (r: bool)
        ensures
            r == changes_store(self@),
    {
        match self {
            Outcome::Added { .. } | Outcome::Modified { .. } | Outcome::Deleted { .. } => true,
            _ => false,
        }
    }
}

/// A mutation: on success the registry is the model that `expected` gives
/// and the outcome is `o`; on failure the registry is untouched.
pub open spec fn changed_to(
    before: Registry,
    after: Registry,
    r: Result<Outcome, Error>,
    expected: Result<RegistryModel, Error>,
    o: OutcomeModel,
) -> bool {
    match expected {
        Ok(m) => r is Ok && after@ == m && r->Ok_0@ == o,
        Err(e) => r == Err::<Outcome, Error>(e) && after == before,
    }
}

/// What carrying out `a` does to the registry and what it returns.
pub open spec fn executed(before: Registry, after: Registry, a: ActionModel, r: Result<Outcome, Error>) -> bool {
    match a {
        ActionModel::Add(c, t) => changed_to(before, after, r, add_spec(before@, c, t), OutcomeModel::Added(c, t)),
        ActionModel::Modify(c, t) => changed_to(
            before,
            after,
            r,
            modify_spec(before@, c, t),
            OutcomeModel::Modified(c, t),
        ),
        ActionModel::Delete(c, t) => changed_to(
            before,
            after,
            r,
            delete_spec(before@, c, t),
            OutcomeModel::Deleted(c, t),
        ),
        ActionModel::Show(c) => after == before && match show_spec(before@, c) {
            Ok(ts) => r is Ok && r->Ok_0@ == OutcomeModel::Shown(c, ts),
            Err(e) => r == Err::<Outcome, Error>(e),
        },
        ActionModel::Search(s) => after == before && match search_spec(before@, s) {
            Ok(ms) => r is Ok && r->Ok_0@ == OutcomeModel::Found(ms),
            Err(e) => r == Err::<Outcome, Error>(e),
        },
        ActionModel::Help => after == before && r is Ok && r->Ok_0@ == OutcomeModel::Help,
    }
}

/// Carries out one action against the registry.
pub fn execute(reg: &mut Registry, action: &Action) -> (r: Result<Outcome, Error>)
    ensures
        executed(*old(reg), *final(reg), action@, r),
        old(reg)@.wf() ==> final(reg)@.wf(),
{
    match action {
        Action::Add { command, tag } => match reg.add(command.as_str(), tag.as_str()) {
            Ok(()) => Ok(Outcome::Added { command: command.clone(), tag: tag.clone() }),
            Err(e) => Err(e),
        },
        Action::Modify { command, tag } => match reg.modify(command.as_str(), tag.as_str()) {
            Ok(()) => Ok(Outcome::Modified { command: command.clone(), tag: tag.clone() }),
            Err(e) => Err(e),
        },
        Action::Delete { command, tag } => {
            let t = match tag {
                Some(t) => Some(t.as_str()),
                None => None,
            };
            match reg.delete(command.as_str(), t) {
                Ok(()) => Ok(Outcome::Deleted { command: command.clone(), tag: tag.clone() }),
                Err(e) => Err(e),
            }
        },
        Action::Show { command } => match reg.show(command.as_str()) {
            Ok(tags) => Ok(Outcome::Shown { command: command.clone(), tags }),
            Err(e) => Err(e),
        },
        Action::Search { text } => match reg.search(text.as_str()) {
            Ok(matches) => Ok(Outcome::Found { matches }),
            Err(e) => Err(e),
        },
        Action::Help => Ok(Outcome::Help),
    }
}

} // verus!
