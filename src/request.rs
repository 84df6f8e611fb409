//! Reading a request from the command-line arguments.
use vstd::prelude::*;
use crate::error::Error;
use crate::text::{opt_string_view, same_text, strings_view};

verus! {

/// What a request asks for, over plain text.
pub enum ActionModel {
    Add(Seq<char>, Seq<char>),
    Modify(Seq<char>, Seq<char>),
    Delete(Seq<char>, Option<Seq<char>>),
    Show(Seq<char>),
    Search(Seq<char>),
    Help,
}

/// A request over plain text: the action and the two options.
pub struct RequestModel {
    pub action: ActionModel,
    pub no_color: bool,
    pub descriptions: Option<Seq<char>>,
}

/// An action with its arguments.
#[allow(inconsistent_fields)]
pub enum Action {
    Add { command: String, tag: String },
    Modify { command: String, tag: String },
    Delete { command: String, tag: Option<String> },
    Show { command: String },
    Search { text: String },
    Help,
}

/// A parsed command line.
pub struct Request {
    pub action: Action,
    /// `--no-color` was given.
    pub no_color: bool,
    /// The path given with `--descriptions`, the last one where several are.
    pub descriptions: Option<String>,
}

impl View for Action {
    type V = ActionModel;

    open spec fn view(&self) -> ActionModel {
        match self {
            Action::Add { command, tag } => ActionModel::Add(command@, tag@),
            Action::Modify { command, tag } => ActionModel::Modify(command@, tag@),
            Action::Delete { command, tag } => ActionModel::Delete(command@, opt_string_view(*tag)),
            Action::Show { command } => ActionModel::Show(command@),
            Action::Search { text } => ActionModel::Search(text@),
            Action::Help => ActionModel::Help,
        }
    }
}

impl View for Request {
    type V = RequestModel;

    open spec fn view(&self) -> RequestModel {
        RequestModel {
            action: self.action@,
            no_color: self.no_color,
            descriptions: opt_string_view(self.descriptions),
        }
    }
}

/// The action named by the word `args[1]`, with the arguments after it.
pub open spec fn action_spec(args: Seq<Seq<char>>) -> Result<ActionModel, Error>
    recommends
        args.len() >= 2,
{
    let w = args[1];
    if w == "add"@ || w == "a"@ {
        if args.len() < 4 {
            Err(Error::NotEnoughArguments)
        } else {
            Ok(ActionModel::Add(args[2], args[3]))
        }
    } else if w == "modify"@ || w == "mod"@ || w == "m"@ {
        if args.len() < 4 {
            Err(Error::NotEnoughArguments)
        } else {
            Ok(ActionModel::Modify(args[2], args[3]))
        }
    } else if w == "delete"@ || w == "del"@ || w == "d"@ {
        if args.len() < 3 {
            Err(Error::NotEnoughArguments)
        } else if args.len() < 4 {
            Ok(ActionModel::Delete(args[2], None))
        } else {
            Ok(ActionModel::Delete(args[2], Some(args[3])))
        }
    } else if w == "show"@ || w == "sho"@ || w == "sh"@ || w == "s"@ {
        if args.len() < 3 {
            Err(Error::NotEnoughArguments)
        } else {
            Ok(ActionModel::Show(args[2]))
        }
    } else if w == "search"@ || w == "se"@ {
        if args.len() < 3 {
            Err(Error::NotEnoughArguments)
        } else {
            Ok(ActionModel::Search(args[2]))
        }
    } else if w == "help"@ || w == "h"@ {
        Ok(ActionModel::Help)
    } else {
        Err(Error::UnknownAction)
    }
}

/// The options among `args[i..]`: whether `--no-color` occurs, and the path
/// after the last `--descriptions`. The word after `--descriptions` is its
/// path whatever it holds; a `--descriptions` without one is an error.
pub open spec fn options_from(args: Seq<Seq<char>>, i: int) -> Result<(bool, Option<Seq<char>>), Error>
    decreases args.len() - i,
{
    if i < 0 || i >= args.len() {
        Ok((false, None))
    } else if args[i] == "--no-color"@ {
        match options_from(args, i + 1) {
            Ok((_, d)) => Ok((true, d)),
            Err(e) => Err(e),
        }
    } else if args[i] == "--descriptions"@ {
        if i + 1 >= args.len() {
            Err(Error::NotEnoughArguments)
        } else {
            match options_from(args, i + 2) {
                Ok((nc, d)) => Ok((nc, if d is Some { d } else { Some(args[i + 1]) })),
                Err(e) => Err(e),
            }
        }
    } else {
        options_from(args, i + 1)
    }
}

/// The request that the arguments (the program's name first) make. With no
/// action word the request is for help.
pub open spec fn request_spec(args: Seq<Seq<char>>) -> Result<RequestModel, Error> {
    if args.len() < 2 {
        Ok(RequestModel { action: ActionModel::Help, no_color: false, descriptions: None })
    } else {
        match action_spec(args) {
            Err(e) => Err(e),
            Ok(a) => match options_from(args, 0) {
                Err(e) => Err(e),
                Ok((nc, d)) => Ok(RequestModel { action: a, no_color: nc, descriptions: d }),
            },
        }
    }
}

pub open spec fn request_view(r: Result<Request, Error>) -> Result<RequestModel, Error> {
    match r {
        Ok(q) => Ok(q@),
        Err(e) => Err(e),
    }
}

/// Scans `args[i..]` for options.
fn options_at(args: &Vec<String>, i: usize) -> (r: Result<(bool, Option<String>), Error>)
    requires
        i <= args.len(),
    ensures
        match r {
            Ok((nc, d)) => options_from(strings_view(args@), i as int) == Ok::<
                (bool, Option<Seq<char>>),
                Error,
            >((nc, opt_string_view(d))),
            Err(e) => options_from(strings_view(args@), i as int) == Err::<
                (bool, Option<Seq<char>>),
                Error,
            >(e),
        },
    decreases args.len() - i,
{
    let ghost a = strings_view(args@);
    if i >= args.len() {
        return Ok((false, None));
    }
    assert(a[i as int] == args@[i as int]@);
    if same_text(args[i].as_str(), "--no-color") {
        match options_at(args, i + 1) {
            Ok((_, d)) => Ok((true, d)),
            Err(e) => Err(e),
        }
    } else if same_text(args[i].as_str(), "--descriptions") {
        if i + 1 >= args.len() {
            Err(Error::NotEnoughArguments)
        } else {
            assert(a[i + 1] == args@[i + 1]@);
            match options_at(args, i + 2) {
                Ok((nc, d)) => {
                    let path = match d {
                        Some(p) => p,
                        None => args[i + 1].clone(),
                    };
                    Ok((nc, Some(path)))
                },
                Err(e) => Err(e),
            }
        }
    } else {
        options_at(args, i + 1)
    }
}

/// The action that the word `args[1]` names.
fn action_at(args: &Vec<String>) -> (r: Result<Action, Error>)
    requires
        args.len() >= 2,
    ensures
        match r {
            Ok(a) => action_spec(strings_view(args@)) == Ok::<ActionModel, Error>(a@),
            Err(e) => action_spec(strings_view(args@)) == Err::<ActionModel, Error>(e),
        },
{
    let ghost a = strings_view(args@);
    assert(forall|k: int| 0 <= k < args.len() ==> a[k] == (#[trigger] args@[k])@);
    let n = args.len();
    let w = args[1].as_str();
    if same_text(w, "add") || same_text(w, "a") {
        if n < 4 {
            Err(Error::NotEnoughArguments)
        } else {
            Ok(Action::Add { command: args[2].clone(), tag: args[3].clone() })
        }
    } else if same_text(w, "modify") || same_text(w, "mod") || same_text(w, "m") {
        if n < 4 {
            Err(Error::NotEnoughArguments)
        } else {
            Ok(Action::Modify { command: args[2].clone(), tag: args[3].clone() })
        }
    } else if same_text(w, "delete") || same_text(w, "del") || same_text(w, "d") {
        if n < 3 {
            Err(Error::NotEnoughArguments)
        } else if n < 4 {
            Ok(Action::Delete { command: args[2].clone(), tag: None })
        } else {
            Ok(Action::Delete { command: args[2].clone(), tag: Some(args[3].clone()) })
        }
    } else if same_text(w, "show") || same_text(w, "sho") || same_text(w, "sh") || same_text(w, "s") {
        if n < 3 {
            Err(Error::NotEnoughArguments)
        } else {
            Ok(Action::Show { command: args[2].clone() })
        }
    } else if same_text(w, "search") || same_text(w, "se") {
        if n < 3 {
            Err(Error::NotEnoughArguments)
        } else {
            Ok(Action::Search { text: args[2].clone() })
        }
    } else if same_text(w, "help") || same_text(w, "h") {
        Ok(Action::Help)
    } else {
        Err(Error::UnknownAction)
    }
}

/// Reads a request from the command-line arguments, the program's name first.
pub fn parse_request(args: &Vec<String>) -> (r: Result<Request, Error>)
    ensures
        request_view(r) == request_spec(strings_view(args@)),
{
    if args.len() < 2 {
        return Ok(Request { action: Action::Help, no_color: false, descriptions: None });
    }
    let action = match action_at(args) {
        Ok(a) => a,
        Err(e) => return Err(e),
    };
    match options_at(args, 0) {
        Ok((no_color, descriptions)) => Ok(Request { action, no_color, descriptions }),
        Err(e) => Err(e),
    }
}

} // verus!
