//! The parameters of one invocation.
use vstd::prelude::*;
use crate::border::BorderStyle;
use crate::error::Error;
use crate::text::str_eq;

verus! {

/// What an invocation is asked to do.
#[derive(Debug, Clone, Copy, PartialEq, Eq, Structural)]
pub enum Action {
    /// Run the queries.
    Run,
    /// List the tables or collections.
    Tables,
    /// Describe one table.
    TableInfo,
}

impl Default for Action {
    fn default() -> (r: Action)
        ensures
            r == Action::Run,
    {
        Action::Run
    }
}

/// The action that a configuration code selects.
pub open spec fn action_of_code(code: Seq<char>) -> Option<Action> {
    if code == seq!['1'] {
        Some(Action::Run)
    } else if code == seq!['2'] {
        Some(Action::Tables)
    } else if code == seq!['3'] {
        Some(Action::TableInfo)
    } else {
        None
    }
}

impl Action {
    /// The action selected by `"1"`, `"2"` or `"3"`; any other code is a
    /// configuration error.
    pub fn from_code(code: &str) -> (r: Result<Action, Error>)
        ensures
            action_of_code(code@) matches Some(a) ==> r == Ok::<Action, Error>(a),
            action_of_code(code@) is None ==> r matches Err(Error::Config(_)),
    {
        proof {
            reveal_strlit("1");
            reveal_strlit("2");
            reveal_strlit("3");
            assert("1"@ =~= seq!['1']);
            assert("2"@ =~= seq!['2']);
            assert("3"@ =~= seq!['3']);
        }
        if str_eq(code, "1") {
            Ok(Action::Run)
        } else if str_eq(code, "2") {
            Ok(Action::Tables)
        } else if str_eq(code, "3") {
            Ok(Action::TableInfo)
        } else {
            let mut m = String::from_str("unknown action code: ");
            m.append(code);
            Err(Error::Config(m))
        }
    }
}

/// The parameters of one invocation.
#[derive(Debug, Clone)]
pub struct Command {
    pub engine: String,
    pub conn_str: String,
    pub db_name: String,
    pub queries: String,
    pub border_style: BorderStyle,
    pub dest_folder: String,
    pub header_style_link: String,
    pub action: Action,
}

impl Command {
    /// Empty parameters, writing to `/tmp` and linking headers to the `Type` group.
    pub fn new() -> (r: Command)
        ensures
            r.engine@.len() == 0,
            r.conn_str@.len() == 0,
            r.db_name@.len() == 0,
            r.queries@.len() == 0,
            r.border_style == BorderStyle::Default,
            r.dest_folder@ == "/tmp"@,
            r.header_style_link@ == "Type"@,
            r.action == Action::Run,
    {
        Command {
            engine: String::new(),
            conn_str: String::new(),
            db_name: String::new(),
            queries: String::new(),
            border_style: BorderStyle::Default,
            dest_folder: String::from_str("/tmp"),
            header_style_link: String::from_str("Type"),
            action: Action::Run,
        }
    }
}

} // verus!
