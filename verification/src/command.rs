//! The command line: `login`, `logout`, `category <blog_name>` and
//! `post <blog_name> <category_id> <file_path>`.
use vstd::prelude::*;
use vstd::string::*;

use crate::text::same_text;

verus! {

/// What the command line asks for.
pub enum Command {
    /// Print how to use the program.
    Usage,
    Login,
    Logout,
    Category { blog_name: String },
    Post { blog_name: String, category_id: String, file_path: String },
}

/// A command as plain values.
pub enum CommandView {
    Usage,
    Login,
    Logout,
    Category { blog_name: Seq<char> },
    Post { blog_name: Seq<char>, category_id: Seq<char>, file_path: Seq<char> },
}

impl View for Command {
    type V = CommandView;

    open spec fn view(&self) -> CommandView {
        match self {
            Command::Usage => CommandView::Usage,
            Command::Login => CommandView::Login,
            Command::Logout => CommandView::Logout,
            Command::Category { blog_name } => CommandView::Category { blog_name: blog_name@ },
            Command::Post { blog_name, category_id, file_path } => CommandView::Post {
                blog_name: blog_name@,
                category_id: category_id@,
                file_path: file_path@,
            },
        }
    }
}

/// The command that the arguments `args` (the program's name first) ask
/// for: too few arguments, or an unknown command, ask for the usage text.
pub open spec fn command_spec(args: Seq<Seq<char>>) -> CommandView {
    if args.len() <= 1 {
        CommandView::Usage
    } else if args[1] == "login"@ {
        CommandView::Login
    } else if args[1] == "logout"@ {
        CommandView::Logout
    } else if args[1] == "category"@ {
        if args.len() < 3 {
            CommandView::Usage
        } else {
            CommandView::Category { blog_name: args[2] }
        }
    } else if args[1] == "post"@ {
        if args.len() < 5 {
            CommandView::Usage
        } else {
            CommandView::Post { blog_name: args[2], category_id: args[3], file_path: args[4] }
        }
    } else {
        CommandView::Usage
    }
}

/// Reads the command line `args`, the program's name first.
pub fn parse_command(args: &Vec<String>) -> (r: Command)
    ensures
        r@ == command_spec(args@.map_values(|a: String| a@)),
{
    let ghost v = args@.map_values(|a: String| a@);
    if args.len() <= 1 {
        return Command::Usage;
    }
    let command = args[1].as_str();
    assert(v[1] == command@);
    if same_text(command, "login") {
        Command::Login
    } else if same_text(command, "logout") {
        Command::Logout
    } else if same_text(command, "category") {
        if args.len() < 3 {
            Command::Usage
        } else {
            assert(v[2] == args@[2]@);
            Command::Category { blog_name: args[2].clone() }
        }
    } else if same_text(command, "post") {
        if args.len() < 5 {
            Command::Usage
        } else {
            assert(v[2] == args@[2]@ && v[3] == args@[3]@ && v[4] == args@[4]@);
            Command::Post {
                blog_name: args[2].clone(),
                category_id: args[3].clone(),
                file_path: args[4].clone(),
            }
        }
    } else {
        Command::Usage
    }
}

/// Each documented command line is accepted with exactly the arguments it
/// documents, and arguments past those are ignored: `login` and `logout`
/// alone, `category <blog_name>`, and
/// `post <blog_name> <category_id> <file_path>`; a command short of its
/// arguments asks for the usage text.
pub proof fn lemma_command_forms(args: Seq<Seq<char>>)
    ensures
        args.len() >= 2 && args[1] == "login"@ ==> command_spec(args) == CommandView::Login,
        args.len() >= 2 && args[1] == "logout"@ ==> command_spec(args) == CommandView::Logout,
        args.len() >= 3 && args[1] == "category"@ ==> command_spec(args) == (CommandView::Category {
            blog_name: args[2],
        }),
        args.len() == 2 && args[1] == "category"@ ==> command_spec(args) == CommandView::Usage,
        args.len() >= 5 && args[1] == "post"@ ==> command_spec(args) == (CommandView::Post {
            blog_name: args[2],
            category_id: args[3],
            file_path: args[4],
        }),
        2 <= args.len() < 5 && args[1] == "post"@ ==> command_spec(args) == CommandView::Usage,
        args.len() <= 1 ==> command_spec(args) == CommandView::Usage,
{
    reveal_strlit("login");
    reveal_strlit("logout");
    reveal_strlit("category");
    reveal_strlit("post");
    assert("login"@.len() == 5);
    assert("logout"@.len() == 6);
    assert("category"@.len() == 8);
    assert("post"@.len() == 4);
}

} // verus!
