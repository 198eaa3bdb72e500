//! The admin command line (`simu-admin promote|create --email <e>
//! [--password <p>]`): reading its arguments and deciding what it does.
use vstd::prelude::*;

use crate::crypto::utf8;
use crate::error::lit;
use crate::text::same_text;
use crate::validation::{normalize_email, normalized_email};

verus! {

/// The first position holding `name`, if any.
pub open spec fn first_pos(args: Seq<String>, name: Seq<char>) -> Option<int>
    decreases args.len(),
{
    if args.len() == 0 {
        None
    } else if args[0]@ == name {
        Some(0)
    } else {
        match first_pos(args.drop_first(), name) {
            Some(i) => Some(i + 1),
            None => None,
        }
    }
}

/// The value of the option `name`: the argument right after its first
/// occurrence (`None` when it is absent or last).
pub open spec fn arg_spec(args: Seq<String>, name: Seq<char>) -> Option<String> {
    match first_pos(args, name) {
        Some(i) => if i + 1 < args.len() {
            Some(args[i + 1])
        } else {
            None
        },
        None => None,
    }
}

proof fn lemma_first_pos_step(args: Seq<String>, name: Seq<char>, k: int)
    requires
        0 <= k < args.len(),
        forall|j: int| 0 <= j < k ==> (#[trigger] args[j])@ != name,
    ensures
        args[k]@ == name ==> first_pos(args, name) == Some(k),
    decreases k,
{
    if k > 0 {
        assert forall|j: int| 0 <= j < k - 1 implies (#[trigger] args.drop_first()[j])@ != name by {
            assert(args.drop_first()[j] == args[j + 1]);
        }
        lemma_first_pos_step(args.drop_first(), name, k - 1);
    }
}

/// Reads the option `name` (see `arg_spec`).
pub fn arg(args: &Vec<String>, name: &str) -> (r: Option<String>)
    ensures
        r == arg_spec(args@, name@),
{
    let n = args.len();
    let mut i: usize = 0;
    while i < n
        invariant
            n == args@.len(),
            i <= n,
            forall|j: int| 0 <= j < i ==> (#[trigger] args@[j])@ != name@,
        decreases n - i,
    {
        if same_text(args[i].as_str(), name) {
            proof {
                lemma_first_pos_step(args@, name@, i as int);
            }
            if i + 1 < n {
                return Some(args[i + 1].clone());
            } else {
                return None;
            }
        }
        i = i + 1;
    }
    proof {
        lemma_no_pos(args@, name@);
    }
    None
}

proof fn lemma_no_pos(args: Seq<String>, name: Seq<char>)
    requires
        forall|j: int| 0 <= j < args.len() ==> (#[trigger] args[j])@ != name,
    ensures
        first_pos(args, name) is None,
    decreases args.len(),
{
    if args.len() > 0 {
        assert forall|j: int| 0 <= j < args.drop_first().len() implies (#[trigger] args.drop_first()[j])@ != name by {
            assert(args.drop_first()[j] == args[j + 1]);
        }
        lemma_no_pos(args.drop_first(), name);
    }
}

/// Ending the program with a message on standard error and an exit code.
pub struct CliExit {
    pub code: i32,
    pub message: String,
}

/// `r` ends the program with `code` and `msg`.
pub open spec fn exits<T>(r: Result<T, CliExit>, code: i32, msg: Seq<char>) -> bool {
    r matches Err(e) && e.code == code && e.message@ == msg
}

/// What the command does once its arguments are read.
pub enum AdminCommand {
    /// Give the account with this (normalized) address the admin role.
    Promote { email: String },
    /// Create an admin account.
    Create { email: String, password: String },
}

/// The usage line.
pub open spec fn usage() -> Seq<char> {
    "usage: simu-admin <promote|create> --email <e> [--password <p>]"@
}

/// The command word: the first argument after the program name, or empty.
pub open spec fn command_word(args: Seq<String>) -> Seq<char> {
    if args.len() > 1 {
        args[1]@
    } else {
        Seq::empty()
    }
}

/// Reads the command line: `--email` is required (exit 2); `promote` needs
/// nothing more; `create` needs `--password` (a missing one aborts the
/// program, exit 101) of at least 8 bytes (exit 2); any other word prints the
/// usage (exit 2). The address is normalized.
pub fn parse_admin_command(args: &Vec<String>) -> (r: Result<AdminCommand, CliExit>)
    ensures
        arg_spec(args@, "--email"@) is None ==> exits(r, 2, "--email required"@),
        arg_spec(args@, "--email"@) matches Some(em) ==> {
            let email = normalized_email(em@);
            if command_word(args@) == "promote"@ {
                r matches Ok(AdminCommand::Promote { email: e }) && e@ == email
            } else if command_word(args@) == "create"@ {
                match arg_spec(args@, "--password"@) {
                    None => exits(r, 101, "--password required"@),
                    Some(p) => if utf8(p@).len() < 8 {
                        exits(r, 2, "--password must be ≥ 8 chars"@)
                    } else {
                        r matches Ok(AdminCommand::Create { email: e, password: pw }) && e@ == email && pw == p
                    },
                }
            } else {
                exits(r, 2, usage())
            }
        },
{
    let cmd: String = if args.len() > 1 {
        args[1].clone()
    } else {
        String::new()
    };
    let email = match arg(args, "--email") {
        Some(e) => e,
        None => return Err(CliExit { code: 2, message: lit("--email required") }),
    };
    let email_norm = normalize_email(email.as_str());
    if same_text(cmd.as_str(), "promote") {
        return Ok(AdminCommand::Promote { email: email_norm });
    }
    if same_text(cmd.as_str(), "create") {
        let password = match arg(args, "--password") {
            Some(p) => p,
            None => return Err(CliExit { code: 101, message: lit("--password required") }),
        };
        if password.as_str().as_bytes().len() < 8 {
            return Err(CliExit { code: 2, message: lit("--password must be ≥ 8 chars") });
        }
        return Ok(AdminCommand::Create { email: email_norm, password });
    }
    Err(CliExit { code: 2, message: lit("usage: simu-admin <promote|create> --email <e> [--password <p>]") })
}

/// `promote` when no account has the address (exit 1).
pub fn no_such_user(email: &str) -> (r: CliExit)
    ensures
        r.code == 1,
        r.message@ == "no such user: "@ + email@,
{
    let mut m = lit("no such user: ");
    m.append(email);
    CliExit { code: 1, message: m }
}

/// `create` when the address is taken (exit 1).
pub fn already_exists(email: &str) -> (r: CliExit)
    ensures
        r.code == 1,
        r.message@ == "user already exists: "@ + email@,
{
    let mut m = lit("user already exists: ");
    m.append(email);
    CliExit { code: 1, message: m }
}

/// The line printed after a successful command.
pub fn done_message(cmd: &AdminCommand) -> (r: String)
    ensures
        r@ == match cmd {
            AdminCommand::Promote { email } => "promoted to admin: "@ + email@,
            AdminCommand::Create { email, .. } => "created admin: "@ + email@,
        },
{
    match cmd {
        AdminCommand::Promote { email } => {
            let mut m = lit("promoted to admin: ");
            m.append(email.as_str());
            m
        },
        AdminCommand::Create { email, .. } => {
            let mut m = lit("created admin: ");
            m.append(email.as_str());
            m
        },
    }
}

/// Options on the command line: the value of an option is the argument right
/// after its first occurrence; an option that is absent, or whose first
/// occurrence is the last argument, has none.
pub proof fn lemma_option_value(args: Seq<String>, name: Seq<char>, i: int)
    ensures
        (0 <= i < args.len() && args[i]@ == name && (forall|j: int| 0 <= j < i ==> args[j]@ != name) && i + 1 < args.len())
            ==> arg_spec(args, name) == Some(args[i + 1]),
        (0 <= i < args.len() && args[i]@ == name && (forall|j: int| 0 <= j < i ==> args[j]@ != name) && i + 1 == args.len())
            ==> arg_spec(args, name) is None,
        (forall|j: int| 0 <= j < args.len() ==> args[j]@ != name) ==> arg_spec(args, name) is None,
{
    lemma_first_pos_exact(args, name, i);
}

proof fn lemma_first_pos_exact(args: Seq<String>, name: Seq<char>, i: int)
    ensures
        (0 <= i < args.len() && args[i]@ == name && forall|j: int| 0 <= j < i ==> args[j]@ != name) ==> first_pos(args, name)
            == Some(i),
        (forall|j: int| 0 <= j < args.len() ==> args[j]@ != name) ==> first_pos(args, name) is None,
    decreases args.len(),
{
    if args.len() > 0 {
        let t = args.drop_first();
        lemma_first_pos_exact(t, name, i - 1);
        if 0 <= i < args.len() && args[i]@ == name && forall|j: int| 0 <= j < i ==> args[j]@ != name {
            if i > 0 {
                assert(args[0]@ != name);
                assert(t[i - 1] == args[i]);
                assert forall|j: int| 0 <= j < i - 1 implies t[j]@ != name by {
                    assert(t[j] == args[j + 1]);
                }
            }
        }
        if forall|j: int| 0 <= j < args.len() ==> args[j]@ != name {
            assert(args[0]@ != name);
            assert forall|j: int| 0 <= j < t.len() implies t[j]@ != name by {
                assert(t[j] == args[j + 1]);
            }
        }
    }
}

} // verus!
