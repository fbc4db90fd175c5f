//! The command line of the demo program: which side of the link to run.

use vstd::prelude::*;

use crate::text::{chars_equal, copy_range, has_prefix, starts_with_chars, str_chars};

verus! {

/// The side of the link a program runs.
#[derive(Debug, Clone, Copy, PartialEq, Eq)]
pub enum Role {
    Sender,
    Receiver,
}

/// What the command line asks for.
#[derive(Debug, Clone, Copy, PartialEq, Eq)]
pub enum RoleCommand {
    Run(Role),
    /// `--help` or `-h`: print the usage and stop.
    Help,
}

/// Why a command line was refused.
#[derive(Debug, Clone, PartialEq, Eq)]
pub enum RoleError {
    /// `--role` was the last argument.
    MissingRoleValue,
    /// A role value other than `sender` and `receiver`.
    InvalidRole(Vec<char>),
    /// An argument that is not a role flag.
    UnknownArgument(Vec<char>),
    /// More than one role flag.
    RoleRepeated,
    /// No role flag at all.
    MissingRole,
}

/// A [`RoleError`] as plain values.
pub enum RoleErrorView {
    MissingRoleValue,
    InvalidRole(Seq<char>),
    UnknownArgument(Seq<char>),
    RoleRepeated,
    MissingRole,
}

pub open spec fn role_error_view(e: RoleError) -> RoleErrorView {
    match e {
        RoleError::MissingRoleValue => RoleErrorView::MissingRoleValue,
        RoleError::InvalidRole(v) => RoleErrorView::InvalidRole(v@),
        RoleError::UnknownArgument(a) => RoleErrorView::UnknownArgument(a@),
        RoleError::RoleRepeated => RoleErrorView::RoleRepeated,
        RoleError::MissingRole => RoleErrorView::MissingRole,
    }
}

pub open spec fn role_result_view<T>(r: Result<T, RoleError>) -> Result<T, RoleErrorView> {
    match r {
        Ok(v) => Ok(v),
        Err(e) => Err(role_error_view(e)),
    }
}

pub open spec fn sender_word() -> Seq<char> {
    seq!['s', 'e', 'n', 'd', 'e', 'r']
}

pub open spec fn receiver_word() -> Seq<char> {
    seq!['r', 'e', 'c', 'e', 'i', 'v', 'e', 'r']
}

pub open spec fn role_flag() -> Seq<char> {
    seq!['-', '-', 'r', 'o', 'l', 'e']
}

pub open spec fn role_equals_prefix() -> Seq<char> {
    seq!['-', '-', 'r', 'o', 'l', 'e', '=']
}

/// The role a `--role` value names.
pub open spec fn role_value_spec(value: Seq<char>) -> Result<Role, RoleErrorView> {
    if value == sender_word() {
        Ok(Role::Sender)
    } else if value == receiver_word() {
        Ok(Role::Receiver)
    } else {
        Err(RoleErrorView::InvalidRole(value))
    }
}

/// The role an argument selects by itself, if it is one of the role flags
/// that take no value.
pub open spec fn role_switch(arg: Seq<char>) -> Option<Role> {
    if arg == seq!['-', '-', 's', 'e', 'n', 'd', 'e', 'r'] || arg == seq!['-', 's'] {
        Some(Role::Sender)
    } else if arg == seq!['-', '-', 'r', 'e', 'c', 'e', 'i', 'v', 'e', 'r'] || arg == seq!['-', 'r'] {
        Some(Role::Receiver)
    } else {
        None
    }
}

pub open spec fn is_help_flag(arg: Seq<char>) -> bool {
    arg == seq!['-', '-', 'h', 'e', 'l', 'p'] || arg == seq!['-', 'h']
}

/// Record `role` unless one was given already, then go on with `rest`.
pub open spec fn with_role(role: Role, seen: Option<Role>, rest: Seq<Seq<char>>) -> Result<RoleCommand, RoleErrorView>
    decreases rest.len() + 1, 0nat,
{
    if seen is Some {
        Err(RoleErrorView::RoleRepeated)
    } else {
        role_command(rest, Some(role))
    }
}

/// The command the arguments `args` ask for, having seen the role `seen`
/// before them. Arguments are read from the front and the first problem
/// stops the reading.
pub open spec fn role_command(args: Seq<Seq<char>>, seen: Option<Role>) -> Result<RoleCommand, RoleErrorView>
    decreases args.len(), 1nat,
{
    if args.len() == 0 {
        match seen {
            Some(r) => Ok(RoleCommand::Run(r)),
            None => Err(RoleErrorView::MissingRole),
        }
    } else {
        let arg = args[0];
        let rest = args.drop_first();
        if role_switch(arg) is Some {
            with_role(role_switch(arg)->0, seen, rest)
        } else if arg == role_flag() {
            if rest.len() == 0 {
                Err(RoleErrorView::MissingRoleValue)
            } else {
                match role_value_spec(rest[0]) {
                    Ok(r) => with_role(r, seen, rest.drop_first()),
                    Err(e) => Err(e),
                }
            }
        } else if is_help_flag(arg) {
            Ok(RoleCommand::Help)
        } else if has_prefix(arg, role_equals_prefix()) {
            match role_value_spec(arg.skip(7)) {
                Ok(r) => with_role(r, seen, rest),
                Err(e) => Err(e),
            }
        } else {
            Err(RoleErrorView::UnknownArgument(arg))
        }
    }
}

fn role_value_chars(value: &[char]) -> (r: Result<Role, RoleError>)
    ensures
        role_result_view(r) == role_value_spec(value@),
{
    let sender = ['s', 'e', 'n', 'd', 'e', 'r'];
    let receiver = ['r', 'e', 'c', 'e', 'i', 'v', 'e', 'r'];
    assert(sender@ =~= sender_word());
    assert(receiver@ =~= receiver_word());
    if chars_equal(value, &sender) {
        Ok(Role::Sender)
    } else if chars_equal(value, &receiver) {
        Ok(Role::Receiver)
    } else {
        let copy = copy_range(value, 0, value.len());
        assert(copy@ =~= value@);
        Err(RoleError::InvalidRole(copy))
    }
}

/// The role a `--role` value names: `sender` or `receiver`.
pub fn parse_role_value(value: &str) -> (r: Result<Role, RoleError>)
    ensures
        role_result_view(r) == role_value_spec(value@),
{
    let chars = str_chars(value);
    role_value_chars(chars.as_slice())
}

fn role_switch_chars(arg: &[char]) -> (r: Option<Role>)
    ensures
        r == role_switch(arg@),
{
    let long_sender = ['-', '-', 's', 'e', 'n', 'd', 'e', 'r'];
    let short_sender = ['-', 's'];
    let long_receiver = ['-', '-', 'r', 'e', 'c', 'e', 'i', 'v', 'e', 'r'];
    let short_receiver = ['-', 'r'];
    assert(long_sender@ =~= seq!['-', '-', 's', 'e', 'n', 'd', 'e', 'r']);
    assert(short_sender@ =~= seq!['-', 's']);
    assert(long_receiver@ =~= seq!['-', '-', 'r', 'e', 'c', 'e', 'i', 'v', 'e', 'r']);
    assert(short_receiver@ =~= seq!['-', 'r']);
    if chars_equal(arg, &long_sender) || chars_equal(arg, &short_sender) {
        Some(Role::Sender)
    } else if chars_equal(arg, &long_receiver) || chars_equal(arg, &short_receiver) {
        Some(Role::Receiver)
    } else {
        None
    }
}

fn help_flag_chars(arg: &[char]) -> (r: bool)
    ensures
        r == is_help_flag(arg@),
{
    let long_help = ['-', '-', 'h', 'e', 'l', 'p'];
    let short_help = ['-', 'h'];
    assert(long_help@ =~= seq!['-', '-', 'h', 'e', 'l', 'p']);
    assert(short_help@ =~= seq!['-', 'h']);
    chars_equal(arg, &long_help) || chars_equal(arg, &short_help)
}

pub open spec fn args_chars(args: Seq<String>) -> Seq<Seq<char>> {
    args.map_values(|s: String| s@)
}

proof fn lemma_args_skip(args: Seq<String>, i: int)
    requires
        0 <= i < args.len(),
    ensures
        args_chars(args).skip(i).len() > 0,
        args_chars(args).skip(i)[0] == args[i]@,
        args_chars(args).skip(i).drop_first() == args_chars(args).skip(i + 1),
{
    assert(args_chars(args).skip(i).drop_first() =~= args_chars(args).skip(i + 1));
}

/// The command `args` (the program's arguments, without its name) ask for:
/// `--sender`/`-s`, `--receiver`/`-r`, `--role <value>` or
/// `--role=<value>` select a role, exactly once; `--help`/`-h` asks for the
/// usage.
pub fn parse_role(args: &[String]) -> (r: Result<RoleCommand, RoleError>)
    ensures
        role_result_view(r) == role_command(args_chars(args@), None),
{
    let mut seen: Option<Role> = None;
    let mut i: usize = 0;
    let ghost whole = role_command(args_chars(args@), None);
    assert(args_chars(args@).skip(0) =~= args_chars(args@));
    while i < args.len()
        invariant
            i <= args@.len(),
            whole == role_command(args_chars(args@).skip(i as int), seen),
            whole == role_command(args_chars(args@), None),
        decreases args@.len() - i,
    {
        proof {
            lemma_args_skip(args@, i as int);
        }
        let arg = str_chars(args[i].as_str());
        let parsed: Role;
        match role_switch_chars(arg.as_slice()) {
            Some(role) => {
                parsed = role;
                i += 1;
            },
            None => {
                let role_word = ['-', '-', 'r', 'o', 'l', 'e'];
                assert(role_word@ =~= role_flag());
                if chars_equal(arg.as_slice(), &role_word) {
                    if i + 1 >= args.len() {
                        return Err(RoleError::MissingRoleValue);
                    }
                    proof {
                        lemma_args_skip(args@, i + 1);
                    }
                    let value = str_chars(args[i + 1].as_str());
                    match role_value_chars(value.as_slice()) {
                        Ok(role) => {
                            parsed = role;
                            i += 2;
                        },
                        Err(e) => {
                            return Err(e);
                        },
                    }
                } else if help_flag_chars(arg.as_slice()) {
                    return Ok(RoleCommand::Help);
                } else {
                    let prefix = ['-', '-', 'r', 'o', 'l', 'e', '='];
                    assert(prefix@ =~= role_equals_prefix());
                    if starts_with_chars(arg.as_slice(), &prefix) {
                        let value = copy_range(arg.as_slice(), 7, arg.len());
                        assert(value@ =~= arg@.skip(7));
                        match role_value_chars(value.as_slice()) {
                            Ok(role) => {
                                parsed = role;
                                i += 1;
                            },
                            Err(e) => {
                                return Err(e);
                            },
                        }
                    } else {
                        return Err(RoleError::UnknownArgument(arg));
                    }
                }
            },
        }
        if seen.is_some() {
            return Err(RoleError::RoleRepeated);
        }
        seen = Some(parsed);
    }
    assert(args_chars(args@).skip(i as int).len() == 0);
    match seen {
        Some(role) => Ok(RoleCommand::Run(role)),
        None => Err(RoleError::MissingRole),
    }
}

} // verus!
