use vstd::prelude::*;

use crate::command::strings_view;
use crate::error::GenericError;

verus! {

/// The commands that the interpreter runs itself.
#[derive(Clone, Copy, Debug, PartialEq, Eq, Structural)]
pub enum Builtin {
    Exit,
    Echo,
    Cd,
    Pwd,
}

pub open spec fn spec_builtin_of(name: Seq<char>) -> Option<Builtin> {
    if name == "exit"@ {
        Some(Builtin::Exit)
    } else if name == "echo"@ {
        Some(Builtin::Echo)
    } else if name == "cd"@ {
        Some(Builtin::Cd)
    } else if name == "pwd"@ {
        Some(Builtin::Pwd)
    } else {
        None
    }
}

/// Character-wise equality of two strings.
fn same_text(a: &str, b: &str) -> (r: bool)
    ensures
        r == (a@ == b@),
{
    let n = a.unicode_len();
    if n != b.unicode_len() {
        return false;
    }
    let mut i: usize = 0;
    while i < n
        invariant
            n == a@.len(),
            n == b@.len(),
            0 <= i <= n,
            forall|j: int| 0 <= j < i ==> a@[j] == b@[j],
        decreases n - i,
    {
        if a.get_char(i) != b.get_char(i) {
            return false;
        }
        i += 1;
    }
    assert(a@ =~= b@);
    true
}

/// The builtin that a command name designates, if any.
pub fn builtin_of(name: &str) -> (r: Option<Builtin>)
    ensures
        r == spec_builtin_of(name@),
{
    if same_text(name, "exit") {
        Some(Builtin::Exit)
    } else if same_text(name, "echo") {
        Some(Builtin::Echo)
    } else if same_text(name, "cd") {
        Some(Builtin::Cd)
    } else if same_text(name, "pwd") {
        Some(Builtin::Pwd)
    } else {
        None
    }
}

/// Whether a command name is one of `exit`, `echo`, `cd` and `pwd`.
pub fn is_builtin(cmd_name: &str) -> (r: bool)
    ensures
        r == spec_builtin_of(cmd_name@) is Some,
{
    builtin_of(cmd_name).is_some()
}

/// Words joined with single spaces.
pub open spec fn joined(words: Seq<Seq<char>>) -> Seq<char>
    decreases words.len(),
{
    if words.len() == 0 {
        Seq::empty()
    } else if words.len() == 1 {
        words[0]
    } else {
        joined(words.drop_last()) + " "@ + words.last()
    }
}

/// What `echo` writes: its arguments after the command name, joined with
/// single spaces, and a newline.
pub open spec fn echo_text(args: Seq<Seq<char>>) -> Seq<char> {
    joined(args.drop_first()) + "\n"@
}

/// The line that `echo` writes for the argument list `args`.
pub fn echo_line(args: &Vec<String>) -> (r: String)
    requires
        args@.len() >= 1,
    ensures
        r@ == echo_text(strings_view(args@)),
{
    let ghost words = strings_view(args@).drop_first();
    let mut line = String::new();
    let mut i: usize = 1;
    while i < args.len()
        invariant
            1 <= i <= args@.len(),
            words == strings_view(args@).drop_first(),
            line@ == joined(words.take(i - 1)),
        decreases args@.len() - i,
    {
        if i > 1 {
            line.append(" ");
        }
        line.append(args[i].as_str());
        proof {
            reveal_strlit(" ");
            assert(words.take(i as int).drop_last() =~= words.take(i - 1));
            if i == 1 {
                assert(line@ =~= joined(words.take(i as int)));
            }
        }
        i += 1;
    }
    assert(words.take(i - 1) =~= words);
    line.append("\n");
    line
}

pub open spec fn too_many_arguments(r: GenericError) -> bool {
    r is OtherError && r->OtherError_0@ == "too many arguments"@
}

/// Where `cd` moves the working directory.
pub enum CdTarget {
    Home,
    Path(String),
}

/// The target of `cd` for the argument list `args`: the home directory with
/// no extra argument, the given path with one, an error with more.
pub fn cd_target(args: &Vec<String>) -> (r: Result<CdTarget, GenericError>)
    requires
        args@.len() >= 1,
    ensures
        args@.len() == 1 ==> r == Ok::<CdTarget, GenericError>(CdTarget::Home),
        args@.len() == 2 ==> r is Ok && r->Ok_0 is Path && r->Ok_0->Path_0@ == args@[1]@,
        args@.len() > 2 ==> r is Err && too_many_arguments(r->Err_0),
{
    if args.len() == 1 {
        Ok(CdTarget::Home)
    } else if args.len() == 2 {
        Ok(CdTarget::Path(args[1].clone()))
    } else {
        Err(GenericError::OtherError(String::from_str("too many arguments")))
    }
}

/// Whether `pwd` accepts the argument list `args`: it takes no extra argument.
pub fn check_pwd_args(args: &Vec<String>) -> (r: Result<(), GenericError>)
    requires
        args@.len() >= 1,
    ensures
        args@.len() == 1 <==> r is Ok,
        r is Err ==> too_many_arguments(r->Err_0),
{
    if args.len() > 1 {
        Err(GenericError::OtherError(String::from_str("too many arguments")))
    } else {
        Ok(())
    }
}

} // verus!
