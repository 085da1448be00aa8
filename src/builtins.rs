//! The fixed table of builtin commands.
use vstd::prelude::*;

use crate::text::{push_all, str_is};

verus! {

/// A builtin command of the shell.
#[derive(PartialEq, Eq, Structural, Clone, Copy, Debug)]
pub enum Builtin {
    Cat,
    Cd,
    Cp,
    Echo,
    Exit,
    Ls,
    Mkdir,
    Mv,
    Pwd,
    Rm,
    Touch,
    Clear,
}

/// The name under which a builtin is invoked.
pub open spec fn builtin_name(b: Builtin) -> Seq<char> {
    match b {
        Builtin::Cat => "cat"@,
        Builtin::Cd => "cd"@,
        Builtin::Cp => "cp"@,
        Builtin::Echo => "echo"@,
        Builtin::Exit => "exit"@,
        Builtin::Ls => "ls"@,
        Builtin::Mkdir => "mkdir"@,
        Builtin::Mv => "mv"@,
        Builtin::Pwd => "pwd"@,
        Builtin::Rm => "rm"@,
        Builtin::Touch => "touch"@,
        Builtin::Clear => "clear"@,
    }
}

/// The message for a command that is not in the table.
pub open spec fn not_found_text(name: Seq<char>) -> Seq<char> {
    "Command "@ + name + " not found"@
}

impl Builtin {
    /// The builtin invoked as `name`, matched case-sensitively.
    pub fn from_name(name: &str) -> (r: Option<Builtin>)
        ensures
            r matches Some(b) ==> builtin_name(b) == name@,
            r is None ==> forall|b: Builtin| builtin_name(b) != name@,
    {
        if str_is(name, "cat") {
            Some(Builtin::Cat)
        } else if str_is(name, "cd") {
            Some(Builtin::Cd)
        } else if str_is(name, "cp") {
            Some(Builtin::Cp)
        } else if str_is(name, "echo") {
            Some(Builtin::Echo)
        } else if str_is(name, "exit") {
            Some(Builtin::Exit)
        } else if str_is(name, "ls") {
            Some(Builtin::Ls)
        } else if str_is(name, "mkdir") {
            Some(Builtin::Mkdir)
        } else if str_is(name, "mv") {
            Some(Builtin::Mv)
        } else if str_is(name, "pwd") {
            Some(Builtin::Pwd)
        } else if str_is(name, "rm") {
            Some(Builtin::Rm)
        } else if str_is(name, "touch") {
            Some(Builtin::Touch)
        } else if str_is(name, "clear") {
            Some(Builtin::Clear)
        } else {
            assert forall|b: Builtin| builtin_name(b) != name@ by {
                match b {
                    _ => {},
                }
            }
            None
        }
    }
}

/// The message for a command that is not in the table.
pub fn not_found(name: &str) -> (r: String)
    ensures
        r@ == not_found_text(name@),
{
    let mut m = String::new();
    push_all(&mut m, "Command ");
    push_all(&mut m, name);
    push_all(&mut m, " not found");
    m
}

} // verus!
