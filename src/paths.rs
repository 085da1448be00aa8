//! Path helpers: parent and final component come from `std::path`, joining
//! is plain string work.
use vstd::prelude::*;

use crate::text::{from_chars, push_all, to_chars};

verus! {

/// What `Path::parent` gives for a path.
pub uninterp spec fn path_parent(p: Seq<char>) -> Option<Seq<char>>;

/// What `Path::file_name` gives for a path.
pub uninterp spec fn path_file_name(p: Seq<char>) -> Option<Seq<char>>;

/// The characters of an optional string.
pub open spec fn opt_chars(o: Option<String>) -> Option<Seq<char>> {
    match o {
        Some(s) => Some(s@),
        None => None,
    }
}

/// Relies on `std::path::Path::parent`: the path without its final
/// component, if it has one.
#[verifier::external_body]
fn parent_of(p: &str) -> (r: Option<String>)
    ensures
        opt_chars(r) == path_parent(p@),
{
    match std::path::Path::new(p).parent() {
        Some(q) => Some(q.to_string_lossy().into_owned()),
        None => None,
    }
}

/// Relies on `std::path::Path::file_name`: the final component of the path,
/// if it is a normal one.
#[verifier::external_body]
fn file_name_of(p: &str) -> (r: Option<String>)
    ensures
        opt_chars(r) == path_file_name(p@),
{
    match std::path::Path::new(p).file_name() {
        Some(n) => Some(n.to_string_lossy().into_owned()),
        None => None,
    }
}

/// The parent of `p`, or `p` itself where it has none.
pub open spec fn parent_text(p: Seq<char>) -> Seq<char> {
    match path_parent(p) {
        Some(q) => q,
        None => p,
    }
}

/// The final component of `p`, or nothing where it has none.
pub open spec fn file_name_text(p: Seq<char>) -> Seq<char> {
    match path_file_name(p) {
        Some(n) => n,
        None => Seq::empty(),
    }
}

/// The parent directory of `path`; a path without one is its own parent.
pub fn get_parent(path: &str) -> (r: String)
    ensures
        r@ == parent_text(path@),
{
    match parent_of(path) {
        Some(q) => q,
        None => from_chars(&to_chars(path)),
    }
}

/// The final component of `path`, empty where it has none.
pub fn file_name(path: &str) -> (r: String)
    ensures
        r@ == file_name_text(path@),
{
    match file_name_of(path) {
        Some(n) => n,
        None => String::new(),
    }
}

/// `name` inside directory `dir`.
pub open spec fn join_text(dir: Seq<char>, name: Seq<char>) -> Seq<char> {
    if dir.len() > 0 && dir.last() == '/' {
        dir + name
    } else {
        dir + "/"@ + name
    }
}

/// The path of `name` inside directory `dir`.
pub fn join_path(dir: &str, name: &str) -> (r: String)
    ensures
        r@ == join_text(dir@, name@),
{
    let d = to_chars(dir);
    let mut r = from_chars(&d);
    if d.len() == 0 || d[d.len() - 1] != '/' {
        push_all(&mut r, "/");
    }
    push_all(&mut r, name);
    r
}

} // verus!
