//! Workspace file access rules: which paths may be touched, and how file
//! contents and writes are reported.
//!
//! A path is refused when it contains `..`, and, once resolved (symbolic
//! links followed), when it does not lie inside the resolved workspace.
use crate::text::{
    chars_of, contains, contains_spec, copy_chars, dec_spec, decimal_string, join_chars, join_spec,
    lines_spec, push_all, push_str, split_lines, string_of, vviews,
};
use vstd::prelude::*;

verus! {

/// Why a path was refused.
pub enum FsError {
    /// The path contains `..`.
    ParentReference,
    /// The resolved path lies outside the resolved workspace.
    EscapesWorkspace,
}

impl FsError {
    /// The error text.
    pub fn message(&self) -> (s: String)
        ensures
            s@ == match self {
                FsError::ParentReference => "Access denied: path contains '..'"@,
                FsError::EscapesWorkspace => "Access denied: path escapes workspace"@,
            },
    {
        match self {
            FsError::ParentReference => string_of(&chars_of("Access denied: path contains '..'")),
            FsError::EscapesWorkspace => string_of(
                &chars_of("Access denied: path escapes workspace"),
            ),
        }
    }
}

/// Refuses a requested path that contains `..`.
pub fn reject_parent_refs(path: &str) -> (r: Result<(), FsError>)
    ensures
        r is Ok <==> !contains_spec(path@, ".."@),
        r matches Err(e) ==> e is ParentReference,
{
    let p = chars_of(path);
    let dots = chars_of("..");
    if contains(&p, &dots) {
        Err(FsError::ParentReference)
    } else {
        Ok(())
    }
}

/// What `std::path::Path::starts_with` gives: `base` is a prefix of `path`,
/// whole components compared.
pub uninterp spec fn path_prefix_spec(path: Seq<char>, base: Seq<char>) -> bool;

/// Calls `Path::new(path).starts_with(base)`; the contract claims that the
/// result is `path_prefix_spec(path@, base@)`, and nothing more.
#[verifier::external_body]
fn path_starts_with(path: &str, base: &str) -> (b: bool)
    ensures
        b == path_prefix_spec(path@, base@),
{
    std::path::Path::new(path).starts_with(base)
}

/// Refuses a resolved path that does not lie inside the resolved workspace.
pub fn confine_to_workspace(canonical: &str, base_canonical: &str) -> (r: Result<(), FsError>)
    ensures
        r is Ok <==> path_prefix_spec(canonical@, base_canonical@),
        r matches Err(e) ==> e is EscapesWorkspace,
{
    if path_starts_with(canonical, base_canonical) {
        Ok(())
    } else {
        Err(FsError::EscapesWorkspace)
    }
}

/// What reading a file shows: with a line limit smaller than the number of
/// lines, the first `limit` lines joined by line feeds and a note of how many
/// lines were left out; otherwise the whole content.
pub open spec fn limited_text(content: Seq<char>, limit: Option<usize>) -> Seq<char> {
    let ls = lines_spec(content);
    match limit {
        Some(lim) => if lim < ls.len() {
            join_spec(ls.take(lim as int), seq!['\n']) + "\n... ("@ + dec_spec(
                (ls.len() - lim) as nat,
            ) + " more lines)"@
        } else {
            content
        },
        None => content,
    }
}

/// The text shown for a file's content under an optional line limit.
pub fn truncate_lines(content: &str, limit: Option<usize>) -> (r: String)
    ensures
        r@ == limited_text(content@, limit),
{
    match limit {
        Some(lim) => {
            let text = chars_of(content);
            let lines = split_lines(&text);
            if lim < lines.len() {
                let mut head: Vec<Vec<char>> = Vec::new();
                let mut j: usize = 0;
                while j < lim
                    invariant
                        j <= lim < lines.len(),
                        vviews(head@) == vviews(lines@).take(j as int),
                    decreases lim - j,
                {
                    let ghost before = head@;
                    head.push(copy_chars(&lines[j]));
                    assert(vviews(head@) =~= vviews(before).push(lines@[j as int]@));
                    j = j + 1;
                    assert(vviews(head@) =~= vviews(lines@).take(j as int));
                }
                let mut out = join_chars(&head, '\n');
                push_str(&mut out, "\n... (");
                let more = decimal_string((lines.len() - lim) as u64);
                push_str(&mut out, more.as_str());
                push_str(&mut out, " more lines)");
                string_of(&out)
            } else {
                string_of(&text)
            }
        },
        None => string_of(&chars_of(content)),
    }
}

/// The reply to a write: `Wrote <bytes> bytes to <path>`.
pub fn write_reply(bytes: usize, path: &str) -> (r: String)
    ensures
        r@ == "Wrote "@ + dec_spec(bytes as nat) + " bytes to "@ + path@,
{
    let mut out = chars_of("Wrote ");
    let n = decimal_string(bytes as u64);
    push_str(&mut out, n.as_str());
    push_str(&mut out, " bytes to ");
    push_str(&mut out, path);
    string_of(&out)
}

} // verus!
