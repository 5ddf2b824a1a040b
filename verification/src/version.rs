//! The text that tells which build this is.

use vstd::prelude::*;
use vstd::string::StringExecFns;

verus! {

/// The commit to name: the given one, or `unknown`.
pub open spec fn commit_text(commit: Option<Seq<char>>) -> Seq<char> {
    match commit {
        Some(hash) => hash,
        None => "unknown"@,
    }
}

/// The lines that tell which build this is: a blank line, the name, then
/// version, build time, commit and compiler, one on each line.
pub open spec fn version_text(
    name: Seq<char>,
    version: Seq<char>,
    built: Seq<char>,
    commit: Option<Seq<char>>,
    rustc: Seq<char>,
) -> Seq<char> {
    "\n"@ + name + "\nVersion: "@ + version + "\nBuilt: "@ + built + "\nGit commit: "@
        + commit_text(commit) + "\nRustc version: "@ + rustc + "\n"@
}

/// Writes the lines that tell which build this is. A commit that is not
/// known is written as `unknown`.
pub fn version_info(name: &str, version: &str, built: &str, commit: Option<&str>, rustc: &str) -> (text:
    String)
    ensures
        text@ == version_text(
            name@,
            version@,
            built@,
            match commit {
                Some(hash) => Some(hash@),
                None => None,
            },
            rustc@,
        ),
{
    let mut text = String::from_str("\n");
    text.append(name);
    text.append("\nVersion: ");
    text.append(version);
    text.append("\nBuilt: ");
    text.append(built);
    text.append("\nGit commit: ");
    match commit {
        Some(hash) => text.append(hash),
        None => text.append("unknown"),
    }
    text.append("\nRustc version: ");
    text.append(rustc);
    text.append("\n");
    text
}

} // verus!
