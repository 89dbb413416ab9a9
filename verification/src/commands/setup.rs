//! `setup`: the starter files.

use vstd::prelude::*;

verus! {

/// What is said after the files were written.
pub const NEXT_STEPS: &'static str = "
Next steps:
  1. Edit profile.toml to describe yourself (the comments explain each field).
  2. export ANTHROPIC_API_KEY=sk-ant-...   (needed only for `triage`).
  3. jobpipe init && jobpipe fetch && jobpipe triage && jobpipe digest
";

/// Whether a starter file is written: unless it exists and is not to be
/// overwritten.
pub fn writes_starter(present: bool, force: bool) -> (r: bool)
    ensures
        r == (!present || force),
{
    !present || force
}

/// What is said of a starter file.
pub fn starter_line(name: &str, written: bool) -> (r: String)
    ensures
        r@ == if written {
            "Wrote "@ + name@ + "."@
        } else {
            "Kept existing "@ + name@ + " (use `jobpipe setup --force` to overwrite)."@
        },
{
    if written {
        let mut s = "Wrote ".to_owned();
        s.append(name);
        s.append(".");
        s
    } else {
        let mut s = "Kept existing ".to_owned();
        s.append(name);
        s.append(" (use `jobpipe setup --force` to overwrite).");
        s
    }
}

} // verus!
