//! The command line: the file to show, and the checks made on it before
//! it is shown.

use vstd::prelude::*;
use crate::text::chars_of;

verus! {

/// The arguments of the command line.
#[derive(Clone, Debug, PartialEq, Eq)]
pub struct Cli {
    /// The markdown file to render.
    pub file: String,
}

/// The largest file, in bytes, that is read.
pub const MAX_FILE_BYTES: u64 = 100 * 1024 * 1024;

/// Whether a file of `size` bytes is too large to be read.
pub fn exceeds_file_limit(size: u64) -> (too_large: bool)
    ensures
        too_large == (size > MAX_FILE_BYTES),
{
    size > MAX_FILE_BYTES
}

/// Whether `c` is a control character: what `char::is_control` returns
/// for it.
pub uninterp spec fn control_char(c: char) -> bool;

/// `char::is_control` of std: whether a character has the general
/// category of control codes. It depends on the character alone, so its
/// result is named.
pub assume_specification[ char::is_control ](c: char) -> (b: bool)
    ensures
        b == control_char(c),
;

/// `name` without its control characters.
pub open spec fn printable(name: Seq<char>) -> Seq<char>
    decreases name.len(),
{
    if name.len() == 0 {
        Seq::empty()
    } else if control_char(name.last()) {
        printable(name.drop_last())
    } else {
        printable(name.drop_last()).push(name.last())
    }
}

/// Returns `name` without its control characters, so that a file name
/// cannot carry escape sequences into the status bar.
pub fn sanitize_filename(name: &str) -> (safe: String)
    ensures
        safe@ == printable(name@),
{
    let chars = chars_of(name);
    let mut safe = String::new();
    let mut i: usize = 0;
    while i < chars.len()
        invariant
            chars@ == name@,
            i <= chars@.len(),
            safe@ == printable(name@.take(i as int)),
        decreases chars.len() - i,
    {
        proof {
            assert(name@.take(i + 1).drop_last() =~= name@.take(i as int));
        }
        if !chars[i].is_control() {
            safe.push(chars[i]);
        }
        i = i + 1;
    }
    proof {
        assert(name@.take(i as int) =~= name@);
    }
    safe
}

} // verus!
