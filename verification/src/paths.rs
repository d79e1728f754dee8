//! Paths of files.

use crate::text;
use vstd::prelude::*;

verus! {

/// The path that leads from a directory to a file. An absolute path leads from
/// anywhere.
pub open spec fn below(directory: Seq<char>, path: Seq<char>) -> Seq<char> {
    if path.len() > 0 && path.first() == '/' {
        path
    } else if directory.len() == 0 || directory.last() == '/' {
        directory + path
    } else {
        directory + "/"@ + path
    }
}

/// The path that leads from a directory to a file.
pub fn join(directory: &str, path: &str) -> (r: String)
    ensures
        r@ == below(directory@, path@),
{
    let tail = text::chars_of(path);
    if tail.len() > 0 && tail[0] == '/' {
        return path.to_owned();
    }
    let chars = text::chars_of(directory);
    let n = chars.len();
    if n == 0 || chars[n - 1] == '/' {
        text::concat(directory, path)
    } else {
        text::concat(text::concat(directory, "/").as_str(), path)
    }
}

} // verus!
