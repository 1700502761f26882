//! File paths offered by the clipboard.

use vstd::prelude::*;

verus! {

/// File paths copied to the clipboard in a file manager. Only the Windows
/// shell clipboard format carries them; this build reads none.
pub fn read_clipboard_file_paths() -> (paths: Vec<String>)
    ensures
        paths@.len() == 0,
{
    Vec::new()
}

} // verus!
