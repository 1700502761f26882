//! Frame sources a capture reads from.

use vstd::prelude::*;

verus! {

/// A frame source that captures the primary monitor.
pub struct SnipFrameSource;

/// A frame source that loads an image file (for tests and debugging).
pub struct FileFrameSource {
    path: String,
}

impl FileFrameSource {
    /// A source reading the image at `path`.
    pub fn new(path: String) -> (r: Self)
        ensures
            r.path_view() == path@,
    {
        FileFrameSource { path }
    }

    /// Spec: the path read by this source.
    pub closed spec fn path_view(&self) -> Seq<char> {
        self.path@
    }

    /// The path read by this source.
    pub fn path(&self) -> (p: &str)
        ensures
            p@ == self.path_view(),
    {
        self.path.as_str()
    }
}

} // verus!
