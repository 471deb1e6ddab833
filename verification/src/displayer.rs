//! The terminal renderer's state. Rendering itself — colors, markdown,
//! the output stream — is I/O the caller performs; the type carries the
//! markdown switch and the line-buffering state that rendering threads
//! through.

use vstd::prelude::*;

verus! {

/// Tracks how answers are shown: whether markdown rendering is on, the
/// characters of the line being accumulated, and whether the renderer is
/// inside a fenced code block.
#[derive(Debug, Clone)]
pub struct Displayer {
    pub markdown: bool,
    pub buffer: String,
    pub codeblock: bool,
}

impl Displayer {
    /// A fresh renderer with an empty line buffer, outside any code block.
    pub fn new(markdown: bool) -> (d: Displayer)
        ensures
            d.markdown == markdown,
            d.buffer@ == Seq::<char>::empty(),
            d.codeblock == false,
    {
        Displayer { markdown, buffer: String::new(), codeblock: false }
    }
}

} // verus!
