//! Where finished text goes: pasted at the cursor, after the custom
//! parser had its say. The paste itself is the caller's work.

use vstd::prelude::*;

use crate::text::push_str;

verus! {

broadcast use vstd::string::group_string_axioms;

/// The paste output: remembers the last text it pasted.
#[derive(Debug)]
pub struct ClipboardPasteOutput {
    last_pasted: String,
}

impl View for ClipboardPasteOutput {
    type V = Seq<char>;

    closed spec fn view(&self) -> Seq<char> {
        self.last_pasted@
    }
}

impl ClipboardPasteOutput {
    /// An output that has pasted nothing yet.
    pub fn new() -> (r: ClipboardPasteOutput)
        ensures
            r@ == Seq::<char>::empty(),
    {
        ClipboardPasteOutput { last_pasted: String::new() }
    }

    /// The last text pasted.
    pub fn last_pasted(&self) -> (r: &str)
        ensures
            r@ == self@,
    {
        self.last_pasted.as_str()
    }

    /// The text to paste: what the parser made of the transcript, if it
    /// made anything, else the transcript itself.
    pub fn text_to_paste(parsed: Option<String>, transcript: &str) -> (r: String)
        ensures
            r@ == match parsed {
                Some(p) => p@,
                None => transcript@,
            },
    {
        match parsed {
            Some(p) => p,
            None => {
                let mut t = String::new();
                push_str(&mut t, transcript);
                t
            },
        }
    }

    /// Records a successful paste.
    pub fn record_pasted(&mut self, text: String)
        ensures
            final(self)@ == text@,
    {
        self.last_pasted = text;
    }
}

} // verus!
