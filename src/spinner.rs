//! The frames of a text spinner, shown while a download of unknown length
//! runs.
use vstd::prelude::*;

verus! {

/// The frames used when none are given.
pub open spec fn default_frames() -> Seq<char> {
    seq!['-', '\\', '|', '/']
}

/// The characters a spinner cycles through.
pub struct Spinner {
    chars: Vec<char>,
}

impl Spinner {
    /// The frames, in order.
    pub closed spec fn frames(&self) -> Seq<char> {
        self.chars@
    }

    /// A spinner over `chars`, or over `-`, `\`, `|`, `/` when none are given.
    pub fn new(chars: Option<Vec<char>>) -> (r: Self)
        ensures
            r.frames() == match chars {
                Some(c) => c@,
                None => default_frames(),
            },
    {
        match chars {
            Some(ch) => Spinner { chars: ch },
            None => {
                let chars = vec!['-', '\\', '|', '/'];
                assert(chars@ =~= default_frames());
                Spinner { chars }
            },
        }
    }

    /// The frame shown at step `tick`: the frames repeat in order; `None`
    /// when there are none.
    pub fn frame(&self, tick: usize) -> (r: Option<char>)
        ensures
            self.frames().len() == 0 ==> r is None,
            self.frames().len() > 0 ==> r == Some(self.frames()[tick as int % self.frames().len() as int]),
    {
        let n = self.chars.len();
        if n == 0 {
            None
        } else {
            Some(self.chars[tick % n])
        }
    }
}

} // verus!
