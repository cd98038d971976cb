use vstd::prelude::*;

use crate::utils::{all_white_space, char_is_whitespace, chars_of};

verus! {

/// Text that may be nothing but whitespace.
pub trait IsWhitespace {
    /// Whether the text is nothing but whitespace.
    spec fn spec_is_whitespace(&self) -> bool;

    fn is_whitespace(&self) -> (r: bool)
        ensures
            r == self.spec_is_whitespace(),
    ;
}

impl IsWhitespace for &str {
    open spec fn spec_is_whitespace(&self) -> bool {
        all_white_space(self@)
    }

    /// Whether the text is empty once leading and trailing whitespace is trimmed.
    fn is_whitespace(&self) -> (r: bool) {
        let chars = chars_of(*self);
        let mut i: usize = 0;
        while i < chars.len()
            invariant
                chars@ == self@,
                i <= chars@.len(),
                forall|j: int| 0 <= j < i ==> crate::utils::is_white_space(#[trigger] chars@[j]),
            decreases chars.len() - i,
        {
            if !char_is_whitespace(chars[i]) {
                return false;
            }
            i += 1;
        }
        true
    }
}

} // verus!
