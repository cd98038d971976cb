use vstd::prelude::*;
use vstd::string::StringSliceAdditionalSpecFns;

use crate::utils::{chars_of, push_char};

verus! {

/// What a scanner holds, seen as mathematical values.
pub struct ScannerView {
    /// The text, as characters.
    pub chars: Seq<char>,
    /// The text, as UTF-8 bytes.
    pub bytes: Seq<u8>,
    pub cursor: int,
}

/// The character under the cursor, if any (what `peek` looks at).
pub open spec fn peek_of(v: ScannerView) -> Option<char> {
    if 0 <= v.cursor < v.chars.len() {
        Some(v.chars[v.cursor])
    } else {
        None
    }
}

/// The view of a scanner after moving its cursor to `cursor`.
pub open spec fn moved(v: ScannerView, cursor: int) -> ScannerView {
    ScannerView { chars: v.chars, bytes: v.bytes, cursor }
}

/// The cursor after moving `count` characters on from `cursor`, stopping at the end of the text.
pub open spec fn advanced(v: ScannerView, count: int) -> ScannerView {
    moved(v, if v.cursor + count >= v.chars.len() { v.chars.len() as int } else { v.cursor + count })
}

/// A text scanner: the characters of a text and a cursor into them.
pub struct Scanner<'a> {
    content: &'a str,
    content_chars: Vec<char>,
    cursor: usize,
}

impl<'a> View for Scanner<'a> {
    type V = ScannerView;

    closed spec fn view(&self) -> ScannerView {
        ScannerView { chars: self.content_chars@, bytes: self.content.spec_bytes(), cursor: self.cursor as int }
    }
}

impl<'a> Scanner<'a> {
    #[verifier::type_invariant]
    closed spec fn inv(self) -> bool {
        &&& self.cursor <= self.content_chars@.len()
        &&& self.content_chars@ == self.content@
    }

    pub fn new(content: &'a str) -> (r: Self)
        ensures
            r@ == (ScannerView { chars: content@, bytes: content.spec_bytes(), cursor: 0 }),
    {
        Scanner { content, content_chars: chars_of(content), cursor: 0 }
    }

    pub fn cursor(&self) -> (r: usize)
        ensures
            r == self@.cursor,
            self@.cursor <= self@.chars.len(),
    {
        proof {
            use_type_invariant(self);
        }
        self.cursor
    }

    pub fn has_next(&self) -> (r: bool)
        ensures
            r == (self@.cursor < self@.chars.len()),
    {
        self.cursor < self.content_chars.len()
    }

    /// The character under the cursor, if any.
    pub fn peek(&self) -> (r: Option<char>)
        ensures
            r == peek_of(self@),
    {
        if self.cursor < self.content_chars.len() {
            Some(self.content_chars[self.cursor])
        } else {
            None
        }
    }

    /// Moves the cursor forward by `count` characters, stopping at the end of the text.
    pub fn advance(&mut self, count: usize)
        ensures
            final(self)@ == advanced(old(self)@, count as int),
    {
        proof {
            use_type_invariant(&*self);
        }
        let n = self.content_chars.len();
        if count >= n - self.cursor {
            self.cursor = n;
        } else {
            self.cursor = self.cursor + count;
        }
    }

    /// Returns the character under the cursor, if any, and advances the cursor by one.
    pub fn pop(&mut self) -> (r: Option<char>)
        ensures
            r == peek_of(old(self)@),
            final(self)@ == advanced(old(self)@, 1),
    {
        let ret = self.peek();
        self.advance(1);
        ret
    }

    /// If the character under the cursor is `c`, advances the cursor and returns true.
    pub fn take(&mut self, c: char) -> (r: bool)
        ensures
            r == (old(self)@.cursor < old(self)@.chars.len() && old(self)@.chars[old(self)@.cursor] == c),
            final(self)@ == if r { advanced(old(self)@, 1) } else { old(self)@ },
    {
        proof {
            use_type_invariant(&*self);
        }
        if self.cursor < self.content_chars.len() && self.content_chars[self.cursor] == c {
            self.pop();
            true
        } else {
            false
        }
    }

    /// If the characters from the cursor on begin with those of `s`, advances the cursor
    /// past them and returns true; otherwise returns false and leaves the cursor.
    pub fn take_str(&mut self, s: &str) -> (r: bool)
        ensures
            r == (old(self)@.cursor + s@.len() <= old(self)@.chars.len()
                && old(self)@.chars.subrange(old(self)@.cursor, old(self)@.cursor + s@.len()) == s@),
            final(self)@ == if r { advanced(old(self)@, s@.len() as int) } else { old(self)@ },
    {
        proof {
            use_type_invariant(&*self);
        }
        let t = chars_of(s);
        let k = t.len();
        let n = self.content_chars.len();
        if k > n - self.cursor {
            return false;
        }
        let mut i: usize = 0;
        while i < k
            invariant
                k == t@.len(),
                t@ == s@,
                n == self@.chars.len(),
                self.content_chars@ == self@.chars,
                self@ == old(self)@,
                self@.cursor + k <= n,
                i <= k,
                forall|j: int| 0 <= j < i ==> self@.chars[self@.cursor + j] == t@[j],
            decreases k - i,
        {
            if self.content_chars[self.cursor + i] != t[i] {
                proof {
                    assert(self@.chars.subrange(self@.cursor, self@.cursor + k)[i as int] != t@[i as int]);
                }
                return false;
            }
            i += 1;
        }
        proof {
            assert(self@.chars.subrange(self@.cursor, self@.cursor + k) =~= t@);
        }
        self.advance(k);
        true
    }

    /// If the next character is one of `cs`, advances the cursor and returns that
    /// character; otherwise returns None and leaves the cursor.
    pub fn take_of(&mut self, cs: &[char]) -> (r: Option<char>)
        ensures
            r == (match peek_of(old(self)@) {
                Some(l) => if cs@.contains(l) { Some(l) } else { None },
                None => None,
            }),
            final(self)@ == if r is Some { advanced(old(self)@, 1) } else { old(self)@ },
    {
        let mut i: usize = 0;
        while i < cs.len()
            invariant
                i <= cs@.len(),
                self@ == old(self)@,
                forall|j: int| 0 <= j < i ==> peek_of(self@) != Some(cs@[j]),
            decreases cs.len() - i,
        {
            let c = cs[i];
            let matched = match self.peek() {
                Some(n) => n == c,
                None => false,
            };
            if matched {
                self.pop();
                return Some(c);
            }
            i += 1;
        }
        proof {
            if let Some(l) = peek_of(self@) {
                if cs@.contains(l) {
                    let j = choose|j: int| 0 <= j < cs@.len() && cs@[j] == l;
                    assert(peek_of(self@) != Some(cs@[j]));
                }
            }
        }
        None
    }

    /// If there is a next character and `pred` holds of it, advances the cursor and returns
    /// that character. Otherwise, returns None.
    pub fn take_if(&mut self, pred: impl FnOnce(char) -> bool) -> (r: Option<char>)
        requires
            peek_of(old(self)@) matches Some(l) ==> pred.requires((l,)),
        ensures
            match r {
                Some(c) => peek_of(old(self)@) == Some(c) && pred.ensures((c,), true)
                    && final(self)@ == advanced(old(self)@, 1),
                None => final(self)@ == old(self)@ && (peek_of(old(self)@) matches Some(l)
                    ==> pred.ensures((l,), false)),
            },
    {
        proof {
            use_type_invariant(&*self);
        }
        if self.cursor < self.content_chars.len() && pred(self.content_chars[self.cursor]) {
            self.pop()
        } else {
            None
        }
    }

    /// Builds a string of the characters from the cursor on of which `pred` holds, advancing
    /// the cursor past them, until `pred` fails or the text ends.
    pub fn take_until(&mut self, pred: impl Fn(char) -> bool) -> (r: String)
        requires
            forall|c: char| pred.requires((c,)),
        ensures
            old(self)@.cursor <= final(self)@.cursor <= old(self)@.chars.len(),
            final(self)@ == moved(old(self)@, final(self)@.cursor),
            r@ == old(self)@.chars.subrange(old(self)@.cursor, final(self)@.cursor),
            forall|i: int| old(self)@.cursor <= i < final(self)@.cursor ==> pred.ensures((#[trigger] old(self)@.chars[i],), true),
            final(self)@.cursor < old(self)@.chars.len() ==> pred.ensures((old(self)@.chars[final(self)@.cursor],), false),
    {
        proof {
            use_type_invariant(&*self);
        }
        let mut sb = String::new();
        let start = self.cursor;
        loop
            invariant
                forall|c: char| pred.requires((c,)),
                start == old(self)@.cursor <= self@.cursor <= self@.chars.len(),
                self@ == moved(old(self)@, self@.cursor),
                forall|i: int| start <= i < self@.cursor ==> pred.ensures((#[trigger] old(self)@.chars[i],), true),
                sb@ == old(self)@.chars.subrange(start as int, self@.cursor),
            ensures
                start == old(self)@.cursor <= self@.cursor <= self@.chars.len(),
                self@ == moved(old(self)@, self@.cursor),
                forall|i: int| start <= i < self@.cursor ==> pred.ensures((#[trigger] old(self)@.chars[i],), true),
                sb@ == old(self)@.chars.subrange(start as int, self@.cursor),
                self@.cursor < self@.chars.len() ==> pred.ensures((old(self)@.chars[self@.cursor],), false),
            decreases self@.chars.len() - self@.cursor,
        {
            proof {
                use_type_invariant(&*self);
            }
            if self.cursor >= self.content_chars.len() {
                break;
            }
            let c = self.content_chars[self.cursor];
            if !pred(c) {
                break;
            }
            push_char(&mut sb, c);
            self.pop();
            proof {
                assert(sb@ =~= old(self)@.chars.subrange(start as int, self@.cursor));
            }
        }
        sb
    }
}

} // verus!
