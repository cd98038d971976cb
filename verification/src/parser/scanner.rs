use vstd::prelude::*;

use super::result::ScanResult;
use vstd::string::StringSliceAdditionalSpecFns;
use crate::utils::{chars_of, owned, string_of_chars, push_char};

verus! {

/// What a scanner holds, seen as mathematical values.
pub struct ScannerView {
    pub file_path: Seq<char>,
    pub chars: Seq<char>,
    pub cursor: int,
}

/// Start of the line that holds position `cursor`: one past the closest `'\n'` before it.
pub open spec fn line_start(chars: Seq<char>, cursor: int) -> int
    decreases cursor,
{
    if cursor <= 0 {
        0
    } else if chars[cursor - 1] == '\n' {
        cursor
    } else {
        line_start(chars, cursor - 1)
    }
}

/// End of the line that holds position `cursor`: the first `'\n'` or `'\r'` at or after it,
/// or the end of the text.
pub open spec fn line_end(chars: Seq<char>, cursor: int) -> int
    decreases chars.len() - cursor,
{
    if cursor >= chars.len() {
        chars.len() as int
    } else if chars[cursor] == '\n' || chars[cursor] == '\r' {
        cursor
    } else {
        line_end(chars, cursor + 1)
    }
}

/// Number of `'\n'` characters in `s`.
pub open spec fn count_newlines(s: Seq<char>) -> nat
    decreases s.len(),
{
    if s.len() == 0 {
        0
    } else {
        count_newlines(s.drop_last()) + if s.last() == '\n' { 1nat } else { 0nat }
    }
}

/// The view of a scanner after moving its cursor to `cursor`.
pub open spec fn at(v: ScannerView, cursor: int) -> ScannerView {
    ScannerView { file_path: v.file_path, chars: v.chars, cursor }
}

/// The character under the cursor, if any.
pub open spec fn peek_of(v: ScannerView) -> Option<char> {
    if 0 <= v.cursor < v.chars.len() {
        Some(v.chars[v.cursor])
    } else {
        None
    }
}

/// A text scanner: the characters of a source file and a cursor into them.
pub struct Scanner<'a> {
    file_path: String,
    content: &'a str,
    content_chars: Vec<char>,
    cursor: usize,
}

impl<'a> View for Scanner<'a> {
    type V = ScannerView;

    closed spec fn view(&self) -> ScannerView {
        ScannerView { file_path: self.file_path@, chars: self.content_chars@, cursor: self.cursor as int }
    }
}

impl<'a> Scanner<'a> {
    #[verifier::type_invariant]
    closed spec fn inv(self) -> bool {
        &&& self.cursor <= self.content_chars@.len()
        &&& self.content_chars@ == self.content@
    }

    pub fn new(content: &'a str, file_path: &str) -> (r: Self)
        ensures
            r@ == (ScannerView { file_path: file_path@, chars: content@, cursor: 0 }),
    {
        Scanner { file_path: owned(file_path), content, content_chars: chars_of(content), cursor: 0 }
    }

    pub fn file_path<'b>(&'b self) -> (r: &'b str)
        ensures
            r@ == self@.file_path,
    {
        self.file_path.as_str()
    }

    pub fn cursor(&self) -> (r: usize)
        ensures
            r == self@.cursor,
            self@.cursor <= self@.chars.len(),
            self@.chars.len() <= usize::MAX,
    {
        proof {
            use_type_invariant(self);
        }
        let _ = self.content_chars.len();
        self.cursor
    }

    /// Returns the line pointed to by the cursor
    pub fn get_context(&self, cursor: usize) -> (r: String)
        requires
            cursor <= self@.chars.len(),
        ensures
            r@ == self@.chars.subrange(
                line_start(self@.chars, cursor as int),
                line_end(self@.chars, cursor as int),
            ),
    {
        let n = self.content_chars.len();
        // Find the previous newline
        let mut start: usize = cursor;
        while start > 0 && self.content_chars[start - 1] != '\n'
            invariant
                start <= cursor <= n == self@.chars.len(),
                line_start(self@.chars, cursor as int) == line_start(self@.chars, start as int),
            decreases start,
        {
            start -= 1;
        }
        // Find the next newline or carriage return (as that comes before newline on windows)
        let mut end: usize = cursor;
        while end < n && self.content_chars[end] != '\n' && self.content_chars[end] != '\r'
            invariant
                cursor <= end <= n == self@.chars.len(),
                line_end(self@.chars, cursor as int) == line_end(self@.chars, end as int),
            decreases n - end,
        {
            end += 1;
        }
        proof {
            lemma_line_start_le(self@.chars, cursor as int);
            lemma_line_end_ge(self@.chars, cursor as int);
        }
        string_of_chars(&self.content_chars, start, end)
    }

    /// Column and row (both counted from 1) of position `cursor`.
    pub fn get_col_row(&self, cursor: usize) -> (r: (usize, usize))
        requires
            cursor <= self@.chars.len(),
            cursor < usize::MAX,
        ensures
            r.0 == cursor - line_start(self@.chars, cursor as int) + 1,
            r.0 >= 1,
            r.1 == count_newlines(self@.chars.take(cursor as int)) + 1,
    {
        let mut row: usize = 0;
        let mut col: usize = 0;
        let mut i: usize = 0;
        while i < cursor
            invariant
                i <= cursor <= self@.chars.len(),
                row == count_newlines(self@.chars.take(i as int)),
                row <= i,
                col <= i,
                col == i - line_start(self@.chars, i as int),
            decreases cursor - i,
        {
            proof {
                assert(self@.chars.take(i + 1).drop_last() =~= self@.chars.take(i as int));
                lemma_line_start_le(self@.chars, i as int);
            }
            if self.content_chars[i] == '\n' {
                row += 1;
                col = 0;
            } else {
                col += 1;
            }
            i += 1;
        }
        proof {
            lemma_line_start_le(self@.chars, cursor as int);
        }
        (col + 1, row + 1)
    }

    /// Moves the cursor back to `cursor`, as `try_take` does after an unrecognised attempt.
    pub(crate) fn rewind(&mut self, cursor: usize)
        requires
            cursor <= old(self)@.chars.len(),
        ensures
            final(self)@ == at(old(self)@, cursor as int),
    {
        proof {
            use_type_invariant(&*self);
        }
        self.cursor = cursor;
    }

    pub fn has_next(&self) -> (r: bool)
        ensures
            r == (self@.cursor < self@.chars.len()),
    {
        self.cursor < self.content_chars.len()
    }

    pub fn peek(&self) -> (r: Option<char>)
        ensures
            r == peek_of(self@),
    {
        if self.cursor < self.content_chars.len() {
            Some(self.content_chars[self.cursor])
        } else {
            None
        }
    }

    /// Moves the cursor forward by `count` characters, stopping at the end of the text.
    pub fn advance(&mut self, count: usize)
        ensures
            final(self)@ == at(
                old(self)@,
                if old(self)@.cursor + count >= old(self)@.chars.len() {
                    old(self)@.chars.len() as int
                } else {
                    old(self)@.cursor + count
                },
            ),
    {
        proof {
            use_type_invariant(&*self);
        }
        let n = self.content_chars.len();
        if count >= n - self.cursor {
            self.cursor = n;
        } else {
            self.cursor = self.cursor + count;
        }
    }

    /// Returns the next character if there is one, and advances the cursor
    pub fn pop(&mut self) -> (r: Option<char>)
        ensures
            r == peek_of(old(self)@),
            final(self)@ == at(
                old(self)@,
                if old(self)@.cursor < old(self)@.chars.len() {
                    old(self)@.cursor + 1
                } else {
                    old(self)@.chars.len() as int
                },
            ),
    {
        proof {
            use_type_invariant(&*self);
        }
        let ret = self.peek();
        self.advance(1);
        ret
    }

    /// If the next character matches the passed-in character, return true
    pub fn take(&mut self, c: char) -> (r: bool)
        ensures
            r == (peek_of(old(self)@) == Some(c)),
            final(self)@ == at(old(self)@, if r { old(self)@.cursor + 1 } else { old(self)@.cursor }),
    {
        proof {
            use_type_invariant(&*self);
        }
        if self.cursor < self.content_chars.len() && self.content_chars[self.cursor] == c {
            self.pop();
            true
        } else {
            false
        }
    }

    /// If the passed-in string matches, return true: the characters from the cursor on
    /// begin with those of `s`; the cursor then moves past them.
    pub fn take_str(&mut self, s: &str) -> (r: bool)
        ensures
            r == (old(self)@.cursor + s@.len() <= old(self)@.chars.len()
                && old(self)@.chars.subrange(old(self)@.cursor, old(self)@.cursor + s@.len()) == s@),
            final(self)@ == at(old(self)@, if r { old(self)@.cursor + s@.len() } else { old(self)@.cursor }),
    {
        proof {
            use_type_invariant(&*self);
        }
        let n = self.content_chars.len();
        let sc = chars_of(s);
        let k = sc.len();
        if k > n - self.cursor {
            return false;
        }
        let mut i: usize = 0;
        while i < k
            invariant
                i <= k == sc@.len(),
                self.cursor + k <= n == self.content_chars@.len(),
                sc@ == s@,
                forall|j: int| 0 <= j < i ==> self.content_chars@[self.cursor + j] == sc@[j],
            decreases k - i,
        {
            if self.content_chars[self.cursor + i] != sc[i] {
                proof {
                    let sub = self@.chars.subrange(self@.cursor, self@.cursor + k);
                    assert(sub[i as int] != s@[i as int]);
                }
                return false;
            }
            i += 1;
        }
        proof {
            assert(self@.chars.subrange(self@.cursor, self@.cursor + k) =~= s@);
        }
        self.advance(k);
        true
    }

    /// If the next character is one of `cs`, takes it and returns it, otherwise None
    pub fn take_of(&mut self, cs: &[char]) -> (r: Option<char>)
        ensures
            r == (match peek_of(old(self)@) {
                Some(p) => if cs@.contains(p) { Some(p) } else { None },
                None => None,
            }),
            final(self)@ == at(old(self)@, if r is Some { old(self)@.cursor + 1 } else { old(self)@.cursor }),
    {
        let mut i: usize = 0;
        while i < cs.len()
            invariant
                i <= cs@.len(),
                self@ == old(self)@,
                forall|j: int| 0 <= j < i ==> peek_of(self@) != Some(cs@[j]),
            decreases cs.len() - i,
        {
            if self.take(cs[i]) {
                return Some(cs[i]);
            }
            i += 1;
        }
        proof {
            if let Some(p) = peek_of(self@) {
                if cs@.contains(p) {
                    let j = choose|j: int| 0 <= j < cs@.len() && cs@[j] == p;
                    assert(peek_of(self@) != Some(cs@[j]));
                }
            }
        }
        None
    }

    /// If there is a character available and pred returns true, returns that character, advancing the cursor. Otherwise, returns None
    pub fn take_if(&mut self, pred: impl FnOnce(char) -> bool) -> (r: Option<char>)
        requires
            peek_of(old(self)@) matches Some(c) ==> pred.requires((c,)),
        ensures
            match r {
                Some(c) => peek_of(old(self)@) == Some(c) && pred.ensures((c,), true)
                    && final(self)@ == at(old(self)@, old(self)@.cursor + 1),
                None => final(self)@ == old(self)@ && (peek_of(old(self)@) matches Some(c)
                    ==> pred.ensures((c,), false)),
            },
    {
        proof {
            use_type_invariant(&*self);
        }
        if self.cursor < self.content_chars.len() && pred(self.content_chars[self.cursor]) {
            self.pop()
        } else {
            None
        }
    }

    /// Builds a string of every character `pred` returns true on, advancing the cursor, until the first time pred returns false or until the end of the available content
    pub fn take_until(&mut self, pred: impl Fn(char) -> bool) -> (r: String)
        requires
            forall|c: char| pred.requires((c,)),
        ensures
            old(self)@.cursor <= final(self)@.cursor <= old(self)@.chars.len(),
            final(self)@ == at(old(self)@, final(self)@.cursor),
            r@ == old(self)@.chars.subrange(old(self)@.cursor, final(self)@.cursor),
            forall|i: int|
                old(self)@.cursor <= i < final(self)@.cursor ==> pred.ensures(
                    (#[trigger] old(self)@.chars[i],),
                    true,
                ),
            final(self)@.cursor < old(self)@.chars.len() ==> pred.ensures(
                (old(self)@.chars[final(self)@.cursor],),
                false,
            ),
    {
        proof {
            use_type_invariant(&*self);
        }
        let mut sb = String::new();
        let start = self.cursor;
        loop
            invariant
                forall|c: char| pred.requires((c,)),
                old(self)@.cursor == start <= self@.cursor <= self@.chars.len(),
                self@ == at(old(self)@, self@.cursor),
                sb@ == old(self)@.chars.subrange(start as int, self@.cursor),
                forall|i: int| start <= i < self@.cursor ==> pred.ensures((#[trigger] old(self)@.chars[i],), true),
            ensures
                old(self)@.cursor == start <= self@.cursor <= self@.chars.len(),
                self@ == at(old(self)@, self@.cursor),
                sb@ == old(self)@.chars.subrange(start as int, self@.cursor),
                forall|i: int| start <= i < self@.cursor ==> pred.ensures((#[trigger] old(self)@.chars[i],), true),
                self@.cursor < self@.chars.len() ==> pred.ensures((old(self)@.chars[self@.cursor],), false),
            decreases self@.chars.len() - self@.cursor,
        {
            proof {
                use_type_invariant(&*self);
            }
            if self.cursor >= self.content_chars.len() {
                break;
            }
            let c = self.content_chars[self.cursor];
            if !pred(c) {
                break;
            }
            push_char(&mut sb, c);
            self.pop();
            proof {
                assert(sb@ =~= old(self)@.chars.subrange(start as int, self@.cursor));
            }
        }
        sb
    }

    /// Attempts to match with the given function, returning with the function return value, and not advancing the cursor in case of an Unrecognised
    pub fn try_take<R, E>(&mut self, f: impl FnOnce(&mut Self) -> ScanResult<R, E>) -> (r: ScanResult<R, E>)
        requires
            forall|s: &mut Self| f.requires((s,)),
            forall|s: &mut Self, res: ScanResult<R, E>| #[trigger] f.ensures((s,), res)
                ==> s@.cursor <= final(s)@.chars.len(),
        ensures
            exists|s: &mut Self| {
                &&& *s == *old(self)
                &&& #[trigger] f.ensures((s,), r)
                &&& final(self)@ == if r is Unrecognised { at(final(s)@, old(self)@.cursor) } else { final(s)@ }
            },
    {
        proof {
            use_type_invariant(&*self);
        }
        let cursor = self.cursor;
        match f(self) {
            ScanResult::Unrecognised => {
                proof {
                    use_type_invariant(&*self);
                }
                self.cursor = cursor;
                ScanResult::Unrecognised
            },
            r => r,
        }
    }

    /// The same scanner with its cursor moved to `cursor`.
    pub closed spec fn with_cursor(self, cursor: int) -> Self {
        Scanner { cursor: cursor as usize, ..self }
    }

    pub broadcast proof fn lemma_with_cursor(self, cursor: int)
        requires
            0 <= cursor <= usize::MAX,
        ensures
            #[trigger] self.with_cursor(cursor)@ == at(self@, cursor),
    {
    }

    /// An empty scanner, used to stand in while the real one is lent out.
    fn placeholder() -> (r: Self)
        ensures
            r@ == (ScannerView { file_path: Seq::empty(), chars: Seq::empty(), cursor: 0 }),
    {
        let content: &'a str = "";
        proof {
            reveal_strlit("");
        }
        let v: Vec<char> = Vec::new();
        proof {
            assert(v@ =~= content@);
        }
        Scanner { file_path: String::new(), content, content_chars: v, cursor: 0 }
    }

    /// `states` is a run of `f`: each call from `states[i]` recognised `rs[i]` and left `states[i + 1]`.
    pub open spec fn is_run<R, E, F: Fn(Self) -> (Self, ScanResult<R, E>)>(f: F, states: Seq<Self>, rs: Seq<R>) -> bool {
        &&& states.len() == rs.len() + 1
        &&& forall|i: int| 0 <= i < rs.len() ==> #[trigger] f.ensures(
            (states[i],),
            (states[i + 1], ScanResult::<R, E>::Valid(rs[i])),
        )
    }

    /// How a run of `f` from `last` ends: with the error `e`, leaving `end`; or unrecognised,
    /// with `end` back at the cursor of `last`.
    pub open spec fn run_ends<R, E, F: Fn(Self) -> (Self, ScanResult<R, E>)>(f: F, last: Self, err: Option<E>, end: Self) -> bool {
        match err {
            Some(e) => f.ensures((last,), (end, ScanResult::<R, E>::WithErr(e))),
            None => exists|after: Self| {
                &&& #[trigger] f.ensures((last,), (after, ScanResult::<R, E>::Unrecognised))
                &&& end == after.with_cursor(last@.cursor)
            },
        }
    }

    /// The first `k` alternatives of `f`, tried from `starts[j]`, were not recognised, each
    /// leaving `afters[j]`, which put back at `cursor` is `starts[j + 1]`.
    pub open spec fn all_rejected<R, E, F: Fn(Self, usize) -> (Self, ScanResult<R, E>)>(
        f: F,
        starts: Seq<Self>,
        afters: Seq<Self>,
        k: int,
        cursor: int,
    ) -> bool {
        &&& starts.len() == k + 1
        &&& afters.len() == k
        &&& forall|j: int| 0 <= j < k ==> {
            &&& #[trigger] f.ensures((starts[j], j as usize), (afters[j], ScanResult::<R, E>::Unrecognised))
            &&& starts[j + 1] == afters[j].with_cursor(cursor)
        }
    }

    /// Hands the scanner to `f`, which gives back the scanner it leaves and its result.
    fn hand_over<R, E>(&mut self, f: &impl Fn(Self) -> (Self, ScanResult<R, E>)) -> (r: ScanResult<R, E>)
        requires
            f.requires((*old(self),)),
        ensures
            f.ensures((*old(self),), (*final(self), r)),
    {
        let placeholder = Self::placeholder();
        let mut s = placeholder;
        std::mem::swap(self, &mut s);
        let (s2, r) = f(s);
        *self = s2;
        r
    }

    /// Repeats `f` from `s` until it fails; see `take_any`.
    fn run_any<R, E>(start: Self, f: &impl Fn(Self) -> (Self, ScanResult<R, E>)) -> (r: (Self, Vec<R>, Option<E>))
        requires
            forall|s: Self| f.requires((s,)),
            forall|s: Self, out: (Self, ScanResult<R, E>)| #[trigger] f.ensures((s,), out)
                ==> s@.cursor <= out.0@.chars.len(),
            forall|s: Self, out: (Self, ScanResult<R, E>)| #[trigger] f.ensures((s,), out) && out.1 is Valid
                ==> out.0@.cursor > s@.cursor && out.0@.chars.len() <= s@.chars.len(),
        ensures
            exists|states: Seq<Self>| {
                &&& #[trigger] Self::is_run(*f, states, r.1@)
                &&& states[0] == start
                &&& Self::run_ends(*f, states.last(), r.2, r.0)
            },
    {
        let ghost s0 = start;
        let mut s = start;
        let mut rs: Vec<R> = Vec::new();
        let mut err: Option<E> = None;
        let ghost mut states: Seq<Self> = seq![s];
        loop
            invariant_except_break
                states.last() == s,
                err is None,
            invariant
                forall|s: Self| f.requires((s,)),
                forall|s: Self, out: (Self, ScanResult<R, E>)| #[trigger] f.ensures((s,), out)
                    ==> s@.cursor <= out.0@.chars.len(),
                forall|s: Self, out: (Self, ScanResult<R, E>)| #[trigger] f.ensures((s,), out) && out.1 is Valid
                    ==> out.0@.cursor > s@.cursor && out.0@.chars.len() <= s@.chars.len(),
                Self::is_run(*f, states, rs@),
                states[0] == s0,
            ensures
                Self::run_ends(*f, states.last(), err, s),
            decreases s@.chars.len() - s@.cursor,
        {
            proof {
                use_type_invariant(&s);
            }
            let cursor = s.cursor;
            let ghost before = s;
            let res = s.hand_over(f);
            proof {
                use_type_invariant(&s);
            }
            match res {
                ScanResult::Valid(v) => {
                    let ghost old_rs = rs@;
                    let ghost old_states = states;
                    rs.push(v);
                    proof {
                        states = states.push(s);
                        assert forall|i: int| 0 <= i < rs@.len() implies #[trigger] f.ensures(
                            (states[i],),
                            (states[i + 1], ScanResult::<R, E>::Valid(rs@[i])),
                        ) by {
                            if i < old_rs.len() {
                                assert(rs@[i] == old_rs[i]);
                                assert(states[i] == old_states[i]);
                                assert(states[i + 1] == old_states[i + 1]);
                            } else {
                                assert(rs@[i] == v);
                                assert(states[i] == before);
                                assert(states[i + 1] == s);
                            }
                        }
                    }
                },
                ScanResult::WithErr(e) => {
                    err = Some(e);
                    break;
                },
                ScanResult::Unrecognised => {
                    let ghost after = s;
                    s.cursor = cursor;
                    proof {
                        assert(s == after.with_cursor(states.last()@.cursor));
                        assert(f.ensures((states.last(),), (after, ScanResult::<R, E>::Unrecognised)));
                    }
                    break;
                },
            }
        }
        proof {
            assert(Self::is_run(*f, states, rs@));
            assert(Self::run_ends(*f, states.last(), err, s));
            assert(states[0] == s0);
        }
        let out = (s, rs, err);
        proof {
            assert(Self::is_run(*f, states, out.1@));
        }
        out
    }

    /// Attempts to match with the given function any number of times, returning a list of all return values and an error if one occurred.
    /// Errors or Unrecognised cause this function to return.
    ///
    /// `f` takes the scanner and gives it back with its result. It must leave a text at least
    /// as long as the cursor it was given (so that the cursor can go back there), and whenever
    /// it recognises something it must move the cursor forward without lengthening the text
    /// (else the repetition need not end).
    pub fn take_any<R, E>(&mut self, f: impl Fn(Self) -> (Self, ScanResult<R, E>)) -> (r: (Vec<R>, Option<E>))
        requires
            forall|s: Self| f.requires((s,)),
            forall|s: Self, out: (Self, ScanResult<R, E>)| #[trigger] f.ensures((s,), out)
                ==> s@.cursor <= out.0@.chars.len(),
            forall|s: Self, out: (Self, ScanResult<R, E>)| #[trigger] f.ensures((s,), out) && out.1 is Valid
                ==> out.0@.cursor > s@.cursor && out.0@.chars.len() <= s@.chars.len(),
        ensures
            exists|states: Seq<Self>| {
                &&& #[trigger] Self::is_run(f, states, r.0@)
                &&& states[0] == *old(self)
                &&& Self::run_ends(f, states.last(), r.1, *final(self))
            },
    {
        let mut s = Self::placeholder();
        std::mem::swap(self, &mut s);
        let (s2, rs, err) = Self::run_any(s, &f);
        *self = s2;
        let out = (rs, err);
        proof {
            let states = choose|states: Seq<Self>| {
                &&& #[trigger] Self::is_run(f, states, out.0@)
                &&& states[0] == *old(self)
                &&& Self::run_ends(f, states.last(), out.1, *self)
            };
            assert(Self::is_run(f, states, out.0@));
        }
        out
    }

    /// Attempts to match with the given function at least once, returning a list of all return values on success,
    /// None if none matched, and provides an error if one occurred
    pub fn take_some<R, E>(&mut self, f: impl Fn(Self) -> (Self, ScanResult<R, E>)) -> (r: Option<(Vec<R>, Option<E>)>)
        requires
            forall|s: Self| f.requires((s,)),
            forall|s: Self, out: (Self, ScanResult<R, E>)| #[trigger] f.ensures((s,), out)
                ==> s@.cursor <= out.0@.chars.len(),
            forall|s: Self, out: (Self, ScanResult<R, E>)| #[trigger] f.ensures((s,), out) && out.1 is Valid
                ==> out.0@.cursor > s@.cursor && out.0@.chars.len() <= s@.chars.len(),
        ensures
            match r {
                None => {
                    ||| exists|after: Self| {
                        &&& #[trigger] f.ensures((*old(self),), (after, ScanResult::<R, E>::Unrecognised))
                        &&& *final(self) == after.with_cursor(old(self)@.cursor)
                    }
                    ||| exists|e: E| #[trigger] f.ensures((*old(self),), (*final(self), ScanResult::<R, E>::WithErr(e)))
                },
                Some((rs, err)) => rs@.len() > 0 && exists|states: Seq<Self>| {
                    &&& #[trigger] Self::is_run(f, states, rs@)
                    &&& states[0] == *old(self)
                    &&& Self::run_ends(f, states.last(), err, *final(self))
                },
            },
    {
        let (rs, e) = self.take_any(f);
        if rs.len() == 0 {
            None
        } else {
            Some((rs, e))
        }
    }

    /// Tries the alternatives `f(_, 0)`, `f(_, 1)`, ... `f(_, count - 1)` in turn, each from
    /// the starting position, returning the first Valid or WithErr value, returning Unrecognised if there are none
    #[verifier::spinoff_prover]
    #[verifier::rlimit(30)]
    pub fn take_choice<R, E>(&mut self, count: usize, f: impl Fn(Self, usize) -> (Self, ScanResult<R, E>)) -> (r: ScanResult<R, E>)
        requires
            forall|s: Self, j: usize| f.requires((s, j)),
            forall|s: Self, j: usize, out: (Self, ScanResult<R, E>)| #[trigger] f.ensures((s, j), out)
                ==> s@.cursor <= out.0@.chars.len(),
        ensures
            exists|k: int, starts: Seq<Self>, afters: Seq<Self>| {
                &&& 0 <= k <= count
                &&& #[trigger] Self::all_rejected(f, starts, afters, k, old(self)@.cursor)
                &&& starts[0] == *old(self)
                &&& if k == count {
                    r is Unrecognised && *final(self) == starts[k]
                } else {
                    !(r is Unrecognised) && f.ensures((starts[k], k as usize), (*final(self), r))
                }
            },
    {
        let ghost mut starts: Seq<Self> = seq![*self];
        let ghost mut afters: Seq<Self> = Seq::empty();
        let mut i: usize = 0;
        while i < count
            invariant
                forall|s: Self, j: usize| f.requires((s, j)),
                forall|s: Self, j: usize, out: (Self, ScanResult<R, E>)| #[trigger] f.ensures((s, j), out)
                    ==> s@.cursor <= out.0@.chars.len(),
                i <= count,
                Self::all_rejected(f, starts, afters, i as int, old(self)@.cursor),
                starts[0] == *old(self),
                starts.last() == *self,
                self@.cursor == old(self)@.cursor,
            decreases count - i,
        {
            proof {
                use_type_invariant(&*self);
            }
            let cursor = self.cursor;
            let ghost before = *self;
            let placeholder = Self::placeholder();
            let mut s = placeholder;
        std::mem::swap(self, &mut s);
            let (s2, res) = f(s, i);
            *self = s2;
            proof {
                use_type_invariant(&*self);
            }
            match res {
                ScanResult::Unrecognised => {
                    let ghost after = *self;
                    self.cursor = cursor;
                    proof {
                        let ghost old_starts = starts;
                        let ghost old_afters = afters;
                        starts = starts.push(*self);
                        afters = afters.push(after);
                        assert forall|j: int| 0 <= j < i + 1 implies {
                            &&& #[trigger] f.ensures((starts[j], j as usize), (afters[j], ScanResult::<R, E>::Unrecognised))
                            &&& starts[j + 1] == afters[j].with_cursor(old(self)@.cursor)
                        } by {
                            if j < i {
                                assert(starts[j] == old_starts[j]);
                                assert(afters[j] == old_afters[j]);
                                assert(starts[j + 1] == old_starts[j + 1]);
                            } else {
                                assert(starts[j] == before);
                            }
                        }
                    }
                },
                r => {
                    proof {
                        assert(f.ensures((starts[i as int], i), (*self, r)));
                        assert(starts[i as int] == before);
                        assert(Self::all_rejected(f, starts, afters, i as int, old(self)@.cursor));
                    }
                    return r;
                },
            }
            i += 1;
        }
        let r = ScanResult::Unrecognised;
        proof {
            assert(starts[count as int] == *self);
            assert(Self::all_rejected(f, starts, afters, count as int, old(self)@.cursor));
        }
        r
    }
}

proof fn lemma_line_start_le(chars: Seq<char>, cursor: int)
    requires
        0 <= cursor <= chars.len(),
    ensures
        0 <= line_start(chars, cursor) <= cursor,
    decreases cursor,
{
    if cursor > 0 && chars[cursor - 1] != '\n' {
        lemma_line_start_le(chars, cursor - 1);
    }
}

proof fn lemma_line_end_ge(chars: Seq<char>, cursor: int)
    requires
        0 <= cursor <= chars.len(),
    ensures
        cursor <= line_end(chars, cursor) <= chars.len(),
    decreases chars.len() - cursor,
{
    if cursor < chars.len() && chars[cursor] != '\n' && chars[cursor] != '\r' {
        lemma_line_end_ge(chars, cursor + 1);
    }
}

} // verus!
