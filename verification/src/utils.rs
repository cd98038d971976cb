use vstd::prelude::*;
use vstd::string::StringSliceAdditionalSpecFns;

verus! {

// ---------------------------------------------------------------------------
// Text helpers shared by the scanner, the parser and the error reports.
// ---------------------------------------------------------------------------

/// Appends one character to a string (std's `String::push`).
/// Trusted: the contract claims that the string afterwards holds its old
/// characters followed by `c`, as std documents.
#[verifier::external_body]
pub(crate) fn push_char(s: &mut String, c: char)
    ensures
        final(s)@ == old(s)@.push(c),
{
    s.push(c);
}

/// Whether `c` is a Unicode `White_Space` character (std's `char::is_whitespace`).
pub open spec fn is_white_space(c: char) -> bool {
    ||| ('\u{9}' <= c && c <= '\u{d}')
    ||| c == ' '
    ||| c == '\u{85}'
    ||| c == '\u{a0}'
    ||| c == '\u{1680}'
    ||| ('\u{2000}' <= c && c <= '\u{200a}')
    ||| c == '\u{2028}'
    ||| c == '\u{2029}'
    ||| c == '\u{202f}'
    ||| c == '\u{205f}'
    ||| c == '\u{3000}'
}

/// std's `char::is_whitespace`.
/// Trusted: the contract claims the result is membership in the Unicode
/// `White_Space` property, which std documents and which `is_white_space` lists.
#[verifier::external_body]
pub(crate) fn char_is_whitespace(c: char) -> (r: bool)
    ensures
        r == is_white_space(c),
{
    c.is_whitespace()
}

/// The characters of a string slice, in order.
pub fn chars_of(s: &str) -> (v: Vec<char>)
    ensures
        v@ == s@,
{
    let mut v: Vec<char> = Vec::new();
    for c in it: s.chars()
        invariant
            v@ == it.seq().take(it.index() as int),
    {
        v.push(c);
    }
    v
}

/// Builds a string from the characters `v[from..to]`.
pub fn string_of_chars(v: &Vec<char>, from: usize, to: usize) -> (s: String)
    requires
        from <= to <= v@.len(),
    ensures
        s@ == v@.subrange(from as int, to as int),
{
    let mut s = String::new();
    let mut i: usize = from;
    while i < to
        invariant
            from <= i <= to <= v@.len(),
            s@ == v@.subrange(from as int, i as int),
        decreases to - i,
    {
        push_char(&mut s, v[i]);
        i += 1;
    }
    s
}

/// A copy of a string slice as an owned string.
pub fn owned(s: &str) -> (r: String)
    ensures
        r@ == s@,
{
    s.to_owned()
}

/// Whether two strings hold the same characters.
pub fn same_text(a: &String, b: &String) -> (r: bool)
    ensures
        r == (a@ == b@),
{
    a.eq(b)
}

} // verus!

verus! {

/// Whether `c` has the Unicode `XID_Start` property.
pub uninterp spec fn xid_start(c: char) -> bool;

/// Whether `c` has the Unicode `XID_Continue` property.
pub uninterp spec fn xid_continue(c: char) -> bool;

pub open spec fn is_ascii_letter(c: char) -> bool {
    ('a' <= c && c <= 'z') || ('A' <= c && c <= 'Z')
}

pub open spec fn is_ascii_digit(c: char) -> bool {
    '0' <= c && c <= '9'
}

/// `unicode_xid`'s `UnicodeXID::is_xid_start`.
/// Trusted: the contract claims the result is the fixed property `xid_start` of `c`, and,
/// as the crate's source shows, that for ASCII characters it holds of the letters alone.
#[verifier::external_body]
pub(crate) fn is_xid_start(c: char) -> (r: bool)
    ensures
        r == xid_start(c),
        c <= '\u{7f}' ==> (r == is_ascii_letter(c)),
{
    unicode_xid::UnicodeXID::is_xid_start(c)
}

/// `unicode_xid`'s `UnicodeXID::is_xid_continue`.
/// Trusted: the contract claims the result is the fixed property `xid_continue` of `c`, and,
/// as the crate's source shows, that for ASCII characters it holds of letters, digits and `_`.
#[verifier::external_body]
pub(crate) fn is_xid_continue(c: char) -> (r: bool)
    ensures
        r == xid_continue(c),
        c <= '\u{7f}' ==> (r == (is_ascii_letter(c) || is_ascii_digit(c) || c == '_')),
{
    unicode_xid::UnicodeXID::is_xid_continue(c)
}

} // verus!

verus! {

/// The decimal digits of `v`, most significant first (`"0"` for zero).
pub open spec fn decimal(v: nat) -> Seq<char>
    decreases v,
{
    if v < 10 {
        seq![(v + 48) as char]
    } else {
        decimal(v / 10).push(((v % 10) + 48) as char)
    }
}

/// The decimal digits of `v`.
pub fn u128_to_decimal(v: u128) -> (s: String)
    ensures
        s@ == decimal(v as nat),
{
    let mut digits: Vec<char> = Vec::new();
    let mut n: u128 = v;
    loop
        invariant_except_break
            decimal(v as nat) == decimal(n as nat) + digits@.reverse(),
        ensures
            decimal(v as nat) == digits@.reverse(),
        decreases n,
    {
        let d = (n % 10) as u8;
        let ch = (d + 48) as char;
        let ghost old_digits = digits@;
        digits.push(ch);
        proof {
            assert(digits@.reverse() =~= seq![ch] + old_digits.reverse());
        }
        if n < 10 {
            proof {
                assert(decimal(n as nat) =~= seq![ch]);
            }
            break;
        }
        proof {
            assert(decimal(n as nat) == decimal((n / 10) as nat).push(ch));
            assert(decimal((n / 10) as nat).push(ch) + old_digits.reverse() =~= decimal((n / 10) as nat) + digits@.reverse());
        }
        n = n / 10;
    }
    let mut s = String::new();
    let mut i: usize = digits.len();
    proof {
        assert(digits@.skip(i as int).reverse() =~= Seq::<char>::empty());
    }
    while i > 0
        invariant
            i <= digits@.len(),
            s@ == digits@.skip(i as int).reverse(),
        decreases i,
    {
        i -= 1;
        push_char(&mut s, digits[i]);
        proof {
            assert(digits@.skip(i as int).reverse() =~= digits@.skip(i + 1).reverse().push(digits@[i as int]));
        }
    }
    proof {
        assert(digits@.skip(0) =~= digits@);
    }
    s
}

// ---------------------------------------------------------------------------
// Building text.
// ---------------------------------------------------------------------------

/// `n` spaces.
pub open spec fn spaces(n: nat) -> Seq<char> {
    Seq::new(n, |i: int| ' ')
}

/// `s`, `n` times over.
pub open spec fn repeat(s: Seq<char>, n: nat) -> Seq<char>
    decreases n,
{
    if n == 0 {
        Seq::empty()
    } else {
        repeat(s, (n - 1) as nat) + s
    }
}

/// How many times `c` occurs in `s`.
pub open spec fn count_char(s: Seq<char>, c: char) -> nat
    decreases s.len(),
{
    if s.len() == 0 {
        0
    } else {
        count_char(s.drop_last(), c) + if s.last() == c { 1nat } else { 0nat }
    }
}

/// `s` with each tab replaced by four spaces.
pub open spec fn expand_tabs(s: Seq<char>) -> Seq<char>
    decreases s.len(),
{
    if s.len() == 0 {
        Seq::empty()
    } else {
        expand_tabs(s.drop_last()) + if s.last() == '\t' { spaces(4) } else { seq![s.last()] }
    }
}

/// Appends `t` to `s`.
pub fn append(s: &mut String, t: &str)
    ensures
        final(s)@ == old(s)@ + t@,
{
    s.append(t);
}

/// Appends `n` copies of `c` to `s`.
pub fn push_repeated(s: &mut String, c: char, n: usize)
    ensures
        final(s)@ == old(s)@ + Seq::new(n as nat, |i: int| c),
{
    let ghost start = s@;
    let mut i: usize = 0;
    while i < n
        invariant
            i <= n,
            s@ == start + Seq::new(i as nat, |k: int| c),
        decreases n - i,
    {
        push_char(s, c);
        i += 1;
        proof {
            assert(s@ =~= start + Seq::new(i as nat, |k: int| c));
        }
    }
}

/// Appends `t`, `n` times over, to `s`.
pub fn push_repeat(s: &mut String, t: &str, n: usize)
    ensures
        final(s)@ == old(s)@ + repeat(t@, n as nat),
{
    let ghost start = s@;
    let mut i: usize = 0;
    proof {
        assert(start + repeat(t@, 0) =~= start);
    }
    while i < n
        invariant
            i <= n,
            s@ == start + repeat(t@, i as nat),
        decreases n - i,
    {
        s.append(t);
        i += 1;
        proof {
            assert(start + repeat(t@, i as nat) =~= start + repeat(t@, (i - 1) as nat) + t@);
        }
    }
}

/// How many times `c` occurs in `s`.
pub fn count_of(s: &String, c: char) -> (r: usize)
    ensures
        r == count_char(s@, c),
        r <= s@.len(),
{
    let v = chars_of(s.as_str());
    let mut n: usize = 0;
    let mut i: usize = 0;
    while i < v.len()
        invariant
            v@ == s@,
            i <= v@.len(),
            n == count_char(v@.take(i as int), c),
            n <= i,
        decreases v.len() - i,
    {
        proof {
            assert(v@.take(i + 1).drop_last() =~= v@.take(i as int));
        }
        if v[i] == c {
            n += 1;
        }
        i += 1;
    }
    proof {
        assert(v@.take(v@.len() as int) =~= v@);
    }
    n
}

/// `s` with each tab replaced by four spaces.
pub fn tabs_expanded(s: &String) -> (r: String)
    ensures
        r@ == expand_tabs(s@),
{
    let v = chars_of(s.as_str());
    let mut r = String::new();
    let mut i: usize = 0;
    while i < v.len()
        invariant
            v@ == s@,
            i <= v@.len(),
            r@ == expand_tabs(v@.take(i as int)),
        decreases v.len() - i,
    {
        proof {
            assert(v@.take(i + 1).drop_last() =~= v@.take(i as int));
        }
        if v[i] == '\t' {
            push_repeated(&mut r, ' ', 4);
            proof {
                assert(Seq::new(4, |k: int| ' ') =~= spaces(4));
            }
        } else {
            push_char(&mut r, v[i]);
            proof {
                assert(r@ =~= expand_tabs(v@.take(i as int)) + seq![v@[i as int]]);
            }
        }
        i += 1;
    }
    proof {
        assert(v@.take(v@.len() as int) =~= v@);
    }
    r
}

/// The decimal digits of `v`.
pub fn usize_to_decimal(v: usize) -> (s: String)
    ensures
        s@ == decimal(v as nat),
{
    u128_to_decimal(v as u128)
}

/// A string slice whose characters are all ASCII has as many bytes as characters.
pub proof fn lemma_ascii_len(s: &str)
    requires
        vstd::utf8::is_ascii_chars(s@),
    ensures
        s.spec_bytes().len() == s@.len(),
{
    broadcast use vstd::string::is_ascii_spec_bytes;
    assert(vstd::string::is_ascii(s));
}

/// Decimal digits are ASCII characters.
pub proof fn lemma_decimal_ascii(v: nat)
    ensures
        vstd::utf8::is_ascii_chars(decimal(v)),
    decreases v,
{
    if v >= 10 {
        lemma_decimal_ascii(v / 10);
        let d = decimal(v / 10);
        let c = ((v % 10) + 48) as char;
        assert forall|i: int| 0 <= i < d.push(c).len() implies '\0' <= #[trigger] d.push(c)[i] <= '\u{7f}' by {
            if i < d.len() {
                assert(d.push(c)[i] == d[i]);
            }
        }
    }
}

} // verus!

verus! {

// ---------------------------------------------------------------------------
// Small conveniences on std types.
// ---------------------------------------------------------------------------

/// Whether every character of `s` is whitespace (true of the empty string).
pub open spec fn all_white_space(s: Seq<char>) -> bool {
    forall|i: int| 0 <= i < s.len() ==> is_white_space(#[trigger] s[i])
}

/// Text that may be nothing but whitespace.
pub trait IsWhitespace {
    /// Whether the text is nothing but whitespace.
    spec fn spec_is_whitespace(&self) -> bool;

    fn is_whitespace(&self) -> (r: bool)
        ensures
            r == self.spec_is_whitespace(),
    ;
}

impl IsWhitespace for &str {
    open spec fn spec_is_whitespace(&self) -> bool {
        all_white_space(self@)
    }

    /// Whether the text is empty once leading and trailing whitespace is trimmed.
    fn is_whitespace(&self) -> (r: bool) {
        let chars = chars_of(*self);
        let mut i: usize = 0;
        while i < chars.len()
            invariant
                chars@ == self@,
                i <= chars@.len(),
                forall|j: int| 0 <= j < i ==> is_white_space(#[trigger] chars@[j]),
            decreases chars.len() - i,
        {
            if !char_is_whitespace(chars[i]) {
                return false;
            }
            i += 1;
        }
        true
    }
}

/// A counter that can be stepped on in place.
pub trait IncrementMut: Sized {
    /// Whether stepping on stays in range.
    spec fn can_increment(&self) -> bool;

    /// The value after one step.
    spec fn incremented(&self) -> Self;

    /// Steps the value on and returns the new value.
    fn increment(&mut self) -> (r: Self)
        requires
            old(self).can_increment(),
        ensures
            *final(self) == old(self).incremented(),
            r == old(self).incremented(),
    ;
}

impl IncrementMut for u64 {
    open spec fn can_increment(&self) -> bool {
        *self < u64::MAX
    }

    open spec fn incremented(&self) -> u64 {
        (*self + 1) as u64
    }

    fn increment(&mut self) -> (r: u64) {
        *self += 1;
        *self
    }
}

/// A truth value that can choose between two results.
pub trait IntoResult {
    /// The truth value.
    spec fn truth(&self) -> bool;

    /// `Ok(ok)` if true, `Err(err)` otherwise.
    fn into_result<R, E>(self, ok: R, err: E) -> (r: Result<R, E>)
        ensures
            r == if self.truth() { Ok::<R, E>(ok) } else { Err::<R, E>(err) },
    ;
}

impl IntoResult for bool {
    open spec fn truth(&self) -> bool {
        *self
    }

    fn into_result<R, E>(self, ok: R, err: E) -> (r: Result<R, E>) {
        match self {
            true => Ok(ok),
            false => Err(err),
        }
    }
}

/// Any value, to be wrapped in `Some`.
pub trait IntoOption: Sized {
    /// Wraps self in Some
    fn into_option(self) -> (r: Option<Self>)
        ensures
            r == Some(self),
    ;
}

impl<T> IntoOption for T {
    fn into_option(self) -> (r: Option<Self>) {
        Some(self)
    }
}

} // verus!
