//! Small text builders shared by the renderers and error messages.

use vstd::prelude::*;

verus! {

/// The ASCII digit for `d` (`d < 10`).
pub open spec fn digit_char(d: nat) -> char {
    ((48 + d) as u8) as char
}

/// The decimal spelling of `n`, without sign or leading zeros.
pub open spec fn decimal(n: nat) -> Seq<char>
    decreases n,
{
    if n < 10 {
        seq![digit_char(n)]
    } else {
        decimal(n / 10).push(digit_char(n % 10))
    }
}

/// Appends one character to `s`.
#[verifier::external_body]
pub(crate) fn push_char(s: &mut String, c: char)
    ensures
        final(s)@ == old(s)@.push(c),
{
    s.push(c);
}

/// Appends `t` to `s`.
#[verifier::external_body]
pub(crate) fn push_str(s: &mut String, t: &str)
    ensures
        final(s)@ == old(s)@ + t@,
{
    s.push_str(t);
}

/// Appends the decimal spelling of `n` to `s`.
pub fn push_decimal(s: &mut String, n: u64)
    ensures
        final(s)@ == old(s)@ + decimal(n as nat),
    decreases n,
{
    if n >= 10 {
        push_decimal(s, n / 10);
    }
    let d: u8 = (n % 10) as u8;
    push_char(s, (48u8 + d) as char);
}

} // verus!

verus! {

/// The characters of `s`, in order.
pub fn chars_of(s: &str) -> (v: Vec<char>)
    ensures
        v@ == s@,
{
    let mut v: Vec<char> = Vec::new();
    for c in it: s.chars()
        invariant
            v@ == it.seq().take(it.index() as int),
            it.seq() == s@,
    {
        v.push(c);
    }
    v
}

/// A `String` holding exactly `cs`.
pub fn string_of(cs: &[char]) -> (s: String)
    ensures
        s@ == cs@,
{
    let mut s = String::new();
    let mut i: usize = 0;
    while i < cs.len()
        invariant
            i <= cs@.len(),
            s@ == cs@.take(i as int),
        decreases cs@.len() - i,
    {
        push_char(&mut s, cs[i]);
        i += 1;
        assert(s@ == cs@.take(i as int));
    }
    s
}

} // verus!

verus! {

/// What `format!("{:?}", s)` renders for a string slice `s`: the text in
/// double quotes with quotes, backslashes, control and non-printable
/// characters escaped.
pub uninterp spec fn debug_str(s: Seq<char>) -> Seq<char>;

/// `<str as Debug>::fmt`, rendered through `format!`.
#[verifier::external_body]
pub(crate) fn str_debug(s: &str) -> (r: String)
    ensures
        r@ == debug_str(s@),
{
    format!("{:?}", s)
}

} // verus!

verus! {

/// Unicode `White_Space`, as `char::is_whitespace` decides it.
pub open spec fn is_whitespace(c: char) -> bool {
    ('\t' <= c && c <= '\r') || c == ' ' || c == '\u{85}' || c == '\u{A0}' || c == '\u{1680}'
        || ('\u{2000}' <= c && c <= '\u{200A}') || c == '\u{2028}' || c == '\u{2029}' || c
        == '\u{202F}' || c == '\u{205F}' || c == '\u{3000}'
}

/// `char::is_whitespace`.
pub fn char_is_whitespace(c: char) -> (b: bool)
    ensures
        b == is_whitespace(c),
{
    ('\t' <= c && c <= '\r') || c == ' ' || c == '\u{85}' || c == '\u{A0}' || c == '\u{1680}'
        || ('\u{2000}' <= c && c <= '\u{200A}') || c == '\u{2028}' || c == '\u{2029}' || c
        == '\u{202F}' || c == '\u{205F}' || c == '\u{3000}'
}

/// `s` without its leading whitespace.
pub open spec fn trim_start(s: Seq<char>) -> Seq<char>
    decreases s.len(),
{
    if s.len() > 0 && is_whitespace(s[0]) {
        trim_start(s.drop_first())
    } else {
        s
    }
}

/// `s` without its trailing whitespace.
pub open spec fn trim_end(s: Seq<char>) -> Seq<char>
    decreases s.len(),
{
    if s.len() > 0 && is_whitespace(s.last()) {
        trim_end(s.drop_last())
    } else {
        s
    }
}

/// `s` without leading and trailing whitespace, as `str::trim` gives it.
pub open spec fn trim(s: Seq<char>) -> Seq<char> {
    trim_end(trim_start(s))
}

/// The position of the first `c` in `s`.
pub open spec fn first_index_of(s: Seq<char>, c: char) -> Option<nat>
    decreases s.len(),
{
    if s.len() == 0 {
        None
    } else if s[0] == c {
        Some(0)
    } else {
        match first_index_of(s.drop_first(), c) {
            Some(i) => Some(i + 1),
            None => None,
        }
    }
}

pub proof fn lemma_first_index_of(s: Seq<char>, c: char)
    ensures
        first_index_of(s, c) matches Some(i) ==> i < s.len() && s[i as int] == c && forall|
            j: int,
        |
            0 <= j < i ==> s[j] != c,
        first_index_of(s, c) is None ==> forall|j: int| 0 <= j < s.len() ==> s[j] != c,
    decreases s.len(),
{
    if s.len() > 0 {
        lemma_first_index_of(s.drop_first(), c);
        if s[0] != c {
            assert forall|j: int| 1 <= j < s.len() implies s[j] == s.drop_first()[j - 1] by {}
        }
    }
}

/// The position of the first `c` in `s`, if any.
pub fn find_char(s: &[char], c: char) -> (r: Option<usize>)
    ensures
        r matches Some(i) ==> first_index_of(s@, c) == Some(i as nat),
        r is None ==> first_index_of(s@, c) is None,
{
    let mut i: usize = 0;
    while i < s.len()
        invariant
            i <= s@.len(),
            forall|j: int| 0 <= j < i ==> s@[j] != c,
        decreases s@.len() - i,
    {
        if s[i] == c {
            proof {
                lemma_first_index_of(s@, c);
                if first_index_of(s@, c) != Some(i as nat) {
                    match first_index_of(s@, c) {
                        Some(k) => {
                            assert(s@[k as int] == c);
                        },
                        None => {
                            assert(s@[i as int] == c);
                        },
                    }
                }
            }
            return Some(i);
        }
        i += 1;
    }
    proof {
        lemma_first_index_of(s@, c);
        if let Some(k) = first_index_of(s@, c) {
            assert(s@[k as int] == c);
        }
    }
    None
}

pub proof fn lemma_trim_start_skip(s: Seq<char>, i: int)
    requires
        0 <= i <= s.len(),
        forall|j: int| 0 <= j < i ==> is_whitespace(s[j]),
    ensures
        trim_start(s) == trim_start(s.skip(i)),
    decreases i,
{
    if i > 0 {
        assert(s.drop_first().skip(i - 1) =~= s.skip(i));
        lemma_trim_start_skip(s.drop_first(), i - 1);
    } else {
        assert(s.skip(0) =~= s);
    }
}

proof fn lemma_trim_end_take(s: Seq<char>, i: int)
    requires
        0 <= i <= s.len(),
        forall|j: int| i <= j < s.len() ==> is_whitespace(s[j]),
    ensures
        trim_end(s) == trim_end(s.take(i)),
    decreases s.len() - i,
{
    if i < s.len() {
        assert(s.drop_last().take(i) =~= s.take(i));
        lemma_trim_end_take(s.drop_last(), i);
    } else {
        assert(s.take(i) =~= s);
    }
}

/// `s` without leading and trailing whitespace.
pub fn trim_chars(s: &[char]) -> (r: &[char])
    ensures
        r@ == trim(s@),
{
    let n = s.len();
    let mut start: usize = 0;
    while start < n && char_is_whitespace(s[start])
        invariant
            start <= n,
            n == s@.len(),
            forall|j: int| 0 <= j < start ==> is_whitespace(s@[j]),
        decreases n - start,
    {
        start += 1;
    }
    proof {
        lemma_trim_start_skip(s@, start as int);
        let t = s@.skip(start as int);
        if t.len() > 0 {
            assert(!is_whitespace(t[0]));
        }
        assert(trim_start(t) == t);
    }
    let mut end: usize = n;
    while end > start && char_is_whitespace(s[end - 1])
        invariant
            start <= end <= n,
            n == s@.len(),
            forall|j: int| end <= j < n ==> is_whitespace(s@[j]),
        decreases end,
    {
        end -= 1;
    }
    let r = vstd::slice::slice_subrange(s, start, end);
    proof {
        let t = s@.skip(start as int);
        let k = (end - start) as int;
        assert forall|j: int| k <= j < t.len() implies is_whitespace(t[j]) by {
            assert(t[j] == s@[j + start]);
        }
        lemma_trim_end_take(t, k);
        assert(t.take(k) =~= r@);
        if r@.len() > 0 {
            assert(r@.last() == s@[end - 1]);
        }
        assert(trim_end(r@) == r@);
    }
    r
}

/// Whether `a` and `b` hold the same characters.
pub fn chars_eq(a: &[char], b: &[char]) -> (r: bool)
    ensures
        r == (a@ == b@),
{
    if a.len() != b.len() {
        return false;
    }
    let mut i: usize = 0;
    while i < a.len()
        invariant
            i <= a@.len(),
            a@.len() == b@.len(),
            forall|j: int| 0 <= j < i ==> a@[j] == b@[j],
        decreases a@.len() - i,
    {
        if a[i] != b[i] {
            return false;
        }
        i += 1;
    }
    assert(a@ =~= b@);
    true
}

} // verus!

verus! {

/// Dropping one leading whitespace character does not change what
/// `trim_start` leaves.
proof fn lemma_trim_start_prepend(c: char, t: Seq<char>)
    requires
        is_whitespace(c),
    ensures
        trim_start(seq![c] + t) == trim_start(t),
{
    assert((seq![c] + t)[0] == c);
    assert((seq![c] + t).drop_first() =~= t);
}

/// One more trailing whitespace character survives `trim_start` only
/// after something that is not whitespace.
proof fn lemma_trim_start_append(t: Seq<char>, c: char)
    requires
        is_whitespace(c),
    ensures
        trim_start(t.push(c)) == (if trim_start(t).len() == 0 {
            Seq::<char>::empty()
        } else {
            trim_start(t).push(c)
        }),
    decreases t.len(),
{
    if t.len() == 0 {
        assert(t.push(c) =~= seq![c]);
        assert(seq![c].drop_first() =~= Seq::<char>::empty());
        assert(seq![c][0] == c);
        assert(trim_start(Seq::<char>::empty()) == Seq::<char>::empty());
        assert(trim_start(seq![c]) == trim_start(Seq::<char>::empty()));
    } else {
        assert(t.push(c)[0] == t[0]);
        assert(t.push(c).drop_first() =~= t.drop_first().push(c));
        if is_whitespace(t[0]) {
            lemma_trim_start_append(t.drop_first(), c);
        }
    }
}

/// Trailing whitespace does not change what `trim_end` leaves.
proof fn lemma_trim_end_append(u: Seq<char>, c: char)
    requires
        is_whitespace(c),
    ensures
        trim_end(u.push(c)) == trim_end(u),
{
    assert(u.push(c).drop_last() =~= u);
    assert(u.push(c).last() == c);
}

/// `trim` strips the ASCII blanks `str::trim` strips (space, tab, line
/// feed, vertical tab, form feed, carriage return) from either end: a
/// text with one of them added before and after, or on one side, trims to
/// what the text itself trims to.
pub proof fn lemma_trim_strips_ascii_blanks(c: char, s: Seq<char>)
    requires
        c == ' ' || c == '\t' || c == '\n' || c == '\u{0B}' || c == '\u{0C}' || c == '\r',
    ensures
        is_whitespace(c),
        trim(seq![c] + s) == trim(s),
        trim(s.push(c)) == trim(s),
        trim(seq![c] + s + seq![c]) == trim(s),
{
    lemma_trim_start_prepend(c, s);
    lemma_trim_start_append(s, c);
    if trim_start(s).len() > 0 {
        lemma_trim_end_append(trim_start(s), c);
    }
    let t = seq![c] + s;
    lemma_trim_start_append(t, c);
    assert(seq![c] + s + seq![c] =~= t.push(c));
    if trim_start(t).len() > 0 {
        lemma_trim_end_append(trim_start(t), c);
    }
}

} // verus!
