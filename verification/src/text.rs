//! Character-level vocabulary shared by every parser of the library.
//!
//! Texts are handled as their sequence of `char`s: the spec functions here
//! state, over `Seq<char>`, what the usual string operations (`lines`,
//! `trim`, `split_once`, `strip_prefix`, ...) compute, and the executable
//! functions compute exactly that on `&[char]`.
use vstd::prelude::*;
use vstd::string::*;

verus! {

// ---------------------------------------------------------------------------
// Character classes
// ---------------------------------------------------------------------------

pub open spec fn is_ascii_digit(c: char) -> bool {
    '0' <= c && c <= '9'
}

pub open spec fn is_ascii_lower(c: char) -> bool {
    'a' <= c && c <= 'z'
}

pub open spec fn is_ascii_upper(c: char) -> bool {
    'A' <= c && c <= 'Z'
}

pub open spec fn is_ascii_alnum(c: char) -> bool {
    is_ascii_digit(c) || is_ascii_lower(c) || is_ascii_upper(c)
}

/// Unicode `White_Space`, the class that `char::is_whitespace` (and so
/// `str::trim`) uses.
pub open spec fn is_whitespace(c: char) -> bool {
    ||| '\t' <= c && c <= '\r'
    ||| c == ' '
    ||| c == '\u{85}'
    ||| c == '\u{A0}'
    ||| c == '\u{1680}'
    ||| '\u{2000}' <= c && c <= '\u{200A}'
    ||| c == '\u{2028}'
    ||| c == '\u{2029}'
    ||| c == '\u{202F}'
    ||| c == '\u{205F}'
    ||| c == '\u{3000}'
}

pub fn ascii_digit(c: char) -> (b: bool)
    ensures
        b == is_ascii_digit(c),
{
    '0' <= c && c <= '9'
}

pub fn ascii_lower(c: char) -> (b: bool)
    ensures
        b == is_ascii_lower(c),
{
    'a' <= c && c <= 'z'
}

pub fn ascii_alnum(c: char) -> (b: bool)
    ensures
        b == is_ascii_alnum(c),
{
    ('0' <= c && c <= '9') || ('a' <= c && c <= 'z') || ('A' <= c && c <= 'Z')
}

pub fn whitespace(c: char) -> (b: bool)
    ensures
        b == is_whitespace(c),
{
    ('\t' <= c && c <= '\r') || c == ' ' || c == '\u{85}' || c == '\u{A0}' || c == '\u{1680}'
        || ('\u{2000}' <= c && c <= '\u{200A}') || c == '\u{2028}' || c == '\u{2029}' || c
        == '\u{202F}' || c == '\u{205F}' || c == '\u{3000}'
}

/// Every character of `s` satisfies `p`.
pub open spec fn all_chars(s: Seq<char>, p: spec_fn(char) -> bool) -> bool {
    forall|i: int| 0 <= i < s.len() ==> #[trigger] p(s[i])
}

/// The ASCII upper-case letter for an ASCII lower-case one, else `c` itself.
pub open spec fn upper_char(c: char) -> char {
    if is_ascii_lower(c) {
        ((c as u32) - 32) as char
    } else {
        c
    }
}

/// `s` with every ASCII lower-case letter made upper-case.
pub open spec fn ascii_upper(s: Seq<char>) -> Seq<char> {
    Seq::new(s.len(), |i: int| upper_char(s[i]))
}

// ---------------------------------------------------------------------------
// Searching
// ---------------------------------------------------------------------------

/// `i` is the first position of `x` in `s`.
pub open spec fn is_first<A>(s: Seq<A>, x: A, i: int) -> bool {
    &&& 0 <= i < s.len()
    &&& s[i] == x
    &&& forall|j: int| 0 <= j < i ==> s[j] != x
}

/// `i` is the last position of `x` in `s`.
pub open spec fn is_last<A>(s: Seq<A>, x: A, i: int) -> bool {
    &&& 0 <= i < s.len()
    &&& s[i] == x
    &&& forall|j: int| i < j < s.len() ==> s[j] != x
}

/// The first position of `x` in `s`, if `x` occurs.
pub open spec fn first_index<A>(s: Seq<A>, x: A) -> Option<int> {
    if exists|i: int| is_first(s, x, i) {
        Some(choose|i: int| is_first(s, x, i))
    } else {
        None
    }
}

/// The last position of `x` in `s`, if `x` occurs.
pub open spec fn last_index<A>(s: Seq<A>, x: A) -> Option<int> {
    if exists|i: int| is_last(s, x, i) {
        Some(choose|i: int| is_last(s, x, i))
    } else {
        None
    }
}

/// A first position, when there is one, is the one `first_index` gives;
/// when none is found, `x` does not occur.
pub proof fn lemma_first_index<A>(s: Seq<A>, x: A, i: int)
    requires
        is_first(s, x, i),
    ensures
        first_index(s, x) == Some(i),
{
    let k = choose|k: int| is_first(s, x, k);
    assert(is_first(s, x, k));
    if k < i {
        assert(s[k] != x);
    } else if i < k {
        assert(s[i] != x);
    }
}

pub proof fn lemma_last_index<A>(s: Seq<A>, x: A, i: int)
    requires
        is_last(s, x, i),
    ensures
        last_index(s, x) == Some(i),
{
    let k = choose|k: int| is_last(s, x, k);
    assert(is_last(s, x, k));
    if k < i {
        assert(s[i] != x);
    } else if i < k {
        assert(s[k] != x);
    }
}

pub proof fn lemma_no_first_index<A>(s: Seq<A>, x: A)
    requires
        forall|j: int| 0 <= j < s.len() ==> s[j] != x,
    ensures
        first_index(s, x) is None,
        last_index(s, x) is None,
{
}

/// Where `x` occurs, it has a first position.
pub proof fn lemma_contains_has_first<A>(s: Seq<A>, x: A, i: int)
    requires
        0 <= i < s.len(),
        s[i] == x,
    ensures
        first_index(s, x) is Some,
    decreases i,
{
    if exists|j: int| 0 <= j < i && s[j] == x {
        let j = choose|j: int| 0 <= j < i && s[j] == x;
        lemma_contains_has_first(s, x, j);
    } else {
        lemma_first_index(s, x, i);
    }
}

/// The first position of `c` in `s[start..]`, counted from the start of `s`.
pub fn find_char_from(s: &[char], c: char, start: usize) -> (r: Option<usize>)
    requires
        start <= s@.len(),
    ensures
        match r {
            Some(i) => is_first(s@.skip(start as int), c, i - start) && start <= i,
            None => forall|j: int| start <= j < s@.len() ==> s@[j] != c,
        },
        r matches Some(i) ==> first_index(s@.skip(start as int), c) == Some(i - start),
        r is None ==> first_index(s@.skip(start as int), c) is None,
{
    let mut i = start;
    while i < s.len()
        invariant
            start <= i <= s@.len(),
            forall|j: int| start <= j < i ==> s@[j] != c,
        decreases s.len() - i,
    {
        if s[i] == c {
            proof {
                lemma_first_index(s@.skip(start as int), c, i - start);
            }
            return Some(i);
        }
        i = i + 1;
    }
    proof {
        lemma_no_first_index(s@.skip(start as int), c);
    }
    None
}

/// The first position of `c` in `s`.
pub fn find_char(s: &[char], c: char) -> (r: Option<usize>)
    ensures
        r matches Some(i) ==> first_index(s@, c) == Some(i as int),
        r matches Some(i) ==> is_first(s@, c, i as int),
        r is None ==> first_index(s@, c) is None,
        r is None ==> !s@.contains(c),
{
    let r = find_char_from(s, c, 0);
    assert(s@.skip(0) =~= s@);
    r
}

// ---------------------------------------------------------------------------
// Pieces of a text
// ---------------------------------------------------------------------------

/// `s[from..to]` as a new vector.
pub fn slice_chars(s: &[char], from: usize, to: usize) -> (v: Vec<char>)
    requires
        from <= to <= s@.len(),
    ensures
        v@ == s@.subrange(from as int, to as int),
{
    let mut v: Vec<char> = Vec::new();
    let mut i = from;
    while i < to
        invariant
            from <= i <= to <= s@.len(),
            v@ == s@.subrange(from as int, i as int),
        decreases to - i,
    {
        v.push(s[i]);
        i = i + 1;
    }
    v
}

/// A copy of `s`.
pub fn copy_chars(s: &[char]) -> (v: Vec<char>)
    ensures
        v@ == s@,
{
    let v = slice_chars(s, 0, s.len());
    assert(s@.subrange(0, s@.len() as int) =~= s@);
    v
}

/// `a` followed by `b`.
pub fn concat_chars(a: &[char], b: &[char]) -> (v: Vec<char>)
    ensures
        v@ == a@ + b@,
{
    let mut v = copy_chars(a);
    let mut i: usize = 0;
    while i < b.len()
        invariant
            i <= b@.len(),
            v@ == a@ + b@.subrange(0, i as int),
        decreases b.len() - i,
    {
        v.push(b[i]);
        i = i + 1;
    }
    assert(b@.subrange(0, b@.len() as int) =~= b@);
    v
}

/// Appends `b` to `v`.
pub fn append_chars(v: &mut Vec<char>, b: &[char])
    ensures
        final(v)@ == old(v)@ + b@,
{
    let mut i: usize = 0;
    while i < b.len()
        invariant
            i <= b@.len(),
            v@ == old(v)@ + b@.subrange(0, i as int),
        decreases b.len() - i,
    {
        v.push(b[i]);
        i = i + 1;
    }
    assert(b@.subrange(0, b@.len() as int) =~= b@);
}

/// Both texts hold the same characters.
pub fn chars_eq(a: &[char], b: &[char]) -> (r: bool)
    ensures
        r == (a@ == b@),
{
    if a.len() != b.len() {
        return false;
    }
    let mut i: usize = 0;
    while i < a.len()
        invariant
            a@.len() == b@.len(),
            i <= a@.len(),
            forall|j: int| 0 <= j < i ==> a@[j] == b@[j],
        decreases a.len() - i,
    {
        if a[i] != b[i] {
            return false;
        }
        i = i + 1;
    }
    assert(a@ =~= b@);
    true
}

/// `s` begins with `p`.
pub open spec fn starts_with(s: Seq<char>, p: Seq<char>) -> bool {
    p.len() <= s.len() && s.subrange(0, p.len() as int) == p
}

/// `s` ends with `p`.
pub open spec fn ends_with(s: Seq<char>, p: Seq<char>) -> bool {
    p.len() <= s.len() && s.subrange(s.len() - p.len(), s.len() as int) == p
}

/// What `str::strip_prefix` gives.
pub open spec fn strip_prefix(s: Seq<char>, p: Seq<char>) -> Option<Seq<char>> {
    if starts_with(s, p) {
        Some(s.skip(p.len() as int))
    } else {
        None
    }
}

/// What `str::strip_suffix` gives.
pub open spec fn strip_suffix(s: Seq<char>, p: Seq<char>) -> Option<Seq<char>> {
    if ends_with(s, p) {
        Some(s.take(s.len() - p.len()))
    } else {
        None
    }
}

pub fn has_prefix(s: &[char], p: &[char]) -> (r: bool)
    ensures
        r == starts_with(s@, p@),
{
    if p.len() > s.len() {
        return false;
    }
    let mut i: usize = 0;
    while i < p.len()
        invariant
            p@.len() <= s@.len(),
            i <= p@.len(),
            forall|j: int| 0 <= j < i ==> s@[j] == p@[j],
        decreases p.len() - i,
    {
        if s[i] != p[i] {
            assert(s@.subrange(0, p@.len() as int)[i as int] != p@[i as int]);
            return false;
        }
        i = i + 1;
    }
    assert(s@.subrange(0, p@.len() as int) =~= p@);
    true
}

pub fn has_suffix(s: &[char], p: &[char]) -> (r: bool)
    ensures
        r == ends_with(s@, p@),
{
    if p.len() > s.len() {
        return false;
    }
    let n = s.len();
    let off = n - p.len();
    let mut i: usize = 0;
    while i < p.len()
        invariant
            p@.len() <= s@.len(),
            off == s@.len() - p@.len(),
            off + p@.len() == s@.len(),
            n == s@.len(),
            i <= p@.len(),
            forall|j: int| 0 <= j < i ==> s@[off + j] == p@[j],
        decreases p.len() - i,
    {
        if s[off + i] != p[i] {
            assert(s@.subrange(off as int, s@.len() as int)[i as int] != p@[i as int]);
            return false;
        }
        i = i + 1;
    }
    assert(s@.subrange(off as int, s@.len() as int) =~= p@);
    true
}

/// `str::strip_prefix`.
pub fn strip_prefix_chars(s: &[char], p: &[char]) -> (r: Option<Vec<char>>)
    ensures
        match r {
            Some(v) => strip_prefix(s@, p@) == Some(v@),
            None => strip_prefix(s@, p@) is None,
        },
{
    if has_prefix(s, p) {
        Some(slice_chars(s, p.len(), s.len()))
    } else {
        None
    }
}

/// `str::strip_suffix`.
pub fn strip_suffix_chars(s: &[char], p: &[char]) -> (r: Option<Vec<char>>)
    ensures
        match r {
            Some(v) => strip_suffix(s@, p@) == Some(v@),
            None => strip_suffix(s@, p@) is None,
        },
{
    if has_suffix(s, p) {
        let v = slice_chars(s, 0, s.len() - p.len());
        assert(v@ =~= s@.take(s@.len() - p@.len()));
        Some(v)
    } else {
        None
    }
}

/// What `str::split_once(c)` gives: the text before the first `c` and the
/// text after it.
pub open spec fn split_once(s: Seq<char>, c: char) -> Option<(Seq<char>, Seq<char>)> {
    match first_index(s, c) {
        Some(i) => Some((s.take(i), s.skip(i + 1))),
        None => None,
    }
}

pub fn split_once_chars(s: &[char], c: char) -> (r: Option<(Vec<char>, Vec<char>)>)
    ensures
        match r {
            Some((a, b)) => split_once(s@, c) == Some((a@, b@)),
            None => split_once(s@, c) is None,
        },
{
    match find_char(s, c) {
        Some(i) => {
            let n = s.len();
            let a = slice_chars(s, 0, i);
            let b = slice_chars(s, i + 1, n);
            assert(a@ =~= s@.take(i as int));
            assert(b@ =~= s@.skip(i + 1));
            Some((a, b))
        },
        None => None,
    }
}

// ---------------------------------------------------------------------------
// Trimming
// ---------------------------------------------------------------------------

/// What `str::trim_start` gives.
pub open spec fn trim_start(s: Seq<char>) -> Seq<char>
    decreases s.len(),
{
    if s.len() > 0 && is_whitespace(s[0]) {
        trim_start(s.drop_first())
    } else {
        s
    }
}

/// What `str::trim_end` gives.
pub open spec fn trim_end(s: Seq<char>) -> Seq<char>
    decreases s.len(),
{
    if s.len() > 0 && is_whitespace(s.last()) {
        trim_end(s.drop_last())
    } else {
        s
    }
}

/// What `str::trim` gives.
pub open spec fn trim(s: Seq<char>) -> Seq<char> {
    trim_end(trim_start(s))
}

pub fn trim_start_chars(s: &[char]) -> (v: Vec<char>)
    ensures
        v@ == trim_start(s@),
{
    let mut i: usize = 0;
    assert(s@.skip(0) =~= s@);
    while i < s.len() && whitespace(s[i])
        invariant
            i <= s@.len(),
            trim_start(s@) == trim_start(s@.skip(i as int)),
        decreases s.len() - i,
    {
        assert(s@.skip(i as int).drop_first() =~= s@.skip(i + 1));
        i = i + 1;
    }
    let v = slice_chars(s, i, s.len());
    assert(v@ =~= s@.skip(i as int));
    v
}

pub fn trim_end_chars(s: &[char]) -> (v: Vec<char>)
    ensures
        v@ == trim_end(s@),
{
    let mut n: usize = s.len();
    assert(s@.take(s@.len() as int) =~= s@);
    while n > 0 && whitespace(s[n - 1])
        invariant
            n <= s@.len(),
            trim_end(s@) == trim_end(s@.take(n as int)),
        decreases n,
    {
        assert(s@.take(n as int).drop_last() =~= s@.take(n - 1));
        n = n - 1;
    }
    let v = slice_chars(s, 0, n);
    assert(v@ =~= s@.take(n as int));
    v
}

pub fn trim_chars(s: &[char]) -> (v: Vec<char>)
    ensures
        v@ == trim(s@),
{
    let a = trim_start_chars(s);
    trim_end_chars(&a)
}

// ---------------------------------------------------------------------------
// Lines and segments
// ---------------------------------------------------------------------------

/// A line ended by `\n` loses a `\r` just before it, as `str::lines` does.
pub open spec fn strip_cr(s: Seq<char>) -> Seq<char> {
    if s.len() > 0 && s.last() == '\r' {
        s.drop_last()
    } else {
        s
    }
}

/// What `str::lines` gives: the text cut at each `\n` (a `\r` before it
/// dropped); a last piece that is empty is no line.
pub open spec fn lines(s: Seq<char>) -> Seq<Seq<char>>
    decreases s.len(),
{
    if s.len() == 0 {
        Seq::empty()
    } else {
        match first_index(s, '\n') {
            Some(i) => if 0 <= i < s.len() {
                seq![strip_cr(s.take(i))] + lines(s.skip(i + 1))
            } else {
                Seq::empty()
            },
            None => seq![s],
        }
    }
}

/// What `str::split(c)` gives: every piece between the occurrences of `c`.
pub open spec fn split(s: Seq<char>, c: char) -> Seq<Seq<char>>
    decreases s.len(),
{
    match first_index(s, c) {
        Some(i) => if 0 <= i < s.len() {
            seq![s.take(i)] + split(s.skip(i + 1), c)
        } else {
            Seq::empty()
        },
        None => seq![s],
    }
}

/// The views of a sequence of character vectors.
pub open spec fn views(v: Seq<Vec<char>>) -> Seq<Seq<char>> {
    Seq::new(v.len(), |i: int| v[i]@)
}

pub proof fn lemma_views_push(v: Seq<Vec<char>>, x: Vec<char>)
    ensures
        views(v.push(x)) == views(v).push(x@),
{
    assert(views(v.push(x)) =~= views(v).push(x@));
}

/// The views of a list of strings.
pub open spec fn string_views(v: Seq<String>) -> Seq<Seq<char>> {
    Seq::new(v.len(), |i: int| v[i]@)
}

/// The non-empty lines among the first `n` lines, in order.
pub open spec fn nonempty_lines(ls: Seq<Seq<char>>, n: nat) -> Seq<Seq<char>>
    decreases n,
{
    if n == 0 || n > ls.len() {
        Seq::empty()
    } else if ls[n - 1].len() > 0 {
        nonempty_lines(ls, (n - 1) as nat).push(ls[n - 1])
    } else {
        nonempty_lines(ls, (n - 1) as nat)
    }
}

/// `str::lines`.
pub fn lines_of(s: &[char]) -> (out: Vec<Vec<char>>)
    ensures
        views(out@) == lines(s@),
{
    let mut out: Vec<Vec<char>> = Vec::new();
    let mut p: usize = 0;
    assert(s@.skip(0) =~= s@);
    while p < s.len()
        invariant
            p <= s@.len(),
            views(out@) + lines(s@.skip(p as int)) == lines(s@),
        decreases s.len() - p,
    {
        let ghost rest = s@.skip(p as int);
        match find_char_from(s, '\n', p) {
            Some(i) => {
                let mut line = slice_chars(s, p, i);
                if line.len() > 0 && line[line.len() - 1] == '\r' {
                    line.pop();
                }
                proof {
                    assert(s@.subrange(p as int, i as int) =~= rest.take(i - p));
                    assert(line@ =~= strip_cr(rest.take(i - p)));
                    assert(rest.skip(i - p + 1) =~= s@.skip(i + 1));
                    assert(lines(rest) == seq![strip_cr(rest.take(i - p))] + lines(
                        rest.skip(i - p + 1),
                    ));
                    lemma_views_push(out@, line);
                    assert(views(out@.push(line)) + lines(s@.skip(i + 1)) =~= views(out@) + lines(
                        rest,
                    ));
                }
                out.push(line);
                p = i + 1;
            },
            None => {
                let line = slice_chars(s, p, s.len());
                proof {
                    assert(line@ =~= rest);
                    assert(lines(rest) == seq![rest]);
                    lemma_views_push(out@, line);
                    assert(s@.skip(s@.len() as int) =~= Seq::<char>::empty());
                    assert(views(out@.push(line)) + lines(s@.skip(s@.len() as int)) =~= views(
                        out@,
                    ) + lines(rest));
                }
                out.push(line);
                p = s.len();
            },
        }
    }
    assert(s@.skip(p as int) =~= Seq::<char>::empty());
    assert(views(out@) + lines(s@.skip(p as int)) =~= views(out@));
    out
}

/// `str::split(c)`.
pub fn split_chars(s: &[char], c: char) -> (out: Vec<Vec<char>>)
    ensures
        views(out@) == split(s@, c),
{
    let mut out: Vec<Vec<char>> = Vec::new();
    let mut p: usize = 0;
    assert(s@.skip(0) =~= s@);
    loop
        invariant
            p <= s@.len(),
            views(out@) + split(s@.skip(p as int), c) == split(s@, c),
        decreases s.len() - p,
    {
        let ghost rest = s@.skip(p as int);
        match find_char_from(s, c, p) {
            Some(i) => {
                let piece = slice_chars(s, p, i);
                proof {
                    assert(piece@ =~= rest.take(i - p));
                    assert(rest.skip(i - p + 1) =~= s@.skip(i + 1));
                    lemma_views_push(out@, piece);
                    assert(views(out@.push(piece)) + split(s@.skip(i + 1), c) =~= views(out@)
                        + split(rest, c));
                }
                out.push(piece);
                p = i + 1;
            },
            None => {
                let piece = slice_chars(s, p, s.len());
                proof {
                    assert(piece@ =~= rest);
                    lemma_views_push(out@, piece);
                    assert(views(out@.push(piece)) =~= views(out@) + split(rest, c));
                }
                out.push(piece);
                return out;
            },
        }
    }
}

// ---------------------------------------------------------------------------
// Conversions between `str` / `String` and characters
// ---------------------------------------------------------------------------

/// The characters of `s`, in order.
pub fn chars_of(s: &str) -> (v: Vec<char>)
    ensures
        v@ == s@,
{
    let n = s.unicode_len();
    let mut v: Vec<char> = Vec::new();
    let mut i: usize = 0;
    while i < n
        invariant
            n == s@.len(),
            i <= n,
            v@ == s@.subrange(0, i as int),
        decreases n - i,
    {
        let c = s.get_char(i);
        v.push(c);
        i = i + 1;
    }
    v
}

/// `String::push`: appends one character to a string.
#[verifier::external_body]
pub(crate) fn push_char(s: &mut String, c: char)
    ensures
        final(s)@ == old(s)@.push(c),
{
    s.push(c);
}

/// The string made of `cs`.
pub fn string_of(cs: &[char]) -> (s: String)
    ensures
        s@ == cs@,
{
    let mut s = String::new();
    let mut i: usize = 0;
    while i < cs.len()
        invariant
            i <= cs.len(),
            s@ == cs@.subrange(0, i as int),
        decreases cs.len() - i,
    {
        push_char(&mut s, cs[i]);
        i = i + 1;
    }
    s
}

/// A copy of a string.
pub fn copy_string(s: &String) -> (r: String)
    ensures
        r@ == s@,
{
    let cs = chars_of(s.as_str());
    string_of(&cs)
}

/// Two strings hold the same characters.
pub fn str_eq(a: &str, b: &str) -> (r: bool)
    ensures
        r == (a@ == b@),
{
    let x = chars_of(a);
    let y = chars_of(b);
    chars_eq(&x, &y)
}

/// `s` with ASCII lower-case letters made upper-case.
pub fn ascii_upper_chars(s: &[char]) -> (v: Vec<char>)
    ensures
        v@ == ascii_upper(s@),
{
    let mut v: Vec<char> = Vec::new();
    let mut i: usize = 0;
    while i < s.len()
        invariant
            i <= s@.len(),
            v@ =~= ascii_upper(s@.subrange(0, i as int)),
        decreases s.len() - i,
    {
        let c = s[i];
        let u = if ascii_lower(c) {
            let code: u8 = ((c as u32) - 32) as u8;
            code as char
        } else {
            c
        };
        v.push(u);
        i = i + 1;
    }
    assert(s@.subrange(0, s@.len() as int) =~= s@);
    v
}


/// `p` occurs in `s` at `i`.
pub open spec fn occurs_at(s: Seq<char>, p: Seq<char>, i: int) -> bool {
    0 <= i && i + p.len() <= s.len() && s.subrange(i, i + p.len()) == p
}

/// `i` is the first place where `p` occurs in `s`.
pub open spec fn is_first_occurrence(s: Seq<char>, p: Seq<char>, i: int) -> bool {
    occurs_at(s, p, i) && forall|j: int| 0 <= j < i ==> !occurs_at(s, p, j)
}

/// `str::split_once` at a text: what comes before and after the first
/// occurrence of `p`.
pub open spec fn split_once_text(s: Seq<char>, p: Seq<char>) -> Option<(Seq<char>, Seq<char>)> {
    if exists|i: int| is_first_occurrence(s, p, i) {
        let i = choose|i: int| is_first_occurrence(s, p, i);
        Some((s.take(i), s.skip(i + p.len())))
    } else {
        None
    }
}

fn matches_at(s: &[char], p: &[char], i: usize) -> (b: bool)
    ensures
        b == occurs_at(s@, p@, i as int),
{
    let n = s.len();
    let m = p.len();
    if m > n || i > n - m {
        return false;
    }
    let mut k: usize = 0;
    while k < m
        invariant
            k <= m,
            m == p@.len(),
            n == s@.len(),
            i + m <= n,
            forall|j: int| 0 <= j < k ==> s@[i + j] == p@[j],
        decreases p.len() - k,
    {
        if s[i + k] != p[k] {
            assert(s@.subrange(i as int, i + p@.len())[k as int] != p@[k as int]);
            return false;
        }
        k = k + 1;
    }
    assert(s@.subrange(i as int, i + p@.len()) =~= p@);
    true
}

/// `str::split_once` at a text.
pub fn split_once_seq(s: &[char], p: &[char]) -> (r: Option<(Vec<char>, Vec<char>)>)
    ensures
        match r {
            Some((a, b)) => split_once_text(s@, p@) == Some((a@, b@)),
            None => split_once_text(s@, p@) is None,
        },
{
    let n = s.len();
    let mut i: usize = 0;
    loop
        invariant
            n == s@.len(),
            i <= n,
            forall|j: int| 0 <= j < i ==> !occurs_at(s@, p@, j),
        decreases n - i,
    {
        if matches_at(s, p, i) {
            proof {
                assert(is_first_occurrence(s@, p@, i as int));
                let c = choose|c: int| is_first_occurrence(s@, p@, c);
                if c < i {
                    assert(!occurs_at(s@, p@, c));
                } else if i < c {
                    assert(!occurs_at(s@, p@, i as int));
                }
            }
            let a = slice_chars(s, 0, i);
            let b = slice_chars(s, i + p.len(), n);
            assert(a@ =~= s@.take(i as int));
            assert(b@ =~= s@.skip(i + p@.len()));
            return Some((a, b));
        }
        if i == n {
            assert forall|j: int| is_first_occurrence(s@, p@, j) implies false by {
                if j > n {
                    assert(!occurs_at(s@, p@, j));
                }
            }
            return None;
        }
        i = i + 1;
    }
}

/// The non-empty lines of a tool's output, in order (none when the tool
/// failed): the shape of a list printed one item per line.
pub fn nonempty_lines_of(output: Option<&str>) -> (r: Vec<String>)
    ensures
        string_views(r@) == match output {
            Some(out) => nonempty_lines(lines(out@), lines(out@).len()),
            None => Seq::<Seq<char>>::empty(),
        },
{
    let mut out: Vec<String> = Vec::new();
    assert(string_views(out@) =~= Seq::<Seq<char>>::empty());
    let text = match output {
        Some(t) => t,
        None => return out,
    };
    let ls = lines_of(&chars_of(text));
    let ghost lv = views(ls@);
    let mut i: usize = 0;
    while i < ls.len()
        invariant
            i <= ls@.len(),
            lv == views(ls@),
            lv == lines(text@),
            string_views(out@) == nonempty_lines(lv, i as nat),
        decreases ls.len() - i,
    {
        assert(lv[i as int] == ls@[i as int]@);
        let ghost before = string_views(out@);
        if ls[i].len() > 0 {
            out.push(string_of(&ls[i]));
            assert(string_views(out@) =~= before.push(lv[i as int]));
        }
        i = i + 1;
    }
    out
}

} // verus!
