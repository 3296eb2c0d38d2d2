//! Text primitives over sequences of characters, with the meaning that
//! Rust's `str` methods give them.
use vstd::prelude::*;

verus! {

// ---------------------------------------------------------------------------
// Conversions between strings and character vectors
// ---------------------------------------------------------------------------

/// The characters of `s`, in order.
pub fn chars_of(s: &str) -> (r: Vec<char>)
    ensures
        r@ == s@,
{
    let mut r: Vec<char> = Vec::new();
    for c in it: s.chars()
        invariant
            r@ == it.seq().take(it.index() as int),
            it.seq() == s@,
    {
        r.push(c);
    }
    r
}

/// Builds a `String` from characters (`FromIterator<char>` of std).
#[verifier::external_body]
pub(crate) fn string_of(cs: &[char]) -> (r: String)
    ensures
        r@ == cs@,
{
    cs.iter().collect()
}

// ---------------------------------------------------------------------------
// Whitespace and trimming
// ---------------------------------------------------------------------------

/// The Unicode `White_Space` property, which `char::is_whitespace` tests.
pub open spec fn is_ws(c: char) -> bool {
    let u = c as u32;
    ||| 0x9 <= u <= 0xD
    ||| u == 0x20
    ||| u == 0x85
    ||| u == 0xA0
    ||| u == 0x1680
    ||| 0x2000 <= u <= 0x200A
    ||| u == 0x2028
    ||| u == 0x2029
    ||| u == 0x202F
    ||| u == 0x205F
    ||| u == 0x3000
}

/// `char::is_whitespace`.
pub fn is_whitespace(c: char) -> (r: bool)
    ensures
        r == is_ws(c),
{
    let u = c as u32;
    (0x9 <= u && u <= 0xD) || u == 0x20 || u == 0x85 || u == 0xA0 || u == 0x1680 || (0x2000 <= u
        && u <= 0x200A) || u == 0x2028 || u == 0x2029 || u == 0x202F || u == 0x205F || u == 0x3000
}

/// `s` without its leading whitespace (`str::trim_start`).
pub open spec fn trim_start(s: Seq<char>) -> Seq<char>
    decreases s.len(),
{
    if s.len() > 0 && is_ws(s[0]) {
        trim_start(s.drop_first())
    } else {
        s
    }
}

/// `s` without its trailing whitespace (`str::trim_end`).
pub open spec fn trim_end(s: Seq<char>) -> Seq<char>
    decreases s.len(),
{
    if s.len() > 0 && is_ws(s.last()) {
        trim_end(s.drop_last())
    } else {
        s
    }
}

/// `s` without leading and trailing whitespace (`str::trim`).
pub open spec fn trim(s: Seq<char>) -> Seq<char> {
    trim_end(trim_start(s))
}

/// `s` without the leading and trailing occurrences of `c` (`str::trim_matches(c)`).
pub open spec fn trim_char(s: Seq<char>, c: char) -> Seq<char> {
    trim_char_end(trim_char_start(s, c), c)
}

/// `s` without the leading occurrences of `c`.
pub open spec fn trim_char_start(s: Seq<char>, c: char) -> Seq<char>
    decreases s.len(),
{
    if s.len() > 0 && s[0] == c {
        trim_char_start(s.drop_first(), c)
    } else {
        s
    }
}

/// `s` without the trailing occurrences of `c`.
pub open spec fn trim_char_end(s: Seq<char>, c: char) -> Seq<char>
    decreases s.len(),
{
    if s.len() > 0 && s.last() == c {
        trim_char_end(s.drop_last(), c)
    } else {
        s
    }
}

proof fn lemma_trim_start_skip(s: Seq<char>, i: int)
    requires
        0 <= i <= s.len(),
        forall|j: int| 0 <= j < i ==> is_ws(#[trigger] s[j]),
    ensures
        trim_start(s) == trim_start(s.skip(i)),
    decreases i,
{
    if i > 0 {
        assert(s.skip(1) =~= s.drop_first());
        lemma_trim_start_skip(s.drop_first(), i - 1);
        assert(s.drop_first().skip(i - 1) =~= s.skip(i));
    } else {
        assert(s.skip(0) =~= s);
    }
}

proof fn lemma_trim_end_take(s: Seq<char>, i: int)
    requires
        0 <= i <= s.len(),
        forall|j: int| i <= j < s.len() ==> is_ws(#[trigger] s[j]),
    ensures
        trim_end(s) == trim_end(s.take(i)),
    decreases s.len() - i,
{
    if i < s.len() {
        lemma_trim_end_take(s.drop_last(), i);
        assert(s.drop_last().take(i) =~= s.take(i));
    } else {
        assert(s.take(i) =~= s);
    }
}

proof fn lemma_trim_char_start_skip(s: Seq<char>, c: char, i: int)
    requires
        0 <= i <= s.len(),
        forall|j: int| 0 <= j < i ==> #[trigger] s[j] == c,
    ensures
        trim_char_start(s, c) == trim_char_start(s.skip(i), c),
    decreases i,
{
    if i > 0 {
        lemma_trim_char_start_skip(s.drop_first(), c, i - 1);
        assert(s.drop_first().skip(i - 1) =~= s.skip(i));
    } else {
        assert(s.skip(0) =~= s);
    }
}

proof fn lemma_trim_char_end_take(s: Seq<char>, c: char, i: int)
    requires
        0 <= i <= s.len(),
        forall|j: int| i <= j < s.len() ==> #[trigger] s[j] == c,
    ensures
        trim_char_end(s, c) == trim_char_end(s.take(i), c),
    decreases s.len() - i,
{
    if i < s.len() {
        lemma_trim_char_end_take(s.drop_last(), c, i);
        assert(s.drop_last().take(i) =~= s.take(i));
    } else {
        assert(s.take(i) =~= s);
    }
}

/// The characters `s[lo..hi]`, copied.
pub fn slice_chars(s: &[char], lo: usize, hi: usize) -> (r: Vec<char>)
    requires
        lo <= hi <= s@.len(),
    ensures
        r@ == s@.subrange(lo as int, hi as int),
{
    let mut r: Vec<char> = Vec::new();
    let mut i = lo;
    while i < hi
        invariant
            lo <= i <= hi <= s@.len(),
            r@ == s@.subrange(lo as int, i as int),
        decreases hi - i,
    {
        r.push(s[i]);
        i += 1;
        assert(r@ =~= s@.subrange(lo as int, i as int));
    }
    r
}

/// `s` without its leading whitespace.
pub fn trim_start_chars(s: &[char]) -> (r: Vec<char>)
    ensures
        r@ == trim_start(s@),
{
    let mut i: usize = 0;
    while i < s.len() && is_whitespace(s[i])
        invariant
            i <= s@.len(),
            forall|j: int| 0 <= j < i ==> is_ws(#[trigger] s@[j]),
        decreases s.len() - i,
    {
        i += 1;
    }
    proof {
        lemma_trim_start_skip(s@, i as int);
        assert(s@.subrange(i as int, s@.len() as int) =~= s@.skip(i as int));
    }
    slice_chars(s, i, s.len())
}

/// `s` without its trailing whitespace.
pub fn trim_end_chars(s: &[char]) -> (r: Vec<char>)
    ensures
        r@ == trim_end(s@),
{
    let mut i: usize = s.len();
    while i > 0 && is_whitespace(s[i - 1])
        invariant
            i <= s@.len(),
            forall|j: int| i <= j < s@.len() ==> is_ws(#[trigger] s@[j]),
        decreases i,
    {
        i -= 1;
    }
    proof {
        lemma_trim_end_take(s@, i as int);
        assert(s@.subrange(0, i as int) =~= s@.take(i as int));
    }
    slice_chars(s, 0, i)
}

/// `s` without leading and trailing whitespace.
pub fn trim_chars(s: &[char]) -> (r: Vec<char>)
    ensures
        r@ == trim(s@),
{
    let a = trim_start_chars(s);
    trim_end_chars(&a)
}

/// `s` without the leading and trailing occurrences of `c`.
pub fn trim_char_chars(s: &[char], c: char) -> (r: Vec<char>)
    ensures
        r@ == trim_char(s@, c),
{
    let mut i: usize = 0;
    while i < s.len() && s[i] == c
        invariant
            i <= s@.len(),
            forall|j: int| 0 <= j < i ==> #[trigger] s@[j] == c,
        decreases s.len() - i,
    {
        i += 1;
    }
    proof {
        lemma_trim_char_start_skip(s@, c, i as int);
        assert(s@.subrange(i as int, s@.len() as int) =~= s@.skip(i as int));
    }
    let a = slice_chars(s, i, s.len());
    let mut k: usize = a.len();
    while k > 0 && a[k - 1] == c
        invariant
            k <= a@.len(),
            forall|j: int| k <= j < a@.len() ==> #[trigger] a@[j] == c,
        decreases k,
    {
        k -= 1;
    }
    proof {
        lemma_trim_char_end_take(a@, c, k as int);
        assert(a@.subrange(0, k as int) =~= a@.take(k as int));
    }
    slice_chars(&a, 0, k)
}

// ---------------------------------------------------------------------------
// Searching
// ---------------------------------------------------------------------------

/// The index of the first occurrence of `c` in `s` (`str::find(c)`).
pub open spec fn find_char(s: Seq<char>, c: char) -> Option<int>
    decreases s.len(),
{
    if s.len() == 0 {
        None
    } else if s[0] == c {
        Some(0)
    } else {
        match find_char(s.drop_first(), c) {
            Some(i) => Some(i + 1),
            None => None,
        }
    }
}

/// Where `c` does not occur before `i` and occurs at `i` (or `i` is the end),
/// `find_char` says so.
pub proof fn lemma_find_char(s: Seq<char>, c: char, i: int)
    requires
        0 <= i <= s.len(),
        forall|j: int| 0 <= j < i ==> #[trigger] s[j] != c,
    ensures
        i < s.len() && s[i] == c ==> find_char(s, c) == Some(i),
        i == s.len() ==> find_char(s, c) is None,
    decreases i,
{
    if i > 0 {
        lemma_find_char(s.drop_first(), c, i - 1);
    }
}

/// What `find_char` finds is the first occurrence of `c`; where it finds
/// none, `c` does not occur.
pub proof fn lemma_find_char_found(s: Seq<char>, c: char)
    ensures
        find_char(s, c) matches Some(i) ==> 0 <= i < s.len() && s[i] == c && forall|j: int|
            0 <= j < i ==> #[trigger] s[j] != c,
        find_char(s, c) is None ==> forall|j: int| 0 <= j < s.len() ==> #[trigger] s[j] != c,
    decreases s.len(),
{
    if s.len() > 0 {
        lemma_find_char_found(s.drop_first(), c);
        if s[0] != c {
            assert forall|j: int| 0 < j < s.len() implies #[trigger] s[j] == s.drop_first()[j - 1] by {}
        }
    }
}

/// The position of the first `c` in `s`.
pub fn find_char_exec(s: &[char], c: char) -> (r: Option<usize>)
    ensures
        match r {
            Some(i) => find_char(s@, c) == Some(i as int),
            None => find_char(s@, c) is None,
        },
{
    let mut i: usize = 0;
    while i < s.len()
        invariant
            i <= s@.len(),
            forall|j: int| 0 <= j < i ==> #[trigger] s@[j] != c,
        decreases s.len() - i,
    {
        if s[i] == c {
            proof {
                lemma_find_char(s@, c, i as int);
            }
            return Some(i);
        }
        i += 1;
    }
    proof {
        lemma_find_char(s@, c, i as int);
    }
    None
}

/// `s` begins with `p` (`str::starts_with`).
pub open spec fn starts_with(s: Seq<char>, p: Seq<char>) -> bool {
    p.len() <= s.len() && s.take(p.len() as int) == p
}

/// Whether `s` begins with `p`.
pub fn starts_with_exec(s: &[char], p: &[char]) -> (r: bool)
    ensures
        r == starts_with(s@, p@),
{
    if p.len() > s.len() {
        return false;
    }
    let mut i: usize = 0;
    while i < p.len()
        invariant
            p@.len() <= s@.len(),
            i <= p@.len(),
            forall|j: int| 0 <= j < i ==> #[trigger] s@[j] == p@[j],
        decreases p.len() - i,
    {
        if s[i] != p[i] {
            assert(s@.take(p@.len() as int)[i as int] != p@[i as int]);
            return false;
        }
        i += 1;
    }
    assert(s@.take(p@.len() as int) =~= p@);
    true
}

/// `p` occurs in `s` starting at index `i`.
pub open spec fn occurs_at(s: Seq<char>, p: Seq<char>, i: int) -> bool {
    0 <= i && i + p.len() <= s.len() && s.subrange(i, i + p.len()) == p
}

/// The index of the first occurrence of `p` in `s` (`str::find(p)`).
pub open spec fn find_str(s: Seq<char>, p: Seq<char>) -> Option<int>
    decreases s.len(),
{
    if s.len() < p.len() {
        None
    } else if starts_with(s, p) {
        Some(0)
    } else if s.len() == 0 {
        None
    } else {
        match find_str(s.drop_first(), p) {
            Some(i) => Some(i + 1),
            None => None,
        }
    }
}

/// `p` occurs somewhere in `s` (`str::contains(p)`).
pub open spec fn contains_str(s: Seq<char>, p: Seq<char>) -> bool {
    find_str(s, p) is Some
}

proof fn lemma_starts_with_skip(s: Seq<char>, p: Seq<char>, i: int)
    requires
        0 <= i <= s.len(),
    ensures
        starts_with(s.skip(i), p) == occurs_at(s, p, i),
{
    if i + p.len() <= s.len() {
        assert(s.skip(i).take(p.len() as int) =~= s.subrange(i, i + p.len()));
    }
}

/// Where `p` occurs in `s` at some index, `s` contains `p`.
pub proof fn lemma_occurs_contains(s: Seq<char>, p: Seq<char>, i: int)
    requires
        occurs_at(s, p, i),
    ensures
        contains_str(s, p),
    decreases i,
{
    if starts_with(s, p) {
    } else {
        if i == 0 {
            assert(s.take(p.len() as int) =~= s.subrange(0, p.len() as int));
        } else {
            assert(s.drop_first().subrange(i - 1, i - 1 + p.len()) =~= s.subrange(i, i + p.len()));
            lemma_occurs_contains(s.drop_first(), p, i - 1);
        }
    }
}

/// `s` contains `m` where `s` is `a`, `m` and `b` put together.
pub proof fn lemma_contains_middle(a: Seq<char>, m: Seq<char>, b: Seq<char>)
    ensures
        contains_str(a + m + b, m),
{
    assert((a + m + b).subrange(a.len() as int, (a.len() + m.len()) as int) =~= m);
    lemma_occurs_contains(a + m + b, m, a.len() as int);
}

/// A position moved by `d`.
pub open spec fn shift(o: Option<int>, d: int) -> Option<int> {
    match o {
        Some(k) => Some(k + d),
        None => None,
    }
}

proof fn lemma_find_str(s: Seq<char>, p: Seq<char>, i: int)
    requires
        0 <= i <= s.len(),
        forall|j: int| 0 <= j < i ==> !occurs_at(s, p, j),
    ensures
        find_str(s, p) == shift(find_str(s.skip(i), p), i),
    decreases i,
{
    if i > 0 {
        lemma_starts_with_skip(s, p, 0);
        assert(s.skip(0) =~= s);
        assert(!occurs_at(s, p, 0));
        if s.len() >= p.len() {
            assert(s.len() > 0) by {
                if s.len() == 0 {
                    assert(p.len() == 0);
                    assert(s.subrange(0, 0) =~= p);
                }
            }
        }
        assert forall|j: int| 0 <= j < i - 1 implies !occurs_at(s.drop_first(), p, j) by {
            assert(!occurs_at(s, p, j + 1));
            if occurs_at(s.drop_first(), p, j) {
                assert(s.drop_first().subrange(j, j + p.len()) =~= s.subrange(j + 1, j + 1 + p.len()));
            }
        }
        lemma_find_str(s.drop_first(), p, i - 1);
        assert(s.drop_first().skip(i - 1) =~= s.skip(i));
    } else {
        assert(s.skip(0) =~= s);
        match find_str(s, p) {
            Some(k) => {},
            None => {},
        }
    }
}

/// What `find_str` finds is an occurrence, the first.
pub proof fn lemma_find_str_found(s: Seq<char>, p: Seq<char>)
    ensures
        find_str(s, p) matches Some(i) ==> occurs_at(s, p, i) && forall|j: int|
            0 <= j < i ==> !occurs_at(s, p, j),
        find_str(s, p) is None ==> forall|j: int| !occurs_at(s, p, j),
    decreases s.len(),
{
    lemma_starts_with_skip(s, p, 0);
    assert(s.skip(0) =~= s);
    if s.len() >= p.len() && !starts_with(s, p) && s.len() > 0 {
        lemma_find_str_found(s.drop_first(), p);
        assert forall|j: int| 1 <= j implies occurs_at(s, p, j) == occurs_at(s.drop_first(), p, j - 1) by {
            if j + p.len() <= s.len() {
                assert(s.drop_first().subrange(j - 1, j - 1 + p.len()) =~= s.subrange(j, j + p.len()));
            }
        }
    }
}

/// Whether `p` occurs at index `i` of `s`.
pub fn occurs_at_exec(s: &[char], p: &[char], i: usize) -> (r: bool)
    ensures
        r == occurs_at(s@, p@, i as int),
{
    if i > s.len() || p.len() > s.len() - i {
        return false;
    }
    let mut k: usize = 0;
    while k < p.len()
        invariant
            i + p@.len() <= s@.len(),
            i + p.len() <= s.len(),
            k <= p@.len(),
            forall|j: int| 0 <= j < k ==> #[trigger] s@[i + j] == p@[j],
        decreases p.len() - k,
    {
        if s[i + k] != p[k] {
            assert(s@.subrange(i as int, i + p@.len())[k as int] != p@[k as int]);
            return false;
        }
        k += 1;
    }
    assert forall|j: int| 0 <= j < p@.len() implies s@.subrange(i as int, i + p@.len())[j]
        == p@[j] by {
        assert(s@[i + j] == p@[j]);
    }
    assert(s@.subrange(i as int, i + p@.len()) =~= p@);
    true
}

/// The position of the first occurrence of `p` in `s`.
pub fn find_str_exec(s: &[char], p: &[char]) -> (r: Option<usize>)
    ensures
        match r {
            Some(i) => find_str(s@, p@) == Some(i as int),
            None => find_str(s@, p@) is None,
        },
{
    let mut i: usize = 0;
    loop
        invariant
            i <= s@.len(),
            forall|j: int| 0 <= j < i ==> !occurs_at(s@, p@, j),
        decreases s.len() - i,
    {
        if occurs_at_exec(s, p, i) {
            proof {
                lemma_find_str(s@, p@, i as int);
                lemma_starts_with_skip(s@, p@, i as int);
            }
            return Some(i);
        }
        if i == s.len() {
            proof {
                lemma_find_str_found(s@, p@);
                assert forall|j: int| !occurs_at(s@, p@, j) by {
                    if 0 <= j <= i {
                    }
                }
            }
            return None;
        }
        i += 1;
    }
}

/// Whether `p` occurs in `s`.
pub fn contains_str_exec(s: &[char], p: &[char]) -> (r: bool)
    ensures
        r == contains_str(s@, p@),
{
    find_str_exec(s, p).is_some()
}

/// `s` with the prefix `p` removed, when `s` begins with `p` (`str::strip_prefix`).
pub open spec fn strip_prefix(s: Seq<char>, p: Seq<char>) -> Option<Seq<char>> {
    if starts_with(s, p) {
        Some(s.skip(p.len() as int))
    } else {
        None
    }
}

/// `s` without the prefix `p`, where it begins with it.
pub fn strip_prefix_exec(s: &[char], p: &[char]) -> (r: Option<Vec<char>>)
    ensures
        match r {
            Some(v) => strip_prefix(s@, p@) == Some(v@),
            None => strip_prefix(s@, p@) is None,
        },
{
    if starts_with_exec(s, p) {
        let v = slice_chars(s, p.len(), s.len());
        assert(v@ =~= s@.skip(p@.len() as int));
        Some(v)
    } else {
        None
    }
}

// ---------------------------------------------------------------------------
// Lines and splitting
// ---------------------------------------------------------------------------

/// The views of a sequence of character vectors.
pub open spec fn views(v: Seq<Vec<char>>) -> Seq<Seq<char>> {
    v.map_values(|x: Vec<char>| x@)
}

/// A line without its trailing carriage return.
pub open spec fn strip_cr(l: Seq<char>) -> Seq<char> {
    if l.len() > 0 && l.last() == '\r' {
        l.drop_last()
    } else {
        l
    }
}

/// The lines of `s` (`str::lines`): split at `\n`, a `\r` before the `\n` is
/// dropped, and a final line ending yields no empty last line.
pub open spec fn lines(s: Seq<char>) -> Seq<Seq<char>>
    decreases s.len(),
{
    if s.len() == 0 {
        seq![]
    } else {
        match find_char(s, '\n') {
            None => seq![s],
            Some(i) => {
                if 0 <= i < s.len() {
                    seq![strip_cr(s.take(i))] + lines(s.skip(i + 1))
                } else {
                    seq![]
                }
            },
        }
    }
}

/// The lines of `s`, as `str::lines` gives them.
pub fn lines_exec(s: &[char]) -> (r: Vec<Vec<char>>)
    ensures
        views(r@) == lines(s@),
{
    let mut r: Vec<Vec<char>> = Vec::new();
    let mut pos: usize = 0;
    proof {
        assert(s@.skip(0) =~= s@);
    }
    while pos < s.len()
        invariant
            pos <= s@.len(),
            views(r@) + lines(s@.skip(pos as int)) == lines(s@),
        decreases s.len() - pos,
    {
        let ghost t = s@.skip(pos as int);
        let mut j: usize = pos;
        while j < s.len() && s[j] != '\n'
            invariant
                pos <= j <= s@.len(),
                t == s@.skip(pos as int),
                forall|k: int| pos <= k < j ==> #[trigger] s@[k] != '\n',
            decreases s.len() - j,
        {
            j += 1;
        }
        proof {
            assert forall|k: int| 0 <= k < j - pos implies #[trigger] t[k] != '\n' by {
                assert(t[k] == s@[pos + k]);
            }
            lemma_find_char(t, '\n', j - pos);
        }
        let ghost old_r = r@;
        if j == s.len() {
            let line = slice_chars(s, pos, j);
            assert(line@ =~= t);
            r.push(line);
            proof {
                assert(views(r@) =~= views(old_r).push(t));
                assert(s@.skip(j as int) =~= Seq::<char>::empty());
                assert(lines(t) == seq![t]);
                assert(views(r@) + lines(s@.skip(j as int)) =~= views(old_r) + lines(t));
            }
            pos = j;
        } else {
            let mut line = slice_chars(s, pos, j);
            if line.len() > 0 && line[line.len() - 1] == '\r' {
                line.pop();
            }
            proof {
                assert(s@.subrange(pos as int, j as int) =~= t.take(j - pos));
                assert(line@ == strip_cr(t.take(j - pos)));
                assert(t.skip(j - pos + 1) =~= s@.skip(j + 1));
                assert(lines(t) == seq![strip_cr(t.take(j - pos))] + lines(t.skip(j - pos + 1)));
            }
            r.push(line);
            proof {
                assert(views(r@) =~= views(old_r).push(line@));
                assert(views(r@) + lines(s@.skip(j + 1)) =~= views(old_r) + lines(t));
            }
            pos = j + 1;
        }
    }
    proof {
        assert(s@.skip(pos as int) =~= Seq::<char>::empty());
        assert(views(r@) + seq![] =~= views(r@));
    }
    r
}

/// The parts of `s` before and after the first `c` (`str::split_once(c)`).
pub open spec fn split_once(s: Seq<char>, c: char) -> Option<(Seq<char>, Seq<char>)> {
    match find_char(s, c) {
        Some(i) => Some((s.take(i), s.skip(i + 1))),
        None => None,
    }
}

/// The parts of `s` before and after the first `c`.
pub fn split_once_exec(s: &[char], c: char) -> (r: Option<(Vec<char>, Vec<char>)>)
    ensures
        match r {
            Some(p) => split_once(s@, c) == Some((p.0@, p.1@)),
            None => split_once(s@, c) is None,
        },
{
    match find_char_exec(s, c) {
        Some(i) => {
            proof {
                lemma_find_char_found(s@, c);
                assert((i as int) < s@.len());
                assert(i < s.len());
            }
            let a = slice_chars(s, 0, i);
            let b = slice_chars(s, i + 1, s.len());
            assert(a@ =~= s@.take(i as int));
            assert(b@ =~= s@.skip(i + 1));
            Some((a, b))
        },
        None => None,
    }
}

// ---------------------------------------------------------------------------
// Replacement
// ---------------------------------------------------------------------------

/// `s` with every non-overlapping occurrence of `from`, scanned from the
/// left, replaced by `to` (`str::replace` for a non-empty pattern).
pub open spec fn replace(s: Seq<char>, from: Seq<char>, to: Seq<char>) -> Seq<char>
    decreases s.len(),
{
    if from.len() == 0 || s.len() == 0 {
        s
    } else if starts_with(s, from) {
        to + replace(s.skip(from.len() as int), from, to)
    } else {
        seq![s[0]] + replace(s.drop_first(), from, to)
    }
}

/// `s` with each occurrence of `from` replaced by `to`, left to right.
pub fn replace_exec(s: &[char], from: &[char], to: &[char]) -> (r: Vec<char>)
    requires
        from@.len() > 0,
    ensures
        r@ == replace(s@, from@, to@),
{
    let mut r: Vec<char> = Vec::new();
    let mut i: usize = 0;
    proof {
        assert(s@.skip(0) =~= s@);
    }
    while i < s.len()
        invariant
            from@.len() > 0,
            i <= s@.len(),
            r@ + replace(s@.skip(i as int), from@, to@) == replace(s@, from@, to@),
        decreases s.len() - i,
    {
        let ghost t = s@.skip(i as int);
        let ghost old_r = r@;
        proof {
            lemma_starts_with_skip(s@, from@, i as int);
        }
        if occurs_at_exec(s, from, i) {
            let mut k: usize = 0;
            while k < to.len()
                invariant
                    k <= to@.len(),
                    r@ == old_r + to@.take(k as int),
                decreases to.len() - k,
            {
                r.push(to[k]);
                k += 1;
                assert(r@ =~= old_r + to@.take(k as int));
            }
            proof {
                assert(to@.take(to@.len() as int) =~= to@);
                assert(t.skip(from@.len() as int) =~= s@.skip(i + from@.len()));
                assert(old_r + (to@ + replace(t.skip(from@.len() as int), from@, to@)) =~= r@
                    + replace(s@.skip(i + from@.len()), from@, to@));
            }
            i = i + from.len();
        } else {
            r.push(s[i]);
            proof {
                assert(t.drop_first() =~= s@.skip(i + 1));
                assert(old_r + (seq![t[0]] + replace(t.drop_first(), from@, to@)) =~= r@ + replace(
                    s@.skip(i + 1),
                    from@,
                    to@,
                ));
            }
            i = i + 1;
        }
    }
    proof {
        assert(s@.skip(i as int) =~= Seq::<char>::empty());
        assert(r@ + Seq::<char>::empty() =~= r@);
    }
    r
}

// ---------------------------------------------------------------------------
// Decimal numbers
// ---------------------------------------------------------------------------

/// An ASCII digit.
pub open spec fn is_digit(c: char) -> bool {
    '0' <= c <= '9'
}

/// The ASCII digit of a number below ten.
pub open spec fn digit_char(d: nat) -> char {
    seq!['0', '1', '2', '3', '4', '5', '6', '7', '8', '9'][d as int]
}

/// The value of an ASCII digit.
pub open spec fn digit_value(c: char) -> nat {
    (c as u32 - '0' as u32) as nat
}

/// The decimal notation of `n`, without leading zeros (`Display` of an integer).
pub open spec fn decimal(n: nat) -> Seq<char>
    decreases n,
{
    if n < 10 {
        seq![digit_char(n)]
    } else {
        decimal(n / 10).push(digit_char(n % 10))
    }
}

/// The number that the decimal digits `s` denote.
pub open spec fn digits_value(s: Seq<char>) -> nat
    decreases s.len(),
{
    if s.len() == 0 {
        0
    } else {
        digits_value(s.drop_last()) * 10 + digit_value(s.last())
    }
}

/// Text made only of ASCII digits.
pub open spec fn all_digits(s: Seq<char>) -> bool {
    forall|i: int| 0 <= i < s.len() ==> is_digit(#[trigger] s[i])
}

fn digit_exec(d: u64) -> (c: char)
    requires
        d < 10,
    ensures
        c == digit_char(d as nat),
        is_digit(c),
        digit_value(c) == d,
{
    let c = if d == 0 {
        '0'
    } else if d == 1 {
        '1'
    } else if d == 2 {
        '2'
    } else if d == 3 {
        '3'
    } else if d == 4 {
        '4'
    } else if d == 5 {
        '5'
    } else if d == 6 {
        '6'
    } else if d == 7 {
        '7'
    } else if d == 8 {
        '8'
    } else {
        '9'
    };
    c
}

/// The decimal notation of `n`.
pub fn decimal_exec(n: u64) -> (r: Vec<char>)
    ensures
        r@ == decimal(n as nat),
    decreases n,
{
    if n < 10 {
        let mut v: Vec<char> = Vec::new();
        v.push(digit_exec(n));
        assert(v@ =~= seq![digit_char(n as nat)]);
        v
    } else {
        let mut v = decimal_exec(n / 10);
        v.push(digit_exec(n % 10));
        v
    }
}

/// Decimal notation consists of digits, and denotes the number it was made from.
proof fn lemma_digit_char(d: nat)
    requires
        d < 10,
    ensures
        digit_value(digit_char(d)) == d,
        is_digit(digit_char(d)),
{
    if d == 0 {
        assert(digit_char(d) == '0');
    } else if d == 1 {
        assert(digit_char(d) == '1');
    } else if d == 2 {
        assert(digit_char(d) == '2');
    } else if d == 3 {
        assert(digit_char(d) == '3');
    } else if d == 4 {
        assert(digit_char(d) == '4');
    } else if d == 5 {
        assert(digit_char(d) == '5');
    } else if d == 6 {
        assert(digit_char(d) == '6');
    } else if d == 7 {
        assert(digit_char(d) == '7');
    } else if d == 8 {
        assert(digit_char(d) == '8');
    } else {
        assert(digit_char(d) == '9');
    }
}

/// Decimal notation is made of digits and denotes the number it was made from.
pub proof fn lemma_decimal_digits(n: nat)
    ensures
        all_digits(decimal(n)),
        decimal(n).len() > 0,
        digits_value(decimal(n)) == n,
    decreases n,
{
    reveal_with_fuel(decimal, 2);
    if n < 10 {
        lemma_digit_char(n);
        let d = decimal(n);
        assert(d.drop_last() =~= Seq::<char>::empty());
        assert(digits_value(d) == digits_value(d.drop_last()) * 10 + digit_value(d.last()));
    } else {
        lemma_digit_char(n % 10);
        lemma_decimal_digits(n / 10);
        let d = decimal(n);
        assert(d.drop_last() =~= decimal(n / 10));
        assert(d.last() == digit_char(n % 10));
        assert(digits_value(d) == digits_value(d.drop_last()) * 10 + digit_value(d.last()));
        assert((n / 10) * 10 + n % 10 == n) by (nonlinear_arith);
    }
}

/// The number that the digits `s` denote, when it fits in a `u32` and `s`
/// is not empty (`str::parse::<u32>` on a string of ASCII digits).
pub open spec fn parse_digits_u32(s: Seq<char>) -> Option<u32> {
    if s.len() > 0 && digits_value(s) <= u32::MAX {
        Some(digits_value(s) as u32)
    } else {
        None
    }
}

proof fn lemma_digits_value_take(s: Seq<char>, i: int)
    requires
        0 <= i < s.len(),
        all_digits(s),
    ensures
        digits_value(s.take(i + 1)) == digits_value(s.take(i)) * 10 + digit_value(s[i]),
        digits_value(s.take(i)) <= digits_value(s.take(i + 1)),
{
    assert(s.take(i + 1).drop_last() =~= s.take(i));
}

proof fn lemma_digits_value_mono(s: Seq<char>, i: int)
    requires
        0 <= i <= s.len(),
        all_digits(s),
    ensures
        digits_value(s.take(i)) <= digits_value(s),
    decreases s.len() - i,
{
    if i < s.len() {
        lemma_digits_value_take(s, i);
        lemma_digits_value_mono(s, i + 1);
    } else {
        assert(s.take(i) =~= s);
    }
}

/// The `u32` that ASCII digits denote, where it fits.
pub fn parse_digits_u32_exec(s: &[char]) -> (r: Option<u32>)
    requires
        all_digits(s@),
    ensures
        r == parse_digits_u32(s@),
{
    if s.len() == 0 {
        return None;
    }
    let mut acc: u64 = 0;
    let mut i: usize = 0;
    proof {
        assert(s@.take(0) =~= Seq::<char>::empty());
    }
    while i < s.len()
        invariant
            all_digits(s@),
            i <= s@.len(),
            acc == digits_value(s@.take(i as int)),
            acc <= u32::MAX,
        decreases s.len() - i,
    {
        let c = s[i];
        let d = (c as u32 - '0' as u32) as u64;
        proof {
            assert(is_digit(s@[i as int]));
            lemma_digits_value_take(s@, i as int);
        }
        let next = acc * 10 + d;
        if next > 0xFFFF_FFFF {
            proof {
                lemma_digits_value_mono(s@, i + 1);
            }
            return None;
        }
        acc = next;
        i += 1;
    }
    proof {
        assert(s@.take(s@.len() as int) =~= s@);
    }
    Some(acc as u32)
}

/// `str::parse::<u64>`: an optional `+`, then one or more ASCII digits
/// denoting a number that fits in a `u64`.
pub open spec fn parse_u64(s: Seq<char>) -> Option<u64> {
    let d = if s.len() > 0 && s[0] == '+' {
        s.drop_first()
    } else {
        s
    };
    if d.len() > 0 && all_digits(d) && digits_value(d) <= u64::MAX {
        Some(digits_value(d) as u64)
    } else {
        None
    }
}

/// Parses a decimal `u64` as `str::parse::<u64>` does.
pub fn parse_u64_exec(s: &[char]) -> (r: Option<u64>)
    ensures
        r == parse_u64(s@),
{
    let start: usize = if s.len() > 0 && s[0] == '+' {
        1
    } else {
        0
    };
    let ghost d = if s@.len() > 0 && s@[0] == '+' {
        s@.drop_first()
    } else {
        s@
    };
    assert(d =~= s@.skip(start as int));
    if start == s.len() {
        return None;
    }
    let mut acc: u128 = 0;
    let mut i: usize = start;
    proof {
        assert(d.take(0) =~= Seq::<char>::empty());
    }
    while i < s.len()
        invariant
            start <= i <= s@.len(),
            d == s@.skip(start as int),
            d == (if s@.len() > 0 && s@[0] == '+' {
                s@.drop_first()
            } else {
                s@
            }),
            all_digits(d.take(i - start)),
            acc == digits_value(d.take(i - start)),
            acc <= u64::MAX,
        decreases s.len() - i,
    {
        let c = s[i];
        let k: usize = i - start;
        if !('0' <= c && c <= '9') {
            proof {
                assert(d[k as int] == c);
                assert(!is_digit(d[k as int]));
            }
            return None;
        }
        let dv = (c as u32 - '0' as u32) as u128;
        proof {
            assert(d.take(k + 1).drop_last() =~= d.take(k as int));
            assert(d.take(k + 1).last() == c);
            assert(all_digits(d.take(k + 1)));
        }
        let next = acc * 10 + dv;
        if next > 0xFFFF_FFFF_FFFF_FFFF {
            proof {
                let rest = d.skip(k + 1);
                assert(d =~= d.take(k + 1) + rest);
                lemma_digits_value_prefix(d.take(k + 1), rest);
            }
            return None;
        }
        acc = next;
        i += 1;
    }
    proof {
        assert(d.take(s@.len() - start) =~= d);
    }
    Some(acc as u64)
}

/// The number that digits denote is at least that of any prefix of them.
proof fn lemma_digits_value_prefix(a: Seq<char>, b: Seq<char>)
    ensures
        digits_value(a + b) >= digits_value(a),
    decreases b.len(),
{
    if b.len() > 0 {
        assert((a + b).drop_last() =~= a + b.drop_last());
        lemma_digits_value_prefix(a, b.drop_last());
    } else {
        assert(a + b =~= a);
    }
}

/// The longest suffix of `s` made of ASCII digits.
pub open spec fn trailing_digits(s: Seq<char>) -> Seq<char>
    decreases s.len(),
{
    if s.len() > 0 && is_digit(s.last()) {
        trailing_digits(s.drop_last()).push(s.last())
    } else {
        seq![]
    }
}

proof fn lemma_trailing_digits(s: Seq<char>, i: int)
    requires
        0 <= i <= s.len(),
        forall|j: int| i <= j < s.len() ==> is_digit(#[trigger] s[j]),
        i == 0 || !is_digit(s[i - 1]),
    ensures
        trailing_digits(s) == s.skip(i),
    decreases s.len() - i,
{
    if i < s.len() {
        lemma_trailing_digits(s.drop_last(), i);
        assert(s.drop_last().skip(i).push(s.last()) =~= s.skip(i));
    } else {
        assert(s.skip(i) =~= Seq::<char>::empty());
    }
}

/// The longest suffix of `s` made of ASCII digits.
pub fn trailing_digits_exec(s: &[char]) -> (r: Vec<char>)
    ensures
        r@ == trailing_digits(s@),
        all_digits(r@),
{
    let mut i: usize = s.len();
    while i > 0 && '0' <= s[i - 1] && s[i - 1] <= '9'
        invariant
            i <= s@.len(),
            forall|j: int| i <= j < s@.len() ==> is_digit(#[trigger] s@[j]),
        decreases i,
    {
        i -= 1;
    }
    proof {
        lemma_trailing_digits(s@, i as int);
    }
    let r = slice_chars(s, i, s.len());
    assert(r@ =~= s@.skip(i as int));
    r
}

/// The index of the last ASCII digit in `s` (`str::rfind` with `is_ascii_digit`).
pub open spec fn last_digit_index(s: Seq<char>) -> Option<int>
    decreases s.len(),
{
    if s.len() == 0 {
        None
    } else if is_digit(s.last()) {
        Some(s.len() - 1)
    } else {
        last_digit_index(s.drop_last())
    }
}

/// The position of the last ASCII digit in `s`.
pub fn last_digit_index_exec(s: &[char]) -> (r: Option<usize>)
    ensures
        match r {
            Some(i) => last_digit_index(s@) == Some(i as int) && i < s@.len(),
            None => last_digit_index(s@) is None,
        },
{
    let mut i: usize = s.len();
    assert(s@.take(s@.len() as int) =~= s@);
    while i > 0
        invariant
            i <= s@.len(),
            forall|j: int| i <= j < s@.len() ==> !is_digit(#[trigger] s@[j]),
            last_digit_index(s@) == last_digit_index(s@.take(i as int)),
        decreases i,
    {
        if '0' <= s[i - 1] && s[i - 1] <= '9' {
            assert(s@.take(i as int).last() == s@[i - 1]);
            return Some(i - 1);
        }
        assert(s@.take(i as int).drop_last() =~= s@.take(i - 1));
        i -= 1;
    }
    None
}

/// The views of a list of strings.
pub open spec fn str_views(v: Seq<String>) -> Seq<Seq<char>> {
    v.map_values(|s: String| s@)
}

/// Appends `b` to `a`.
pub fn append_chars(a: &mut Vec<char>, b: &[char])
    ensures
        final(a)@ == old(a)@ + b@,
{
    let ghost a0 = a@;
    let mut i: usize = 0;
    while i < b.len()
        invariant
            i <= b@.len(),
            a@ == a0 + b@.take(i as int),
        decreases b.len() - i,
    {
        a.push(b[i]);
        i += 1;
        assert(a@ =~= a0 + b@.take(i as int));
    }
    assert(b@.take(b@.len() as int) =~= b@);
}

/// The concatenation of two strings.
pub fn concat_str(a: &str, b: &str) -> (r: String)
    ensures
        r@ == a@ + b@,
{
    let mut v = chars_of(a);
    let w = chars_of(b);
    append_chars(&mut v, &w);
    string_of(&v)
}

/// Whether two character vectors are equal.
pub fn vec_eq(a: &[char], b: &[char]) -> (r: bool)
    ensures
        r == (a@ == b@),
{
    if a.len() != b.len() {
        return false;
    }
    let mut i: usize = 0;
    while i < a.len()
        invariant
            a@.len() == b@.len(),
            i <= a@.len(),
            forall|j: int| 0 <= j < i ==> a@[j] == b@[j],
        decreases a.len() - i,
    {
        if a[i] != b[i] {
            return false;
        }
        i += 1;
    }
    assert(a@ =~= b@);
    true
}

} // verus!
