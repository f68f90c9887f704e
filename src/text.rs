//! Character-level helpers on `&str`, each proved against a statement over `Seq<char>`.
use vstd::prelude::*;
use vstd::string::*;

verus! {

/// `p` is a prefix of `s`.
pub open spec fn has_prefix(s: Seq<char>, p: Seq<char>) -> bool {
    p.len() <= s.len() && s.subrange(0, p.len() as int) == p
}

/// `p` is a suffix of `s`.
pub open spec fn has_suffix(s: Seq<char>, p: Seq<char>) -> bool {
    p.len() <= s.len() && s.subrange(s.len() - p.len(), s.len() as int) == p
}

/// `i` is the position of the first `c` in `s`.
pub open spec fn is_first_index(s: Seq<char>, c: char, i: int) -> bool {
    0 <= i < s.len() && s[i] == c && forall|j: int| 0 <= j < i ==> s[j] != c
}

/// `i` is the position of the last `c` in `s`.
pub open spec fn is_last_index(s: Seq<char>, c: char, i: int) -> bool {
    0 <= i < s.len() && s[i] == c && forall|j: int| i < j < s.len() ==> s[j] != c
}

/// Whether two strings hold the same characters.
pub fn text_eq(a: &str, b: &str) -> (r: bool)
    ensures
        r == (a@ == b@),
{
    let n = a.unicode_len();
    let m = b.unicode_len();
    if n != m {
        return false;
    }
    let mut i: usize = 0;
    while i < n
        invariant
            n == a@.len(),
            m == b@.len(),
            n == m,
            i <= n,
            a@.subrange(0, i as int) == b@.subrange(0, i as int),
        decreases n - i,
    {
        if a.get_char(i) != b.get_char(i) {
            assert(a@[i as int] != b@[i as int]);
            return false;
        }
        assert(a@.subrange(0, i + 1) == a@.subrange(0, i as int).push(a@[i as int]));
        assert(b@.subrange(0, i + 1) == b@.subrange(0, i as int).push(b@[i as int]));
        i = i + 1;
    }
    assert(a@ == a@.subrange(0, n as int));
    assert(b@ == b@.subrange(0, n as int));
    true
}

/// Whether `s` starts with `p`.
pub fn starts_with_text(s: &str, p: &str) -> (r: bool)
    ensures
        r == has_prefix(s@, p@),
{
    let n = s.unicode_len();
    let m = p.unicode_len();
    if m > n {
        return false;
    }
    let head = s.substring_char(0, m);
    text_eq(head, p)
}

/// Whether `s` ends with `p`.
pub fn ends_with_text(s: &str, p: &str) -> (r: bool)
    ensures
        r == has_suffix(s@, p@),
{
    let n = s.unicode_len();
    let m = p.unicode_len();
    if m > n {
        return false;
    }
    let tail = s.substring_char(n - m, n);
    text_eq(tail, p)
}

/// The position of the first `c` in `s`.
pub fn find_char(s: &str, c: char) -> (r: Option<usize>)
    ensures
        match r {
            Some(i) => is_first_index(s@, c, i as int),
            None => forall|j: int| 0 <= j < s@.len() ==> s@[j] != c,
        },
{
    let n = s.unicode_len();
    let mut i: usize = 0;
    while i < n
        invariant
            n == s@.len(),
            i <= n,
            forall|j: int| 0 <= j < i ==> s@[j] != c,
        decreases n - i,
    {
        if s.get_char(i) == c {
            return Some(i);
        }
        i = i + 1;
    }
    None
}

/// The position of the last `c` in `s`.
pub fn rfind_char(s: &str, c: char) -> (r: Option<usize>)
    ensures
        match r {
            Some(i) => is_last_index(s@, c, i as int),
            None => forall|j: int| 0 <= j < s@.len() ==> s@[j] != c,
        },
{
    let n = s.unicode_len();
    let mut i: usize = n;
    while i > 0
        invariant
            n == s@.len(),
            i <= n,
            forall|j: int| i <= j < n ==> s@[j] != c,
        decreases i,
    {
        if s.get_char(i - 1) == c {
            return Some(i - 1);
        }
        i = i - 1;
    }
    None
}

/// An owned copy of the characters of `s` from `from` up to `to`.
pub fn slice_text(s: &str, from: usize, to: usize) -> (r: String)
    requires
        from <= to <= s@.len(),
    ensures
        r@ == s@.subrange(from as int, to as int),
{
    String::from_str(s.substring_char(from, to))
}

/// `a` followed by `b`.
pub fn concat_text(a: &str, b: &str) -> (r: String)
    ensures
        r@ == a@ + b@,
{
    String::from_str(a).concat(b)
}

/// The Unicode White_Space characters, which `char::is_whitespace` accepts.
pub open spec fn is_ws_spec(c: char) -> bool {
    let u = c as u32;
    (0x9 <= u && u <= 0xD) || u == 0x20 || u == 0x85 || u == 0xA0 || u == 0x1680
        || (0x2000 <= u && u <= 0x200A) || u == 0x2028 || u == 0x2029 || u == 0x202F
        || u == 0x205F || u == 0x3000
}

/// Whether `c` is Unicode white space.
pub fn is_ws(c: char) -> (r: bool)
    ensures
        r == is_ws_spec(c),
{
    let u = c as u32;
    (0x9 <= u && u <= 0xD) || u == 0x20 || u == 0x85 || u == 0xA0 || u == 0x1680
        || (0x2000 <= u && u <= 0x200A) || u == 0x2028 || u == 0x2029 || u == 0x202F
        || u == 0x205F || u == 0x3000
}

/// A character that trimming removes: white space, and with `quotes` also `'` and `"`.
pub open spec fn trimmed_char(c: char, quotes: bool) -> bool {
    is_ws_spec(c) || (quotes && (c == '\'' || c == '"'))
}

/// `s` without its leading trimmed characters.
pub open spec fn trim_front(s: Seq<char>, quotes: bool) -> Seq<char>
    decreases s.len(),
{
    if s.len() > 0 && trimmed_char(s[0], quotes) {
        trim_front(s.drop_first(), quotes)
    } else {
        s
    }
}

/// `s` without its trailing trimmed characters.
pub open spec fn trim_back(s: Seq<char>, quotes: bool) -> Seq<char>
    decreases s.len(),
{
    if s.len() > 0 && trimmed_char(s.last(), quotes) {
        trim_back(s.drop_last(), quotes)
    } else {
        s
    }
}

/// `s` without leading or trailing trimmed characters.
pub open spec fn trim_spec(s: Seq<char>, quotes: bool) -> Seq<char> {
    trim_back(trim_front(s, quotes), quotes)
}

/// `s` without leading and trailing white space (and, with `quotes`, quote marks).
pub fn trim_text(s: &str, quotes: bool) -> (r: String)
    ensures
        r@ == trim_spec(s@, quotes),
{
    let n = s.unicode_len();
    let mut i: usize = 0;
    assert(s@.subrange(0, n as int) =~= s@);
    while i < n
        invariant
            n == s@.len(),
            i <= n,
            trim_front(s@, quotes) == trim_front(s@.subrange(i as int, n as int), quotes),
        ensures
            i <= n,
            trim_front(s@, quotes) == trim_front(s@.subrange(i as int, n as int), quotes),
            i < n ==> !trimmed_char(s@[i as int], quotes),
        decreases n - i,
    {
        let c = s.get_char(i);
        if !(is_ws(c) || (quotes && (c == '\'' || c == '"'))) {
            break;
        }
        assert(s@.subrange(i as int, n as int).drop_first() =~= s@.subrange(i + 1, n as int));
        i = i + 1;
    }
    let ghost front = s@.subrange(i as int, n as int);
    if i < n {
        assert(front[0] == s@[i as int]);
    }
    assert(trim_front(s@, quotes) == front);
    let mut j: usize = n;
    while j > i
        invariant
            n == s@.len(),
            i <= j <= n,
            front == s@.subrange(i as int, n as int),
            trim_back(front, quotes) == trim_back(s@.subrange(i as int, j as int), quotes),
        ensures
            i <= j <= n,
            trim_back(front, quotes) == trim_back(s@.subrange(i as int, j as int), quotes),
            j > i ==> !trimmed_char(s@[j - 1], quotes),
        decreases j - i,
    {
        let c = s.get_char(j - 1);
        if !(is_ws(c) || (quotes && (c == '\'' || c == '"'))) {
            break;
        }
        assert(s@.subrange(i as int, j as int).drop_last() =~= s@.subrange(i as int, j - 1));
        j = j - 1;
    }
    if j > i {
        assert(s@.subrange(i as int, j as int).last() == s@[j - 1]);
    }
    assert(trim_back(s@.subrange(i as int, j as int), quotes) == s@.subrange(i as int, j as int));
    slice_text(s, i, j)
}

/// The position of the first `c` in `s` at or after `from`.
pub fn find_char_from(s: &str, c: char, from: usize) -> (r: Option<usize>)
    requires
        from <= s@.len(),
    ensures
        match r {
            Some(i) => from <= i < s@.len() && s@[i as int] == c && forall|j: int| from <= j < i ==> s@[j] != c,
            None => forall|j: int| from <= j < s@.len() ==> s@[j] != c,
        },
{
    let n = s.unicode_len();
    let mut i: usize = from;
    while i < n
        invariant
            n == s@.len(),
            from <= i <= n,
            forall|j: int| from <= j < i ==> s@[j] != c,
        decreases n - i,
    {
        if s.get_char(i) == c {
            return Some(i);
        }
        i = i + 1;
    }
    None
}

} // verus!
