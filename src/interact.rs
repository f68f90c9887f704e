//! Decisions on what the user typed or what the environment says: confirmation answers,
//! template choice, the template tool's arguments, and the shell in use.
use vstd::prelude::*;
use vstd::string::*;
use crate::paths::{last_segment, last_segment_of};
use crate::text::{text_eq, trim_spec, trim_text};

verus! {

/// What `str::to_lowercase` returns for a text.
pub uninterp spec fn lower_of(s: Seq<char>) -> Seq<char>;

/// Relies on str::to_lowercase: the Unicode lower-case form of the text, which depends on
/// the text alone.
#[verifier::external_body]
fn lowercase(s: &str) -> (r: String)
    ensures
        r@ == lower_of(s@),
{
    s.to_lowercase()
}

/// `y` or `yes`.
pub open spec fn is_yes_spec(s: Seq<char>) -> bool {
    s == seq!['y'] || s == seq!['y', 'e', 's']
}

/// Whether an answer already in lower case is yes.
pub fn answer_is_yes(lowered: &str) -> (r: bool)
    ensures
        r == is_yes_spec(lowered@),
{
    let (y, yes) = ("y", "yes");
    proof {
        reveal_strlit("y");
        reveal_strlit("yes");
        assert(y@ =~= seq!['y']);
        assert(yes@ =~= seq!['y', 'e', 's']);
    }
    text_eq(lowered, y) || text_eq(lowered, yes)
}

/// Whether a typed answer is yes: trimmed and lower-cased, it reads `y` or `yes`.
pub fn is_affirmative(input: &str) -> (r: bool)
    ensures
        r == is_yes_spec(lower_of(trim_spec(input@, false))),
{
    let trimmed = trim_text(input, false);
    let lowered = lowercase(trimmed.as_str());
    answer_is_yes(lowered.as_str())
}

/// The value of a decimal digit.
pub open spec fn digit_value(c: char) -> int {
    (c as u32) as int - ('0' as u32) as int
}

/// A decimal digit.
pub open spec fn is_digit(c: char) -> bool {
    '0' <= c && c <= '9'
}

/// The number that a sequence of digits denotes.
pub open spec fn digits_value(s: Seq<char>) -> int
    decreases s.len(),
{
    if s.len() == 0 {
        0
    } else {
        digits_value(s.drop_last()) * 10 + digit_value(s.last())
    }
}

/// The digits of an unsigned decimal: the text after an optional `+`.
pub open spec fn unsigned_digits(s: Seq<char>) -> Seq<char> {
    if s.len() > 0 && s[0] == '+' { s.drop_first() } else { s }
}

/// What `usize::from_str` gives: the value of one or more digits after an optional `+`,
/// when it fits.
pub open spec fn parse_usize_spec(s: Seq<char>) -> Option<int> {
    let d = unsigned_digits(s);
    if d.len() > 0 && (forall|i: int| 0 <= i < d.len() ==> is_digit(#[trigger] d[i])) && digits_value(d) <= usize::MAX {
        Some(digits_value(d))
    } else {
        None
    }
}

proof fn lemma_digits_value_nonneg(s: Seq<char>)
    requires
        forall|i: int| 0 <= i < s.len() ==> is_digit(#[trigger] s[i]),
    ensures
        digits_value(s) >= 0,
    decreases s.len(),
{
    if s.len() > 0 {
        assert forall|i: int| 0 <= i < s.drop_last().len() implies is_digit(#[trigger] s.drop_last()[i]) by {
            assert(s.drop_last()[i] == s[i]);
        }
        lemma_digits_value_nonneg(s.drop_last());
        assert(is_digit(s[s.len() - 1]));
    }
}

proof fn lemma_digits_value_grows(s: Seq<char>, k: int)
    requires
        0 <= k <= s.len(),
        forall|i: int| 0 <= i < s.len() ==> is_digit(#[trigger] s[i]),
    ensures
        digits_value(s.subrange(0, k)) <= digits_value(s),
    decreases s.len() - k,
{
    if k < s.len() {
        lemma_digits_value_grows(s, k + 1);
        let t = s.subrange(0, k + 1);
        assert(t.drop_last() =~= s.subrange(0, k));
        assert forall|i: int| 0 <= i < t.drop_last().len() implies is_digit(#[trigger] t.drop_last()[i]) by {
            assert(t.drop_last()[i] == s[i]);
        }
        lemma_digits_value_nonneg(t.drop_last());
        assert(is_digit(s[k]));
        assert(t.last() == s[k]);
    } else {
        assert(s.subrange(0, k) =~= s);
    }
}

/// The number a text gives as `usize::from_str` reads it.
pub fn parse_usize(s: &str) -> (r: Option<usize>)
    ensures
        match r {
            Some(v) => parse_usize_spec(s@) == Some(v as int),
            None => parse_usize_spec(s@).is_none(),
        },
{
    let n = s.unicode_len();
    let start: usize = if n > 0 && s.get_char(0) == '+' { 1 } else { 0 };
    let ghost d = unsigned_digits(s@);
    assert(d =~= s@.subrange(start as int, n as int));
    if start >= n {
        return None;
    }
    let mut v: usize = 0;
    let mut i: usize = start;
    assert(d.subrange(0, 0) =~= Seq::<char>::empty());
    while i < n
        invariant
            n == s@.len(),
            start <= i <= n,
            d == unsigned_digits(s@),
            d =~= s@.subrange(start as int, n as int),
            forall|j: int| 0 <= j < i - start ==> is_digit(#[trigger] d[j]),
            v as int == digits_value(d.subrange(0, i - start)),
        decreases n - i,
    {
        let c = s.get_char(i);
        assert(d[i - start] == c);
        if !('0' <= c && c <= '9') {
            assert(!is_digit(d[i - start]));
            return None;
        }
        let dv = (c as u32 - '0' as u32) as usize;
        assert(d.subrange(0, i + 1 - start).drop_last() =~= d.subrange(0, i - start));
        assert(d.subrange(0, i + 1 - start).last() == c);
        if v > (usize::MAX - dv) / 10 {
            proof {
                let big = digits_value(d.subrange(0, i + 1 - start));
                assert(big == v as int * 10 + dv as int);
                assert(big > usize::MAX) by (nonlinear_arith)
                    requires
                        big == v as int * 10 + dv as int,
                        v as int > (usize::MAX as int - dv as int) / 10,
                        0 <= dv <= 9,
                {}
                if forall|j: int| 0 <= j < d.len() ==> is_digit(#[trigger] d[j]) {
                    lemma_digits_value_grows(d, i + 1 - start);
                }
            }
            return None;
        }
        v = v * 10 + dv;
        i = i + 1;
    }
    assert(d.subrange(0, n - start) =~= d);
    Some(v)
}

/// The ASCII lower-case form of a character; others unchanged.
pub open spec fn ascii_lower(c: char) -> char {
    if 'A' <= c && c <= 'Z' { ((c as u32) + 32) as char } else { c }
}

/// Equal up to ASCII case, as `str::eq_ignore_ascii_case` compares.
pub open spec fn eq_ignore_case_spec(a: Seq<char>, b: Seq<char>) -> bool {
    a.len() == b.len() && forall|i: int| 0 <= i < a.len() ==> ascii_lower(#[trigger] a[i]) == ascii_lower(b[i])
}

fn ascii_lower_char(c: char) -> (r: char)
    ensures
        r == ascii_lower(c),
{
    if 'A' <= c && c <= 'Z' {
        let b = (c as u32 + 32) as u8;
        b as char
    } else {
        c
    }
}

/// Whether two texts are equal up to ASCII case.
pub fn eq_ignore_case(a: &str, b: &str) -> (r: bool)
    ensures
        r == eq_ignore_case_spec(a@, b@),
{
    let n = a.unicode_len();
    if n != b.unicode_len() {
        return false;
    }
    let mut i: usize = 0;
    while i < n
        invariant
            n == a@.len(),
            n == b@.len(),
            i <= n,
            forall|j: int| 0 <= j < i ==> ascii_lower(#[trigger] a@[j]) == ascii_lower(b@[j]),
        decreases n - i,
    {
        if ascii_lower_char(a.get_char(i)) != ascii_lower_char(b.get_char(i)) {
            return false;
        }
        i = i + 1;
    }
    true
}

/// The template picked by a typed answer: a number from 1 picks by position; otherwise the
/// first template whose name matches up to ASCII case; the answer is trimmed first.
pub open spec fn choose_template_spec(templates: Seq<Seq<char>>, input: Seq<char>) -> Option<Seq<char>> {
    let t = trim_spec(input, false);
    match parse_usize_spec(t) {
        Some(k) if 1 <= k <= templates.len() => Some(templates[k - 1]),
        _ => if exists|i: int| 0 <= i < templates.len() && eq_ignore_case_spec(templates[i], t) {
            Some(templates[choose|i: int| 0 <= i < templates.len() && eq_ignore_case_spec(templates[i], t)
                && forall|j: int| 0 <= j < i ==> !eq_ignore_case_spec(templates[j], t)])
        } else {
            None
        },
    }
}

/// The views of a vector of strings.
pub open spec fn text_views(v: Seq<String>) -> Seq<Seq<char>> {
    v.map_values(|s: String| s@)
}

/// The template picked from `templates` by the answer `input`.
pub fn choose_template(templates: &Vec<String>, input: &str) -> (r: Option<String>)
    ensures
        match r {
            Some(t) => choose_template_spec(text_views(templates@), input@) == Some(t@),
            None => choose_template_spec(text_views(templates@), input@).is_none(),
        },
{
    let ghost tv = text_views(templates@);
    let t = trim_text(input, false);
    match parse_usize(t.as_str()) {
        Some(k) => {
            if k >= 1 && k <= templates.len() {
                assert(tv[k - 1] == templates@[k - 1]@);
                return Some(String::from_str(templates[k - 1].as_str()));
            }
        },
        None => {},
    }
    let mut i: usize = 0;
    while i < templates.len()
        invariant
            tv == text_views(templates@),
            t@ == trim_spec(input@, false),
            match parse_usize_spec(t@) {
                Some(k) => !(1 <= k <= tv.len()),
                None => true,
            },
            i <= templates@.len(),
            forall|j: int| 0 <= j < i ==> !eq_ignore_case_spec(tv[j], t@),
        decreases templates@.len() - i,
    {
        assert(tv[i as int] == templates@[i as int]@);
        if eq_ignore_case(templates[i].as_str(), t.as_str()) {
            let ghost c = choose|c: int| 0 <= c < tv.len() && eq_ignore_case_spec(tv[c], t@)
                && forall|j: int| 0 <= j < c ==> !eq_ignore_case_spec(tv[j], t@);
            assert(0 <= i < tv.len() && eq_ignore_case_spec(tv[i as int], t@)
                && forall|j: int| 0 <= j < i ==> !eq_ignore_case_spec(tv[j], t@));
            assert(c == i as int) by {
                if c < i {
                } else if c > i {
                    assert(!eq_ignore_case_spec(tv[i as int], t@));
                }
            }
            return Some(String::from_str(templates[i].as_str()));
        }
        i = i + 1;
    }
    None
}

/// The arguments to the template tool: `template use <t> .`, and unless interactive,
/// `--use-defaults -d <data>`.
pub fn boilr_args(template: &str, data: &str, interactive: bool) -> (r: Vec<String>)
    ensures
        text_views(r@) == seq!["template"@, "use"@, template@, "."@] + (if interactive {
            Seq::<Seq<char>>::empty()
        } else {
            seq!["--use-defaults"@, "-d"@, data@]
        }),
{
    let mut v: Vec<String> = Vec::new();
    v.push(String::from_str("template"));
    v.push(String::from_str("use"));
    v.push(String::from_str(template));
    v.push(String::from_str("."));
    if !interactive {
        v.push(String::from_str("--use-defaults"));
        v.push(String::from_str("-d"));
        v.push(String::from_str(data));
    }
    assert(text_views(v@) =~= seq!["template"@, "use"@, template@, "."@] + (if interactive {
        Seq::<Seq<char>>::empty()
    } else {
        seq!["--use-defaults"@, "-d"@, data@]
    }));
    v
}

/// The shell in use: `bash` when `BASH` is set, else `zsh` when `ZSH_NAME` is, else the
/// last part of `SHELL` (empty when unset).
pub open spec fn detect_shell_spec(bash_set: bool, zsh_set: bool, shell: Option<Seq<char>>) -> Seq<char> {
    if bash_set {
        "bash"@
    } else if zsh_set {
        "zsh"@
    } else {
        match shell {
            Some(s) => last_segment(s),
            None => seq![],
        }
    }
}

/// The shell in use, from what the environment says.
pub fn detect_shell(bash_set: bool, zsh_set: bool, shell: Option<&str>) -> (r: String)
    ensures
        r@ == detect_shell_spec(bash_set, zsh_set, match shell {
            Some(s) => Some(s@),
            None => None,
        }),
{
    if bash_set {
        String::from_str("bash")
    } else if zsh_set {
        String::from_str("zsh")
    } else {
        match shell {
            Some(s) => last_segment_of(s),
            None => String::new(),
        }
    }
}

} // verus!
