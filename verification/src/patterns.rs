//! The character classes and the shapes of text that the URL rules look for.
//!
//! A shape is stated so that at most one reading of a text fits it: a run of
//! characters is always the longest one. Each executable function computes
//! the spec function that its contract names.

use crate::bindings::{regex_is_match, regex_match, string_of};
use crate::text::{chars_of, ends_with, finishes_with};
use vstd::prelude::*;

verus! {

/// A digit, `0` to `9`.
pub open spec fn is_digit(c: char) -> bool {
    '0' as u32 <= c as u32 <= '9' as u32
}

/// A letter of ASCII.
pub open spec fn is_alpha(c: char) -> bool {
    ('a' as u32 <= c as u32 <= 'z' as u32) || ('A' as u32 <= c as u32 <= 'Z' as u32)
}

/// A letter or a digit of ASCII.
pub open spec fn is_alnum(c: char) -> bool {
    is_alpha(c) || is_digit(c)
}

/// A word character: a letter, a digit or `_` of ASCII; beyond ASCII, what the
/// `regex` crate takes for `\w`.
pub open spec fn is_word(c: char) -> bool {
    if (c as u32) < 128 {
        is_alnum(c) || c == '_'
    } else {
        regex_match("^\\w$"@, seq![c]) == Some(true)
    }
}

/// A character of a file or directory name in a URL.
pub open spec fn is_name_char(c: char) -> bool {
    is_alnum(c) || c == '~' || c == '+' || c == '-' || c == '%' || c == '[' || c == ']' || c == '$'
        || c == '_' || c == '.' || c == '!' || c == '\u{2018}' || c == '(' || c == ')' || c == '='
}

/// The sets of characters that the shapes are made of.
#[derive(Clone, Copy, Debug, PartialEq, Eq, Structural)]
pub enum Class {
    /// `0` to `9`.
    Digit,
    /// ASCII letters and digits.
    Alnum,
    /// Word characters.
    Word,
    /// Name characters.
    Name,
    /// Name characters and the space.
    Spaced,
    /// Name characters, `*` and `?`.
    Symbol,
    /// Name characters, `*`, `?` and the space.
    Loose,
}

impl Class {
    pub open spec fn includes(self, c: char) -> bool {
        match self {
            Class::Digit => is_digit(c),
            Class::Alnum => is_alnum(c),
            Class::Word => is_word(c),
            Class::Name => is_name_char(c),
            Class::Spaced => is_name_char(c) || c == ' ',
            Class::Symbol => is_name_char(c) || c == '*' || c == '?',
            Class::Loose => is_name_char(c) || c == '*' || c == '?' || c == ' ',
        }
    }

    /// Whether `c` belongs to the class.
    pub fn holds(self, c: char) -> (r: bool)
        ensures
            r == self.includes(c),
    {
        match self {
            Class::Digit => digit(c),
            Class::Alnum => alnum(c),
            Class::Word => word(c),
            Class::Name => name_char(c),
            Class::Spaced => name_char(c) || c == ' ',
            Class::Symbol => name_char(c) || c == '*' || c == '?',
            Class::Loose => name_char(c) || c == '*' || c == '?' || c == ' ',
        }
    }
}

/// Whether a character is a digit.
pub fn digit(c: char) -> (r: bool)
    ensures
        r == is_digit(c),
{
    let n: u32 = c as u32;
    48 <= n && n <= 57
}

/// Whether a character is a letter of ASCII.
pub fn alpha(c: char) -> (r: bool)
    ensures
        r == is_alpha(c),
{
    let n: u32 = c as u32;
    (97 <= n && n <= 122) || (65 <= n && n <= 90)
}

/// Whether a character is a letter or a digit of ASCII.
pub fn alnum(c: char) -> (r: bool)
    ensures
        r == is_alnum(c),
{
    alpha(c) || digit(c)
}

/// Whether a character is a word character.
pub fn word(c: char) -> (r: bool)
    ensures
        r == is_word(c),
{
    let n: u32 = c as u32;
    if n < 128 {
        alnum(c) || c == '_'
    } else {
        let mut one: Vec<char> = Vec::new();
        one.push(c);
        assert(one@ == seq![c]);
        let text = string_of(&one);
        match regex_is_match("^\\w$", text.as_str()) {
            Some(found) => found,
            None => false,
        }
    }
}

/// Whether a character is a name character.
pub fn name_char(c: char) -> (r: bool)
    ensures
        r == is_name_char(c),
{
    alnum(c) || c == '~' || c == '+' || c == '-' || c == '%' || c == '[' || c == ']' || c == '$'
        || c == '_' || c == '.' || c == '!' || c == '\u{2018}' || c == '(' || c == ')' || c == '='
}

/// How many characters at the end of `s` belong to `class`, one after another.
pub open spec fn trailing(s: Seq<char>, class: Class) -> nat
    decreases s.len(),
{
    if s.len() > 0 && class.includes(s.last()) {
        1 + trailing(s.drop_last(), class)
    } else {
        0
    }
}

/// How many characters at the start of `s` belong to `class`, one after
/// another.
pub open spec fn leading(s: Seq<char>, class: Class) -> nat
    decreases s.len(),
{
    if s.len() > 0 && class.includes(s[0]) {
        1 + leading(s.skip(1), class)
    } else {
        0
    }
}

/// The length of the run of `class` that ends just before index `end`.
pub fn run_before(s: &Vec<char>, end: usize, class: Class) -> (n: usize)
    requires
        end <= s.len(),
    ensures
        n == trailing(s@.take(end as int), class),
        n <= end,
{
    let mut j: usize = end;
    while j > 0 && class.holds(s[j - 1])
        invariant
            j <= end <= s.len(),
            trailing(s@.take(end as int), class) == (end - j) + trailing(s@.take(j as int), class),
        decreases j,
    {
        proof {
            assert(s@.take(j as int).drop_last() == s@.take(j - 1));
        }
        j -= 1;
    }
    proof {
        if j > 0 {
            assert(s@.take(j as int).last() == s@[j - 1]);
        }
    }
    end - j
}

/// The length of the run of `class` that begins at index `start`.
pub fn run_from(s: &Vec<char>, start: usize, class: Class) -> (n: usize)
    requires
        start <= s.len(),
    ensures
        n == leading(s@.skip(start as int), class),
        start + n <= s.len(),
{
    let mut j: usize = start;
    while j < s.len() && class.holds(s[j])
        invariant
            start <= j <= s.len(),
            leading(s@.skip(start as int), class) == (j - start) + leading(s@.skip(j as int), class),
        decreases s.len() - j,
    {
        proof {
            assert(s@.skip(j as int).skip(1) == s@.skip(j + 1));
        }
        j += 1;
    }
    proof {
        if j < s.len() {
            assert(s@.skip(j as int)[0] == s@[j as int]);
        }
    }
    j - start
}

/// `s` without one `/` at its end.
pub open spec fn without_slash(s: Seq<char>) -> Seq<char> {
    if s.len() > 0 && s.last() == '/' {
        s.drop_last()
    } else {
        s
    }
}

/// The length of `s` without one `/` at its end.
pub fn length_without_slash(s: &Vec<char>) -> (n: usize)
    ensures
        n <= s.len(),
        s@.take(n as int) == without_slash(s@),
{
    if s.len() > 0 && s[s.len() - 1] == '/' {
        s.len() - 1
    } else {
        assert(s@.take(s.len() as int) == s@);
        s.len()
    }
}

/// `t` ends with a file extension: a dot, then a letter or digit, then a
/// letter, then up to five letters or digits.
pub open spec fn has_extension(t: Seq<char>) -> bool {
    let k = trailing(t, Class::Alnum);
    2 <= k <= 7 && k < t.len() && t[t.len() - k - 1] == '.' && is_alpha(t[t.len() - k + 1])
}

/// The text ends with a file extension, or with one and a `/`.
pub open spec fn ends_in_extension(s: Seq<char>) -> bool {
    has_extension(without_slash(s))
}

/// The text ends like the URL of a file: a word character, a `/`, a name of
/// name characters and spaces, and a file extension, with or without a `/`
/// behind it.
pub open spec fn ends_in_file(s: Seq<char>) -> bool {
    let t = without_slash(s);
    let k = trailing(t, Class::Alnum);
    let dot = t.len() - k - 1;
    let m = trailing(t.take(dot), Class::Spaced);
    let slash = dot - m - 1;
    has_extension(t) && m >= 1 && slash >= 1 && t[slash] == '/' && is_word(t[slash - 1])
}

/// The length of the web page extension that `t` ends with, dot included.
pub open spec fn page_extension(t: Seq<char>) -> Option<int> {
    if ends_with(t, ".html"@) {
        Some(".html"@.len() as int)
    } else if ends_with(t, ".htm"@) {
        Some(".htm"@.len() as int)
    } else if ends_with(t, ".aspx"@) {
        Some(".aspx"@.len() as int)
    } else if ends_with(t, ".asp"@) {
        Some(".asp"@.len() as int)
    } else if ends_with(t, ".php"@) {
        Some(".php"@.len() as int)
    } else {
        None
    }
}

/// Where the name of a web page begins, if the text ends with one: name
/// characters, then `.htm`, `.html`, `.asp`, `.aspx` or `.php`, with or
/// without a `/` behind it.
pub open spec fn page_start(s: Seq<char>) -> Option<int> {
    let t = without_slash(s);
    match page_extension(t) {
        Some(e) => {
            let m = trailing(t.take(t.len() - e), Class::Name);
            if m >= 1 {
                Some(t.len() - e - m)
            } else {
                None
            }
        },
        None => None,
    }
}

/// The text ends with the name of a web page.
pub open spec fn ends_in_page(s: Seq<char>) -> bool {
    page_start(s) is Some
}

/// Somewhere in the text a `/` follows a symbol character.
pub open spec fn has_plain_segment(s: Seq<char>) -> bool {
    exists|i: int| 1 <= i < s.len() && s[i] == '/' && #[trigger] Class::Symbol.includes(s[i - 1])
}

/// The number that a text of digits writes.
pub open spec fn decimal_value(digits: Seq<char>) -> nat
    decreases digits.len(),
{
    if digits.len() == 0 {
        0
    } else {
        (decimal_value(digits.drop_last()) * 10 + (digits.last() as u32 - '0' as u32)) as nat
    }
}

/// The text ends with `?page=` and one to three digits.
pub open spec fn has_page_suffix(s: Seq<char>) -> bool {
    let k = trailing(s, Class::Digit);
    1 <= k <= 3 && ends_with(s.take(s.len() - k), "?page="@)
}

/// The number behind `?page=` at the end of the text.
pub open spec fn page_suffix_number(s: Seq<char>) -> nat {
    decimal_value(s.skip(s.len() - trailing(s, Class::Digit)))
}

/// The text without the `?page=` and digits at its end.
pub open spec fn without_page_suffix(s: Seq<char>) -> Seq<char> {
    if has_page_suffix(s) {
        s.take(s.len() - trailing(s, Class::Digit) - "?page="@.len())
    } else {
        s
    }
}

/// Where a segment `/?key=value/` that begins at index `i` ends: behind its
/// last `/`. Key and value are runs of word characters.
pub open spec fn query_segment_end(s: Seq<char>, i: int) -> Option<int> {
    if 0 <= i && i + 1 < s.len() && s[i] == '/' && s[i + 1] == '?' {
        let a = leading(s.skip(i + 2), Class::Word);
        let eq = i + 2 + a;
        if a >= 1 && eq < s.len() && s[eq] == '=' {
            let b = leading(s.skip(eq + 1), Class::Word);
            let end = eq + 1 + b;
            if b >= 1 && end < s.len() && s[end] == '/' {
                Some(end + 1)
            } else {
                None
            }
        } else {
            None
        }
    } else {
        None
    }
}

/// The first segment `/?key=value/` at or after index `from`: where it
/// begins and where it ends.
pub open spec fn query_segment(s: Seq<char>, from: int) -> Option<(int, int)>
    decreases s.len() - from,
{
    if from < 0 || from >= s.len() {
        None
    } else {
        match query_segment_end(s, from) {
            Some(end) => Some((from, end)),
            None => query_segment(s, from + 1),
        }
    }
}

/// Where the file at the end of a path begins, at its `/`: a `/`, a name of
/// name characters, `*`, `?` and spaces, a dot and two to four word
/// characters, with or without a `/` behind them.
pub open spec fn file_tail_start(path: Seq<char>) -> Option<int> {
    let t = without_slash(path);
    let k = trailing(t, Class::Word);
    let dot = t.len() - k - 1;
    let m = trailing(t.take(dot), Class::Loose);
    let slash = dot - m - 1;
    if 2 <= k <= 4 && dot >= 0 && t[dot] == '.' && m >= 1 && slash >= 0 && t[slash] == '/' {
        Some(slash)
    } else {
        None
    }
}

/// Whether `t`, the first `len` characters of `s`, ends with a file extension.
fn extension_before(s: &Vec<char>, len: usize) -> (r: bool)
    requires
        len <= s.len(),
    ensures
        r == has_extension(s@.take(len as int)),
{
    let k = run_before(s, len, Class::Alnum);
    2 <= k && k <= 7 && k < len && s[len - k - 1] == '.' && alpha(s[len - k + 1])
}

/// Whether the text ends with a file extension, or with one and a `/`.
pub fn extension_at_end(s: &Vec<char>) -> (r: bool)
    ensures
        r == ends_in_extension(s@),
{
    let len = length_without_slash(s);
    extension_before(s, len)
}

/// Whether the text ends like the URL of a file.
pub fn file_at_end(s: &Vec<char>) -> (r: bool)
    ensures
        r == ends_in_file(s@),
{
    let len = length_without_slash(s);
    if !extension_before(s, len) {
        return false;
    }
    let k = run_before(s, len, Class::Alnum);
    let dot: usize = len - k - 1;
    proof {
        assert(s@.take(len as int).take(dot as int) == s@.take(dot as int));
    }
    let m = run_before(s, dot, Class::Spaced);
    if m < 1 || dot - m < 2 {
        return false;
    }
    let slash: usize = dot - m - 1;
    s[slash] == '/' && word(s[slash - 1])
}

/// The length of the web page extension before index `len`, dot included.
fn page_extension_before(s: &Vec<char>, len: usize) -> (r: Option<usize>)
    requires
        len <= s.len(),
    ensures
        match r {
            Some(e) => page_extension(s@.take(len as int)) == Some(e as int) && e <= len,
            None => page_extension(s@.take(len as int)) is None,
        },
{
    let t = crate::text::slice(s, 0, len);
    let html = chars_of(".html");
    let htm = chars_of(".htm");
    let aspx = chars_of(".aspx");
    let asp = chars_of(".asp");
    let php = chars_of(".php");
    if finishes_with(&t, &html) {
        Some(html.len())
    } else if finishes_with(&t, &htm) {
        Some(htm.len())
    } else if finishes_with(&t, &aspx) {
        Some(aspx.len())
    } else if finishes_with(&t, &asp) {
        Some(asp.len())
    } else if finishes_with(&t, &php) {
        Some(php.len())
    } else {
        None
    }
}

/// Where the name of a web page begins, if the text ends with one.
pub fn page_at_end(s: &Vec<char>) -> (r: Option<usize>)
    ensures
        match r {
            Some(i) => page_start(s@) == Some(i as int) && i <= s.len(),
            None => page_start(s@) is None,
        },
{
    let len = length_without_slash(s);
    match page_extension_before(s, len) {
        Some(e) => {
            proof {
                assert(s@.take(len as int).take(len - e) == s@.take(len - e));
            }
            let m = run_before(s, len - e, Class::Name);
            if m >= 1 {
                Some(len - e - m)
            } else {
                None
            }
        },
        None => None,
    }
}

/// Whether somewhere in the text a `/` follows a symbol character.
pub fn plain_segment(s: &Vec<char>) -> (r: bool)
    ensures
        r == has_plain_segment(s@),
{
    let mut i: usize = 1;
    while i < s.len()
        invariant
            1 <= i,
            forall|j: int|
                1 <= j < i && j < s.len() ==> !(s@[j] == '/' && #[trigger] Class::Symbol.includes(
                    s@[j - 1],
                )),
        decreases s.len() - i,
    {
        if s[i] == '/' && Class::Symbol.holds(s[i - 1]) {
            return true;
        }
        i += 1;
    }
    false
}

/// The number that at most three digits before index `end` write.
fn read_digits(s: &Vec<char>, start: usize, end: usize) -> (n: usize)
    requires
        start <= end <= s.len(),
        end - start <= 3,
        forall|j: int| start <= j < end ==> is_digit(s@[j]),
    ensures
        n == decimal_value(s@.subrange(start as int, end as int)),
        n <= 999,
{
    let mut n: usize = 0;
    let mut j: usize = start;
    while j < end
        invariant
            start <= j <= end <= s.len(),
            end - start <= 3,
            forall|q: int| start <= q < end ==> is_digit(s@[q]),
            n == decimal_value(s@.subrange(start as int, j as int)),
            j - start == 0 ==> n == 0,
            j - start == 1 ==> n <= 9,
            j - start == 2 ==> n <= 99,
            j - start == 3 ==> n <= 999,
        decreases end - j,
    {
        let d: u32 = s[j] as u32 - 48;
        proof {
            assert(s@.subrange(start as int, j + 1).drop_last() == s@.subrange(
                start as int,
                j as int,
            ));
        }
        n = n * 10 + d as usize;
        j += 1;
    }
    n
}

/// The page number at the end of the text, where it ends with `?page=` and
/// one to three digits.
pub fn page_suffix(s: &Vec<char>) -> (r: Option<usize>)
    ensures
        match r {
            Some(n) => has_page_suffix(s@) && n == page_suffix_number(s@) && n <= 999,
            None => !has_page_suffix(s@),
        },
{
    proof {
        assert(s@.take(s.len() as int) == s@);
        reveal_strlit("?page=");
    }
    let k = run_before(s, s.len(), Class::Digit);
    if k < 1 || k > 3 {
        return None;
    }
    let head = crate::text::slice(s, 0, s.len() - k);
    if !finishes_with(&head, &chars_of("?page=")) {
        return None;
    }
    proof {
        lemma_run_members(s@, Class::Digit);
        assert(s@.skip(s.len() - k) == s@.subrange(s.len() - k, s.len() as int));
    }
    Some(read_digits(s, s.len() - k, s.len()))
}

/// Every character of the run at the end of `s` belongs to the class.
pub proof fn lemma_run_members(s: Seq<char>, class: Class)
    ensures
        trailing(s, class) <= s.len(),
        forall|j: int| s.len() - trailing(s, class) <= j < s.len() ==> class.includes(#[trigger] s[j]),
    decreases s.len(),
{
    if s.len() > 0 && class.includes(s.last()) {
        lemma_run_members(s.drop_last(), class);
        assert forall|j: int| s.len() - trailing(s, class) <= j < s.len() implies class.includes(
            #[trigger] s[j],
        ) by {
            if j < s.len() - 1 {
                assert(s.drop_last()[j] == s[j]);
            }
        }
    }
}

/// The length of the text without the `?page=` and digits at its end.
pub fn length_without_page_suffix(s: &Vec<char>) -> (n: usize)
    ensures
        n <= s.len(),
        s@.take(n as int) == without_page_suffix(s@),
{
    proof {
        assert(s@.take(s.len() as int) == s@);
    }
    match page_suffix(s) {
        Some(_) => {
            let k = run_before(s, s.len(), Class::Digit);
            s.len() - k - chars_of("?page=").len()
        },
        None => s.len(),
    }
}

/// Where a segment `/?key=value/` that begins at index `i` ends.
pub fn query_segment_at(s: &Vec<char>, i: usize) -> (r: Option<usize>)
    ensures
        match r {
            Some(end) => query_segment_end(s@, i as int) == Some(end as int) && i < end <= s.len(),
            None => query_segment_end(s@, i as int) is None,
        },
{
    if s.len() < 2 || i >= s.len() - 1 || s[i] != '/' || s[i + 1] != '?' {
        return None;
    }
    let a = run_from(s, i + 2, Class::Word);
    let eq: usize = i + 2 + a;
    if a < 1 || eq >= s.len() || s[eq] != '=' {
        return None;
    }
    let b = run_from(s, eq + 1, Class::Word);
    let end: usize = eq + 1 + b;
    if b < 1 || end >= s.len() || s[end] != '/' {
        return None;
    }
    Some(end + 1)
}

/// The first segment `/?key=value/` of the text: where it begins and ends.
pub fn first_query_segment(s: &Vec<char>) -> (r: Option<(usize, usize)>)
    ensures
        match r {
            Some((start, end)) => query_segment(s@, 0) == Some((start as int, end as int))
                && start < end <= s.len(),
            None => query_segment(s@, 0) is None,
        },
{
    let mut i: usize = 0;
    while i < s.len()
        invariant
            i <= s.len(),
            query_segment(s@, 0) == query_segment(s@, i as int),
        decreases s.len() - i,
    {
        match query_segment_at(s, i) {
            Some(end) => {
                return Some((i, end));
            },
            None => {},
        }
        i += 1;
    }
    None
}

/// Where the file at the end of a path begins, at its `/`.
pub fn file_tail(path: &Vec<char>) -> (r: Option<usize>)
    ensures
        match r {
            Some(slash) => file_tail_start(path@) == Some(slash as int) && slash < path.len(),
            None => file_tail_start(path@) is None,
        },
{
    let len = length_without_slash(path);
    let k = run_before(path, len, Class::Word);
    if k < 2 || k > 4 || k >= len {
        return None;
    }
    let dot: usize = len - k - 1;
    if path[dot] != '.' {
        return None;
    }
    proof {
        assert(path@.take(len as int).take(dot as int) == path@.take(dot as int));
    }
    let m = run_before(path, dot, Class::Loose);
    if m < 1 || m >= dot {
        return None;
    }
    let slash: usize = dot - m - 1;
    if path[slash] == '/' {
        Some(slash)
    } else {
        None
    }
}

} // verus!
