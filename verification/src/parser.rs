//! URL utilities: cleaning, joining and classifying the links of a listing.

use crate::bindings::{
    lowercase_of, parse_url, QUERY_LIMIT, regex_is_match, regex_match, set_query, string_of,
    to_lowercase, url_parse, url_with_query, UrlParts, UrlPartsView,
};
use crate::patterns::{
    ends_in_extension, ends_in_file, ends_in_page, extension_at_end, file_at_end,
    has_page_suffix, has_plain_segment, length_without_page_suffix, page_at_end, page_start,
    page_suffix, page_suffix_number, plain_segment, without_page_suffix,
};
use crate::text::{
    begins_with, chars_of, concat, contains, decimal, decimal_text, ends_with, finishes_with,
    includes, join, join_with, replace_all, replace_all_in, same, slice, split, split_on,
    starts_with, text_is, views,
};
use vstd::prelude::*;

verus! {

/// `s` without one `/` at its end.
pub open spec fn without_last_slash(s: Seq<char>) -> Seq<char> {
    if ends_with(s, "/"@) {
        s.drop_last()
    } else {
        s
    }
}

/// `s` without `?preview` at its end.
pub open spec fn without_preview(s: Seq<char>) -> Seq<char> {
    if ends_with(s, "?preview"@) {
        s.take(s.len() - "?preview"@.len())
    } else {
        s
    }
}

/// `s` with `http://` before it, unless it begins with `http://` or
/// `https://`.
pub open spec fn with_scheme(s: Seq<char>) -> Seq<char> {
    if starts_with(s, "http://"@) || starts_with(s, "https://"@) {
        s
    } else {
        "http://"@ + s
    }
}

/// `s` without `http://` or `https://` at its start.
pub open spec fn without_scheme(s: Seq<char>) -> Seq<char> {
    if starts_with(s, "https://"@) {
        s.skip("https://"@.len() as int)
    } else if starts_with(s, "http://"@) {
        s.skip("http://"@.len() as int)
    } else {
        s
    }
}

/// `s` without `?preview`, with a scheme, and with a `/` at its end.
pub open spec fn with_last_slash(s: Seq<char>) -> Seq<char> {
    let t = with_scheme(without_preview(s));
    if ends_with(t, "/"@) {
        t
    } else {
        t.push('/')
    }
}

/// No `?` and no `#` stands in the text: what there is of it is path.
pub open spec fn is_path(h: Seq<char>) -> bool {
    forall|i: int| 0 <= i < h.len() ==> h[i] != '?' && h[i] != '#'
}

/// Behind `h`, the character `c` ends a `/?/`.
pub open spec fn ends_query_path(h: Seq<char>, c: char) -> bool {
    c == '/' && h.len() >= 2 && h[h.len() - 1] == '?' && h[h.len() - 2] == '/'
}

/// Behind `h`, the character `c` doubles a slash of the path: `h` is path
/// and ends with a `/` that is not the first of a `://` nor of a `//` at the
/// start of the text.
pub open spec fn doubles_slash(h: Seq<char>, c: char) -> bool {
    c == '/' && h.len() >= 2 && h[h.len() - 1] == '/' && h[h.len() - 2] != ':' && is_path(h)
}

/// The text, tidied: read from the left, every `/?/` is made a `/`, until
/// none is left, and a `/` that doubles a slash of the path is dropped. What
/// stands behind the first `?` or `#` that stays keeps its slashes.
pub open spec fn tidy(s: Seq<char>) -> Seq<char>
    decreases s.len(),
{
    if s.len() == 0 {
        s
    } else {
        let h = tidy(s.drop_last());
        if ends_query_path(h, s.last()) {
            h.drop_last()
        } else if doubles_slash(h, s.last()) {
            h
        } else {
            h.push(s.last())
        }
    }
}

/// The text is tidy: nowhere in it a character ends a `/?/` or doubles a
/// slash of the path.
pub open spec fn is_tidy(o: Seq<char>) -> bool {
    forall|k: int|
        0 <= k < o.len() ==> !ends_query_path(#[trigger] o.take(k), o[k]) && !doubles_slash(
            o.take(k),
            o[k],
        )
}

/// The URL parser reads the text as a URL that it writes as this text.
pub open spec fn reads_back(n: Seq<char>) -> bool {
    url_parse(n) is Some && url_parse(n)->0.href == n
}

/// The normal form of a text that the URL parser reads: what the parser
/// writes for it, tidied; none where the parser does not read the text, or
/// does not read the normal form back as it stands.
pub open spec fn settled(text: Seq<char>) -> Option<Seq<char>> {
    match url_parse(text) {
        Some(p) => if reads_back(tidy(p.href)) {
            Some(tidy(p.href))
        } else {
            None
        },
        None => None,
    }
}

/// The URL that a text stands for, with every `/?/` made a `/`: the normal
/// form of the tidied text.
pub open spec fn no_query_path_spec(url: Seq<char>) -> Option<Seq<char>> {
    settled(tidy(url))
}

/// The text holds `../`.
pub open spec fn is_back(rel: Seq<char>) -> bool {
    contains(rel, "../"@)
}

/// A path segment that only routes inside a listing: `home`, `download`,
/// `view`, `preview`, or a bread-crumb number, which is digits alone.
pub open spec fn is_route_segment(seg: Seq<char>) -> bool {
    seg == "home"@ || seg == "download"@ || is_view_segment(seg)
}

/// A route segment other than `home` and `download`.
pub open spec fn is_view_segment(seg: Seq<char>) -> bool {
    seg == "view"@ || seg == "preview"@ || (seg.len() > 0 && forall|i: int|
        0 <= i < seg.len() ==> crate::patterns::is_digit(#[trigger] seg[i]))
}

/// The segments that are no route segments, in their order.
pub open spec fn without_routes(parts: Seq<Seq<char>>) -> Seq<Seq<char>>
    decreases parts.len(),
{
    if parts.len() == 0 {
        parts
    } else if is_route_segment(parts.last()) {
        without_routes(parts.drop_last())
    } else {
        without_routes(parts.drop_last()).push(parts.last())
    }
}

/// Some segment is a route segment other than `home` and `download`.
pub open spec fn has_view_segment(parts: Seq<Seq<char>>) -> bool {
    exists|i: int| 0 <= i < parts.len() && is_view_segment(#[trigger] parts[i])
}

/// The link lies under the base: it begins with it, or, where it has at least
/// four pieces between slashes, it does so once the route segments are taken
/// out of both and `?page=N` is taken off the end of the base.
pub open spec fn is_under(link: Seq<char>, base: Seq<char>) -> bool {
    starts_with(link, base) || (split(link, '/').len() >= 4 && starts_with(
        join(without_routes(split(link, '/')), '/'),
        without_page_suffix(join(without_routes(split(base, '/')), '/')),
    ))
}

/// Whether to follow a `?page=N` link, and the page that is then current:
/// followed where the link ends with `?page=` and one to three digits, the
/// number is above the current page, and the current page is below the limit.
pub open spec fn page_step(rel: Seq<char>, cur: usize, max: usize) -> (bool, usize) {
    if has_page_suffix(rel) && cur < max && cur < page_suffix_number(rel) {
        (true, page_suffix_number(rel) as usize)
    } else {
        (false, cur)
    }
}

/// A lower-case text holds one of the queries that sort or fold a listing.
pub open spec fn has_listing_query(lowered: Seq<char>) -> bool {
    contains(lowered, "sortby"@) || contains(lowered, "&sort_mode="@) || contains(
        lowered,
        "&sort="@,
    ) || contains(lowered, "&file="@) || contains(lowered, "archive=true"@) || contains(
        lowered,
        "&expand="@,
    ) || contains(lowered, "&collapse="@)
}

/// Where the page name and `?` end that stand before a `/` at the start of
/// a link: at `?/` itself, or at a name that ends in `.html` and `?/`.
pub open spec fn page_prefix_len(s: Seq<char>) -> int {
    match crate::text::find(s, "?/"@, 0) {
        Some(i) => if i == 0 || ends_with(s.take(i), ".html"@) {
            i + 1
        } else {
            0
        },
        None => 0,
    }
}

/// The length of the route prefix of a link: `/download`, `/home`, `/view`
/// or `/preview` as its whole first segment.
pub open spec fn route_prefix_len(s: Seq<char>) -> nat {
    if is_whole_prefix(s, "/download"@) {
        "/download"@.len()
    } else if is_whole_prefix(s, "/home"@) {
        "/home"@.len()
    } else if is_whole_prefix(s, "/view"@) {
        "/view"@.len()
    } else if is_whole_prefix(s, "/preview"@) {
        "/preview"@.len()
    } else {
        0
    }
}

/// `s` begins with `p`, and `p` ends there or a `/` follows.
pub open spec fn is_whole_prefix(s: Seq<char>, p: Seq<char>) -> bool {
    starts_with(s, p) && (s.len() == p.len() || s[p.len() as int] == '/')
}

/// The link without its route prefix, then without its page prefix, then
/// without `?preview` at its end.
pub open spec fn sanitized(url: Seq<char>) -> Seq<char> {
    let a = url.skip(route_prefix_len(url) as int);
    let b = a.skip(page_prefix_len(a));
    without_preview(b)
}

/// The text without one `/` at its end.
pub(crate) fn remove_last_slash_chars(url: &Vec<char>) -> (r: Vec<char>)
    ensures
        r@ == without_last_slash(url@),
{
    proof {
        reveal_strlit("/");
    }
    if finishes_with(url, &chars_of("/")) {
        slice(url, 0, url.len() - 1)
    } else {
        slice(url, 0, url.len())
    }
}

/// Removes the last slash from the URL.
pub fn remove_last_slash(url: &str) -> (r: String)
    ensures
        r@ == without_last_slash(url@),
{
    string_of(&remove_last_slash_chars(&chars_of(url)))
}

/// The text without `?preview` at its end.
pub(crate) fn remove_preview_query_chars(url: &Vec<char>) -> (r: Vec<char>)
    ensures
        r@ == without_preview(url@),
{
    let tail = chars_of("?preview");
    if finishes_with(url, &tail) {
        slice(url, 0, url.len() - tail.len())
    } else {
        slice(url, 0, url.len())
    }
}

/// Removes the `?preview` query from a URL.
pub fn remove_preview_query(url: &str) -> (r: String)
    ensures
        r@ == without_preview(url@),
{
    string_of(&remove_preview_query_chars(&chars_of(url)))
}

/// The text with `http://` before it, unless it has such a scheme.
pub(crate) fn add_scheme_chars(url: &Vec<char>) -> (r: Vec<char>)
    ensures
        r@ == with_scheme(url@),
{
    if begins_with(url, &chars_of("http://")) || begins_with(url, &chars_of("https://")) {
        slice(url, 0, url.len())
    } else {
        concat(&chars_of("http://"), url)
    }
}

/// Removes `http://` or `https://` from the start of a URL.
pub fn remove_http(url: &str) -> (r: String)
    ensures
        r@ == without_scheme(url@),
{
    string_of(&remove_http_chars(&chars_of(url)))
}

/// The text without `http://` or `https://` at its start.
pub(crate) fn remove_http_chars(url: &Vec<char>) -> (r: Vec<char>)
    ensures
        r@ == without_scheme(url@),
{
    let secure = chars_of("https://");
    let plain = chars_of("http://");
    if begins_with(url, &secure) {
        slice(url, secure.len(), url.len())
    } else if begins_with(url, &plain) {
        slice(url, plain.len(), url.len())
    } else {
        slice(url, 0, url.len())
    }
}

/// Removes the `?preview` query, adds `http://` where the URL has no such
/// scheme, and adds a `/` to the end.
pub fn add_last_slash(url: &str) -> (r: String)
    ensures
        r@ == with_last_slash(url@),
{
    let cut = remove_preview_query_chars(&chars_of(url));
    let mut full = add_scheme_chars(&cut);
    proof {
        reveal_strlit("/");
    }
    if !finishes_with(&full, &chars_of("/")) {
        full.push('/');
    }
    string_of(&full)
}

/// Whether no `?` and no `#` stands in the text.
fn path_only(h: &Vec<char>) -> (r: bool)
    ensures
        r == is_path(h@),
{
    let mut i: usize = 0;
    while i < h.len()
        invariant
            i <= h.len(),
            forall|j: int| 0 <= j < i ==> h@[j] != '?' && h@[j] != '#',
        decreases h.len() - i,
    {
        if h[i] == '?' || h[i] == '#' {
            return false;
        }
        i += 1;
    }
    true
}

/// The text, tidied.
pub(crate) fn tidy_chars(s: &Vec<char>) -> (out: Vec<char>)
    ensures
        out@ == tidy(s@),
{
    let mut out: Vec<char> = Vec::new();
    let mut path: bool = true;
    let mut i: usize = 0;
    while i < s.len()
        invariant
            i <= s.len(),
            out@ == tidy(s@.take(i as int)),
            path == is_path(out@),
        decreases s.len() - i,
    {
        proof {
            assert(s@.take(i + 1).drop_last() == s@.take(i as int));
        }
        let c = s[i];
        let n = out.len();
        if c == '/' && n >= 2 && out[n - 1] == '?' && out[n - 2] == '/' {
            out.pop();
            path = path_only(&out);
        } else if c == '/' && n >= 2 && out[n - 1] == '/' && out[n - 2] != ':' && path {
        } else {
            let ghost before = out@;
            out.push(c);
            proof {
                if is_path(before) && c != '?' && c != '#' {
                    assert forall|j: int| 0 <= j < out@.len() implies out@[j] != '?' && out@[j]
                        != '#' by {
                        if j < before.len() {
                            assert(out@[j] == before[j]);
                        }
                    }
                } else if !is_path(before) {
                    let j = choose|j: int|
                        0 <= j < before.len() && !(before[j] != '?' && before[j] != '#');
                    assert(out@[j] == before[j]);
                } else {
                    assert(out@[before.len() as int] == c);
                }
            }
            path = path && c != '?' && c != '#';
        }
        i += 1;
    }
    assert(s@.take(s.len() as int) == s@);
    out
}

/// What is tidied is tidy.
pub proof fn lemma_tidy_is_tidy(s: Seq<char>)
    ensures
        is_tidy(tidy(s)),
    decreases s.len(),
{
    if s.len() > 0 {
        let h = tidy(s.drop_last());
        let c = s.last();
        let r = tidy(s);
        lemma_tidy_is_tidy(s.drop_last());
        assert forall|k: int| 0 <= k < r.len() implies !ends_query_path(
            #[trigger] r.take(k),
            r[k],
        ) && !doubles_slash(r.take(k), r[k]) by {
            if k < h.len() {
                assert(r.take(k) == h.take(k));
                assert(r[k] == h[k]);
            } else {
                assert(r == h.push(c));
                assert(r.take(k) == h);
            }
        }
    }
}

/// Tidying leaves a tidy text as it is.
pub proof fn lemma_tidy_fixed(o: Seq<char>)
    requires
        is_tidy(o),
    ensures
        tidy(o) == o,
    decreases o.len(),
{
    if o.len() > 0 {
        let front = o.drop_last();
        assert forall|k: int| 0 <= k < front.len() implies !ends_query_path(
            #[trigger] front.take(k),
            front[k],
        ) && !doubles_slash(front.take(k), front[k]) by {
            assert(front.take(k) == o.take(k));
            assert(front[k] == o[k]);
        }
        lemma_tidy_fixed(front);
        assert(o.take(o.len() - 1) == front);
        assert(front.push(o.last()) == o);
    }
}

/// A tidy text holds no `/?/`.
pub proof fn lemma_tidy_no_query_path(o: Seq<char>)
    requires
        is_tidy(o),
    ensures
        !contains(o, "/?/"@),
{
    reveal_strlit("/?/");
    if contains(o, "/?/"@) {
        let i = choose|i: int| crate::text::occurs_at(o, "/?/"@, i);
        let hit = o.subrange(i, i + 3);
        assert(hit[0] == o[i] && hit[1] == o[i + 1] && hit[2] == o[i + 2]);
        let h = o.take(i + 2);
        assert(h[h.len() - 1] == o[i + 1] && h[h.len() - 2] == o[i]);
        assert(ends_query_path(h, o[i + 2]));
    }
}

/// Tidying twice is tidying once.
pub proof fn law_tidy_idempotent(s: Seq<char>)
    ensures
        tidy(tidy(s)) == tidy(s),
        !contains(tidy(s), "/?/"@),
{
    lemma_tidy_is_tidy(s);
    lemma_tidy_fixed(tidy(s));
    lemma_tidy_no_query_path(tidy(s));
}

/// Whether a `/` follows a symbol character somewhere in the relative URL:
/// the link is written in plain characters.
pub fn is_not_symbol(rel_url: &str) -> (r: bool)
    ensures
        r == has_plain_segment(rel_url@),
{
    plain_segment(&chars_of(rel_url))
}

/// Whether the URL ends with a file extension.
pub fn is_file_ext(url: &str) -> (r: bool)
    ensures
        r == ends_in_extension(url@),
{
    extension_at_end(&chars_of(url))
}

/// Whether the URL is a direct link to a file, and no web page.
pub fn is_uri(url: &str) -> (r: bool)
    ensures
        r == (ends_in_file(url@) && !ends_in_page(url@)),
{
    is_uri_chars(&chars_of(url))
}

/// Whether the text is a direct link to a file, and no web page.
pub(crate) fn is_uri_chars(url: &Vec<char>) -> (r: bool)
    ensures
        r == (ends_in_file(url@) && !ends_in_page(url@)),
{
    file_at_end(url) && page_at_end(url).is_none()
}

/// Whether the relative URL holds `../`.
pub fn is_back_url(rel_url: &str) -> (r: bool)
    ensures
        r == is_back(rel_url@),
{
    includes(&chars_of(rel_url), &chars_of("../"))
}

/// Whether the relative URL is the home path `/`.
pub fn is_home_url(rel_url: &str) -> (r: bool)
    ensures
        r == (rel_url@ == "/"@),
{
    same(&chars_of(rel_url), &chars_of("/"))
}

/// Whether to follow a `?page=N` link from page `cur_pages` with the limit
/// `max_pages`, and the page that is then current: a higher one where the
/// link is followed, the same one where it is not.
pub fn has_page_query(rel: &str, cur_pages: usize, max_pages: usize) -> (r: (bool, usize))
    ensures
        r == page_step(rel@, cur_pages, max_pages),
        r.0 ==> cur_pages < r.1 <= 999 && cur_pages < max_pages,
        !r.0 ==> r.1 == cur_pages,
{
    has_page_query_chars(&chars_of(rel), cur_pages, max_pages)
}

/// Whether to follow a `?page=N` link, and the page that is then current.
pub(crate) fn has_page_query_chars(rel: &Vec<char>, cur_pages: usize, max_pages: usize) -> (r: (
    bool,
    usize,
))
    ensures
        r == page_step(rel@, cur_pages, max_pages),
        r.0 ==> cur_pages < r.1 <= 999 && cur_pages < max_pages,
        !r.0 ==> r.1 == cur_pages,
{
    match page_suffix(rel) {
        Some(num) => {
            if cur_pages < max_pages && cur_pages < num {
                (true, num)
            } else {
                (false, cur_pages)
            }
        },
        None => (false, cur_pages),
    }
}

/// Whether a text in lower case holds a query that sorts or folds a listing.
pub fn holds_listing_query(lowered: &str) -> (r: bool)
    ensures
        r == has_listing_query(lowered@),
{
    let t = chars_of(lowered);
    includes(&t, &chars_of("sortby")) || includes(&t, &chars_of("&sort_mode=")) || includes(
        &t,
        &chars_of("&sort="),
    ) || includes(&t, &chars_of("&file=")) || includes(&t, &chars_of("archive=true")) || includes(
        &t,
        &chars_of("&expand="),
    ) || includes(&t, &chars_of("&collapse="))
}

/// Whether `rel`, put in lower case, holds `text`.
pub fn ins_contains(rel: &str, text: &str) -> (r: bool)
    ensures
        r == contains(lowercase_of(rel@), text@),
{
    let lowered = to_lowercase(rel);
    includes(&chars_of(lowered.as_str()), &chars_of(text))
}

/// Whether the link holds, in any case, a query that is of no use for
/// walking a directory.
pub fn unrelated_dir_queries(rel: &str) -> (r: bool)
    ensures
        r == has_listing_query(lowercase_of(rel@)),
{
    let lowered = to_lowercase(rel);
    holds_listing_query(lowered.as_str())
}

/// Whether a segment is digits alone, and not empty.
fn all_digits(seg: &Vec<char>) -> (r: bool)
    ensures
        r == (seg@.len() > 0 && forall|i: int|
            0 <= i < seg@.len() ==> crate::patterns::is_digit(#[trigger] seg@[i])),
{
    if seg.len() == 0 {
        return false;
    }
    let mut i: usize = 0;
    while i < seg.len()
        invariant
            i <= seg.len(),
            forall|j: int| 0 <= j < i ==> crate::patterns::is_digit(#[trigger] seg@[j]),
        decreases seg.len() - i,
    {
        if !crate::patterns::digit(seg[i]) {
            return false;
        }
        i += 1;
    }
    true
}

/// Whether a segment is a route segment other than `home` and `download`.
pub fn view_segment(seg: &Vec<char>) -> (r: bool)
    ensures
        r == is_view_segment(seg@),
{
    same(seg, &chars_of("view")) || same(seg, &chars_of("preview")) || all_digits(seg)
}

/// Whether a segment is a route segment.
pub fn route_segment(seg: &Vec<char>) -> (r: bool)
    ensures
        r == is_route_segment(seg@),
{
    same(seg, &chars_of("home")) || same(seg, &chars_of("download")) || view_segment(seg)
}

/// Whether some segment is a route segment other than `home` and `download`.
pub fn any_view_segment(parts: &Vec<Vec<char>>) -> (r: bool)
    ensures
        r == has_view_segment(views(parts@)),
{
    let mut i: usize = 0;
    while i < parts.len()
        invariant
            i <= parts.len(),
            forall|j: int| 0 <= j < i ==> !is_view_segment(#[trigger] views(parts@)[j]),
        decreases parts.len() - i,
    {
        if view_segment(&parts[i]) {
            assert(is_view_segment(views(parts@)[i as int]));
            return true;
        }
        i += 1;
    }
    false
}

/// The segments that are no route segments, in their order.
pub fn remove_route_segments(parts: &Vec<Vec<char>>) -> (kept: Vec<Vec<char>>)
    ensures
        views(kept@) == without_routes(views(parts@)),
{
    let mut kept: Vec<Vec<char>> = Vec::new();
    let mut i: usize = 0;
    assert(views(parts@).take(0) == Seq::<Seq<char>>::empty());
    assert(views(kept@) == Seq::<Seq<char>>::empty());
    while i < parts.len()
        invariant
            i <= parts.len(),
            views(kept@) == without_routes(views(parts@).take(i as int)),
        decreases parts.len() - i,
    {
        proof {
            assert(views(parts@).take(i + 1).drop_last() == views(parts@).take(i as int));
            assert(views(parts@).take(i + 1).last() == parts@[i as int]@);
        }
        if !route_segment(&parts[i]) {
            let ghost before = views(kept@);
            let piece = slice(&parts[i], 0, parts[i].len());
            assert(piece@ == parts@[i as int]@);
            kept.push(piece);
            assert(views(kept@) == before.push(parts@[i as int]@));
        }
        i += 1;
    }
    assert(views(parts@).take(parts.len() as int) == views(parts@));
    kept
}

/// Whether the link lies under the base URL.
pub fn sub_dir_check(x: &str, url: &str) -> (r: bool)
    ensures
        r == is_under(x@, url@),
{
    sub_dir_check_chars(&chars_of(x), &chars_of(url))
}

/// Whether the link lies under the base URL.
pub(crate) fn sub_dir_check_chars(x: &Vec<char>, url: &Vec<char>) -> (r: bool)
    ensures
        r == is_under(x@, url@),
{
    if begins_with(x, url) {
        return true;
    }
    let rel = split_on(x, '/');
    if rel.len() < 4 {
        return false;
    }
    let base = split_on(url, '/');
    let rel_text = join_with(&remove_route_segments(&rel), '/');
    let base_text = join_with(&remove_route_segments(&base), '/');
    let n = length_without_page_suffix(&base_text);
    let base_cut = slice(&base_text, 0, n);
    begins_with(&rel_text, &base_cut)
}

/// The length of the route prefix of a link.
fn route_prefix(s: &Vec<char>) -> (n: usize)
    ensures
        n == route_prefix_len(s@),
        n <= s.len(),
{
    let download = chars_of("/download");
    let home = chars_of("/home");
    let view = chars_of("/view");
    let preview = chars_of("/preview");
    if whole_prefix(s, &download) {
        download.len()
    } else if whole_prefix(s, &home) {
        home.len()
    } else if whole_prefix(s, &view) {
        view.len()
    } else if whole_prefix(s, &preview) {
        preview.len()
    } else {
        0
    }
}

/// Whether `s` begins with `p`, and `p` ends there or a `/` follows.
fn whole_prefix(s: &Vec<char>, p: &Vec<char>) -> (r: bool)
    ensures
        r == is_whole_prefix(s@, p@),
{
    begins_with(s, p) && (s.len() == p.len() || s[p.len()] == '/')
}

/// The length of the page prefix of a link.
fn page_prefix(s: &Vec<char>) -> (n: usize)
    ensures
        n == page_prefix_len(s@),
        n <= s.len(),
{
    proof {
        reveal_strlit("?/");
        crate::text::lemma_find(s@, "?/"@, 0);
    }
    match crate::text::find_from(s, &chars_of("?/"), 0) {
        Some(i) => {
            let head = slice(s, 0, i);
            if i == 0 || finishes_with(&head, &chars_of(".html")) {
                i + 1
            } else {
                0
            }
        },
        None => 0,
    }
}

/// The link without its route prefix, its page prefix and `?preview`.
pub(crate) fn sanitize_url_chars(url: &Vec<char>) -> (r: Vec<char>)
    ensures
        r@ == sanitized(url@),
{
    let a = slice(url, route_prefix(url), url.len());
    let b = slice(&a, page_prefix(&a), a.len());
    remove_preview_query_chars(&b)
}

/// Cleans a link for walking: without its route prefix, its page prefix and
/// `?preview`.
pub fn sanitize_url(url: &str) -> (r: String)
    ensures
        r@ == sanitized(url@),
{
    string_of(&sanitize_url_chars(&chars_of(url)))
}

/// What went wrong with a URL.
#[derive(Clone, Copy, Debug, PartialEq, Eq, Structural)]
pub enum UrlError {
    /// The text is no absolute URL, with `http://` before it either.
    MalformedUrl,
}

/// The first segment of a path that begins with `/`; empty for another path.
pub open spec fn first_segment(path: Seq<char>) -> Seq<char> {
    if starts_with(path, "/"@) {
        split(path.skip(1), '/')[0]
    } else {
        Seq::<char>::empty()
    }
}

/// The query of a parsed URL, empty where it has none.
pub open spec fn query_text(parts: UrlPartsView) -> Seq<char> {
    match parts.query {
        Some(q) => q,
        None => Seq::<char>::empty(),
    }
}

/// Scheme, `://`, host and, where the URL names one, `:` and the port.
pub open spec fn origin_of(base: UrlPartsView) -> Seq<char> {
    let host = match base.host {
        Some(h) => h,
        None => Seq::<char>::empty(),
    };
    let front = base.scheme + "://"@ + host;
    match base.port {
        Some(p) => front + ":"@ + decimal_text(p as nat),
        None => front,
    }
}

/// The relative URL with a `/` before it, unless it begins with one.
pub open spec fn rooted(rel: Seq<char>) -> Seq<char> {
    if starts_with(rel, "/"@) {
        rel
    } else {
        "/"@ + rel
    }
}

/// The relative URL without `./` at its start.
pub open spec fn without_dot_slash(rel: Seq<char>) -> Seq<char> {
    if starts_with(rel, "./"@) {
        rel.skip(2)
    } else {
        rel
    }
}

/// The URL that is parsed to find the first path segment of a relative URL.
pub open spec fn probe_text(rel: Seq<char>) -> Seq<char> {
    "http://www.example.com"@ + tidy(rooted(without_dot_slash(rel)))
}

/// The query that a relative URL asks for: itself, without a `?` before it.
pub open spec fn new_query(rel: Seq<char>) -> Seq<char> {
    if starts_with(rel, "?"@) {
        rel.skip(1)
    } else {
        rel
    }
}

/// The join of a parsed base URL and a relative URL. `rel_first` is the first
/// path segment of the relative URL; `requeried` is the base with the query
/// that the relative URL asks for, and `requeried_query` that query as the
/// base then holds it. The relative URL is read without `./` at its start,
/// and where it is put as a path, with a `/` before it if it has none. The
/// first rule that applies decides:
/// the first path segments are equal and not empty, and the relative URL
/// takes the place of the path; the relative URL begins with `?`, and takes
/// the place of the query; the query of the base begins with `dir=`, and the
/// relative URL takes the place of `?` and query; the base ends with the name
/// of a web page, and the relative URL takes its place; else the relative URL
/// is put behind the base, with one `/` between them.
pub open spec fn join_of(
    base: UrlPartsView,
    rel_first: Seq<char>,
    requeried: Seq<char>,
    requeried_query: Seq<char>,
    rel: Seq<char>,
) -> Seq<char> {
    if first_segment(base.path).len() > 0 && first_segment(base.path) == rel_first {
        origin_of(base) + rooted(without_dot_slash(rel))
    } else if starts_with(rel, "?"@) {
        requeried
    } else if starts_with(query_text(base), "dir="@) {
        replace_all(requeried, "?"@ + requeried_query, rel)
    } else if page_start(base.href) is Some {
        base.href.take(page_start(base.href)->0) + without_dot_slash(rel)
    } else {
        without_last_slash(base.href) + rooted(without_dot_slash(rel))
    }
}

/// The first path segment of a relative URL, as the URL parser reads it.
pub open spec fn rel_first_segment(rel: Seq<char>) -> Seq<char> {
    match url_parse(probe_text(rel)) {
        Some(p) => first_segment(p.path),
        None => Seq::<char>::empty(),
    }
}

/// The base with the query that the relative URL asks for.
pub open spec fn requeried_text(base: UrlPartsView, rel: Seq<char>) -> Seq<char> {
    match url_with_query(base.href, new_query(rel)) {
        Some(s) => s,
        None => base.href,
    }
}

/// The join of a URL and a relative URL: none where the URL, once tidied,
/// is no absolute URL, or where one of the two is longer than the URL parser
/// takes; else the join of the parsed URL and the relative URL.
pub open spec fn join_spec(url: Seq<char>, rel: Seq<char>) -> Option<Seq<char>> {
    match url_parse(tidy(url)) {
        None => None,
        Some(base) => if base.href.len() > QUERY_LIMIT || rel.len() > QUERY_LIMIT {
            None
        } else {
            let requeried = requeried_text(base, rel);
            let requeried_query = match url_parse(requeried) {
                Some(p) => query_text(p),
                None => Seq::<char>::empty(),
            };
            Some(join_of(base, rel_first_segment(rel), requeried, requeried_query, rel))
        },
    }
}

/// The URL that a text stands for: the normal form of the tidied text;
/// where it has none, that of the tidied text with `http://` before it,
/// unless it has such a scheme already.
pub open spec fn normalize_spec(url: Seq<char>) -> Option<Seq<char>> {
    match settled(tidy(url)) {
        Some(n) => Some(n),
        None => settled(with_scheme(tidy(url))),
    }
}

/// The relative URL names the URL itself: its join with the URL is the URL,
/// or the URL without a `/` at its end.
pub open spec fn is_rel_spec(url: Seq<char>, rel: Seq<char>) -> bool {
    join_spec(url, rel) == Some(url) || join_spec(url, rel) == Some(without_last_slash(url))
}

/// The relative URL, without its first character, holds the query and more.
pub open spec fn holds_more_than(query: Seq<char>, rel: Seq<char>) -> bool {
    let rest = if rel.len() > 0 {
        rel.skip(1)
    } else {
        rel
    };
    contains(rest, query) && rest != query
}

/// The first segment of a path.
pub fn first_segment_of(path: &Vec<char>) -> (r: Vec<char>)
    ensures
        r@ == first_segment(path@),
{
    proof {
        reveal_strlit("/");
    }
    if begins_with(path, &chars_of("/")) {
        let rest = slice(path, 1, path.len());
        let parts = split_on(&rest, '/');
        proof {
            crate::text::lemma_split_nonempty(rest@, '/');
        }
        slice(&parts[0], 0, parts[0].len())
    } else {
        Vec::new()
    }
}

pub(crate) fn origin(base: &UrlParts) -> (r: Vec<char>)
    ensures
        r@ == origin_of(base@),
{
    let mut r = concat(&chars_of(base.scheme.as_str()), &chars_of("://"));
    match &base.host {
        Some(h) => {
            r = concat(&r, &chars_of(h.as_str()));
        },
        None => {
            assert(r@ + Seq::<char>::empty() == r@);
        },
    }
    match base.port {
        Some(p) => {
            r = concat(&r, &chars_of(":"));
            concat(&r, &decimal(p as usize))
        },
        None => r,
    }
}

fn rooted_chars(rel: &Vec<char>) -> (r: Vec<char>)
    ensures
        r@ == rooted(rel@),
{
    if begins_with(rel, &chars_of("/")) {
        slice(rel, 0, rel.len())
    } else {
        concat(&chars_of("/"), rel)
    }
}

fn without_dot_slash_chars(rel: &Vec<char>) -> (r: Vec<char>)
    ensures
        r@ == without_dot_slash(rel@),
{
    proof {
        reveal_strlit("./");
    }
    if begins_with(rel, &chars_of("./")) {
        slice(rel, 2, rel.len())
    } else {
        slice(rel, 0, rel.len())
    }
}

/// Joins a parsed base URL and a relative URL, given what the URL parser
/// made of the relative URL and of the base with its query replaced.
pub fn join_resolved(
    base: &UrlParts,
    rel_first: &Vec<char>,
    requeried: &Vec<char>,
    requeried_query: &Vec<char>,
    rel: &Vec<char>,
) -> (r: Vec<char>)
    ensures
        r@ == join_of(base@, rel_first@, requeried@, requeried_query@, rel@),
{
    proof {
        reveal_strlit("/");
        reveal_strlit("./");
        reveal_strlit("?");
    }
    let href = chars_of(base.href.as_str());
    let base_first = first_segment_of(&chars_of(base.path.as_str()));
    let query = match &base.query {
        Some(q) => chars_of(q.as_str()),
        None => Vec::new(),
    };
    let path = rooted_chars(&without_dot_slash_chars(rel));
    if base_first.len() > 0 && same(&base_first, rel_first) {
        concat(&origin(base), &path)
    } else if begins_with(rel, &chars_of("?")) {
        slice(requeried, 0, requeried.len())
    } else if begins_with(&query, &chars_of("dir=")) {
        replace_all_in(requeried, &concat(&chars_of("?"), requeried_query), rel)
    } else {
        match page_at_end(&href) {
            Some(i) => concat(&slice(&href, 0, i), &without_dot_slash_chars(rel)),
            None => concat(&remove_last_slash_chars(&href), &path),
        }
    }
}

/// Joins a URL and a relative URL. The URL has to be one that `join_spec`
/// takes; `try_url_joiner` tests that first.
pub fn url_joiner(url: &str, rel: &str) -> (r: String)
    requires
        join_spec(url@, rel@) is Some,
    ensures
        join_spec(url@, rel@) == Some(r@),
{
    proof {
        reveal_strlit("?");
    }
    let rel_chars = chars_of(rel);
    let tidied = string_of(&tidy_chars(&chars_of(url)));
    match parse_url(tidied.as_str()) {
        None => {
            proof {
                assert(false);
            }
            String::new()
        },
        Some(base) => {
            let probe = concat(
                &chars_of("http://www.example.com"),
                &tidy_chars(&rooted_chars(&without_dot_slash_chars(&rel_chars))),
            );
            let rel_first = match parse_url(string_of(&probe).as_str()) {
                Some(p) => first_segment_of(&chars_of(p.path.as_str())),
                None => Vec::new(),
            };
            let asked = if begins_with(&rel_chars, &chars_of("?")) {
                slice(&rel_chars, 1, rel_chars.len())
            } else {
                slice(&rel_chars, 0, rel_chars.len())
            };
            assert(asked@ == new_query(rel@));
            let requeried = match set_query(base.href.as_str(), string_of(&asked).as_str()) {
                Some(s) => chars_of(s.as_str()),
                None => chars_of(base.href.as_str()),
            };
            let requeried_query = match parse_url(string_of(&requeried).as_str()) {
                Some(p) => match &p.query {
                    Some(q) => chars_of(q.as_str()),
                    None => Vec::new(),
                },
                None => Vec::new(),
            };
            string_of(&join_resolved(&base, &rel_first, &requeried, &requeried_query, &rel_chars))
        },
    }
}

/// Joins a URL and a relative URL where `join_spec` takes them, and says
/// with `None` that it does not.
pub fn try_url_joiner(url: &str, rel: &str) -> (r: Option<String>)
    ensures
        match r {
            Some(s) => join_spec(url@, rel@) == Some(s@),
            None => join_spec(url@, rel@) is None,
        },
{
    let tidied = string_of(&tidy_chars(&chars_of(url)));
    match parse_url(tidied.as_str()) {
        None => None,
        Some(base) => {
            let href = chars_of(base.href.as_str());
            let rel_chars = chars_of(rel);
            if href.len() > QUERY_LIMIT || rel_chars.len() > QUERY_LIMIT {
                None
            } else {
                Some(url_joiner(url, rel))
            }
        },
    }
}

/// Whether a relative URL names the URL that it stands on, given its join
/// with that URL.
pub fn is_rel_resolved(url: &str, joined: &Option<String>) -> (r: bool)
    ensures
        r == (joined matches Some(j) && (j@ == url@ || j@ == without_last_slash(url@))),
{
    match joined {
        Some(j) => {
            let url_chars = chars_of(url);
            let joined_chars = chars_of(j.as_str());
            same(&joined_chars, &url_chars) || same(
                &joined_chars,
                &remove_last_slash_chars(&url_chars),
            )
        },
        None => false,
    }
}

/// Whether a relative URL names the URL that it stands on, so that the
/// directory is not walked twice.
pub fn is_rel_url(url: &str, rel: &str) -> (r: bool)
    ensures
        r == is_rel_spec(url@, rel@),
{
    let joined = try_url_joiner(url, rel);
    is_rel_resolved(url, &joined)
}

/// Whether the relative URL, without its first character, holds the query
/// and more than the query.
pub fn query_differs(query: &str, rel: &str) -> (r: bool)
    ensures
        r == holds_more_than(query@, rel@),
{
    let rel_chars = chars_of(rel);
    let rest = if rel_chars.len() > 0 {
        slice(&rel_chars, 1, rel_chars.len())
    } else {
        Vec::new()
    };
    assert(rest@ == if rel@.len() > 0 {
        rel@.skip(1)
    } else {
        rel@
    });
    let q = chars_of(query);
    includes(&rest, &q) && !same(&rest, &q)
}

/// Whether the relative URL goes beyond the query of the URL, which has to be
/// an absolute URL; `try_check_dir_query` tests that first.
pub fn check_dir_query(url: &str, rel: &str) -> (r: bool)
    requires
        url_parse(url@) is Some,
    ensures
        r == holds_more_than(query_text(url_parse(url@)->0), rel@),
{
    match parse_url(url) {
        Some(parts) => match &parts.query {
            Some(q) => query_differs(q.as_str(), rel),
            None => query_differs(String::new().as_str(), rel),
        },
        None => false,
    }
}

/// Whether the relative URL goes beyond the query of the URL; `None` where
/// the URL is no absolute URL.
pub fn try_check_dir_query(url: &str, rel: &str) -> (r: Option<bool>)
    ensures
        match url_parse(url@) {
            Some(parts) => r == Some(holds_more_than(query_text(parts), rel@)),
            None => r is None,
        },
{
    match parse_url(url) {
        Some(_) => Some(check_dir_query(url, rel)),
        None => None,
    }
}

/// The normal form of a text that the URL parser reads.
fn settle(text: &Vec<char>) -> (r: Option<String>)
    ensures
        match r {
            Some(n) => settled(text@) == Some(n@),
            None => settled(text@) is None,
        },
{
    match parse_url(string_of(text).as_str()) {
        None => None,
        Some(parts) => {
            let form = string_of(&tidy_chars(&chars_of(parts.href.as_str())));
            match parse_url(form.as_str()) {
                Some(again) => if text_is(again.href.as_str(), form.as_str()) {
                    Some(form)
                } else {
                    None
                },
                None => None,
            }
        },
    }
}

/// The URL that a text stands for, with every `/?/` made a `/`; `None`
/// where the text is no absolute URL. The result is tidy: it holds no `/?/`
/// and no doubled slash in its path, and it stands for itself.
pub fn no_query_path(url: &str) -> (r: Option<String>)
    ensures
        match r {
            Some(n) => no_query_path_spec(url@) == Some(n@),
            None => no_query_path_spec(url@) is None,
        },
        r matches Some(n) ==> is_tidy(n@) && !contains(n@, "/?/"@) && no_query_path_spec(n@)
            == Some(n@),
{
    proof {
        law_settled(tidy(url@));
    }
    settle(&tidy_chars(&chars_of(url)))
}

/// The URL that a text stands for, or `MalformedUrl`. The result is tidy: it
/// holds no `/?/` and no doubled slash in its path, and it normalizes to
/// itself.
pub fn normalize(url: &str) -> (r: Result<String, UrlError>)
    ensures
        match r {
            Ok(s) => normalize_spec(url@) == Some(s@),
            Err(e) => normalize_spec(url@) is None && e == UrlError::MalformedUrl,
        },
        r matches Ok(s) ==> is_tidy(s@) && !contains(s@, "/?/"@) && normalize_spec(s@) == Some(
            s@,
        ),
{
    proof {
        law_normalize_idempotent(url@);
    }
    let tidied = tidy_chars(&chars_of(url));
    match settle(&tidied) {
        Some(n) => Ok(n),
        None => match settle(&add_scheme_chars(&tidied)) {
            Some(n) => Ok(n),
            None => Err(UrlError::MalformedUrl),
        },
    }
}

/// The pattern of a filter, where one is given and the `regex` crate takes
/// it.
pub fn set_regex(regex: &Option<String>) -> (r: Option<String>)
    ensures
        match r {
            Some(p) => regex matches Some(given) && p@ == given@ && regex_match(
                given@,
                Seq::<char>::empty(),
            ) is Some,
            None => regex matches Some(given) ==> regex_match(given@, Seq::<char>::empty())
                is None,
        },
{
    match regex {
        Some(given) => {
            let empty = String::new();
            match regex_is_match(given.as_str(), empty.as_str()) {
                Some(_) => Some(given.clone()),
                None => None,
            }
        },
        None => None,
    }
}

/// A normal form is tidy, and is the normal form of itself.
pub proof fn law_settled(text: Seq<char>)
    ensures
        settled(text) matches Some(n) ==> is_tidy(n) && !contains(n, "/?/"@) && tidy(n) == n
            && settled(n) == Some(n),
{
    if settled(text) is Some {
        let n = settled(text)->0;
        let p = url_parse(text)->0;
        lemma_tidy_is_tidy(p.href);
        lemma_tidy_fixed(n);
        lemma_tidy_no_query_path(n);
    }
}

/// Normalizing is idempotent: the URL that a text stands for stands for
/// itself, is tidy and holds no `/?/`.
pub proof fn law_normalize_idempotent(url: Seq<char>)
    ensures
        normalize_spec(url) matches Some(n) ==> is_tidy(n) && !contains(n, "/?/"@)
            && normalize_spec(n) == Some(n),
{
    law_settled(tidy(url));
    law_settled(with_scheme(tidy(url)));
}

/// Where a relative URL names the URL it stands on, its join with that URL
/// normalizes as the URL does, with or without a `/` at its end.
pub proof fn law_join_of_same_url(url: Seq<char>, rel: Seq<char>)
    requires
        is_rel_spec(url, rel),
    ensures
        join_spec(url, rel) is Some,
        normalize_spec(join_spec(url, rel)->0) == normalize_spec(url) || normalize_spec(
            join_spec(url, rel)->0,
        ) == normalize_spec(without_last_slash(url)),
{
}

} // verus!
