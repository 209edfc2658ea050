//! The walk over one open directory: which page to fetch next, and what the
//! links of a fetched page add to the queue and to the files found.
//!
//! The walk does not fetch. Its owner asks for the next page with
//! `next_target`, fetches it, and hands the page to `visit`, or says with
//! `skip` that it could not be had.

use crate::bindings::{
    html_nodes, lowercase_of, parse_html, regex_is_match, regex_match, to_lowercase,
};
use crate::od::{detect_in, links_in, links_of, method_of};
use crate::parser::{
    has_listing_query, has_page_query_chars, holds_listing_query, is_back, is_rel_resolved,
    is_rel_spec, is_under, is_uri_chars, join_spec, normalize, normalize_spec, page_step,
    sub_dir_check_chars, try_url_joiner, UrlError,
};
use crate::patterns::{ends_in_file, ends_in_page};
use crate::text::{chars_of, includes, same, string_views, text_is};
use vstd::prelude::*;

verus! {

/// A page that waits to be fetched.
#[derive(Clone, Debug)]
pub struct Entry {
    pub url: String,
    /// How many directories below the seed the page lies.
    pub depth: usize,
    /// The number of the page, where the directory is shown in pages.
    pub page: usize,
}

/// A page that waits to be fetched, with its URL as characters.
pub struct EntryView {
    pub url: Seq<char>,
    pub depth: usize,
    pub page: usize,
}

impl View for Entry {
    type V = EntryView;

    open spec fn view(&self) -> EntryView {
        EntryView { url: self.url@, depth: self.depth, page: self.page }
    }
}

/// The views of a list of pages.
pub open spec fn entry_views(entries: Seq<Entry>) -> Seq<EntryView> {
    Seq::new(entries.len(), |i: int| entries[i]@)
}

/// What a link of a page leads to.
#[derive(Clone, Debug)]
pub enum Action {
    /// Nothing: the link is not followed.
    Skip,
    /// Another page of the same directory, with its number.
    Page(String, usize),
    /// A file.
    File(String),
    /// A directory below.
    Dir(String),
}

/// What a link of a page leads to, with the URL as characters.
pub enum Step {
    Skip,
    Page(Seq<char>, usize),
    File(Seq<char>),
    Dir(Seq<char>),
}

impl View for Action {
    type V = Step;

    open spec fn view(&self) -> Step {
        match self {
            Action::Skip => Step::Skip,
            Action::Page(url, n) => Step::Page(url@, *n),
            Action::File(url) => Step::File(url@),
            Action::Dir(url) => Step::Dir(url@),
        }
    }
}

/// The state of a walk.
pub struct ScraperView {
    /// The URL the walk began at, normalized.
    pub seed: Seq<char>,
    pub max_depth: usize,
    pub max_pages: usize,
    pub accept: Option<Seq<char>>,
    pub reject: Option<Seq<char>>,
    /// The pages that wait, the first to be fetched first.
    pub frontier: Seq<EntryView>,
    /// The URLs handed out to be fetched, in that order.
    pub visited: Seq<Seq<char>>,
    /// The files found, in the order they were found.
    pub files: Seq<Seq<char>>,
    /// The directories found that were put in the queue.
    pub dirs: Seq<Seq<char>>,
    /// The page that was handed out last.
    pub current: Option<EntryView>,
}

/// The absolute URL of a link on a page: its join with the URL of the page,
/// normalized.
pub open spec fn resolve(url: Seq<char>, href: Seq<char>) -> Option<Seq<char>> {
    match join_spec(url, href) {
        Some(joined) => normalize_spec(joined),
        None => None,
    }
}

/// What a link leads to, given its absolute URL, whether it names the page
/// itself, and its text in lower case.
///
/// It is skipped where it has no absolute URL, where it sorts or folds the
/// listing, leads back or home or to the page itself, or leaves the directory
/// of the seed. Else it is a further page where its page number says so, a
/// file where its URL ends like one and is no web page, and a directory
/// otherwise.
pub open spec fn step_of(
    abs: Option<Seq<char>>,
    href: Seq<char>,
    names_page: bool,
    lowered: Seq<char>,
    seed: Seq<char>,
    page: usize,
    max_pages: usize,
) -> Step {
    if abs is None || has_listing_query(lowered) || is_back(href) || href == "/"@ || names_page
        || !is_under(abs->0, seed) {
        Step::Skip
    } else if page_step(href, page, max_pages).0 {
        Step::Page(abs->0, page_step(href, page, max_pages).1)
    } else if ends_in_file(abs->0) && !ends_in_page(abs->0) {
        Step::File(abs->0)
    } else {
        Step::Dir(abs->0)
    }
}

/// What a link on the page at `url` leads to.
pub open spec fn step_for(
    url: Seq<char>,
    href: Seq<char>,
    seed: Seq<char>,
    page: usize,
    max_pages: usize,
) -> Step {
    step_of(
        resolve(url, href),
        href,
        is_rel_spec(url, href),
        lowercase_of(href),
        seed,
        page,
        max_pages,
    )
}

/// Whether a file is kept, given the answers of the two filters, each one
/// present where its pattern is set: with an accept filter, if that matches;
/// with a reject filter alone, unless that matches.
pub open spec fn kept(accept: Option<Option<bool>>, reject: Option<Option<bool>>) -> bool {
    match accept {
        Some(hit) => hit == Some(true),
        None => match reject {
            Some(hit) => hit != Some(true),
            None => true,
        },
    }
}

/// The answer of a filter on a URL, where its pattern is set.
pub open spec fn answer(pattern: Option<Seq<char>>, url: Seq<char>) -> Option<Option<bool>> {
    match pattern {
        Some(p) => Some(regex_match(p, url)),
        None => None,
    }
}

/// Whether the filters of a walk keep a file.
pub open spec fn keeps(accept: Option<Seq<char>>, reject: Option<Seq<char>>, url: Seq<char>) -> bool {
    kept(answer(accept, url), answer(reject, url))
}

/// The state after one link of the current page: a further page joins the
/// queue at the depth of the current one; a file joins the files, if the
/// filters keep it; a directory joins the queue one level below, unless the
/// current page lies at the greatest depth.
pub open spec fn apply(s: ScraperView, step: Step) -> ScraperView {
    match s.current {
        None => s,
        Some(cur) => match step {
            Step::Skip => s,
            Step::Page(url, n) => ScraperView {
                frontier: s.frontier.push(EntryView { url: url, depth: cur.depth, page: n }),
                ..s
            },
            Step::File(url) => if keeps(s.accept, s.reject, url) {
                ScraperView { files: s.files.push(url), ..s }
            } else {
                s
            },
            Step::Dir(url) => if cur.depth < s.max_depth {
                ScraperView {
                    frontier: s.frontier.push(
                        EntryView { url: url, depth: (cur.depth + 1) as usize, page: 0 },
                    ),
                    dirs: s.dirs.push(url),
                    ..s
                }
            } else {
                s
            },
        },
    }
}

/// The state after the first `n` links of the current page.
pub open spec fn absorbed(s: ScraperView, hrefs: Seq<Seq<char>>, n: nat) -> ScraperView
    decreases n,
{
    if n == 0 {
        s
    } else {
        let before = absorbed(s, hrefs, (n - 1) as nat);
        match s.current {
            Some(cur) => apply(
                before,
                step_for(cur.url, hrefs[n - 1], s.seed, cur.page, s.max_pages),
            ),
            None => before,
        }
    }
}

/// What asking for the next page makes of the queue and the visited, and
/// the page handed out: the pages at the head of the queue that were handed
/// out before are dropped; the first that was not is handed out and joins
/// the visited.
pub open spec fn dequeue(frontier: Seq<EntryView>, visited: Seq<Seq<char>>) -> (
    Seq<EntryView>,
    Seq<Seq<char>>,
    Option<EntryView>,
)
    decreases frontier.len(),
{
    if frontier.len() == 0 {
        (frontier, visited, None)
    } else if visited.contains(frontier[0].url) {
        dequeue(frontier.skip(1), visited)
    } else {
        (frontier.skip(1), visited.push(frontier[0].url), Some(frontier[0]))
    }
}

/// The state after the next page was asked for.
pub open spec fn advanced(s: ScraperView) -> ScraperView {
    ScraperView {
        frontier: dequeue(s.frontier, s.visited).0,
        visited: dequeue(s.frontier, s.visited).1,
        current: dequeue(s.frontier, s.visited).2,
        ..s
    }
}

/// The view of a pattern that may be absent.
pub open spec fn pattern_view(pattern: Option<String>) -> Option<Seq<char>> {
    match pattern {
        Some(p) => Some(p@),
        None => None,
    }
}

/// What a link leads to, given its absolute URL, whether it names the page
/// itself, and its text in lower case.
pub fn classify(
    abs: &Option<String>,
    href: &str,
    names_page: bool,
    lowered: &str,
    seed: &str,
    page: usize,
    max_pages: usize,
) -> (r: Action)
    ensures
        r@ == step_of(pattern_view(*abs), href@, names_page, lowered@, seed@, page, max_pages),
{
    let h = chars_of(href);
    match abs {
        None => Action::Skip,
        Some(url) => {
            let target = chars_of(url.as_str());
            if holds_listing_query(lowered) || includes(&h, &chars_of("../")) || same(
                &h,
                &chars_of("/"),
            ) || names_page || !sub_dir_check_chars(&target, &chars_of(seed)) {
                return Action::Skip;
            }
            let (follow, number) = has_page_query_chars(&h, page, max_pages);
            if follow {
                Action::Page(url.clone(), number)
            } else if is_uri_chars(&target) {
                Action::File(url.clone())
            } else {
                Action::Dir(url.clone())
            }
        },
    }
}

/// Whether a file is kept, given the answers of the two filters.
pub fn filter_keeps(accept: Option<Option<bool>>, reject: Option<Option<bool>>) -> (r: bool)
    ensures
        r == kept(accept, reject),
{
    match accept {
        Some(hit) => match hit {
            Some(found) => found,
            None => false,
        },
        None => match reject {
            Some(hit) => match hit {
                Some(found) => !found,
                None => true,
            },
            None => true,
        },
    }
}

/// The answer of a filter on a URL, where its pattern is set.
fn ask(pattern: &Option<String>, url: &str) -> (r: Option<Option<bool>>)
    ensures
        r == answer(pattern_view(*pattern), url@),
{
    match pattern {
        Some(p) => Some(regex_is_match(p.as_str(), url)),
        None => None,
    }
}

/// Whether a list of URLs holds a URL.
fn holds_url(list: &Vec<String>, url: &str) -> (r: bool)
    ensures
        r == string_views(list@).contains(url@),
{
    let mut k: usize = 0;
    while k < list.len()
        invariant
            k <= list.len(),
            forall|j: int| 0 <= j < k ==> string_views(list@)[j] != url@,
        decreases list.len() - k,
    {
        if text_is(list[k].as_str(), url) {
            assert(string_views(list@)[k as int] == url@);
            return true;
        }
        k += 1;
    }
    false
}

/// The walk over one open directory.
pub struct Scraper {
    seed: String,
    max_depth: usize,
    max_pages: usize,
    accept: Option<String>,
    reject: Option<String>,
    frontier: Vec<Entry>,
    visited: Vec<String>,
    files: Vec<String>,
    dirs: Vec<String>,
    current: Option<Entry>,
}

/// No page of the state lies deeper than the greatest depth, every file lies
/// under the seed and is kept by the filters, and no URL was handed out
/// twice.
pub open spec fn sound(s: ScraperView) -> bool {
    &&& forall|i: int| 0 <= i < s.frontier.len() ==> (#[trigger] s.frontier[i]).depth <= s.max_depth
    &&& s.current is Some ==> s.current->0.depth <= s.max_depth
    &&& forall|i: int| 0 <= i < s.files.len() ==> is_under(#[trigger] s.files[i], s.seed)
    &&& forall|i: int|
        0 <= i < s.files.len() ==> keeps(s.accept, s.reject, #[trigger] s.files[i])
    &&& s.visited.no_duplicates()
}

/// One link keeps a sound state sound.
pub proof fn lemma_apply_sound(s: ScraperView, step: Step)
    requires
        sound(s),
        step matches Step::File(url) ==> is_under(url, s.seed),
    ensures
        sound(apply(s, step)),
        apply(s, step).visited == s.visited,
        apply(s, step).seed == s.seed,
        apply(s, step).current == s.current,
{
    let t = apply(s, step);
    assert forall|i: int| 0 <= i < t.frontier.len() implies (#[trigger] t.frontier[i]).depth
        <= t.max_depth by {
        if i < s.frontier.len() {
            assert(t.frontier[i] == s.frontier[i]);
        }
    }
    assert forall|i: int| 0 <= i < t.files.len() implies is_under(#[trigger] t.files[i], t.seed)
        && keeps(t.accept, t.reject, t.files[i]) by {
        if i < s.files.len() {
            assert(t.files[i] == s.files[i]);
        }
    }
}

impl Scraper {
    #[verifier::type_invariant]
    spec fn inv(self) -> bool {
        sound(self@)
    }

    pub closed spec fn view(&self) -> ScraperView {
        ScraperView {
            seed: self.seed@,
            max_depth: self.max_depth,
            max_pages: self.max_pages,
            accept: pattern_view(self.accept),
            reject: pattern_view(self.reject),
            frontier: entry_views(self.frontier@),
            visited: string_views(self.visited@),
            files: string_views(self.files@),
            dirs: string_views(self.dirs@),
            current: match self.current {
                Some(e) => Some(e@),
                None => None,
            },
        }
    }

    /// Begins a walk at a seed: the queue holds the normalized seed, at depth
    /// 0 and page 0, and nothing else is there yet. A seed that does not
    /// normalize is a `MalformedUrl`.
    pub fn new(
        seed: &str,
        max_depth: usize,
        max_pages: usize,
        accept: Option<String>,
        reject: Option<String>,
    ) -> (r: Result<Scraper, UrlError>)
        ensures
            match r {
                Ok(s) => normalize_spec(seed@) is Some && s@ == (ScraperView {
                    seed: normalize_spec(seed@)->0,
                    max_depth: max_depth,
                    max_pages: max_pages,
                    accept: pattern_view(accept),
                    reject: pattern_view(reject),
                    frontier: seq![
                        EntryView { url: normalize_spec(seed@)->0, depth: 0, page: 0 },
                    ],
                    visited: Seq::<Seq<char>>::empty(),
                    files: Seq::<Seq<char>>::empty(),
                    dirs: Seq::<Seq<char>>::empty(),
                    current: None,
                }),
                Err(e) => normalize_spec(seed@) is None && e == UrlError::MalformedUrl,
            },
    {
        match normalize(seed) {
            Err(e) => Err(e),
            Ok(start) => {
                let mut frontier: Vec<Entry> = Vec::new();
                frontier.push(Entry { url: start.clone(), depth: 0, page: 0 });
                let s = Scraper {
                    seed: start,
                    max_depth,
                    max_pages,
                    accept,
                    reject,
                    frontier,
                    visited: Vec::new(),
                    files: Vec::new(),
                    dirs: Vec::new(),
                    current: None,
                };
                assert(s@.frontier == seq![
                    EntryView { url: normalize_spec(seed@)->0, depth: 0, page: 0 },
                ]);
                assert(s@.visited == Seq::<Seq<char>>::empty());
                assert(s@.files == Seq::<Seq<char>>::empty());
                assert(s@.dirs == Seq::<Seq<char>>::empty());
                Ok(s)
            },
        }
    }
}


/// The links of a page keep a sound state sound, and leave alone all but
/// the queue, the files and the directories.
pub proof fn lemma_absorbed_sound(s: ScraperView, hrefs: Seq<Seq<char>>, n: nat)
    requires
        sound(s),
    ensures
        sound(absorbed(s, hrefs, n)),
        absorbed(s, hrefs, n).visited == s.visited,
        absorbed(s, hrefs, n).seed == s.seed,
        absorbed(s, hrefs, n).current == s.current,
        s.current is None ==> absorbed(s, hrefs, n) == s,
    decreases n,
{
    if n > 0 {
        lemma_absorbed_sound(s, hrefs, (n - 1) as nat);
        if s.current is Some {
            let cur = s.current->0;
            lemma_apply_sound(
                absorbed(s, hrefs, (n - 1) as nat),
                step_for(cur.url, hrefs[n - 1], s.seed, cur.page, s.max_pages),
            );
        }
    }
}

/// Asking for the next page keeps the depths of the queue and hands out no
/// URL twice: the visited grow by the page handed out, which was not among
/// them, or stay as they are.
pub proof fn lemma_dequeue(frontier: Seq<EntryView>, visited: Seq<Seq<char>>, max_depth: usize)
    requires
        forall|i: int| 0 <= i < frontier.len() ==> (#[trigger] frontier[i]).depth <= max_depth,
        visited.no_duplicates(),
    ensures
        forall|i: int|
            0 <= i < dequeue(frontier, visited).0.len() ==> (#[trigger] dequeue(
                frontier,
                visited,
            ).0[i]).depth <= max_depth,
        dequeue(frontier, visited).1.no_duplicates(),
        match dequeue(frontier, visited).2 {
            Some(e) => e.depth <= max_depth && !visited.contains(e.url) && dequeue(
                frontier,
                visited,
            ).1 == visited.push(e.url),
            None => dequeue(frontier, visited).1 == visited,
        },
    decreases frontier.len(),
{
    if frontier.len() == 0 {
    } else {
        let rest = frontier.skip(1);
        assert forall|i: int| 0 <= i < rest.len() implies (#[trigger] rest[i]).depth
            <= max_depth by {
            assert(rest[i] == frontier[i + 1]);
        }
        if visited.contains(frontier[0].url) {
            lemma_dequeue(rest, visited, max_depth);
        } else {
            let more = visited.push(frontier[0].url);
            assert forall|i: int, j: int|
                0 <= i < more.len() && 0 <= j < more.len() && i != j implies more[i]
                != more[j] by {
                if i < visited.len() && j < visited.len() {
                } else if i < visited.len() {
                    assert(visited.contains(visited[i]));
                } else {
                    assert(visited.contains(visited[j]));
                }
            }
        }
    }
}

/// Takes the next page to fetch from the queue.
fn advance(frontier: &mut Vec<Entry>, visited: &mut Vec<String>) -> (r: Option<Entry>)
    ensures
        entry_views(final(frontier)@) == dequeue(
            entry_views(old(frontier)@),
            string_views(old(visited)@),
        ).0,
        string_views(final(visited)@) == dequeue(
            entry_views(old(frontier)@),
            string_views(old(visited)@),
        ).1,
        match r {
            Some(e) => Some(e@) == dequeue(
                entry_views(old(frontier)@),
                string_views(old(visited)@),
            ).2,
            None => dequeue(entry_views(old(frontier)@), string_views(old(visited)@)).2 is None,
        },
{
    let ghost start = dequeue(entry_views(frontier@), string_views(visited@));
    loop
        invariant
            start == dequeue(entry_views(old(frontier)@), string_views(old(visited)@)),
            start == dequeue(entry_views(frontier@), string_views(visited@)),
        decreases frontier.len(),
    {
        if frontier.len() == 0 {
            return None;
        }
        let ghost before = entry_views(frontier@);
        let ghost seen = string_views(visited@);
        proof {
            assert(entry_views(frontier@.remove(0)) == before.skip(1));
        }
        let entry = frontier.remove(0);
        assert(entry@ == before[0]);
        if !holds_url(visited, entry.url.as_str()) {
            let given = Entry { url: entry.url.clone(), depth: entry.depth, page: entry.page };
            proof {
                assert(string_views(visited@.push(entry.url)) == seen.push(entry.url@));
            }
            visited.push(entry.url);
            return Some(given);
        }
    }
}

/// Adds what one link leads to.
fn take_step(
    action: Action,
    cur: &Entry,
    max_depth: usize,
    accept: &Option<String>,
    reject: &Option<String>,
    frontier: &mut Vec<Entry>,
    files: &mut Vec<String>,
    dirs: &mut Vec<String>,
    Ghost(s): Ghost<ScraperView>,
)
    requires
        s.current == Some(cur@),
        s.max_depth == max_depth,
        s.accept == pattern_view(*accept),
        s.reject == pattern_view(*reject),
        s.frontier == entry_views(old(frontier)@),
        s.files == string_views(old(files)@),
        s.dirs == string_views(old(dirs)@),
    ensures
        apply(s, action@) == (ScraperView {
            frontier: entry_views(final(frontier)@),
            files: string_views(final(files)@),
            dirs: string_views(final(dirs)@),
            ..s
        }),
{
    match action {
        Action::Skip => {},
        Action::Page(url, n) => {
            let entry = Entry { url, depth: cur.depth, page: n };
            assert(entry_views(frontier@.push(entry)) == s.frontier.push(entry@));
            frontier.push(entry);
        },
        Action::File(url) => {
            if filter_keeps(ask(accept, url.as_str()), ask(reject, url.as_str())) {
                assert(string_views(files@.push(url)) == s.files.push(url@));
                files.push(url);
            }
        },
        Action::Dir(url) => {
            if cur.depth < max_depth {
                let entry = Entry { url: url.clone(), depth: cur.depth + 1, page: 0 };
                assert(entry_views(frontier@.push(entry)) == s.frontier.push(entry@));
                assert(string_views(dirs@.push(url)) == s.dirs.push(url@));
                frontier.push(entry);
                dirs.push(url);
            }
        },
    }
}

/// What a link on the current page leads to.
pub fn step_on(cur: &Entry, href: &str, seed: &str, max_pages: usize) -> (r: Action)
    ensures
        r@ == step_for(cur.url@, href@, seed@, cur.page, max_pages),
{
    let joined = try_url_joiner(cur.url.as_str(), href);
    let abs = match &joined {
        Some(j) => match normalize(j.as_str()) {
            Ok(a) => Some(a),
            Err(_) => None,
        },
        None => None,
    };
    let names_page = is_rel_resolved(cur.url.as_str(), &joined);
    let lowered = to_lowercase(href);
    classify(&abs, href, names_page, lowered.as_str(), seed, cur.page, max_pages)
}

/// Adds what the links of the current page lead to.
fn absorb_links(
    hrefs: &Vec<String>,
    cur: &Entry,
    seed: &str,
    max_depth: usize,
    max_pages: usize,
    accept: &Option<String>,
    reject: &Option<String>,
    frontier: &mut Vec<Entry>,
    files: &mut Vec<String>,
    dirs: &mut Vec<String>,
    Ghost(s): Ghost<ScraperView>,
)
    requires
        s.current == Some(cur@),
        s.seed == seed@,
        s.max_depth == max_depth,
        s.max_pages == max_pages,
        s.accept == pattern_view(*accept),
        s.reject == pattern_view(*reject),
        s.frontier == entry_views(old(frontier)@),
        s.files == string_views(old(files)@),
        s.dirs == string_views(old(dirs)@),
        sound(s),
    ensures
        absorbed(s, string_views(hrefs@), hrefs.len() as nat) == (ScraperView {
            frontier: entry_views(final(frontier)@),
            files: string_views(final(files)@),
            dirs: string_views(final(dirs)@),
            ..s
        }),
{
    let mut i: usize = 0;
    while i < hrefs.len()
        invariant
            i <= hrefs.len(),
            s.current == Some(cur@),
            s.seed == seed@,
            s.max_depth == max_depth,
            s.max_pages == max_pages,
            s.accept == pattern_view(*accept),
            s.reject == pattern_view(*reject),
            sound(s),
            absorbed(s, string_views(hrefs@), i as nat) == (ScraperView {
                frontier: entry_views(frontier@),
                files: string_views(files@),
                dirs: string_views(dirs@),
                ..s
            }),
        decreases hrefs.len() - i,
    {
        let ghost before = absorbed(s, string_views(hrefs@), i as nat);
        proof {
            lemma_absorbed_sound(s, string_views(hrefs@), i as nat);
        }
        let action = step_on(cur, hrefs[i].as_str(), seed, max_pages);
        take_step(action, cur, max_depth, accept, reject, frontier, files, dirs, Ghost(before));
        i += 1;
    }
}

impl Scraper {
    /// The next page to fetch, if one waits: the first of the queue that was
    /// not handed out before. It joins the visited and becomes the current
    /// page.
    ///
    /// The visited never shrink and never hold a URL twice: they are the
    /// distinct URLs that were handed out to be fetched.
    pub fn next_target(&mut self) -> (r: Option<Entry>)
        ensures
            final(self)@ == advanced(old(self)@),
            match r {
                Some(e) => final(self)@.current == Some(e@) && !old(self)@.visited.contains(e.url@)
                    && final(self)@.visited == old(self)@.visited.push(e.url@),
                None => final(self)@.current is None && final(self)@.visited == old(
                    self,
                )@.visited,
            },
            final(self)@.visited.len() >= old(self)@.visited.len(),
            final(self)@.visited.no_duplicates(),
    {
        proof {
            use_type_invariant(&*self);
            lemma_dequeue(self@.frontier, self@.visited, self.max_depth);
        }
        let mut frontier: Vec<Entry> = Vec::new();
        let mut visited: Vec<String> = Vec::new();
        std::mem::swap(&mut self.frontier, &mut frontier);
        std::mem::swap(&mut self.visited, &mut visited);
        let r = advance(&mut frontier, &mut visited);
        self.frontier = frontier;
        self.visited = visited;
        match r {
            Some(e) => {
                self.current = Some(Entry { url: e.url.clone(), depth: e.depth, page: e.page });
                Some(e)
            },
            None => {
                self.current = None;
                None
            },
        }
    }

    /// Takes in the links of the current page, in their order: each one adds
    /// what it leads to. Without a current page nothing changes.
    pub fn absorb(&mut self, hrefs: &Vec<String>)
        ensures
            final(self)@ == absorbed(old(self)@, string_views(hrefs@), hrefs.len() as nat),
            final(self)@.visited == old(self)@.visited,
    {
        proof {
            use_type_invariant(&*self);
            lemma_absorbed_sound(self@, string_views(hrefs@), hrefs.len() as nat);
        }
        let ghost start = self@;
        assert(sound(self@));
        let mut current: Option<Entry> = None;
        assert(sound(ScraperView { current: None, ..self@ }));
        std::mem::swap(&mut self.current, &mut current);
        match &current {
            None => {},
            Some(cur) => {
                let mut frontier: Vec<Entry> = Vec::new();
                let mut files: Vec<String> = Vec::new();
                let mut dirs: Vec<String> = Vec::new();
                std::mem::swap(&mut self.frontier, &mut frontier);
                std::mem::swap(&mut self.files, &mut files);
                std::mem::swap(&mut self.dirs, &mut dirs);
                absorb_links(
                    hrefs,
                    cur,
                    self.seed.as_str(),
                    self.max_depth,
                    self.max_pages,
                    &self.accept,
                    &self.reject,
                    &mut frontier,
                    &mut files,
                    &mut dirs,
                    Ghost(start),
                );
                proof {
                    let done = absorbed(start, string_views(hrefs@), hrefs.len() as nat);
                    assert(sound(done));
                    assert(done.frontier == entry_views(frontier@));
                    assert(done.files == string_views(files@));
                    assert(forall|i: int|
                        0 <= i < entry_views(frontier@).len() ==> (#[trigger] entry_views(
                            frontier@,
                        )[i]).depth <= start.max_depth);
                    assert(forall|i: int|
                        0 <= i < string_views(files@).len() ==> is_under(
                            #[trigger] string_views(files@)[i],
                            start.seed,
                        ));
                    assert(forall|i: int|
                        0 <= i < string_views(files@).len() ==> keeps(
                            start.accept,
                            start.reject,
                            #[trigger] string_views(files@)[i],
                        ));
                }
                self.frontier = frontier;
                self.files = files;
                self.dirs = dirs;
            },
        }
        self.current = current;
    }

    /// Takes in a fetched page: the page is taken for a kind of directory,
    /// and the links that this kind takes from it are taken in.
    pub fn visit(&mut self, body: &str, server: &str)
        ensures
            old(self)@.current is None ==> final(self)@ == old(self)@,
            old(self)@.current is Some ==> final(self)@ == absorbed(
                old(self)@,
                links_of(
                    html_nodes(body@),
                    old(self)@.current->0.url,
                    method_of(html_nodes(body@), server@),
                ),
                links_of(
                    html_nodes(body@),
                    old(self)@.current->0.url,
                    method_of(html_nodes(body@), server@),
                ).len(),
            ),
            final(self)@.visited == old(self)@.visited,
    {
        proof {
            use_type_invariant(&*self);
            lemma_absorbed_sound(self@, Seq::<Seq<char>>::empty(), 0);
        }
        let hrefs = match &self.current {
            None => Vec::new(),
            Some(cur) => {
                let nodes = parse_html(body);
                let method = detect_in(&nodes, server);
                links_in(&nodes, cur.url.as_str(), method)
            },
        };
        proof {
            lemma_absorbed_sound(self@, string_views(hrefs@), hrefs.len() as nat);
        }
        self.absorb(&hrefs);
    }

    /// Gives up the current page: nothing is taken from it.
    pub fn skip(&mut self)
        ensures
            final(self)@ == (ScraperView { current: None, ..old(self)@ }),
    {
        proof {
            use_type_invariant(&*self);
        }
        self.current = None;
    }

    /// Whether no page waits to be fetched.
    pub fn is_done(&self) -> (r: bool)
        ensures
            r == (self@.frontier.len() == 0),
    {
        self.frontier.len() == 0
    }

    /// The normalized URL the walk began at.
    pub fn seed(&self) -> (r: &String)
        ensures
            r@ == self@.seed,
    {
        &self.seed
    }

    /// The pages that wait. None lies deeper than the greatest depth.
    pub fn frontier(&self) -> (r: &Vec<Entry>)
        ensures
            entry_views(r@) == self@.frontier,
            forall|i: int| 0 <= i < r@.len() ==> (#[trigger] r@[i]).depth <= self@.max_depth,
    {
        proof {
            use_type_invariant(self);
            assert forall|i: int| 0 <= i < self.frontier@.len() implies (
            #[trigger] self.frontier@[i]).depth <= self@.max_depth by {
                assert(self@.frontier[i] == self.frontier@[i]@);
            }
        }
        &self.frontier
    }

    /// The URLs that were handed out to be fetched. None stands twice.
    pub fn visited(&self) -> (r: &Vec<String>)
        ensures
            string_views(r@) == self@.visited,
            string_views(r@).no_duplicates(),
    {
        proof {
            use_type_invariant(self);
        }
        &self.visited
    }

    /// The files found so far, in the order they were found. Each lies under
    /// the seed, and the filters keep each: with an accept filter it matches
    /// that one; with a reject filter alone it does not match that one.
    pub fn files(&self) -> (r: &Vec<String>)
        ensures
            string_views(r@) == self@.files,
            forall|i: int| 0 <= i < r@.len() ==> is_under(#[trigger] r@[i]@, self@.seed),
            forall|i: int|
                0 <= i < r@.len() ==> keeps(self@.accept, self@.reject, #[trigger] r@[i]@),
    {
        proof {
            use_type_invariant(self);
            assert forall|i: int| 0 <= i < self.files@.len() implies is_under(
                #[trigger] self.files@[i]@,
                self@.seed,
            ) && keeps(self@.accept, self@.reject, self.files@[i]@) by {
                assert(self@.files[i] == self.files@[i]@);
            }
        }
        &self.files
    }

    /// The directories that were put in the queue, in that order.
    pub fn dirs(&self) -> (r: &Vec<String>)
        ensures
            string_views(r@) == self@.dirs,
    {
        &self.dirs
    }
}

/// With an accept filter every kept file matches it, whatever the reject
/// filter says; with a reject filter alone no kept file matches it.
pub proof fn law_filters(accept: Option<Seq<char>>, reject: Option<Seq<char>>, url: Seq<char>)
    requires
        keeps(accept, reject, url),
    ensures
        accept is Some ==> regex_match(accept->0, url) == Some(true),
        accept is None && reject is Some ==> regex_match(reject->0, url) != Some(true),
{
}

} // verus!
