//! The description of a file that a URL leads to: its name, the two parts of
//! the name, and the directory it lies in.

use crate::bindings::{parse_url, string_of, url_parse, UrlParts};
use crate::parser::{origin_of, without_last_slash};
use crate::patterns::{file_tail, file_tail_start, first_query_segment, query_segment};
use crate::text::{
    begins_with, chars_of, concat, replace_first, replace_first_in, same, slice, split,
    split_on, starts_with, views,
};
use vstd::prelude::*;
use vstd::std_specs::cmp::PartialEqSpec;

verus! {

/// The longest name of a file, in characters.
pub const NAME_LIMIT: usize = 160;

/// A file behind a URL.
#[derive(Debug)]
pub struct File {
    /// The URL of the file.
    pub link: String,
    /// The last segment of the path, cut to its last 160 characters.
    pub name: String,
    /// The name before its dot, where it has exactly one.
    pub short_name: Option<String>,
    /// The name behind its dot, where it has exactly one.
    pub ext: Option<String>,
    /// The path of the URL, up to the directory of the file.
    pub dir_path: String,
}

/// A file behind a URL, as sequences of characters.
pub struct FileView {
    pub link: Seq<char>,
    pub name: Seq<char>,
    pub short_name: Option<Seq<char>>,
    pub ext: Option<Seq<char>>,
    pub dir_path: Seq<char>,
}

/// The view of a text that may be absent.
pub open spec fn view_of(text: Option<String>) -> Option<Seq<char>> {
    match text {
        Some(t) => Some(t@),
        None => None,
    }
}

impl View for File {
    type V = FileView;

    open spec fn view(&self) -> FileView {
        FileView {
            link: self.link@,
            name: self.name@,
            short_name: view_of(self.short_name),
            ext: view_of(self.ext),
            dir_path: self.dir_path@,
        }
    }
}

/// The last 160 characters of a name.
pub open spec fn cut(name: Seq<char>) -> Seq<char> {
    if name.len() > NAME_LIMIT {
        name.skip(name.len() - NAME_LIMIT)
    } else {
        name
    }
}

/// One part of a name that has exactly one dot: what stands behind the dot
/// where `get_ext` holds, else what stands before it.
pub open spec fn part_of(name: Seq<char>, get_ext: bool) -> Option<Seq<char>> {
    let parts = split(name, '.');
    if parts.len() == 2 {
        Some(
            if get_ext {
                parts[1]
            } else {
                parts[0]
            },
        )
    } else {
        None
    }
}

/// The name that a path gives: its last segment, cut, or `untitled` where
/// that is empty or there is no path.
pub open spec fn name_from(path: Option<Seq<char>>) -> Seq<char> {
    match path {
        Some(p) => if split(p, '/').last().len() > 0 {
            cut(split(p, '/').last())
        } else {
            "untitled"@
        },
        None => "untitled"@,
    }
}

/// The directory of the file at the end of a path: the path up to the `/`
/// before the file; the whole path where it ends with no file.
pub open spec fn dir_of(path: Seq<char>) -> Seq<char> {
    match file_tail_start(path) {
        Some(slash) => path.take(slash + 1),
        None => path,
    }
}

/// The segments of a list that are not empty, in their order.
pub open spec fn full_segments(parts: Seq<Seq<char>>) -> Seq<Seq<char>>
    decreases parts.len(),
{
    if parts.len() == 0 {
        parts
    } else if parts.last().len() == 0 {
        full_segments(parts.drop_last())
    } else {
        full_segments(parts.drop_last()).push(parts.last())
    }
}

/// The directories of a directory path that are kept when the first `cut`
/// of them are dropped.
pub open spec fn kept_dirs(dir_path: Seq<char>, cut: nat) -> Seq<Seq<char>> {
    let dirs = full_segments(split(dir_path, '/'));
    if cut >= dirs.len() {
        Seq::<Seq<char>>::empty()
    } else {
        dirs.skip(cut as int)
    }
}

/// Where a file is saved, below the output directory: under its name alone
/// where the directories are flattened; else under the directories of its
/// path, without the first `cut` of them, and its name.
pub open spec fn save_path_of(dir_path: Seq<char>, name: Seq<char>, flatten: bool, cut: nat) -> Seq<
    char,
> {
    if flatten {
        name
    } else {
        crate::text::join(kept_dirs(dir_path, cut).push(name), '/')
    }
}

/// The description that a link, the path that names the file and the path
/// of the link give.
pub open spec fn described(link: Seq<char>, named: Option<Seq<char>>, path: Seq<char>) -> FileView {
    FileView {
        link: link,
        name: name_from(named),
        short_name: part_of(name_from(named), false),
        ext: part_of(name_from(named), true),
        dir_path: dir_of(path),
    }
}

/// The path whose last segment names the file. The outer `None` says that
/// the URL parser did not read a text it was given; the inner one, that the
/// link has no such path.
///
/// Where the link holds a segment `/?key=value/`, it is the path of the link
/// with the first such segment made a `/`. Else it is the path of the link
/// without a `/` at its end; but where that path is `/` and there is a query,
/// the query is read as the path if it begins with `/`, and there is no path
/// if it does not.
pub open spec fn naming_path(link: Seq<char>) -> Option<Option<Seq<char>>> {
    match query_segment(link, 0) {
        Some((start, end)) => match url_parse(link.take(start) + "/"@ + link.skip(end)) {
            Some(p) => Some(Some(p.path)),
            None => None,
        },
        None => match url_parse(link) {
            None => None,
            Some(p) => if p.path == "/"@ && p.query is Some {
                if starts_with(p.query->0, "/"@) {
                    match url_parse(origin_of(p) + p.query->0) {
                        Some(q) => Some(Some(without_last_slash(q.path))),
                        None => None,
                    }
                } else {
                    Some(None)
                }
            } else {
                Some(Some(without_last_slash(p.path)))
            },
        },
    }
}

/// The path of the link, read with its first `/?/` made a `/`.
pub open spec fn listing_path(link: Seq<char>) -> Option<Seq<char>> {
    match url_parse(replace_first(link, "/?/"@, "/"@)) {
        Some(p) => Some(p.path),
        None => None,
    }
}

/// The description of the file behind a link; none where the URL parser
/// does not read the link.
pub open spec fn file_spec(link: Seq<char>) -> Option<FileView> {
    match (naming_path(link), listing_path(link)) {
        (Some(named), Some(path)) => Some(described(link, named, path)),
        _ => None,
    }
}

impl PartialEq for File {
    fn eq(&self, other: &Self) -> (r: bool) {
        self.link == other.link
    }
}

impl vstd::std_specs::cmp::PartialEqSpecImpl for File {
    open spec fn obeys_eq_spec() -> bool {
        true
    }

    open spec fn eq_spec(&self, other: &Self) -> bool {
        self.link@ == other.link@
    }
}

impl File {
    /// Shortens the name of a file to its last 160 characters.
    pub fn cut_name(name: &str) -> (r: String)
        ensures
            r@ == cut(name@),
            r@.len() <= NAME_LIMIT,
    {
        string_of(&Self::cut_chars(&chars_of(name)))
    }

    fn cut_chars(name: &Vec<char>) -> (r: Vec<char>)
        ensures
            r@ == cut(name@),
    {
        if name.len() > NAME_LIMIT {
            slice(name, name.len() - NAME_LIMIT, name.len())
        } else {
            slice(name, 0, name.len())
        }
    }

    /// One part of a name that has exactly one dot: the extension where
    /// `get_ext` holds, else what stands before the dot.
    pub fn part_of_name(name: &str, get_ext: bool) -> (r: Option<String>)
        ensures
            view_of(r) == part_of(name@, get_ext),
    {
        let parts = split_on(&chars_of(name), '.');
        if parts.len() == 2 {
            if get_ext {
                Some(string_of(&parts[1]))
            } else {
                Some(string_of(&parts[0]))
            }
        } else {
            None
        }
    }

    /// The name that a path gives.
    fn name_of(path: &Option<Vec<char>>) -> (r: Vec<char>)
        ensures
            r@ == name_from(
                match path {
                    Some(p) => Some(p@),
                    None => None,
                },
            ),
    {
        match path {
            Some(p) => {
                let parts = split_on(p, '/');
                proof {
                    crate::text::lemma_split_nonempty(p@, '/');
                }
                let last = &parts[parts.len() - 1];
                if last.len() > 0 {
                    Self::cut_chars(last)
                } else {
                    chars_of("untitled")
                }
            },
            None => chars_of("untitled"),
        }
    }

    /// The directory of the file at the end of a path.
    fn dir_path(path: &Vec<char>) -> (r: Vec<char>)
        ensures
            r@ == dir_of(path@),
    {
        match file_tail(path) {
            Some(slash) => slice(path, 0, slash + 1),
            None => slice(path, 0, path.len()),
        }
    }

    /// Describes the file behind a link, given the path whose last segment
    /// names it, if there is one, and the path of the link.
    pub fn from_paths(link: &str, named: &Option<String>, path: &str) -> (r: File)
        ensures
            r@ == described(link@, view_of(*named), path@),
    {
        let named_chars = match named {
            Some(p) => Some(chars_of(p.as_str())),
            None => None,
        };
        let name = string_of(&Self::name_of(&named_chars));
        let ext = Self::part_of_name(name.as_str(), true);
        let short_name = Self::part_of_name(name.as_str(), false);
        let dir_path = string_of(&Self::dir_path(&chars_of(path)));
        File { link: string_of(&chars_of(link)), name, short_name, ext, dir_path }
    }

    /// The path whose last segment names the file behind a link.
    fn retrieve_path(link: &Vec<char>) -> (r: Option<Option<String>>)
        ensures
            match r {
                Some(named) => naming_path(link@) == Some(view_of(named)),
                None => naming_path(link@) is None,
            },
    {
        proof {
            reveal_strlit("/");
        }
        let slash = chars_of("/");
        match first_query_segment(link) {
            Some((start, end)) => {
                let front = concat(&slice(link, 0, start), &slash);
                let text = concat(&front, &slice(link, end, link.len()));
                match parse_url(string_of(&text).as_str()) {
                    Some(p) => Some(Some(p.path)),
                    None => None,
                }
            },
            None => match parse_url(string_of(link).as_str()) {
                None => None,
                Some(p) => {
                    let path = chars_of(p.path.as_str());
                    if same(&path, &slash) && p.query.is_some() {
                        let query = match &p.query {
                            Some(q) => chars_of(q.as_str()),
                            None => Vec::new(),
                        };
                        if begins_with(&query, &slash) {
                            let text = concat(&Self::origin(&p), &query);
                            match parse_url(string_of(&text).as_str()) {
                                Some(q) => Some(
                                    Some(
                                        string_of(
                                            &crate::parser::remove_last_slash_chars(
                                                &chars_of(q.path.as_str()),
                                            ),
                                        ),
                                    ),
                                ),
                                None => None,
                            }
                        } else {
                            Some(None)
                        }
                    } else {
                        Some(Some(string_of(&crate::parser::remove_last_slash_chars(&path))))
                    }
                },
            },
        }
    }

    fn origin(parts: &UrlParts) -> (r: Vec<char>)
        ensures
            r@ == origin_of(parts@),
    {
        crate::parser::origin(parts)
    }

    /// Where the file is saved, below the output directory.
    pub fn save_path(&self, flatten: bool, cut_dirs: usize) -> (r: String)
        ensures
            r@ == save_path_of(self.dir_path@, self.name@, flatten, cut_dirs as nat),
    {
        if flatten {
            return self.name.clone();
        }
        let parts = split_on(&chars_of(self.dir_path.as_str()), '/');
        let mut dirs: Vec<Vec<char>> = Vec::new();
        let mut i: usize = 0;
        assert(views(parts@).take(0) == Seq::<Seq<char>>::empty());
        assert(views(dirs@) == Seq::<Seq<char>>::empty());
        while i < parts.len()
            invariant
                i <= parts.len(),
                views(dirs@) == full_segments(views(parts@).take(i as int)),
            decreases parts.len() - i,
        {
            proof {
                assert(views(parts@).take(i + 1).drop_last() == views(parts@).take(i as int));
                assert(views(parts@).take(i + 1).last() == parts@[i as int]@);
            }
            if parts[i].len() > 0 {
                let ghost before = views(dirs@);
                let piece = slice(&parts[i], 0, parts[i].len());
                assert(piece@ == parts@[i as int]@);
                dirs.push(piece);
                assert(views(dirs@) == before.push(parts@[i as int]@));
            }
            i += 1;
        }
        assert(views(parts@).take(parts.len() as int) == views(parts@));
        let mut kept: Vec<Vec<char>> = Vec::new();
        let first: usize = if cut_dirs < dirs.len() {
            cut_dirs
        } else {
            dirs.len()
        };
        let mut k: usize = first;
        assert(views(kept@) == views(dirs@).subrange(first as int, k as int));
        while k < dirs.len()
            invariant
                first <= k <= dirs.len(),
                views(kept@) == views(dirs@).subrange(first as int, k as int),
            decreases dirs.len() - k,
        {
            let ghost before = views(kept@);
            let piece = slice(&dirs[k], 0, dirs[k].len());
            assert(piece@ == dirs@[k as int]@);
            kept.push(piece);
            assert(views(kept@) == before.push(dirs@[k as int]@));
            k += 1;
        }
        proof {
            assert(views(dirs@).subrange(first as int, dirs.len() as int) == kept_dirs(
                self.dir_path@,
                cut_dirs as nat,
            ));
        }
        let ghost before = views(kept@);
        let name = chars_of(self.name.as_str());
        kept.push(name);
        assert(views(kept@) == before.push(self.name@));
        string_of(&crate::text::join_with(&kept, '/'))
    }

    /// Describes the file behind a link that `file_spec` takes; `try_new`
    /// tests that first.
    pub fn new(link: &str) -> (r: File)
        requires
            file_spec(link@) is Some,
        ensures
            file_spec(link@) == Some(r@),
    {
        let chars = chars_of(link);
        let named = match Self::retrieve_path(&chars) {
            Some(named) => named,
            None => None,
        };
        let read = replace_first_in(&chars, &chars_of("/?/"), &chars_of("/"));
        let path = match parse_url(string_of(&read).as_str()) {
            Some(p) => p.path,
            None => String::new(),
        };
        Self::from_paths(link, &named, path.as_str())
    }

    /// Describes the file behind a link, or says with `None` that the URL
    /// parser does not read the link.
    pub fn try_new(link: &str) -> (r: Option<File>)
        ensures
            match r {
                Some(file) => file_spec(link@) == Some(file@),
                None => file_spec(link@) is None,
            },
    {
        let chars = chars_of(link);
        let read = replace_first_in(&chars, &chars_of("/?/"), &chars_of("/"));
        if Self::retrieve_path(&chars).is_some() && parse_url(string_of(&read).as_str()).is_some() {
            Some(Self::new(link))
        } else {
            None
        }
    }
}

/// Two descriptions are equal exactly where their links are, whatever the
/// rest of them holds.
pub proof fn law_equal_by_link(a: File, b: File)
    ensures
        a.eq_spec(&b) <==> a.link@ == b.link@,
{
}

/// `==` on two descriptions compares their links.
pub fn same_file(a: &File, b: &File) -> (r: bool)
    ensures
        r == (a.link@ == b.link@),
{
    a == b
}

} // verus!
