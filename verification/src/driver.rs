//! The decisions of the crawl driver: what to run, what to do with the files
//! of a walk, when to try a request again, how long to wait, and what a
//! record holds.
//!
//! The driver itself fetches, waits and writes; here it only learns what to
//! do next.

use crate::bindings::{lowercase_of, string_of, to_lowercase, trim, trimmed};
use crate::text::{
    chars_of, concat, decimal, decimal_text, split, split_on, string_views, text_is, views,
};
use vstd::prelude::*;

verus! {

/// The crawl driver.
pub struct Zeiver;

/// Where the work of a run comes from.
#[derive(Clone, Copy, Debug, PartialEq, Eq, Structural)]
pub enum Job {
    /// The seeds given with the command.
    Seeds,
    /// The seeds read from the input file.
    InputFile,
    /// The links of a record, which are probed and counted.
    InputRecord,
}

/// What is done with the files of a walk.
#[derive(Clone, Copy, Debug, PartialEq, Eq, Structural)]
pub struct Plan {
    /// The list is printed.
    pub print: bool,
    /// The list is written to the record.
    pub record: bool,
    /// The files are downloaded.
    pub download: bool,
}

/// How a request ended, by its status.
#[derive(Clone, Copy, Debug, PartialEq, Eq, Structural)]
pub enum Outcome {
    /// The page is there.
    Success,
    /// The request failed in a way that may pass: it may be tried again.
    Retryable,
    /// The server refuses the request: trying again is of no use.
    Refused,
}

/// What follows a request that did not succeed.
#[derive(Clone, Copy, Debug, PartialEq, Eq, Structural)]
pub enum Next {
    /// Wait, then try the request again.
    Retry,
    /// Give the page up and go on with the walk.
    Skip,
}

/// The options of a run that may stand in each other's way.
#[derive(Clone, Copy, Debug, PartialEq, Eq, Structural)]
pub struct Flags {
    pub test: bool,
    pub record: bool,
    pub record_only: bool,
    pub no_stats: bool,
    pub no_dirs: bool,
    pub cuts: bool,
    pub output: bool,
    pub output_record: bool,
    pub input_file: bool,
    pub input_record: bool,
    pub urls: bool,
    /// One of the options that shape a walk or a request is set: depth,
    /// pages, timeout, the waits, tries, redirects, accept, reject, user
    /// agent, headers, proxy.
    pub walk: bool,
}

/// The options that stand in each other's way.
#[derive(Clone, Copy, Debug, PartialEq, Eq, Structural)]
pub enum ConfigConflict {
    /// `record` with `record_only`.
    RecordTwice,
    /// `test` with an option of the recorder or the downloader.
    TestWithOutput,
    /// `input_record` with an option other than the output and the name of
    /// the record.
    RecordWithWalk,
    /// Neither seeds, nor an input file, nor an input record.
    NoSeeds,
}

/// The counts that a record ends with.
#[derive(Clone, Copy, Debug, PartialEq, Eq, Structural)]
pub struct Stats {
    pub total: usize,
    pub ok: usize,
}

/// The list without the items equal to a text.
pub open spec fn without_text(list: Seq<Seq<char>>, text: Seq<char>) -> Seq<Seq<char>>
    decreases list.len(),
{
    if list.len() == 0 {
        list
    } else if list.last() == text {
        without_text(list.drop_last(), text)
    } else {
        without_text(list.drop_last(), text).push(list.last())
    }
}

/// The work of a run: the seeds of the command where there are some, else
/// those of the input file where one is named, else an input record.
pub open spec fn job_of(has_urls: bool, has_input_file: bool) -> Job {
    if has_urls {
        Job::Seeds
    } else if has_input_file {
        Job::InputFile
    } else {
        Job::InputRecord
    }
}

/// What is done with the files of a walk: a test prints them and does
/// nothing else; `record_only` writes the record and downloads nothing;
/// else the files are downloaded, and recorded first where `record` is set.
pub open spec fn plan_of(test: bool, record_only: bool, record: bool) -> Plan {
    if test {
        Plan { print: true, record: false, download: false }
    } else if record_only {
        Plan { print: false, record: true, download: false }
    } else {
        Plan { print: false, record: record, download: true }
    }
}

/// How a request with this status ended: a server error, a request timeout
/// and too many requests may pass; another client error will not; all else
/// is a page.
pub open spec fn outcome_of(status: u16) -> Outcome {
    if status >= 500 || status == 408 || status == 429 {
        Outcome::Retryable
    } else if status >= 400 {
        Outcome::Refused
    } else {
        Outcome::Success
    }
}

/// What follows a request that was tried `attempts` times: another try
/// where the failure may pass and fewer than `tries` were made.
pub open spec fn next_of(outcome: Outcome, attempts: u32, tries: u32) -> Next {
    if outcome == Outcome::Retryable && attempts < tries {
        Next::Retry
    } else {
        Next::Skip
    }
}

/// The wait before a request, in milliseconds: the wait that is set, or,
/// for a random wait, half of it and what the draw leaves below the whole.
pub open spec fn wait_of(wait: u64, random_wait: bool, draw: u64) -> int {
    if random_wait && wait > 0 {
        wait / 2 + draw % wait
    } else {
        wait as int
    }
}

/// The first conflict among the options, if there is one.
pub open spec fn conflict_of(f: Flags) -> Option<ConfigConflict> {
    if f.record && f.record_only {
        Some(ConfigConflict::RecordTwice)
    } else if f.test && (f.record || f.record_only || f.cuts || f.no_dirs || f.output
        || f.output_record || f.no_stats || f.input_record) {
        Some(ConfigConflict::TestWithOutput)
    } else if f.input_record && (f.record || f.record_only || f.cuts || f.no_dirs || f.no_stats
        || f.walk || f.input_file || f.urls) {
        Some(ConfigConflict::RecordWithWalk)
    } else if !f.urls && !f.input_file && !f.input_record {
        Some(ConfigConflict::NoSeeds)
    } else {
        None
    }
}

/// The two parts of a text around its first `$`, each one trimmed; none
/// where the text holds no `$`.
pub open spec fn pair_of(text: Seq<char>) -> Option<(Seq<char>, Seq<char>)> {
    if split(text, '$').len() >= 2 {
        Some((trimmed(split(text, '$')[0]), trimmed(split(text, '$')[1])))
    } else {
        None
    }
}

/// The name and the value of a header written as `name$value`: the two
/// parts, each one in lower case.
pub open spec fn header_of(text: Seq<char>) -> Option<(Seq<char>, Seq<char>)> {
    match pair_of(text) {
        Some((name, value)) => Some((lowercase_of(name), lowercase_of(value))),
        None => None,
    }
}

/// The lines of a text that are not empty, each without a carriage return
/// at its end.
pub open spec fn lines_of(text: Seq<char>) -> Seq<Seq<char>> {
    full_lines(split(text, '\n'))
}

/// A line without a carriage return at its end.
pub open spec fn bare_line(line: Seq<char>) -> Seq<char> {
    if line.len() > 0 && line.last() == '\r' {
        line.drop_last()
    } else {
        line
    }
}

/// The bare lines that are not empty.
pub open spec fn full_lines(lines: Seq<Seq<char>>) -> Seq<Seq<char>>
    decreases lines.len(),
{
    if lines.len() == 0 {
        lines
    } else if bare_line(lines.last()).len() == 0 {
        full_lines(lines.drop_last())
    } else {
        full_lines(lines.drop_last()).push(bare_line(lines.last()))
    }
}

/// The links of a record, each on a line of its own.
pub open spec fn record_lines(urls: Seq<Seq<char>>) -> Seq<char>
    decreases urls.len(),
{
    if urls.len() == 0 {
        Seq::<char>::empty()
    } else {
        record_lines(urls.drop_last()) + urls.last() + "\n"@
    }
}

/// The block of counts that ends a record: an empty line, then the total,
/// the links that were reached, and those that were not.
pub open spec fn stats_block(stats: Stats) -> Seq<char> {
    "\nTotal: "@ + decimal_text(stats.total as nat) + "\nOK: "@ + decimal_text(stats.ok as nat)
        + "\nFailed: "@ + decimal_text((stats.total - stats.ok) as nat) + "\n"@
}

/// The text of a record: its links, and the counts where they are wanted.
pub open spec fn record_of(urls: Seq<Seq<char>>, stats: Option<Stats>) -> Seq<char> {
    match stats {
        Some(s) => record_lines(urls) + stats_block(s),
        None => record_lines(urls),
    }
}

/// How many of the first `n` probes reached their link.
pub open spec fn reached_upto(reached: Seq<bool>, n: nat) -> nat
    decreases n,
{
    if n == 0 {
        0
    } else if reached[n - 1] {
        reached_upto(reached, (n - 1) as nat) + 1
    } else {
        reached_upto(reached, (n - 1) as nat)
    }
}

impl Zeiver {
    /// Takes the name of the program out of the list of seeds, wherever it
    /// stands in it.
    pub fn clean_urls_list(urls: &mut Vec<String>, program: &str)
        ensures
            string_views(final(urls)@) == without_text(string_views(old(urls)@), program@),
    {
        let mut kept: Vec<String> = Vec::new();
        let mut i: usize = 0;
        assert(string_views(urls@).take(0) == Seq::<Seq<char>>::empty());
        assert(string_views(kept@) == Seq::<Seq<char>>::empty());
        while i < urls.len()
            invariant
                i <= urls.len(),
                string_views(kept@) == without_text(string_views(urls@).take(i as int), program@),
            decreases urls.len() - i,
        {
            proof {
                assert(string_views(urls@).take(i + 1).drop_last() == string_views(urls@).take(
                    i as int,
                ));
                assert(string_views(urls@).take(i + 1).last() == urls@[i as int]@);
            }
            if !text_is(urls[i].as_str(), program) {
                let ghost before = string_views(kept@);
                let seed = urls[i].clone();
                kept.push(seed);
                assert(string_views(kept@) == before.push(urls@[i as int]@));
            }
            i += 1;
        }
        assert(string_views(urls@).take(urls.len() as int) == string_views(urls@));
        *urls = kept;
    }

    /// Where the work of a run comes from.
    pub fn job(has_urls: bool, has_input_file: bool) -> (r: Job)
        ensures
            r == job_of(has_urls, has_input_file),
    {
        if has_urls {
            Job::Seeds
        } else if has_input_file {
            Job::InputFile
        } else {
            Job::InputRecord
        }
    }

    /// What is done with the files of a walk.
    pub fn plan(test: bool, record_only: bool, record: bool) -> (r: Plan)
        ensures
            r == plan_of(test, record_only, record),
    {
        if test {
            Plan { print: true, record: false, download: false }
        } else if record_only {
            Plan { print: false, record: true, download: false }
        } else {
            Plan { print: false, record, download: true }
        }
    }

    /// How a request with this status ended.
    pub fn outcome(status: u16) -> (r: Outcome)
        ensures
            r == outcome_of(status),
    {
        if status >= 500 || status == 408 || status == 429 {
            Outcome::Retryable
        } else if status >= 400 {
            Outcome::Refused
        } else {
            Outcome::Success
        }
    }

    /// What follows a request that did not succeed and was tried `attempts`
    /// times.
    pub fn after_failure(outcome: Outcome, attempts: u32, tries: u32) -> (r: Next)
        ensures
            r == next_of(outcome, attempts, tries),
    {
        match outcome {
            Outcome::Retryable => if attempts < tries {
                Next::Retry
            } else {
                Next::Skip
            },
            _ => Next::Skip,
        }
    }

    /// The wait before a request, in milliseconds. `draw` is a number drawn
    /// at random. A random wait is at least half the wait that is set, and
    /// less than one and a half times that wait.
    pub fn wait_millis(wait: u64, random_wait: bool, draw: u64) -> (r: u64)
        requires
            wait <= u64::MAX / 2,
        ensures
            r == wait_of(wait, random_wait, draw),
            random_wait && wait > 0 ==> wait / 2 <= r < wait / 2 + wait,
            !random_wait ==> r == wait,
    {
        if random_wait && wait > 0 {
            wait / 2 + draw % wait
        } else {
            wait
        }
    }

    /// The first conflict among the options, if there is one.
    pub fn conflict(f: Flags) -> (r: Option<ConfigConflict>)
        ensures
            r == conflict_of(f),
    {
        if f.record && f.record_only {
            Some(ConfigConflict::RecordTwice)
        } else if f.test && (f.record || f.record_only || f.cuts || f.no_dirs || f.output
            || f.output_record || f.no_stats || f.input_record) {
            Some(ConfigConflict::TestWithOutput)
        } else if f.input_record && (f.record || f.record_only || f.cuts || f.no_dirs
            || f.no_stats || f.walk || f.input_file || f.urls) {
            Some(ConfigConflict::RecordWithWalk)
        } else if !f.urls && !f.input_file && !f.input_record {
            Some(ConfigConflict::NoSeeds)
        } else {
            None
        }
    }

    /// The two parts of a text written as `first$second`, each one trimmed:
    /// the name and the password of a proxy.
    pub fn credentials(text: &str) -> (r: Option<(String, String)>)
        ensures
            match r {
                Some((first, second)) => pair_of(text@) == Some((first@, second@)),
                None => pair_of(text@) is None,
            },
    {
        let parts = split_on(&chars_of(text), '$');
        if parts.len() >= 2 {
            let first = trim(string_of(&parts[0]).as_str());
            let second = trim(string_of(&parts[1]).as_str());
            Some((first, second))
        } else {
            None
        }
    }

    /// The name and the value of a header written as `name$value`: each one
    /// trimmed and in lower case.
    pub fn header(text: &str) -> (r: Option<(String, String)>)
        ensures
            match r {
                Some((name, value)) => header_of(text@) == Some((name@, value@)),
                None => header_of(text@) is None,
            },
    {
        match Self::credentials(text) {
            Some((name, value)) => Some(
                (to_lowercase(name.as_str()), to_lowercase(value.as_str())),
            ),
            None => None,
        }
    }

    /// The user agent of the requests: the one that is given, else the name
    /// of the program, a `/` and its version.
    pub fn user_agent(given: &Option<String>, version: &str) -> (r: String)
        ensures
            r@ == match given {
                Some(agent) => agent@,
                None => "Zeiver/"@ + version@,
            },
    {
        match given {
            Some(agent) => agent.clone(),
            None => string_of(&concat(&chars_of("Zeiver/"), &chars_of(version))),
        }
    }

    /// The seeds that an input file holds: its lines that are not empty.
    pub fn seeds(text: &str) -> (r: Vec<String>)
        ensures
            string_views(r@) == lines_of(text@),
    {
        let lines = split_on(&chars_of(text), '\n');
        let mut found: Vec<String> = Vec::new();
        let mut i: usize = 0;
        assert(views(lines@).take(0) == Seq::<Seq<char>>::empty());
        assert(string_views(found@) == Seq::<Seq<char>>::empty());
        while i < lines.len()
            invariant
                i <= lines.len(),
                string_views(found@) == full_lines(views(lines@).take(i as int)),
            decreases lines.len() - i,
        {
            proof {
                assert(views(lines@).take(i + 1).drop_last() == views(lines@).take(i as int));
                assert(views(lines@).take(i + 1).last() == lines@[i as int]@);
            }
            let line = &lines[i];
            let n = line.len();
            let end = if n > 0 && line[n - 1] == '\r' {
                n - 1
            } else {
                n
            };
            let bare = crate::text::slice(line, 0, end);
            assert(bare@ == bare_line(line@));
            if bare.len() > 0 {
                let ghost before = string_views(found@);
                let seed = string_of(&bare);
                found.push(seed);
                assert(string_views(found@) == before.push(bare@));
            }
            i += 1;
        }
        assert(views(lines@).take(lines.len() as int) == views(lines@));
        found
    }

    /// The counts of a list of probes: how many there were, and how many
    /// reached their link.
    pub fn tally(reached: &Vec<bool>) -> (r: Stats)
        ensures
            r.total == reached.len(),
            r.ok == reached_upto(reached@, reached.len() as nat),
            r.ok <= r.total,
    {
        let mut ok: usize = 0;
        let mut i: usize = 0;
        while i < reached.len()
            invariant
                i <= reached.len(),
                ok == reached_upto(reached@, i as nat),
                ok <= i,
            decreases reached.len() - i,
        {
            if reached[i] {
                ok += 1;
            }
            i += 1;
        }
        Stats { total: reached.len(), ok }
    }

    /// The text of a record: one link on each line, and after them, where
    /// counts are given, an empty line and the three counts.
    pub fn record_text(urls: &Vec<String>, stats: Option<Stats>) -> (r: String)
        requires
            stats matches Some(s) ==> s.ok <= s.total,
        ensures
            r@ == record_of(string_views(urls@), stats),
    {
        let newline = chars_of("\n");
        let mut text: Vec<char> = Vec::new();
        let mut i: usize = 0;
        assert(string_views(urls@).take(0) == Seq::<Seq<char>>::empty());
        while i < urls.len()
            invariant
                i <= urls.len(),
                newline@ == "\n"@,
                text@ == record_lines(string_views(urls@).take(i as int)),
            decreases urls.len() - i,
        {
            proof {
                assert(string_views(urls@).take(i + 1).drop_last() == string_views(urls@).take(
                    i as int,
                ));
                assert(string_views(urls@).take(i + 1).last() == urls@[i as int]@);
            }
            text = concat(&concat(&text, &chars_of(urls[i].as_str())), &newline);
            i += 1;
        }
        assert(string_views(urls@).take(urls.len() as int) == string_views(urls@));
        match stats {
            Some(s) => {
                let mut block = concat(&chars_of("\nTotal: "), &decimal(s.total));
                block = concat(&block, &chars_of("\nOK: "));
                block = concat(&block, &decimal(s.ok));
                block = concat(&block, &chars_of("\nFailed: "));
                block = concat(&block, &decimal(s.total - s.ok));
                block = concat(&block, &newline);
                string_of(&concat(&text, &block))
            },
            None => string_of(&text),
        }
    }
}

} // verus!
