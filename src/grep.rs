//! Searching the lines of a text for a query, with or without regard to
//! letter case, and reading the search's settings from program arguments.
use vstd::prelude::*;

verus! {

/// Whether `pat` occurs in `s` as a contiguous run of characters.
pub open spec fn occurs_in(s: Seq<char>, pat: Seq<char>) -> bool {
    exists|i: int| 0 <= i && i + pat.len() <= s.len() && #[trigger] s.subrange(i, i + pat.len()) == pat
}

/// The lines of `s`, as `str::lines` splits them.
pub uninterp spec fn lines_of(s: Seq<char>) -> Seq<Seq<char>>;

/// The lowercase form of `s`, as `str::to_lowercase` gives it.
pub uninterp spec fn lower_of(s: Seq<char>) -> Seq<char>;

/// The lines among `lines` in which `query` occurs, in order.
pub open spec fn lines_with(lines: Seq<Seq<char>>, query: Seq<char>) -> Seq<Seq<char>>
    decreases lines.len(),
{
    if lines.len() == 0 {
        Seq::empty()
    } else {
        let rest = lines_with(lines.drop_last(), query);
        if occurs_in(lines.last(), query) {
            rest.push(lines.last())
        } else {
            rest
        }
    }
}

/// The lines among `lines` whose lowercase form holds `query_lower`, in order.
pub open spec fn lines_with_folded(lines: Seq<Seq<char>>, query_lower: Seq<char>) -> Seq<Seq<char>>
    decreases lines.len(),
{
    if lines.len() == 0 {
        Seq::empty()
    } else {
        let rest = lines_with_folded(lines.drop_last(), query_lower);
        if occurs_in(lower_of(lines.last()), query_lower) {
            rest.push(lines.last())
        } else {
            rest
        }
    }
}

/// Relies on str::lines: the lines of the text, without their line endings.
#[verifier::external_body]
fn split_lines<'a>(s: &'a str) -> (r: Vec<&'a str>)
    ensures
        r@.map_values(|l: &'a str| l@) == lines_of(s@),
{
    s.lines().collect()
}

/// Relies on str::to_lowercase: the result depends on the characters alone.
#[verifier::external_body]
fn to_lower(s: &str) -> (r: String)
    ensures
        r@ == lower_of(s@),
{
    s.to_lowercase()
}

/// Relies on str::contains with a string pattern: whether the pattern
/// occurs in the text.
#[verifier::external_body]
fn contains_str(s: &str, pat: &str) -> (r: bool)
    ensures
        r == occurs_in(s@, pat@),
{
    s.contains(pat)
}

/// Whether `query` occurs in `line`.
pub fn line_matches(query: &str, line: &str) -> (r: bool)
    ensures
        r == occurs_in(line@, query@),
{
    contains_str(line, query)
}

/// The lines of `contents` that contain `query`, in order.
pub fn search<'a>(query: &str, contents: &'a str) -> (r: Vec<&'a str>)
    ensures
        r@.map_values(|l: &'a str| l@) == lines_with(lines_of(contents@), query@),
{
    let lines = split_lines(contents);
    let ghost all = lines@.map_values(|l: &'a str| l@);
    let mut results: Vec<&'a str> = Vec::new();
    let mut i: usize = 0;
    while i < lines.len()
        invariant
            i <= lines@.len(),
            all == lines@.map_values(|l: &'a str| l@),
            results@.map_values(|l: &'a str| l@) == lines_with(all.subrange(0, i as int), query@),
        decreases lines@.len() - i,
    {
        let line = lines[i];
        let ghost before = results@.map_values(|l: &'a str| l@);
        if line_matches(query, line) {
            results.push(line);
            assert(results@.map_values(|l: &'a str| l@) =~= before.push(line@));
        }
        assert(all.subrange(0, i + 1).drop_last() =~= all.subrange(0, i as int));
        i = i + 1;
    }
    assert(all.subrange(0, lines@.len() as int) =~= all);
    results
}

/// The lines of `contents` whose lowercase form contains the lowercase form
/// of `query`, in order.
pub fn search_case_insensitive<'a>(query: &str, contents: &'a str) -> (r: Vec<&'a str>)
    ensures
        r@.map_values(|l: &'a str| l@) == lines_with_folded(lines_of(contents@), lower_of(query@)),
{
    let query_lower = to_lower(query);
    let lines = split_lines(contents);
    let ghost all = lines@.map_values(|l: &'a str| l@);
    let mut results: Vec<&'a str> = Vec::new();
    let mut i: usize = 0;
    while i < lines.len()
        invariant
            i <= lines@.len(),
            all == lines@.map_values(|l: &'a str| l@),
            query_lower@ == lower_of(query@),
            results@.map_values(|l: &'a str| l@) == lines_with_folded(
                all.subrange(0, i as int),
                query_lower@,
            ),
        decreases lines@.len() - i,
    {
        let line = lines[i];
        let line_lower = to_lower(line);
        let ghost before = results@.map_values(|l: &'a str| l@);
        if line_matches(query_lower.as_str(), line_lower.as_str()) {
            results.push(line);
            assert(results@.map_values(|l: &'a str| l@) =~= before.push(line@));
        }
        assert(all.subrange(0, i + 1).drop_last() =~= all.subrange(0, i as int));
        i = i + 1;
    }
    assert(all.subrange(0, lines@.len() as int) =~= all);
    results
}

/// The settings of one search: what to look for, where, and whether case
/// matters.
pub struct Config {
    pub query: String,
    pub filename: String,
    pub case_sensitive: bool,
}

impl Config {
    /// Reads the query and the file name from `args` (after the program
    /// name). The search is case sensitive unless `case_insensitive` is set.
    pub fn new(args: &[String], case_insensitive: bool) -> (r: Result<Config, &'static str>)
        ensures
            args@.len() < 3 <==> r is Err,
            r matches Ok(c) ==> {
                &&& c.query@ == args@[1]@
                &&& c.filename@ == args@[2]@
                &&& c.case_sensitive == !case_insensitive
            },
    {
        if args.len() < 3 {
            return Err("not enough arguments");
        }
        let query = args[1].clone();
        let filename = args[2].clone();
        Ok(Config { query, filename, case_sensitive: !case_insensitive })
    }
}

} // verus!
