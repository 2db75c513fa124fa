//! Splitting a string slice at each occurrence of a delimiter, without
//! copying: every piece borrows from the haystack.
use vstd::prelude::*;
use vstd::string::*;
use vstd::utf8::*;

verus! {

broadcast use group_utf8_lib;

/// The first index at or after `i` where `pat` occurs in `s`.
pub open spec fn first_match_from(s: Seq<u8>, pat: Seq<u8>, i: int) -> Option<int>
    decreases s.len() + 1 - i,
    when 0 <= i
{
    if i + pat.len() > s.len() {
        None
    } else if s.subrange(i, i + pat.len()) == pat {
        Some(i)
    } else {
        first_match_from(s, pat, i + 1)
    }
}

/// The first index where `pat` occurs in `s`, if any.
pub open spec fn first_match(s: Seq<u8>, pat: Seq<u8>) -> Option<int> {
    first_match_from(s, pat, 0)
}

/// The pieces of `s` between the occurrences of a non-empty `pat`, taken
/// from the left: the last piece is what follows the last occurrence.
pub open spec fn split_pieces(s: Seq<u8>, pat: Seq<u8>) -> Seq<Seq<u8>>
    decreases s.len(),
{
    match first_match(s, pat) {
        Some(k) => {
            if pat.len() == 0 || k < 0 || k + pat.len() > s.len() {
                seq![s]
            } else {
                seq![s.subrange(0, k)] + split_pieces(s.subrange(k + pat.len(), s.len() as int), pat)
            }
        },
        None => seq![s],
    }
}

/// The pieces still to come from a splitter whose remainder is `rem`.
pub open spec fn pieces_left(rem: Option<Seq<u8>>, pat: Seq<u8>) -> Seq<Seq<u8>> {
    match rem {
        Some(r) => split_pieces(r, pat),
        None => Seq::empty(),
    }
}

proof fn lemma_first_match_from(s: Seq<u8>, pat: Seq<u8>, i: int)
    requires
        0 <= i,
    ensures
        first_match_from(s, pat, i) matches Some(k) ==> {
            &&& i <= k
            &&& k + pat.len() <= s.len()
            &&& s.subrange(k, k + pat.len()) == pat
        },
    decreases s.len() + 1 - i,
{
    if i + pat.len() <= s.len() && s.subrange(i, i + pat.len()) != pat {
        lemma_first_match_from(s, pat, i + 1);
    }
}

/// Where a delimiter occurs in a string.
pub trait Delimiter {
    /// The bytes the delimiter matches.
    spec fn pattern(&self) -> Seq<u8>;

    /// The byte range of the first occurrence of the delimiter in `s`.
    fn find_next(&self, s: &str) -> (r: Option<(usize, usize)>)
        ensures
            r is None <==> first_match(s.spec_bytes(), self.pattern()) is None,
            r matches Some((start, end)) ==> {
                &&& first_match(s.spec_bytes(), self.pattern()) == Some(start as int)
                &&& end == start + self.pattern().len()
                &&& end <= s.spec_bytes().len()
                &&& is_char_boundary(s.spec_bytes(), start as int)
                &&& is_char_boundary(s.spec_bytes(), end as int)
            },
    ;
}

/// Relies on str::find with a string pattern: the byte index of the first
/// match, if any. A match of one valid UTF-8 string inside another starts
/// and ends on character boundaries.
#[verifier::external_body]
fn find_str(s: &str, pat: &str) -> (r: Option<usize>)
    ensures
        r is None <==> first_match(s.spec_bytes(), pat.spec_bytes()) is None,
        r matches Some(i) ==> {
            &&& first_match(s.spec_bytes(), pat.spec_bytes()) == Some(i as int)
            &&& is_char_boundary(s.spec_bytes(), i as int)
            &&& is_char_boundary(s.spec_bytes(), i + pat.spec_bytes().len())
        },
{
    s.find(pat)
}

/// Relies on char's ToString: the string made of that one character.
#[verifier::external_body]
fn char_to_string(c: char) -> (r: String)
    ensures
        r@ == seq![c],
{
    c.to_string()
}

fn find_occurrence(s: &str, pat: &str) -> (r: Option<(usize, usize)>)
    ensures
        r is None <==> first_match(s.spec_bytes(), pat.spec_bytes()) is None,
        r matches Some((start, end)) ==> {
            &&& first_match(s.spec_bytes(), pat.spec_bytes()) == Some(start as int)
            &&& end == start + pat.spec_bytes().len()
            &&& end <= s.spec_bytes().len()
            &&& is_char_boundary(s.spec_bytes(), start as int)
            &&& is_char_boundary(s.spec_bytes(), end as int)
        },
{
    match find_str(s, pat) {
        None => None,
        Some(start) => {
            let _byte_len = s.as_bytes().len();
            proof {
                lemma_first_match_from(s.spec_bytes(), pat.spec_bytes(), 0);
            }
            Some((start, start + pat.len()))
        },
    }
}

impl<'d> Delimiter for &'d str {
    open spec fn pattern(&self) -> Seq<u8> {
        (*self).spec_bytes()
    }

    fn find_next(&self, s: &str) -> (r: Option<(usize, usize)>) {
        find_occurrence(s, *self)
    }
}

impl Delimiter for char {
    open spec fn pattern(&self) -> Seq<u8> {
        encode_utf8(seq![*self])
    }

    fn find_next(&self, s: &str) -> (r: Option<(usize, usize)>) {
        let d = char_to_string(*self);
        find_occurrence(s, d.as_str())
    }
}

/// Yields the pieces of a haystack between occurrences of a delimiter.
pub struct StrSplit<'a, D> {
    remainder: Option<&'a str>,
    delimiter: D,
}

impl<'a, D: Delimiter> StrSplit<'a, D> {
    /// The bytes not yet split off; `None` once the last piece is out.
    pub closed spec fn remainder(&self) -> Option<Seq<u8>> {
        match self.remainder {
            Some(r) => Some(r.spec_bytes()),
            None => None,
        }
    }

    /// The delimiter.
    pub closed spec fn delimiter(&self) -> D {
        self.delimiter
    }

    /// A splitter over the whole of `haystack`.
    pub fn new(haystack: &'a str, delimiter: D) -> (r: Self)
        ensures
            r.remainder() == Some(haystack.spec_bytes()),
            r.delimiter() == delimiter,
    {
        StrSplit { remainder: Some(haystack), delimiter }
    }

    /// The next piece: what comes before the first occurrence of the
    /// delimiter in the remainder, or the whole remainder when the delimiter
    /// does not occur, after which nothing is left.
    pub fn next(&mut self) -> (r: Option<&'a str>)
        ensures
            final(self).delimiter() == old(self).delimiter(),
            old(self).remainder() is None ==> r is None && final(self).remainder() is None,
            old(self).remainder() matches Some(rem) ==> r is Some && match first_match(
                rem,
                old(self).delimiter().pattern(),
            ) {
                Some(k) => {
                    &&& r->0.spec_bytes() == rem.subrange(0, k)
                    &&& final(self).remainder() == Some(
                        rem.subrange(k + old(self).delimiter().pattern().len(), rem.len() as int),
                    )
                },
                None => {
                    &&& r->0.spec_bytes() == rem
                    &&& final(self).remainder() is None
                },
            },
    {
        match self.remainder {
            None => None,
            Some(rem) => {
                match self.delimiter.find_next(rem) {
                    Some((start, end)) => {
                        let (_, after) = rem.split_at(end);
                        let (found, _) = rem.split_at(start);
                        self.remainder = Some(after);
                        Some(found)
                    },
                    None => {
                        self.remainder = None;
                        Some(rem)
                    },
                }
            },
        }
    }

    /// All the pieces still to come, in order. The delimiter must match at
    /// least one byte, or the pieces would never end.
    pub fn collect(self) -> (r: Vec<&'a str>)
        requires
            self.delimiter().pattern().len() > 0,
        ensures
            r@.map_values(|p: &'a str| p.spec_bytes()) == pieces_left(
                self.remainder(),
                self.delimiter().pattern(),
            ),
    {
        let mut it = self;
        let ghost pat = it.delimiter().pattern();
        let ghost all = pieces_left(it.remainder(), pat);
        let mut out: Vec<&'a str> = Vec::new();
        while it.remainder.is_some()
            invariant
                it.delimiter().pattern() == pat,
                pat.len() > 0,
                out@.map_values(|p: &'a str| p.spec_bytes()) + pieces_left(it.remainder(), pat)
                    == all,
            decreases
                match it.remainder() {
                    Some(r) => r.len() + 1,
                    None => 0,
                },
        {
            let ghost rem = it.remainder()->0;
            let ghost before = out@.map_values(|p: &'a str| p.spec_bytes());
            proof {
                lemma_first_match_from(rem, pat, 0);
            }
            let piece = it.next();
            match piece {
                Some(p) => {
                    out.push(p);
                    proof {
                        assert(out@.map_values(|p: &'a str| p.spec_bytes()) =~= before.push(
                            p.spec_bytes(),
                        ));
                        assert(split_pieces(rem, pat) =~= seq![p.spec_bytes()] + pieces_left(
                            it.remainder(),
                            pat,
                        ));
                        assert(before.push(p.spec_bytes()) + pieces_left(it.remainder(), pat)
                            =~= before + split_pieces(rem, pat));
                    }
                },
                None => {},
            }
        }
        proof {
            assert(out@.map_values(|p: &'a str| p.spec_bytes()) + pieces_left(it.remainder(), pat)
                =~= out@.map_values(|p: &'a str| p.spec_bytes()));
        }
        out
    }
}

/// The part of `s` before the first occurrence of `c`, or all of `s` when
/// `c` does not occur.
pub fn until_next(s: &str, c: char) -> (r: &str)
    ensures
        match first_match(s.spec_bytes(), encode_utf8(seq![c])) {
            Some(k) => r.spec_bytes() == s.spec_bytes().subrange(0, k),
            None => r.spec_bytes() == s.spec_bytes(),
        },
{
    let mut split = StrSplit::new(s, c);
    match split.next() {
        Some(piece) => piece,
        None => s,
    }
}

} // verus!
