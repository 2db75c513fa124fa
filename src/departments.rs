//! A company directory of employees by department, driven by short text
//! commands: "1" adds an employee ("Add Sally to Engineering"), "2" lists
//! one department, "3" lists every department in alphabetical order.
use vstd::prelude::*;
use vstd::string::*;
use vstd::utf8::*;

use crate::strsplit::{split_pieces, StrSplit};
use crate::text::{trim_of, trim_str};

verus! {

broadcast use group_utf8_lib, vstd::seq_lib::group_to_multiset_ensures;

/// A command of the directory's menu.
#[derive(Debug, Clone, Copy, PartialEq, Eq, Structural)]
pub enum Command {
    /// Add an employee to a department.
    Add,
    /// List the employees of one department.
    List,
    /// List every department with its employees.
    ListAll,
    /// Anything else.
    Invalid,
}

/// The command a line of input names, once trimmed.
pub open spec fn command_of(line: Seq<char>) -> Command {
    let t = trim_of(line);
    if t == "1"@ {
        Command::Add
    } else if t == "2"@ {
        Command::List
    } else if t == "3"@ {
        Command::ListAll
    } else {
        Command::Invalid
    }
}

/// Whether the bytes `a` come no later than `b` in dictionary order.
pub open spec fn bytes_le(a: Seq<u8>, b: Seq<u8>) -> bool
    decreases a.len(),
{
    if a.len() == 0 {
        true
    } else if b.len() == 0 {
        false
    } else if a[0] != b[0] {
        a[0] < b[0]
    } else {
        bytes_le(a.drop_first(), b.drop_first())
    }
}

/// Whether `a` comes no later than `b` in the order of `String`'s `Ord`:
/// dictionary order of the UTF-8 bytes.
pub open spec fn text_le(a: Seq<char>, b: Seq<char>) -> bool {
    bytes_le(encode_utf8(a), encode_utf8(b))
}

/// Relies on slice::sort for `String`: the same strings, in the order of
/// `String`'s `Ord`.
#[verifier::external_body]
fn sort_strings(v: &mut Vec<String>)
    ensures
        final(v)@.to_multiset() == old(v)@.to_multiset(),
        forall|i: int, j: int|
            0 <= i <= j < final(v)@.len() ==> text_le(final(v)@[i]@, final(v)@[j]@),
{
    v.sort();
}

fn same_text(a: &str, b: &str) -> (r: bool)
    ensures
        r == (a@ == b@),
{
    let x = String::from_str(a);
    let y = String::from_str(b);
    x == y
}

/// Reads the command named by a line of input.
pub fn parse_command(line: &str) -> (r: Command)
    ensures
        r == command_of(line@),
{
    let t = trim_str(line);
    if same_text(t, "1") {
        Command::Add
    } else if same_text(t, "2") {
        Command::List
    } else if same_text(t, "3") {
        Command::ListAll
    } else {
        Command::Invalid
    }
}

proof fn lemma_space_pattern()
    ensures
        encode_utf8(seq![' ']).len() > 0,
{
    reveal_with_fuel(encode_utf8, 2);
}

/// The words of an "Add <employee> to <department>" clause, split at
/// single spaces once the clause is trimmed.
pub open spec fn clause_words(clause: Seq<char>) -> Seq<Seq<u8>> {
    split_pieces(encode_utf8(trim_of(clause)), encode_utf8(seq![' ']))
}

/// Reads "Add <employee> to <department>" (more words may follow): the
/// employee and the department, or `None` when the clause has another form.
pub fn parse_add(clause: &str) -> (r: Option<(&str, &str)>)
    ensures
        r is Some <==> {
            let w = clause_words(clause@);
            &&& w.len() >= 4
            &&& w[0] == encode_utf8("Add"@)
            &&& w[2] == encode_utf8("to"@)
        },
        r matches Some((employee, department)) ==> {
            &&& encode_utf8(employee@) == clause_words(clause@)[1]
            &&& encode_utf8(department@) == clause_words(clause@)[3]
        },
{
    let t = trim_str(clause);
    proof {
        lemma_space_pattern();
    }
    let words = StrSplit::new(t, ' ').collect();
    let ghost w = clause_words(clause@);
    assert(words@.map_values(|p: &str| p.spec_bytes()) == w);
    if words.len() < 4 {
        assert(words@.map_values(|p: &str| p.spec_bytes()).len() == words@.len());
        return None;
    }
    assert(words@[0].spec_bytes() == w[0]);
    assert(words@[1].spec_bytes() == w[1]);
    assert(words@[2].spec_bytes() == w[2]);
    assert(words@[3].spec_bytes() == w[3]);
    let add = same_text(words[0], "Add");
    let to = same_text(words[2], "to");
    proof {
        if add != (w[0] == encode_utf8("Add"@)) {
            assert(decode_utf8(encode_utf8(words@[0]@)) == words@[0]@);
            assert(decode_utf8(encode_utf8("Add"@)) == "Add"@);
        }
        if to != (w[2] == encode_utf8("to"@)) {
            assert(decode_utf8(encode_utf8(words@[2]@)) == words@[2]@);
            assert(decode_utf8(encode_utf8("to"@)) == "to"@);
        }
    }
    if !add || !to {
        return None;
    }
    Some((words[1], words[3]))
}

/// Employees by department, each department once.
pub struct Directory {
    names: Vec<String>,
    staff: Vec<Vec<String>>,
}

/// The text of each string.
pub open spec fn texts(v: Seq<String>) -> Seq<Seq<char>> {
    v.map_values(|s: String| s@)
}

impl Directory {
    spec fn names_v(&self) -> Seq<Seq<char>> {
        texts(self.names@)
    }

    /// The directory's invariant: one list per department, no department
    /// twice.
    pub closed spec fn wf(&self) -> bool {
        &&& self.names@.len() == self.staff@.len()
        &&& self.names_v().no_duplicates()
    }

    /// The employees of each department, in the order they were added.
    pub closed spec fn view(&self) -> Map<Seq<char>, Seq<Seq<char>>> {
        Map::new(
            |k: Seq<char>| self.names_v().contains(k),
            |k: Seq<char>| texts(self.staff@[self.names_v().index_of(k)]@),
        )
    }

    /// How many departments there are.
    pub closed spec fn department_count(&self) -> nat {
        self.names@.len()
    }

    /// An empty directory.
    pub fn new() -> (r: Directory)
        ensures
            r.wf(),
            r.view() == Map::<Seq<char>, Seq<Seq<char>>>::empty(),
            r.department_count() == 0,
    {
        let r = Directory { names: Vec::new(), staff: Vec::new() };
        assert(r.view() =~= Map::<Seq<char>, Seq<Seq<char>>>::empty());
        r
    }

    fn find(&self, department: &str) -> (r: Option<usize>)
        requires
            self.wf(),
        ensures
            r is None <==> !self.names_v().contains(department@),
            r matches Some(i) ==> i < self.names@.len() && self.names_v()[i as int] == department@,
    {
        let key = String::from_str(department);
        let mut i: usize = 0;
        while i < self.names.len()
            invariant
                self.wf(),
                key@ == department@,
                i <= self.names@.len(),
                forall|j: int| 0 <= j < i ==> self.names_v()[j] != department@,
            decreases self.names@.len() - i,
        {
            if self.names[i] == key {
                assert(self.names_v()[i as int] == department@);
                return Some(i);
            }
            i = i + 1;
        }
        None
    }

    /// Adds `employee` at the end of `department`'s list, making the
    /// department if it is new.
    pub fn add(&mut self, department: &str, employee: &str)
        requires
            old(self).wf(),
        ensures
            final(self).wf(),
            final(self).view() == old(self).view().insert(
                department@,
                if old(self).view().contains_key(department@) {
                    old(self).view()[department@].push(employee@)
                } else {
                    seq![employee@]
                },
            ),
            final(self).department_count() == old(self).department_count() + if old(
                self,
            ).view().contains_key(department@) {
                0int
            } else {
                1int
            },
    {
        let ghost old_view = self.view();
        let ghost old_names = self.names_v();
        match self.find(department) {
            Some(i) => {
                let mut list = self.staff[i].clone();
                assert(list@ =~= self.staff@[i as int]@);
                let ghost old_list = list@;
                let e = String::from_str(employee);
                list.push(e);
                self.staff.set(i, list);
                proof {
                    assert(self.names_v() == old_names);
                    assert(old_names.index_of(department@) == i as int);
                    assert(texts(old_list.push(e)) =~= texts(old_list).push(employee@));
                    assert forall|k: Seq<char>| #[trigger] self.names_v().contains(k) && k != department@
                        implies self.names_v().index_of(k) != i as int by {}
                    assert(self.view() =~= old_view.insert(department@, old_view[department@].push(employee@)));
                }
            },
            None => {
                self.names.push(String::from_str(department));
                let mut list: Vec<String> = Vec::new();
                list.push(String::from_str(employee));
                self.staff.push(list);
                proof {
                    assert(self.names_v() =~= old_names.push(department@));
                    assert(self.names_v()[old_names.len() as int] == department@);
                    assert(self.names_v().no_duplicates());
                    assert(self.names_v().index_of(department@) == old_names.len());
                    assert(texts(list@) =~= seq![employee@]);
                    assert forall|k: Seq<char>| #[trigger] old_names.contains(k)
                        implies self.names_v().index_of(k) == old_names.index_of(k)
                            && 0 <= old_names.index_of(k) < old_names.len() by {
                        assert(self.names_v()[old_names.index_of(k)] == k);
                    }
                    assert forall|k: Seq<char>| #[trigger] self.names_v().contains(k)
                        <==> (old_names.contains(k) || k == department@) by {
                        if self.names_v().contains(k) && k != department@ {
                            let j = choose|j: int| 0 <= j < self.names_v().len() && self.names_v()[j] == k;
                            assert(old_names[j] == k);
                        }
                        if old_names.contains(k) {
                            let j = choose|j: int| 0 <= j < old_names.len() && old_names[j] == k;
                            assert(self.names_v()[j] == k);
                        }
                    }
                    assert(self.view() =~= old_view.insert(department@, seq![employee@]));
                }
            },
        }
    }

    /// The employees of `department`, if it exists.
    pub fn employees(&self, department: &str) -> (r: Option<&Vec<String>>)
        requires
            self.wf(),
        ensures
            r is Some <==> self.view().contains_key(department@),
            r matches Some(list) ==> texts(list@) == self.view()[department@],
    {
        match self.find(department) {
            Some(i) => {
                assert(self.names_v().index_of(department@) == i as int);
                Some(&self.staff[i])
            },
            None => None,
        }
    }

    /// Every department, in the order of `String`'s `Ord`.
    pub fn departments_sorted(&self) -> (r: Vec<String>)
        requires
            self.wf(),
        ensures
            forall|k: Seq<char>| texts(r@).contains(k) <==> self.view().contains_key(k),
            r@.len() == self.department_count(),
            forall|i: int, j: int| 0 <= i <= j < r@.len() ==> text_le(r@[i]@, r@[j]@),
    {
        let mut r = self.names.clone();
        assert(r@ =~= self.names@);
        let ghost before = r@;
        sort_strings(&mut r);
        proof {
            before.to_multiset_ensures();
            r@.to_multiset_ensures();
            assert forall|k: Seq<char>| texts(r@).contains(k) <==> self.view().contains_key(k) by {
                if texts(r@).contains(k) {
                    let i = choose|i: int| 0 <= i < texts(r@).len() && texts(r@)[i] == k;
                    assert(r@.to_multiset().count(r@[i]) > 0);
                    assert(self.names@.contains(r@[i]));
                    let j = choose|j: int| 0 <= j < self.names@.len() && self.names@[j] == r@[i];
                    assert(self.names_v()[j] == k);
                }
                if self.view().contains_key(k) {
                    let j = choose|j: int| 0 <= j < self.names_v().len() && self.names_v()[j] == k;
                    assert(self.names@.to_multiset().count(self.names@[j]) > 0);
                    assert(r@.contains(self.names@[j]));
                    let i = choose|i: int| 0 <= i < r@.len() && r@[i] == self.names@[j];
                    assert(texts(r@)[i] == k);
                }
            }
        }
        r
    }
}

} // verus!
