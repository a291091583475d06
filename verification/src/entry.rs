//! The values evaluation works on: the filesystem entry as the matchers see
//! it, and the output sink that the print action appends to.
//!
//! An entry carries its path and the verdicts of the externally judged leaf
//! predicates (the name, case-insensitive name and type tests live outside
//! this crate); whoever walks the directory tree constructs one `PathInfo`
//! per entry.  Printing is modelled exactly: the sink records the printed
//! paths in order, and the caller writes them out afterwards.

use vstd::prelude::*;

use crate::model::EntryData;

verus! {

/// Identifies one externally judged predicate: its flag and its argument
/// (for example `-name` and a pattern).
pub struct PredKey {
    flag: String,
    arg: String,
}

impl View for PredKey {
    type V = (Seq<char>, Seq<char>);

    closed spec fn view(&self) -> (Seq<char>, Seq<char>) {
        (self.flag@, self.arg@)
    }
}

impl PredKey {
    pub fn new(flag: String, arg: String) -> (k: PredKey)
        ensures
            k@ == (flag@, arg@),
    {
        PredKey { flag, arg }
    }

    pub fn flag(&self) -> (r: &String)
        ensures
            r@ == self@.0,
    {
        &self.flag
    }

    pub fn arg(&self) -> (r: &String)
        ensures
            r@ == self@.1,
    {
        &self.arg
    }
}

/// One filesystem entry, as evaluation sees it: the path, and the set of
/// externally judged predicates that hold of the entry.
pub struct PathInfo {
    path: String,
    satisfied: Vec<PredKey>,
}

impl View for PathInfo {
    type V = EntryData;

    closed spec fn view(&self) -> EntryData {
        EntryData {
            path: self.path@,
            satisfied: self.satisfied@.map_values(|k: PredKey| k@),
        }
    }
}

impl PathInfo {
    pub fn new(path: String) -> (e: PathInfo)
        ensures
            e@.path == path@,
            e@.satisfied == Seq::<(Seq<char>, Seq<char>)>::empty(),
    {
        let e = PathInfo { path, satisfied: Vec::new() };
        proof {
            assert(e@.satisfied =~= Seq::<(Seq<char>, Seq<char>)>::empty());
        }
        e
    }

    /// Records that the externally judged predicate `key` holds of this entry.
    pub fn mark_satisfied(&mut self, key: PredKey)
        ensures
            final(self)@.path == old(self)@.path,
            final(self)@.satisfied == old(self)@.satisfied.push(key@),
    {
        let ghost k = key@;
        self.satisfied.push(key);
        proof {
            assert(self@.satisfied =~= old(self)@.satisfied.push(k));
        }
    }

    pub fn path(&self) -> (r: &String)
        ensures
            r@ == self@.path,
    {
        &self.path
    }

    /// Whether the predicate with this flag and argument holds of the entry.
    pub fn satisfies(&self, flag: &String, arg: &String) -> (r: bool)
        ensures
            r == self@.satisfied.contains((flag@, arg@)),
    {
        let mut i: usize = 0;
        while i < self.satisfied.len()
            invariant
                0 <= i <= self.satisfied@.len(),
                self@.satisfied.len() == self.satisfied@.len(),
                forall|j: int| 0 <= j < self@.satisfied.len()
                    ==> self@.satisfied[j] == self.satisfied@[j]@,
                forall|j: int| 0 <= j < i ==> self@.satisfied[j] != (flag@, arg@),
            decreases self.satisfied@.len() - i,
        {
            let k = &self.satisfied[i];
            if k.flag == *flag && k.arg == *arg {
                assert(self@.satisfied[i as int] == (flag@, arg@));
                return true;
            }
            i = i + 1;
        }
        false
    }
}

/// What the printed lines amount to as one string: each line followed by a
/// newline character.
pub open spec fn joined(lines: Seq<Seq<char>>) -> Seq<char>
    decreases lines.len(),
{
    if lines.len() == 0 {
        Seq::empty()
    } else {
        joined(lines.drop_last()) + lines.last() + seq!['\n']
    }
}

/// The output sink: the paths printed so far, in order.  Its view is that
/// sequence of lines.
pub struct Output {
    lines: Vec<String>,
}

impl View for Output {
    type V = Seq<Seq<char>>;

    closed spec fn view(&self) -> Seq<Seq<char>> {
        self.lines@.map_values(|s: String| s@)
    }
}

impl Output {
    pub fn new() -> (o: Output)
        ensures
            o@ == Seq::<Seq<char>>::empty(),
    {
        let o = Output { lines: Vec::new() };
        proof {
            assert(o@ =~= Seq::<Seq<char>>::empty());
        }
        o
    }

    /// Appends one printed path.
    pub fn record(&mut self, line: &str)
        ensures
            final(self)@ == old(self)@.push(line@),
    {
        self.lines.push(String::from_str(line));
        proof {
            assert(self@ =~= old(self)@.push(line@));
        }
    }

    pub fn len(&self) -> (n: usize)
        ensures
            n == self@.len(),
    {
        self.lines.len()
    }

    pub fn line(&self, i: usize) -> (r: &String)
        requires
            i < self@.len(),
        ensures
            r@ == self@[i as int],
    {
        &self.lines[i]
    }

    /// All printed lines as one string, each followed by a newline.
    pub fn as_string(&self) -> (r: String)
        ensures
            r@ == joined(self@),
    {
        let mut r = String::new();
        let mut i: usize = 0;
        while i < self.lines.len()
            invariant
                0 <= i <= self.lines@.len(),
                self@.len() == self.lines@.len(),
                forall|j: int| 0 <= j < self@.len() ==> self@[j] == self.lines@[j]@,
                r@ == joined(self@.take(i as int)),
            decreases self.lines@.len() - i,
        {
            r.append(self.lines[i].as_str());
            r.append("\n");
            proof {
                reveal_strlit("\n");
                let pre = self@.take(i as int);
                let now = self@.take(i + 1 as int);
                assert(now.drop_last() =~= pre);
                assert(now.last() == self@[i as int]);
                assert(r@ =~= joined(pre) + self@[i as int] + seq!['\n']);
            }
            i = i + 1;
        }
        proof {
            assert(self@.take(self@.len() as int) =~= self@);
        }
        r
    }
}

} // verus!
