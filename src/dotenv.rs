use vstd::prelude::*;

use crate::line::{is_blank_or_comment, is_first_eq, line_entry, parse_line};
use crate::text::{to_upper, upper_of};
use crate::vars::{parse_var, unquoted};

verus! {

/// The mapping that a list of entries stands for; a later entry wins over an
/// earlier one with the same key.
pub open spec fn map_of(s: Seq<(String, String)>) -> Map<Seq<char>, Seq<char>>
    decreases s.len(),
{
    if s.len() == 0 {
        Map::empty()
    } else {
        map_of(s.drop_last()).insert(s.last().0@, s.last().1@)
    }
}

/// No two entries of `s` have the same key.
pub open spec fn keys_distinct(s: Seq<(String, String)>) -> bool {
    forall|i: int, j: int| 0 <= i < j < s.len() ==> s[i].0@ != s[j].0@
}

/// Whether `k` is the upper-case form of some string.
pub open spec fn is_upper_key(k: Seq<char>) -> bool {
    exists|s: Seq<char>| upper_of(s) == k
}

/// The mapping that the lines of a file give, read in order: each line that
/// holds an entry sets its upper-cased key to its value.
pub open spec fn lines_map(lines: Seq<String>) -> Map<Seq<char>, Seq<char>>
    decreases lines.len(),
{
    if lines.len() == 0 {
        Map::empty()
    } else {
        let m = lines_map(lines.drop_last());
        match line_entry(lines.last()@) {
            Some(kv) => m.insert(upper_of(kv.0), kv.1),
            None => m,
        }
    }
}

proof fn lemma_map_of_dom(s: Seq<(String, String)>, k: Seq<char>)
    ensures
        map_of(s).contains_key(k) <==> exists|i: int| 0 <= i < s.len() && s[i].0@ == k,
    decreases s.len(),
{
    if s.len() > 0 {
        lemma_map_of_dom(s.drop_last(), k);
        if map_of(s).contains_key(k) && k != s.last().0@ {
            let i = choose|i: int| 0 <= i < s.len() - 1 && s.drop_last()[i].0@ == k;
            assert(s[i].0@ == k);
        }
        if exists|i: int| 0 <= i < s.len() && s[i].0@ == k {
            let i = choose|i: int| 0 <= i < s.len() && s[i].0@ == k;
            if i < s.len() - 1 {
                assert(s.drop_last()[i].0@ == k);
            }
        }
    }
}

proof fn lemma_map_of_index(s: Seq<(String, String)>, i: int)
    requires
        keys_distinct(s),
        0 <= i < s.len(),
    ensures
        map_of(s).contains_key(s[i].0@),
        map_of(s)[s[i].0@] == s[i].1@,
    decreases s.len(),
{
    if i < s.len() - 1 {
        assert(s.drop_last()[i] == s[i]);
        lemma_map_of_index(s.drop_last(), i);
    }
}

proof fn lemma_map_of_update(s: Seq<(String, String)>, i: int, kv: (String, String))
    requires
        keys_distinct(s),
        0 <= i < s.len(),
        s[i].0@ == kv.0@,
    ensures
        map_of(s.update(i, kv)) == map_of(s).insert(kv.0@, kv.1@),
    decreases s.len(),
{
    let t = s.update(i, kv);
    if i == s.len() - 1 {
        assert(t.drop_last() =~= s.drop_last());
        lemma_map_of_dom(s.drop_last(), kv.0@);
        assert(map_of(t) =~= map_of(s).insert(kv.0@, kv.1@));
    } else {
        assert(t.drop_last() =~= s.drop_last().update(i, kv));
        lemma_map_of_update(s.drop_last(), i, kv);
        assert(map_of(t) =~= map_of(s).insert(kv.0@, kv.1@));
    }
}

proof fn lemma_map_of_same_views(s: Seq<(String, String)>, t: Seq<(String, String)>)
    requires
        s.len() == t.len(),
        forall|j: int| 0 <= j < s.len() ==> s[j].0@ == t[j].0@ && s[j].1@ == t[j].1@,
    ensures
        map_of(s) == map_of(t),
    decreases s.len(),
{
    if s.len() > 0 {
        lemma_map_of_same_views(s.drop_last(), t.drop_last());
    }
}

/// A store of configuration variables, keyed case-insensitively.
///
/// Keys are held in upper case; lookups upper-case the key they are given.
#[derive(Debug)]
pub struct DotEnv {
    vars: Vec<(String, String)>,
}

impl View for DotEnv {
    type V = Map<Seq<char>, Seq<char>>;

    closed spec fn view(&self) -> Map<Seq<char>, Seq<char>> {
        map_of(self.vars@)
    }
}

impl Clone for DotEnv {
    fn clone(&self) -> (r: DotEnv)
        ensures
            r@ == self@,
    {
        proof {
            use_type_invariant(self);
        }
        let mut vars: Vec<(String, String)> = Vec::new();
        let mut i: usize = 0;
        while i < self.vars.len()
            invariant
                i <= self.vars@.len(),
                vars@.len() == i,
                forall|j: int| 0 <= j < i ==> vars@[j].0@ == self.vars@[j].0@ && vars@[j].1@ == self.vars@[j].1@,
            decreases self.vars@.len() - i,
        {
            vars.push((self.vars[i].0.clone(), self.vars[i].1.clone()));
            i = i + 1;
        }
        proof {
            lemma_map_of_same_views(vars@, self.vars@);
        }
        DotEnv { vars }
    }
}

impl DotEnv {
    /// No key is held twice, and every key is in upper case.
    #[verifier::type_invariant]
    closed spec fn inv(&self) -> bool {
        &&& keys_distinct(self.vars@)
        &&& forall|i: int| 0 <= i < self.vars@.len() ==> is_upper_key(#[trigger] self.vars@[i].0@)
    }

    /// The position of the entry with key `key`, if there is one.
    fn position(&self, key: &String) -> (r: Option<usize>)
        ensures
            match r {
                Some(i) => i < self.vars@.len() && self.vars@[i as int].0@ == key@,
                None => forall|i: int| 0 <= i < self.vars@.len() ==> self.vars@[i].0@ != key@,
            },
    {
        let mut i: usize = 0;
        while i < self.vars.len()
            invariant
                i <= self.vars@.len(),
                forall|j: int| 0 <= j < i ==> self.vars@[j].0@ != key@,
            decreases self.vars@.len() - i,
        {
            if self.vars[i].0 == *key {
                return Some(i);
            }
            i = i + 1;
        }
        None
    }

    /// Sets `key` to `value`, in place of any value that `key` had.
    fn put(&mut self, key: String, value: String)
        requires
            is_upper_key(key@),
        ensures
            final(self)@ == old(self)@.insert(key@, value@),
    {
        proof {
            use_type_invariant(&*self);
        }
        let pos = self.position(&key);
        let mut vars: Vec<(String, String)> = Vec::new();
        std::mem::swap(&mut self.vars, &mut vars);
        let ghost before = vars@;
        match pos {
            Some(i) => {
                proof {
                    lemma_map_of_update(before, i as int, (key, value));
                }
                vars.set(i, (key, value));
            },
            None => {
                vars.push((key, value));
                assert(vars@.drop_last() =~= before);
            },
        }
        self.vars = vars;
    }

    /// A store that holds the entries of the given lines of a file, read in
    /// order. Keys are upper-cased as they are loaded, so a later line wins
    /// over an earlier one whose key differs from its own in case alone.
    pub fn from_lines(lines: &Vec<String>) -> (r: DotEnv)
        ensures
            r@ == lines_map(lines@),
    {
        let mut env = DotEnv { vars: Vec::new() };
        assert(env@ =~= Map::empty());
        let mut i: usize = 0;
        while i < lines.len()
            invariant
                i <= lines@.len(),
                env@ == lines_map(lines@.subrange(0, i as int)),
            decreases lines@.len() - i,
        {
            assert(lines@.subrange(0, i + 1).drop_last() =~= lines@.subrange(0, i as int));
            let entry = parse_line(lines[i].as_str());
            match entry {
                Some(kv) => {
                    let key = to_upper(kv.0.as_str());
                    assert(upper_of(kv.0@) == key@);
                    env.put(key, kv.1);
                },
                None => {},
            }
            i = i + 1;
        }
        assert(lines@.subrange(0, lines@.len() as int) =~= lines@);
        env
    }

    /// The value of the variable `k`, of any case.
    pub fn get_var(&self, k: String) -> (r: Option<String>)
        ensures
            match r {
                Some(v) => self@.contains_key(upper_of(k@)) && v@ == self@[upper_of(k@)],
                None => !self@.contains_key(upper_of(k@)),
            },
    {
        proof {
            use_type_invariant(self);
        }
        let key = to_upper(k.as_str());
        proof {
            lemma_map_of_dom(self.vars@, key@);
        }
        match self.position(&key) {
            Some(i) => {
                proof {
                    lemma_map_of_index(self.vars@, i as int);
                }
                Some(self.vars[i].1.clone())
            },
            None => None,
        }
    }

    /// Whether the variable `k`, of any case, is set.
    pub fn has_var(&self, k: String) -> (r: bool)
        ensures
            r == self@.contains_key(upper_of(k@)),
    {
        let key = to_upper(k.as_str());
        proof {
            lemma_map_of_dom(self.vars@, key@);
        }
        self.position(&key).is_some()
    }

    /// All the variables, each key once, in upper case.
    pub fn all_vars(&self) -> (r: &Vec<(String, String)>)
        ensures
            map_of(r@) == self@,
            keys_distinct(r@),
            forall|i: int| 0 <= i < r@.len() ==> is_upper_key(#[trigger] r@[i].0@),
    {
        proof {
            use_type_invariant(self);
        }
        &self.vars
    }

    /// Sets the variable `k`, of any case, to `v` unquoted, unless it is set
    /// already. Returns whether it was set.
    pub fn set_var(&mut self, k: String, v: String) -> (r: bool)
        ensures
            r == !old(self)@.contains_key(upper_of(k@)),
            r ==> final(self)@ == old(self)@.insert(upper_of(k@), unquoted(v@)),
            !r ==> final(self)@ == old(self)@,
    {
        let key_upper = to_upper(k.as_str());
        proof {
            lemma_map_of_dom(self.vars@, key_upper@);
        }
        if self.position(&key_upper).is_some() {
            false
        } else {
            assert(upper_of(k@) == key_upper@);
            self.put(key_upper, parse_var(v));
            true
        }
    }
}


/// The first write wins: once a variable that was not set is set to `v`, it
/// reads as `v` unquoted under any key with the same upper-case form, and it
/// counts as set, so a later setting of it changes nothing.
pub proof fn lemma_first_write_wins(
    m: Map<Seq<char>, Seq<char>>,
    k: Seq<char>,
    other: Seq<char>,
    v: Seq<char>,
)
    requires
        !m.contains_key(upper_of(k)),
        upper_of(other) == upper_of(k),
    ensures
        ({
            let m1 = m.insert(upper_of(k), unquoted(v));
            &&& m1.contains_key(upper_of(other))
            &&& m1[upper_of(other)] == unquoted(v)
            &&& m1.contains_key(upper_of(k))
        }),
{
}

/// A line that is empty, starts with `#` or holds no `=` adds no entry to the
/// mapping of the lines before it.
pub proof fn lemma_skipped_line(lines: Seq<String>, l: String)
    requires
        is_blank_or_comment(l@) || !l@.contains('='),
    ensures
        line_entry(l@) is None,
        lines_map(lines.push(l)) == lines_map(lines),
{
    assert(lines.push(l).drop_last() =~= lines);
    if !is_blank_or_comment(l@) && exists|i: int| is_first_eq(l@, i) {
        let i = choose|i: int| is_first_eq(l@, i);
        assert(l@.contains('='));
    }
}

} // verus!
