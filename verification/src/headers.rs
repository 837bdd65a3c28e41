//! Header maps: the `Name: value` lines of a message, gathered into a map in
//! which a later line with the same name replaces an earlier one.

use vstd::prelude::*;
use crate::text::{chars_of, string_from_chars, texts};

verus! {

/// The entries of a header map, taken by their views.
pub open spec fn pair_texts(v: Seq<(String, String)>) -> Seq<(Seq<char>, Seq<char>)> {
    v.map_values(|p: (String, String)| (p.0@, p.1@))
}

/// The map that inserting the pairs of `s` in order builds.
pub open spec fn map_of(s: Seq<(Seq<char>, Seq<char>)>) -> Map<Seq<char>, Seq<char>>
    decreases s.len(),
{
    if s.len() == 0 {
        Map::empty()
    } else {
        map_of(s.drop_last()).insert(s.last().0, s.last().1)
    }
}

/// No name occurs twice among the pairs of `s`.
pub open spec fn names_unique(s: Seq<(Seq<char>, Seq<char>)>) -> bool {
    forall|i: int, j: int| 0 <= i < j < s.len() ==> #[trigger] s[i].0 != #[trigger] s[j].0
}

/// A map from header names to header values. Each name occurs once; where a
/// name is inserted again, its value is replaced where it stands, so the
/// entries keep the order in which the names first came.
pub struct HeaderMap {
    entries: Vec<(String, String)>,
}

impl View for HeaderMap {
    type V = Map<Seq<char>, Seq<char>>;

    closed spec fn view(&self) -> Map<Seq<char>, Seq<char>> {
        map_of(pair_texts(self.entries@))
    }
}

proof fn lemma_map_of_update(s: Seq<(Seq<char>, Seq<char>)>, i: int, v: Seq<char>)
    requires
        names_unique(s),
        0 <= i < s.len(),
    ensures
        map_of(s.update(i, (s[i].0, v))) == map_of(s).insert(s[i].0, v),
    decreases s.len(),
{
    let t = s.update(i, (s[i].0, v));
    if i == s.len() - 1 {
        assert(t.drop_last() =~= s.drop_last());
        assert(map_of(t) =~= map_of(s).insert(s[i].0, v));
    } else {
        let d = s.drop_last();
        assert(t.drop_last() =~= d.update(i, (d[i].0, v)));
        lemma_names_unique_drop_last(s);
        lemma_map_of_update(d, i, v);
        assert(s[i].0 != s.last().0);
        assert(map_of(t) =~= map_of(s).insert(s[i].0, v));
    }
}

proof fn lemma_map_of_absent(s: Seq<(Seq<char>, Seq<char>)>, k: Seq<char>)
    requires
        forall|j: int| 0 <= j < s.len() ==> #[trigger] s[j].0 != k,
    ensures
        !map_of(s).dom().contains(k),
    decreases s.len(),
{
    if s.len() > 0 {
        let d = s.drop_last();
        assert forall|j: int| 0 <= j < d.len() implies #[trigger] d[j].0 != k by {
            assert(d[j] == s[j]);
        }
        lemma_map_of_absent(d, k);
    }
}

proof fn lemma_map_of_present(s: Seq<(Seq<char>, Seq<char>)>, j: int)
    requires
        names_unique(s),
        0 <= j < s.len(),
    ensures
        map_of(s).dom().contains(s[j].0),
        map_of(s)[s[j].0] == s[j].1,
    decreases s.len(),
{
    if j < s.len() - 1 {
        let d = s.drop_last();
        lemma_names_unique_drop_last(s);
        assert(d[j] == s[j]);
        lemma_map_of_present(d, j);
    }
}

/// Dropping the last pair keeps the names unique.
proof fn lemma_names_unique_drop_last(s: Seq<(Seq<char>, Seq<char>)>)
    requires
        names_unique(s),
        s.len() > 0,
    ensures
        names_unique(s.drop_last()),
{
    let d = s.drop_last();
    assert forall|a: int, b: int| 0 <= a < b < d.len() implies #[trigger] d[a].0 != #[trigger] d[b].0 by {
        assert(d[a] == s[a] && d[b] == s[b]);
    }
}

/// The entries of a header map are their views, pair by pair.
proof fn lemma_pair_texts_update(v: Seq<(String, String)>, i: int, p: (String, String))
    requires
        0 <= i < v.len(),
    ensures
        pair_texts(v.update(i, p)) == pair_texts(v).update(i, (p.0@, p.1@)),
{
    assert(pair_texts(v.update(i, p)) =~= pair_texts(v).update(i, (p.0@, p.1@)));
}

impl HeaderMap {
    /// No name occurs twice among the entries.
    #[verifier::type_invariant]
    spec fn names_once(&self) -> bool {
        names_unique(pair_texts(self.entries@))
    }

    /// The entries as (name, value) pairs, each name once, in the order in which
    /// the names were first inserted.
    pub closed spec fn pairs(&self) -> Seq<(Seq<char>, Seq<char>)> {
        pair_texts(self.entries@)
    }

    /// The empty map.
    pub fn new() -> (m: HeaderMap)
        ensures
            m@ == Map::<Seq<char>, Seq<char>>::empty(),
            m.pairs().len() == 0,
    {
        let entries: Vec<(String, String)> = Vec::new();
        assert(pair_texts(entries@) =~= Seq::<(Seq<char>, Seq<char>)>::empty());
        HeaderMap { entries }
    }

    /// Maps `name` to `value`, replacing the value that `name` had.
    pub fn insert(&mut self, name: String, value: String)
        ensures
            final(self)@ == old(self)@.insert(name@, value@),
            !old(self)@.dom().contains(name@) ==> final(self).pairs() == old(self).pairs().push(
                (name@, value@),
            ),
            old(self)@.dom().contains(name@) ==> {
                &&& final(self).pairs().len() == old(self).pairs().len()
                &&& forall|j: int|
                    0 <= j < old(self).pairs().len() ==> (#[trigger] final(self).pairs()[j]).0
                        == old(self).pairs()[j].0
            },
    {
        proof {
            use_type_invariant(&*self);
        }
        let mut entries: Vec<(String, String)> = Vec::new();
        assert(pair_texts(entries@) =~= Seq::<(Seq<char>, Seq<char>)>::empty());
        std::mem::swap(&mut entries, &mut self.entries);
        let n = entries.len();
        let mut i: usize = 0;
        while i < n
            invariant
                n == entries.len(),
                i <= n,
                entries@ == old(self).entries@,
                names_unique(pair_texts(entries@)),
                forall|j: int| 0 <= j < i ==> (#[trigger] entries@[j]).0@ != name@,
            decreases n - i,
        {
            if entries[i].0 == name {
                let ghost s = pair_texts(entries@);
                let ghost before = entries@;
                proof {
                    lemma_map_of_update(s, i as int, value@);
                    lemma_map_of_present(s, i as int);
                }
                let pair = (name, value);
                proof {
                    lemma_pair_texts_update(before, i as int, pair);
                    assert(s.update(i as int, (pair.0@, pair.1@)) == s.update(
                        i as int,
                        (s[i as int].0, value@),
                    ));
                    let t = s.update(i as int, (s[i as int].0, value@));
                    assert forall|a: int, b: int| 0 <= a < b < t.len() implies #[trigger] t[a].0
                        != #[trigger] t[b].0 by {
                        assert(t[a].0 == s[a].0 && t[b].0 == s[b].0);
                    }
                }
                entries.set(i, pair);
                self.entries = entries;
                return;
            }
            i += 1;
        }
        let ghost s = pair_texts(entries@);
        proof {
            assert forall|j: int| 0 <= j < s.len() implies #[trigger] s[j].0 != name@ by {
                assert(s[j].0 == entries@[j].0@);
            }
            lemma_map_of_absent(s, name@);
        }
        entries.push((name, value));
        assert(pair_texts(entries@) =~= s.push((name@, value@)));
        assert(pair_texts(entries@).drop_last() =~= s);
        assert(names_unique(pair_texts(entries@))) by {
            assert forall|a: int, b: int|
                0 <= a < b < pair_texts(entries@).len() implies #[trigger] pair_texts(
                entries@,
            )[a].0 != #[trigger] pair_texts(entries@)[b].0 by {
                if b == n {
                    assert(entries@[a] == old(self).entries@[a]);
                }
            }
        }
        self.entries = entries;
    }

    /// The value of `name`, where it has one.
    pub fn get(&self, name: &str) -> (r: Option<&String>)
        ensures
            match r {
                Some(v) => self@.dom().contains(name@) && self@[name@] == v@,
                None => !self@.dom().contains(name@),
            },
    {
        proof {
            use_type_invariant(self);
        }
        let key = name.to_string();
        let n = self.entries.len();
        let mut i: usize = 0;
        while i < n
            invariant
                n == self.entries.len(),
                i <= n,
                key@ == name@,
                names_unique(pair_texts(self.entries@)),
                forall|j: int| 0 <= j < i ==> (#[trigger] self.entries@[j]).0@ != name@,
            decreases n - i,
        {
            if self.entries[i].0 == key {
                proof {
                    lemma_map_of_present(pair_texts(self.entries@), i as int);
                }
                return Some(&self.entries[i].1);
            }
            i += 1;
        }
        proof {
            let s = pair_texts(self.entries@);
            assert forall|j: int| 0 <= j < s.len() implies #[trigger] s[j].0 != name@ by {
                assert(s[j].0 == self.entries@[j].0@);
            }
            lemma_map_of_absent(s, name@);
        }
        None
    }

    /// The number of names in the map.
    pub fn len(&self) -> (n: usize)
        ensures
            n == self@.len(),
            n == self.pairs().len(),
    {
        proof {
            use_type_invariant(self);
            lemma_map_len(pair_texts(self.entries@));
        }
        self.entries.len()
    }

    /// A copy of the map, with its entries in the same order.
    pub fn duplicate(&self) -> (c: HeaderMap)
        ensures
            c.pairs() == self.pairs(),
            c@ == self@,
    {
        proof {
            use_type_invariant(self);
        }
        let n = self.entries.len();
        let mut entries: Vec<(String, String)> = Vec::new();
        let mut i: usize = 0;
        while i < n
            invariant
                n == self.entries.len(),
                i <= n,
                pair_texts(entries@) == pair_texts(self.entries@).take(i as int),
            decreases n - i,
        {
            let ghost before = entries@;
            entries.push((self.entries[i].0.clone(), self.entries[i].1.clone()));
            assert(pair_texts(entries@) =~= pair_texts(before).push(
                pair_texts(self.entries@)[i as int],
            ));
            assert(pair_texts(self.entries@).take(i + 1) =~= pair_texts(self.entries@).take(
                i as int,
            ).push(pair_texts(self.entries@)[i as int]));
            i += 1;
        }
        assert(pair_texts(self.entries@).take(n as int) =~= pair_texts(self.entries@));
        HeaderMap { entries }
    }

    /// The entries, each name once, in the order in which the names were first
    /// inserted.
    pub fn entries(&self) -> (e: &Vec<(String, String)>)
        ensures
            pair_texts(e@) == self.pairs(),
            names_unique(pair_texts(e@)),
    {
        proof {
            use_type_invariant(self);
        }
        &self.entries
    }
}

proof fn lemma_map_len(s: Seq<(Seq<char>, Seq<char>)>)
    requires
        names_unique(s),
    ensures
        map_of(s).dom().finite(),
        map_of(s).len() == s.len(),
    decreases s.len(),
{
    if s.len() > 0 {
        let d = s.drop_last();
        lemma_names_unique_drop_last(s);
        lemma_map_len(d);
        assert forall|j: int| 0 <= j < d.len() implies #[trigger] d[j].0 != s.last().0 by {
            assert(d[j] == s[j]);
        }
        lemma_map_of_absent(d, s.last().0);
    }
}

/// A header map is the map that inserting its entries in order builds.
pub proof fn lemma_view_is_pairs(m: HeaderMap)
    ensures
        m@ == map_of(m.pairs()),
{
}

/// Index of the first `": "` in `l`, or `l.len()` where there is none.
pub open spec fn separator_index(l: Seq<char>) -> nat
    decreases l.len(),
{
    if l.len() < 2 {
        l.len()
    } else if l[0] == ':' && l[1] == ' ' {
        0
    } else {
        1 + separator_index(l.drop_first())
    }
}

/// Whether `l` holds `": "` at index `j`.
pub open spec fn separator_at(l: Seq<char>, j: int) -> bool {
    0 <= j && j + 1 < l.len() && l[j] == ':' && l[j + 1] == ' '
}

/// The name and value of the header line `l`: what stands before its first
/// `": "` and what follows it. `None` where `l` holds no `": "`.
pub open spec fn header_pair(l: Seq<char>) -> Option<(Seq<char>, Seq<char>)> {
    let i = separator_index(l);
    if i < l.len() {
        Some((l.take(i as int), l.skip(i + 2 as int)))
    } else {
        None
    }
}

/// The header map that the lines `lines` give: each line with a `": "` is
/// inserted in order, so a later name replaces an earlier one; the other lines
/// are left out.
pub open spec fn header_map_of(lines: Seq<Seq<char>>) -> Map<Seq<char>, Seq<char>>
    decreases lines.len(),
{
    if lines.len() == 0 {
        Map::empty()
    } else {
        let m = header_map_of(lines.drop_last());
        match header_pair(lines.last()) {
            Some(p) => m.insert(p.0, p.1),
            None => m,
        }
    }
}

proof fn lemma_separator_index(l: Seq<char>)
    ensures
        separator_index(l) <= l.len(),
        separator_index(l) < l.len() ==> separator_at(l, separator_index(l) as int),
        forall|j: int| 0 <= j < separator_index(l) ==> !#[trigger] separator_at(l, j),
    decreases l.len(),
{
    if l.len() >= 2 && !(l[0] == ':' && l[1] == ' ') {
        let d = l.drop_first();
        lemma_separator_index(d);
        assert forall|j: int| 0 <= j < separator_index(l) implies !#[trigger] separator_at(l, j) by {
            if j > 0 {
                assert(separator_at(l, j) == separator_at(d, j - 1));
            }
        }
        if separator_index(l) < l.len() {
            assert(separator_at(d, separator_index(d) as int));
        }
    }
}

/// Splits the header line `line` at its first `": "`.
pub fn split_header(line: &str) -> (r: Option<(String, String)>)
    ensures
        match r {
            Some(p) => header_pair(line@) == Some((p.0@, p.1@)),
            None => header_pair(line@) is None,
        },
{
    let cs = chars_of(line);
    let n = cs.len();
    let mut j: usize = 0;
    proof {
        lemma_separator_index(cs@);
    }
    while j < n && j + 1 < n
        invariant
            n == cs.len(),
            cs@ == line@,
            j <= n,
            forall|a: int| 0 <= a < j ==> !#[trigger] separator_at(cs@, a),
        decreases n - j,
    {
        if cs[j] == ':' && cs[j + 1] == ' ' {
            proof {
                lemma_separator_index(cs@);
                if separator_index(cs@) < j {
                    assert(separator_at(cs@, separator_index(cs@) as int));
                }
                if separator_index(cs@) > j {
                    assert(!separator_at(cs@, j as int));
                }
            }
            let name = string_from_chars(&cs, 0, j);
            let value = string_from_chars(&cs, j + 2, n);
            assert(name@ == cs@.take(j as int));
            assert(value@ == cs@.skip(j + 2));
            return Some((name, value));
        }
        j += 1;
    }
    proof {
        lemma_separator_index(cs@);
        if separator_index(cs@) < cs@.len() {
            assert(separator_at(cs@, separator_index(cs@) as int));
        }
    }
    None
}

/// The header map of the header lines `lines`.
pub fn parse_headers(lines: &Vec<String>) -> (m: HeaderMap)
    ensures
        m@ == header_map_of(texts(lines@)),
{
    let mut m = HeaderMap::new();
    let n = lines.len();
    let mut i: usize = 0;
    while i < n
        invariant
            n == lines.len(),
            i <= n,
            m@ == header_map_of(texts(lines@).take(i as int)),
        decreases n - i,
    {
        let ghost ls = texts(lines@);
        assert(ls.take(i + 1).drop_last() =~= ls.take(i as int));
        assert(ls.take(i + 1).last() == lines@[i as int]@);
        match split_header(lines[i].as_str()) {
            Some((name, value)) => {
                m.insert(name, value);
            },
            None => {},
        }
        i += 1;
    }
    assert(texts(lines@).take(n as int) =~= texts(lines@));
    m
}

/// A header line is cut at its first `": "`: its name holds no `": "`, and the
/// name, `": "` and the value make the line again. A line without `": "` gives
/// no header.
pub proof fn lemma_header_pair_rejoin(l: Seq<char>)
    ensures
        match header_pair(l) {
            Some(p) => {
                &&& p.0 + seq![':', ' '] + p.1 == l
                &&& forall|j: int| 0 <= j < p.0.len() ==> !#[trigger] separator_at(l, j)
            },
            None => forall|j: int| !#[trigger] separator_at(l, j),
        },
{
    lemma_separator_index(l);
    let i = separator_index(l);
    if i < l.len() {
        let p = header_pair(l).unwrap();
        assert(p.0 + seq![':', ' '] + p.1 =~= l);
    } else {
        assert forall|j: int| !#[trigger] separator_at(l, j) by {
            if separator_at(l, j) {
                assert(j < i);
            }
        }
    }
}

/// Of the header lines that name the same header, the last one gives its value:
/// a later line replaces what an earlier one set, and a line without `": "`
/// leaves the map as it was.
pub proof fn lemma_header_map_last_wins(lines: Seq<Seq<char>>, line: Seq<char>)
    ensures
        match header_pair(line) {
            Some(p) => {
                &&& header_map_of(lines.push(line)).dom().contains(p.0)
                &&& header_map_of(lines.push(line))[p.0] == p.1
                &&& forall|k: Seq<char>| k != p.0 ==> #[trigger] header_map_of(lines.push(line)).dom().contains(k)
                    == header_map_of(lines).dom().contains(k)
            },
            None => header_map_of(lines.push(line)) == header_map_of(lines),
        },
{
    assert(lines.push(line).drop_last() =~= lines);
}

/// What a header map gives back for a name is the value last inserted for it,
/// and inserting one name leaves the others as they were.
pub proof fn lemma_insert_then_lookup(m: HeaderMap, name: Seq<char>, value: Seq<char>, other: Seq<char>)
    ensures
        m@.insert(name, value).dom().contains(name),
        m@.insert(name, value)[name] == value,
        other != name ==> m@.insert(name, value).dom().contains(other) == m@.dom().contains(other),
        other != name && m@.dom().contains(other) ==> m@.insert(name, value)[other] == m@[other],
{
}

} // verus!
