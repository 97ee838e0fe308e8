//! The file table of a bundle: from each path to the content id of the file, ordered by path.
use vstd::prelude::*;
use crate::text::chars_of;

verus! {

broadcast use vstd::string::group_string_axioms;

/// `a` comes before `b` in the order of their code points, which is also that of their bytes.
pub open spec fn precedes(a: Seq<char>, b: Seq<char>) -> bool
    decreases a.len(),
{
    if b.len() == 0 {
        false
    } else if a.len() == 0 {
        true
    } else if a[0] != b[0] {
        a[0] < b[0]
    } else {
        precedes(a.drop_first(), b.drop_first())
    }
}

/// How one text stands to another.
pub enum Standing {
    Before,
    Same,
    Behind,
}

proof fn lemma_precedes_transitive(a: Seq<char>, b: Seq<char>, c: Seq<char>)
    requires
        precedes(a, b),
        precedes(b, c),
    ensures
        precedes(a, c),
    decreases a.len(),
{
    if a.len() > 0 && a[0] == b[0] && b[0] == c[0] {
        lemma_precedes_transitive(a.drop_first(), b.drop_first(), c.drop_first());
    }
}

proof fn lemma_precedes_irreflexive(a: Seq<char>)
    ensures
        !precedes(a, a),
    decreases a.len(),
{
    if a.len() > 0 {
        lemma_precedes_irreflexive(a.drop_first());
    }
}

/// How `a` stands to `b`.
pub fn standing(a: &str, b: &str) -> (r: Standing)
    ensures
        match r {
            Standing::Before => precedes(a@, b@),
            Standing::Same => a@ == b@,
            Standing::Behind => precedes(b@, a@),
        },
{
    let x = chars_of(a);
    let y = chars_of(b);
    let mut i: usize = 0;
    assert(x@.skip(0) == x@ && y@.skip(0) == y@);
    while i < x.len() && i < y.len()
        invariant
            i <= x@.len(),
            i <= y@.len(),
            x@ == a@,
            y@ == b@,
            x@.take(i as int) == y@.take(i as int),
            precedes(x@, y@) == precedes(x@.skip(i as int), y@.skip(i as int)),
            precedes(y@, x@) == precedes(y@.skip(i as int), x@.skip(i as int)),
        decreases x@.len() - i,
    {
        let c = x[i];
        let d = y[i];
        if c < d {
            return Standing::Before;
        }
        if d < c {
            return Standing::Behind;
        }
        assert(x@.skip(i as int).drop_first() == x@.skip(i + 1));
        assert(y@.skip(i as int).drop_first() == y@.skip(i + 1));
        assert(x@.take(i + 1) =~= x@.take(i as int).push(c));
        assert(y@.take(i + 1) =~= y@.take(i as int).push(d));
        i += 1;
    }
    if i < y.len() {
        Standing::Before
    } else if i < x.len() {
        Standing::Behind
    } else {
        assert(x@.take(i as int) == x@ && y@.take(i as int) == y@);
        Standing::Same
    }
}

/// The row `i` is that of `key`.
pub open spec fn row_of(rows: Seq<(Seq<char>, Seq<char>)>, key: Seq<char>, i: int) -> bool {
    0 <= i < rows.len() && rows[i].0 == key
}

/// The mapping that some rows stand for.
pub open spec fn as_map(rows: Seq<(Seq<char>, Seq<char>)>) -> Map<Seq<char>, Seq<char>> {
    Map::new(
        |key: Seq<char>| exists|i: int| row_of(rows, key, i),
        |key: Seq<char>| rows[choose|i: int| row_of(rows, key, i)].1,
    )
}

/// The rows are in order of their keys, and no key is there twice.
pub open spec fn ordered(rows: Seq<(Seq<char>, Seq<char>)>) -> bool {
    forall|i: int, j: int|
        #![trigger rows[i], rows[j]]
        0 <= i < j < rows.len() ==> precedes(rows[i].0, rows[j].0)
}

/// A bundle's files: each path once, with the content id of its file, in the order of the paths.
pub struct FileTable {
    rows: Vec<(String, String)>,
}

impl View for FileTable {
    type V = Map<Seq<char>, Seq<char>>;

    open spec fn view(&self) -> Map<Seq<char>, Seq<char>> {
        as_map(self.rows())
    }
}

/// The texts of some rows.
pub open spec fn row_texts(rows: Seq<(String, String)>) -> Seq<(Seq<char>, Seq<char>)> {
    Seq::new(rows.len(), |i: int| (rows[i].0@, rows[i].1@))
}

pub(crate) proof fn lemma_row_unique(rows: Seq<(Seq<char>, Seq<char>)>, key: Seq<char>, i: int)
    requires
        ordered(rows),
        row_of(rows, key, i),
    ensures
        as_map(rows).dom().contains(key),
        as_map(rows)[key] == rows[i].1,
{
    let k = choose|k: int| row_of(rows, key, k);
    assert(row_of(rows, key, k));
    if k < i || i < k {
        let _ = (rows[i], rows[k]);
        lemma_precedes_irreflexive(key);
    }
}

impl FileTable {
    /// The rows, in order.
    pub closed spec fn rows(&self) -> Seq<(Seq<char>, Seq<char>)> {
        row_texts(self.rows@)
    }

    #[verifier::type_invariant]
    spec fn in_order(&self) -> bool {
        ordered(row_texts(self.rows@))
    }

    /// A table without files.
    pub fn new() -> (r: FileTable)
        ensures
            r.rows() == Seq::<(Seq<char>, Seq<char>)>::empty(),
            r@ == Map::<Seq<char>, Seq<char>>::empty(),
    {
        let r = FileTable { rows: Vec::new() };
        assert(r@ =~= Map::<Seq<char>, Seq<char>>::empty());
        r
    }

    /// The rows, in order.
    pub fn entries(&self) -> (r: &Vec<(String, String)>)
        ensures
            row_texts(r@) == self.rows(),
            ordered(self.rows()),
    {
        proof {
            use_type_invariant(self);
        }
        &self.rows
    }

    /// How many files the table holds.
    pub fn len(&self) -> (r: usize)
        ensures
            r == self.rows().len(),
    {
        self.rows.len()
    }

    /// Whether the table holds no file.
    pub fn is_empty(&self) -> (r: bool)
        ensures
            r == (self@ == Map::<Seq<char>, Seq<char>>::empty()),
    {
        let r = self.rows.len() == 0;
        proof {
            if r {
                assert(self@ =~= Map::<Seq<char>, Seq<char>>::empty());
            } else {
                assert(row_of(self.rows(), self.rows()[0].0, 0));
                assert(self@.dom().contains(self.rows()[0].0));
            }
        }
        r
    }

    /// Where `key` stands, or where it would go.
    fn place(&self, key: &str) -> (r: (usize, bool))
        ensures
            r.0 <= self.rows().len(),
            r.1 ==> row_of(self.rows(), key@, r.0 as int),
            forall|i: int| 0 <= i < r.0 ==> precedes(#[trigger] self.rows()[i].0, key@),
            !r.1 ==> forall|i: int|
                r.0 <= i < self.rows().len() ==> precedes(key@, #[trigger] self.rows()[i].0),
            ordered(self.rows()),
    {
        proof {
            use_type_invariant(self);
        }
        let mut lo: usize = 0;
        let mut hi: usize = self.rows.len();
        while lo < hi
            invariant
                ordered(self.rows()),
                lo <= hi <= self.rows().len(),
                forall|i: int| 0 <= i < lo ==> precedes(#[trigger] self.rows()[i].0, key@),
                forall|i: int|
                    hi <= i < self.rows().len() ==> precedes(key@, #[trigger] self.rows()[i].0),
            decreases hi - lo,
        {
            let mid: usize = lo + (hi - lo) / 2;
            let ghost rows = self.rows();
            match standing(self.rows[mid].0.as_str(), key) {
                Standing::Before => {
                    assert forall|i: int| 0 <= i < mid + 1 implies precedes(
                        #[trigger] rows[i].0,
                        key@,
                    ) by {
                        if i < mid {
                            lemma_precedes_transitive(rows[i].0, rows[mid as int].0, key@);
                        }
                    }
                    lo = mid + 1;
                },
                Standing::Same => {
                    assert(row_of(rows, key@, mid as int));
                    return (mid, true);
                },
                Standing::Behind => {
                    assert forall|i: int| mid <= i < rows.len() implies precedes(
                        key@,
                        #[trigger] rows[i].0,
                    ) by {
                        if mid < i {
                            lemma_precedes_transitive(key@, rows[mid as int].0, rows[i].0);
                        }
                    }
                    hi = mid;
                },
            }
        }
        (lo, false)
    }

    /// The content id of the file at `key`.
    pub fn get(&self, key: &str) -> (r: Option<&String>)
        ensures
            match r {
                Some(cid) => self@.dom().contains(key@) && cid@ == self@[key@],
                None => !self@.dom().contains(key@),
            },
    {
        let (at, found) = self.place(key);
        if found {
            proof {
                lemma_row_unique(self.rows(), key@, at as int);
            }
            Some(&self.rows[at].1)
        } else {
            proof {
                if self@.dom().contains(key@) {
                    let i = choose|i: int| row_of(self.rows(), key@, i);
                    assert(row_of(self.rows(), key@, i));
                    lemma_precedes_irreflexive(key@);
                    let _ = self.rows()[i].0;
                }
            }
            None
        }
    }

    /// Puts a file into the table; where the path is there, its content id is replaced.
    pub fn insert(&mut self, key: String, cid: String)
        ensures
            final(self)@ == old(self)@.insert(key@, cid@),
    {
        let (at, found) = self.place(key.as_str());
        let ghost before = self.rows();
        let ghost entry = (key@, cid@);
        let mut rows: Vec<(String, String)> = Vec::new();
        std::mem::swap(&mut rows, &mut self.rows);
        if found {
            rows.set(at, (key, cid));
            assert(row_texts(rows@) =~= before.update(at as int, entry));
        } else {
            rows.insert(at, (key, cid));
            assert(row_texts(rows@) =~= before.insert(at as int, entry));
        }
        assert(ordered(row_texts(rows@)));
        self.rows = rows;
        proof {
            lemma_insert(before, self.rows(), entry, at as int, found);
        }
    }
}

impl Clone for FileTable {
    fn clone(&self) -> (r: FileTable)
        ensures
            r.rows() == self.rows(),
            r@ == self@,
    {
        proof {
            use_type_invariant(self);
        }
        let mut rows: Vec<(String, String)> = Vec::new();
        let mut i: usize = 0;
        while i < self.rows.len()
            invariant
                i <= self.rows@.len(),
                row_texts(rows@) == self.rows().take(i as int),
            decreases self.rows@.len() - i,
        {
            let key = self.rows[i].0.clone();
            let cid = self.rows[i].1.clone();
            let ghost entry = (key@, cid@);
            let ghost done = row_texts(rows@);
            rows.push((key, cid));
            assert(row_texts(rows@) =~= done.push(entry));
            assert(self.rows().take(i + 1) =~= self.rows().take(i as int).push(entry));
            i += 1;
        }
        assert(row_texts(rows@) =~= self.rows());
        FileTable { rows }
    }
}

proof fn lemma_insert(
    before: Seq<(Seq<char>, Seq<char>)>,
    rows: Seq<(Seq<char>, Seq<char>)>,
    entry: (Seq<char>, Seq<char>),
    at: int,
    found: bool,
)
    requires
        ordered(before),
        ordered(rows),
        0 <= at <= before.len(),
        found ==> row_of(before, entry.0, at) && rows == before.update(at, entry),
        !found ==> rows == before.insert(at, entry),
    ensures
        as_map(rows) == as_map(before).insert(entry.0, entry.1),
{
    let m = as_map(before).insert(entry.0, entry.1);
    assert(row_of(rows, entry.0, at));
    lemma_row_unique(rows, entry.0, at);
    assert forall|k: Seq<char>| as_map(rows).dom().contains(k) == m.dom().contains(k) by {
        if as_map(rows).dom().contains(k) && k != entry.0 {
            let i = choose|i: int| row_of(rows, k, i);
            assert(row_of(rows, k, i));
            if found || i < at {
                assert(row_of(before, k, i));
            } else {
                assert(row_of(before, k, i - 1));
            }
        }
        if as_map(before).dom().contains(k) {
            let i = choose|i: int| row_of(before, k, i);
            assert(row_of(before, k, i));
            if found || i < at {
                assert(row_of(rows, k, i));
            } else {
                assert(row_of(rows, k, i + 1));
            }
        }
    }
    assert forall|k: Seq<char>| as_map(rows).dom().contains(k) implies as_map(rows)[k]
        == m[k] by {
        let i = choose|i: int| row_of(rows, k, i);
        assert(row_of(rows, k, i));
        if k != entry.0 {
            let o = if found || i < at {
                i
            } else {
                i - 1
            };
            assert(row_of(before, k, o));
            lemma_row_unique(before, k, o);
        }
    }
    assert(as_map(rows) =~= m);
}

proof fn lemma_last_is_greatest(rows: Seq<(Seq<char>, Seq<char>)>, key: Seq<char>)
    requires
        ordered(rows),
        as_map(rows).dom().contains(key),
    ensures
        rows.len() > 0,
        key == rows.last().0 || precedes(key, rows.last().0),
{
    let i = choose|i: int| row_of(rows, key, i);
    assert(row_of(rows, key, i));
    let _ = (rows[i], rows[rows.len() - 1]);
}

proof fn lemma_drop_last_row(rows: Seq<(Seq<char>, Seq<char>)>)
    requires
        ordered(rows),
        rows.len() > 0,
    ensures
        ordered(rows.drop_last()),
        as_map(rows.drop_last()) == as_map(rows).remove(rows.last().0),
        as_map(rows).dom().contains(rows.last().0),
        as_map(rows)[rows.last().0] == rows.last().1,
{
    let front = rows.drop_last();
    let last = rows.len() - 1;
    let m = as_map(rows).remove(rows.last().0);
    assert(ordered(front)) by {
        assert forall|i: int, j: int|
            #![trigger front[i], front[j]]
            0 <= i < j < front.len() implies precedes(front[i].0, front[j].0) by {
            let _ = (rows[i], rows[j]);
        }
    }
    assert(row_of(rows, rows.last().0, last));
    lemma_row_unique(rows, rows.last().0, last);
    assert forall|k: Seq<char>| as_map(front).dom().contains(k) == m.dom().contains(k) by {
        if as_map(front).dom().contains(k) {
            let i = choose|i: int| row_of(front, k, i);
            assert(row_of(front, k, i));
            assert(row_of(rows, k, i));
            let _ = (rows[i], rows[last]);
            lemma_precedes_irreflexive(k);
        }
        if m.dom().contains(k) {
            let i = choose|i: int| row_of(rows, k, i);
            assert(row_of(rows, k, i));
            assert(row_of(front, k, i));
        }
    }
    assert forall|k: Seq<char>| as_map(front).dom().contains(k) implies as_map(front)[k]
        == m[k] by {
        let i = choose|i: int| row_of(front, k, i);
        assert(row_of(front, k, i));
        assert(row_of(rows, k, i));
        lemma_row_unique(rows, k, i);
        lemma_row_unique(front, k, i);
        let _ = (rows[i], rows[last]);
        lemma_precedes_irreflexive(k);
    }
    assert(as_map(front) =~= m);
}

/// The rows follow from the mapping: two tables that map the same paths to the same content ids
/// hold the same rows, whatever the order in which their files were put in.
pub proof fn law_rows_follow_mapping(
    a: Seq<(Seq<char>, Seq<char>)>,
    b: Seq<(Seq<char>, Seq<char>)>,
)
    requires
        ordered(a),
        ordered(b),
        as_map(a) == as_map(b),
    ensures
        a == b,
    decreases a.len(),
{
    if a.len() == 0 {
        if b.len() > 0 {
            lemma_drop_last_row(b);
            lemma_last_is_greatest(a, b.last().0);
        }
        assert(a =~= b);
    } else {
        lemma_drop_last_row(a);
        lemma_last_is_greatest(b, a.last().0);
        lemma_drop_last_row(b);
        lemma_last_is_greatest(a, b.last().0);
        if a.last().0 != b.last().0 {
            lemma_precedes_transitive(a.last().0, b.last().0, a.last().0);
            lemma_precedes_irreflexive(a.last().0);
        }
        law_rows_follow_mapping(a.drop_last(), b.drop_last());
        assert(a =~= a.drop_last().push(a.last()));
        assert(b =~= b.drop_last().push(b.last()));
    }
}

} // verus!
