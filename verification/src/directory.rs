use vstd::prelude::*;
use crate::parser::{parse, tokenize, AddCommand};

verus! {

/// The mathematical content of one directory row: a department name and the
/// employees filed under it, in insertion order.
pub type Row = (Seq<char>, Seq<Seq<char>>);

/// The views of a sequence of owned entries.
pub open spec fn rows_of(entries: Seq<(String, Vec<String>)>) -> Seq<Row> {
    entries.map_values(|e: (String, Vec<String>)| (e.0@, e.1@.map_values(|n: String| n@)))
}

/// Every department name occurs at most once.
pub open spec fn distinct_keys(rows: Seq<Row>) -> bool {
    forall|i: int, j: int| 0 <= i < j < rows.len() ==> rows[i].0 != rows[j].0
}

/// The employee list filed under `dept`, or the empty list if `dept` is
/// absent.
pub open spec fn lookup(rows: Seq<Row>, dept: Seq<char>) -> Seq<Seq<char>>
    decreases rows.len(),
{
    if rows.len() == 0 {
        Seq::empty()
    } else if rows[0].0 == dept {
        rows[0].1
    } else {
        lookup(rows.drop_first(), dept)
    }
}

/// Whether some row carries the department name `dept`.
pub open spec fn has_key(rows: Seq<Row>, dept: Seq<char>) -> bool {
    exists|i: int| 0 <= i < rows.len() && rows[i].0 == dept
}

/// Filing `emp` under `dept`: the first row keyed by `dept` gets `emp`
/// appended; if no row is, a fresh row is appended at the end.
pub open spec fn spec_add(rows: Seq<Row>, dept: Seq<char>, emp: Seq<char>) -> Seq<Row>
    decreases rows.len(),
{
    if rows.len() == 0 {
        seq![(dept, seq![emp])]
    } else if rows[0].0 == dept {
        seq![(rows[0].0, rows[0].1.push(emp))] + rows.drop_first()
    } else {
        seq![rows[0]] + spec_add(rows.drop_first(), dept, emp)
    }
}

/// After an add, the employee list for the named department is the previous
/// list with the new name appended at the end.
pub proof fn lemma_add_lookup_target(rows: Seq<Row>, dept: Seq<char>, emp: Seq<char>)
    ensures
        lookup(spec_add(rows, dept, emp), dept) == lookup(rows, dept).push(emp),
    decreases rows.len(),
{
    let post = spec_add(rows, dept, emp);
    if rows.len() == 0 {
        assert(lookup(post, dept) =~= lookup(rows, dept).push(emp));
    } else if rows[0].0 == dept {
        assert(post[0] == (rows[0].0, rows[0].1.push(emp)));
        assert(lookup(post, dept) == rows[0].1.push(emp));
    } else {
        lemma_add_lookup_target(rows.drop_first(), dept, emp);
        assert(post[0] == rows[0]);
        assert(post.drop_first() =~= spec_add(rows.drop_first(), dept, emp));
        assert(lookup(post, dept) == lookup(post.drop_first(), dept));
    }
}

/// After an add, no other department's employee list changes.
pub proof fn lemma_add_lookup_other(
    rows: Seq<Row>,
    dept: Seq<char>,
    emp: Seq<char>,
    other: Seq<char>,
)
    requires
        other != dept,
    ensures
        lookup(spec_add(rows, dept, emp), other) == lookup(rows, other),
    decreases rows.len(),
{
    let post = spec_add(rows, dept, emp);
    if rows.len() == 0 {
        assert(post[0].0 == dept);
        assert(lookup(post, other) == lookup(post.drop_first(), other));
        assert(post.drop_first().len() == 0);
    } else if rows[0].0 == dept {
        assert(post[0].0 == dept);
        assert(post.drop_first() =~= rows.drop_first());
        assert(lookup(post, other) == lookup(post.drop_first(), other));
        assert(lookup(rows, other) == lookup(rows.drop_first(), other));
    } else {
        lemma_add_lookup_other(rows.drop_first(), dept, emp, other);
        assert(post[0] == rows[0]);
        assert(post.drop_first() =~= spec_add(rows.drop_first(), dept, emp));
        if rows[0].0 == other {
            assert(lookup(post, other) == post[0].1);
            assert(lookup(rows, other) == rows[0].1);
        } else {
            assert(lookup(post, other) == lookup(post.drop_first(), other));
            assert(lookup(rows, other) == lookup(rows.drop_first(), other));
        }
    }
}

/// An add either leaves the department names in place (when the department
/// was already present) or appends the one new row at the end.
pub proof fn lemma_add_keys(rows: Seq<Row>, dept: Seq<char>, emp: Seq<char>)
    ensures
        has_key(rows, dept) ==> spec_add(rows, dept, emp).len() == rows.len() && forall|i: int|
            0 <= i < rows.len() ==> #[trigger] spec_add(rows, dept, emp)[i].0 == rows[i].0,
        !has_key(rows, dept) ==> spec_add(rows, dept, emp) == rows.push((dept, seq![emp])),
    decreases rows.len(),
{
    let post = spec_add(rows, dept, emp);
    if rows.len() == 0 {
        assert(!has_key(rows, dept));
        assert(post =~= rows.push((dept, seq![emp])));
    } else if rows[0].0 == dept {
        assert(has_key(rows, dept));
        assert forall|i: int| 0 <= i < rows.len() implies #[trigger] post[i].0 == rows[i].0 by {
            if i > 0 {
                assert(post[i] == rows.drop_first()[i - 1]);
            }
        }
    } else {
        lemma_add_keys(rows.drop_first(), dept, emp);
        let tail = spec_add(rows.drop_first(), dept, emp);
        if has_key(rows, dept) {
            let w = choose|w: int| 0 <= w < rows.len() && rows[w].0 == dept;
            assert(rows.drop_first()[w - 1].0 == dept);
            assert(has_key(rows.drop_first(), dept));
            assert forall|i: int| 0 <= i < rows.len() implies #[trigger] post[i].0 == rows[i].0 by {
                if i > 0 {
                    assert(post[i] == tail[i - 1]);
                    assert(tail[i - 1].0 == rows.drop_first()[i - 1].0);
                }
            }
        } else {
            assert(!has_key(rows.drop_first(), dept)) by {
                if has_key(rows.drop_first(), dept) {
                    let w = choose|w: int|
                        0 <= w < rows.drop_first().len() && rows.drop_first()[w].0 == dept;
                    assert(rows[w + 1].0 == dept);
                }
            }
            assert(post =~= rows.push((dept, seq![emp])));
        }
    }
}

/// An add keeps the department names distinct.
pub proof fn lemma_add_distinct(rows: Seq<Row>, dept: Seq<char>, emp: Seq<char>)
    requires
        distinct_keys(rows),
    ensures
        distinct_keys(spec_add(rows, dept, emp)),
{
    let post = spec_add(rows, dept, emp);
    lemma_add_keys(rows, dept, emp);
    if has_key(rows, dept) {
        assert forall|i: int, j: int| 0 <= i < j < post.len() implies post[i].0 != post[j].0 by {
            assert(post[i].0 == rows[i].0 && post[j].0 == rows[j].0);
        }
    } else {
        assert forall|i: int, j: int| 0 <= i < j < post.len() implies post[i].0 != post[j].0 by {
            if j < rows.len() {
                assert(post[i].0 == rows[i].0 && post[j].0 == rows[j].0);
            } else {
                assert(post[j].0 == dept);
                assert(post[i].0 == rows[i].0);
                assert(!(exists|w: int| 0 <= w < rows.len() && rows[w].0 == dept));
            }
        }
    }
}

/// Filing a whole sequence of employees under one fixed department, one
/// add at a time, in call order.
pub open spec fn add_all(rows: Seq<Row>, dept: Seq<char>, emps: Seq<Seq<char>>) -> Seq<Row>
    decreases emps.len(),
{
    if emps.len() == 0 {
        rows
    } else {
        add_all(spec_add(rows, dept, emps[0]), dept, emps.drop_first())
    }
}

/// Insertion order is preserved: after any sequence of adds targeting one
/// fixed department, that department's employee list is the previous list
/// followed by the added names in call order, and no other department's
/// list changes.
pub proof fn lemma_insertion_order(rows: Seq<Row>, dept: Seq<char>, emps: Seq<Seq<char>>)
    ensures
        lookup(add_all(rows, dept, emps), dept) == lookup(rows, dept) + emps,
        forall|other: Seq<char>|
            other != dept ==> lookup(add_all(rows, dept, emps), other) == lookup(rows, other),
    decreases emps.len(),
{
    if emps.len() == 0 {
        assert(lookup(rows, dept) + emps =~= lookup(rows, dept));
    } else {
        let next = spec_add(rows, dept, emps[0]);
        lemma_add_lookup_target(rows, dept, emps[0]);
        lemma_insertion_order(next, dept, emps.drop_first());
        assert(lookup(rows, dept).push(emps[0]) + emps.drop_first() =~= lookup(rows, dept) + emps);
        assert forall|other: Seq<char>| other != dept implies lookup(
            add_all(rows, dept, emps),
            other,
        ) == lookup(rows, other) by {
            lemma_add_lookup_other(rows, dept, emps[0], other);
        }
    }
}

/// Dumping is idempotent: a snapshot is determined by the directory's
/// state alone, so two dumps with no add in between are equal.
pub proof fn lemma_dump_idempotent(rows: Seq<Row>, snap1: Seq<Row>, snap2: Seq<Row>)
    requires
        snap1 == rows,
        snap2 == rows,
    ensures
        snap1 == snap2,
{
}

/// What one add guarantees: the invariant is kept, the target department's
/// list grows by the one name at its end, and every other department's list
/// stands unchanged.
pub proof fn lemma_add_post(rows: Seq<Row>, dept: Seq<char>, emp: Seq<char>)
    requires
        distinct_keys(rows),
    ensures
        distinct_keys(spec_add(rows, dept, emp)),
        lookup(spec_add(rows, dept, emp), dept) == lookup(rows, dept).push(emp),
        forall|other: Seq<char>|
            other != dept ==> lookup(spec_add(rows, dept, emp), other) == lookup(rows, other),
{
    lemma_add_distinct(rows, dept, emp);
    lemma_add_lookup_target(rows, dept, emp);
    assert forall|other: Seq<char>| other != dept implies lookup(spec_add(rows, dept, emp), other)
        == lookup(rows, other) by {
        lemma_add_lookup_other(rows, dept, emp, other);
    }
}

/// Clones a list of names; the copy has the same view.
fn clone_names(v: &Vec<String>) -> (r: Vec<String>)
    ensures
        r@ == v@,
{
    let mut r: Vec<String> = Vec::new();
    let n = v.len();
    let mut i: usize = 0;
    while i < n
        invariant
            i <= n,
            n == v@.len(),
            r@ =~= v@.subrange(0, i as int),
        decreases n - i,
    {
        r.push(v[i].clone());
        i = i + 1;
    }
    proof {
        assert(v@.subrange(0, n as int) =~= v@);
    }
    r
}

/// The in-memory mapping from department name to the ordered list of
/// employee names filed under it.
pub struct Directory {
    entries: Vec<(String, Vec<String>)>,
}

impl View for Directory {
    type V = Seq<Row>;

    closed spec fn view(&self) -> Seq<Row> {
        rows_of(self.entries@)
    }
}

impl Directory {
    /// The directory's invariant: department names are unique.
    pub open spec fn wf(&self) -> bool {
        distinct_keys(self@)
    }

    /// Creates an empty directory.
    pub fn new() -> (d: Directory)
        ensures
            d@ == Seq::<Row>::empty(),
            d.wf(),
    {
        let d = Directory { entries: Vec::new() };
        proof {
            assert(d@ =~= Seq::<Row>::empty());
        }
        d
    }

    /// Files the command's employee under the command's department,
    /// appending at the end of that department's list; a department seen
    /// for the first time gets a fresh one-element list.
    pub fn add(&mut self, cmd: AddCommand)
        requires
            old(self).wf(),
        ensures
            final(self).wf(),
            final(self)@ == spec_add(old(self)@, cmd.department@, cmd.employee@),
            lookup(final(self)@, cmd.department@) == lookup(old(self)@, cmd.department@).push(
                cmd.employee@,
            ),
            forall|other: Seq<char>|
                other != cmd.department@ ==> lookup(final(self)@, other) == lookup(
                    old(self)@,
                    other,
                ),
    {
        let n = self.entries.len();
        let mut i: usize = 0;
        while i < n
            invariant
                i <= n,
                n == self.entries@.len(),
                *self == *old(self),
                old(self).wf(),
                forall|j: int| 0 <= j < i ==> self@[j].0 != cmd.department@,
            decreases n - i,
        {
            if self.entries[i].0 == cmd.department {
                let ghost pre = self@;
                let mut row = self.entries.remove(i);
                row.1.push(cmd.employee);
                self.entries.insert(i, row);
                proof {
                    assert(row.1@.map_values(|m: String| m@) =~= pre[i as int].1.push(
                        cmd.employee@,
                    ));
                    assert(self@ =~= pre.update(
                        i as int,
                        (pre[i as int].0, pre[i as int].1.push(cmd.employee@)),
                    ));
                    lemma_spec_add_found(pre, i as int, cmd.department@, cmd.employee@);
                    assert(self@ == spec_add(pre, cmd.department@, cmd.employee@));
                    lemma_add_post(pre, cmd.department@, cmd.employee@);
                    assert(distinct_keys(self@));
                    assert(lookup(self@, cmd.department@) == lookup(pre, cmd.department@).push(
                        cmd.employee@,
                    ));
                    assert forall|other: Seq<char>| other != cmd.department@ implies lookup(
                        self@,
                        other,
                    ) == lookup(pre, other) by {
                        lemma_add_lookup_other(pre, cmd.department@, cmd.employee@, other);
                    }
                }
                return ;
            }
            i = i + 1;
        }
        let ghost pre = self@;
        let mut emps: Vec<String> = Vec::new();
        emps.push(cmd.employee);
        self.entries.push((cmd.department, emps));
        proof {
            assert(!has_key(pre, cmd.department@));
            lemma_add_keys(pre, cmd.department@, cmd.employee@);
            assert(emps@.map_values(|m: String| m@) =~= seq![cmd.employee@]);
            assert(self@ =~= pre.push((cmd.department@, seq![cmd.employee@])));
            assert(self@ == spec_add(pre, cmd.department@, cmd.employee@));
            lemma_add_post(pre, cmd.department@, cmd.employee@);
            assert(distinct_keys(self@));
            assert(lookup(self@, cmd.department@) == lookup(pre, cmd.department@).push(
                cmd.employee@,
            ));
            assert forall|other: Seq<char>| other != cmd.department@ implies lookup(self@, other)
                == lookup(pre, other) by {
                lemma_add_lookup_other(pre, cmd.department@, cmd.employee@, other);
            }
        }
    }

    /// Returns an immutable snapshot of the whole mapping, department by
    /// department in insertion order.
    pub fn dump(&self) -> (snap: Vec<(String, Vec<String>)>)
        ensures
            rows_of(snap@) == self@,
    {
        let mut snap: Vec<(String, Vec<String>)> = Vec::new();
        let n = self.entries.len();
        let mut i: usize = 0;
        while i < n
            invariant
                i <= n,
                n == self.entries@.len(),
                snap@.len() == i,
                forall|j: int|
                    0 <= j < i ==> (#[trigger] snap@[j]).0 == self.entries@[j].0 && snap@[j].1@
                        == self.entries@[j].1@,
            decreases n - i,
        {
            let dept = self.entries[i].0.clone();
            let emps = clone_names(&self.entries[i].1);
            snap.push((dept, emps));
            i = i + 1;
        }
        proof {
            assert forall|j: int| 0 <= j < n implies rows_of(snap@)[j] == self@[j] by {
                assert(snap@[j].0 == self.entries@[j].0);
                assert(snap@[j].1@ == self.entries@[j].1@);
            }
            assert(rows_of(snap@) =~= self@);
        }
        snap
    }

    /// One driver step: parses the line and, on success, applies the
    /// command. Returns whether the slot counter may advance; a malformed
    /// line leaves the directory unchanged.
    pub fn apply_line(&mut self, line: &str) -> (ok: bool)
        requires
            old(self).wf(),
        ensures
            final(self).wf(),
            ok <==> tokenize(line@).len() == 4,
            ok ==> final(self)@ == spec_add(old(self)@, tokenize(line@)[3], tokenize(line@)[1]),
            !ok ==> final(self)@ == old(self)@,
    {
        match parse(line) {
            Ok(cmd) => {
                self.add(cmd);
                true
            },
            Err(_) => false,
        }
    }
}

/// Filing an employee under a department that stands at row `i` updates
/// exactly that row.
pub proof fn lemma_spec_add_found(rows: Seq<Row>, i: int, dept: Seq<char>, emp: Seq<char>)
    requires
        0 <= i < rows.len(),
        rows[i].0 == dept,
        forall|j: int| 0 <= j < i ==> rows[j].0 != dept,
    ensures
        spec_add(rows, dept, emp) == rows.update(i, (rows[i].0, rows[i].1.push(emp))),
    decreases rows.len(),
{
    if i == 0 {
        assert(spec_add(rows, dept, emp) =~= rows.update(0, (rows[0].0, rows[0].1.push(emp))));
    } else {
        assert(rows.drop_first()[i - 1].0 == dept);
        assert(forall|j: int| 0 <= j < i - 1 ==> rows.drop_first()[j].0 == rows[j + 1].0);
        lemma_spec_add_found(rows.drop_first(), i - 1, dept, emp);
        assert(spec_add(rows, dept, emp) =~= rows.update(i, (rows[i].0, rows[i].1.push(emp))));
    }
}

} // verus!
