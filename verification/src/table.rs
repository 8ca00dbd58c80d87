//! Rows that are kept by name, in the order of their names.

use vstd::prelude::*;
use crate::order::{before, before_is_total, before_is_transitive, comes_before};
use crate::text::same;

verus! {

/// Rows in the order of their names, which are all different.
pub struct Table<T> {
    pub rows: Vec<(String, T)>,
}

/// Whether the names of the rows go up.
pub open spec fn ordered<T>(rows: Seq<(Seq<char>, T)>) -> bool {
    forall|i: int, j: int|
        0 <= i < j < rows.len() ==> before((#[trigger] rows[i]).0, (#[trigger] rows[j]).0)
}

/// What the rows hold, by name.
pub open spec fn as_map<T>(rows: Seq<(Seq<char>, T)>) -> Map<Seq<char>, T>
    decreases rows.len(),
{
    if rows.len() == 0 {
        Map::empty()
    } else {
        as_map(rows.drop_last()).insert(rows.last().0, rows.last().1)
    }
}

/// What a map holds under a name.
pub open spec fn lookup<T>(map: Map<Seq<char>, T>, name: Seq<char>) -> Option<T> {
    if map.dom().contains(name) {
        Some(map[name])
    } else {
        None
    }
}

/// A table and its rows hold the same names, each with the same value.
pub proof fn rows_and_map_agree<T>(rows: Seq<(Seq<char>, T)>, name: Seq<char>)
    requires
        ordered(rows),
    ensures
        as_map(rows).dom().contains(name) <==> exists|i: int|
            0 <= i < rows.len() && (#[trigger] rows[i]).0 == name,
        forall|i: int|
            0 <= i < rows.len() && (#[trigger] rows[i]).0 == name ==> as_map(rows)[name]
                == rows[i].1,
    decreases rows.len(),
{
    if rows.len() > 0 {
        let head = rows.drop_last();
        rows_and_map_agree(head, name);
        let n = rows.len() - 1;
        assert forall|i: int| 0 <= i < rows.len() && (#[trigger] rows[i]).0 == name implies as_map(
            rows,
        )[name] == rows[i].1 by {
            if i < n {
                assert(head[i] == rows[i]);
                assert(before(rows[i].0, rows[n].0));
                before_is_total(rows[i].0, rows[i].0);
            }
        }
        if as_map(rows).dom().contains(name) {
            if rows[n].0 == name {
            } else {
                let i = choose|i: int| 0 <= i < head.len() && (#[trigger] head[i]).0 == name;
                assert(rows[i].0 == name);
            }
        }
        if exists|i: int| 0 <= i < rows.len() && (#[trigger] rows[i]).0 == name {
            let i = choose|i: int| 0 <= i < rows.len() && (#[trigger] rows[i]).0 == name;
            if i < n {
                assert(head[i].0 == name);
            }
        }
    }
}

impl<T: DeepView> DeepView for Table<T> {
    type V = Map<Seq<char>, T::V>;

    open spec fn deep_view(&self) -> Map<Seq<char>, T::V> {
        as_map(self.rows.deep_view())
    }
}

impl<T: DeepView> Table<T> {
    /// Whether the rows stand in the order of their names.
    pub open spec fn wf(&self) -> bool {
        ordered(self.rows.deep_view())
    }

    pub fn new() -> (r: Table<T>)
        ensures
            r.wf(),
            r.deep_view() == Map::<Seq<char>, T::V>::empty(),
    {
        let r = Table { rows: Vec::new() };
        assert(r.rows.deep_view() =~= Seq::empty());
        r
    }

    /// The first row whose name is not before `name`.
    fn place(&self, name: &str) -> (r: usize)
        requires
            self.wf(),
        ensures
            r <= self.rows@.len(),
            forall|i: int| 0 <= i < r ==> before((#[trigger] self.rows.deep_view()[i]).0, name@),
            r < self.rows@.len() ==> !before(self.rows.deep_view()[r as int].0, name@),
    {
        let mut i: usize = 0;
        while i < self.rows.len() && comes_before(self.rows[i].0.as_str(), name)
            invariant
                i <= self.rows@.len(),
                forall|j: int|
                    0 <= j < i ==> before((#[trigger] self.rows.deep_view()[j]).0, name@),
            decreases self.rows.len() - i,
        {
            i = i + 1;
        }
        i
    }

    /// What is kept under a name.
    pub fn get<'a>(&'a self, name: &str) -> (r: Option<&'a T>)
        requires
            self.wf(),
        ensures
            r.deep_view() == lookup(self.deep_view(), name@),
    {
        let i: usize = self.place(name);
        proof {
            rows_and_map_agree(self.rows.deep_view(), name@);
        }
        if i < self.rows.len() && same(self.rows[i].0.as_str(), name) {
            assert(self.rows.deep_view()[i as int].0 == name@);
            return Some(&self.rows[i].1);
        }
        proof {
            if self.deep_view().dom().contains(name@) {
                let k = choose|k: int|
                    0 <= k < self.rows@.len() && (#[trigger] self.rows.deep_view()[k]).0 == name@;
                before_is_total(name@, name@);
                if k > i {
                    assert(before(self.rows.deep_view()[i as int].0, name@));
                }
            }
        }
        None
    }

    pub fn has(&self, name: &str) -> (r: bool)
        requires
            self.wf(),
        ensures
            r == self.deep_view().dom().contains(name@),
    {
        self.get(name).is_some()
    }

    /// Keeps a value under a name, in place of what was kept there.
    pub fn put(&mut self, name: &str, value: T)
        requires
            old(self).wf(),
        ensures
            final(self).wf(),
            final(self).deep_view() == old(self).deep_view().insert(name@, value.deep_view()),
    {
        let ghost rows = self.rows.deep_view();
        let ghost new_row = (name@, value.deep_view());
        let i: usize = self.place(name);
        if i < self.rows.len() && same(self.rows[i].0.as_str(), name) {
            self.rows.remove(i);
            self.rows.insert(i, (name.to_owned(), value));
            proof {
                let after = rows.update(i as int, new_row);
                assert(rows[i as int].0 == name@);
                assert(self.rows.deep_view() =~= after);
                assert(ordered(after)) by {
                    assert forall|a: int, b: int| 0 <= a < b < after.len() implies before(
                        (#[trigger] after[a]).0,
                        (#[trigger] after[b]).0,
                    ) by {
                        assert(after[a].0 == rows[a].0);
                        assert(after[b].0 == rows[b].0);
                    }
                }
                replacing_a_row(rows, i as int, value.deep_view());
            }
        } else {
            self.rows.insert(i, (name.to_owned(), value));
            proof {
                let after = rows.insert(i as int, new_row);
                assert(self.rows.deep_view() =~= after);
                assert(ordered(after)) by {
                    assert forall|a: int, b: int| 0 <= a < b < after.len() implies before(
                        (#[trigger] after[a]).0,
                        (#[trigger] after[b]).0,
                    ) by {
                        if a < i && b < i {
                            assert(after[a] == rows[a] && after[b] == rows[b]);
                        } else if a < i && b == i {
                            assert(after[a] == rows[a]);
                        } else if a < i {
                            assert(after[a] == rows[a] && after[b] == rows[b - 1]);
                        } else if a == i {
                            assert(after[b] == rows[b - 1]);
                            before_is_total(rows[i as int].0, name@);
                            if b - 1 > i {
                                assert(before(rows[i as int].0, rows[b - 1].0));
                                before_is_transitive(name@, rows[i as int].0, rows[b - 1].0);
                            }
                        } else {
                            assert(after[a] == rows[a - 1] && after[b] == rows[b - 1]);
                        }
                    }
                }
                inserting_a_row(rows, i as int, name@, value.deep_view());
            }
        }
    }

    /// Forgets what is kept under a name.
    pub fn forget(&mut self, name: &str)
        requires
            old(self).wf(),
        ensures
            final(self).wf(),
            final(self).deep_view() == old(self).deep_view().remove(name@),
    {
        let ghost rows = self.rows.deep_view();
        let i: usize = self.place(name);
        if i < self.rows.len() && same(self.rows[i].0.as_str(), name) {
            self.rows.remove(i);
            proof {
                let after = rows.remove(i as int);
                assert(rows[i as int].0 == name@);
                assert(self.rows.deep_view() =~= after);
                assert(ordered(after)) by {
                    assert forall|a: int, b: int| 0 <= a < b < after.len() implies before(
                        (#[trigger] after[a]).0,
                        (#[trigger] after[b]).0,
                    ) by {
                        let a0 = if a < i {
                            a
                        } else {
                            a + 1
                        };
                        let b0 = if b < i {
                            b
                        } else {
                            b + 1
                        };
                        assert(after[a] == rows[a0] && after[b] == rows[b0]);
                    }
                }
                removing_a_row(rows, i as int);
            }
        } else {
            proof {
                rows_and_map_agree(rows, name@);
                if as_map(rows).dom().contains(name@) {
                    let k = choose|k: int| 0 <= k < rows.len() && (#[trigger] rows[k]).0 == name@;
                    before_is_total(name@, name@);
                    if k > i {
                        assert(before(rows[i as int].0, name@));
                    }
                }
                assert(as_map(rows) =~= as_map(rows).remove(name@));
            }
        }
    }
}

/// A row that is put between others adds its name to what they hold.
proof fn inserting_a_row<T>(rows: Seq<(Seq<char>, T)>, i: int, name: Seq<char>, value: T)
    requires
        0 <= i <= rows.len(),
        ordered(rows.insert(i, (name, value))),
    ensures
        as_map(rows.insert(i, (name, value))) == as_map(rows).insert(name, value),
    decreases rows.len(),
{
    let after = rows.insert(i, (name, value));
    if i == rows.len() {
        assert(after.drop_last() =~= rows);
    } else {
        let head = rows.drop_last();
        assert(after.drop_last() =~= head.insert(i, (name, value)));
        assert(after.last() == rows.last());
        assert(ordered(after.drop_last())) by {
            assert forall|a: int, b: int| 0 <= a < b < after.drop_last().len() implies before(
                (#[trigger] after.drop_last()[a]).0,
                (#[trigger] after.drop_last()[b]).0,
            ) by {
                assert(before(after[a].0, after[b].0));
            }
        }
        inserting_a_row(head, i, name, value);
        assert(before(after[i].0, after[after.len() - 1].0));
        before_is_total(name, name);
        assert(as_map(after) =~= as_map(rows).insert(name, value));
    }
}

/// A row that takes the place of one with its name changes what is held under it.
proof fn replacing_a_row<T>(rows: Seq<(Seq<char>, T)>, i: int, value: T)
    requires
        0 <= i < rows.len(),
        ordered(rows),
    ensures
        as_map(rows.update(i, (rows[i].0, value))) == as_map(rows).insert(rows[i].0, value),
    decreases rows.len(),
{
    let name = rows[i].0;
    let after = rows.update(i, (name, value));
    let head = rows.drop_last();
    if i == rows.len() - 1 {
        assert(after.drop_last() =~= head);
        assert(as_map(after) =~= as_map(rows).insert(name, value));
    } else {
        assert(after.drop_last() =~= head.update(i, (name, value)));
        assert(after.last() == rows.last());
        assert(head[i] == rows[i]);
        replacing_a_row(head, i, value);
        assert(before(rows[i].0, rows[rows.len() - 1].0));
        before_is_total(name, name);
        assert(as_map(after) =~= as_map(rows).insert(name, value));
    }
}

/// A row that is taken out takes its name with it.
proof fn removing_a_row<T>(rows: Seq<(Seq<char>, T)>, i: int)
    requires
        0 <= i < rows.len(),
        ordered(rows),
    ensures
        as_map(rows.remove(i)) == as_map(rows).remove(rows[i].0),
    decreases rows.len(),
{
    let name = rows[i].0;
    let after = rows.remove(i);
    let head = rows.drop_last();
    if i == rows.len() - 1 {
        assert(after =~= head);
        rows_and_map_agree(head, name);
        if as_map(head).dom().contains(name) {
            let k = choose|k: int| 0 <= k < head.len() && (#[trigger] head[k]).0 == name;
            assert(before(rows[k].0, rows[i].0));
            before_is_total(name, name);
        }
        assert(as_map(after) =~= as_map(rows).remove(name));
    } else {
        assert(after.drop_last() =~= head.remove(i));
        assert(after.last() == rows.last());
        assert(head[i] == rows[i]);
        removing_a_row(head, i);
        assert(before(rows[i].0, rows[rows.len() - 1].0));
        before_is_total(name, name);
        assert(as_map(after) =~= as_map(rows).remove(name));
    }
}

/// What is kept under a name reads back, and nothing else changes.
pub proof fn what_is_kept_reads_back<T>(
    map: Map<Seq<char>, T>,
    name: Seq<char>,
    value: T,
    other: Seq<char>,
)
    ensures
        lookup(map.insert(name, value), name) == Some(value),
        lookup(map.remove(name), name) is None,
        other != name ==> lookup(map.insert(name, value), other) == lookup(map, other),
        other != name ==> lookup(map.remove(name), other) == lookup(map, other),
{
}

} // verus!
