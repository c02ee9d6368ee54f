//! Dashboard state for the terminal UI, independent of rendering and IO.

use vstd::prelude::*;

use crate::text::{lex_le, owned, str_eq, str_le, lemma_lex_antisymmetric, lemma_lex_connected, lemma_lex_transitive};
use crate::types::State;

verus! {

/// One module row in the dashboard.
#[derive(Debug, Clone)]
pub struct Row {
    pub name: String,
    pub summary: String,
    pub state: State,
    pub detail: String,
}

/// A confirmable action pending operator approval.
#[derive(Debug, Clone, Copy, PartialEq, Eq, Structural)]
pub enum Action {
    Apply,
    Uninstall,
}

/// Messages sent from background workers to the UI.
#[derive(Debug)]
pub enum Msg {
    Rows(Vec<Row>),
    Log(String),
    Busy(bool),
}

/// How many log lines the dashboard keeps.
pub const MAX_LOG: usize = 500;

/// Dashboard state. The marked module names are kept in ascending order,
/// each once.
#[derive(Debug)]
pub struct App {
    pub rows: Vec<Row>,
    pub selected: usize,
    pub marked: Vec<String>,
    pub log: Vec<String>,
    pub busy: bool,
    pub confirm: Option<Action>,
    pub should_quit: bool,
}

/// `a` comes strictly before `b` in the order of `str`.
pub open spec fn lex_lt(a: Seq<char>, b: Seq<char>) -> bool {
    lex_le(a, b) && a != b
}

/// Strictly ascending: sorted, without repeats.
pub open spec fn ascending(s: Seq<Seq<char>>) -> bool {
    forall|i: int, j: int| 0 <= i < j < s.len() ==> lex_lt(#[trigger] s[i], #[trigger] s[j])
}

/// The names of the rows, in order.
pub open spec fn row_names(rows: Seq<Row>) -> Seq<Seq<char>> {
    rows.map_values(|r: Row| r.name@)
}

/// How many rows satisfy `p`.
pub open spec fn count_rows(rows: Seq<Row>, p: spec_fn(State) -> bool) -> nat
    decreases rows.len(),
{
    if rows.len() == 0 {
        0
    } else {
        count_rows(rows.drop_last(), p) + (if p(rows.last().state) {
            1nat
        } else {
            0nat
        })
    }
}

impl Default for App {
    fn default() -> (r: Self)
        ensures
            r.wf(),
            r.rows@.len() == 0,
            r.selected == 0,
            r.marked_names().len() == 0,
            r.log@.len() == 0,
            !r.busy,
            r.confirm is None,
            !r.should_quit,
    {
        let r = App {
            rows: Vec::new(),
            selected: 0,
            marked: Vec::new(),
            log: Vec::new(),
            busy: false,
            confirm: None,
            should_quit: false,
        };
        assert(r.marked.deep_view() =~= Seq::<Seq<char>>::empty());
        r
    }
}

impl App {
    /// The marked names, ascending.
    pub open spec fn marked_names(&self) -> Seq<Seq<char>> {
        self.marked.deep_view()
    }

    /// The marked names are ascending.
    pub open spec fn wf(&self) -> bool {
        ascending(self.marked_names())
    }

    /// Move the selection down, wrapping around.
    pub fn next(&mut self)
        ensures
            final(self).rows == old(self).rows,
            final(self).marked == old(self).marked,
            final(self).log == old(self).log,
            final(self).busy == old(self).busy,
            final(self).confirm == old(self).confirm,
            final(self).should_quit == old(self).should_quit,
            old(self).rows@.len() == 0 ==> final(self).selected == old(self).selected,
            old(self).rows@.len() > 0 ==> final(self).selected == (old(self).selected + 1) % (old(
                self,
            ).rows@.len() as int),
    {
        let n = self.rows.len();
        if n > 0 {
            let s = self.selected % n;
            let t = if s + 1 == n {
                0
            } else {
                s + 1
            };
            proof {
                let sel = self.selected as int;
                let m = n as int;
                vstd::arithmetic::div_mod::lemma_add_mod_noop_right(1, sel, m);
                assert(s == sel % m);
                if s + 1 == m {
                    vstd::arithmetic::div_mod::lemma_mod_self_0(m);
                } else {
                    vstd::arithmetic::div_mod::lemma_small_mod((s + 1) as nat, m as nat);
                }
                assert(1 + sel == sel + 1);
            }
            self.selected = t;
        }
    }

    /// Move the selection up, wrapping around.
    pub fn prev(&mut self)
        ensures
            final(self).rows == old(self).rows,
            final(self).marked == old(self).marked,
            final(self).log == old(self).log,
            final(self).busy == old(self).busy,
            final(self).confirm == old(self).confirm,
            final(self).should_quit == old(self).should_quit,
            old(self).rows@.len() == 0 ==> final(self).selected == old(self).selected,
            old(self).rows@.len() > 0 ==> final(self).selected == (old(self).selected + old(
                self,
            ).rows@.len() - 1) % (old(self).rows@.len() as int),
    {
        let n = self.rows.len();
        if n > 0 {
            let s = self.selected % n;
            let t = if s == 0 {
                n - 1
            } else {
                s - 1
            };
            proof {
                let sel = self.selected as int;
                let m = n as int;
                vstd::arithmetic::div_mod::lemma_add_mod_noop_right(m - 1, sel, m);
                assert(s == sel % m);
                if s == 0 {
                    vstd::arithmetic::div_mod::lemma_small_mod((m - 1) as nat, m as nat);
                } else {
                    vstd::arithmetic::div_mod::lemma_mod_sub_multiples_vanish(m - 1 + s, m);
                    vstd::arithmetic::div_mod::lemma_small_mod((s - 1) as nat, m as nat);
                    assert(-m + (m - 1 + s) == s - 1);
                }
                assert(m - 1 + sel == sel + m - 1);
            }
            self.selected = t;
        }
    }

    /// The selected row, if the selection points at one.
    pub fn current(&self) -> (r: Option<&Row>)
        ensures
            r matches Some(row) ==> self.selected < self.rows@.len() && *row == self.rows@[self.selected as int],
            r is None ==> self.selected >= self.rows@.len(),
    {
        if self.selected < self.rows.len() {
            Some(&self.rows[self.selected])
        } else {
            None
        }
    }

    /// Mark the selected row, or unmark it if it was marked.
    pub fn toggle_mark(&mut self)
        requires
            old(self).wf(),
        ensures
            final(self).wf(),
            final(self).rows == old(self).rows,
            final(self).selected == old(self).selected,
            final(self).log == old(self).log,
            final(self).busy == old(self).busy,
            final(self).confirm == old(self).confirm,
            final(self).should_quit == old(self).should_quit,
            old(self).selected >= old(self).rows@.len() ==> final(self).marked_names() == old(
                self,
            ).marked_names(),
            old(self).selected < old(self).rows@.len() ==> final(self).marked_names().to_set() == toggled(
                old(self).marked_names().to_set(),
                old(self).rows@[old(self).selected as int].name@,
            ),
    {
        if self.selected >= self.rows.len() {
            return;
        }
        let name = owned(self.rows[self.selected].name.as_str());
        let ghost m = self.marked.deep_view();
        let mut i: usize = 0;
        while i < self.marked.len() && str_le(self.marked[i].as_str(), name.as_str()) && !str_eq(
            self.marked[i].as_str(),
            name.as_str(),
        )
            invariant
                i <= self.marked@.len(),
                m == self.marked.deep_view(),
                forall|j: int| 0 <= j < i ==> lex_lt(#[trigger] m[j], name@),
            decreases self.marked@.len() - i,
        {
            i = i + 1;
        }
        if i < self.marked.len() && str_eq(self.marked[i].as_str(), name.as_str()) {
            self.marked.remove(i);
            proof {
                let after = self.marked.deep_view();
                assert(m[i as int] == name@);
                assert(m.contains(name@));
                assert(after =~= m.remove(i as int));
                assert forall|a: int, b: int| 0 <= a < b < after.len() implies lex_lt(
                    #[trigger] after[a],
                    #[trigger] after[b],
                ) by {
                    if a < i {
                        if b < i {
                            assert(lex_lt(m[a], m[b]));
                        } else {
                            assert(lex_lt(m[a], m[b + 1]));
                        }
                    } else {
                        assert(lex_lt(m[a + 1], m[b + 1]));
                    }
                }
                assert forall|x: Seq<char>| #[trigger] after.contains(x) == (m.contains(x) && x != name@) by {
                    if after.contains(x) {
                        let k = choose|k: int| 0 <= k < after.len() && after[k] == x;
                        if k < i {
                            assert(m[k] == x);
                            assert(lex_lt(m[k], m[i as int]));
                        } else {
                            assert(m[k + 1] == x);
                            assert(lex_lt(m[i as int], m[k + 1]));
                        }
                    }
                    if m.contains(x) && x != name@ {
                        let k = choose|k: int| 0 <= k < m.len() && m[k] == x;
                        if k < i {
                            assert(after[k] == x);
                        } else {
                            assert(k != i);
                            assert(after[k - 1] == x);
                        }
                    }
                }
                assert(after.to_set() =~= m.to_set().remove(name@));
            }
        } else {
            let ghost before = m;
            proof {
                if i < m.len() {
                    lemma_lex_connected(m[i as int], name@);
                }
                assert forall|j: int| 0 <= j < i implies lex_le(#[trigger] m[j], name@) by {}
            }
            self.marked.insert(i, name);
            proof {
                let after = self.marked.deep_view();
                assert(after =~= m.insert(i as int, name@));
                assert(!m.contains(name@)) by {
                    if m.contains(name@) {
                        let k = choose|k: int| 0 <= k < m.len() && m[k] == name@;
                        if k < i {
                            assert(lex_lt(m[k], name@));
                        } else if k > i {
                            assert(lex_lt(m[i as int], m[k]));
                            assert(!lex_le(m[i as int], name@));
                        }
                    }
                }
                assert forall|a: int, b: int| 0 <= a < b < after.len() implies lex_lt(
                    #[trigger] after[a],
                    #[trigger] after[b],
                ) by {
                    if b < i {
                        assert(lex_lt(m[a], m[b]));
                    } else if b == i {
                        assert(lex_lt(m[a], name@));
                    } else if a < i {
                        assert(lex_lt(m[a], m[b - 1]));
                    } else if a == i {
                        assert(after[b] == m[b - 1]);
                        if b - 1 > i {
                            assert(lex_lt(m[i as int], m[b - 1]));
                            lemma_lex_transitive(name@, m[i as int], m[b - 1]);
                            if name@ == m[b - 1] {
                                lemma_lex_antisymmetric(m[i as int], m[b - 1]);
                            }
                        }
                        assert(m[b - 1] != name@);
                    } else {
                        assert(lex_lt(m[a - 1], m[b - 1]));
                    }
                }
                assert forall|x: Seq<char>| #[trigger] after.contains(x) == (m.contains(x) || x == name@) by {
                    if after.contains(x) {
                        let k = choose|k: int| 0 <= k < after.len() && after[k] == x;
                        if k < i {
                            assert(m[k] == x);
                        } else if k > i {
                            assert(m[k - 1] == x);
                        }
                    }
                    if m.contains(x) {
                        let k = choose|k: int| 0 <= k < m.len() && m[k] == x;
                        if k < i {
                            assert(after[k] == x);
                        } else {
                            assert(after[k + 1] == x);
                        }
                    }
                    if x == name@ {
                        assert(after[i as int] == x);
                    }
                }
                assert(after.to_set() =~= m.to_set().insert(name@));
            }
        }
    }

    /// Modules an action targets: the marked ones (ascending), or every row
    /// when none is marked.
    pub fn targets(&self) -> (r: Vec<String>)
        requires
            self.wf(),
        ensures
            self.marked_names().len() == 0 ==> r.deep_view() == row_names(self.rows@),
            self.marked_names().len() > 0 ==> r.deep_view() == self.marked_names(),
            ascending(self.marked_names()),
    {
        let mut out: Vec<String> = Vec::new();
        if self.marked.len() == 0 {
            let mut i: usize = 0;
            while i < self.rows.len()
                invariant
                    i <= self.rows@.len(),
                    out.deep_view() == row_names(self.rows@.take(i as int)),
                decreases self.rows@.len() - i,
            {
                let ghost before = out.deep_view();
                let n = owned(self.rows[i].name.as_str());
                out.push(n);
                assert(out.deep_view() =~= before.push(n@));
                assert(row_names(self.rows@.take(i + 1)) =~= row_names(self.rows@.take(i as int)).push(
                    self.rows@[i as int].name@,
                ));
                i = i + 1;
            }
            assert(self.rows@.take(i as int) =~= self.rows@);
        } else {
            let mut i: usize = 0;
            while i < self.marked.len()
                invariant
                    i <= self.marked@.len(),
                    out.deep_view() == self.marked.deep_view().take(i as int),
                decreases self.marked@.len() - i,
            {
                let ghost before = out.deep_view();
                let n = owned(self.marked[i].as_str());
                out.push(n);
                assert(out.deep_view() =~= before.push(n@));
                assert(self.marked.deep_view().take(i + 1) =~= self.marked.deep_view().take(i as int).push(
                    self.marked.deep_view()[i as int],
                ));
                i = i + 1;
            }
            assert(self.marked.deep_view().take(i as int) =~= self.marked.deep_view());
        }
        out
    }

    /// Append a log line, keeping only the newest `MAX_LOG`.
    pub fn push_log(&mut self, line: String)
        ensures
            final(self).rows == old(self).rows,
            final(self).selected == old(self).selected,
            final(self).marked == old(self).marked,
            final(self).busy == old(self).busy,
            final(self).confirm == old(self).confirm,
            final(self).should_quit == old(self).should_quit,
            final(self).log@ == (if old(self).log@.len() + 1 > MAX_LOG {
                old(self).log@.push(line).skip(old(self).log@.len() + 1 - MAX_LOG)
            } else {
                old(self).log@.push(line)
            }),
    {
        self.log.push(line);
        let ghost all = self.log@;
        assert(all.skip(0) =~= all);
        while self.log.len() > MAX_LOG
            invariant
                all.len() > MAX_LOG ==> self.log@.len() >= MAX_LOG,
                all.len() <= MAX_LOG ==> self.log@ == all,
                self.log@.len() <= all.len(),
                self.log@ == all.skip(all.len() - self.log@.len()),
                self.rows == old(self).rows,
                self.selected == old(self).selected,
                self.marked == old(self).marked,
                self.busy == old(self).busy,
                self.confirm == old(self).confirm,
                self.should_quit == old(self).should_quit,
            decreases self.log@.len(),
        {
            let ghost before = self.log@;
            self.log.remove(0);
            assert(self.log@ =~= all.skip(all.len() - self.log@.len()));
        }
        proof {
            if all.len() <= MAX_LOG {
                assert(self.log@ =~= all.skip(0));
                assert(all.skip(0) =~= all);
            }
        }
    }

    /// (compliant, applicable) counts for the security score.
    pub fn score(&self) -> (r: (usize, usize))
        ensures
            r.0 == count_rows(self.rows@, |s: State| s == State::Compliant),
            r.1 == count_rows(self.rows@, |s: State| s != State::NotApplicable),
    {
        let mut compliant: usize = 0;
        let mut applicable: usize = 0;
        let mut i: usize = 0;
        while i < self.rows.len()
            invariant
                i <= self.rows@.len(),
                compliant == count_rows(self.rows@.take(i as int), |s: State| s == State::Compliant),
                applicable == count_rows(self.rows@.take(i as int), |s: State| s != State::NotApplicable),
                compliant <= i,
                applicable <= i,
            decreases self.rows@.len() - i,
        {
            proof {
                assert(self.rows@.take(i + 1).drop_last() =~= self.rows@.take(i as int));
            }
            if self.rows[i].state != State::NotApplicable {
                applicable = applicable + 1;
            }
            if self.rows[i].state == State::Compliant {
                compliant = compliant + 1;
            }
            i = i + 1;
        }
        assert(self.rows@.take(i as int) =~= self.rows@);
        (compliant, applicable)
    }
}

/// A set with `name` flipped: removed when present, added when absent.
pub open spec fn toggled(set: Set<Seq<char>>, name: Seq<char>) -> Set<Seq<char>> {
    if set.contains(name) {
        set.remove(name)
    } else {
        set.insert(name)
    }
}

/// Law: toggling the same row twice leaves the marks as they were.
pub proof fn law_toggle_twice(set: Set<Seq<char>>, name: Seq<char>)
    ensures
        toggled(toggled(set, name), name) == set,
{
    if set.contains(name) {
        assert(toggled(toggled(set, name), name) =~= set);
    } else {
        assert(toggled(toggled(set, name), name) =~= set);
    }
}

/// Law: moving down then up returns to the same row.
pub proof fn law_next_prev(selected: int, len: int)
    requires
        0 <= selected < len,
    ensures
        (((selected + 1) % len) + len - 1) % len == selected,
{
    if selected + 1 == len {
        vstd::arithmetic::div_mod::lemma_mod_self_0(len);
        vstd::arithmetic::div_mod::lemma_small_mod((len - 1) as nat, len as nat);
    } else {
        vstd::arithmetic::div_mod::lemma_small_mod((selected + 1) as nat, len as nat);
        vstd::arithmetic::div_mod::lemma_mod_sub_multiples_vanish(selected + len, len);
        vstd::arithmetic::div_mod::lemma_small_mod(selected as nat, len as nat);
        assert(-len + (selected + len) == selected);
    }
}

} // verus!
