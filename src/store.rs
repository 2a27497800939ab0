//! The ordered record store and its operations.
use vstd::prelude::*;
use crate::todo::{is_uuid_v4_text, opt_view, Todo, TodoView};

verus! {

/// Whether some record of `s` has the id `id`.
pub open spec fn has_id(s: Seq<TodoView>, id: Seq<char>) -> bool {
    exists|i: int| 0 <= i < s.len() && (#[trigger] s[i]).id == id
}

/// The position of the first record of `s` with the id `id`, or -1.
pub open spec fn first_index(s: Seq<TodoView>, id: Seq<char>) -> int
    decreases s.len(),
{
    if s.len() == 0 {
        -1
    } else if s[0].id == id {
        0
    } else {
        let k = first_index(s.drop_first(), id);
        if k < 0 {
            -1
        } else {
            k + 1
        }
    }
}

/// `s` after marking done the first record with the id `id` (unchanged when
/// there is none).
pub open spec fn completed_first(s: Seq<TodoView>, id: Seq<char>) -> Seq<TodoView> {
    let k = first_index(s, id);
    if k < 0 {
        s
    } else {
        s.update(k, TodoView { completed: true, ..s[k] })
    }
}

/// `s` without the records whose id is `id`, the others in their order.
pub open spec fn without_id(s: Seq<TodoView>, id: Seq<char>) -> Seq<TodoView> {
    s.filter(|t: TodoView| t.id != id)
}

/// No two records of `s` share an id.
pub open spec fn unique_ids(s: Seq<TodoView>) -> bool {
    forall|i: int, j: int| 0 <= i < s.len() && 0 <= j < s.len() && i != j ==> s[i].id != s[j].id
}

/// `after` is `before` with one new record appended: not done, with a
/// version-4 UUID for id and the given title and description.
pub open spec fn is_add_of(
    before: Seq<TodoView>,
    title: Seq<char>,
    description: Option<Seq<char>>,
    after: Seq<TodoView>,
) -> bool {
    &&& after.len() == before.len() + 1
    &&& after.drop_last() == before
    &&& after.last().title == title
    &&& after.last().description == description
    &&& !after.last().completed
    &&& is_uuid_v4_text(after.last().id)
}

/// `first_index` is the least position holding the id, or -1 when none does.
pub proof fn lemma_first_index(s: Seq<TodoView>, id: Seq<char>)
    ensures
        has_id(s, id) ==> {
            let k = first_index(s, id);
            &&& 0 <= k < s.len()
            &&& s[k].id == id
            &&& forall|j: int| 0 <= j < k ==> s[j].id != id
        },
        !has_id(s, id) ==> first_index(s, id) == -1,
    decreases s.len(),
{
    if s.len() > 0 {
        lemma_first_index(s.drop_first(), id);
        if s[0].id != id {
            if has_id(s, id) {
                let i = choose|i: int| 0 <= i < s.len() && (#[trigger] s[i]).id == id;
                assert(s.drop_first()[i - 1].id == id);
            }
            if has_id(s.drop_first(), id) {
                let i = choose|i: int| 0 <= i < s.len() - 1 && (#[trigger] s.drop_first()[i]).id == id;
                assert(s[i + 1].id == id);
            }
            let k = first_index(s, id);
            assert forall|j: int| 0 <= j < k implies s[j].id != id by {
                if j > 0 {
                    assert(s[j] == s.drop_first()[j - 1]);
                }
            }
        }
    }
}

/// A position holding the id with no earlier one is `first_index`.
pub proof fn lemma_first_index_at(s: Seq<TodoView>, id: Seq<char>, i: int)
    requires
        0 <= i < s.len(),
        s[i].id == id,
        forall|j: int| 0 <= j < i ==> s[j].id != id,
    ensures
        first_index(s, id) == i,
{
    lemma_first_index(s, id);
    let k = first_index(s, id);
    assert(has_id(s, id));
    if k < i {
        assert(s[k].id != id);
    }
    if k > i {
        assert(s[i].id != id);
    }
}

/// Filtering keeps a sequence whole when every element passes.
proof fn lemma_filter_keeps_all(s: Seq<TodoView>, id: Seq<char>)
    requires
        !has_id(s, id),
    ensures
        without_id(s, id) == s,
    decreases s.len(),
{
    reveal(Seq::filter);
    if s.len() > 0 {
        let p = s.drop_last();
        assert forall|i: int| 0 <= i < p.len() implies (#[trigger] p[i]).id != id by {
            assert(s[i] == p[i]);
        }
        lemma_filter_keeps_all(p, id);
        assert(s.last() == s[s.len() - 1]);
        assert(s.last().id != id);
        assert(p.push(s.last()) == s);
    }
}

/// The record added in step `i` of `states` has an id that no record had
/// before that step.
pub open spec fn fresh_at(states: Seq<Seq<TodoView>>, i: int) -> bool {
    !has_id(states[i], states[i + 1].last().id)
}

/// Adding records one after another: the records present before stay first
/// and in their order, and the new ones follow in the order they were added,
/// each with the title and description it was added with and not yet done.
/// Where the starting ids are distinct and each new id differs from those
/// present when it was added, all ids at the end are distinct.
pub proof fn lemma_adds_in_order(
    states: Seq<Seq<TodoView>>,
    requests: Seq<(Seq<char>, Option<Seq<char>>)>,
)
    requires
        states.len() == requests.len() + 1,
        forall|i: int|
            0 <= i < requests.len() ==> is_add_of(
                states[i],
                (#[trigger] requests[i]).0,
                requests[i].1,
                states[i + 1],
            ),
    ensures
        states.last().len() == states[0].len() + requests.len(),
        states.last().take(states[0].len() as int) == states[0],
        forall|i: int|
            0 <= i < requests.len() ==> {
                let t = states.last()[states[0].len() + i];
                &&& t.title == (#[trigger] requests[i]).0
                &&& t.description == requests[i].1
                &&& !t.completed
                &&& is_uuid_v4_text(t.id)
            },
        unique_ids(states[0]) && (forall|i: int|
            0 <= i < requests.len() ==> #[trigger] fresh_at(states, i))
            ==> unique_ids(states.last()),
    decreases requests.len(),
{
    let n = requests.len();
    let m = states[0].len();
    if n == 0 {
        assert(states.last().take(m as int) =~= states[0]);
    } else {
        let ps = states.drop_last();
        let pr = requests.drop_last();
        assert forall|i: int| 0 <= i < pr.len() implies is_add_of(
            ps[i],
            (#[trigger] pr[i]).0,
            pr[i].1,
            ps[i + 1],
        ) by {
            assert(requests[i] == pr[i]);
        }
        lemma_adds_in_order(ps, pr);
        let prev = states[n - 1];
        let last = states[n as int];
        assert(ps.last() == prev);
        assert(is_add_of(prev, requests[n - 1].0, requests[n - 1].1, last));
        assert(states.last() == last);
        assert(last.drop_last() == prev);
        assert forall|k: int| 0 <= k < prev.len() implies last[k] == prev[k] by {
            assert(last.drop_last()[k] == last[k]);
        }
        assert(last.take(m as int) =~= states[0]) by {
            assert forall|k: int| 0 <= k < m implies last[k] == states[0][k] by {
                assert(prev.take(m as int)[k] == prev[k]);
            }
        }
        assert forall|i: int| 0 <= i < requests.len() implies {
            let t = states.last()[states[0].len() + i];
            &&& t.title == (#[trigger] requests[i]).0
            &&& t.description == requests[i].1
            &&& !t.completed
            &&& is_uuid_v4_text(t.id)
        } by {
            if i < n - 1 {
                assert(pr[i] == requests[i]);
                assert(last[m + i] == prev[m + i]);
            } else {
                assert(last.last() == last[m + i]);
            }
        }
        if unique_ids(states[0]) && (forall|i: int|
            0 <= i < requests.len() ==> #[trigger] fresh_at(states, i)) {
            assert forall|i: int| 0 <= i < pr.len() implies #[trigger] fresh_at(ps, i) by {
                assert(fresh_at(states, i));
            }
            assert(unique_ids(prev));
            assert(fresh_at(states, n - 1));
            assert forall|i: int, j: int| 0 <= i < last.len() && 0 <= j < last.len() && i != j implies last[i].id != last[j].id by {
                if i < prev.len() && j < prev.len() {
                    assert(last[i] == prev[i] && last[j] == prev[j]);
                } else if i < prev.len() {
                    assert(last[i] == prev[i]);
                    assert(last[j] == last.last());
                } else {
                    assert(last[j] == prev[j]);
                    assert(last[i] == last.last());
                }
            }
        }
    }
}

/// Completing an id that a record has succeeds; completing it again succeeds
/// too and changes nothing more. After either, the first record with the id is
/// done.
pub proof fn lemma_complete_twice(s: Seq<TodoView>, id: Seq<char>)
    requires
        has_id(s, id),
    ensures
        has_id(completed_first(s, id), id),
        first_index(completed_first(s, id), id) == first_index(s, id),
        completed_first(s, id)[first_index(s, id)].completed,
        completed_first(completed_first(s, id), id) == completed_first(s, id),
{
    lemma_first_index(s, id);
    let k = first_index(s, id);
    let s1 = completed_first(s, id);
    assert(s1[k].id == id);
    lemma_first_index_at(s1, id, k);
    assert(completed_first(s1, id) =~= s1);
}

/// For an id that no record has, completing and deleting leave the records as
/// they are.
pub proof fn lemma_absent_id_unchanged(s: Seq<TodoView>, id: Seq<char>)
    requires
        !has_id(s, id),
    ensures
        completed_first(s, id) == s,
        without_id(s, id) == s,
{
    lemma_first_index(s, id);
    lemma_filter_keeps_all(s, id);
}

/// Returned by `complete_todo` and `delete_todo` when no record has the id.
#[derive(Clone, Debug)]
pub struct NotFound {
    pub id: String,
}

/// The records, in the order they were added.
#[derive(Debug)]
pub struct TodoList {
    todos: Vec<Todo>,
}

impl View for TodoList {
    type V = Seq<TodoView>;

    closed spec fn view(&self) -> Seq<TodoView> {
        self.todos@.map_values(|t: Todo| t@)
    }
}

impl TodoList {
    /// Well-formed: every record is.
    pub closed spec fn wf(&self) -> bool {
        forall|i: int| 0 <= i < self.todos@.len() ==> (#[trigger] self.todos@[i]).wf()
    }

    /// An empty store.
    pub fn new() -> (r: TodoList)
        ensures
            r.wf(),
            r@ == Seq::<TodoView>::empty(),
    {
        TodoList { todos: Vec::new() }
    }

    /// A store holding the given records in their order.
    pub fn from_todos(todos: Vec<Todo>) -> (r: TodoList)
        requires
            forall|i: int| 0 <= i < todos@.len() ==> (#[trigger] todos@[i]).wf(),
        ensures
            r.wf(),
            r@ == todos@.map_values(|t: Todo| t@),
    {
        TodoList { todos }
    }

    /// Appends a record at the end.
    pub fn push_todo(&mut self, todo: Todo)
        requires
            old(self).wf(),
            todo.wf(),
        ensures
            final(self).wf(),
            final(self)@ == old(self)@.push(todo@),
    {
        self.todos.push(todo);
        assert(self@ =~= old(self)@.push(todo@));
    }

    /// Creates a record with a fresh id, appends it, and returns a copy of it.
    pub fn add_todo(&mut self, title: String, description: Option<String>) -> (r: Todo)
        requires
            old(self).wf(),
        ensures
            final(self).wf(),
            is_add_of(old(self)@, title@, opt_view(description), final(self)@),
            r@ == final(self)@.last(),
    {
        let todo = Todo::new(title, description);
        let r = todo.duplicate();
        self.push_todo(todo);
        assert(self@.drop_last() =~= old(self)@);
        r
    }

    /// All records, in store order.
    pub fn list_todos(&self) -> (r: &Vec<Todo>)
        ensures
            r@.map_values(|t: Todo| t@) == self@,
            self.wf() ==> forall|i: int| 0 <= i < r@.len() ==> (#[trigger] r@[i]).wf(),
    {
        &self.todos
    }

    /// The number of records.
    pub fn len(&self) -> (r: usize)
        ensures
            r == self@.len(),
    {
        self.todos.len()
    }

    /// The position of the first record with the id, if any.
    fn find(&self, key: &String) -> (r: Option<usize>)
        ensures
            match r {
                Some(k) => k == first_index(self@, key@),
                None => !has_id(self@, key@),
            },
    {
        let mut i: usize = 0;
        while i < self.todos.len()
            invariant
                i <= self.todos@.len(),
                forall|j: int| 0 <= j < i ==> self@[j].id != key@,
            decreases self.todos@.len() - i,
        {
            if self.todos[i].id == *key {
                proof {
                    lemma_first_index_at(self@, key@, i as int);
                }
                return Some(i);
            }
            i = i + 1;
        }
        proof {
            if has_id(self@, key@) {
                let j = choose|j: int| 0 <= j < self@.len() && (#[trigger] self@[j]).id == key@;
                assert(self@[j].id != key@);
            }
        }
        None
    }

    /// Marks done the first record with the id. Fails with `NotFound`, and
    /// changes nothing, when no record has it.
    pub fn complete_todo(&mut self, id: &str) -> (r: Result<(), NotFound>)
        requires
            old(self).wf(),
        ensures
            final(self).wf(),
            r is Ok <==> has_id(old(self)@, id@),
            final(self)@ == completed_first(old(self)@, id@),
            match r {
                Ok(()) => true,
                Err(e) => e.id@ == id@,
            },
    {
        let key = id.to_owned();
        match self.find(&key) {
            Some(k) => {
                proof {
                    lemma_first_index(self@, key@);
                }
                let mut t = self.todos[k].duplicate();
                t.mark_completed();
                self.todos.set(k, t);
                assert(self@ =~= completed_first(old(self)@, id@));
                Ok(())
            },
            None => {
                proof {
                    lemma_first_index(self@, key@);
                }
                Err(NotFound { id: key })
            },
        }
    }

    /// Removes every record with the id, keeping the others in order. Fails
    /// with `NotFound`, and changes nothing, when no record has it.
    pub fn delete_todo(&mut self, id: &str) -> (r: Result<(), NotFound>)
        requires
            old(self).wf(),
        ensures
            final(self).wf(),
            r is Ok <==> has_id(old(self)@, id@),
            final(self)@ == without_id(old(self)@, id@),
            match r {
                Ok(()) => true,
                Err(e) => e.id@ == id@,
            },
    {
        let key = id.to_owned();
        let ghost s = self@;
        let ghost pred = |t: TodoView| t.id != key@;
        let mut kept: Vec<Todo> = Vec::new();
        let mut i: usize = 0;
        let n = self.todos.len();
        while i < n
            invariant
                n == self.todos@.len(),
                s == self@,
                pred == (|t: TodoView| t.id != key@),
                i <= n,
                self.wf(),
                kept@.map_values(|t: Todo| t@) == s.take(i as int).filter(pred),
                forall|j: int| 0 <= j < kept@.len() ==> (#[trigger] kept@[j]).wf(),
            decreases n - i,
        {
            let ghost prefix = s.take(i + 1);
            proof {
                reveal(Seq::filter);
                assert(prefix.drop_last() =~= s.take(i as int));
                assert(prefix.last() == self.todos@[i as int]@);
                assert(prefix.filter(pred) == if pred(prefix.last()) {
                    s.take(i as int).filter(pred).push(prefix.last())
                } else {
                    s.take(i as int).filter(pred)
                });
            }
            let same = self.todos[i].id == key;
            if !same {
                let ghost before = kept@;
                let d = self.todos[i].duplicate();
                kept.push(d);
                assert(kept@.map_values(|t: Todo| t@) =~= before.map_values(|t: Todo| t@).push(d@));
                assert(kept@.map_values(|t: Todo| t@) =~= prefix.filter(pred));
            }
            i = i + 1;
        }
        assert(s.take(n as int) =~= s);
        let removed = kept.len() < n;
        self.todos = kept;
        proof {
            assert(pred =~= (|t: TodoView| t.id != id@));
            if !has_id(s, id@) {
                lemma_filter_keeps_all(s, id@);
            } else {
                let j = choose|j: int| 0 <= j < s.len() && (#[trigger] s[j]).id == id@;
                lemma_filter_shorter(s, id@, j);
            }
        }
        if removed {
            Ok(())
        } else {
            Err(NotFound { id: key })
        }
    }
}

/// Filtering out an id that occurs makes the sequence shorter.
proof fn lemma_filter_shorter(s: Seq<TodoView>, id: Seq<char>, j: int)
    requires
        0 <= j < s.len(),
        s[j].id == id,
    ensures
        without_id(s, id).len() < s.len(),
    decreases s.len(),
{
    reveal(Seq::filter);
    let p = s.drop_last();
    let pred = |t: TodoView| t.id != id;
    p.lemma_filter_len(pred);
    let f = s.filter(pred);
    if pred(s.last()) {
        assert(f == p.filter(pred).push(s.last()));
    } else {
        assert(f == p.filter(pred));
    }
    if j < s.len() - 1 {
        assert(p[j] == s[j]);
        lemma_filter_shorter(p, id, j);
    }
}

} // verus!
