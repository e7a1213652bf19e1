//! The task list: fuzzy filtering over what is shown of each task, and a
//! selection that moves over the filtered list.

use vstd::prelude::*;

use crate::model::{command_line_of, Task, TaskView};
use crate::paths::{relative_dir, relative_dir_of};
use crate::text::{chars_of, push_char};
use super::keys::{Key, KeyCode};

verus! {

broadcast use vstd::string::group_string_axioms;

/// A character's code with ASCII capitals lowered, as
/// `char::to_ascii_lowercase` lowers them.
pub open spec fn ascii_lower_code(c: char) -> u32 {
    if 'A' <= c && c <= 'Z' {
        (c as u32 + 32) as u32
    } else {
        c as u32
    }
}

/// `char::eq_ignore_ascii_case`.
pub open spec fn same_letter(a: char, b: char) -> bool {
    ascii_lower_code(a) == ascii_lower_code(b)
}

/// Whether `query` matches `text`: its characters are found in `text` in
/// order, ignoring ASCII case, each at the earliest place after the last.
pub open spec fn fuzzy(text: Seq<char>, query: Seq<char>) -> bool
    decreases text.len(),
{
    if query.len() == 0 {
        true
    } else if text.len() == 0 {
        false
    } else if same_letter(text[0], query[0]) {
        fuzzy(text.drop_first(), query.drop_first())
    } else {
        fuzzy(text.drop_first(), query)
    }
}

/// `at` places each character of `query` at a position of `text` holding
/// the same letter, ignoring ASCII case, the positions increasing.
pub open spec fn embeds(text: Seq<char>, query: Seq<char>, at: Seq<int>) -> bool {
    &&& at.len() == query.len()
    &&& forall|i: int|
        0 <= i < at.len() ==> 0 <= #[trigger] at[i] < text.len() && same_letter(text[at[i]], query[i])
    &&& forall|i: int, j: int| 0 <= i < j < at.len() ==> #[trigger] at[i] < #[trigger] at[j]
}

proof fn lemma_embeds_shift_up(text: Seq<char>, query: Seq<char>, at: Seq<int>)
    requires
        text.len() > 0,
        embeds(text.drop_first(), query, at),
    ensures
        embeds(text, query, at.map_values(|k: int| k + 1)),
{
    let up = at.map_values(|k: int| k + 1);
    assert forall|i: int| 0 <= i < up.len() implies 0 <= #[trigger] up[i] < text.len()
        && same_letter(text[up[i]], query[i]) by {
        assert(text.drop_first()[at[i]] == text[at[i] + 1]);
    }
    assert forall|i: int, j: int| 0 <= i < j < up.len() implies #[trigger] up[i] < #[trigger] up[j] by {
        assert(at[i] < at[j]);
    }
}

proof fn lemma_embeds_shift_down(text: Seq<char>, query: Seq<char>, at: Seq<int>)
    requires
        text.len() > 0,
        embeds(text, query, at),
        forall|i: int| 0 <= i < at.len() ==> #[trigger] at[i] >= 1,
    ensures
        embeds(text.drop_first(), query, at.map_values(|k: int| k - 1)),
{
    let down = at.map_values(|k: int| k - 1);
    assert forall|i: int| 0 <= i < down.len() implies 0 <= #[trigger] down[i] < text.drop_first().len()
        && same_letter(text.drop_first()[down[i]], query[i]) by {
        assert(at[i] >= 1);
        assert(text.drop_first()[at[i] - 1] == text[at[i]]);
    }
    assert forall|i: int, j: int| 0 <= i < j < down.len() implies #[trigger] down[i]
        < #[trigger] down[j] by {
        assert(at[i] < at[j]);
    }
}

/// Matching is finding the query's characters in the text in order,
/// ignoring ASCII case: `fuzzy` holds exactly when such positions exist.
pub proof fn fuzzy_is_ordered_match(text: Seq<char>, query: Seq<char>)
    ensures
        fuzzy(text, query) <==> exists|at: Seq<int>| embeds(text, query, at),
    decreases text.len(),
{
    if query.len() == 0 {
        assert(embeds(text, query, Seq::<int>::empty()));
    } else if text.len() == 0 {
        assert forall|at: Seq<int>| !embeds(text, query, at) by {
            if embeds(text, query, at) {
                assert(0 <= at[0] < text.len());
            }
        }
    } else {
        let rest = text.drop_first();
        if same_letter(text[0], query[0]) {
            fuzzy_is_ordered_match(rest, query.drop_first());
            if fuzzy(text, query) {
                let at2 = choose|at: Seq<int>| embeds(rest, query.drop_first(), at);
                lemma_embeds_shift_up(text, query.drop_first(), at2);
                let up = at2.map_values(|k: int| k + 1);
                let at = seq![0int] + up;
                assert forall|i: int| 0 <= i < at.len() implies 0 <= #[trigger] at[i] < text.len()
                    && same_letter(text[at[i]], query[i]) by {
                    if i > 0 {
                        assert(at[i] == up[i - 1]);
                        assert(query.drop_first()[i - 1] == query[i]);
                    }
                }
                assert forall|i: int, j: int| 0 <= i < j < at.len() implies #[trigger] at[i]
                    < #[trigger] at[j] by {
                    if i > 0 {
                        assert(up[i - 1] < up[j - 1]);
                    } else {
                        assert(up[j - 1] >= 1);
                    }
                }
                assert(embeds(text, query, at));
            } else {
                assert forall|at: Seq<int>| !embeds(text, query, at) by {
                    if embeds(text, query, at) {
                        let tail = at.drop_first();
                        assert forall|i: int| 0 <= i < tail.len() implies #[trigger] tail[i] >= 1 by {
                            assert(at[0] < at[i + 1]);
                        }
                        assert(embeds(text, query.drop_first(), tail)) by {
                            assert forall|i: int| 0 <= i < tail.len() implies 0 <= #[trigger] tail[i]
                                < text.len() && same_letter(text[tail[i]], query.drop_first()[i]) by {
                                assert(tail[i] == at[i + 1]);
                            }
                            assert forall|i: int, j: int| 0 <= i < j < tail.len() implies #[trigger] tail[i]
                                < #[trigger] tail[j] by {
                                assert(at[i + 1] < at[j + 1]);
                            }
                        }
                        lemma_embeds_shift_down(text, query.drop_first(), tail);
                    }
                }
            }
        } else {
            fuzzy_is_ordered_match(rest, query);
            if fuzzy(text, query) {
                let at2 = choose|at: Seq<int>| embeds(rest, query, at);
                lemma_embeds_shift_up(text, query, at2);
            } else {
                assert forall|at: Seq<int>| !embeds(text, query, at) by {
                    if embeds(text, query, at) {
                        assert(at[0] != 0);
                        assert forall|i: int| 0 <= i < at.len() implies #[trigger] at[i] >= 1 by {
                            if i > 0 {
                                assert(at[0] < at[i]);
                            }
                        }
                        lemma_embeds_shift_down(text, query, at);
                    }
                }
            }
        }
    }
}

fn ascii_lower_code_exec(c: char) -> (r: u32)
    ensures
        r == ascii_lower_code(c),
{
    if 'A' <= c && c <= 'Z' {
        c as u32 + 32
    } else {
        c as u32
    }
}

/// Whether the characters of `query` appear in `text` in order, ignoring
/// ASCII case. The empty query matches every text.
pub fn fuzzy_matches(text: &str, query: &str) -> (r: bool)
    ensures
        r == fuzzy(text@, query@),
{
    let t = chars_of(text);
    let q = chars_of(query);
    let mut i: usize = 0;
    let mut j: usize = 0;
    assert(t@.skip(0) =~= t@);
    assert(q@.skip(0) =~= q@);
    while i < t.len()
        invariant
            i <= t@.len(),
            j <= q@.len(),
            t@ == text@,
            q@ == query@,
            fuzzy(text@, query@) == fuzzy(t@.skip(i as int), q@.skip(j as int)),
        decreases t@.len() - i,
    {
        if j == q.len() {
            return true;
        }
        assert(t@.skip(i as int)[0] == t@[i as int]);
        assert(q@.skip(j as int)[0] == q@[j as int]);
        assert(t@.skip(i as int).drop_first() =~= t@.skip(i + 1));
        if ascii_lower_code_exec(t[i]) == ascii_lower_code_exec(q[j]) {
            assert(q@.skip(j as int).drop_first() =~= q@.skip(j + 1));
            j = j + 1;
        }
        i = i + 1;
    }
    j == q.len()
}

/// How a task is shown in the list: its directory relative to the root, in
/// brackets, then its command line.
pub open spec fn display_of(root: Seq<char>, t: TaskView) -> Seq<char> {
    seq!['('] + relative_dir_of(root, t.cwd) + seq![')', ' '] + command_line_of(t)
}

/// How a task is shown in the list: `(<directory>) <command line>`, the
/// directory relative to the scan root.
pub fn display_text(root: &str, task: &Task) -> (r: String)
    ensures
        r@ == display_of(root@, task@),
{
    let mut r = String::new();
    push_char(&mut r, '(');
    let dir = relative_dir(root, task.cwd.as_str());
    r.append(dir.as_str());
    push_char(&mut r, ')');
    push_char(&mut r, ' ');
    let line = task.command_line();
    r.append(line.as_str());
    assert(r@ =~= display_of(root@, task@));
    r
}

/// `at` places each character of `small` at a position of `big` holding
/// that same character, the positions increasing.
pub open spec fn places(small: Seq<char>, big: Seq<char>, at: Seq<int>) -> bool {
    &&& at.len() == small.len()
    &&& forall|i: int| 0 <= i < at.len() ==> 0 <= #[trigger] at[i] < big.len() && big[at[i]] == small[i]
    &&& forall|i: int, j: int| 0 <= i < j < at.len() ==> #[trigger] at[i] < #[trigger] at[j]
}

/// Whether `small` is found in `big` in order, possibly with gaps.
pub open spec fn is_subsequence(small: Seq<char>, big: Seq<char>) -> bool {
    exists|at: Seq<int>| places(small, big, at)
}

/// A match survives dropping characters from the query and adding
/// characters to the text: a query drawn from a matching query, in order,
/// matches every text that holds the matched text in order.
pub proof fn fuzzy_is_monotone(text: Seq<char>, query: Seq<char>, text2: Seq<char>, query2: Seq<char>)
    requires
        fuzzy(text, query),
        is_subsequence(query2, query),
        is_subsequence(text, text2),
    ensures
        fuzzy(text2, query2),
{
    fuzzy_is_ordered_match(text, query);
    fuzzy_is_ordered_match(text2, query2);
    let at = choose|at: Seq<int>| embeds(text, query, at);
    let sub = choose|at: Seq<int>| places(query2, query, at);
    let pos = choose|at: Seq<int>| places(text, text2, at);
    let at2 = Seq::new(query2.len(), |i: int| pos[at[sub[i]]]);
    assert forall|i: int| 0 <= i < at2.len() implies 0 <= #[trigger] at2[i] < text2.len()
        && same_letter(text2[at2[i]], query2[i]) by {
        let k = sub[i];
        assert(0 <= k < query.len());
        assert(0 <= at[k] < text.len());
        assert(same_letter(text[at[k]], query[k]));
        assert(text2[pos[at[k]]] == text[at[k]]);
        assert(query[k] == query2[i]);
    }
    assert forall|i: int, j: int| 0 <= i < j < at2.len() implies #[trigger] at2[i] < #[trigger] at2[j] by {
        assert(sub[i] < sub[j]);
        assert(0 <= sub[j] < query.len());
        assert(at[sub[i]] < at[sub[j]]);
        assert(0 <= at[sub[j]] < text.len());
        assert(pos[at[sub[i]]] < pos[at[sub[j]]]);
    }
    assert(embeds(text2, query2, at2));
}

/// Whether a task is listed under `query`.
pub open spec fn listed(root: Seq<char>, query: Seq<char>) -> spec_fn(Task) -> bool {
    |t: Task| fuzzy(display_of(root, t@), query)
}

/// The tasks listed under `query`, in order.
pub open spec fn filtered(root: Seq<char>, tasks: Seq<Task>, query: Seq<char>) -> Seq<Task> {
    tasks.filter(listed(root, query))
}

/// The tasks whose shown text the query matches, in order.
pub fn filtered_tasks<'a>(root: &str, tasks: &'a [Task], query: &str) -> (r: Vec<&'a Task>)
    ensures
        r@.map_values(|t: &Task| *t) == filtered(root@, tasks@, query@),
{
    let ghost pred = listed(root@, query@);
    let mut r: Vec<&'a Task> = Vec::new();
    let mut i: usize = 0;
    assert(tasks@.take(0).filter(pred) =~= Seq::<Task>::empty()) by {
        reveal(Seq::filter);
    }
    while i < tasks.len()
        invariant
            i <= tasks@.len(),
            pred == listed(root@, query@),
            r@.map_values(|t: &Task| *t) =~= tasks@.take(i as int).filter(pred),
        decreases tasks@.len() - i,
    {
        let task = &tasks[i];
        let shown = display_text(root, task);
        assert(tasks@.take(i + 1) =~= tasks@.take(i as int).push(tasks@[i as int]));
        proof {
            tasks@.take(i as int).lemma_filter_push(tasks@[i as int], pred);
        }
        let ghost before = r@;
        if fuzzy_matches(shown.as_str(), query) {
            r.push(task);
            assert(r@.map_values(|t: &Task| *t) =~= before.map_values(|t: &Task| *t).push(
                *task,
            ));
        }
        i = i + 1;
    }
    assert(tasks@.take(i as int) =~= tasks@);
    r
}

/// With no query every task is listed, in order.
pub proof fn empty_query_lists_every_task(root: Seq<char>, tasks: Seq<Task>)
    ensures
        filtered(root, tasks, Seq::empty()) == tasks,
    decreases tasks.len(),
{
    reveal(Seq::filter);
    if tasks.len() > 0 {
        empty_query_lists_every_task(root, tasks.drop_last());
        assert(tasks.drop_last().push(tasks.last()) =~= tasks);
    }
}

// ---------------------------------------------------------------------
// The picker
// ---------------------------------------------------------------------

/// A filterable, selectable list of tasks.
///
/// `query` is the filter typed so far; while `searching`, keys edit it.
/// `selected` is the position of the selection in the filtered list, where
/// one was made.
#[derive(Debug)]
pub struct TaskPicker {
    pub query: Vec<char>,
    pub searching: bool,
    pub selected: Option<usize>,
}

/// The selected position, the first where none was made.
pub open spec fn position(selected: Option<usize>) -> int {
    match selected {
        Some(i) => i as int,
        None => 0,
    }
}

/// The task at the selected position of the filtered list, where there is
/// one.
pub open spec fn selected_of(
    root: Seq<char>,
    tasks: Seq<Task>,
    query: Seq<char>,
    selected: Option<usize>,
) -> Option<Task> {
    let f = filtered(root, tasks, query);
    let i = position(selected);
    if i < f.len() {
        Some(f[i])
    } else {
        None
    }
}

/// The selection one further down a list of `count` items, stopping at
/// the last.
pub open spec fn moved_down(selected: Option<usize>, count: nat) -> Option<usize> {
    let last = if count == 0 {
        0
    } else {
        count - 1
    };
    let next = position(selected) + 1;
    Some((if next < last {
        next
    } else {
        last
    }) as usize)
}

/// The selection one further up, stopping at the first.
pub open spec fn moved_up(selected: Option<usize>) -> Option<usize> {
    Some((if position(selected) > 0 {
        position(selected) - 1
    } else {
        0
    }) as usize)
}

/// What a key does while the query is being typed: Esc or Enter end the
/// typing; Backspace removes the last character, Ctrl-U clears the query,
/// and other characters without Control are appended, each selecting the
/// first item.
pub open spec fn search_step(
    query: Seq<char>,
    selected: Option<usize>,
    key: Key,
    query2: Seq<char>,
    searching2: bool,
    selected2: Option<usize>,
) -> bool {
    match key.code {
        KeyCode::Esc => query2 == query && !searching2 && selected2 == selected,
        KeyCode::Enter => query2 == query && !searching2 && selected2 == selected,
        KeyCode::Backspace => query2 == (if query.len() > 0 {
            query.drop_last()
        } else {
            query
        }) && searching2 && selected2 == Some(0usize),
        KeyCode::Char(c) => if c == 'u' && key.ctrl {
            query2 == Seq::<char>::empty() && searching2 && selected2 == Some(0usize)
        } else if !key.ctrl {
            query2 == query.push(c) && searching2 && selected2 == Some(0usize)
        } else {
            query2 == query && searching2 && selected2 == selected
        },
        _ => query2 == query && searching2 && selected2 == selected,
    }
}

/// What a key does to the selection while browsing a list of `count`
/// items: `/` starts typing the query; `j`, Down and Ctrl-N move down; `k`
/// and Up move up.
pub open spec fn browse_step(
    selected: Option<usize>,
    count: nat,
    key: Key,
    searching2: bool,
    selected2: Option<usize>,
) -> bool {
    match key.code {
        KeyCode::Char(c) => if c == '/' {
            searching2 && selected2 == selected
        } else if c == 'j' || (c == 'n' && key.ctrl) {
            !searching2 && selected2 == moved_down(selected, count)
        } else if c == 'k' {
            !searching2 && selected2 == moved_up(selected)
        } else {
            !searching2 && selected2 == selected
        },
        KeyCode::Down => !searching2 && selected2 == moved_down(selected, count),
        KeyCode::Up => !searching2 && selected2 == moved_up(selected),
        _ => !searching2 && selected2 == selected,
    }
}

/// Browsing never moves the selection off a non-empty list.
pub proof fn browsing_keeps_selection_in_list(
    selected: Option<usize>,
    count: nat,
    key: Key,
    searching2: bool,
    selected2: Option<usize>,
)
    requires
        count > 0,
        position(selected) < count,
        browse_step(selected, count, key, searching2, selected2),
    ensures
        position(selected2) < count,
{
}

/// While the query is typed, Backspace takes off exactly its last
/// character, and a character typed without Control is added at its end;
/// the picker stays in typing and hands nothing back.
pub proof fn typing_edits_the_end_of_the_query(
    old: TaskPicker,
    new: TaskPicker,
    key: Key,
    root: Seq<char>,
    tasks: Seq<Task>,
    r: Option<Task>,
)
    requires
        old.searching,
        picker_step(old, new, key, root, tasks, r),
    ensures
        r is None,
        key.code == KeyCode::Backspace && old.query@.len() > 0 ==> {
            &&& new.searching
            &&& new.query@.len() == old.query@.len() - 1
            &&& forall|i: int| 0 <= i < new.query@.len() ==> new.query@[i] == old.query@[i]
        },
        key.code == KeyCode::Backspace && old.query@.len() == 0 ==> new.query@.len() == 0,
        (key.code matches KeyCode::Char(c) && c != 'u' && !key.ctrl) ==> {
            &&& new.searching
            &&& new.query@.len() == old.query@.len() + 1
            &&& forall|i: int| 0 <= i < old.query@.len() ==> new.query@[i] == old.query@[i]
            &&& key.code == KeyCode::Char(new.query@.last())
        },
{
}

/// The view of an optional task.
pub open spec fn task_opt_view(t: Option<Task>) -> Option<TaskView> {
    match t {
        Some(x) => Some(x@),
        None => None,
    }
}

/// What a key does to a picker, and what it hands back: while typing, the
/// query is edited (`search_step`) and nothing is handed back; otherwise
/// the selection moves (`browse_step`), and Enter hands back a copy of the
/// selected task.
pub open spec fn picker_step(
    old: TaskPicker,
    new: TaskPicker,
    key: Key,
    root: Seq<char>,
    tasks: Seq<Task>,
    r: Option<Task>,
) -> bool {
    if old.searching {
        r is None && search_step(
            old.query@,
            old.selected,
            key,
            new.query@,
            new.searching,
            new.selected,
        )
    } else {
        &&& new.query == old.query
        &&& browse_step(
            old.selected,
            filtered(root, tasks, old.query@).len(),
            key,
            new.searching,
            new.selected,
        )
        &&& if key.code == KeyCode::Enter {
            task_opt_view(r) == task_opt_view(selected_of(root, tasks, old.query@, old.selected))
        } else {
            r is None
        }
    }
}

/// While browsing, Down moves the selection one place down the filtered
/// list (staying on its last item), Up one place up (staying on the first),
/// `/` starts typing the query, and Enter hands back a copy of the task at
/// the selection; the query stays as it is.
pub proof fn browsing_moves_one_place(
    old: TaskPicker,
    new: TaskPicker,
    key: Key,
    root: Seq<char>,
    tasks: Seq<Task>,
    r: Option<Task>,
)
    requires
        !old.searching,
        picker_step(old, new, key, root, tasks, r),
    ensures
        new.query == old.query,
        ({
            let count = filtered(root, tasks, old.query@).len();
            let at = position(old.selected);
            &&& key.code == KeyCode::Down && 0 <= at && at + 1 < count ==> new.selected == Some(
                (at + 1) as usize,
            ) && !new.searching
            &&& key.code == KeyCode::Down && count > 0 && at + 1 >= count ==> new.selected == Some(
                (count - 1) as usize,
            )
            &&& key.code == KeyCode::Up && at > 0 ==> new.selected == Some((at - 1) as usize)
                && !new.searching
            &&& key.code == KeyCode::Up && at == 0 ==> new.selected == Some(0usize)
            &&& key.code == KeyCode::Char('/') ==> new.searching && new.selected == old.selected
            &&& key.code == KeyCode::Enter && 0 <= at < count ==> (r matches Some(t) && t@
                == filtered(root, tasks, old.query@)[at]@)
            &&& key.code != KeyCode::Enter ==> r is None
        }),
{
}

impl TaskPicker {
    /// A picker with an empty query, not typing, and nothing selected.
    pub fn new() -> (r: TaskPicker)
        ensures
            r.query@.len() == 0,
            !r.searching,
            r.selected is None,
    {
        TaskPicker { query: Vec::new(), searching: false, selected: None }
    }

    /// Whether keys currently edit the query.
    pub fn is_searching(&self) -> (r: bool)
        ensures
            r == self.searching,
    {
        self.searching
    }

    /// The query typed so far.
    pub fn query_text(&self) -> (r: String)
        ensures
            r@ == self.query@,
    {
        crate::text::string_from_chars(self.query.as_slice())
    }

    /// The task at the selected position of the filtered list.
    pub fn selected_task<'a>(&self, root: &str, tasks: &'a [Task]) -> (r: Option<&'a Task>)
        ensures
            match r {
                Some(t) => selected_of(root@, tasks@, self.query@, self.selected) == Some(*t),
                None => selected_of(root@, tasks@, self.query@, self.selected) is None,
            },
    {
        let index = match self.selected {
            Some(i) => i,
            None => 0,
        };
        let query = self.query_text();
        let listed = filtered_tasks(root, tasks, query.as_str());
        proof {
            let f = filtered(root@, tasks@, self.query@);
            assert(listed@.len() == f.len()) by {
                assert(listed@.map_values(|t: &Task| *t).len() == listed@.len());
            }
        }
        if index < listed.len() {
            let t = listed[index];
            assert(t == listed@.map_values(|t: &Task| *t)[index as int]);
            Some(t)
        } else {
            None
        }
    }

    /// Keeps the selection within a list of `item_count` items: none for an
    /// empty list, else the selected position, or the last item where it is
    /// past the end.
    pub fn normalize_selection(&mut self, item_count: usize)
        ensures
            final(self).query == old(self).query,
            final(self).searching == old(self).searching,
            final(self).selected == if item_count == 0 {
                None
            } else {
                Some(
                    (if position(old(self).selected) < item_count - 1 {
                        position(old(self).selected)
                    } else {
                        item_count - 1
                    }) as usize,
                )
            },
    {
        if item_count == 0 {
            self.selected = None;
        } else {
            let i = match self.selected {
                Some(i) => i,
                None => 0,
            };
            self.selected = Some(if i < item_count - 1 { i } else { item_count - 1 });
        }
    }

    fn move_down(&mut self, count: usize)
        ensures
            final(self).query == old(self).query,
            final(self).searching == old(self).searching,
            final(self).selected == moved_down(old(self).selected, count as nat),
    {
        let last = if count == 0 { 0 } else { count - 1 };
        let i = match self.selected {
            Some(i) => i,
            None => 0,
        };
        self.selected = Some(if i < last { i + 1 } else { last });
    }

    fn move_up(&mut self)
        ensures
            final(self).query == old(self).query,
            final(self).searching == old(self).searching,
            final(self).selected == moved_up(old(self).selected),
    {
        let i = match self.selected {
            Some(i) => i,
            None => 0,
        };
        self.selected = Some(if i > 0 { i - 1 } else { 0 });
    }

    /// Handles a key: while typing, it edits the query; otherwise it moves
    /// the selection, starts typing on `/`, and on Enter hands back a copy of
    /// the selected task.
    pub fn handle_key(&mut self, key: Key, root: &str, tasks: &[Task]) -> (r: Option<Task>)
        ensures
            picker_step(*old(self), *final(self), key, root@, tasks@, r),
    {
        if self.searching {
            match key.code {
                KeyCode::Esc => self.searching = false,
                KeyCode::Enter => self.searching = false,
                KeyCode::Backspace => {
                    self.query.pop();
                    self.selected = Some(0);
                },
                KeyCode::Char(c) => {
                    if c == 'u' && key.ctrl {
                        self.query.clear();
                        self.selected = Some(0);
                    } else if !key.ctrl {
                        self.query.push(c);
                        self.selected = Some(0);
                    }
                },
                _ => {},
            }
            return None;
        }
        let count = {
            let query = self.query_text();
            filtered_tasks(root, tasks, query.as_str()).len()
        };
        match key.code {
            KeyCode::Char(c) => {
                if c == '/' {
                    self.searching = true;
                } else if c == 'j' || (c == 'n' && key.ctrl) {
                    self.move_down(count);
                } else if c == 'k' {
                    self.move_up();
                }
                None
            },
            KeyCode::Down => {
                self.move_down(count);
                None
            },
            KeyCode::Up => {
                self.move_up();
                None
            },
            KeyCode::Enter => match self.selected_task(root, tasks) {
                Some(t) => Some(t.clone()),
                None => None,
            },
            _ => None,
        }
    }
}

} // verus!
