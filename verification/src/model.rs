//! Tasks, workspaces and the command lines that show them.

use vstd::prelude::*;

use crate::text::{
    chars_of, join_with, lemma_text_le_total, lemma_text_le_transitive, push_char, text_le,
    text_le_exec,
};

verus! {

broadcast use vstd::string::group_string_axioms;

/// A command that a workspace offers.
///
/// `cwd` is the directory the command runs in; `content` is what the
/// manifest says the task does, where it says so.
#[derive(Debug, PartialEq, Eq)]
pub struct Task {
    pub name: String,
    pub cwd: String,
    pub command: String,
    pub args: Vec<String>,
    pub content: Option<String>,
}

/// What a task is, in terms of text.
pub struct TaskView {
    pub name: Seq<char>,
    pub cwd: Seq<char>,
    pub command: Seq<char>,
    pub args: Seq<Seq<char>>,
    pub content: Option<Seq<char>>,
}

/// The text of an optional string.
pub open spec fn opt_text(s: Option<String>) -> Option<Seq<char>> {
    match s {
        Some(x) => Some(x@),
        None => None,
    }
}

/// The texts of a list of strings.
pub open spec fn texts(v: Seq<String>) -> Seq<Seq<char>> {
    v.map_values(|a: String| a@)
}

impl View for Task {
    type V = TaskView;

    open spec fn view(&self) -> TaskView {
        TaskView {
            name: self.name@,
            cwd: self.cwd@,
            command: self.command@,
            args: texts(self.args@),
            content: opt_text(self.content),
        }
    }
}

impl Clone for Task {
    fn clone(&self) -> (r: Self)
        ensures
            r@ == self@,
    {
        let mut args: Vec<String> = Vec::new();
        let mut i: usize = 0;
        while i < self.args.len()
            invariant
                i <= self.args@.len(),
                texts(args@) =~= texts(self.args@).take(i as int),
            decreases self.args@.len() - i,
        {
            let ghost before = args@;
            args.push(self.args[i].clone());
            assert(texts(args@) =~= texts(before).push(self.args@[i as int]@));
            i = i + 1;
        }
        assert(texts(self.args@).take(i as int) =~= texts(self.args@));
        let content = match &self.content {
            Some(c) => Some(c.clone()),
            None => None,
        };
        Task {
            name: self.name.clone(),
            cwd: self.cwd.clone(),
            command: self.command.clone(),
            args,
            content,
        }
    }
}

/// The views of a list of tasks.
pub open spec fn task_views(ts: Seq<Task>) -> Seq<TaskView> {
    ts.map_values(|t: Task| t@)
}

/// The tool whose manifest a workspace was found through.
#[derive(Clone, Copy, Debug, PartialEq, Eq, Structural)]
pub enum Provider {
    Yobiko,
    Cargo,
    DockerCompose,
    Go,
    Npm,
    Mise,
    Uv,
}

/// A directory together with the tasks that one provider offers in it.
#[derive(Debug)]
pub struct Workspace {
    pub dir: String,
    pub provider: Provider,
    pub tasks: Vec<Task>,
}

/// A problem found in a manifest, with the manifest's path.
#[derive(Debug)]
pub struct Diagnostic {
    pub path: String,
    pub message: String,
}

// ---------------------------------------------------------------------
// Provider names
// ---------------------------------------------------------------------

/// The name under which a provider is shown.
pub open spec fn provider_name(p: Provider) -> Seq<char> {
    match p {
        Provider::Yobiko => "yobiko"@,
        Provider::Cargo => "cargo"@,
        Provider::DockerCompose => "docker-compose"@,
        Provider::Go => "go"@,
        Provider::Npm => "npm"@,
        Provider::Mise => "mise"@,
        Provider::Uv => "uv"@,
    }
}

impl Provider {
    /// The name under which this provider is shown.
    pub fn name(&self) -> (r: &'static str)
        ensures
            r@ == provider_name(*self),
    {
        match self {
            Provider::Yobiko => "yobiko",
            Provider::Cargo => "cargo",
            Provider::DockerCompose => "docker-compose",
            Provider::Go => "go",
            Provider::Npm => "npm",
            Provider::Mise => "mise",
            Provider::Uv => "uv",
        }
    }
}

// ---------------------------------------------------------------------
// Shell quoting
// ---------------------------------------------------------------------

/// Characters that a POSIX shell reads literally outside quotes.
pub open spec fn is_shell_safe_char(c: char) -> bool {
    ||| ('a' <= c && c <= 'z')
    ||| ('A' <= c && c <= 'Z')
    ||| ('0' <= c && c <= '9')
    ||| c == '_' || c == '@' || c == '%' || c == '+' || c == '='
    ||| c == ':' || c == ',' || c == '.' || c == '/' || c == '-'
}

/// A word that needs no quoting: non-empty and made of safe characters.
pub open spec fn is_shell_safe(s: Seq<char>) -> bool {
    &&& s.len() > 0
    &&& forall|i: int| 0 <= i < s.len() ==> is_shell_safe_char(#[trigger] s[i])
}

/// How one character is written inside single quotes: a quote closes the
/// quoting, is written escaped, and reopens it.
pub open spec fn quoted_piece(c: char) -> Seq<char> {
    if c == '\'' {
        seq!['\'', '\\', '\'', '\'']
    } else {
        seq![c]
    }
}

/// The body of a single-quoted word.
pub open spec fn escape_quotes(s: Seq<char>) -> Seq<char>
    decreases s.len(),
{
    if s.len() == 0 {
        Seq::empty()
    } else {
        quoted_piece(s[0]) + escape_quotes(s.drop_first())
    }
}

/// How a word is written so that a POSIX shell reads it back as one word.
pub open spec fn shell_quoted(s: Seq<char>) -> Seq<char> {
    if is_shell_safe(s) {
        s
    } else {
        seq!['\''] + escape_quotes(s) + seq!['\'']
    }
}


/// The words that a task executes: its command, then its arguments.
pub open spec fn task_words(t: TaskView) -> Seq<Seq<char>> {
    seq![t.command] + t.args
}

/// The command line that shows a task.
pub open spec fn command_line_of(t: TaskView) -> Seq<char> {
    join_with(task_words(t).map_values(|w: Seq<char>| shell_quoted(w)), seq![' '])
}

proof fn lemma_escape_push(s: Seq<char>, c: char)
    ensures
        escape_quotes(s.push(c)) == escape_quotes(s) + quoted_piece(c),
    decreases s.len(),
{
    if s.len() == 0 {
        assert(s.push(c).drop_first() =~= Seq::<char>::empty());
        assert(escape_quotes(s.push(c).drop_first()) == Seq::<char>::empty());
        assert(escape_quotes(s.push(c)) =~= quoted_piece(c));
    } else {
        lemma_escape_push(s.drop_first(), c);
        assert(s.push(c).drop_first() =~= s.drop_first().push(c));
        assert(escape_quotes(s.push(c)) =~= escape_quotes(s) + quoted_piece(c));
    }
}

fn is_shell_safe_char_exec(c: char) -> (r: bool)
    ensures
        r == is_shell_safe_char(c),
{
    ('a' <= c && c <= 'z') || ('A' <= c && c <= 'Z') || ('0' <= c && c <= '9') || c == '_' || c
        == '@' || c == '%' || c == '+' || c == '=' || c == ':' || c == ',' || c == '.' || c == '/'
        || c == '-'
}

/// Writes `value` so that a POSIX shell reads it back as one word: as it
/// is when it is non-empty and made of safe characters, else in single
/// quotes with each quote written as `'\''`.
pub fn shell_quote(value: &str) -> (r: String)
    ensures
        r@ == shell_quoted(value@),
{
    let chars = chars_of(value);
    let mut safe = chars.len() > 0;
    let mut i: usize = 0;
    while i < chars.len()
        invariant
            i <= chars@.len(),
            chars@ == value@,
            safe == (chars@.len() > 0 && forall|j: int| 0 <= j < i ==> is_shell_safe_char(
                #[trigger] chars@[j],
            )),
        decreases chars@.len() - i,
    {
        if !is_shell_safe_char_exec(chars[i]) {
            safe = false;
        }
        i = i + 1;
    }
    if safe {
        return String::from_str(value);
    }
    let mut r = String::new();
    push_char(&mut r, '\'');
    let mut k: usize = 0;
    while k < chars.len()
        invariant
            k <= chars@.len(),
            chars@ == value@,
            r@ == seq!['\''] + escape_quotes(chars@.subrange(0, k as int)),
        decreases chars@.len() - k,
    {
        let c = chars[k];
        proof {
            lemma_escape_push(chars@.subrange(0, k as int), c);
            assert(chars@.subrange(0, k as int).push(c) =~= chars@.subrange(0, k + 1));
        }
        if c == '\'' {
            push_char(&mut r, '\'');
            push_char(&mut r, '\\');
            push_char(&mut r, '\'');
            push_char(&mut r, '\'');
        } else {
            push_char(&mut r, c);
        }
        assert(r@ =~= seq!['\''] + escape_quotes(chars@.subrange(0, k + 1)));
        k = k + 1;
    }
    push_char(&mut r, '\'');
    assert(chars@.subrange(0, chars@.len() as int) =~= chars@);
    r
}

// ---------------------------------------------------------------------
// Reading a command line back
// ---------------------------------------------------------------------

/// How a POSIX shell splits text made of plain characters, single-quoted
/// spans and backslash escapes into words, starting with `word` read so far
/// (`in_word` says whether a word has started) and `quoted` saying whether
/// a single-quoted span is open.
pub open spec fn sh_split(s: Seq<char>, word: Seq<char>, in_word: bool, quoted: bool) -> Seq<
    Seq<char>,
>
    decreases s.len(),
{
    if s.len() == 0 {
        if in_word {
            seq![word]
        } else {
            Seq::empty()
        }
    } else {
        let c = s[0];
        let rest = s.drop_first();
        if quoted {
            if c == '\'' {
                sh_split(rest, word, true, false)
            } else {
                sh_split(rest, word.push(c), true, true)
            }
        } else if c == ' ' {
            if in_word {
                seq![word] + sh_split(rest, Seq::empty(), false, false)
            } else {
                sh_split(rest, Seq::empty(), false, false)
            }
        } else if c == '\'' {
            sh_split(rest, word, true, true)
        } else if c == '\\' && rest.len() > 0 {
            sh_split(rest.drop_first(), word.push(rest[0]), true, false)
        } else {
            sh_split(rest, word.push(c), true, false)
        }
    }
}

/// The words a POSIX shell reads from a line.
pub open spec fn shell_words(line: Seq<char>) -> Seq<Seq<char>> {
    sh_split(line, Seq::empty(), false, false)
}

proof fn lemma_read_safe(w: Seq<char>, t: Seq<char>, word: Seq<char>, in_word: bool)
    requires
        forall|i: int| 0 <= i < w.len() ==> is_shell_safe_char(#[trigger] w[i]),
    ensures
        sh_split(w + t, word, in_word, false) == sh_split(t, word + w, in_word || w.len() > 0, false),
    decreases w.len(),
{
    if w.len() == 0 {
        assert(w + t =~= t);
        assert(word + w =~= word);
    } else {
        assert(is_shell_safe_char(w[0]));
        assert((w + t)[0] == w[0]);
        assert((w + t).drop_first() =~= w.drop_first() + t);
        lemma_read_safe(w.drop_first(), t, word.push(w[0]), true);
        assert(word.push(w[0]) + w.drop_first() =~= word + w);
    }
}

proof fn lemma_read_escaped(w: Seq<char>, u: Seq<char>, word: Seq<char>)
    ensures
        sh_split(escape_quotes(w) + u, word, true, true) == sh_split(u, word + w, true, true),
    decreases w.len(),
{
    if w.len() == 0 {
        assert(escape_quotes(w) + u =~= u);
        assert(word + w =~= word);
    } else {
        let rest = w.drop_first();
        let piece = quoted_piece(w[0]);
        assert(escape_quotes(w) + u =~= piece + (escape_quotes(rest) + u));
        lemma_read_escaped(rest, u, word.push(w[0]));
        assert(word.push(w[0]) + rest =~= word + w);
        let v = escape_quotes(rest) + u;
        if w[0] == '\'' {
            let s0 = piece + v;
            assert(s0[0] == '\'');
            assert(s0.drop_first() =~= seq!['\\', '\'', '\''] + v);
            let s1 = s0.drop_first();
            assert(s1[0] == '\\');
            assert(s1.drop_first() =~= seq!['\'', '\''] + v);
            assert(s1.drop_first()[0] == '\'');
            assert(s1.drop_first().drop_first() =~= seq!['\''] + v);
            let s3 = s1.drop_first().drop_first();
            assert(s3[0] == '\'');
            assert(s3.drop_first() =~= v);
            assert(sh_split(s0, word, true, true) == sh_split(s1, word, true, false));
            assert(sh_split(s1, word, true, false) == sh_split(s3, word.push('\''), true, false));
            assert(sh_split(s3, word.push('\''), true, false) == sh_split(
                v,
                word.push('\''),
                true,
                true,
            ));
        } else {
            assert((piece + v)[0] == w[0]);
            assert((piece + v).drop_first() =~= v);
            assert(sh_split(piece + v, word, true, true) == sh_split(v, word.push(w[0]), true, true));
        }
    }
}

proof fn lemma_read_quoted_word(w: Seq<char>, t: Seq<char>)
    ensures
        sh_split(shell_quoted(w) + t, Seq::empty(), false, false) == sh_split(t, w, true, false),
{
    if is_shell_safe(w) {
        lemma_read_safe(w, t, Seq::empty(), false);
        assert(Seq::<char>::empty() + w =~= w);
    } else {
        let body = escape_quotes(w) + (seq!['\''] + t);
        assert(shell_quoted(w) + t =~= seq!['\''] + body);
        assert((seq!['\''] + body).drop_first() =~= body);
        lemma_read_escaped(w, seq!['\''] + t, Seq::empty());
        assert(Seq::<char>::empty() + w =~= w);
        assert((seq!['\''] + t).drop_first() =~= t);
    }
}

proof fn lemma_join_front(a: Seq<char>, rest: Seq<Seq<char>>)
    requires
        rest.len() > 0,
    ensures
        join_with(seq![a] + rest, seq![' ']) == a + seq![' '] + join_with(rest, seq![' ']),
    decreases rest.len(),
{
    let all = seq![a] + rest;
    if rest.len() == 1 {
        assert(all.drop_last() =~= seq![a]);
        assert(all.last() == rest[0]);
        assert(join_with(seq![a], seq![' ']) == a);
        assert(join_with(rest, seq![' ']) == rest[0]);
    } else {
        assert(join_with(rest, seq![' ']) == join_with(rest.drop_last(), seq![' ']) + seq![' ']
            + rest.last());
        lemma_join_front(a, rest.drop_last());
        assert(all.drop_last() =~= seq![a] + rest.drop_last());
        assert(all.last() == rest.last());
        assert(join_with(all, seq![' ']) =~= a + seq![' '] + join_with(rest, seq![' ']));
    }
}

proof fn lemma_read_words(words: Seq<Seq<char>>)
    requires
        words.len() > 0,
    ensures
        shell_words(join_with(words.map_values(|w: Seq<char>| shell_quoted(w)), seq![' ']))
            == words,
    decreases words.len(),
{
    let q = words.map_values(|w: Seq<char>| shell_quoted(w));
    if words.len() == 1 {
        assert(join_with(q, seq![' ']) == shell_quoted(words[0]));
        lemma_read_quoted_word(words[0], Seq::empty());
        assert(shell_quoted(words[0]) + Seq::<char>::empty() =~= shell_quoted(words[0]));
        assert(seq![words[0]] =~= words);
    } else {
        let rest = words.drop_first();
        let qr = rest.map_values(|w: Seq<char>| shell_quoted(w));
        assert(q =~= seq![shell_quoted(words[0])] + qr);
        lemma_join_front(shell_quoted(words[0]), qr);
        let tail = join_with(qr, seq![' ']);
        lemma_read_quoted_word(words[0], seq![' '] + tail);
        assert(shell_quoted(words[0]) + seq![' '] + tail =~= shell_quoted(words[0]) + (seq![' ']
            + tail));
        assert((seq![' '] + tail)[0] == ' ');
        assert((seq![' '] + tail).drop_first() =~= tail);
        lemma_read_words(rest);
        assert(seq![words[0]] + rest =~= words);
    }
}

/// A POSIX shell reads a task's command line back as exactly the words the
/// task executes: its command, then each of its arguments.
pub proof fn command_line_reads_back(t: TaskView)
    ensures
        shell_words(command_line_of(t)) == task_words(t),
{
    lemma_read_words(task_words(t));
}

/// A task run as `sh -c command`, its name, directory and content kept.
pub open spec fn shell_view(t: TaskView, command: Seq<char>) -> TaskView {
    TaskView { command: "sh"@, args: seq!["-c"@, command], ..t }
}

/// A task run through `sh -c` is shown as it is executed: `sh -c`, then the
/// command quoted as one word.
pub proof fn shell_command_displayed_as_executed(t: TaskView, command: Seq<char>)
    ensures
        command_line_of(shell_view(t, command)) == "sh -c "@ + shell_quoted(command),
{
    reveal_strlit("sh");
    reveal_strlit("-c");
    reveal_strlit("sh -c ");
    let words = task_words(shell_view(t, command));
    assert(words =~= seq!["sh"@, "-c"@, command]);
    assert(is_shell_safe("sh"@));
    assert(is_shell_safe("-c"@));
    let quoted = words.map_values(|w: Seq<char>| shell_quoted(w));
    assert(quoted =~= seq!["sh"@, "-c"@, shell_quoted(command)]);
    assert(quoted.drop_last() =~= seq!["sh"@, "-c"@]);
    assert(quoted.drop_last().drop_last() =~= seq!["sh"@]);
    assert(join_with(quoted.drop_last().drop_last(), seq![' ']) == "sh"@);
    assert(join_with(quoted.drop_last(), seq![' ']) == "sh"@ + seq![' '] + "-c"@);
    assert(join_with(quoted, seq![' ']) == ("sh"@ + seq![' '] + "-c"@) + seq![' '] + shell_quoted(
        command,
    ));
    assert(join_with(quoted, seq![' ']) =~= "sh -c "@ + shell_quoted(command));
}

impl Task {
    /// The words that run the task, each quoted for a POSIX shell and
    /// joined by single spaces: its command, then its arguments.
    pub fn command_line(&self) -> (r: String)
        ensures
            r@ == command_line_of(self@),
    {
        let ghost quoted = task_words(self@).map_values(|w: Seq<char>| shell_quoted(w));
        let mut r = shell_quote(self.command.as_str());
        assert(quoted.subrange(0, 1) =~= seq![quoted[0]]);
        let mut i: usize = 0;
        while i < self.args.len()
            invariant
                i <= self.args@.len(),
                quoted == task_words(self@).map_values(|w: Seq<char>| shell_quoted(w)),
                quoted.len() == self.args@.len() + 1,
                r@ == join_with(quoted.subrange(0, i + 1), seq![' ']),
            decreases self.args@.len() - i,
        {
            let q = shell_quote(self.args[i].as_str());
            assert(q@ == quoted[i + 1]);
            let ghost prev = r@;
            push_char(&mut r, ' ');
            r.append(q.as_str());
            assert(quoted.subrange(0, i + 2).drop_last() =~= quoted.subrange(0, i + 1));
            assert(r@ =~= join_with(quoted.subrange(0, i + 2), seq![' ']));
            i = i + 1;
        }
        assert(quoted.subrange(0, quoted.len() as int) =~= quoted);
        r
    }

    /// The same task, executed as `sh -c command`.
    pub fn with_shell_command(self, command: String) -> (r: Task)
        ensures
            r@ == shell_view(self@, command@),
            r.name == self.name,
            r.cwd == self.cwd,
            r.content == self.content,
            r.command@ == "sh"@,
            r.args@.len() == 2,
            r.args@[0]@ == "-c"@,
            r.args@[1] == command,
    {
        let mut t = self;
        t.command = String::from_str("sh");
        t.args = vec![String::from_str("-c"), command];
        assert(texts(t.args@) =~= seq!["-c"@, command@]);
        t
    }
}

// ---------------------------------------------------------------------
// Ordering by name
// ---------------------------------------------------------------------

/// Tasks listed in order of their names.
pub open spec fn sorted_by_name(ts: Seq<TaskView>) -> bool {
    forall|i: int, j: int| 0 <= i < j < ts.len() ==> text_le(#[trigger] ts[i].name, #[trigger] ts[j].name)
}

/// Whether a task is named `n`.
pub open spec fn has_name(n: Seq<char>) -> spec_fn(TaskView) -> bool {
    |v: TaskView| v.name == n
}

/// The tasks named `n`, in order.
pub open spec fn named(ts: Seq<TaskView>, n: Seq<char>) -> Seq<TaskView> {
    ts.filter(has_name(n))
}

proof fn lemma_filter_none<A>(s: Seq<A>, p: spec_fn(A) -> bool)
    requires
        forall|j: int| 0 <= j < s.len() ==> !p(#[trigger] s[j]),
    ensures
        s.filter(p) == Seq::<A>::empty(),
    decreases s.len(),
{
    reveal(Seq::filter);
    if s.len() > 0 {
        lemma_filter_none(s.drop_last(), p);
        assert(!p(s[s.len() - 1]));
    }
}

/// Inserting an element that the predicate rejects leaves the filter as it
/// was; inserting one that it accepts, after every accepted element, adds it
/// at the end.
proof fn lemma_filter_insert<A>(s: Seq<A>, i: int, x: A, p: spec_fn(A) -> bool)
    requires
        0 <= i <= s.len(),
        p(x) ==> forall|j: int| i <= j < s.len() ==> !p(#[trigger] s[j]),
    ensures
        s.insert(i, x).filter(p) == s.filter(p) + (if p(x) {
            seq![x]
        } else {
            Seq::<A>::empty()
        }),
{
    let a = s.take(i);
    let b = s.skip(i);
    assert(s =~= a + b);
    assert(s.insert(i, x) =~= a + (seq![x] + b));
    Seq::filter_distributes_over_add(a, b, p);
    Seq::filter_distributes_over_add(a, seq![x] + b, p);
    b.lemma_filter_prepend(x, p);
    if p(x) {
        assert forall|j: int| 0 <= j < b.len() implies !p(#[trigger] b[j]) by {
            assert(b[j] == s[i + j]);
        }
        lemma_filter_none(b, p);
        assert(s.insert(i, x).filter(p) =~= s.filter(p) + seq![x]);
    } else {
        assert(s.insert(i, x).filter(p) =~= s.filter(p));
    }
}

/// Tasks whose names are all different.
pub open spec fn names_distinct(ts: Seq<TaskView>) -> bool {
    forall|i: int, j: int| 0 <= i < j < ts.len() ==> #[trigger] ts[i].name != #[trigger] ts[j].name
}

proof fn lemma_filter_two<A>(s: Seq<A>, p: spec_fn(A) -> bool, i: int, j: int)
    requires
        0 <= i < j < s.len(),
        p(s[i]),
        p(s[j]),
    ensures
        s.filter(p).len() >= 2,
{
    let a = s.take(j);
    let b = s.skip(j);
    assert(s =~= a + b);
    Seq::filter_distributes_over_add(a, b, p);
    assert(a[i] == s[i]);
    assert(b[0] == s[j]);
    a.lemma_filter_contains(p, i);
    b.lemma_filter_contains(p, 0);
}

proof fn lemma_filter_at_most_one<A>(s: Seq<A>, p: spec_fn(A) -> bool)
    requires
        forall|i: int, j: int| 0 <= i < j < s.len() ==> !(p(#[trigger] s[i]) && p(#[trigger] s[j])),
    ensures
        s.filter(p).len() <= 1,
    decreases s.len(),
{
    reveal(Seq::filter);
    if s.len() > 0 {
        let d = s.drop_last();
        if p(s.last()) {
            assert forall|j: int| 0 <= j < d.len() implies !p(#[trigger] d[j]) by {
                assert(d[j] == s[j]);
                assert(s[s.len() - 1] == s.last());
            }
            lemma_filter_none(d, p);
        } else {
            assert forall|i: int, j: int| 0 <= i < j < d.len() implies !(p(#[trigger] d[i]) && p(
                #[trigger] d[j],
            )) by {
                assert(d[i] == s[i] && d[j] == s[j]);
            }
            lemma_filter_at_most_one(d, p);
        }
    }
}

/// Two lists that hold, for every name, the same tasks of that name: where
/// the names of one are all different, so are those of the other.
proof fn lemma_same_named_keeps_distinct(a: Seq<TaskView>, b: Seq<TaskView>)
    requires
        forall|n: Seq<char>| #[trigger] named(a, n) == named(b, n),
        names_distinct(b),
    ensures
        names_distinct(a),
{
    assert forall|i: int, j: int| 0 <= i < j < a.len() implies #[trigger] a[i].name
        != #[trigger] a[j].name by {
        if a[i].name == a[j].name {
            let n = a[i].name;
            let p = has_name(n);
            lemma_filter_two(a, p, i, j);
            assert forall|x: int, y: int| 0 <= x < y < b.len() implies !(p(#[trigger] b[x]) && p(
                #[trigger] b[y],
            )) by {}
            lemma_filter_at_most_one(b, p);
            assert(named(a, n) == named(b, n));
        }
    }
}

/// Orders tasks by name; tasks with equal names keep their order.
pub fn sort_by_name(tasks: Vec<Task>) -> (r: Vec<Task>)
    ensures
        sorted_by_name(task_views(r@)),
        task_views(r@).to_multiset() == task_views(tasks@).to_multiset(),
        r@.len() == tasks@.len(),
        forall|n: Seq<char>| #[trigger] named(task_views(r@), n) == named(task_views(tasks@), n),
        names_distinct(task_views(tasks@)) ==> names_distinct(task_views(r@)),
{
    broadcast use vstd::seq_lib::group_to_multiset_ensures, vstd::multiset::group_multiset_axioms;

    let ghost original = task_views(tasks@);
    let mut rest = tasks;
    let mut result: Vec<Task> = Vec::new();
    assert(task_views(result@).to_multiset() =~= vstd::multiset::Multiset::empty());
    while rest.len() > 0
        invariant
            sorted_by_name(task_views(result@)),
            task_views(result@).to_multiset().add(task_views(rest@).to_multiset())
                == original.to_multiset(),
            result@.len() + rest@.len() == original.len(),
            forall|n: Seq<char>| #[trigger] named(original, n) == named(task_views(result@), n)
                + named(task_views(rest@), n),
        decreases rest@.len(),
    {
        let ghost before_rest = rest@;
        let t = rest.remove(0);
        proof {
            assert(task_views(rest@) =~= task_views(before_rest).remove(0));
            vstd::seq_lib::to_multiset_remove(task_views(before_rest), 0);
            assert(task_views(before_rest)[0] == t@);
            assert(task_views(before_rest).contains(t@)) by {
                assert(task_views(before_rest)[0] == t@);
            }
            vstd::seq_lib::to_multiset_contains(task_views(before_rest), t@);
        }
        let name = chars_of(t.name.as_str());
        let mut pos: usize = 0;
        while pos < result.len() && text_le_exec(chars_of(result[pos].name.as_str()).as_slice(), name.as_slice())
            invariant
                pos <= result@.len(),
                name@ == t.name@,
                forall|j: int| 0 <= j < pos ==> text_le(#[trigger] result@[j].name@, t.name@),
            decreases result@.len() - pos,
        {
            pos = pos + 1;
        }
        let ghost before = result@;
        proof {
            let bv = task_views(before);
            assert forall|j: int| pos <= j < bv.len() implies bv[j].name != t.name@ by {
                assert(!text_le(bv[pos as int].name, t.name@));
                if j > pos {
                    assert(text_le(bv[pos as int].name, bv[j].name));
                }
                lemma_text_le_total(t.name@, t.name@);
            }
            assert(task_views(before_rest) =~= seq![t@] + task_views(rest@));
            assert forall|n: Seq<char>| #[trigger] named(original, n) == named(
                bv.insert(pos as int, t@),
                n,
            ) + named(task_views(rest@), n) by {
                let p = has_name(n);
                assert forall|j: int| pos <= j < bv.len() && p(t@) implies !p(#[trigger] bv[j]) by {
                    assert(bv[j].name != t.name@);
                }
                lemma_filter_insert(bv, pos as int, t@, p);
                task_views(rest@).lemma_filter_prepend(t@, p);
                assert(named(task_views(before_rest), n) == named(seq![t@] + task_views(rest@), n));
                assert(named(original, n) =~= named(bv.insert(pos as int, t@), n) + named(
                    task_views(rest@),
                    n,
                ));
            }
        }
        result.insert(pos, t);
        proof {
            let vs = task_views(result@);
            assert(vs =~= task_views(before).insert(pos as int, t@));
            vstd::seq_lib::to_multiset_insert(task_views(before), pos as int, t@);
            let bv = task_views(before);
            assert forall|i: int, j: int| 0 <= i < j < vs.len() implies text_le(
                #[trigger] vs[i].name,
                #[trigger] vs[j].name,
            ) by {
                if pos < before.len() {
                    lemma_text_le_total(before[pos as int].name@, t.name@);
                }
                if i < pos && j == pos {
                } else if i < pos && j > pos {
                    assert(text_le(bv[i].name, bv[j - 1].name));
                } else if i == pos {
                    assert(text_le(t.name@, before[pos as int].name@));
                    if j - 1 > pos {
                        assert(text_le(bv[pos as int].name, bv[j - 1].name));
                        lemma_text_le_transitive(t.name@, bv[pos as int].name, bv[j - 1].name);
                    }
                } else if i > pos {
                    assert(text_le(bv[i - 1].name, bv[j - 1].name));
                } else {
                    assert(text_le(bv[i].name, bv[j].name));
                }
            }
            assert(task_views(result@).to_multiset().add(task_views(rest@).to_multiset())
                =~= original.to_multiset());
        }
    }
    assert(task_views(rest@).to_multiset() =~= vstd::multiset::Multiset::empty());
    assert(task_views(result@).to_multiset() =~= original.to_multiset());
    proof {
        assert forall|n: Seq<char>| #[trigger] named(task_views(result@), n) == named(original, n) by {
            assert(named(task_views(rest@), n) =~= Seq::<TaskView>::empty()) by {
                reveal(Seq::filter);
            }
            assert(named(original, n) =~= named(task_views(result@), n) + named(task_views(rest@), n));
        }
        if names_distinct(original) {
            lemma_same_named_keeps_distinct(task_views(result@), original);
        }
    }
    result
}

} // verus!
