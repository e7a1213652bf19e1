//! Paths as text, compared component by component as `std::path::Path`
//! compares them on Unix.

use vstd::prelude::*;

use crate::text::{chars_of, join_with, push_char, string_from_chars, string_from_range};

verus! {

broadcast use vstd::string::group_string_axioms;

/// The `/`-separated pieces of a path, empty ones included.
pub open spec fn split_slash(p: Seq<char>) -> Seq<Seq<char>>
    decreases p.len(),
{
    if p.len() == 0 {
        seq![Seq::empty()]
    } else {
        let s = split_slash(p.drop_last());
        if p.last() == '/' {
            s.push(Seq::empty())
        } else {
            s.update(s.len() - 1, s.last().push(p.last()))
        }
    }
}

/// A piece that names a directory entry: neither empty nor `.`.
pub open spec fn is_name(piece: Seq<char>) -> bool {
    piece.len() > 0 && piece != seq!['.']
}

/// `is_name`, as a function value.
pub open spec fn name_pred() -> spec_fn(Seq<char>) -> bool {
    |piece: Seq<char>| is_name(piece)
}

/// The named components of a path: its pieces other than empty ones and
/// `.`.
pub open spec fn path_names(p: Seq<char>) -> Seq<Seq<char>> {
    split_slash(p).filter(name_pred())
}

/// A path that starts at the root.
pub open spec fn is_absolute(p: Seq<char>) -> bool {
    p.len() > 0 && p[0] == '/'
}

/// A relative path that starts with the current directory, `.`.
pub open spec fn starts_at_current(p: Seq<char>) -> bool {
    !is_absolute(p) && split_slash(p)[0] == seq!['.']
}

/// The components of a path, as `Path::components` yields them: the root
/// (written `/`) or the current directory (written `.`) where the path
/// starts with one, then its names.
pub open spec fn components(p: Seq<char>) -> Seq<Seq<char>> {
    (if is_absolute(p) {
        seq![seq!['/']]
    } else if starts_at_current(p) {
        seq![seq!['.']]
    } else {
        Seq::empty()
    }) + path_names(p)
}

/// The number of pieces up to and including the `n`th name.
pub open spec fn after_names(pieces: Seq<Seq<char>>, n: nat) -> int
    decreases pieces.len(),
{
    if n == 0 || pieces.len() == 0 {
        0
    } else if is_name(pieces[0]) {
        1 + after_names(pieces.drop_first(), (n - 1) as nat)
    } else {
        1 + after_names(pieces.drop_first(), n)
    }
}

/// Pieces with the leading ones that are not names removed.
pub open spec fn trim_front(pieces: Seq<Seq<char>>) -> Seq<Seq<char>>
    decreases pieces.len(),
{
    if pieces.len() > 0 && !is_name(pieces[0]) {
        trim_front(pieces.drop_first())
    } else {
        pieces
    }
}

/// Pieces with the trailing ones that are not names removed.
pub open spec fn trim_back(pieces: Seq<Seq<char>>) -> Seq<Seq<char>>
    decreases pieces.len(),
{
    if pieces.len() > 0 && !is_name(pieces.last()) {
        trim_back(pieces.drop_last())
    } else {
        pieces
    }
}

/// The text of `dir` that follows the components of `root`, as
/// `Path::strip_prefix` gives it: from the first remaining name to the last,
/// as written.
pub open spec fn rest_text(root: Seq<char>, dir: Seq<char>) -> Seq<char> {
    let n = path_names(root).len();
    let pieces = split_slash(dir);
    let consumed = if n == 0 {
        1
    } else {
        after_names(pieces, n)
    };
    join_with(trim_back(trim_front(pieces.skip(consumed))), seq!['/'])
}

/// Where the body of a path begins: after its root `/`, or after a leading
/// current directory `.`, else at its start.
pub open spec fn body_start(p: Seq<char>) -> int {
    if is_absolute(p) || starts_at_current(p) {
        1
    } else {
        0
    }
}

/// Whether the last character of `p` ends a trailing piece that is not a
/// name: a `/`, or a `.` standing alone after a `/` or at `start`.
pub open spec fn ends_in_non_name(p: Seq<char>, start: int) -> bool {
    p.len() > start && (p.last() == '/' || (p.last() == '.' && (p.len() - 1 == start || p[p.len()
        - 2] == '/')))
}

/// A path with its trailing empty and `.` pieces removed, never cutting
/// into what precedes `start`: what `Path::components().as_path()` gives.
pub open spec fn trim_trailing(p: Seq<char>, start: int) -> Seq<char>
    decreases p.len(),
{
    if start >= 0 && ends_in_non_name(p, start) {
        trim_trailing(p.drop_last(), start)
    } else {
        p
    }
}

/// What `Path::strip_prefix` with an empty root leaves of a directory: the
/// directory with its trailing empty and `.` pieces removed.
pub open spec fn trimmed_dir(dir: Seq<char>) -> Seq<char> {
    trim_trailing(dir, body_start(dir))
}

/// How a directory is shown relative to the scan root: `.` where their
/// components are the same; where the root's components begin the
/// directory's, the rest of the directory as written, from its first
/// remaining name to its last (for an empty root, the directory without its
/// trailing empty and `.` pieces, or the directory itself where nothing is
/// left); the directory itself otherwise.
pub open spec fn relative_dir_of(root: Seq<char>, dir: Seq<char>) -> Seq<char> {
    let cr = components(root);
    let cd = components(dir);
    if cr.len() <= cd.len() && cd.take(cr.len() as int) == cr {
        if cd.len() == cr.len() {
            seq!['.']
        } else if cr.len() == 0 {
            if trimmed_dir(dir).len() > 0 {
                trimmed_dir(dir)
            } else {
                dir
            }
        } else {
            rest_text(root, dir)
        }
    } else {
        dir
    }
}

/// The scan root itself is shown as `.`.
pub proof fn root_is_shown_as_current(root: Seq<char>)
    ensures
        relative_dir_of(root, root) == seq!['.'],
{
    let c = components(root);
    assert(c.take(c.len() as int) =~= c);
}

/// The texts of a list of character lists.
pub open spec fn seqs_of(v: Seq<Vec<char>>) -> Seq<Seq<char>> {
    v.map_values(|x: Vec<char>| x@)
}

fn is_name_exec(piece: &Vec<char>) -> (r: bool)
    ensures
        r == is_name(piece@),
{
    if piece.len() == 0 {
        return false;
    }
    if piece.len() == 1 && piece[0] == '.' {
        assert(piece@ =~= seq!['.']);
        return false;
    }
    if piece.len() == 1 {
        assert(piece@ != seq!['.']) by {
            assert(piece@[0] != seq!['.'][0]);
        }
    }
    true
}

/// The `/`-separated pieces of a path, empty ones included.
pub fn split_pieces(p: &str) -> (r: Vec<Vec<char>>)
    ensures
        seqs_of(r@) == split_slash(p@),
{
    let chars = chars_of(p);
    let mut done: Vec<Vec<char>> = Vec::new();
    let mut cur: Vec<char> = Vec::new();
    let mut i: usize = 0;
    assert(chars@.take(0) =~= Seq::<char>::empty());
    assert(seqs_of(done@).push(cur@) =~= split_slash(chars@.take(0)));
    while i < chars.len()
        invariant
            i <= chars@.len(),
            chars@ == p@,
            seqs_of(done@).push(cur@) == split_slash(chars@.take(i as int)),
        decreases chars@.len() - i,
    {
        let c = chars[i];
        let ghost before = split_slash(chars@.take(i as int));
        assert(chars@.take(i + 1).drop_last() =~= chars@.take(i as int));
        assert(chars@.take(i + 1).last() == c);
        let ghost old_done = seqs_of(done@);
        if c == '/' {
            let finished = cur;
            done.push(finished);
            cur = Vec::new();
            assert(seqs_of(done@) =~= old_done.push(finished@));
            assert(seqs_of(done@).push(cur@) =~= before.push(Seq::empty()));
        } else {
            cur.push(c);
            assert(seqs_of(done@).push(cur@) =~= before.update(
                before.len() - 1,
                before.last().push(c),
            ));
        }
        i = i + 1;
    }
    assert(chars@.take(i as int) =~= p@);
    let ghost old_done = seqs_of(done@);
    done.push(cur);
    assert(seqs_of(done@) =~= old_done.push(cur@));
    done
}

/// The components of a path, as `Path::components` yields them.
pub fn path_components(p: &str) -> (r: Vec<Vec<char>>)
    ensures
        seqs_of(r@) == components(p@),
{
    let pieces = split_pieces(p);
    let ghost ps = seqs_of(pieces@);
    let ghost pred = name_pred();
    let mut r: Vec<Vec<char>> = Vec::new();
    let chars = chars_of(p);
    proof {
        lemma_split_slash_nonempty(p@);
    }
    if chars.len() > 0 && chars[0] == '/' {
        let root = vec!['/'];
        assert(root@ =~= seq!['/']);
        r.push(root);
        assert(seqs_of(r@) =~= seq![seq!['/']]);
    } else if pieces.len() > 0 && pieces[0].len() == 1 && pieces[0][0] == '.' {
        assert(pieces@[0]@ =~= seq!['.']);
        let dot = vec!['.'];
        assert(dot@ =~= seq!['.']);
        r.push(dot);
        assert(seqs_of(r@) =~= seq![seq!['.']]);
    } else {
        assert(seqs_of(r@) =~= Seq::<Seq<char>>::empty());
        assert(!starts_at_current(p@)) by {
            lemma_split_slash_nonempty(p@);
            if !is_absolute(p@) && ps[0] == seq!['.'] {
                assert(pieces@[0]@ == ps[0]);
                assert(pieces@[0]@.len() == 1);
                assert(pieces@[0]@[0] == '.');
            }
        }
    }
    let ghost prefix = seqs_of(r@);
    let mut k: usize = 0;
    assert(ps.take(0).filter(pred) =~= Seq::<Seq<char>>::empty()) by {
        reveal(Seq::filter);
    }
    while k < pieces.len()
        invariant
            k <= pieces@.len(),
            ps == seqs_of(pieces@),
            pred == name_pred(),
            seqs_of(r@) =~= prefix + ps.take(k as int).filter(pred),
        decreases pieces@.len() - k,
    {
        let ghost before = r@;
        proof {
            assert(ps.take(k + 1) =~= ps.take(k as int).push(ps[k as int]));
            ps.take(k as int).lemma_filter_push(ps[k as int], pred);
        }
        if is_name_exec(&pieces[k]) {
            let piece = pieces[k].clone();
            assert(piece@ =~= pieces@[k as int]@);
            r.push(piece);
            assert(seqs_of(r@) =~= seqs_of(before).push(ps[k as int]));
        }
        k = k + 1;
    }
    assert(ps.take(k as int) =~= ps);
    r
}

/// Whether two character lists are equal.
pub fn same_chars(a: &Vec<char>, b: &Vec<char>) -> (r: bool)
    ensures
        r == (a@ == b@),
{
    if a.len() != b.len() {
        return false;
    }
    let mut i: usize = 0;
    while i < a.len()
        invariant
            i <= a@.len(),
            a@.len() == b@.len(),
            forall|j: int| 0 <= j < i ==> a@[j] == b@[j],
        decreases a@.len() - i,
    {
        if a[i] != b[i] {
            return false;
        }
        i = i + 1;
    }
    assert(a@ =~= b@);
    true
}

/// The number of pieces up to and including the `n`th name.
fn count_after_names(pieces: &Vec<Vec<char>>, n: usize) -> (r: usize)
    ensures
        r as int == after_names(seqs_of(pieces@), n as nat),
        r <= pieces@.len(),
{
    let ghost ps = seqs_of(pieces@);
    let mut i: usize = 0;
    let mut left: usize = n;
    assert(ps.skip(0) =~= ps);
    while left > 0 && i < pieces.len()
        invariant
            i <= pieces@.len(),
            ps == seqs_of(pieces@),
            after_names(ps, n as nat) == i + after_names(ps.skip(i as int), left as nat),
        decreases pieces@.len() - i,
    {
        assert(ps.skip(i as int)[0] == ps[i as int]);
        assert(ps.skip(i as int).drop_first() =~= ps.skip(i + 1));
        if is_name_exec(&pieces[i]) {
            left = left - 1;
        }
        i = i + 1;
    }
    i
}

/// Joins pieces `from..to` with `/`, leaving out the leading and trailing
/// pieces that are not names.
fn join_trimmed(pieces: &Vec<Vec<char>>, from: usize) -> (r: String)
    requires
        from <= pieces@.len(),
    ensures
        r@ == join_with(trim_back(trim_front(seqs_of(pieces@).skip(from as int))), seq!['/']),
{
    let ghost ps = seqs_of(pieces@);
    let mut start = from;
    while start < pieces.len() && !is_name_exec(&pieces[start])
        invariant
            from <= start <= pieces@.len(),
            ps == seqs_of(pieces@),
            trim_front(ps.skip(from as int)) == trim_front(ps.skip(start as int)),
        decreases pieces@.len() - start,
    {
        assert(ps.skip(start as int)[0] == ps[start as int]);
        assert(ps.skip(start as int).drop_first() =~= ps.skip(start + 1));
        start = start + 1;
    }
    assert(trim_front(ps.skip(start as int)) == ps.skip(start as int));
    let mut end = pieces.len();
    assert(ps.skip(start as int).take(end - start) =~= ps.skip(start as int));
    while end > start && !is_name_exec(&pieces[end - 1])
        invariant
            start <= end <= pieces@.len(),
            ps == seqs_of(pieces@),
            trim_back(ps.skip(start as int)) == trim_back(ps.subrange(start as int, end as int)),
        decreases end - start,
    {
        assert(ps.subrange(start as int, end as int).last() == ps[end - 1]);
        assert(ps.subrange(start as int, end as int).drop_last() =~= ps.subrange(
            start as int,
            end - 1,
        ));
        end = end - 1;
    }
    assert(ps.skip(start as int) =~= ps.subrange(start as int, pieces@.len() as int));
    let ghost words = ps.subrange(start as int, end as int);
    assert(trim_back(words) == words);
    let mut r = String::new();
    let mut k: usize = start;
    assert(words.take(0) =~= Seq::<Seq<char>>::empty());
    while k < end
        invariant
            start <= k <= end,
            end <= pieces@.len(),
            ps == seqs_of(pieces@),
            words == ps.subrange(start as int, end as int),
            r@ == join_with(words.take(k - start), seq!['/']),
        decreases end - k,
    {
        let ghost before = words.take(k - start);
        if k > start {
            push_char(&mut r, '/');
        }
        let piece = string_from_chars(pieces[k].as_slice());
        r.append(piece.as_str());
        assert(words.take(k + 1 - start) =~= before.push(pieces@[k as int]@));
        assert(before.push(pieces@[k as int]@).drop_last() =~= before);
        assert(r@ =~= join_with(words.take(k + 1 - start), seq!['/']));
        k = k + 1;
    }
    assert(words.take(k - start) =~= words);
    r
}

/// How a directory is shown relative to the scan root: `.` where their
/// components are the same; where the root's components begin the
/// directory's, the rest of the directory as written, from its first
/// remaining name to its last (for an empty root, the directory without its
/// trailing empty and `.` pieces); the directory as it is otherwise.
pub fn relative_dir(root: &str, dir: &str) -> (r: String)
    ensures
        r@ == relative_dir_of(root@, dir@),
{
    let cr = path_components(root);
    let cd = path_components(dir);
    let ghost sr = seqs_of(cr@);
    let ghost sd = seqs_of(cd@);
    let mut prefix = cr.len() <= cd.len();
    let mut i: usize = 0;
    while prefix && i < cr.len()
        invariant
            i <= cr@.len(),
            prefix ==> cr@.len() <= cd@.len(),
            sr == seqs_of(cr@),
            sd == seqs_of(cd@),
            prefix ==> forall|j: int| 0 <= j < i ==> sr[j] == sd[j],
            !prefix ==> !(sr.len() <= sd.len() && sd.take(sr.len() as int) == sr),
        decreases cr@.len() - i,
    {
        if !same_chars(&cr[i], &cd[i]) {
            prefix = false;
            assert(sd.take(sr.len() as int)[i as int] != sr[i as int]);
        }
        i = i + 1;
    }
    if !prefix {
        return String::from_str(dir);
    }
    assert(sd.take(sr.len() as int) =~= sr);
    if cd.len() == cr.len() {
        let mut r = String::new();
        push_char(&mut r, '.');
        return r;
    }
    if cr.len() == 0 {
        let t = trim_dir(dir);
        if t.unicode_len() > 0 {
            return t;
        }
        return String::from_str(dir);
    }
    let names = path_names_count(root);
    let pieces = split_pieces(dir);
    let consumed = if names == 0 { 1 } else { count_after_names(&pieces, names) };
    proof {
        crate::paths::lemma_split_slash_nonempty(dir@);
    }
    join_trimmed(&pieces, consumed)
}

/// A directory without its trailing empty and `.` pieces.
fn trim_dir(dir: &str) -> (r: String)
    ensures
        r@ == trimmed_dir(dir@),
{
    let chars = chars_of(dir);
    let pieces = split_pieces(dir);
    proof {
        lemma_split_slash_nonempty(dir@);
    }
    let absolute = chars.len() > 0 && chars[0] == '/';
    let current = !absolute && pieces[0].len() == 1 && pieces[0][0] == '.';
    assert(current == starts_at_current(dir@)) by {
        assert(seqs_of(pieces@)[0] == pieces@[0]@);
        if !absolute && pieces@[0]@.len() == 1 && pieces@[0]@[0] == '.' {
            assert(pieces@[0]@ =~= seq!['.']);
        }
    }
    let start: usize = if absolute || current { 1 } else { 0 };
    let mut end: usize = chars.len();
    assert(chars@.take(end as int) =~= dir@);
    while end > start && (chars[end - 1] == '/' || (chars[end - 1] == '.' && (end - 1 == start
        || chars[end - 2] == '/')))
        invariant
            start <= 1,
            end <= chars@.len(),
            chars@ == dir@,
            start as int == body_start(dir@),
            trim_trailing(chars@.take(end as int), start as int) == trimmed_dir(dir@),
        decreases end,
    {
        assert(ends_in_non_name(chars@.take(end as int), start as int));
        assert(chars@.take(end as int).drop_last() =~= chars@.take(end - 1));
        end = end - 1;
    }
    assert(!ends_in_non_name(chars@.take(end as int), start as int));
    string_from_range(chars.as_slice(), 0, end)
}

proof fn lemma_split_slash_nonempty(p: Seq<char>)
    ensures
        split_slash(p).len() >= 1,
    decreases p.len(),
{
    if p.len() > 0 {
        lemma_split_slash_nonempty(p.drop_last());
    }
}

/// The number of names in a path.
fn path_names_count(p: &str) -> (r: usize)
    ensures
        r == path_names(p@).len(),
{
    let pieces = split_pieces(p);
    let ghost ps = seqs_of(pieces@);
    let ghost pred = name_pred();
    let mut count: usize = 0;
    let mut k: usize = 0;
    assert(ps.take(0).filter(pred) =~= Seq::<Seq<char>>::empty()) by {
        reveal(Seq::filter);
    }
    while k < pieces.len()
        invariant
            k <= pieces@.len(),
            ps == seqs_of(pieces@),
            pred == name_pred(),
            count == ps.take(k as int).filter(pred).len(),
            count <= k,
        decreases pieces@.len() - k,
    {
        proof {
            assert(ps.take(k + 1) =~= ps.take(k as int).push(ps[k as int]));
            ps.take(k as int).lemma_filter_push(ps[k as int], pred);
        }
        if is_name_exec(&pieces[k]) {
            count = count + 1;
        }
        k = k + 1;
    }
    assert(ps.take(k as int) =~= ps);
    count
}

} // verus!
