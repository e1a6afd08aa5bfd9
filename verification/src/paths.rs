//! File paths as text, with `/` between their components. A component that is
//! empty or `.` names nothing, except a `.` that begins the path.

use vstd::prelude::*;
use vstd::string::{StrSliceExecFns, StringExecFns};

use crate::text::chars_of;

verus! {

broadcast use vstd::string::group_string_axioms;

/// How many characters come before the first ordinary component: the `/` of an
/// absolute path, or the `.` that begins a relative one.
pub open spec fn anchor(p: Seq<char>) -> int {
    if p.len() > 0 && (p[0] == '/' || (p[0] == '.' && (p.len() == 1 || p[1] == '/'))) {
        1
    } else {
        0
    }
}

/// The greatest position in `from..to` that holds a `/`, or `from - 1`.
pub open spec fn last_separator(p: Seq<char>, from: int, to: int) -> int
    decreases to - from,
{
    if to <= from {
        from - 1
    } else if p[to - 1] == '/' {
        to - 1
    } else {
        last_separator(p, from, to - 1)
    }
}

/// The last component behind the anchor.
pub open spec fn last_component(p: Seq<char>, anchor: int) -> Seq<char> {
    p.skip(last_separator(p, anchor, p.len() as int) + 1)
}

/// The path without its last component and the `/` before that.
pub open spec fn without_last(p: Seq<char>, anchor: int) -> Seq<char> {
    let i = last_separator(p, anchor, p.len() as int);
    p.take(if i < anchor {
        anchor
    } else {
        i
    })
}

/// The path without the components at its end that name nothing.
pub open spec fn tidied(p: Seq<char>, anchor: int) -> Seq<char>
    decreases p.len(),
    via tidied_decreases
{
    if 0 <= anchor < p.len() && (last_component(p, anchor).len() == 0 || last_component(p, anchor)
        == seq!['.']) {
        tidied(without_last(p, anchor), anchor)
    } else {
        p
    }
}

#[via_fn]
proof fn tidied_decreases(p: Seq<char>, anchor: int) {
    if 0 <= anchor < p.len() {
        lemma_last_separator(p, anchor, p.len() as int);
    }
}

proof fn lemma_last_separator(p: Seq<char>, from: int, to: int)
    requires
        0 <= from <= to <= p.len(),
    ensures
        last_separator(p, from, to) >= from - 1,
        last_separator(p, from, to) < to,
    decreases to - from,
{
    if from < to && p[to - 1] != '/' {
        lemma_last_separator(p, from, to - 1);
    }
}

/// The path of the directory that holds `p`: `p` without its final component.
/// The root and the empty path have none.
pub open spec fn parent_of(p: Seq<char>) -> Option<Seq<char>> {
    let a = anchor(p);
    let t = tidied(p, a);
    if t.len() > a {
        Some(tidied(without_last(t, a), a))
    } else if p.len() == 0 || p[0] == '/' {
        None
    } else {
        Some(Seq::empty())
    }
}

/// The path of the file `name` in the directory `dir`.
pub open spec fn file_in(dir: Seq<char>, name: Seq<char>) -> Seq<char> {
    if dir.len() == 0 || dir.last() == '/' {
        dir + name
    } else {
        dir.push('/') + name
    }
}

/// A directory path that does not end in a component that names nothing: no
/// `/` or `.` stands at its end, unless it is all there is.
pub open spec fn is_tidy(dir: Seq<char>) -> bool {
    dir.len() <= anchor(dir) || (last_component(dir, anchor(dir)).len() > 0 && last_component(
        dir,
        anchor(dir),
    ) != seq!['.'])
}

/// A name that can stand as a component: it is not empty, holds no `/`, and does
/// not begin with a dot.
pub open spec fn is_plain_name(name: Seq<char>) -> bool {
    &&& name.len() > 0
    &&& name[0] != '.'
    &&& forall|i: int| 0 <= i < name.len() ==> name[i] != '/'
}

proof fn lemma_separator_before_name(p: Seq<char>, from: int, at: int, to: int)
    requires
        0 <= from <= at <= to <= p.len(),
        forall|i: int| at <= i < to ==> p[i] != '/',
    ensures
        last_separator(p, from, to) == last_separator(p, from, at),
    decreases to - at,
{
    if at < to {
        lemma_separator_before_name(p, from, at, to - 1);
    }
}

/// The parent of a file in a directory is that directory, without what names
/// nothing at its end; so it is the very same path where the path is tidy.
pub proof fn law_parent_of_file_is_its_directory(dir: Seq<char>, name: Seq<char>)
    requires
        is_plain_name(name),
    ensures
        parent_of(file_in(dir, name)) == Some(tidied(dir, anchor(dir))),
        is_tidy(dir) <==> tidied(dir, anchor(dir)) == dir,
{
    let p = file_in(dir, name);
    let a = anchor(dir);
    let n = p.len() as int;
    let at = n - name.len();
    assert(forall|i: int| at <= i < n ==> p[i] == name[i - at]);
    assert(forall|i: int| 0 <= i < dir.len() ==> p[i] == dir[i]);
    assert(anchor(p) == a);
    lemma_separator_before_name(p, a, at, n);
    lemma_last_separator(p, a, n);
    let i = last_separator(p, a, n);
    assert(i == if at > a { at - 1 } else { a - 1 });
    assert(last_component(p, a) =~= name);
    assert(name.len() == 1 ==> name[0] != seq!['.'][0]);
    assert(tidied(p, a) == p);
    if dir.len() > 0 && dir.last() == '/' && dir.len() > a {
        assert(without_last(p, a) =~= dir.take(dir.len() - 1));
        assert(last_separator(dir, a, dir.len() as int) == dir.len() - 1);
        assert(last_component(dir, a).len() == 0);
        assert(without_last(dir, a) =~= dir.take(dir.len() - 1));
    } else {
        assert(without_last(p, a) =~= dir);
    }
    lemma_tidied(dir, a);
}

proof fn lemma_tidied(p: Seq<char>, a: int)
    requires
        0 <= a,
    ensures
        tidied(p, a).len() <= p.len(),
        a < p.len() && (last_component(p, a).len() == 0 || last_component(p, a) == seq!['.'])
            ==> tidied(p, a).len() < p.len(),
    decreases p.len(),
{
    if a < p.len() && (last_component(p, a).len() == 0 || last_component(p, a) == seq!['.']) {
        lemma_last_separator(p, a, p.len() as int);
        lemma_tidied(without_last(p, a), a);
    }
}

/// The end of the path once its last component, which begins behind the last
/// separator before `to`, is taken away; and where that component begins.
fn cut_last(chars: &Vec<char>, anchor: usize, to: usize) -> (r: (usize, usize))
    requires
        anchor < to <= chars@.len(),
    ensures
        anchor <= r.0 < to,
        r.0 <= r.1 <= to,
        r.1 == last_separator(chars@, anchor as int, to as int) + 1,
        r.0 == if last_separator(chars@, anchor as int, to as int) < anchor {
            anchor as int
        } else {
            last_separator(chars@, anchor as int, to as int)
        },
{
    let mut i: usize = to;
    while i > anchor && chars[i - 1] != '/'
        invariant
            anchor <= i <= to <= chars@.len(),
            last_separator(chars@, anchor as int, i as int) == last_separator(
                chars@,
                anchor as int,
                to as int,
            ),
        decreases i,
    {
        i = i - 1;
    }
    proof {
        lemma_last_separator(chars@, anchor as int, to as int);
    }
    if i > anchor {
        (i - 1, i)
    } else {
        (anchor, anchor)
    }
}

proof fn lemma_separator_of_prefix(p: Seq<char>, from: int, to: int)
    requires
        0 <= from <= to <= p.len(),
    ensures
        last_separator(p.take(to), from, to) == last_separator(p, from, to),
    decreases to - from,
{
    lemma_separator_of_longer(p, p.take(to), from, to);
}

proof fn lemma_separator_of_longer(p: Seq<char>, q: Seq<char>, from: int, to: int)
    requires
        0 <= from <= to <= q.len() <= p.len(),
        q == p.take(q.len() as int),
    ensures
        last_separator(q, from, to) == last_separator(p, from, to),
    decreases to - from,
{
    if from < to && p[to - 1] != '/' {
        lemma_separator_of_longer(p, q, from, to - 1);
    }
}

/// The end of the path `chars[..to]` once the components at its end that name
/// nothing are taken away.
fn tidy_end(chars: &Vec<char>, anchor: usize, to: usize) -> (r: usize)
    requires
        anchor <= to <= chars@.len(),
    ensures
        anchor <= r <= to,
        chars@.take(r as int) == tidied(chars@.take(to as int), anchor as int),
{
    let mut end: usize = to;
    while end > anchor
        invariant
            anchor <= end <= to <= chars@.len(),
            tidied(chars@.take(end as int), anchor as int) == tidied(
                chars@.take(to as int),
                anchor as int,
            ),
        ensures
            anchor <= end <= to <= chars@.len(),
            chars@.take(end as int) == tidied(chars@.take(to as int), anchor as int),
        decreases end,
    {
        let (cut, start): (usize, usize) = cut_last(chars, anchor, end);
        let ghost p = chars@.take(end as int);
        proof {
            lemma_separator_of_prefix(chars@, anchor as int, end as int);
            assert(last_component(p, anchor as int) =~= chars@.subrange(start as int, end as int));
            assert(without_last(p, anchor as int) =~= chars@.take(cut as int));
        }
        if start == end || (start + 1 == end && chars[start] == '.') {
            assert(start + 1 == end ==> last_component(p, anchor as int) =~= seq!['.']);
            end = cut;
        } else {
            assert(last_component(p, anchor as int).len() == end - start);
            assert(end - start == 1 ==> last_component(p, anchor as int)[0] == chars@[start as int]);
            break;
        }
    }
    end
}

/// The path of the directory that holds `path`.
pub fn parent(path: &str) -> (r: Option<String>)
    ensures
        match r {
            Some(dir) => parent_of(path@) == Some(dir@),
            None => parent_of(path@) is None,
        },
{
    let chars: Vec<char> = chars_of(path);
    let n: usize = chars.len();
    let a: usize = if n > 0 && (chars[0] == '/' || (chars[0] == '.' && (n == 1 || chars[1] == '/'))) {
        1
    } else {
        0
    };
    let end: usize = tidy_end(&chars, a, n);
    assert(chars@.take(n as int) =~= path@);
    if end > a {
        let (cut, start): (usize, usize) = cut_last(&chars, a, end);
        let last: usize = tidy_end(&chars, a, cut);
        proof {
            lemma_separator_of_prefix(chars@, a as int, end as int);
            let t = chars@.take(end as int);
            assert(without_last(t, a as int) =~= chars@.take(cut as int));
        }
        let dir: String = path.substring_char(0, last).to_owned();
        assert(dir@ =~= chars@.take(last as int));
        Some(dir)
    } else if n == 0 || chars[0] == '/' {
        None
    } else {
        let dir: String = String::new();
        assert(dir@ =~= Seq::<char>::empty());
        Some(dir)
    }
}

/// The path of the file `name` in the directory `dir`.
pub fn join(dir: &str, name: &str) -> (r: String)
    ensures
        r@ == file_in(dir@, name@),
{
    let n: usize = dir.unicode_len();
    let mut path: String = dir.to_owned();
    if n > 0 && dir.get_char(n - 1) != '/' {
        path.append("/");
        proof {
            reveal_strlit("/");
            assert(path@ =~= dir@.push('/'));
        }
    }
    path.append(name);
    path
}

/// The path of a file begins with its directory and ends with its name, with one
/// `/` between them where the directory does not end in one, and nothing else.
pub proof fn law_file_path_holds_directory_and_name(dir: Seq<char>, name: Seq<char>)
    ensures
        file_in(dir, name).take(dir.len() as int) == dir,
        file_in(dir, name).skip(file_in(dir, name).len() - name.len()) == name,
        dir.len() == 0 || dir.last() == '/' ==> file_in(dir, name).len() == dir.len() + name.len(),
        dir.len() > 0 && dir.last() != '/' ==> {
            &&& file_in(dir, name).len() == dir.len() + 1 + name.len()
            &&& file_in(dir, name)[dir.len() as int] == '/'
        },
{
    let p = file_in(dir, name);
    assert(p.take(dir.len() as int) =~= dir);
    assert(p.skip(p.len() - name.len()) =~= name);
}

proof fn lemma_tidied_is_prefix(p: Seq<char>, a: int)
    requires
        0 <= a,
    ensures
        tidied(p, a).len() <= p.len(),
        tidied(p, a) == p.take(tidied(p, a).len() as int),
    decreases p.len(),
{
    if a < p.len() && (last_component(p, a).len() == 0 || last_component(p, a) == seq!['.']) {
        lemma_last_separator(p, a, p.len() as int);
        let q = without_last(p, a);
        lemma_tidied_is_prefix(q, a);
        assert(q.take(tidied(q, a).len() as int) =~= p.take(tidied(q, a).len() as int));
    } else {
        assert(p.take(p.len() as int) =~= p);
    }
}

/// The parent of a path is a beginning of it, and shorter; the empty path has
/// none, and every other path that does not begin with a `/` has one.
pub proof fn law_parent_is_a_beginning(p: Seq<char>)
    ensures
        parent_of(p) matches Some(dir) ==> dir.len() < p.len() && dir == p.take(dir.len() as int),
        p.len() == 0 ==> parent_of(p) is None,
        p.len() > 0 && p[0] != '/' ==> parent_of(p) is Some,
{
    let a = anchor(p);
    let t = tidied(p, a);
    lemma_tidied_is_prefix(p, a);
    if t.len() > a {
        lemma_last_separator(t, a, t.len() as int);
        let q = without_last(t, a);
        lemma_tidied_is_prefix(q, a);
        let dir = tidied(q, a);
        assert(dir =~= p.take(dir.len() as int));
    } else {
        assert(Seq::<char>::empty() =~= p.take(0));
    }
}

} // verus!
