//! Reading text character by character: splitting, trimming, searching.

use vstd::prelude::*;
use vstd::string::{StrSliceExecFns, StringExecFns};

verus! {

broadcast use vstd::string::group_string_axioms;

/// The views of a sequence of strings.
pub open spec fn texts(parts: Seq<String>) -> Seq<Seq<char>> {
    parts.map_values(|p: String| p@)
}

/// What an optional text says on the wire: nothing is the empty text.
pub open spec fn text_or_empty(t: Option<String>) -> Seq<char> {
    match t {
        Some(s) => s@,
        None => Seq::empty(),
    }
}

/// The least position at or after `from` that holds `c`, or the length of `s`.
pub open spec fn position(s: Seq<char>, c: char, from: int) -> int
    decreases s.len() - from,
{
    if from >= s.len() || s[from] == c {
        from
    } else {
        position(s, c, from + 1)
    }
}

/// The parts of `s` between occurrences of `sep`, in order. There is always at
/// least one part, and there is one more part than there are separators.
pub open spec fn split(s: Seq<char>, sep: char) -> Seq<Seq<char>>
    decreases s.len(),
    via split_decreases
{
    let i = position(s, sep, 0);
    if i >= s.len() {
        seq![s]
    } else {
        seq![s.take(i)] + split(s.skip(i + 1), sep)
    }
}

#[via_fn]
proof fn split_decreases(s: Seq<char>, sep: char) {
    lemma_position(s, sep, 0);
}

/// What the first position is: nothing before it holds `c`.
pub proof fn lemma_position(s: Seq<char>, c: char, from: int)
    requires
        0 <= from <= s.len(),
    ensures
        from <= position(s, c, from) <= s.len(),
        position(s, c, from) < s.len() ==> s[position(s, c, from)] == c,
        forall|k: int| from <= k < position(s, c, from) ==> s[k] != c,
    decreases s.len() - from,
{
    if from < s.len() && s[from] != c {
        lemma_position(s, c, from + 1);
    }
}

/// A position that holds `c`, with no `c` before it from `from` on, is the first.
pub proof fn lemma_position_is(s: Seq<char>, c: char, from: int, at: int)
    requires
        0 <= from <= at <= s.len(),
        at < s.len() ==> s[at] == c,
        forall|k: int| from <= k < at ==> s[k] != c,
    ensures
        position(s, c, from) == at,
    decreases at - from,
{
    if from < at {
        lemma_position_is(s, c, from + 1, at);
    }
}

/// `pat` stands in `s` at position `i`.
pub open spec fn occurs_at(s: Seq<char>, pat: Seq<char>, i: int) -> bool {
    0 <= i && i + pat.len() <= s.len() && s.subrange(i, i + pat.len()) == pat
}

/// `pat` stands somewhere in `s`.
pub open spec fn occurs(s: Seq<char>, pat: Seq<char>) -> bool {
    exists|i: int| occurs_at(s, pat, i)
}

/// `s` begins with `pat`.
pub open spec fn begins_with(s: Seq<char>, pat: Seq<char>) -> bool {
    occurs_at(s, pat, 0)
}

/// The lower-case form of an ASCII capital; any other character itself.
pub open spec fn ascii_lower(c: char) -> char {
    if 'A' <= c && c <= 'Z' {
        (c as u32 + 32) as char
    } else {
        c
    }
}

/// `s` with every ASCII capital in lower case.
pub open spec fn ascii_lowered(s: Seq<char>) -> Seq<char> {
    s.map_values(|c: char| ascii_lower(c))
}

/// The characters with the Unicode property White_Space.
pub open spec fn white_space(c: char) -> bool {
    let u = c as u32;
    ||| 0x09 <= u <= 0x0d
    ||| u == 0x20
    ||| u == 0x85
    ||| u == 0xa0
    ||| u == 0x1680
    ||| 0x2000 <= u <= 0x200a
    ||| u == 0x2028
    ||| u == 0x2029
    ||| u == 0x202f
    ||| u == 0x205f
    ||| u == 0x3000
}

/// `s` without the white space at its end.
pub open spec fn trimmed_end(s: Seq<char>) -> Seq<char>
    decreases s.len(),
{
    if s.len() > 0 && white_space(s.last()) {
        trimmed_end(s.drop_last())
    } else {
        s
    }
}

/// `s` without the white space at its beginning.
pub open spec fn trimmed_start(s: Seq<char>) -> Seq<char>
    decreases s.len(),
{
    if s.len() > 0 && white_space(s[0]) {
        trimmed_start(s.drop_first())
    } else {
        s
    }
}

/// `s` without the white space at both ends.
pub open spec fn trimmed(s: Seq<char>) -> Seq<char> {
    trimmed_end(trimmed_start(s))
}

/// `s` without the run of `c` at its end.
pub open spec fn without_trailing(s: Seq<char>, c: char) -> Seq<char>
    decreases s.len(),
{
    if s.len() > 0 && s.last() == c {
        without_trailing(s.drop_last(), c)
    } else {
        s
    }
}

/// The decimal digit of a number below ten.
pub open spec fn digit(n: nat) -> char {
    (48 + n % 10) as char
}

/// The decimal notation of a number, without leading zeros.
pub open spec fn decimal(n: nat) -> Seq<char>
    decreases n,
{
    if n < 10 {
        seq![digit(n)]
    } else {
        decimal(n / 10).push(digit(n % 10))
    }
}

/// An optional text, where nothing is the empty text.
pub fn text_of(t: &Option<String>) -> (r: String)
    ensures
        r@ == text_or_empty(*t),
{
    match t {
        Some(s) => s.clone(),
        None => String::new(),
    }
}

/// The characters of `s`, in order.
pub fn chars_of(s: &str) -> (r: Vec<char>)
    ensures
        r@ == s@,
{
    let mut r: Vec<char> = Vec::new();
    for c in it: s.chars()
        invariant
            it.seq() == s@,
            r@ == s@.take(it.index() as int),
    {
        r.push(c);
    }
    r
}

/// The parts of `s` between occurrences of `sep`.
pub fn split_text(s: &str, sep: char) -> (r: Vec<String>)
    ensures
        texts(r@) == split(s@, sep),
        r@.len() >= 1,
{
    let chars: Vec<char> = chars_of(s);
    let n: usize = chars.len();
    let mut parts: Vec<String> = Vec::new();
    let mut start: usize = 0;
    let mut i: usize = 0;
    assert(s@.skip(0) =~= s@);
    assert(texts(parts@) + split(s@.skip(0), sep) =~= split(s@, sep));
    while i < n
        invariant
            n == s@.len(),
            chars@ == s@,
            start <= i <= n,
            forall|k: int| start <= k < i ==> s@[k] != sep,
            texts(parts@) + split(s@.skip(start as int), sep) == split(s@, sep),
        decreases n - i,
    {
        if chars[i] == sep {
            let part: String = s.substring_char(start, i).to_owned();
            proof {
                let rest = s@.skip(start as int);
                lemma_position_is(rest, sep, 0, i - start);
                assert(rest.take(i - start) =~= part@);
                assert(rest.skip(i - start + 1) =~= s@.skip(i + 1));
                assert(split(rest, sep) == seq![part@] + split(s@.skip(i + 1), sep));
                assert(texts(parts@.push(part)) =~= texts(parts@).push(part@));
                assert(texts(parts@.push(part)) + split(s@.skip(i + 1), sep) =~= texts(parts@)
                    + split(rest, sep));
            }
            parts.push(part);
            start = i + 1;
        }
        i = i + 1;
    }
    let last: String = s.substring_char(start, n).to_owned();
    proof {
        let rest = s@.skip(start as int);
        lemma_position_is(rest, sep, 0, n - start);
        assert(last@ =~= rest);
        assert(split(rest, sep) == seq![last@]);
        assert(texts(parts@.push(last)) =~= texts(parts@) + seq![last@]);
    }
    parts.push(last);
    parts
}

/// Whether `pat` stands in `s` at position `i`.
fn stands_at(s: &Vec<char>, pat: &Vec<char>, i: usize) -> (r: bool)
    requires
        i <= s@.len(),
    ensures
        r == occurs_at(s@, pat@, i as int),
{
    if pat.len() > s.len() - i {
        return false;
    }
    let mut k: usize = 0;
    while k < pat.len()
        invariant
            i + pat@.len() <= s.len(),
            k <= pat@.len(),
            forall|j: int| 0 <= j < k ==> s@[i + j] == pat@[j],
        decreases pat@.len() - k,
    {
        if s[i + k] != pat[k] {
            assert(s@.subrange(i as int, i + pat@.len())[k as int] != pat@[k as int]);
            return false;
        }
        k = k + 1;
    }
    assert(s@.subrange(i as int, i + pat@.len()) =~= pat@);
    true
}

/// Whether `s` begins with `pat`.
pub fn has_prefix(s: &str, pat: &str) -> (r: bool)
    ensures
        r == begins_with(s@, pat@),
{
    let chars: Vec<char> = chars_of(s);
    let wanted: Vec<char> = chars_of(pat);
    stands_at(&chars, &wanted, 0)
}

/// What follows `pat` at the beginning of `s`, if `s` begins with it.
pub fn strip_prefix(s: &str, pat: &str) -> (r: Option<String>)
    ensures
        r is Some <==> begins_with(s@, pat@),
        r matches Some(rest) ==> rest@ == s@.skip(pat@.len() as int),
{
    if has_prefix(s, pat) {
        let n: usize = s.unicode_len();
        let m: usize = pat.unicode_len();
        let rest: String = s.substring_char(m, n).to_owned();
        assert(rest@ =~= s@.skip(pat@.len() as int));
        Some(rest)
    } else {
        None
    }
}

/// Whether `pat` stands somewhere in `s`.
pub fn contains_chars(s: &Vec<char>, pat: &Vec<char>) -> (r: bool)
    ensures
        r == occurs(s@, pat@),
{
    let mut i: usize = 0;
    while i < s.len()
        invariant
            i <= s@.len(),
            forall|j: int| 0 <= j < i ==> !occurs_at(s@, pat@, j),
        decreases s@.len() - i,
    {
        if stands_at(s, pat, i) {
            return true;
        }
        i = i + 1;
    }
    stands_at(s, pat, i)
}

/// The characters of `s` with every ASCII capital in lower case.
pub fn lowered_chars(s: &str) -> (r: Vec<char>)
    ensures
        r@ == ascii_lowered(s@),
{
    let chars: Vec<char> = chars_of(s);
    let mut r: Vec<char> = Vec::new();
    let mut i: usize = 0;
    while i < chars.len()
        invariant
            chars@ == s@,
            i <= s@.len(),
            r@ == ascii_lowered(s@).take(i as int),
        decreases s@.len() - i,
    {
        let c: char = chars[i];
        let low: char = if 'A' <= c && c <= 'Z' {
            (c as u8 + 32) as char
        } else {
            c
        };
        r.push(low);
        assert(ascii_lowered(s@).take(i + 1) =~= ascii_lowered(s@).take(i as int).push(low));
        i = i + 1;
    }
    assert(ascii_lowered(s@).take(i as int) =~= ascii_lowered(s@));
    r
}

/// Whether `c` has the Unicode property White_Space.
fn is_white_space(c: char) -> (r: bool)
    ensures
        r == white_space(c),
{
    let u: u32 = c as u32;
    (0x09 <= u && u <= 0x0d) || u == 0x20 || u == 0x85 || u == 0xa0 || u == 0x1680 || (0x2000 <= u
        && u <= 0x200a) || u == 0x2028 || u == 0x2029 || u == 0x202f || u == 0x205f || u == 0x3000
}

/// `s` without the white space at both ends.
pub fn trim(s: &str) -> (r: String)
    ensures
        r@ == trimmed(s@),
{
    let chars: Vec<char> = chars_of(s);
    let n: usize = chars.len();
    let mut from: usize = 0;
    assert(s@.skip(0) =~= s@);
    while from < n && is_white_space(chars[from])
        invariant
            chars@ == s@,
            n == s@.len(),
            from <= n,
            trimmed_start(s@.skip(from as int)) == trimmed_start(s@),
        decreases n - from,
    {
        assert(s@.skip(from as int).drop_first() =~= s@.skip(from + 1));
        from = from + 1;
    }
    let ghost tail = s@.skip(from as int);
    let mut to: usize = n;
    assert(s@.subrange(from as int, to as int) =~= tail);
    while to > from && is_white_space(chars[to - 1])
        invariant
            chars@ == s@,
            n == s@.len(),
            from <= to <= n,
            trimmed_end(s@.subrange(from as int, to as int)) == trimmed_end(tail),
        decreases to,
    {
        assert(s@.subrange(from as int, to as int).drop_last() =~= s@.subrange(
            from as int,
            to - 1,
        ));
        to = to - 1;
    }
    s.substring_char(from, to).to_owned()
}

/// `s` without the run of `c` at its end.
pub fn trim_trailing(s: &str, c: char) -> (r: String)
    ensures
        r@ == without_trailing(s@, c),
{
    let chars: Vec<char> = chars_of(s);
    let mut to: usize = chars.len();
    assert(s@.take(to as int) =~= s@);
    while to > 0 && chars[to - 1] == c
        invariant
            chars@ == s@,
            to <= s@.len(),
            without_trailing(s@.take(to as int), c) == without_trailing(s@, c),
        decreases to,
    {
        assert(s@.take(to as int).drop_last() =~= s@.take(to - 1));
        to = to - 1;
    }
    assert(s@.subrange(0, to as int) =~= s@.take(to as int));
    s.substring_char(0, to).to_owned()
}

/// The decimal notation of `n`.
pub fn decimal_text(n: u64) -> (r: String)
    ensures
        r@ == decimal(n as nat),
    decreases n,
{
    let mut r: String = if n < 10 {
        String::new()
    } else {
        decimal_text(n / 10)
    };
    let d: u64 = n % 10;
    let text: &str = if d == 0 {
        "0"
    } else if d == 1 {
        "1"
    } else if d == 2 {
        "2"
    } else if d == 3 {
        "3"
    } else if d == 4 {
        "4"
    } else if d == 5 {
        "5"
    } else if d == 6 {
        "6"
    } else if d == 7 {
        "7"
    } else if d == 8 {
        "8"
    } else {
        "9"
    };
    proof {
        reveal_strlit("0");
        reveal_strlit("1");
        reveal_strlit("2");
        reveal_strlit("3");
        reveal_strlit("4");
        reveal_strlit("5");
        reveal_strlit("6");
        reveal_strlit("7");
        reveal_strlit("8");
        reveal_strlit("9");
        assert(text@ =~= seq![digit(d as nat)]);
    }
    r.append(text);
    r
}

/// The parts with `sep` between them.
pub open spec fn glued(parts: Seq<Seq<char>>, sep: char) -> Seq<char>
    decreases parts.len(),
{
    if parts.len() == 0 {
        Seq::empty()
    } else if parts.len() == 1 {
        parts[0]
    } else {
        parts[0].push(sep) + glued(parts.drop_first(), sep)
    }
}

/// Splitting loses nothing and leaves no separator: the parts, with separators
/// between them, are the text again, and none of them holds one.
pub proof fn law_parts_make_the_text(s: Seq<char>, sep: char)
    ensures
        split(s, sep).len() >= 1,
        glued(split(s, sep), sep) == s,
        forall|k: int, i: int|
            0 <= k < split(s, sep).len() && 0 <= i < split(s, sep)[k].len() ==> #[trigger] split(
                s,
                sep,
            )[k][i] != sep,
    decreases s.len(),
{
    lemma_position(s, sep, 0);
    let i = position(s, sep, 0);
    if i >= s.len() {
        assert(split(s, sep) == seq![s]);
    } else {
        let rest = split(s.skip(i + 1), sep);
        law_parts_make_the_text(s.skip(i + 1), sep);
        let parts = split(s, sep);
        assert(parts == seq![s.take(i)] + rest);
        assert(parts.drop_first() =~= rest);
        assert(glued(parts, sep) == s.take(i).push(sep) + s.skip(i + 1));
        assert(s.take(i).push(sep) + s.skip(i + 1) =~= s);
        assert forall|k: int, j: int| 0 <= k < parts.len() && 0 <= j < parts[k].len() implies
            #[trigger] parts[k][j] != sep by {
            if k > 0 {
                assert(parts[k] == rest[k - 1]);
            }
        }
    }
}

/// A text stands in another exactly if the other is made of something, the
/// text, and something; and at its beginning exactly if nothing comes first.
pub proof fn law_found_text_is_there(s: Seq<char>, before: Seq<char>, pat: Seq<char>, after: Seq<char>)
    ensures
        occurs(before + pat + after, pat),
        begins_with(pat + after, pat),
        occurs(s, pat) ==> exists|i: int|
            0 <= i <= s.len() - pat.len() && #[trigger] s.take(i) + pat + s.skip(i + pat.len()) == s,
        begins_with(s, pat) <==> s.len() >= pat.len() && pat + s.skip(pat.len() as int) == s,
{
    let whole = before + pat + after;
    let at = before.len() as int;
    assert(whole.subrange(at, at + pat.len()) =~= pat);
    assert(occurs_at(whole, pat, at));
    assert((pat + after).subrange(0, pat.len() as int) =~= pat);
    if occurs(s, pat) {
        let i = choose|i: int| occurs_at(s, pat, i);
        assert(s.take(i) + pat + s.skip(i + pat.len()) =~= s);
    }
    if begins_with(s, pat) {
        assert(pat + s.skip(pat.len() as int) =~= s);
    }
    if s.len() >= pat.len() && pat + s.skip(pat.len() as int) == s {
        assert((pat + s.skip(pat.len() as int)).subrange(0, pat.len() as int) =~= pat);
    }
}

/// Lowering moves every ASCII capital by the distance of the two alphabets and
/// touches nothing else; doing so twice changes nothing more.
pub proof fn law_lowering_moves_capitals_alone(s: Seq<char>)
    ensures
        ascii_lowered(s).len() == s.len(),
        forall|i: int|
            0 <= i < s.len() ==> (#[trigger] ascii_lowered(s)[i]) as u32 == s[i] as u32 + if 65
                <= s[i] as u32 <= 90 {
                32int
            } else {
                0int
            },
        ascii_lowered(ascii_lowered(s)) == ascii_lowered(s),
{
    assert(ascii_lowered(ascii_lowered(s)) =~= ascii_lowered(s));
}

/// White space is the six blanks of ASCII and the nineteen characters beyond it
/// that have the property, and no character that prints.
pub proof fn law_white_space_does_not_print(c: char)
    ensures
        0x21 <= c as u32 <= 0x7e ==> !white_space(c),
        c == ' ' || c == '\t' || c == '\n' || c == '\r' || c as u32 == 0x0b || c as u32 == 0x0c
            ==> white_space(c),
        white_space(c) && c as u32 > 0x7f ==> {
            let u = c as u32;
            ||| u == 0x85 || u == 0xa0 || u == 0x1680 || u == 0x2028 || u == 0x2029 || u == 0x202f
            ||| u == 0x205f || u == 0x3000
            ||| u / 16 == 0x200 && u % 16 <= 10
        },
        c as u32 == 0x85 || c as u32 == 0xa0 || c as u32 == 0x1680 || c as u32 == 0x2028
            || c as u32 == 0x2029 || c as u32 == 0x202f || c as u32 == 0x205f || c as u32 == 0x3000
            || (c as u32 / 16 == 0x200 && c as u32 % 16 <= 10) ==> white_space(c),
        white_space(c) && c as u32 <= 0x7f ==> c as u32 == 0x20 || 9 <= c as u32 <= 13,
{
}

/// `t` is `s` with only white space taken away before `from` and from `to` on,
/// and no white space left at either end.
pub open spec fn is_core(s: Seq<char>, t: Seq<char>, from: int, to: int) -> bool {
    &&& 0 <= from <= to <= s.len()
    &&& t == s.subrange(from, to)
    &&& forall|i: int| 0 <= i < from || to <= i < s.len() ==> white_space(#[trigger] s[i])
    &&& from < to ==> !white_space(s[from]) && !white_space(s[to - 1])
}

/// Trimming takes white space away at both ends, all of it, and nothing else.
pub proof fn law_trimming_takes_white_space_alone(s: Seq<char>)
    ensures
        exists|from: int, to: int| #[trigger] is_core(s, trimmed(s), from, to),
{
    let from = lemma_trimmed_start(s);
    let tail = trimmed_start(s);
    let n = lemma_trimmed_end(tail);
    let to = from + n;
    assert forall|i: int| 0 <= i < from || to <= i < s.len() implies white_space(#[trigger] s[i]) by {
        if i >= to {
            assert(tail[i - from] == s[i]);
        }
    }
    assert(trimmed(s) =~= s.subrange(from, to));
    assert(n > 0 ==> tail[0] == s[from] && tail[n - 1] == s[to - 1]);
    assert(is_core(s, trimmed(s), from, to));
}

proof fn lemma_trimmed_start(s: Seq<char>) -> (from: int)
    ensures
        0 <= from <= s.len(),
        trimmed_start(s) == s.skip(from),
        forall|i: int| 0 <= i < from ==> white_space(#[trigger] s[i]),
        from < s.len() ==> !white_space(s[from]),
    decreases s.len(),
{
    if s.len() > 0 && white_space(s[0]) {
        let rest = s.drop_first();
        let k = lemma_trimmed_start(rest);
        assert(rest.skip(k) =~= s.skip(k + 1));
        assert forall|i: int| 0 <= i < k + 1 implies white_space(#[trigger] s[i]) by {
            if i > 0 {
                assert(rest[i - 1] == s[i]);
            }
        }
        assert(k < rest.len() ==> rest[k] == s[k + 1]);
        k + 1
    } else {
        assert(s.skip(0) =~= s);
        0
    }
}

proof fn lemma_trimmed_end(s: Seq<char>) -> (to: int)
    ensures
        0 <= to <= s.len(),
        trimmed_end(s) == s.take(to),
        forall|i: int| to <= i < s.len() ==> white_space(#[trigger] s[i]),
        to > 0 ==> !white_space(s[to - 1]),
    decreases s.len(),
{
    if s.len() > 0 && white_space(s.last()) {
        let rest = s.drop_last();
        let k = lemma_trimmed_end(rest);
        assert(rest.take(k) =~= s.take(k));
        assert forall|i: int| k <= i < s.len() implies white_space(#[trigger] s[i]) by {
            if i < rest.len() {
                assert(rest[i] == s[i]);
            }
        }
        assert(k > 0 ==> rest[k - 1] == s[k - 1]);
        k
    } else {
        assert(s.take(s.len() as int) =~= s);
        s.len() as int
    }
}

/// Cutting a trailing character takes the whole run of it away, and nothing
/// else; appending the character first changes nothing.
pub proof fn law_trailing_run_is_cut(s: Seq<char>, c: char)
    ensures
        without_trailing(s, c).len() <= s.len(),
        without_trailing(s, c) == s.take(without_trailing(s, c).len() as int),
        forall|i: int| without_trailing(s, c).len() <= i < s.len() ==> #[trigger] s[i] == c,
        without_trailing(s, c).len() > 0 ==> without_trailing(s, c).last() != c,
        without_trailing(s.push(c), c) == without_trailing(s, c),
    decreases s.len(),
{
    assert(s.push(c).drop_last() =~= s);
    if s.len() > 0 && s.last() == c {
        let rest = s.drop_last();
        law_trailing_run_is_cut(rest, c);
        let k = without_trailing(rest, c).len() as int;
        assert(rest.take(k) =~= s.take(k));
        assert forall|i: int| k <= i < s.len() implies #[trigger] s[i] == c by {
            if i < rest.len() {
                assert(rest[i] == s[i]);
            }
        }
    } else {
        assert(s.take(s.len() as int) =~= s);
    }
}

/// The number that a run of decimal digits denotes.
pub open spec fn number_of(digits: Seq<char>) -> int
    decreases digits.len(),
{
    if digits.len() == 0 {
        0
    } else {
        10 * number_of(digits.drop_last()) + (digits.last() as int - 48)
    }
}

/// Decimal notation denotes its number, in digits, without leading zeros.
pub proof fn law_decimal_denotes_its_number(n: nat)
    ensures
        number_of(decimal(n)) == n,
        decimal(n).len() > 0,
        forall|i: int| 0 <= i < decimal(n).len() ==> '0' <= #[trigger] decimal(n)[i] <= '9',
        decimal(n).len() > 1 ==> decimal(n)[0] != '0',
    decreases n,
{
    reveal_with_fuel(number_of, 2);
    if n < 10 {
        assert(seq![digit(n)].drop_last() =~= Seq::<char>::empty());
    } else {
        law_decimal_denotes_its_number(n / 10);
        let d = decimal(n);
        assert(d.drop_last() =~= decimal(n / 10));
        if n / 10 < 10 {
            assert(decimal(n / 10) == seq![digit(n / 10)]);
        }
    }
}

/// A text that is there goes on the wire as it is, and one that is missing as
/// nothing; a list of texts keeps its length and its order.
pub proof fn law_texts_are_kept(s: String, parts: Seq<String>, i: int)
    requires
        0 <= i < parts.len(),
    ensures
        text_or_empty(Some(s)) == s@,
        text_or_empty(None).len() == 0,
        texts(parts).len() == parts.len(),
        texts(parts)[i] == parts[i]@,
{
}

} // verus!
