//! Operations on character sequences that manifest parsing is built from.
//!
//! Every executable function here works on a `Vec<char>` and is specified
//! over its view, a `Seq<char>`.

use vstd::prelude::*;

verus! {

/// `String::push` appends the given character to the end of the string.
pub assume_specification[ String::push ](s: &mut String, ch: char)
    ensures
        final(s)@ == old(s)@.push(ch),
;

/// The characters of `s`, in order.
pub fn chars_of(s: &str) -> (v: Vec<char>)
    ensures
        v@ == s@,
{
    let mut v: Vec<char> = Vec::new();
    for c in it: s.chars()
        invariant
            it.seq() == s@,
            v@ == it.seq().subrange(0, it.index() as int),
    {
        v.push(c);
    }
    v
}

/// The string made of the characters `v[from..to]`.
pub fn string_of_range(v: &Vec<char>, from: usize, to: usize) -> (s: String)
    requires
        from <= to <= v.len(),
    ensures
        s@ == v@.subrange(from as int, to as int),
{
    let mut s = String::new();
    let mut i: usize = from;
    while i < to
        invariant
            from <= i <= to <= v.len(),
            s@ == v@.subrange(from as int, i as int),
        decreases to - i,
    {
        s.push(v[i]);
        i += 1;
    }
    s
}

/// The string made of the characters of `v`.
pub fn string_of(v: &Vec<char>) -> (s: String)
    ensures
        s@ == v@,
{
    let s = string_of_range(v, 0, v.len());
    assert(v@.subrange(0, v.len() as int) == v@);
    s
}

/// A copy of `v[from..to]`.
pub fn copy_range(v: &Vec<char>, from: usize, to: usize) -> (r: Vec<char>)
    requires
        from <= to <= v.len(),
    ensures
        r@ == v@.subrange(from as int, to as int),
{
    let mut r: Vec<char> = Vec::new();
    let mut i: usize = from;
    while i < to
        invariant
            from <= i <= to <= v.len(),
            r@ == v@.subrange(from as int, i as int),
        decreases to - i,
    {
        r.push(v[i]);
        i += 1;
    }
    r
}

/// Whether `pat` stands in `s` at index `i`.
pub open spec fn occurs_at(s: Seq<char>, pat: Seq<char>, i: int) -> bool {
    0 <= i && i + pat.len() <= s.len() && s.subrange(i, i + pat.len()) == pat
}

/// Whether `p` is a prefix of `s`.
pub open spec fn is_prefix(p: Seq<char>, s: Seq<char>) -> bool {
    occurs_at(s, p, 0)
}

/// Whether `pat` stands somewhere in `s`.
pub open spec fn contains(s: Seq<char>, pat: Seq<char>) -> bool {
    exists|i: int| occurs_at(s, pat, i)
}

/// Whether `i` is the least index at which `pat` stands in `s`.
pub open spec fn is_first_occurrence(s: Seq<char>, pat: Seq<char>, i: int) -> bool {
    occurs_at(s, pat, i) && forall|j: int| 0 <= j < i ==> !occurs_at(s, pat, j)
}

/// The least index at which `pat` stands in `s`, if there is one.
pub open spec fn find(s: Seq<char>, pat: Seq<char>) -> Option<int> {
    if contains(s, pat) {
        Some(choose|i: int| is_first_occurrence(s, pat, i))
    } else {
        None
    }
}

/// A first occurrence is the only first occurrence, and `find` names it.
pub proof fn lemma_find_is(s: Seq<char>, pat: Seq<char>, i: int)
    requires
        is_first_occurrence(s, pat, i),
    ensures
        find(s, pat) == Some(i),
{
    assert(occurs_at(s, pat, i));
    let k = choose|k: int| is_first_occurrence(s, pat, k);
    assert(is_first_occurrence(s, pat, k));
    if k < i {
        assert(!occurs_at(s, pat, k));
    }
    if i < k {
        assert(!occurs_at(s, pat, i));
    }
}

/// Where `pat` stands nowhere in `s`, `find` gives nothing.
pub proof fn lemma_find_none(s: Seq<char>, pat: Seq<char>)
    requires
        forall|j: int| 0 <= j && j + pat.len() <= s.len() ==> !occurs_at(s, pat, j),
    ensures
        find(s, pat) == None::<int>,
{
}

/// Decides whether `pat` stands in `s` at index `i`.
pub fn matches_at(s: &Vec<char>, pat: &Vec<char>, i: usize) -> (r: bool)
    ensures
        r == occurs_at(s@, pat@, i as int),
{
    if i > s.len() || pat.len() > s.len() - i {
        return false;
    }
    let mut k: usize = 0;
    while k < pat.len()
        invariant
            k <= pat.len(),
            i + pat.len() <= s.len(),
            s@.subrange(i as int, i + k) == pat@.subrange(0, k as int),
        decreases pat.len() - k,
    {
        if s[i + k] != pat[k] {
            assert(s@.subrange(i as int, i + pat.len())[k as int] != pat@[k as int]);
            return false;
        }
        assert(s@.subrange(i as int, i + k + 1) == s@.subrange(i as int, i + k).push(
            s@[i + k],
        ));
        assert(pat@.subrange(0, k + 1) == pat@.subrange(0, k as int).push(pat@[k as int]));
        k += 1;
    }
    assert(pat@.subrange(0, pat.len() as int) == pat@);
    true
}

/// Decides whether `s` begins with `p`.
pub fn starts_with(s: &Vec<char>, p: &Vec<char>) -> (r: bool)
    ensures
        r == is_prefix(p@, s@),
{
    matches_at(s, p, 0)
}

/// The least index at which `pat` stands in `s`.
pub fn find_in(s: &Vec<char>, pat: &Vec<char>) -> (r: Option<usize>)
    ensures
        match r {
            Some(i) => find(s@, pat@) == Some(i as int) && is_first_occurrence(s@, pat@, i as int),
            None => find(s@, pat@) == None::<int> && !contains(s@, pat@),
        },
{
    if pat.len() > s.len() {
        proof {
            lemma_find_none(s@, pat@);
        }
        return None;
    }
    let last: usize = s.len() - pat.len();
    let mut i: usize = 0;
    while i < last
        invariant
            last == s.len() - pat.len(),
            i <= last,
            forall|j: int| 0 <= j < i ==> !occurs_at(s@, pat@, j),
        decreases last - i,
    {
        if matches_at(s, pat, i) {
            proof {
                lemma_find_is(s@, pat@, i as int);
            }
            return Some(i);
        }
        i += 1;
    }
    if matches_at(s, pat, last) {
        proof {
            lemma_find_is(s@, pat@, last as int);
        }
        return Some(last);
    }
    proof {
        lemma_find_none(s@, pat@);
    }
    None
}

/// Decides whether `pat` stands somewhere in `s`.
pub fn contains_text(s: &Vec<char>, pat: &Vec<char>) -> (r: bool)
    ensures
        r == contains(s@, pat@),
{
    find_in(s, pat).is_some()
}

/// The least index at which `c` stands in `s`, if there is one.
pub open spec fn first_index_of(s: Seq<char>, c: char) -> Option<int>
    decreases s.len(),
{
    if s.len() == 0 {
        None
    } else if s[0] == c {
        Some(0)
    } else {
        match first_index_of(s.skip(1), c) {
            Some(i) => Some(i + 1),
            None => None,
        }
    }
}

/// What `first_index_of` finds is the first place where `c` stands.
pub proof fn lemma_first_index_of(s: Seq<char>, c: char)
    ensures
        match first_index_of(s, c) {
            Some(i) => 0 <= i < s.len() && s[i] == c && forall|j: int| 0 <= j < i ==> s[j] != c,
            None => forall|j: int| 0 <= j < s.len() ==> s[j] != c,
        },
    decreases s.len(),
{
    if s.len() > 0 && s[0] != c {
        let tail = s.skip(1);
        lemma_first_index_of(tail, c);
        assert(forall|j: int| 0 <= j < tail.len() ==> tail[j] == s[j + 1]);
        assert(forall|j: int| 1 <= j < s.len() ==> s[j] == tail[j - 1]);
    }
}

/// The least index at which `c` stands in `s`.
pub fn find_char(s: &Vec<char>, c: char) -> (r: Option<usize>)
    ensures
        match r {
            Some(i) => first_index_of(s@, c) == Some(i as int) && i < s.len() && s@[i as int] == c
                && forall|j: int| 0 <= j < i ==> s@[j] != c,
            None => first_index_of(s@, c) == None::<int> && forall|j: int|
                0 <= j < s.len() ==> s@[j] != c,
        },
{
    let mut i: usize = 0;
    assert(s@.skip(0) == s@);
    while i < s.len()
        invariant
            i <= s.len(),
            first_index_of(s@, c) == match first_index_of(s@.skip(i as int), c) {
                Some(k) => Some(k + i),
                None => None,
            },
        decreases s.len() - i,
    {
        if s[i] == c {
            proof {
                lemma_first_index_of(s@, c);
            }
            return Some(i);
        }
        assert(s@.skip(i as int).skip(1) == s@.skip(i + 1));
        i += 1;
    }
    proof {
        lemma_first_index_of(s@, c);
    }
    None
}

/// The greatest index at which `c` stands in `s`, if there is one.
pub open spec fn last_index_of(s: Seq<char>, c: char) -> Option<int>
    decreases s.len(),
{
    if s.len() == 0 {
        None
    } else if s.last() == c {
        Some(s.len() - 1)
    } else {
        last_index_of(s.drop_last(), c)
    }
}

/// What `last_index_of` finds is the last place where `c` stands.
pub proof fn lemma_last_index_of(s: Seq<char>, c: char)
    ensures
        match last_index_of(s, c) {
            Some(i) => 0 <= i < s.len() && s[i] == c && forall|j: int|
                i < j < s.len() ==> s[j] != c,
            None => forall|j: int| 0 <= j < s.len() ==> s[j] != c,
        },
    decreases s.len(),
{
    if s.len() > 0 && s.last() != c {
        let head = s.drop_last();
        lemma_last_index_of(head, c);
        assert(forall|j: int| 0 <= j < head.len() ==> head[j] == s[j]);
    }
}

/// The greatest index at which `c` stands in `s`.
pub fn rfind_char(s: &Vec<char>, c: char) -> (r: Option<usize>)
    ensures
        match r {
            Some(i) => last_index_of(s@, c) == Some(i as int),
            None => last_index_of(s@, c) == None::<int>,
        },
{
    let mut i: usize = s.len();
    assert(s@.subrange(0, s.len() as int) == s@);
    while i > 0
        invariant
            i <= s.len(),
            last_index_of(s@, c) == last_index_of(s@.subrange(0, i as int), c),
        decreases i,
    {
        let ghost head = s@.subrange(0, i as int);
        if s[i - 1] == c {
            assert(head.last() == c);
            return Some(i - 1);
        }
        assert(head.drop_last() == s@.subrange(0, i - 1));
        i -= 1;
    }
    assert(s@.subrange(0, 0).len() == 0);
    None
}

/// `s` with every occurrence of `pat` taken out, found from left to right
/// without overlap. An empty `pat` takes nothing out.
pub open spec fn remove_all(s: Seq<char>, pat: Seq<char>) -> Seq<char>
    decreases s.len(),
{
    if pat.len() == 0 || s.len() < pat.len() {
        s
    } else if is_prefix(pat, s) {
        remove_all(s.skip(pat.len() as int), pat)
    } else {
        seq![s[0]] + remove_all(s.skip(1), pat)
    }
}

/// Takes every occurrence of `pat` out of `s`.
pub fn remove_all_of(s: &Vec<char>, pat: &Vec<char>) -> (r: Vec<char>)
    ensures
        r@ == remove_all(s@, pat@),
{
    if pat.len() == 0 {
        return copy_range(s, 0, s.len());
    }
    let mut out: Vec<char> = Vec::new();
    let mut i: usize = 0;
    assert(s@.skip(0) == s@);
    assert(Seq::<char>::empty() + remove_all(s@, pat@) == remove_all(s@, pat@));
    while i < s.len()
        invariant
            i <= s.len(),
            pat.len() > 0,
            out@ + remove_all(s@.skip(i as int), pat@) == remove_all(s@, pat@),
        decreases s.len() - i,
    {
        let ghost rest = s@.skip(i as int);
        if matches_at(s, pat, i) {
            assert(rest.subrange(0, pat.len() as int) == s@.subrange(i as int, i + pat.len()));
            assert(rest.skip(pat.len() as int) == s@.skip(i + pat.len()));
            i += pat.len();
        } else {
            proof {
                assert(rest.skip(1) == s@.skip(i + 1));
                if rest.len() < pat@.len() {
                    lemma_remove_all_short(rest, pat@);
                    lemma_remove_all_short(rest.skip(1), pat@);
                    assert(rest == seq![rest[0]] + rest.skip(1));
                } else {
                    assert(rest.subrange(0, pat@.len() as int) == s@.subrange(
                        i as int,
                        i + pat@.len(),
                    ));
                }
                assert(out@.push(s@[i as int]) + remove_all(s@.skip(i + 1), pat@) == out@
                    + remove_all(rest, pat@));
            }
            out.push(s[i]);
            i += 1;
        }
    }
    assert(s@.skip(s.len() as int).len() == 0);
    assert(out@ + Seq::<char>::empty() == out@);
    out
}

/// A sequence shorter than `pat` holds no occurrence of it.
pub proof fn lemma_remove_all_short(s: Seq<char>, pat: Seq<char>)
    requires
        s.len() < pat.len(),
    ensures
        remove_all(s, pat) == s,
{
}

/// The lines of `s`: the pieces between its line feeds. A text without a
/// line feed is one line, and a text that ends in a line feed ends in an
/// empty line.
pub open spec fn split_lines(s: Seq<char>) -> Seq<Seq<char>>
    decreases s.len(),
{
    if s.len() == 0 {
        seq![Seq::<char>::empty()]
    } else {
        let rest = split_lines(s.skip(1));
        if s[0] == '\n' {
            seq![Seq::<char>::empty()] + rest
        } else {
            seq![seq![s[0]] + rest[0]] + rest.skip(1)
        }
    }
}

/// `lines` joined by single line feeds.
pub open spec fn join_lines(lines: Seq<Seq<char>>) -> Seq<char>
    decreases lines.len(),
{
    if lines.len() == 0 {
        Seq::<char>::empty()
    } else if lines.len() == 1 {
        lines[0]
    } else {
        lines[0] + seq!['\n'] + join_lines(lines.skip(1))
    }
}

/// A text has at least one line, no line holds a line feed, and the lines
/// joined by line feeds are the text again.
pub proof fn lemma_split_lines(s: Seq<char>)
    ensures
        split_lines(s).len() >= 1,
        forall|k: int, j: int|
            0 <= k < split_lines(s).len() && 0 <= j < split_lines(s)[k].len()
                ==> #[trigger] split_lines(s)[k][j] != '\n',
        join_lines(split_lines(s)) == s,
    decreases s.len(),
{
    if s.len() > 0 {
        let rest = split_lines(s.skip(1));
        lemma_split_lines(s.skip(1));
        let lines = split_lines(s);
        assert(s == seq![s[0]] + s.skip(1));
        if s[0] == '\n' {
            assert(lines.skip(1) == rest);
            assert(forall|k: int| 1 <= k < lines.len() ==> lines[k] == rest[k - 1]);
            assert(Seq::<char>::empty() + seq!['\n'] + join_lines(rest) == s);
        } else {
            assert(lines.skip(1) == rest.skip(1));
            assert(forall|k: int| 1 <= k < lines.len() ==> lines[k] == rest[k]);
            if rest.len() == 1 {
                assert(lines.len() == 1);
            } else {
                assert((seq![s[0]] + rest[0]) + seq!['\n'] + join_lines(rest.skip(1)) == seq![
                    s[0],
                ] + (rest[0] + seq!['\n'] + join_lines(rest.skip(1))));
            }
        }
    }
}

/// The views of the vectors in `lines`.
pub open spec fn lines_view(lines: Seq<Vec<char>>) -> Seq<Seq<char>> {
    Seq::new(lines.len(), |i: int| lines[i]@)
}

/// Splits `s` at its line feeds.
pub fn lines_of(s: &Vec<char>) -> (lines: Vec<Vec<char>>)
    ensures
        lines_view(lines@) == split_lines(s@),
{
    let mut lines: Vec<Vec<char>> = Vec::new();
    let mut current: Vec<char> = Vec::new();
    let mut i: usize = 0;
    proof {
        lemma_split_lines(s@);
        let rest = split_lines(s@);
        assert(s@.skip(0) == s@);
        assert(lines_view(lines@) + seq![current@ + rest[0]] + rest.skip(1) == rest);
    }
    while i < s.len()
        invariant
            i <= s.len(),
            split_lines(s@) == lines_view(lines@) + seq![
                current@ + split_lines(s@.skip(i as int))[0],
            ] + split_lines(s@.skip(i as int)).skip(1),
        decreases s.len() - i,
    {
        let ghost tail = s@.skip(i as int);
        let ghost rest = split_lines(s@.skip(i + 1));
        let ghost done = lines_view(lines@);
        let ghost cur = current@;
        proof {
            assert(tail.skip(1) == s@.skip(i + 1));
            lemma_split_lines(s@.skip(i + 1));
        }
        if s[i] == '\n' {
            lines.push(current);
            current = Vec::new();
            proof {
                assert(lines_view(lines@) == done.push(cur));
                assert(split_lines(tail) == seq![Seq::<char>::empty()] + rest);
                assert(cur + Seq::<char>::empty() == cur);
                assert(current@ + rest[0] == rest[0]);
                assert(done + seq![cur] + rest == done.push(cur) + seq![rest[0]] + rest.skip(1));
            }
        } else {
            current.push(s[i]);
            proof {
                assert(split_lines(tail) == seq![seq![s@[i as int]] + rest[0]] + rest.skip(1));
                assert(split_lines(tail).skip(1) == rest.skip(1));
                assert(cur + (seq![s@[i as int]] + rest[0]) == cur.push(s@[i as int]) + rest[0]);
            }
        }
        i += 1;
    }
    proof {
        let done = lines_view(lines@);
        assert(s@.skip(s.len() as int).len() == 0);
        assert(current@ + Seq::<char>::empty() == current@);
        assert(seq![Seq::<char>::empty()].skip(1) == Seq::<Seq<char>>::empty());
        assert(done + seq![current@] + Seq::<Seq<char>>::empty() == done.push(current@));
    }
    lines.push(current);
    assert(lines_view(lines@) == split_lines(s@));
    lines
}

/// The characters that count as white space: those with the Unicode
/// property `White_Space`.
pub open spec fn is_space(c: char) -> bool {
    let n = c as u32;
    ||| (0x09 <= n <= 0x0d)
    ||| n == 0x20
    ||| n == 0x85
    ||| n == 0xa0
    ||| n == 0x1680
    ||| (0x2000 <= n <= 0x200a)
    ||| n == 0x2028
    ||| n == 0x2029
    ||| n == 0x202f
    ||| n == 0x205f
    ||| n == 0x3000
}

/// Decides whether `c` is white space.
pub fn is_space_char(c: char) -> (r: bool)
    ensures
        r == is_space(c),
{
    let n: u32 = c as u32;
    (0x09 <= n && n <= 0x0d) || n == 0x20 || n == 0x85 || n == 0xa0 || n == 0x1680 || (0x2000 <= n
        && n <= 0x200a) || n == 0x2028 || n == 0x2029 || n == 0x202f || n == 0x205f || n == 0x3000
}

/// `s` without the white space at its start.
pub open spec fn trim_start(s: Seq<char>) -> Seq<char>
    decreases s.len(),
{
    if s.len() > 0 && is_space(s[0]) {
        trim_start(s.skip(1))
    } else {
        s
    }
}

/// `s` without the white space at its end.
pub open spec fn trim_end(s: Seq<char>) -> Seq<char>
    decreases s.len(),
{
    if s.len() > 0 && is_space(s.last()) {
        trim_end(s.drop_last())
    } else {
        s
    }
}

/// `s` without the white space at its start and at its end.
pub open spec fn trim(s: Seq<char>) -> Seq<char> {
    trim_end(trim_start(s))
}

/// Takes the white space off both ends of `s`.
pub fn trimmed(s: &Vec<char>) -> (r: Vec<char>)
    ensures
        r@ == trim(s@),
{
    let mut from: usize = 0;
    assert(s@.skip(0) == s@);
    while from < s.len() && is_space_char(s[from])
        invariant
            from <= s.len(),
            trim_start(s@) == trim_start(s@.skip(from as int)),
        decreases s.len() - from,
    {
        assert(s@.skip(from as int).skip(1) == s@.skip(from + 1));
        from += 1;
    }
    let mut to: usize = s.len();
    assert(s@.subrange(from as int, to as int) == s@.skip(from as int));
    while to > from && is_space_char(s[to - 1])
        invariant
            from <= to <= s.len(),
            trim(s@) == trim_end(s@.subrange(from as int, to as int)),
        decreases to,
    {
        assert(s@.subrange(from as int, to as int).drop_last() == s@.subrange(
            from as int,
            to - 1,
        ));
        to -= 1;
    }
    copy_range(s, from, to)
}

/// `s` without the run of `c` at its end.
pub open spec fn strip_trailing(s: Seq<char>, c: char) -> Seq<char>
    decreases s.len(),
{
    if s.len() > 0 && s.last() == c {
        strip_trailing(s.drop_last(), c)
    } else {
        s
    }
}

/// The length of `s@[from..]` once the run of `c` at its end is taken off,
/// counted from the start of `s`.
pub fn end_without_trailing(s: &Vec<char>, from: usize, c: char) -> (to: usize)
    requires
        from <= s.len(),
    ensures
        from <= to <= s.len(),
        s@.subrange(from as int, to as int) == strip_trailing(s@.skip(from as int), c),
{
    let mut to: usize = s.len();
    assert(s@.subrange(from as int, to as int) == s@.skip(from as int));
    while to > from && s[to - 1] == c
        invariant
            from <= to <= s.len(),
            strip_trailing(s@.skip(from as int), c) == strip_trailing(
                s@.subrange(from as int, to as int),
                c,
            ),
        decreases to,
    {
        assert(s@.subrange(from as int, to as int).drop_last() == s@.subrange(
            from as int,
            to - 1,
        ));
        to -= 1;
    }
    to
}

/// The index of the first of `lines` that begins with `tag`, if there is one.
pub open spec fn first_tagged(lines: Seq<Seq<char>>, tag: Seq<char>) -> Option<int>
    decreases lines.len(),
{
    if lines.len() == 0 {
        None
    } else if is_prefix(tag, lines[0]) {
        Some(0)
    } else {
        match first_tagged(lines.skip(1), tag) {
            Some(i) => Some(i + 1),
            None => None,
        }
    }
}

/// What `first_tagged` finds is the first line that begins with `tag`.
pub proof fn lemma_first_tagged(lines: Seq<Seq<char>>, tag: Seq<char>)
    ensures
        match first_tagged(lines, tag) {
            Some(i) => 0 <= i < lines.len() && is_prefix(tag, lines[i]) && forall|j: int|
                0 <= j < i ==> !is_prefix(tag, #[trigger] lines[j]),
            None => forall|j: int| 0 <= j < lines.len() ==> !is_prefix(tag, #[trigger] lines[j]),
        },
    decreases lines.len(),
{
    if lines.len() > 0 && !is_prefix(tag, lines[0]) {
        let tail = lines.skip(1);
        lemma_first_tagged(tail, tag);
        assert(forall|j: int| 0 <= j < tail.len() ==> tail[j] == lines[j + 1]);
        assert(forall|j: int| 1 <= j < lines.len() ==> lines[j] == tail[j - 1]);
    }
}

/// The index of the first of `lines` that begins with `tag`.
pub fn find_tagged(lines: &Vec<Vec<char>>, tag: &Vec<char>) -> (r: Option<usize>)
    ensures
        match r {
            Some(i) => first_tagged(lines_view(lines@), tag@) == Some(i as int) && i < lines.len(),
            None => first_tagged(lines_view(lines@), tag@) == None::<int>,
        },
{
    let ghost all = lines_view(lines@);
    let mut i: usize = 0;
    assert(all.skip(0) == all);
    while i < lines.len()
        invariant
            i <= lines.len(),
            all == lines_view(lines@),
            first_tagged(all, tag@) == match first_tagged(all.skip(i as int), tag@) {
                Some(k) => Some(k + i),
                None => None,
            },
        decreases lines.len() - i,
    {
        assert(all.skip(i as int)[0] == lines@[i as int]@);
        if starts_with(&lines[i], tag) {
            return Some(i);
        }
        assert(all.skip(i as int).skip(1) == all.skip(i + 1));
        i += 1;
    }
    None
}

} // verus!
