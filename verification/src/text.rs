//! Character-sequence primitives that the rest of the library is built on:
//! searching, prefix and suffix tests, replacement, splitting, and decimal
//! numbers, each stated over `Seq<char>` and implemented over `Vec<char>`.
use vstd::prelude::*;

verus! {

/// `p` occurs in `s` starting at index `i`.
pub open spec fn matches_at(s: Seq<char>, p: Seq<char>, i: int) -> bool {
    0 <= i && i + p.len() <= s.len() && s.subrange(i, i + p.len()) == p
}

/// The first index at or after `i` where `p` occurs in `s`.
pub open spec fn find_from(s: Seq<char>, p: Seq<char>, i: int) -> Option<int>
    decreases s.len() + 1 - i,
{
    if 0 <= i && i + p.len() <= s.len() {
        if matches_at(s, p, i) {
            Some(i)
        } else {
            find_from(s, p, i + 1)
        }
    } else {
        None
    }
}

/// The first index where `p` occurs in `s` (what `str::find` answers, counted in characters).
pub open spec fn find_first(s: Seq<char>, p: Seq<char>) -> Option<int> {
    find_from(s, p, 0)
}

/// `p` occurs somewhere in `s`.
pub open spec fn contains_seq(s: Seq<char>, p: Seq<char>) -> bool {
    exists|i: int| matches_at(s, p, i)
}

/// `s` begins with `p`.
pub open spec fn has_prefix(s: Seq<char>, p: Seq<char>) -> bool {
    p.len() <= s.len() && s.take(p.len() as int) == p
}

/// `s` ends with `p`.
pub open spec fn has_suffix(s: Seq<char>, p: Seq<char>) -> bool {
    p.len() <= s.len() && s.skip(s.len() - p.len()) == p
}

/// Every occurrence of `from` in `s`, taken left to right without overlap,
/// replaced by `to` (what `str::replace` computes for a non-empty pattern).
pub open spec fn replace_all(s: Seq<char>, from: Seq<char>, to: Seq<char>) -> Seq<char>
    decreases s.len(),
{
    if from.len() == 0 || s.len() < from.len() {
        s
    } else if has_prefix(s, from) {
        to + replace_all(s.skip(from.len() as int), from, to)
    } else {
        seq![s[0]] + replace_all(s.skip(1), from, to)
    }
}

/// The pieces of `s` between occurrences of `sep` (what `str::split` yields
/// for a one-character separator); there is always at least one piece.
pub open spec fn split_on(s: Seq<char>, sep: char) -> Seq<Seq<char>>
    decreases s.len(),
{
    if s.len() == 0 {
        seq![Seq::<char>::empty()]
    } else {
        let init = split_on(s.drop_last(), sep);
        if s.last() == sep {
            init.push(Seq::<char>::empty())
        } else {
            init.update(init.len() - 1, init.last().push(s.last()))
        }
    }
}

/// The pieces of `parts` joined with `sep` between neighbours (what `join` builds).
pub open spec fn join_with(parts: Seq<Seq<char>>, sep: Seq<char>) -> Seq<char>
    decreases parts.len(),
{
    if parts.len() == 0 {
        Seq::<char>::empty()
    } else if parts.len() == 1 {
        parts[0]
    } else {
        join_with(parts.drop_last(), sep) + sep + parts.last()
    }
}

/// What `find_from` answers: the least matching index at or after `i`, or none.
pub proof fn lemma_find_from(s: Seq<char>, p: Seq<char>, i: int)
    requires
        0 <= i,
    ensures
        match find_from(s, p, i) {
            Some(k) => i <= k && matches_at(s, p, k) && forall|j: int|
                i <= j < k ==> !#[trigger] matches_at(s, p, j),
            None => forall|j: int| i <= j ==> !#[trigger] matches_at(s, p, j),
        },
    decreases s.len() + 1 - i,
{
    if 0 <= i && i + p.len() <= s.len() {
        if !matches_at(s, p, i) {
            lemma_find_from(s, p, i + 1);
        }
    }
}

/// `p` occurs in `s` exactly when a first occurrence exists.
pub proof fn lemma_find_first_contains(s: Seq<char>, p: Seq<char>)
    ensures
        find_first(s, p) is Some <==> contains_seq(s, p),
{
    lemma_find_from(s, p, 0);
    if let Some(k) = find_first(s, p) {
        assert(matches_at(s, p, k));
    }
}

/// There is always at least one piece.
pub proof fn lemma_split_nonempty(s: Seq<char>, sep: char)
    ensures
        split_on(s, sep).len() >= 1,
    decreases s.len(),
{
    if s.len() > 0 {
        lemma_split_nonempty(s.drop_last(), sep);
    }
}

/// Replacing a pattern that does not occur leaves the text unchanged.
pub proof fn law_replace_without_occurrence(s: Seq<char>, from: Seq<char>, to: Seq<char>)
    requires
        from.len() > 0,
        !contains_seq(s, from),
    ensures
        replace_all(s, from, to) == s,
    decreases s.len(),
{
    if s.len() >= from.len() {
        if has_prefix(s, from) {
            assert(s.subrange(0, from.len() as int) =~= s.take(from.len() as int));
            assert(matches_at(s, from, 0));
        }
        assert forall|i: int| !matches_at(s.skip(1), from, i) by {
            if matches_at(s.skip(1), from, i) {
                assert(s.skip(1).subrange(i, i + from.len()) =~= s.subrange(i + 1, i + 1 + from.len()));
                assert(matches_at(s, from, i + 1));
            }
        }
        law_replace_without_occurrence(s.skip(1), from, to);
        assert(seq![s[0]] + s.skip(1) =~= s);
    }
}

/// Replacement takes the first occurrence of the pattern, puts the
/// replacement in its place, and goes on after it.
pub proof fn law_replace_first_occurrence(s: Seq<char>, from: Seq<char>, to: Seq<char>, k: int)
    requires
        from.len() > 0,
        find_first(s, from) == Some(k),
    ensures
        replace_all(s, from, to) == s.take(k) + to + replace_all(s.skip(k + from.len()), from, to),
    decreases k,
{
    lemma_find_from(s, from, 0);
    if k == 0 {
        assert(s.take(from.len() as int) =~= s.subrange(0, from.len() as int));
        assert(s.take(0) + to =~= to);
    } else {
        if has_prefix(s, from) {
            assert(s.take(from.len() as int) =~= s.subrange(0, from.len() as int));
            assert(matches_at(s, from, 0));
        }
        let t = s.skip(1);
        assert(t.subrange(k - 1, k - 1 + from.len()) =~= s.subrange(k, k + from.len()));
        assert(matches_at(t, from, k - 1));
        lemma_find_from(t, from, 0);
        if let Some(j) = find_first(t, from) {
            assert(t.subrange(j, j + from.len()) =~= s.subrange(j + 1, j + 1 + from.len()));
            assert(matches_at(s, from, j + 1));
        }
        law_replace_first_occurrence(t, from, to, k - 1);
        assert(t.skip(k - 1 + from.len()) =~= s.skip(k + from.len()));
        assert(seq![s[0]] + t.take(k - 1) =~= s.take(k));
        assert(seq![s[0]] + (t.take(k - 1) + to + replace_all(s.skip(k + from.len()), from, to))
            =~= s.take(k) + to + replace_all(s.skip(k + from.len()), from, to));
    }
}

/// An occurrence stays an occurrence when text is put before or after.
pub proof fn lemma_contains_in_context(a: Seq<char>, s: Seq<char>, b: Seq<char>, p: Seq<char>)
    requires
        contains_seq(s, p),
    ensures
        contains_seq(a + s + b, p),
{
    let i = choose|i: int| matches_at(s, p, i);
    assert((a + s + b).subrange(a.len() + i, a.len() + i + p.len()) =~= s.subrange(i, i + p.len()));
    assert(matches_at(a + s + b, p, a.len() + i));
}

/// Every piece occurs in the pieces joined with a separator.
pub proof fn lemma_join_contains(parts: Seq<Seq<char>>, sep: Seq<char>, i: int)
    requires
        0 <= i < parts.len(),
    ensures
        contains_seq(join_with(parts, sep), parts[i]),
    decreases parts.len(),
{
    if parts.len() == 1 {
        assert(join_with(parts, sep).subrange(0, parts[0].len() as int) =~= parts[0]);
        assert(matches_at(join_with(parts, sep), parts[i], 0));
    } else {
        let init = parts.drop_last();
        let head = join_with(init, sep) + sep;
        if i == parts.len() - 1 {
            assert(contains_seq(parts.last(), parts[i])) by {
                assert(parts.last().subrange(0, parts.last().len() as int) =~= parts.last());
                assert(matches_at(parts.last(), parts[i], 0));
            }
            lemma_contains_in_context(head, parts.last(), Seq::<char>::empty(), parts[i]);
            assert(head + parts.last() + Seq::<char>::empty() =~= join_with(parts, sep));
        } else {
            lemma_join_contains(init, sep, i);
            assert(init[i] == parts[i]);
            lemma_contains_in_context(Seq::<char>::empty(), join_with(init, sep), sep + parts.last(), parts[i]);
            assert(Seq::<char>::empty() + join_with(init, sep) + (sep + parts.last()) =~= join_with(parts, sep));
        }
    }
}

/// Text without the separator is a single piece.
pub proof fn lemma_split_single(b: Seq<char>, sep: char)
    requires
        !b.contains(sep),
    ensures
        split_on(b, sep) == seq![b],
    decreases b.len(),
{
    if b.len() > 0 {
        assert(!b.drop_last().contains(sep)) by {
            if b.drop_last().contains(sep) {
                let k = choose|k: int| 0 <= k < b.len() - 1 && #[trigger] b.drop_last()[k] == sep;
                assert(b[k] == sep);
            }
        }
        lemma_split_single(b.drop_last(), sep);
        assert(b.drop_last().push(b.last()) =~= b);
        assert(split_on(b, sep) =~= seq![b]);
    } else {
        assert(b =~= Seq::<char>::empty());
    }
}

/// Splitting after a separator starts a new piece that runs to the next one.
pub proof fn lemma_split_append(a: Seq<char>, sep: char, b: Seq<char>)
    requires
        !b.contains(sep),
    ensures
        split_on(a + seq![sep] + b, sep) == split_on(a, sep).push(b),
    decreases b.len(),
{
    let s = a + seq![sep] + b;
    if b.len() == 0 {
        assert(s.drop_last() =~= a);
        assert(s.last() == sep);
        assert(b =~= Seq::<char>::empty());
    } else {
        assert(!b.drop_last().contains(sep)) by {
            if b.drop_last().contains(sep) {
                let k = choose|k: int| 0 <= k < b.len() - 1 && #[trigger] b.drop_last()[k] == sep;
                assert(b[k] == sep);
            }
        }
        lemma_split_append(a, sep, b.drop_last());
        assert(s.drop_last() =~= a + seq![sep] + b.drop_last());
        assert(s.last() == b.last());
        assert(b.last() != sep) by {
            assert(b[b.len() - 1] == b.last());
        }
        assert(b.drop_last().push(b.last()) =~= b);
        assert(split_on(s, sep) =~= split_on(a, sep).push(b));
    }
}

/// Text appended after some text leaves the pieces of the latter in place,
/// all but its last one, which the appended text may extend.
pub proof fn lemma_split_prefix(a: Seq<char>, b: Seq<char>, sep: char, i: int)
    requires
        0 <= i < split_on(a, sep).len() - 1,
    ensures
        split_on(a + b, sep).len() >= split_on(a, sep).len(),
        split_on(a + b, sep)[i] == split_on(a, sep)[i],
    decreases b.len(),
{
    if b.len() == 0 {
        assert(a + b =~= a);
    } else {
        let b0 = b.drop_last();
        lemma_split_prefix(a, b0, sep, i);
        assert((a + b).drop_last() =~= a + b0);
        assert((a + b).len() > 0);
    }
}

/// Splitting a joined list at its one-character separator gives the list
/// back, when no piece holds the separator.
pub proof fn lemma_split_join(parts: Seq<Seq<char>>, sep: char)
    requires
        parts.len() >= 1,
        forall|i: int| 0 <= i < parts.len() ==> !(#[trigger] parts[i]).contains(sep),
    ensures
        split_on(join_with(parts, seq![sep]), sep) == parts,
    decreases parts.len(),
{
    if parts.len() == 1 {
        lemma_split_single(parts[0], sep);
        assert(seq![parts[0]] =~= parts);
    } else {
        let init = parts.drop_last();
        assert(forall|i: int| 0 <= i < init.len() ==> #[trigger] init[i] == parts[i]);
        lemma_split_join(init, sep);
        assert(!parts.last().contains(sep)) by {
            assert(parts[parts.len() - 1] == parts.last());
        }
        lemma_split_append(join_with(init, seq![sep]), sep, parts.last());
        assert(init.push(parts.last()) =~= parts);
    }
}

/// Copies the characters of `s` into a vector.
pub fn chars_of(s: &str) -> (v: Vec<char>)
    ensures
        v@ == s@,
{
    broadcast use vstd::string::group_string_axioms;

    let mut v: Vec<char> = Vec::new();
    for c in iter: s.chars()
        invariant
            v@ == iter.seq().take(iter.index() as int),
    {
        v.push(c);
    }
    v
}

/// Appends `c` to `s` (`String::push`).
#[verifier::external_body]
fn push_char(s: &mut String, c: char)
    ensures
        final(s)@ == old(s)@.push(c),
{
    s.push(c);
}

/// Builds a `String` from characters.
pub fn string_of(v: &[char]) -> (s: String)
    ensures
        s@ == v@,
{
    let mut s = String::new();
    let n = v.len();
    for i in 0..n
        invariant
            n == v@.len(),
            s@ == v@.take(i as int),
    {
        push_char(&mut s, v[i]);
        assert(v@.take(i + 1) =~= v@.take(i as int).push(v@[i as int]));
    }
    assert(v@.take(n as int) =~= v@);
    s
}

/// Appends the characters of `tail` to `out`.
pub fn extend_chars(out: &mut Vec<char>, tail: &[char])
    ensures
        final(out)@ == old(out)@ + tail@,
{
    let n = tail.len();
    for i in 0..n
        invariant
            n == tail@.len(),
            out@ == old(out)@ + tail@.take(i as int),
    {
        out.push(tail[i]);
        assert(tail@.take(i + 1) =~= tail@.take(i as int).push(tail@[i as int]));
    }
    assert(tail@.take(n as int) =~= tail@);
}

/// Appends the characters of `tail` to `out`.
pub fn extend_str(out: &mut Vec<char>, tail: &str)
    ensures
        final(out)@ == old(out)@ + tail@,
{
    let t = chars_of(tail);
    extend_chars(out, t.as_slice());
}

/// Tests whether `p` occurs in `s` at index `i`.
pub fn matches_at_exec(s: &[char], p: &[char], i: usize) -> (r: bool)
    ensures
        r == matches_at(s@, p@, i as int),
{
    if i > s.len() || p.len() > s.len() - i {
        return false;
    }
    let n = p.len();
    for k in 0..n
        invariant
            n == p@.len(),
            i + n <= s.len(),
            forall|j: int| 0 <= j < k ==> s@[i + j] == p@[j],
    {
        if s[i + k] != p[k] {
            assert(s@.subrange(i as int, i + n)[k as int] != p@[k as int]);
            return false;
        }
    }
    assert(s@.subrange(i as int, i + n) =~= p@);
    true
}

/// The first index at or after `start` where `p` occurs in `s`.
pub fn find_from_exec(s: &[char], p: &[char], start: usize) -> (r: Option<usize>)
    ensures
        match r {
            Some(k) => find_from(s@, p@, start as int) == Some(k as int),
            None => find_from(s@, p@, start as int) is None,
        },
{
    let mut i = start;
    while i <= s.len() && p.len() <= s.len() - i
        invariant
            start <= i,
            find_from(s@, p@, start as int) == find_from(s@, p@, i as int),
        decreases s.len() + 1 - i,
    {
        if matches_at_exec(s, p, i) {
            return Some(i);
        }
        proof {
            if i == s.len() {
                assert(s@.subrange(i as int, i as int) =~= p@);
            }
        }
        i = i + 1;
    }
    None
}

/// The first index where `p` occurs in `s`.
pub fn find_first_exec(s: &[char], p: &[char]) -> (r: Option<usize>)
    ensures
        match r {
            Some(k) => find_first(s@, p@) == Some(k as int),
            None => find_first(s@, p@) is None,
        },
{
    find_from_exec(s, p, 0)
}

/// Tests whether `p` occurs anywhere in `s`.
pub fn contains_exec(s: &[char], p: &[char]) -> (r: bool)
    ensures
        r == contains_seq(s@, p@),
{
    proof {
        lemma_find_first_contains(s@, p@);
    }
    find_first_exec(s, p).is_some()
}

/// Tests whether `s` begins with `p`.
pub fn starts_with_exec(s: &[char], p: &[char]) -> (r: bool)
    ensures
        r == has_prefix(s@, p@),
{
    let r = matches_at_exec(s, p, 0);
    proof {
        if p@.len() <= s@.len() {
            assert(s@.take(p@.len() as int) =~= s@.subrange(0, p@.len() as int));
        }
    }
    r
}

/// Tests whether `s` ends with `p`.
pub fn ends_with_exec(s: &[char], p: &[char]) -> (r: bool)
    ensures
        r == has_suffix(s@, p@),
{
    if p.len() > s.len() {
        return false;
    }
    let r = matches_at_exec(s, p, s.len() - p.len());
    proof {
        assert(s@.skip(s@.len() - p@.len()) =~= s@.subrange(
            s@.len() - p@.len(),
            s@.len() as int,
        ));
    }
    r
}


/// Replaces every occurrence of `from` in `s` by `to`, left to right.
pub fn replace_all_exec(s: &[char], from: &[char], to: &[char]) -> (r: Vec<char>)
    requires
        from@.len() > 0,
    ensures
        r@ == replace_all(s@, from@, to@),
{
    let mut out: Vec<char> = Vec::new();
    let mut i: usize = 0;
    let n = s.len();
    assert(s@.skip(0) =~= s@);
    while i < n
        invariant
            i <= n,
            n == s@.len(),
            from@.len() > 0,
            out@ + replace_all(s@.skip(i as int), from@, to@) == replace_all(s@, from@, to@),
        decreases n - i,
    {
        let ghost rest = s@.skip(i as int);
        if from.len() > n - i {
            assert(replace_all(rest, from@, to@) == rest);
            let ghost before = out@;
            extend_chars(&mut out, &s[i..n]);
            assert(s@.subrange(i as int, n as int) =~= rest);
            assert(s@.skip(n as int) =~= Seq::<char>::empty());
            assert(out@ + replace_all(s@.skip(n as int), from@, to@) =~= before + rest);
            i = n;
        } else if matches_at_exec(s, from, i) {
            assert(rest.take(from@.len() as int) =~= s@.subrange(i as int, i + from@.len()));
            assert(rest.skip(from@.len() as int) =~= s@.skip(i + from@.len()));
            let ghost before = out@;
            extend_chars(&mut out, to);
            assert(before + (to@ + replace_all(s@.skip(i + from@.len()), from@, to@)) =~= out@
                + replace_all(s@.skip(i + from@.len()), from@, to@));
            i = i + from.len();
        } else {
            assert(rest.take(from@.len() as int) =~= s@.subrange(i as int, i + from@.len()));
            assert(rest.skip(1) =~= s@.skip(i + 1));
            assert(rest[0] == s@[i as int]);
            let ghost before = out@;
            out.push(s[i]);
            assert(before + (seq![s@[i as int]] + replace_all(s@.skip(i + 1), from@, to@)) =~= out@
                + replace_all(s@.skip(i + 1), from@, to@));
            i = i + 1;
        }
    }
    assert(s@.skip(n as int) =~= Seq::<char>::empty());
    assert(out@ + Seq::<char>::empty() =~= out@);
    out
}

/// Splits `s` at every occurrence of `sep`.
pub fn split_exec(s: &[char], sep: char) -> (r: Vec<Vec<char>>)
    ensures
        r@.len() == split_on(s@, sep).len(),
        forall|k: int| 0 <= k < r@.len() ==> #[trigger] r@[k]@ == split_on(s@, sep)[k],
{
    let mut done: Vec<Vec<char>> = Vec::new();
    let mut cur: Vec<char> = Vec::new();
    let n = s.len();
    for i in 0..n
        invariant
            n == s@.len(),
            done@.len() + 1 == split_on(s@.take(i as int), sep).len(),
            forall|k: int| 0 <= k < done@.len() ==> #[trigger] done@[k]@ == split_on(s@.take(i as int), sep)[k],
            cur@ == split_on(s@.take(i as int), sep).last(),
    {
        let ghost prev = s@.take(i as int);
        assert(s@.take(i + 1).drop_last() =~= prev);
        assert(s@.take(i + 1).last() == s@[i as int]);
        if s[i] == sep {
            let finished = cur;
            done.push(finished);
            cur = Vec::new();
            assert(cur@ =~= Seq::<char>::empty());
        } else {
            cur.push(s[i]);
        }
    }
    assert(s@.take(n as int) =~= s@);
    done.push(cur);
    done
}

/// An ASCII decimal digit.
pub open spec fn is_digit(c: char) -> bool {
    '0' <= c && c <= '9'
}

/// The value of an ASCII decimal digit.
pub open spec fn digit_value(c: char) -> int {
    c as int - '0' as int
}

/// The value of a string of decimal digits, most significant first.
pub open spec fn digits_value(d: Seq<char>) -> nat
    decreases d.len(),
{
    if d.len() == 0 {
        0
    } else {
        (digits_value(d.drop_last()) * 10 + digit_value(d.last())) as nat
    }
}

/// Every character of `d` is an ASCII decimal digit.
pub open spec fn all_digits(d: Seq<char>) -> bool {
    forall|i: int| 0 <= i < d.len() ==> is_digit(#[trigger] d[i])
}

/// `s` without one leading `+`, if it has one.
pub open spec fn unsigned_digits(s: Seq<char>) -> Seq<char> {
    if s.len() > 0 && s[0] == '+' {
        s.drop_first()
    } else {
        s
    }
}

/// What `str::parse::<u64>` accepts and answers: an optional `+` followed by
/// at least one ASCII digit, with a value that fits in 64 bits.
pub open spec fn parse_u64_spec(s: Seq<char>) -> Option<u64> {
    let d = unsigned_digits(s);
    if d.len() > 0 && all_digits(d) && digits_value(d) <= u64::MAX {
        Some(digits_value(d) as u64)
    } else {
        None
    }
}

proof fn lemma_digits_value_monotone(d: Seq<char>, k: int)
    requires
        0 <= k <= d.len(),
        all_digits(d),
    ensures
        digits_value(d.take(k)) <= digits_value(d),
    decreases d.len() - k,
{
    if k < d.len() {
        lemma_digits_value_monotone(d, k + 1);
        assert(d.take(k + 1).drop_last() =~= d.take(k));
        assert(d.take(k + 1).last() == d[k]);
        assert(is_digit(d[k]));
    }
    else {
        assert(d.take(k) =~= d);
    }
}

/// Parses a decimal `u64` as `str::parse::<u64>` does.
pub fn parse_u64(s: &[char]) -> (r: Option<u64>)
    ensures
        r == parse_u64_spec(s@),
{
    let mut start: usize = 0;
    if s.len() > 0 && s[0] == '+' {
        start = 1;
    }
    let ghost d = unsigned_digits(s@);
    assert(d =~= s@.skip(start as int));
    if start >= s.len() {
        return None;
    }
    let mut value: u64 = 0;
    let mut i = start;
    let n = s.len();
    while i < n
        invariant
            start <= i <= n,
            n == s@.len(),
            d == s@.skip(start as int),
            d == unsigned_digits(s@),
            forall|j: int| 0 <= j < i - start ==> is_digit(#[trigger] d[j]),
            value == digits_value(d.take(i - start)),
        decreases n - i,
    {
        let c = s[i];
        assert(d[i - start] == c);
        if !('0' <= c && c <= '9') {
            assert(!is_digit(d[i - start]));
            return None;
        }
        assert(d.take(i + 1 - start).drop_last() =~= d.take(i - start));
        assert(d.take(i + 1 - start).last() == c);
        let dv = (c as u32 - '0' as u32) as u64;
        assert(dv == digit_value(c));
        assert(digits_value(d.take(i + 1 - start)) == value * 10 + dv);
        match value.checked_mul(10) {
            Some(v10) => match v10.checked_add(dv) {
                Some(v) => {
                    value = v;
                },
                None => {
                    proof {
                        if all_digits(d) {
                            lemma_digits_value_monotone(d, i + 1 - start);
                        }
                    }
                    return None;
                },
            },
            None => {
                proof {
                    if all_digits(d) {
                        lemma_digits_value_monotone(d, i + 1 - start);
                    }
                }
                return None;
            },
        }
        i = i + 1;
    }
    assert(d.take(n - start) =~= d);
    Some(value)
}


/// The ASCII digit for `d` (for `0 <= d < 10`).
pub open spec fn digit_char(d: int) -> char {
    ((d + 48) as u8) as char
}

/// The decimal representation of `n`, without leading zeros (what `format!("{}", n)` writes).
pub open spec fn decimal(n: nat) -> Seq<char>
    decreases n,
{
    if n < 10 {
        seq![digit_char(n as int)]
    } else {
        decimal(n / 10).push(digit_char((n % 10) as int))
    }
}

/// Appends the decimal representation of `n` to `out`.
pub fn push_decimal(out: &mut Vec<char>, n: u64)
    ensures
        final(out)@ == old(out)@ + decimal(n as nat),
    decreases n,
{
    if n >= 10 {
        push_decimal(out, n / 10);
    }
    let d = (n % 10) as u8;
    let c = (d + 48) as char;
    let ghost before = out@;
    out.push(c);
    assert(out@ =~= old(out)@ + decimal(n as nat));
}

/// The views of a sequence of strings.
pub open spec fn views_of(v: Seq<String>) -> Seq<Seq<char>> {
    v.map_values(|x: String| x@)
}

/// Joins `parts` with `sep` between neighbours.
pub fn join_strings(parts: &Vec<String>, sep: &str) -> (r: Vec<char>)
    ensures
        r@ == join_with(views_of(parts@), sep@),
{
    let mut out: Vec<char> = Vec::new();
    let n = parts.len();
    let ghost all = views_of(parts@);
    for i in 0..n
        invariant
            n == parts@.len(),
            all == views_of(parts@),
            out@ == join_with(all.take(i as int), sep@),
    {
        let ghost before = out@;
        assert(all.take(i + 1).drop_last() =~= all.take(i as int));
        assert(all.take(i + 1).last() == parts@[i as int]@);
        if i > 0 {
            extend_str(&mut out, sep);
        } else {
            assert(before =~= Seq::<char>::empty());
        }
        extend_str(&mut out, parts[i].as_str());
        proof {
            if i == 0 {
                assert(out@ =~= parts@[0]@);
            }
        }
    }
    assert(all.take(n as int) =~= all);
    out
}


/// Tests whether `a` and `b` hold the same characters.
pub fn same_chars(a: &[char], b: &[char]) -> (r: bool)
    ensures
        r == (a@ == b@),
{
    if a.len() != b.len() {
        return false;
    }
    let r = matches_at_exec(a, b, 0);
    proof {
        assert(a@.subrange(0, a@.len() as int) =~= a@);
    }
    r
}


/// A decimal representation is a non-empty string of digits worth `n`.
pub proof fn lemma_decimal_digits(n: nat)
    ensures
        decimal(n).len() > 0,
        all_digits(decimal(n)),
        digits_value(decimal(n)) == n,
    decreases n,
{
    let d = (n % 10) as int;
    assert(digit_value(digit_char(d)) == d);
    assert(is_digit(digit_char(d)));
    if n >= 10 {
        lemma_decimal_digits(n / 10);
        let init = decimal(n / 10);
        assert(decimal(n).drop_last() =~= init);
        assert(decimal(n).last() == digit_char(d));
        assert((n / 10) * 10 + n % 10 == n) by (nonlinear_arith);
        assert(digits_value(init) == n / 10);
        assert(digits_value(decimal(n)) == (digits_value(decimal(n).drop_last()) * 10 + digit_value(decimal(n).last())) as nat);
        assert(digits_value(decimal(n)) == (digits_value(init) * 10 + d) as nat);
        assert forall|i: int| 0 <= i < decimal(n).len() implies is_digit(#[trigger] decimal(n)[i]) by {
            if i < init.len() {
                assert(decimal(n)[i] == init[i]);
            }
        }
    } else {
        assert(decimal(n).drop_last() =~= Seq::<char>::empty());
        assert(decimal(n).last() == digit_char(d));
        assert(n % 10 == n);
        assert(digits_value(decimal(n).drop_last()) == 0);
        assert(digits_value(decimal(n)) == (digits_value(decimal(n).drop_last()) * 10 + digit_value(decimal(n).last())) as nat);
    }
}

/// A number written in decimal reads back as that number.
pub proof fn law_decimal_parses_back(n: u64)
    ensures
        parse_u64_spec(decimal(n as nat)) == Some(n),
{
    lemma_decimal_digits(n as nat);
    assert(is_digit(decimal(n as nat)[0]));
    assert(unsigned_digits(decimal(n as nat)) == decimal(n as nat));
}

} // verus!
