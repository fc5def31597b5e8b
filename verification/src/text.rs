//! Delimited text, modelled on sequences of characters: splitting a line into
//! fields, joining fields into a line, and comparing texts.

use vstd::prelude::*;
use vstd::std_specs::iter::IteratorSpec;

verus! {

/// The texts held by a sequence of strings.
pub open spec fn texts(v: Seq<String>) -> Seq<Seq<char>> {
    Seq::new(v.len(), |i: int| v[i]@)
}

/// No character of `s` is `a` or `b`.
pub open spec fn free_of(s: Seq<char>, a: char, b: char) -> bool {
    forall|i: int| 0 <= i < s.len() ==> s[i] != a && s[i] != b
}

/// Every text of `parts` is free of `a` and `b`.
pub open spec fn all_free_of(parts: Seq<Seq<char>>, a: char, b: char) -> bool {
    forall|i: int| 0 <= i < parts.len() ==> free_of(#[trigger] parts[i], a, b)
}

/// `s` holds no tab.
pub open spec fn tab_free(s: Seq<char>) -> bool {
    free_of(s, '\t', '\t')
}

/// No text of `parts` holds a tab.
pub open spec fn all_tab_free(parts: Seq<Seq<char>>) -> bool {
    all_free_of(parts, '\t', '\t')
}

/// Index of the first character of `s` that is `a` or `b`; `s.len()` if there is none.
pub open spec fn first_sep(s: Seq<char>, a: char, b: char) -> int
    decreases s.len(),
{
    if s.len() == 0 || s[0] == a || s[0] == b {
        0
    } else {
        1 + first_sep(s.skip(1), a, b)
    }
}

/// The fields of `s`, where each occurrence of `a` or `b` ends one field and
/// starts the next. A text without separators is one field, the empty text too.
pub open spec fn split_on(s: Seq<char>, a: char, b: char) -> Seq<Seq<char>>
    decreases s.len(),
    via split_on_decreases
{
    let k = first_sep(s, a, b);
    if k >= s.len() {
        seq![s]
    } else {
        seq![s.take(k)] + split_on(s.skip(k + 1), a, b)
    }
}

#[via_fn]
proof fn split_on_decreases(s: Seq<char>, a: char, b: char) {
    lemma_first_sep_bounds(s, a, b);
}

/// The fields of `s` between occurrences of `sep`.
pub open spec fn split(s: Seq<char>, sep: char) -> Seq<Seq<char>> {
    split_on(s, sep, sep)
}

/// The texts of `parts` in order, with `sep` between neighbours.
pub open spec fn join(parts: Seq<Seq<char>>, sep: char) -> Seq<char>
    decreases parts.len(),
{
    if parts.len() == 0 {
        Seq::empty()
    } else if parts.len() == 1 {
        parts[0]
    } else {
        parts[0] + seq![sep] + join(parts.skip(1), sep)
    }
}

pub proof fn lemma_first_sep_bounds(s: Seq<char>, a: char, b: char)
    ensures
        0 <= first_sep(s, a, b) <= s.len(),
        first_sep(s, a, b) < s.len() ==> s[first_sep(s, a, b)] == a || s[first_sep(s, a, b)] == b,
        free_of(s.take(first_sep(s, a, b)), a, b),
    decreases s.len(),
{
    if s.len() == 0 || s[0] == a || s[0] == b {
    } else {
        lemma_first_sep_bounds(s.skip(1), a, b);
        let k = first_sep(s.skip(1), a, b);
        let head = s.take(k + 1);
        assert forall|i: int| 0 <= i < head.len() implies head[i] != a && head[i] != b by {
            if i > 0 {
                assert(head[i] == s.skip(1).take(k)[i - 1]);
            }
        }
    }
}

/// Where the first separator stands: after a separator-free prefix.
pub proof fn lemma_first_sep_at(s: Seq<char>, a: char, b: char, k: int)
    requires
        0 <= k <= s.len(),
        free_of(s.take(k), a, b),
        k < s.len() ==> s[k] == a || s[k] == b,
    ensures
        first_sep(s, a, b) == k,
    decreases s.len(),
{
    if k == 0 {
    } else {
        assert(s.take(k)[0] == s[0]);
        let inner = s.skip(1).take(k - 1);
        assert forall|i: int| 0 <= i < inner.len() implies inner[i] != a && inner[i] != b by {
            assert(inner[i] == s.take(k)[i + 1]);
        }
        lemma_first_sep_at(s.skip(1), a, b, k - 1);
    }
}

/// Joining one more text appends the separator and the text.
pub proof fn lemma_join_push(parts: Seq<Seq<char>>, last: Seq<char>, sep: char)
    ensures
        join(parts.push(last), sep) == if parts.len() == 0 {
            last
        } else {
            join(parts, sep) + seq![sep] + last
        },
    decreases parts.len(),
{
    if parts.len() == 0 {
        assert(parts.push(last)[0] == last);
    } else {
        assert(parts.push(last).skip(1) =~= parts.skip(1).push(last));
        lemma_join_push(parts.skip(1), last, sep);
        if parts.len() == 1 {
            assert(join(parts.skip(1), sep) =~= Seq::<char>::empty());
            assert(join(parts, sep) == parts[0]);
            assert(join(parts.push(last), sep) =~= parts[0] + seq![sep] + last);
        } else {
            assert(join(parts.push(last), sep) =~= join(parts, sep) + seq![sep] + last);
        }
    }
}

/// Splitting a joined line gives the fields back, if none of them holds a separator.
pub proof fn lemma_split_join(parts: Seq<Seq<char>>, sep: char, a: char, b: char)
    requires
        parts.len() > 0,
        all_free_of(parts, a, b),
        sep == a || sep == b,
    ensures
        split_on(join(parts, sep), a, b) == parts,
    decreases parts.len(),
{
    let line = join(parts, sep);
    let head = parts[0];
    assert(free_of(head, a, b));
    if parts.len() == 1 {
        assert(line.take(line.len() as int) =~= line);
        lemma_first_sep_at(line, a, b, line.len() as int);
        assert(split_on(line, a, b) =~= parts);
    } else {
        let rest = parts.skip(1);
        assert forall|i: int| 0 <= i < rest.len() implies free_of(#[trigger] rest[i], a, b) by {
            assert(rest[i] == parts[i + 1]);
        }
        lemma_split_join(rest, sep, a, b);
        let k = head.len() as int;
        assert(line.take(k) =~= head);
        assert(line[k] == sep);
        lemma_first_sep_at(line, a, b, k);
        assert(line.skip(k + 1) =~= join(rest, sep));
        assert(split_on(line, a, b) =~= seq![head] + rest);
        assert(seq![head] + rest =~= parts);
    }
}

/// A line joined from texts without `a` and `b`, by another separator, holds neither.
pub proof fn lemma_join_free(parts: Seq<Seq<char>>, sep: char, a: char, b: char)
    requires
        all_free_of(parts, a, b),
        sep != a,
        sep != b,
    ensures
        free_of(join(parts, sep), a, b),
    decreases parts.len(),
{
    if parts.len() == 0 {
    } else if parts.len() == 1 {
        assert(free_of(parts[0], a, b));
    } else {
        let rest = parts.skip(1);
        assert forall|i: int| 0 <= i < rest.len() implies free_of(#[trigger] rest[i], a, b) by {
            assert(rest[i] == parts[i + 1]);
        }
        lemma_join_free(rest, sep, a, b);
        assert(free_of(parts[0], a, b));
    }
}

/// No field of a split text holds a separator.
pub proof fn lemma_split_free(s: Seq<char>, a: char, b: char)
    ensures
        all_free_of(split_on(s, a, b), a, b),
        split_on(s, a, b).len() > 0,
    decreases s.len(),
{
    lemma_first_sep_bounds(s, a, b);
    let k = first_sep(s, a, b);
    let parts = split_on(s, a, b);
    if k >= s.len() {
        assert(s.take(k) =~= s);
        assert(parts[0] == s);
    } else {
        lemma_split_free(s.skip(k + 1), a, b);
        let rest = split_on(s.skip(k + 1), a, b);
        assert forall|i: int| 0 <= i < parts.len() implies free_of(#[trigger] parts[i], a, b) by {
            if i > 0 {
                assert(parts[i] == rest[i - 1]);
            }
        }
    }
}

/// Joining the fields of a line gives the line back.
pub proof fn lemma_join_split(s: Seq<char>, sep: char)
    ensures
        join(split(s, sep), sep) == s,
        split(s, sep).len() > 0,
    decreases s.len(),
{
    lemma_first_sep_bounds(s, sep, sep);
    let k = first_sep(s, sep, sep);
    if k >= s.len() {
    } else {
        let rest = split_on(s.skip(k + 1), sep, sep);
        lemma_join_split(s.skip(k + 1), sep);
        let all = seq![s.take(k)] + rest;
        assert(all.skip(1) =~= rest);
        assert(all[0] == s.take(k));
        assert(join(all, sep) =~= s.take(k) + seq![sep] + s.skip(k + 1));
        assert(s.take(k) + seq![sep] + s.skip(k + 1) =~= s);
    }
}

/// Splits `s` at each occurrence of `a` or `b`. Each field is cut out of the
/// whole text by counting characters from its start.
pub fn split_text(s: &str, a: char, b: char) -> (parts: Vec<String>)
    ensures
        texts(parts@) == split_on(s@, a, b),
{
    let total = s.unicode_len();
    let mut parts: Vec<String> = Vec::new();
    let mut start: usize = 0;
    let mut i: usize = 0;
    let chars = s.chars();
    proof {
        assert(s@.skip(0) =~= s@);
        assert(s@.subrange(0, 0) =~= Seq::<char>::empty());
        assert(texts(parts@) + split_on(s@, a, b) =~= split_on(s@, a, b));
    }
    for c in it: chars
        invariant
            it.seq() == s@,
            total == s@.len(),
            i == it.index(),
            start <= i <= total,
            free_of(s@.subrange(start as int, i as int), a, b),
            split_on(s@, a, b) == texts(parts@) + split_on(s@.skip(start as int), a, b),
    {
        let ghost tail = s@.skip(start as int);
        proof {
            assert(tail.take(i - start) =~= s@.subrange(start as int, i as int));
        }
        if c == a || c == b {
            let field = String::from_str(s.substring_char(start, i));
            proof {
                assert(tail[i - start] == c);
                lemma_first_sep_at(tail, a, b, i - start);
                assert(tail.skip(i - start + 1) =~= s@.skip(i + 1));
                assert(texts(parts@.push(field)) =~= texts(parts@) + seq![tail.take(i - start)]);
            }
            parts.push(field);
            start = i + 1;
            proof {
                assert(s@.subrange(start as int, start as int) =~= Seq::<char>::empty());
            }
        } else {
            proof {
                let grown = s@.subrange(start as int, i + 1);
                assert forall|j: int| 0 <= j < grown.len() implies grown[j] != a && grown[j]
                    != b by {
                    if j < i - start {
                        assert(grown[j] == s@.subrange(start as int, i as int)[j]);
                    }
                }
            }
        }
        i = i + 1;
    }
    let field = String::from_str(s.substring_char(start, total));
    proof {
        let tail = s@.skip(start as int);
        assert(tail.take(tail.len() as int) =~= s@.subrange(start as int, total as int));
        lemma_first_sep_at(tail, a, b, tail.len() as int);
        assert(tail =~= s@.subrange(start as int, total as int));
        assert(texts(parts@.push(field)) =~= texts(parts@) + seq![tail]);
    }
    parts.push(field);
    parts
}

/// Joins the texts of `parts` with `sep`, which holds the one character `c`.
pub(crate) fn join_text(parts: &Vec<String>, sep: &str, Ghost(c): Ghost<char>) -> (line: String)
    requires
        sep@ == seq![c],
    ensures
        line@ == join(texts(parts@), c),
{
    let mut line = String::new();
    let n = parts.len();
    let mut i: usize = 0;
    while i < n
        invariant
            n == parts.len(),
            i <= n,
            sep@ == seq![c],
            line@ == join(texts(parts@).take(i as int), c),
        decreases n - i,
    {
        proof {
            lemma_join_push(texts(parts@).take(i as int), parts@[i as int]@, c);
            assert(texts(parts@).take(i as int).push(parts@[i as int]@) =~= texts(parts@).take(
                i + 1,
            ));
        }
        if i > 0 {
            line.append(sep);
        }
        line.append(parts[i].as_str());
        i = i + 1;
    }
    proof {
        assert(texts(parts@).take(n as int) =~= texts(parts@));
    }
    line
}

/// Whether two strings hold the same text.
pub fn same_text(x: &str, y: &str) -> (same: bool)
    ensures
        same == (x@ == y@),
{
    let mut xs = x.chars();
    let mut ys = y.chars();
    let ghost mut n: int = 0;
    loop
        invariant
            0 <= n <= x@.len(),
            n <= y@.len(),
            xs.remaining() == x@.skip(n),
            ys.remaining() == y@.skip(n),
            x@.take(n) == y@.take(n),
        decreases x@.len() - n,
    {
        let cx = xs.next();
        let cy = ys.next();
        match (cx, cy) {
            (Some(p), Some(q)) => {
                if p != q {
                    return false;
                }
                proof {
                    assert(x@.take(n + 1) =~= x@.take(n).push(p));
                    assert(y@.take(n + 1) =~= y@.take(n).push(q));
                    assert(x@.skip(n).drop_first() =~= x@.skip(n + 1));
                    assert(y@.skip(n).drop_first() =~= y@.skip(n + 1));
                    n = n + 1;
                }
            },
            (None, None) => {
                proof {
                    assert(x@.take(n) =~= x@);
                    assert(y@.take(n) =~= y@);
                }
                return true;
            },
            _ => {
                return false;
            },
        }
    }
}

/// Whether `s` is the one character `c`.
pub fn is_char(s: &str, c: char) -> (b: bool)
    ensures
        b == (s@ == seq![c]),
{
    match leading_chars(s, 2) {
        Some(_) => false,
        None => match leading_chars(s, 1) {
            Some(head) => {
                proof {
                    assert(s@ =~= s@.take(1));
                    assert(seq![c][0] == c);
                    if head@[0] == c {
                        assert(s@ =~= seq![c]);
                    }
                }
                head[0] == c
            },
            None => {
                proof {
                    assert(seq![c].len() == 1);
                }
                false
            },
        },
    }
}

/// The first `n` characters of `s`, if it has that many.
pub fn leading_chars(s: &str, n: usize) -> (r: Option<Vec<char>>)
    ensures
        r is Some <==> s@.len() >= n,
        r matches Some(v) ==> v@ == s@.take(n as int),
{
    let mut found: Vec<char> = Vec::new();
    let mut chars = s.chars();
    while found.len() < n
        invariant
            found@.len() <= n,
            found@.len() <= s@.len(),
            found@ == s@.take(found@.len() as int),
            chars.remaining() == s@.skip(found@.len() as int),
        decreases n - found@.len(),
    {
        match chars.next() {
            Some(c) => {
                proof {
                    let k = found@.len() as int;
                    assert(s@.take(k + 1) =~= s@.take(k).push(c));
                    assert(s@.skip(k).drop_first() =~= s@.skip(k + 1));
                }
                found.push(c);
            },
            None => {
                return None;
            },
        }
    }
    Some(found)
}

/// Joins fields into a line, with a tab between neighbours.
pub fn join_fields(parts: &Vec<String>) -> (line: String)
    ensures
        line@ == join(texts(parts@), '\t'),
{
    proof {
        reveal_strlit("\t");
        assert("\t"@ =~= seq!['\t']);
    }
    join_text(parts, "\t", Ghost('\t'))
}

/// Splits a line into its fields at each tab.
pub fn split_fields(line: &str) -> (parts: Vec<String>)
    ensures
        texts(parts@) == split(line@, '\t'),
        parts@.len() > 0,
{
    proof {
        lemma_join_split(line@, '\t');
    }
    split_text(line, '\t', '\t')
}

} // verus!
