//! What normalization and the path relations mean, character by character.

use vstd::prelude::*;

use crate::path::{
    any_forbidden, clean, confined, forbidden, kept, law_clean_path_is_normal,
    law_normal_form_is_clean, lemma_kept, normal, skipped, slashed, trim_end, under,
};
use crate::text::{before, before_at, decimal, join, split};
use crate::text::{
    lemma_before_strict, lemma_split_concat, lemma_split_pieces, lemma_split_single,
};

verus! {

/// A character that Windows takes for a separator.
pub open spec fn is_separator(c: char) -> bool {
    c == '/' || c == '\\'
}

/// A text without a separator.
pub open spec fn is_component(c: Seq<char>) -> bool {
    forall|i: int| 0 <= i < c.len() ==> !is_separator(#[trigger] c[i])
}

/// Two dots stand at position `i` with nothing but separators or the ends of the text around them.
pub open spec fn dots_at(s: Seq<char>, i: int) -> bool {
    &&& 0 <= i
    &&& i + 2 <= s.len()
    &&& s[i] == '.'
    &&& s[i + 1] == '.'
    &&& i == 0 || is_separator(s[i - 1])
    &&& i + 2 == s.len() || is_separator(s[i + 2])
}

proof fn lemma_slashed_concat(a: Seq<char>, sep: char, b: Seq<char>)
    requires
        is_separator(sep),
    ensures
        split(slashed(a.push(sep) + b)) == split(slashed(a)) + split(slashed(b)),
{
    assert(slashed(a.push(sep) + b) =~= slashed(a).push('/') + slashed(b));
    lemma_split_concat(slashed(a), slashed(b));
}

proof fn lemma_component_parts(c: Seq<char>)
    requires
        is_component(c),
    ensures
        split(slashed(c)) == seq![c],
{
    assert(slashed(c) =~= c);
    assert(!c.contains('/')) by {
        if c.contains('/') {
            let i = choose|i: int| 0 <= i < c.len() && c[i] == '/';
            assert(!is_separator(c[i]));
        }
    }
    lemma_split_single(c);
}

proof fn lemma_any_forbidden_concat(x: Seq<Seq<char>>, y: Seq<Seq<char>>)
    ensures
        any_forbidden(x + y) <==> any_forbidden(x) || any_forbidden(y),
{
    let z = x + y;
    if any_forbidden(x) {
        let i = choose|i: int| 0 <= i < x.len() && forbidden(#[trigger] x[i]);
        assert(forbidden(z[i]));
    }
    if any_forbidden(y) {
        let i = choose|i: int| 0 <= i < y.len() && forbidden(#[trigger] y[i]);
        assert(forbidden(z[x.len() + i]));
    }
    if any_forbidden(z) {
        let i = choose|i: int| 0 <= i < z.len() && forbidden(#[trigger] z[i]);
        if i < x.len() {
            assert(forbidden(x[i]));
        } else {
            assert(forbidden(y[i - x.len()]));
        }
    }
}

proof fn lemma_kept_concat(x: Seq<Seq<char>>, y: Seq<Seq<char>>)
    ensures
        kept(x + y) == kept(x) + kept(y),
    decreases y.len(),
{
    if y.len() == 0 {
        assert(x + y =~= x);
        assert(kept(x) + kept(y) =~= kept(x));
    } else {
        lemma_kept_concat(x, y.drop_last());
        assert((x + y).drop_last() =~= x + y.drop_last());
        assert((x + y).last() == y.last());
        assert(kept(x + y) =~= kept(x) + kept(y));
    }
}

proof fn lemma_join_concat(x: Seq<Seq<char>>, y: Seq<Seq<char>>)
    requires
        x.len() > 0,
        y.len() > 0,
    ensures
        join(x + y) == join(x).push('/') + join(y),
    decreases y.len(),
{
    let z = x + y;
    assert(z.drop_last() =~= x + y.drop_last());
    if y.len() == 1 {
        assert(x + y.drop_last() =~= x);
    } else {
        lemma_join_concat(x, y.drop_last());
        assert(join(z) =~= join(x).push('/') + join(y));
    }
}

proof fn lemma_join_nonempty(parts: Seq<Seq<char>>)
    requires
        forall|i: int| 0 <= i < parts.len() ==> !skipped(#[trigger] parts[i]),
    ensures
        join(parts).len() == 0 <==> parts.len() == 0,
{
    if parts.len() > 0 {
        assert(!skipped(parts[parts.len() - 1]));
    }
}

/// The normal form of one component: nothing for the empty one and for a single dot, nothing at
/// all is accepted of two dots or of a NUL, and any other component is its own normal form.
pub proof fn law_normal_form_of_one_component(c: Seq<char>)
    requires
        is_component(c),
    ensures
        normal(c) is None <==> c.contains('\0') || (c.len() == 2 && c[0] == '.' && c[1] == '.'),
        c.len() == 0 ==> normal(c) == Some(Seq::<char>::empty()),
        c.len() == 1 && c[0] == '.' ==> normal(c) == Some(Seq::<char>::empty()),
        normal(c) is Some && c.len() > 0 && !(c.len() == 1 && c[0] == '.') ==> normal(c) == Some(c),
{
    lemma_component_parts(c);
    let parts = seq![c];
    assert(parts.drop_last() =~= Seq::empty());
    assert(kept(parts.drop_last()) =~= Seq::empty());
    assert(parts[0] == c);
    assert(any_forbidden(parts) == forbidden(c));
    assert(seq!['.', '.'].len() == 2);
    if c.len() == 2 && c[0] == '.' && c[1] == '.' {
        assert(c =~= seq!['.', '.']);
    }
    if c.len() == 1 && c[0] == '.' {
        assert(c =~= seq!['.']);
        if c.contains('\0') {
            let k = choose|k: int| 0 <= k < c.len() && c[k] == '\0';
        }
    }
    assert(seq!['.'].len() == 1 && seq!['.'][0] == '.');
    if skipped(c) {
        assert(kept(parts) =~= Seq::empty());
        assert(join(kept(parts)) =~= Seq::empty());
    } else {
        assert(kept(parts) =~= seq![c]);
        assert(join(seq![c]) == c);
    }
}

/// The normal form of two paths with a slash or a backslash between them: both must be accepted,
/// an empty normal form leaves the other alone, and else one slash joins them.
pub proof fn law_normal_form_of_joined_paths(a: Seq<char>, sep: char, b: Seq<char>)
    requires
        sep == '/' || sep == '\\',
    ensures
        normal(a.push(sep) + b) == match (normal(a), normal(b)) {
            (Some(x), Some(y)) => Some(
                if x.len() == 0 {
                    y
                } else if y.len() == 0 {
                    x
                } else {
                    x.push('/') + y
                },
            ),
            _ => None,
        },
{
    let x = split(slashed(a));
    let y = split(slashed(b));
    lemma_slashed_concat(a, sep, b);
    lemma_any_forbidden_concat(x, y);
    lemma_kept_concat(x, y);
    lemma_split_pieces(slashed(a));
    lemma_split_pieces(slashed(b));
    lemma_kept(x);
    lemma_kept(y);
    lemma_join_nonempty(kept(x));
    lemma_join_nonempty(kept(y));
    if kept(x).len() == 0 {
        assert(kept(x) + kept(y) =~= kept(y));
    } else if kept(y).len() == 0 {
        assert(kept(x) + kept(y) =~= kept(x));
    } else {
        lemma_join_concat(kept(x), kept(y));
    }
    if normal(a) is Some && normal(b) is Some {
        if kept(x).len() == 0 {
            assert(normal(a)->0 =~= Seq::empty());
        }
    }
}

/// A path is rejected exactly when it holds a NUL, or two dots with nothing but separators or the
/// ends of the path around them. Every other path is accepted.
pub proof fn law_rejected_paths(s: Seq<char>)
    ensures
        normal(s) is None <==> s.contains('\0') || exists|i: int| dots_at(s, i),
    decreases s.len(),
{
    if is_component(s) {
        law_normal_form_of_one_component(s);
        if exists|i: int| dots_at(s, i) {
            let i = choose|i: int| dots_at(s, i);
            assert(i > 0 ==> !is_separator(s[i - 1]));
            assert(i + 2 < s.len() ==> !is_separator(s[i + 2]));
        }
        if s.len() == 2 && s[0] == '.' && s[1] == '.' {
            assert(dots_at(s, 0));
        }
    } else {
        let m = choose|m: int| 0 <= m < s.len() && is_separator(#[trigger] s[m]);
        let a = s.take(m);
        let b = s.skip(m + 1);
        assert(s =~= a.push(s[m]) + b);
        law_normal_form_of_joined_paths(a, s[m], b);
        law_rejected_paths(a);
        law_rejected_paths(b);
        lemma_nul_joined(a, s[m], b);
        lemma_dots_joined(a, s[m], b);
    }
}

proof fn lemma_nul_joined(a: Seq<char>, sep: char, b: Seq<char>)
    requires
        is_separator(sep),
    ensures
        (a.push(sep) + b).contains('\0') <==> a.contains('\0') || b.contains('\0'),
{
    let s = a.push(sep) + b;
    let m = a.len() as int;
    if s.contains('\0') {
        let k = choose|k: int| 0 <= k < s.len() && s[k] == '\0';
        if k < m {
            assert(a[k] == '\0');
        } else {
            assert(s[m] == sep);
            assert(b[k - m - 1] == '\0');
        }
    }
    if a.contains('\0') {
        let k = choose|k: int| 0 <= k < a.len() && a[k] == '\0';
        assert(s[k] == '\0');
    }
    if b.contains('\0') {
        let k = choose|k: int| 0 <= k < b.len() && b[k] == '\0';
        assert(s[m + 1 + k] == '\0');
    }
}

proof fn lemma_dots_joined(a: Seq<char>, sep: char, b: Seq<char>)
    requires
        is_separator(sep),
    ensures
        (exists|i: int| dots_at(a.push(sep) + b, i)) <==> (exists|i: int| dots_at(a, i)) || (
        exists|i: int| dots_at(b, i)),
{
    let s = a.push(sep) + b;
    let m = a.len() as int;
    assert(s[m] == sep);
    if exists|i: int| dots_at(a, i) {
        let i = choose|i: int| dots_at(a, i);
        assert(dots_at(s, i));
    }
    if exists|i: int| dots_at(b, i) {
        let i = choose|i: int| dots_at(b, i);
        assert(dots_at(s, m + 1 + i));
    }
    if exists|i: int| dots_at(s, i) {
        let i = choose|i: int| dots_at(s, i);
        if i < m {
            assert(dots_at(a, i));
        } else {
            assert(dots_at(b, i - m - 1));
        }
    }
}

/// A path in normal form is one that normalization leaves as it is.
pub proof fn law_normal_forms(p: Seq<char>)
    ensures
        clean(p) <==> normal(p) == Some(p),
{
    law_normal_form_is_clean(p);
    if clean(p) {
        law_clean_path_is_normal(p);
    }
}

/// A confined path has no backslash, no NUL, and nowhere two dots with nothing but slashes or the
/// ends of the path around them.
pub proof fn law_confined_paths(p: Seq<char>)
    ensures
        confined(p) <==> !p.contains('\\') && !p.contains('\0') && !exists|i: int| dots_at(p, i),
{
    if !p.contains('\\') {
        assert(slashed(p) =~= p) by {
            assert forall|i: int| 0 <= i < p.len() implies slashed(p)[i] == p[i] by {
                assert(p.contains(p[i]));
            }
        }
        law_rejected_paths(p);
    }
}

/// Only whole components count: a path lies under a directory when it is that directory, or goes
/// on behind it with a slash.
pub proof fn law_under(p: Seq<char>, dir: Seq<char>)
    ensures
        under(p, dir) <==> p == dir || (p.len() > dir.len() && p[dir.len() as int] == '/' && forall|
            i: int,
        |
            0 <= i < dir.len() ==> #[trigger] p[i] == dir[i]),
{
    let d = dir.push('/');
    if d.is_prefix_of(p) {
        assert forall|i: int| 0 <= i < d.len() implies p[i] == d[i] by {
            assert(p.subrange(0, d.len() as int)[i] == d[i]);
        }
        assert forall|i: int| 0 <= i < dir.len() implies #[trigger] p[i] == dir[i] by {
            assert(p[i] == d[i]);
        }
        assert(p[dir.len() as int] == d[dir.len() as int]);
    }
    if p.len() > dir.len() && p[dir.len() as int] == '/' && forall|i: int|
        0 <= i < dir.len() ==> #[trigger] p[i] == dir[i] {
        assert(p.subrange(0, d.len() as int) =~= d);
    }
}

/// Trimming takes exactly the longest run of the given characters off the end.
pub proof fn law_trimming(head: Seq<char>, tail: Seq<char>, drop: Set<char>)
    requires
        head.len() == 0 || !drop.contains(head.last()),
        forall|i: int| 0 <= i < tail.len() ==> drop.contains(#[trigger] tail[i]),
    ensures
        trim_end(head + tail, drop) == head,
    decreases tail.len(),
{
    if tail.len() == 0 {
        assert(head + tail =~= head);
    } else {
        let init = tail.drop_last();
        assert(drop.contains(tail[tail.len() - 1]));
        assert forall|i: int| 0 <= i < init.len() implies drop.contains(#[trigger] init[i]) by {
            assert(drop.contains(tail[i]));
        }
        assert((head + tail).drop_last() =~= head + init);
        law_trimming(head, init, drop);
    }
}

/// The first character in which two texts differ decides their order, whatever follows it.
pub proof fn law_first_difference_decides(
    head: Seq<char>,
    x: char,
    y: char,
    a: Seq<char>,
    b: Seq<char>,
)
    requires
        x < y,
    ensures
        before(head.push(x) + a, head.push(y) + b),
        !before(head.push(y) + b, head.push(x) + a),
{
    assert(before_at(head.push(x) + a, head.push(y) + b, head.len() as int));
    lemma_before_strict(head.push(x) + a, head.push(y) + b);
}

/// A text comes before every longer text that starts with it, and never before itself.
pub proof fn law_shorter_text_comes_first(head: Seq<char>, rest: Seq<char>)
    ensures
        rest.len() > 0 ==> before(head, head + rest) && !before(head + rest, head),
        !before(head, head),
{
    if rest.len() > 0 {
        assert(before_at(head, head + rest, head.len() as int));
        lemma_before_strict(head, head + rest);
    }
    if before(head, head) {
        lemma_before_strict(head, head);
    }
}

/// Decimal notation: one digit below ten, and else one more digit behind the notation of the
/// tenth part.
pub proof fn law_decimal_notation(n: nat, d: nat)
    requires
        d < 10,
    ensures
        decimal(d) == seq![(48 + d) as char],
        n > 0 ==> decimal(10 * n + d) == decimal(n).push((48 + d) as char),
{
    if n > 0 {
        assert((10 * n + d) / 10 == n);
        assert((10 * n + d) % 10 == d);
    }
}

} // verus!
