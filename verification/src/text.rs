//! Text as sequences of characters: ordering, splitting, joining and decimal numbers.

use vstd::prelude::*;
use vstd::string::*;

verus! {

/// `String::push` appends the given character to the end of the string.
pub assume_specification[ String::push ](s: &mut String, c: char)
    ensures
        final(s)@ == old(s)@.push(c),
;

/// `a` and `b` agree before position `k`, and `a` ends or is smaller at `k`.
pub open spec fn before_at(a: Seq<char>, b: Seq<char>, k: int) -> bool {
    &&& 0 <= k < b.len()
    &&& k <= a.len()
    &&& forall|i: int| 0 <= i < k ==> a[i] == b[i]
    &&& k == a.len() || a[k] < b[k]
}

/// Lexicographic order by code point.
pub open spec fn before(a: Seq<char>, b: Seq<char>) -> bool {
    exists|k: int| before_at(a, b, k)
}

/// How two texts compare in lexicographic order.
#[derive(Clone, Copy, Debug, PartialEq, Eq, Structural)]
pub enum TextOrder {
    Before,
    Same,
    After,
}

/// The lexicographic order is irreflexive and asymmetric.
pub proof fn lemma_before_strict(a: Seq<char>, b: Seq<char>)
    requires
        before(a, b),
    ensures
        a != b,
        !before(b, a),
{
    let k = choose|k: int| before_at(a, b, k);
    assert(before_at(a, b, k));
    if a == b {
        assert(a[k] == b[k]);
    }
    if before(b, a) {
        let j = choose|j: int| before_at(b, a, j);
        assert(before_at(b, a, j));
        if j < k {
            assert(a[j] == b[j]);
        } else if k < j {
            assert(a[k] == b[k]);
        }
    }
}

/// The lexicographic order is transitive.
pub proof fn lemma_before_transitive(a: Seq<char>, b: Seq<char>, c: Seq<char>)
    requires
        before(a, b),
        before(b, c),
    ensures
        before(a, c),
{
    let k = choose|k: int| before_at(a, b, k);
    assert(before_at(a, b, k));
    let j = choose|j: int| before_at(b, c, j);
    assert(before_at(b, c, j));
    if j < k {
        assert(a[j] == b[j]);
        assert(before_at(a, c, j));
    } else {
        if k < j {
            assert(b[k] == c[k]);
        }
        assert(before_at(a, c, k));
    }
}

/// The pieces of `s` between slashes: one more than there are slashes.
pub open spec fn split(s: Seq<char>) -> Seq<Seq<char>>
    decreases s.len(),
{
    if s.len() == 0 {
        seq![Seq::<char>::empty()]
    } else {
        let init = split(s.drop_last());
        if s.last() == '/' {
            init.push(Seq::empty())
        } else {
            init.drop_last().push(init.last().push(s.last()))
        }
    }
}

/// The pieces with one slash between neighbours.
pub open spec fn join(parts: Seq<Seq<char>>) -> Seq<char>
    decreases parts.len(),
{
    if parts.len() == 0 {
        Seq::empty()
    } else if parts.len() == 1 {
        parts[0]
    } else {
        join(parts.drop_last()).push('/') + parts.last()
    }
}

/// No piece holds a slash.
pub open spec fn slash_free(parts: Seq<Seq<char>>) -> bool {
    forall|i: int| 0 <= i < parts.len() ==> !(#[trigger] parts[i]).contains('/')
}

/// Splitting yields at least one piece, and none holds a slash.
pub proof fn lemma_split_pieces(s: Seq<char>)
    ensures
        split(s).len() >= 1,
        slash_free(split(s)),
    decreases s.len(),
{
    if s.len() > 0 {
        lemma_split_pieces(s.drop_last());
        let init = split(s.drop_last());
        let parts = split(s);
        assert forall|i: int| 0 <= i < parts.len() implies !(#[trigger] parts[i]).contains('/') by {
            if i < init.len() - 1 {
                assert(parts[i] == init[i]);
            } else if s.last() == '/' {
                if i < init.len() {
                    assert(parts[i] == init[i]);
                }
            } else {
                assert(parts[i] == init.last().push(s.last()));
                assert(!init[init.len() - 1].contains('/'));
                if parts[i].contains('/') {
                    let k = choose|k: int| 0 <= k < parts[i].len() && parts[i][k] == '/';
                    if k < init.last().len() {
                        assert(init.last()[k] == '/');
                    }
                }
            }
        }
    }
}

/// Joining the pieces of a text gives the text back.
pub proof fn lemma_join_split(s: Seq<char>)
    ensures
        join(split(s)) == s,
    decreases s.len(),
{
    lemma_split_pieces(s);
    if s.len() > 0 {
        lemma_split_pieces(s.drop_last());
        lemma_join_split(s.drop_last());
        let init = split(s.drop_last());
        if s.last() == '/' {
            assert(split(s).drop_last() =~= init);
            assert(join(split(s)) =~= s);
        } else {
            assert(split(s).drop_last() =~= init.drop_last());
            assert(join(split(s)) =~= join(init).push(s.last()));
            assert(s =~= s.drop_last().push(s.last()));
        }
    }
}

/// Splitting two texts with a slash between them splits each.
pub proof fn lemma_split_concat(a: Seq<char>, b: Seq<char>)
    ensures
        split(a.push('/') + b) == split(a) + split(b),
    decreases b.len(),
{
    let whole = a.push('/') + b;
    if b.len() == 0 {
        assert(whole.drop_last() =~= a);
        assert(split(whole) =~= split(a) + split(b));
    } else {
        lemma_split_concat(a, b.drop_last());
        lemma_split_pieces(b.drop_last());
        assert(whole.drop_last() =~= a.push('/') + b.drop_last());
        assert(whole.last() == b.last());
        assert(split(whole) =~= split(a) + split(b));
    }
}

/// A text without a slash is its own only piece.
pub proof fn lemma_split_single(s: Seq<char>)
    requires
        !s.contains('/'),
    ensures
        split(s) == seq![s],
    decreases s.len(),
{
    if s.len() > 0 {
        assert(s.contains(s.last()));
        assert(!s.drop_last().contains('/')) by {
            if s.drop_last().contains('/') {
                let k = choose|k: int| 0 <= k < s.drop_last().len() && s.drop_last()[k] == '/';
                assert(s[k] == '/');
            }
        }
        lemma_split_single(s.drop_last());
        assert(s.drop_last().push(s.last()) =~= s);
        assert(split(s) =~= seq![s]);
    } else {
        assert(s =~= Seq::empty());
    }
}

/// Splitting what was joined gives the pieces back.
pub proof fn lemma_split_join(parts: Seq<Seq<char>>)
    requires
        parts.len() > 0,
        slash_free(parts),
    ensures
        split(join(parts)) == parts,
    decreases parts.len(),
{
    assert(!parts[parts.len() - 1].contains('/'));
    lemma_split_single(parts.last());
    if parts.len() == 1 {
        assert(parts =~= seq![parts[0]]);
    } else {
        assert forall|i: int| 0 <= i < parts.drop_last().len() implies !(
        #[trigger] parts.drop_last()[i]).contains('/') by {
            assert(!parts[i].contains('/'));
        }
        lemma_split_join(parts.drop_last());
        lemma_split_concat(join(parts.drop_last()), parts.last());
        assert(parts.drop_last() + seq![parts.last()] =~= parts);
    }
}

/// The decimal digit of a number below ten.
pub open spec fn digit(n: int) -> char {
    (n + 48) as char
}

/// A number in decimal notation, without leading zeros.
pub open spec fn decimal(n: nat) -> Seq<char>
    decreases n,
{
    if n < 10 {
        seq![digit(n as int)]
    } else {
        decimal(n / 10).push(digit((n % 10) as int))
    }
}

/// The characters of a text.
pub fn chars_of(s: &str) -> (r: Vec<char>)
    ensures
        r@ == s@,
{
    let mut r: Vec<char> = Vec::new();
    for c in it: s.chars()
        invariant
            r@ == s@.take(it.index() as int),
            it.seq() == s@,
    {
        r.push(c);
    }
    r
}

/// Appends the characters from `from` up to `to` to a string.
pub fn append_range(out: &mut String, chars: &Vec<char>, from: usize, to: usize)
    requires
        from <= to <= chars@.len(),
    ensures
        final(out)@ == old(out)@ + chars@.subrange(from as int, to as int),
{
    let mut i: usize = from;
    while i < to
        invariant
            from <= i <= to <= chars@.len(),
            out@ == old(out)@ + chars@.subrange(from as int, i as int),
        decreases to - i,
    {
        out.push(chars[i]);
        i = i + 1;
    }
}

/// The characters from `from` up to `to` as a string.
pub fn string_of(chars: &Vec<char>, from: usize, to: usize) -> (r: String)
    requires
        from <= to <= chars@.len(),
    ensures
        r@ == chars@.subrange(from as int, to as int),
{
    let mut out = String::new();
    append_range(&mut out, chars, from, to);
    out
}

/// Compares two texts in lexicographic order.
pub fn order(a: &str, b: &str) -> (r: TextOrder)
    ensures
        r is Before <==> before(a@, b@),
        r is Same <==> a@ == b@,
        r is After <==> before(b@, a@),
{
    let mut left = a.chars();
    let mut right = b.chars();
    let ghost mut k: int = 0;
    loop
        invariant
            0 <= k <= a@.len(),
            k <= b@.len(),
            vstd::std_specs::iter::IteratorSpec::remaining(&left) == a@.skip(k),
            vstd::std_specs::iter::IteratorSpec::remaining(&right) == b@.skip(k),
            forall|i: int| 0 <= i < k ==> a@[i] == b@[i],
        decreases a@.len() - k,
    {
        match (left.next(), right.next()) {
            (None, None) => {
                proof {
                    assert(a@ =~= b@);
                    if before(a@, b@) {
                        lemma_before_strict(a@, b@);
                    }
                }
                return TextOrder::Same;
            },
            (None, Some(_)) => {
                proof {
                    assert(before_at(a@, b@, k));
                    lemma_before_strict(a@, b@);
                }
                return TextOrder::Before;
            },
            (Some(_), None) => {
                proof {
                    assert(before_at(b@, a@, k));
                    lemma_before_strict(b@, a@);
                }
                return TextOrder::After;
            },
            (Some(x), Some(y)) => {
                assert(x == a@[k] && y == b@[k]);
                if x < y {
                    proof {
                        assert(before_at(a@, b@, k));
                        lemma_before_strict(a@, b@);
                    }
                    return TextOrder::Before;
                }
                if y < x {
                    proof {
                        assert(before_at(b@, a@, k));
                        lemma_before_strict(b@, a@);
                    }
                    return TextOrder::After;
                }
                proof {
                    k = k + 1;
                }
            },
        }
    }
}

/// A number in decimal notation.
pub fn decimal_text(n: u64) -> (r: String)
    ensures
        r@ == decimal(n as nat),
    decreases n,
{
    let mut out = if n < 10 {
        String::new()
    } else {
        decimal_text(n / 10)
    };
    let low: u8 = (n % 10) as u8;
    let c: char = (low + 48u8) as char;
    out.push(c);
    out
}

} // verus!
