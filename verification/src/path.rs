//! Relative paths inside the drive: normalization and confinement.

use vstd::prelude::*;
use vstd::string::*;

use crate::text::{append_range, chars_of, join, split};
use crate::text::{
    lemma_join_split, lemma_split_concat, lemma_split_join, lemma_split_pieces, slash_free,
};

verus! {

/// The text with every backslash turned into a slash.
pub open spec fn slashed(s: Seq<char>) -> Seq<char> {
    s.map_values(
        |c: char|
            if c == '\\' {
                '/'
            } else {
                c
            },
    )
}

/// A path component that must not reach the drive.
pub open spec fn forbidden(part: Seq<char>) -> bool {
    part == seq!['.', '.'] || part.contains('\0')
}

/// A path component that names nothing.
pub open spec fn skipped(part: Seq<char>) -> bool {
    part.len() == 0 || part == seq!['.']
}

/// The components that name something, in order.
pub open spec fn kept(parts: Seq<Seq<char>>) -> Seq<Seq<char>>
    decreases parts.len(),
{
    if parts.len() == 0 {
        parts
    } else if skipped(parts.last()) {
        kept(parts.drop_last())
    } else {
        kept(parts.drop_last()).push(parts.last())
    }
}

/// Some component of the list must not reach the drive.
pub open spec fn any_forbidden(parts: Seq<Seq<char>>) -> bool {
    exists|i: int| 0 <= i < parts.len() && forbidden(#[trigger] parts[i])
}

/// The normal form of a Windows path, or `None` where the path is rejected.
pub open spec fn normal(s: Seq<char>) -> Option<Seq<char>> {
    let parts = split(slashed(s));
    if any_forbidden(parts) {
        None
    } else {
        Some(join(kept(parts)))
    }
}

/// A path that cannot leave the tree: no backslash, no `..` component and no NUL.
pub open spec fn confined(p: Seq<char>) -> bool {
    &&& !p.contains('\\')
    &&& !any_forbidden(split(p))
}

/// A path in normal form: the root, or components that each name something.
pub open spec fn clean(p: Seq<char>) -> bool {
    &&& confined(p)
    &&& p.len() == 0 || forall|i: int|
        0 <= i < split(p).len() ==> !skipped(#[trigger] split(p)[i])
}

/// `p` is `dir` itself or lies below it.
pub open spec fn under(p: Seq<char>, dir: Seq<char>) -> bool {
    p == dir || dir.push('/').is_prefix_of(p)
}

/// The text without the longest run of characters of `drop` at its end.
pub open spec fn trim_end(s: Seq<char>, drop: Set<char>) -> Seq<char>
    decreases s.len(),
{
    if s.len() > 0 && drop.contains(s.last()) {
        trim_end(s.drop_last(), drop)
    } else {
        s
    }
}

pub proof fn lemma_kept(parts: Seq<Seq<char>>)
    requires
        slash_free(parts),
    ensures
        slash_free(kept(parts)),
        forall|i: int| 0 <= i < kept(parts).len() ==> !skipped(#[trigger] kept(parts)[i]),
        any_forbidden(kept(parts)) ==> any_forbidden(parts),
        (forall|i: int| 0 <= i < parts.len() ==> !skipped(#[trigger] parts[i])) ==> kept(parts)
            == parts,
    decreases parts.len(),
{
    if parts.len() > 0 {
        let init = parts.drop_last();
        assert forall|i: int| 0 <= i < init.len() implies !(#[trigger] init[i]).contains('/') by {
            assert(!parts[i].contains('/'));
        }
        lemma_kept(init);
        let k = kept(parts);
        assert(!parts[parts.len() - 1].contains('/'));
        if any_forbidden(k) {
            let i = choose|i: int| 0 <= i < k.len() && forbidden(#[trigger] k[i]);
            if i < kept(init).len() {
                assert(forbidden(kept(init)[i]));
                let j = choose|j: int| 0 <= j < init.len() && forbidden(#[trigger] init[j]);
                assert(forbidden(parts[j]));
            } else {
                assert(forbidden(parts[parts.len() - 1]));
            }
        }
        if forall|i: int| 0 <= i < parts.len() ==> !skipped(#[trigger] parts[i]) {
            assert(!skipped(parts[parts.len() - 1]));
            assert forall|i: int| 0 <= i < init.len() implies !skipped(#[trigger] init[i]) by {
                assert(!skipped(parts[i]));
            }
            assert(init.push(parts.last()) =~= parts);
        }
    }
}

/// Up to a slash or the end, the components of a prefix are the first components of the whole.
proof fn lemma_split_prefix(s: Seq<char>, i: int)
    requires
        0 <= i <= s.len(),
        i == s.len() || s[i] == '/',
    ensures
        split(s.take(i)).is_prefix_of(split(s)),
{
    if i < s.len() {
        assert(s =~= s.take(i).push('/') + s.skip(i + 1));
        lemma_split_concat(s.take(i), s.skip(i + 1));
        assert(split(s.take(i)).is_prefix_of(split(s)));
    } else {
        assert(s.take(i) =~= s);
    }
}

/// Splitting brings in no new character.
pub proof fn lemma_split_chars(s: Seq<char>, c: char)
    requires
        !s.contains(c),
    ensures
        forall|i: int| 0 <= i < split(s).len() ==> !(#[trigger] split(s)[i]).contains(c),
    decreases s.len(),
{
    lemma_split_pieces(s);
    if s.len() > 0 {
        let init = s.drop_last();
        lemma_split_pieces(init);
        assert(s[s.len() - 1] != c) by {
            assert(s.contains(s[s.len() - 1]));
        }
        assert(!init.contains(c)) by {
            if init.contains(c) {
                let k = choose|k: int| 0 <= k < init.len() && init[k] == c;
                assert(s[k] == c);
            }
        }
        lemma_split_chars(init, c);
        let parts = split(s);
        assert forall|i: int| 0 <= i < parts.len() implies !(#[trigger] parts[i]).contains(c) by {
            if i < split(init).len() {
                assert(!split(init)[i].contains(c));
            }
            if parts[i].contains(c) {
                let k = choose|k: int| 0 <= k < parts[i].len() && parts[i][k] == c;
                if i < split(init).len() && k < split(init)[i].len() {
                    assert(split(init)[i][k] == c);
                }
            }
        }
    }
}

/// Joining brings in no new character but the slash.
proof fn lemma_join_chars(parts: Seq<Seq<char>>, c: char)
    requires
        c != '/',
        forall|i: int| 0 <= i < parts.len() ==> !(#[trigger] parts[i]).contains(c),
    ensures
        !join(parts).contains(c),
    decreases parts.len(),
{
    if parts.len() == 1 {
        assert(!parts[0].contains(c));
    } else if parts.len() > 1 {
        let init = parts.drop_last();
        assert forall|i: int| 0 <= i < init.len() implies !(#[trigger] init[i]).contains(c) by {
            assert(!parts[i].contains(c));
        }
        lemma_join_chars(init, c);
        assert(!parts[parts.len() - 1].contains(c));
        let whole = join(parts);
        if whole.contains(c) {
            let k = choose|k: int| 0 <= k < whole.len() && whole[k] == c;
            if k < join(init).len() {
                assert(join(init)[k] == c);
            } else if k > join(init).len() {
                assert(parts.last()[k - join(init).len() - 1] == c);
            }
        }
    }
}

/// Keeping some of the components brings in no new character.
proof fn lemma_kept_chars(parts: Seq<Seq<char>>, c: char)
    requires
        forall|i: int| 0 <= i < parts.len() ==> !(#[trigger] parts[i]).contains(c),
    ensures
        forall|i: int| 0 <= i < kept(parts).len() ==> !(#[trigger] kept(parts)[i]).contains(c),
    decreases parts.len(),
{
    if parts.len() > 0 {
        let init = parts.drop_last();
        assert forall|i: int| 0 <= i < init.len() implies !(#[trigger] init[i]).contains(c) by {
            assert(!parts[i].contains(c));
        }
        lemma_kept_chars(init, c);
        assert(!parts[parts.len() - 1].contains(c));
        assert forall|i: int| 0 <= i < kept(parts).len() implies !(
        #[trigger] kept(parts)[i]).contains(c) by {
            if i < kept(init).len() {
                assert(kept(parts)[i] == kept(init)[i]);
            }
        }
    }
}

/// The root is confined.
pub proof fn lemma_root_is_clean()
    ensures
        clean(Seq::empty()),
{
    let parts = split(Seq::<char>::empty());
    assert(parts.len() == 1 && parts[0].len() == 0);
    assert forall|i: int| 0 <= i < parts.len() implies !forbidden(#[trigger] parts[i]) by {
        assert(seq!['.', '.'].len() == 2);
    }
}

/// What normalization accepts is in normal form: no backslash, no NUL and no empty, `.` or `..`
/// component is left.
pub proof fn law_normal_form_is_clean(s: Seq<char>)
    ensures
        normal(s) matches Some(p) ==> clean(p),
{
    let parts = split(slashed(s));
    if !any_forbidden(parts) {
        let names = kept(parts);
        let p = join(names);
        lemma_split_pieces(slashed(s));
        lemma_kept(parts);
        assert(!slashed(s).contains('\\'));
        lemma_split_chars(slashed(s), '\\');
        lemma_kept_chars(parts, '\\');
        lemma_join_chars(names, '\\');
        if names.len() == 0 {
            lemma_root_is_clean();
        } else {
            lemma_split_join(names);
        }
    }
}

/// A path in normal form is its own normal form.
pub proof fn law_clean_path_is_normal(p: Seq<char>)
    requires
        clean(p),
    ensures
        normal(p) == Some(p),
{
    assert(slashed(p) =~= p) by {
        assert forall|i: int| 0 <= i < p.len() implies slashed(p)[i] == p[i] by {
            assert(p.contains(p[i]));
        }
    }
    lemma_split_pieces(p);
    lemma_join_split(p);
    lemma_kept(split(p));
    if p.len() == 0 {
        assert(p =~= Seq::empty());
        assert(split(p).drop_last() =~= Seq::empty());
        assert(skipped(split(p).last()));
        assert(kept(split(p)) == kept(split(p).drop_last()));
        assert(kept(Seq::<Seq<char>>::empty()) =~= Seq::empty());
    }
}

/// Normalization is idempotent.
pub proof fn law_normalization_is_idempotent(s: Seq<char>)
    ensures
        normal(s) matches Some(p) ==> normal(p) == Some(p),
{
    law_normal_form_is_clean(s);
    if normal(s) is Some {
        law_clean_path_is_normal(normal(s)->0);
    }
}

/// A path with a `..` component, between slashes or backslashes, is rejected.
pub proof fn law_escaping_path_is_rejected(s: Seq<char>, i: int)
    requires
        0 <= i < split(slashed(s)).len(),
        split(slashed(s))[i] == seq!['.', '.'],
    ensures
        normal(s) is None,
{
    assert(forbidden(split(slashed(s))[i]));
}

/// A confined path below a confined path is confined.
pub proof fn lemma_confined_below(a: Seq<char>, b: Seq<char>)
    requires
        confined(a),
        confined(b),
    ensures
        confined(a.push('/') + b),
{
    let whole = a.push('/') + b;
    lemma_split_concat(a, b);
    if any_forbidden(split(whole)) {
        let i = choose|i: int| 0 <= i < split(whole).len() && forbidden(#[trigger] split(whole)[i]);
        if i < split(a).len() {
            assert(forbidden(split(a)[i]));
        } else {
            assert(forbidden(split(b)[i - split(a).len()]));
        }
    }
    if whole.contains('\\') {
        let k = choose|k: int| 0 <= k < whole.len() && whole[k] == '\\';
        if k < a.len() {
            assert(a[k] == '\\');
        } else if k > a.len() {
            assert(b[k - a.len() - 1] == '\\');
        }
    }
}

/// Both sides of a slash in a confined path are confined.
pub proof fn lemma_confined_sides(a: Seq<char>, b: Seq<char>)
    requires
        confined(a.push('/') + b),
    ensures
        confined(a),
        confined(b),
{
    let whole = a.push('/') + b;
    lemma_split_concat(a, b);
    assert forall|i: int| 0 <= i < split(a).len() implies !forbidden(#[trigger] split(a)[i]) by {
        assert(split(whole)[i] == split(a)[i]);
    }
    assert forall|i: int| 0 <= i < split(b).len() implies !forbidden(#[trigger] split(b)[i]) by {
        assert(split(whole)[i + split(a).len()] == split(b)[i]);
    }
    assert forall|k: int| 0 <= k < a.len() implies a[k] != '\\' by {
        assert(whole[k] == a[k]);
        assert(whole.contains(whole[k]));
    }
    assert forall|k: int| 0 <= k < b.len() implies b[k] != '\\' by {
        assert(whole[a.len() + 1 + k] == b[k]);
        assert(whole.contains(whole[a.len() + 1 + k]));
    }
}

fn is_forbidden(chars: &Vec<char>, from: usize, to: usize) -> (r: bool)
    requires
        from <= to <= chars@.len(),
    ensures
        r == forbidden(chars@.subrange(from as int, to as int)),
{
    let ghost part = chars@.subrange(from as int, to as int);
    if to - from == 2 && chars[from] == '.' && chars[from + 1] == '.' {
        assert(part =~= seq!['.', '.']);
        return true;
    }
    assert(part != seq!['.', '.']) by {
        if part == seq!['.', '.'] {
            assert(part.len() == 2);
            assert(chars@[from as int] == part[0] && chars@[from + 1] == part[1]);
        }
    }
    let mut i: usize = from;
    while i < to
        invariant
            from <= i <= to <= chars@.len(),
            part == chars@.subrange(from as int, to as int),
            forall|j: int| from <= j < i ==> chars@[j] != '\0',
        decreases to - i,
    {
        if chars[i] == '\0' {
            assert(part[i - from] == '\0');
            return true;
        }
        i = i + 1;
    }
    false
}

fn is_skipped(chars: &Vec<char>, from: usize, to: usize) -> (r: bool)
    requires
        from <= to <= chars@.len(),
    ensures
        r == skipped(chars@.subrange(from as int, to as int)),
{
    let ghost part = chars@.subrange(from as int, to as int);
    if from == to {
        return true;
    }
    let single = to - from == 1 && chars[from] == '.';
    proof {
        if single {
            assert(part =~= seq!['.']);
        } else if part == seq!['.'] {
            assert(part.len() == 1);
            assert(chars@[from as int] == part[0]);
        }
    }
    single
}

/// Normalizes the first `end` characters of a Windows path: slashes between components, no empty
/// or `.` component. Rejects a path with a `..` component or a NUL.
pub fn normalize_prefix(chars: &Vec<char>, end: usize) -> (r: Result<String, ()>)
    requires
        end <= chars@.len(),
    ensures
        match normal(chars@.take(end as int)) {
            Some(p) => r matches Ok(text) && text@ == p,
            None => r is Err,
        },
{
    let ghost s = slashed(chars@.take(end as int));
    let mut out = String::new();
    let mut first = true;
    let mut start: usize = 0;
    let mut i: usize = 0;
    loop
        invariant
            start <= i <= end <= chars@.len(),
            s == slashed(chars@.take(end as int)),
            split(s.take(i as int)).len() >= 1,
            split(s.take(i as int)).last() == chars@.subrange(start as int, i as int),
            !any_forbidden(split(s.take(i as int)).drop_last()),
            out@ == join(kept(split(s.take(i as int)).drop_last())),
            first == (kept(split(s.take(i as int)).drop_last()).len() == 0),
        decreases end - i,
    {
        let ghost parts = split(s.take(i as int));
        if i == end || chars[i] == '/' || chars[i] == '\\' {
            proof {
                lemma_split_prefix(s, i as int);
                assert(split(s)[parts.len() - 1] == parts[parts.len() - 1]);
            }
            if is_forbidden(chars, start, i) {
                assert(forbidden(split(s)[parts.len() - 1]));
                return Err(());
            }
            if !is_skipped(chars, start, i) {
                if !first {
                    out.push('/');
                }
                append_range(&mut out, chars, start, i);
                first = false;
                assert(kept(parts).drop_last() =~= kept(parts.drop_last()));
                assert(out@ =~= join(kept(parts)));
            }
            proof {
                assert forall|j: int| 0 <= j < parts.len() implies !forbidden(#[trigger] parts[j]) by {
                    if j < parts.len() - 1 {
                        assert(parts.drop_last()[j] == parts[j]);
                    }
                }
                if i < end {
                    assert(s.take(i + 1).drop_last() =~= s.take(i as int));
                    assert(split(s.take(i + 1)).drop_last() =~= parts);
                } else {
                    assert(s.take(i as int) =~= s);
                }
            }
            if i == end {
                return Ok(out);
            }
            start = i + 1;
        } else {
            proof {
                assert(s.take(i + 1).drop_last() =~= s.take(i as int));
                assert(split(s.take(i + 1)).drop_last() =~= parts.drop_last());
                assert(split(s.take(i + 1)).last() =~= chars@.subrange(start as int, i + 1));
            }
        }
        i = i + 1;
    }
}

/// Normalizes a whole Windows path; see [`normalize_prefix`].
pub fn normalize(path: &str) -> (r: Result<String, ()>)
    ensures
        match normal(path@) {
            Some(p) => r matches Ok(text) && text@ == p,
            None => r is Err,
        },
{
    let chars = chars_of(path);
    assert(chars@.take(chars@.len() as int) =~= chars@);
    normalize_prefix(&chars, chars.len())
}

proof fn lemma_trim_step(s: Seq<char>, end: int, drop: Set<char>)
    requires
        0 < end <= s.len(),
        drop.contains(s[end - 1]),
    ensures
        trim_end(s.take(end), drop) == trim_end(s.take(end - 1), drop),
{
    assert(s.take(end).drop_last() =~= s.take(end - 1));
}

/// The length that is left of a query once trailing asterisks, and then trailing slashes and
/// backslashes, are cut off.
pub fn query_len(chars: &Vec<char>) -> (end: usize)
    ensures
        end <= chars@.len(),
        chars@.take(end as int) == trim_end(trim_end(chars@, set!['*']), set!['\\', '/']),
{
    let mut end: usize = chars.len();
    assert(chars@.take(end as int) =~= chars@);
    while end > 0 && chars[end - 1] == '*'
        invariant
            end <= chars@.len(),
            trim_end(chars@.take(end as int), set!['*']) == trim_end(chars@, set!['*']),
        decreases end,
    {
        proof {
            lemma_trim_step(chars@, end as int, set!['*']);
        }
        end = end - 1;
    }
    let ghost s = trim_end(chars@, set!['*']);
    assert(s == chars@.take(end as int));
    while end > 0 && (chars[end - 1] == '\\' || chars[end - 1] == '/')
        invariant
            end <= chars@.len(),
            trim_end(chars@.take(end as int), set!['\\', '/']) == trim_end(s, set!['\\', '/']),
        decreases end,
    {
        proof {
            lemma_trim_step(chars@, end as int, set!['\\', '/']);
        }
        end = end - 1;
    }
    end
}

/// `dir`, a slash and `name`.
pub fn child_path(dir: &str, name: &str) -> (r: String)
    ensures
        r@ == dir@.push('/') + name@,
{
    let mut out = dir.to_owned();
    out.push('/');
    out.append(name);
    out
}

/// Whether a path is a directory or lies below it.
pub fn is_under(path: &Vec<char>, dir: &Vec<char>) -> (r: bool)
    ensures
        r == under(path@, dir@),
{
    if path.len() < dir.len() {
        return false;
    }
    let mut i: usize = 0;
    while i < dir.len()
        invariant
            i <= dir@.len() <= path@.len(),
            forall|j: int| 0 <= j < i ==> path@[j] == dir@[j],
        decreases dir@.len() - i,
    {
        if path[i] != dir[i] {
            proof {
                if dir@.push('/').is_prefix_of(path@) {
                    assert(dir@.push('/')[i as int] == path@[i as int]);
                }
            }
            return false;
        }
        i = i + 1;
    }
    if path.len() == dir.len() {
        assert(path@ =~= dir@);
        return true;
    }
    let below = path[dir.len()] == '/';
    proof {
        if below {
            assert(dir@.push('/') =~= path@.take(dir@.len() + 1int));
        } else if dir@.push('/').is_prefix_of(path@) {
            assert(dir@.push('/')[dir@.len() as int] == path@[dir@.len() as int]);
        }
    }
    below
}

} // verus!
