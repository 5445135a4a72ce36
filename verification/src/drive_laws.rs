//! What holds of the drive whatever is done to it.

use vstd::prelude::*;

use crate::drive::{
    child_prefix, is_parent, names_child, path_so_far, seeded, subtree, with_parents, DriveModel,
    DriveSeedFile, FileModel,
};
use crate::filetime::{filetime, VIRTUAL_DRIVE_FILETIME};
use crate::path::{
    clean, confined, forbidden, law_clean_path_is_normal, law_normal_form_is_clean, lemma_confined_below,
    lemma_confined_sides, lemma_root_is_clean, lemma_split_chars, normal, skipped, trim_end, under,
};
use crate::path_map::{lands_on, relocated};
use crate::text::{join, split};
use crate::text::{lemma_join_split, lemma_split_concat, lemma_split_pieces, lemma_split_single};

verus! {

/// Every proper ancestor of `p` is one of the directories.
pub open spec fn ancestors_in(directories: Map<Seq<char>, i64>, p: Seq<char>) -> bool {
    forall|i: int|
        0 <= i < p.len() && #[trigger] p[i] == '/' ==> directories.contains_key(p.take(i))
}

impl DriveModel {
    /// The root is a directory, and so is every ancestor of what is on the drive.
    pub open spec fn rooted(self) -> bool {
        &&& self.directories.contains_key(Seq::empty())
        &&& forall|p: Seq<char>| #[trigger]
            self.exists_at(p) ==> ancestors_in(self.directories, p)
    }

    /// No path on the drive can leave the tree.
    pub open spec fn all_confined(self) -> bool {
        forall|p: Seq<char>| #[trigger] self.exists_at(p) ==> confined(p)
    }
}

proof fn lemma_so_far_joined(parts: Seq<Seq<char>>)
    requires
        parts.len() > 0,
        forall|i: int| 0 <= i < parts.len() ==> (#[trigger] parts[i]).len() > 0,
    ensures
        path_so_far(parts) == join(parts),
        join(parts).len() > 0,
    decreases parts.len(),
{
    let init = parts.drop_last();
    assert(parts[parts.len() - 1].len() > 0);
    if parts.len() > 1 {
        assert forall|i: int| 0 <= i < init.len() implies (#[trigger] init[i]).len() > 0 by {
            assert(parts[i].len() > 0);
        }
        lemma_so_far_joined(init);
    } else {
        assert(path_so_far(init).len() == 0);
    }
}

/// Up to any slash, a normal path is one of its own parents.
proof fn lemma_prefix_is_parent(path: Seq<char>, i: int)
    requires
        clean(path),
        0 <= i < path.len(),
        path[i] == '/',
    ensures
        is_parent(path, path.take(i)),
{
    let parts = split(path);
    let p = path.take(i);
    lemma_split_pieces(p);
    lemma_split_pieces(path.skip(i + 1));
    assert(path =~= p.push('/') + path.skip(i + 1));
    lemma_split_concat(p, path.skip(i + 1));
    let k = split(p).len() as int;
    assert(parts.take(k) =~= split(p));
    assert forall|j: int| 0 <= j < split(p).len() implies (#[trigger] split(p)[j]).len() > 0 by {
        assert(!skipped(parts[j]));
    }
    lemma_so_far_joined(split(p));
    lemma_join_split(p);
    assert(p == path_so_far(parts.take(k)));
}

/// The parents of a normal path are the root and what lies before one of its slashes.
proof fn lemma_parent_is_prefix(path: Seq<char>, p: Seq<char>)
    requires
        clean(path),
        is_parent(path, p),
        p.len() > 0,
    ensures
        p.len() < path.len(),
        path[p.len() as int] == '/',
        p == path.take(p.len() as int),
{
    let parts = split(path);
    let k = choose|k: int| 0 < k < parts.len() && p == #[trigger] path_so_far(parts.take(k));
    let head = parts.take(k);
    assert forall|j: int| 0 <= j < head.len() implies (#[trigger] head[j]).len() > 0 by {
        assert(path.len() > 0) by {
            if path.len() == 0 {
                assert(parts.len() == 1);
            }
        }
        assert(!skipped(parts[j]));
    }
    lemma_so_far_joined(head);
    lemma_join_prefix(parts, k);
    lemma_join_split(path);
}

pub proof fn lemma_join_prefix(parts: Seq<Seq<char>>, k: int)
    requires
        0 < k < parts.len(),
    ensures
        join(parts).len() > join(parts.take(k)).len(),
        join(parts)[join(parts.take(k)).len() as int] == '/',
        join(parts.take(k)) == join(parts).take(join(parts.take(k)).len() as int),
    decreases parts.len(),
{
    let init = parts.drop_last();
    let n = join(parts.take(k)).len() as int;
    if k == parts.len() - 1 {
        assert(parts.take(k) =~= init);
    } else {
        assert(init.take(k) =~= parts.take(k));
        lemma_join_prefix(init, k);
        assert(join(parts)[n] == join(init)[n]);
    }
    assert(join(parts.take(k)) =~= join(parts).take(n)) by {
        assert forall|i: int| 0 <= i < n implies join(parts.take(k))[i] == join(parts)[i] by {
            assert(join(parts)[i] == join(init)[i]);
            if k < parts.len() - 1 {
                assert(join(init).take(n)[i] == join(init)[i]);
            }
        }
    }
}

/// Adding the parents of a normal path keeps the ancestors of everything, and adds those of the
/// path and of its parents.
proof fn lemma_parents_added(directories: Map<Seq<char>, i64>, path: Seq<char>)
    requires
        clean(path),
    ensures
        with_parents(directories, path).contains_key(Seq::empty()),
        ancestors_in(with_parents(directories, path), path),
        forall|p: Seq<char>| #[trigger]
            with_parents(directories, path).contains_key(p) && !directories.contains_key(p)
                ==> ancestors_in(with_parents(directories, path), p),
        forall|p: Seq<char>|
            ancestors_in(directories, p) ==> #[trigger] ancestors_in(
                with_parents(directories, path),
                p,
            ),
{
    let after = with_parents(directories, path);
    assert forall|i: int| 0 <= i < path.len() && #[trigger] path[i] == '/' implies after.contains_key(
        path.take(i),
    ) by {
        lemma_prefix_is_parent(path, i);
    }
    assert forall|p: Seq<char>| #[trigger]
        after.contains_key(p) && !directories.contains_key(p) implies ancestors_in(after, p) by {
        if p.len() > 0 {
            lemma_parent_is_prefix(path, p);
            assert forall|i: int| 0 <= i < p.len() && #[trigger] p[i] == '/' implies after.contains_key(
                p.take(i),
            ) by {
                assert(p[i] == path[i]);
                assert(p.take(i) =~= path.take(i));
            }
        }
    }
    assert forall|p: Seq<char>| ancestors_in(directories, p) implies #[trigger] ancestors_in(
        after,
        p,
    ) by {
        assert forall|i: int| 0 <= i < p.len() && #[trigger] p[i] == '/' implies after.contains_key(
            p.take(i),
        ) by {
            assert(directories.contains_key(p.take(i)));
        }
    }
}

/// Placing a file or a directory at a normal path leaves no gap above it or above anything else.
pub proof fn law_placing_keeps_the_tree(drive: DriveModel, path: Seq<char>, file: FileModel)
    requires
        drive.rooted(),
        clean(path),
    ensures
        drive.with_file(path).rooted(),
        drive.with_file_set(path, file).rooted(),
        drive.with_directory(path).rooted(),
{
    lemma_parents_added(drive.directories, path);
    let parents = with_parents(drive.directories, path);
    assert forall|p: Seq<char>| drive.exists_at(p) || p == path || parents.contains_key(p) implies
        #[trigger] ancestors_in(parents, p) by {
        if drive.exists_at(p) {
            assert(ancestors_in(drive.directories, p));
        }
    }
    assert forall|p: Seq<char>| #[trigger] drive.with_directory(path).exists_at(p) implies
        ancestors_in(drive.with_directory(path).directories, p) by {
        assert(ancestors_in(parents, p));
        assert forall|i: int| 0 <= i < p.len() && #[trigger] p[i] == '/' implies
            drive.with_directory(path).directories.contains_key(p.take(i)) by {
            assert(parents.contains_key(p.take(i)));
        }
    }
}

/// A freshly seeded drive has no gaps, whatever the names of its files.
pub proof fn law_seeded_drive_is_a_tree(files: Seq<DriveSeedFile>)
    ensures
        seeded(files).rooted(),
    decreases files.len(),
{
    if files.len() > 0 {
        law_seeded_drive_is_a_tree(files.drop_last());
        let file = files.last();
        law_normal_form_is_clean(file.name@);
        if let Some(p) = normal(file.name@) {
            if p.len() > 0 {
                law_placing_keeps_the_tree(
                    seeded(files.drop_last()),
                    p,
                    seeded(files).files[p],
                );
            }
        }
    }
}

/// Where no gap is, every directory can be listed.
pub proof fn law_tree_is_listable(drive: DriveModel, dir: Seq<char>)
    requires
        drive.rooted(),
    ensures
        drive.listable(dir),
{
    assert forall|name: Seq<char>| #[trigger] drive.has_child(dir, name) implies drive.exists_at(
        child_prefix(dir) + name,
    ) by {
        let p = choose|p: Seq<char>| #[trigger]
            drive.exists_at(p) && names_child(p, dir, name);
        let d = child_prefix(dir) + name;
        if p != d {
            assert(d.push('/') =~= p.take(d.len() + 1int));
            assert(p[d.len() as int] == d.push('/')[d.len() as int]);
            assert(p.take(d.len() as int) =~= d.push('/').take(d.len() as int));
            assert(d.push('/').take(d.len() as int) =~= d);
            assert(ancestors_in(drive.directories, p));
        }
    }
}

/// Removing an entry other than the root that nothing lies below leaves no gap.
pub proof fn law_removing_a_leaf_keeps_the_tree(drive: DriveModel, path: Seq<char>)
    requires
        drive.rooted(),
        path.len() > 0,
        forall|p: Seq<char>| #[trigger] drive.exists_at(p) && under(p, path) ==> p == path,
    ensures
        drive.without(path).rooted(),
{
    let after = drive.without(path);
    assert forall|p: Seq<char>| #[trigger] after.exists_at(p) implies ancestors_in(
        after.directories,
        p,
    ) by {
        assert(drive.exists_at(p));
        assert forall|i: int| 0 <= i < p.len() && #[trigger] p[i] == '/' implies after.directories.contains_key(
            p.take(i),
        ) by {
            assert(drive.directories.contains_key(p.take(i)));
            lemma_under_prefix(p, i);
            assert(p != path || p.take(i) != path);
        }
    }
}

proof fn lemma_under_prefix(p: Seq<char>, i: int)
    requires
        0 <= i < p.len(),
        p[i] == '/',
    ensures
        under(p, p.take(i)),
{
    assert(p.take(i).push('/') =~= p.take(i + 1));
}

/// What follows a directory in a path at or below it.
pub open spec fn is_tail(tail: Seq<char>) -> bool {
    tail.len() == 0 || tail[0] == '/'
}

pub proof fn lemma_tail(dir: Seq<char>, tail: Seq<char>)
    ensures
        under(dir + tail, dir) <==> is_tail(tail),
        (dir + tail).skip(dir.len() as int) == tail,
        dir.is_prefix_of(dir + tail),
{
    let p = dir + tail;
    assert(p.skip(dir.len() as int) =~= tail);
    assert(p.take(dir.len() as int) =~= dir);
    if tail.len() == 0 {
        assert(p =~= dir);
    } else {
        assert(p.len() > dir.len());
        assert(p[dir.len() as int] == tail[0]);
        if tail[0] == '/' {
            assert(dir.push('/') =~= p.take(dir.len() + 1int));
        } else if under(p, dir) {
            assert(p.take(dir.len() + 1int)[dir.len() as int] == '/');
        }
    }
}

pub proof fn lemma_has_tail(p: Seq<char>, dir: Seq<char>)
    requires
        under(p, dir),
    ensures
        p == dir + p.skip(dir.len() as int),
        is_tail(p.skip(dir.len() as int)),
{
    if p != dir {
        assert(p.take(dir.len() as int) =~= dir.push('/').take(dir.len() as int));
        assert(dir.push('/').take(dir.len() as int) =~= dir);
    }
    assert(p =~= dir + p.skip(dir.len() as int));
    lemma_tail(dir, p.skip(dir.len() as int));
}

/// What moves lands under the same tail, and only that lands.
pub proof fn lemma_landing<V>(m: Map<Seq<char>, V>, from: Seq<char>, to: Seq<char>)
    ensures
        forall|tail: Seq<char>|
            lands_on(subtree(m, from), from, to, #[trigger] (to + tail)) <==> m.contains_key(
                from + tail,
            ) && is_tail(tail),
        forall|p: Seq<char>| #[trigger]
            lands_on(subtree(m, from), from, to, p) ==> under(p, to) && p == to + p.skip(
                to.len() as int,
            ) && m.contains_key(from + p.skip(to.len() as int)),
{
    assert forall|tail: Seq<char>|
        lands_on(subtree(m, from), from, to, #[trigger] (to + tail)) == (m.contains_key(from + tail)
            && is_tail(tail)) by {
        lemma_tail(to, tail);
        lemma_tail(from, tail);
    }
    assert forall|p: Seq<char>| #[trigger] lands_on(subtree(m, from), from, to, p) implies under(
        p,
        to,
    ) && p == to + p.skip(to.len() as int) by {
        let tail = p.skip(to.len() as int);
        assert(p =~= to + tail);
        lemma_tail(to, tail);
        lemma_tail(from, tail);
    }
}

/// A renamed directory takes everything below it along: whatever was at a path below the old name
/// is, unchanged, at the same path below the new name. Nothing stays below the old name, unless
/// one name lies below the other.
pub proof fn law_rename_keeps_children_reachable(
    drive: DriveModel,
    from: Seq<char>,
    to: Seq<char>,
    tail: Seq<char>,
)
    requires
        !drive.files.contains_key(from),
        drive.renamed(from, to) is Some,
        is_tail(tail),
    ensures
        drive.files.contains_key(from + tail) ==> drive.renamed(from, to)->0.files.contains_key(
            to + tail,
        ) && drive.renamed(from, to)->0.files[to + tail] == drive.files[from + tail],
        drive.directories.contains_key(from + tail) ==> drive.renamed(
            from,
            to,
        )->0.directories.contains_key(to + tail) && drive.renamed(from, to)->0.directories[to
            + tail] == drive.directories[from + tail],
        clean(to) && !under(from, to) && !under(to, from) ==> !drive.renamed(
            from,
            to,
        )->0.exists_at(from + tail),
{
    let after = drive.renamed(from, to)->0;
    lemma_landing(drive.files, from, to);
    lemma_landing(drive.directories, from, to);
    lemma_tail(from, tail);
    lemma_tail(to, tail);
    if clean(to) && !under(from, to) && !under(to, from) {
        let p = from + tail;
        if under(p, to) {
            lemma_nested(p, from, to);
        }
        if is_parent(to, p) {
            if p.len() > 0 {
                lemma_parent_is_prefix(to, p);
                lemma_under_prefix(to, p.len() as int);
                lemma_under_transitive(to, p, from);
            } else {
                assert(from.len() == 0);
            }
        }
    }
}

/// Of two directories above one path, one lies below the other.
proof fn lemma_nested(p: Seq<char>, a: Seq<char>, b: Seq<char>)
    requires
        under(p, a),
        under(p, b),
    ensures
        under(a, b) || under(b, a),
{
    lemma_has_tail(p, a);
    lemma_has_tail(p, b);
    if a.len() <= b.len() {
        lemma_shorter(p, a, b);
    } else {
        lemma_shorter(p, b, a);
    }
}

proof fn lemma_shorter(p: Seq<char>, a: Seq<char>, b: Seq<char>)
    requires
        under(p, a),
        under(p, b),
        a.len() <= b.len(),
    ensures
        under(b, a),
{
    lemma_has_tail(p, a);
    lemma_has_tail(p, b);
    let tail = b.skip(a.len() as int);
    assert(b =~= a + tail) by {
        assert forall|i: int| 0 <= i < a.len() implies a[i] == b[i] by {
            assert(p[i] == a[i] && p[i] == b[i]);
        }
    }
    if tail.len() > 0 {
        assert(p[a.len() as int] == b[a.len() as int]);
        assert(p.skip(a.len() as int)[0] == p[a.len() as int]);
    }
    lemma_tail(a, tail);
}

proof fn lemma_under_transitive(p: Seq<char>, a: Seq<char>, b: Seq<char>)
    requires
        under(p, a),
        under(a, b),
    ensures
        under(p, b),
{
    lemma_has_tail(p, a);
    lemma_has_tail(a, b);
    let tail = p.skip(b.len() as int);
    assert(p =~= b + tail);
    if tail.len() > 0 {
        assert(tail[0] == p[b.len() as int]);
        if a.len() > b.len() {
            assert(a[b.len() as int] == a.skip(b.len() as int)[0]);
        } else {
            assert(a =~= b);
        }
    }
    lemma_tail(b, tail);
}

/// Renaming leaves no gap, unless the new name lies below the old one.
pub proof fn law_rename_keeps_the_tree(drive: DriveModel, from: Seq<char>, to: Seq<char>)
    requires
        drive.rooted(),
        clean(to),
        to == from || !under(to, from),
    ensures
        drive.renamed(from, to) matches Some(after) ==> after.rooted(),
{
    lemma_parents_added(drive.directories, to);
    if drive.files.contains_key(from) {
        let after = drive.renamed(from, to)->0;
        assert forall|p: Seq<char>| #[trigger] after.exists_at(p) implies ancestors_in(
            after.directories,
            p,
        ) by {
            if drive.exists_at(p) {
                assert(ancestors_in(drive.directories, p));
            }
        }
    } else if drive.renamed(from, to) is Some {
        let after = drive.renamed(from, to)->0;
        lemma_landing(drive.files, from, to);
        lemma_landing(drive.directories, from, to);
        assert forall|p: Seq<char>| #[trigger] after.exists_at(p) implies ancestors_in(
            after.directories,
            p,
        ) by {
            if lands_on(subtree(drive.files, from), from, to, p) || lands_on(
                subtree(drive.directories, from),
                from,
                to,
                p,
            ) {
                lemma_ancestors_of_landed(drive, from, to, p);
            } else {
                lemma_ancestors_of_kept(drive, from, to, p);
            }
        }
    }
}

/// What landed below the new name has its ancestors: the new parents and what landed with it.
#[verifier::spinoff_prover]
proof fn lemma_ancestors_of_landed(
    drive: DriveModel,
    from: Seq<char>,
    to: Seq<char>,
    p: Seq<char>,
)
    requires
        drive.rooted(),
        clean(to),
        to == from || !under(to, from),
        !drive.files.contains_key(from),
        drive.renamed(from, to) is Some,
        lands_on(subtree(drive.files, from), from, to, p) || lands_on(
            subtree(drive.directories, from),
            from,
            to,
            p,
        ),
    ensures
        ancestors_in((drive.renamed(from, to)->0).directories, p),
{
    let after = drive.renamed(from, to)->0;
    let parents = with_parents(drive.directories, to);
    lemma_parents_added(drive.directories, to);
    lemma_landing(drive.files, from, to);
    lemma_landing(drive.directories, from, to);
    assert forall|i: int| 0 <= i < p.len() && #[trigger] p[i] == '/' implies
        after.directories.contains_key(p.take(i)) by {
        let tail = p.skip(to.len() as int);
        lemma_tail(to, tail);
        let source = from + tail;
        assert(drive.exists_at(source));
        assert(ancestors_in(drive.directories, source));
        if i < to.len() {
            assert(to[i] == p[i]);
            assert(p.take(i) =~= to.take(i));
            assert(parents.contains_key(to.take(i)));
            lemma_under_prefix(to, i);
            if under(to.take(i), from) {
                lemma_under_transitive(to, to.take(i), from);
                lemma_has_tail(to.take(i), from);
            }
        } else {
            let k = i - to.len();
            assert(source[from.len() + k] == p[i]);
            assert(source.take(from.len() + k) =~= from + tail.take(k));
            assert(p.take(i) =~= to + tail.take(k));
            assert(is_tail(tail.take(k))) by {
                if k > 0 {
                    assert(tail.take(k)[0] == tail[0]);
                }
            }
            assert(drive.directories.contains_key(from + tail.take(k)));
            assert(lands_on(subtree(drive.directories, from), from, to, to + tail.take(k)));
        }
    }
}

/// What does not move keeps its ancestors: none of them lies below the old name.
#[verifier::spinoff_prover]
proof fn lemma_ancestors_of_kept(drive: DriveModel, from: Seq<char>, to: Seq<char>, p: Seq<char>)
    requires
        drive.rooted(),
        clean(to),
        to == from || !under(to, from),
        !drive.files.contains_key(from),
        drive.renamed(from, to) is Some,
        (drive.renamed(from, to)->0).exists_at(p),
        !lands_on(subtree(drive.files, from), from, to, p),
        !lands_on(subtree(drive.directories, from), from, to, p),
    ensures
        ancestors_in((drive.renamed(from, to)->0).directories, p),
{
    let after = drive.renamed(from, to)->0;
    let parents = with_parents(drive.directories, to);
    lemma_parents_added(drive.directories, to);
    lemma_landing(drive.files, from, to);
    lemma_landing(drive.directories, from, to);
    assert forall|i: int| 0 <= i < p.len() && #[trigger] p[i] == '/' implies
        after.directories.contains_key(p.take(i)) by {
        assert(drive.exists_at(p) || parents.contains_key(p));
        if drive.exists_at(p) {
            assert(ancestors_in(drive.directories, p));
        }
        assert(ancestors_in(parents, p));
        assert(parents.contains_key(p.take(i)));
        lemma_under_prefix(p, i);
        if under(p.take(i), from) {
            lemma_under_transitive(p, p.take(i), from);
            // Nothing below the old name stays but what landed there.
            if is_parent(to, p) {
                if p.len() > 0 {
                    lemma_parent_is_prefix(to, p);
                    lemma_under_prefix(to, p.len() as int);
                    lemma_under_transitive(to, p, from);
                    lemma_has_tail(p, from);
                }
            }
        }
    }
}

proof fn lemma_parents_present(directories: Map<Seq<char>, i64>, path: Seq<char>)
    requires
        clean(path),
        directories.contains_key(Seq::empty()),
        ancestors_in(directories, path),
    ensures
        with_parents(directories, path) == directories,
{
    assert forall|p: Seq<char>| is_parent(path, p) implies directories.contains_key(p) by {
        if p.len() > 0 {
            lemma_parent_is_prefix(path, p);
            assert(path[p.len() as int] == '/');
        } else {
            assert(p =~= Seq::empty());
        }
    }
    assert(with_parents(directories, path) =~= directories);
}

proof fn lemma_relocated_back<V>(m: Map<Seq<char>, V>, from: Seq<char>, to: Seq<char>)
    requires
        forall|p: Seq<char>| #[trigger] m.contains_key(p) ==> !under(p, to),
        !under(from, to),
        !under(to, from),
    ensures
        ({
            let there = relocated(m, subtree(m, from), from, to);
            relocated(there, subtree(there, to), to, from) == m
        }),
{
    let there = relocated(m, subtree(m, from), from, to);
    let back = relocated(there, subtree(there, to), to, from);
    lemma_landing(m, from, to);
    lemma_landing(there, to, from);
    assert forall|p: Seq<char>| #[trigger] back.dom().contains(p) == m.dom().contains(p) by {
        if under(p, from) {
            lemma_has_tail(p, from);
            let tail = p.skip(from.len() as int);
            assert(lands_on(subtree(m, from), from, to, to + tail) == m.contains_key(from + tail));
            lemma_tail(to, tail);
            if lands_on(subtree(there, to), to, from, p) {
                assert(there.contains_key(to + tail));
                assert(m.contains_key(p));
            }
            if m.contains_key(p) {
                assert(there.contains_key(to + tail));
                assert(lands_on(subtree(there, to), to, from, from + tail));
            }
        }
    }
    assert forall|p: Seq<char>| #[trigger] m.dom().contains(p) implies back[p] == m[p] by {
        if under(p, from) {
            lemma_has_tail(p, from);
            let tail = p.skip(from.len() as int);
            lemma_tail(to, tail);
            lemma_tail(from, tail);
            assert(lands_on(subtree(m, from), from, to, to + tail));
            assert(lands_on(subtree(there, to), to, from, from + tail));
        } else {
            assert(there[p] == m[p]);
        }
    }
    assert(back =~= m);
}

/// Renaming to a free name in an existing directory, and back, restores the drive.
pub proof fn law_rename_is_undone(drive: DriveModel, from: Seq<char>, to: Seq<char>)
    requires
        drive.rooted(),
        clean(from),
        clean(to),
        drive.renamed(from, to) is Some,
        forall|p: Seq<char>| #[trigger] drive.exists_at(p) ==> !under(p, to),
        ancestors_in(drive.directories, to),
        !under(from, to),
        !under(to, from),
    ensures
        drive.renamed(from, to)->0.renamed(to, from) == Some(drive),
{
    let there = drive.renamed(from, to)->0;
    assert(drive.exists_at(from));
    assert(ancestors_in(drive.directories, from));
    lemma_parents_present(drive.directories, from);
    lemma_parents_present(drive.directories, to);
    assert(!drive.exists_at(to));
    assert(to.len() > 0) by {
        assert(drive.exists_at(Seq::empty()));
        if to.len() == 0 {
            assert(to =~= Seq::empty());
        }
    }
    if drive.files.contains_key(from) {
        assert(there.renamed(to, from)->0 =~= drive);
    } else {
        assert forall|p: Seq<char>| #[trigger] drive.files.contains_key(p) implies !under(p, to) by {
            assert(drive.exists_at(p));
        }
        assert forall|p: Seq<char>| #[trigger] drive.directories.contains_key(p) implies !under(
            p,
            to,
        ) by {
            assert(drive.exists_at(p));
        }
        lemma_relocated_back(drive.files, from, to);
        lemma_relocated_back(drive.directories, from, to);
        lemma_landing(drive.files, from, to);
        lemma_landing(drive.directories, from, to);
        let none = Seq::<char>::empty();
        assert(to + none =~= to && from + none =~= from);
        assert(lands_on(subtree(drive.directories, from), from, to, to + none));
        assert(!lands_on(subtree(drive.files, from), from, to, to + none));
        assert(there.directories.contains_key(to) && !there.files.contains_key(to));
        assert(ancestors_in(there.directories, from)) by {
            assert forall|i: int| 0 <= i < from.len() && #[trigger] from[i] == '/' implies
                there.directories.contains_key(from.take(i)) by {
                assert(drive.directories.contains_key(from.take(i)));
                if under(from.take(i), from) {
                    lemma_has_tail(from.take(i), from);
                }
            }
        }
        assert(there.directories.contains_key(none)) by {
            if under(none, from) {
                lemma_has_tail(none, from);
            }
        }
        lemma_parents_present(there.directories, from);
    }
}

proof fn lemma_so_far_confined(parts: Seq<Seq<char>>)
    requires
        forall|i: int| 0 <= i < parts.len() ==> confined(#[trigger] parts[i]),
    ensures
        confined(path_so_far(parts)),
    decreases parts.len(),
{
    if parts.len() == 0 {
        lemma_root_is_clean();
    } else {
        let init = parts.drop_last();
        assert forall|i: int| 0 <= i < init.len() implies confined(#[trigger] init[i]) by {
            assert(confined(parts[i]));
        }
        lemma_so_far_confined(init);
        assert(confined(parts[parts.len() - 1]));
        lemma_confined_below(path_so_far(init), parts.last());
    }
}

/// The parents of a confined path are confined.
proof fn lemma_parent_confined(path: Seq<char>, p: Seq<char>)
    requires
        confined(path),
        is_parent(path, p),
    ensures
        confined(p),
{
    if p.len() == 0 {
        assert(p =~= Seq::empty());
        lemma_root_is_clean();
    } else {
        let parts = split(path);
        let k = choose|k: int| 0 < k < parts.len() && p == #[trigger] path_so_far(parts.take(k));
        lemma_pieces_confined(path);
        assert forall|i: int| 0 <= i < parts.take(k).len() implies confined(
            #[trigger] parts.take(k)[i],
        ) by {
            assert(confined(parts[i]));
        }
        lemma_so_far_confined(parts.take(k));
    }
}

proof fn lemma_pieces_confined(path: Seq<char>)
    requires
        confined(path),
    ensures
        forall|i: int| 0 <= i < split(path).len() ==> confined(#[trigger] split(path)[i]),
{
    let parts = split(path);
    lemma_split_pieces(path);
    lemma_split_chars(path, '\\');
    assert forall|i: int| 0 <= i < parts.len() implies confined(#[trigger] parts[i]) by {
        assert(!parts[i].contains('/'));
        lemma_split_single(parts[i]);
        assert(!forbidden(parts[i]));
    }
}

/// With a confined path, whatever replaces the part of it that names a directory.
pub proof fn lemma_tail_confined(from: Seq<char>, to: Seq<char>, tail: Seq<char>)
    requires
        confined(from + tail),
        confined(to),
        is_tail(tail),
    ensures
        confined(to + tail),
{
    if tail.len() == 0 {
        assert(to + tail =~= to);
    } else {
        let rest = tail.skip(1);
        assert(from + tail =~= from.push('/') + rest);
        lemma_confined_sides(from, rest);
        lemma_confined_below(to, rest);
        assert(to + tail =~= to.push('/') + rest);
    }
}

/// A freshly seeded drive holds only confined paths, whatever the names of its files.
pub proof fn law_seeded_drive_is_confined(files: Seq<DriveSeedFile>)
    ensures
        seeded(files).all_confined(),
    decreases files.len(),
{
    if files.len() == 0 {
        lemma_root_is_clean();
    } else {
        law_seeded_drive_is_confined(files.drop_last());
        let file = files.last();
        law_normal_form_is_clean(file.name@);
        if let Some(p) = normal(file.name@) {
            if p.len() > 0 {
                law_drive_stays_confined(
                    seeded(files.drop_last()),
                    p,
                    p,
                    seeded(files).files[p],
                );
            }
        }
    }
}

/// Nothing that is done to the drive with a confined path brings in a path that is not confined.
pub proof fn law_drive_stays_confined(
    drive: DriveModel,
    path: Seq<char>,
    from: Seq<char>,
    file: FileModel,
)
    requires
        drive.all_confined(),
        confined(path),
    ensures
        drive.with_file(path).all_confined(),
        drive.with_file_set(path, file).all_confined(),
        drive.with_directory(path).all_confined(),
        drive.without(path).all_confined(),
        drive.renamed(from, path) matches Some(after) ==> after.all_confined(),
{
    let parents = with_parents(drive.directories, path);
    assert forall|p: Seq<char>| #[trigger] parents.contains_key(p) implies confined(p) by {
        if drive.directories.contains_key(p) {
            assert(drive.exists_at(p));
        } else {
            lemma_parent_confined(path, p);
        }
    }
    assert forall|p: Seq<char>| drive.files.contains_key(p) implies confined(p) by {
        assert(drive.exists_at(p));
    }
    assert(drive.with_file(path).all_confined());
    assert(drive.with_file_set(path, file).all_confined());
    assert(drive.with_directory(path).all_confined());
    assert(drive.without(path).all_confined()) by {
        assert forall|p: Seq<char>| #[trigger] drive.without(path).exists_at(p) implies confined(
            p,
        ) by {
            assert(drive.exists_at(p));
        }
    }
    if drive.renamed(from, path) is Some {
        let after = drive.renamed(from, path)->0;
        lemma_landing(drive.files, from, path);
        lemma_landing(drive.directories, from, path);
        assert forall|p: Seq<char>| #[trigger] after.exists_at(p) implies confined(p) by {
            if !drive.files.contains_key(from) && (lands_on(
                subtree(drive.files, from),
                from,
                path,
                p,
            ) || lands_on(subtree(drive.directories, from), from, path, p)) {
                let tail = p.skip(path.len() as int);
                lemma_tail(path, tail);
                assert(drive.exists_at(from + tail));
                lemma_tail_confined(from, path, tail);
            }
        }
    }
}

/// What a directory query names is confined, whatever the query says.
pub proof fn law_query_stays_confined(drive: DriveModel, open_path: Seq<char>, requested: Seq<char>)
    requires
        confined(open_path),
    ensures
        drive.query_target(open_path, requested) matches Some(target) ==> confined(target),
{
    let trimmed = trim_end(trim_end(requested, set!['*']), set!['\\', '/']);
    law_normal_form_is_clean(trimmed);
    if let Some(p) = normal(trimmed) {
        lemma_confined_below(open_path, p);
    }
}

/// What a seed file becomes on the drive.
pub open spec fn seed_file(file: DriveSeedFile) -> FileModel {
    FileModel { size: file.size, data: None, last_modified: filetime(file.last_modified) }
}

/// The file is placed at this path when a drive is seeded.
pub open spec fn is_seeded_at(file: DriveSeedFile, p: Seq<char>) -> bool {
    p.len() > 0 && normal(file.name@) == Some(p)
}

/// A fresh drive holds each given file at the normal form of its name, with its size and its
/// time, unless a later file has the same name.
pub proof fn law_seed_files_are_found(files: Seq<DriveSeedFile>, i: int, p: Seq<char>)
    requires
        0 <= i < files.len(),
        is_seeded_at(files[i], p),
        forall|j: int| i < j < files.len() ==> !is_seeded_at(#[trigger] files[j], p),
    ensures
        seeded(files).files.contains_key(p),
        seeded(files).files[p] == seed_file(files[i]),
    decreases files.len(),
{
    if i < files.len() - 1 {
        let init = files.drop_last();
        assert forall|j: int| i < j < init.len() implies !is_seeded_at(#[trigger] init[j], p) by {
            assert(!is_seeded_at(files[j], p));
        }
        law_seed_files_are_found(init, i, p);
        assert(!is_seeded_at(files[files.len() - 1], p));
    }
}

/// A fresh drive holds no file that was not given.
pub proof fn law_seeded_drive_holds_given_files(files: Seq<DriveSeedFile>, p: Seq<char>)
    requires
        seeded(files).files.contains_key(p),
    ensures
        exists|i: int|
            0 <= i < files.len() && is_seeded_at(#[trigger] files[i], p) && seeded(files).files[p]
                == seed_file(files[i]),
    decreases files.len(),
{
    let last = files.len() - 1;
    if files.len() > 0 {
        if is_seeded_at(files[last], p) {
            assert(seeded(files).files[p] == seed_file(files[last]));
        } else {
            let init = files.drop_last();
            law_seeded_drive_holds_given_files(init, p);
            let i = choose|i: int|
                0 <= i < init.len() && is_seeded_at(#[trigger] init[i], p) && seeded(init).files[p]
                    == seed_file(init[i]);
            assert(files[i] == init[i]);
        }
    }
}

proof fn lemma_trim_all(s: Seq<char>, drop: Set<char>)
    requires
        forall|i: int| 0 <= i < s.len() ==> drop.contains(#[trigger] s[i]),
    ensures
        trim_end(s, drop).len() == 0,
    decreases s.len(),
{
    if s.len() > 0 {
        assert(drop.contains(s[s.len() - 1]));
        assert forall|i: int| 0 <= i < s.drop_last().len() implies drop.contains(
            #[trigger] s.drop_last()[i],
        ) by {
            assert(drop.contains(s[i]));
        }
        lemma_trim_all(s.drop_last(), drop);
    }
}

proof fn lemma_trim_tail(s: Seq<char>, tail: Seq<char>, drop: Set<char>)
    requires
        forall|i: int| 0 <= i < tail.len() ==> drop.contains(#[trigger] tail[i]),
        s.len() > 0 ==> !drop.contains(s.last()),
    ensures
        trim_end(s + tail, drop) == s,
    decreases tail.len(),
{
    if tail.len() == 0 {
        assert(s + tail =~= s);
    } else {
        assert(drop.contains(tail[tail.len() - 1]));
        assert((s + tail).drop_last() =~= s + tail.drop_last());
        assert forall|i: int| 0 <= i < tail.drop_last().len() implies drop.contains(
            #[trigger] tail.drop_last()[i],
        ) by {
            assert(drop.contains(tail[i]));
        }
        lemma_trim_tail(s, tail.drop_last(), drop);
    }
}

/// A query of separators with stars behind them, or of either alone, means the open directory,
/// whatever is on the drive.
pub proof fn law_wildcard_means_the_open_directory(
    drive: DriveModel,
    open_path: Seq<char>,
    separators: Seq<char>,
    stars: Seq<char>,
)
    requires
        forall|i: int|
            0 <= i < separators.len() ==> (#[trigger] separators[i] == '\\' || separators[i]
                == '/'),
        forall|i: int| 0 <= i < stars.len() ==> #[trigger] stars[i] == '*',
    ensures
        drive.query_target(open_path, separators + stars) == Some(open_path),
{
    lemma_trim_tail(separators, stars, set!['*']);
    lemma_trim_all(separators, set!['\\', '/']);
    let trimmed = trim_end(separators, set!['\\', '/']);
    assert(trimmed =~= Seq::empty());
    lemma_root_is_clean();
    law_clean_path_is_normal(Seq::empty());
}

impl DriveModel {
    /// Every directory carries the one timestamp of the drive.
    pub open spec fn directories_share_one_time(self) -> bool {
        forall|p: Seq<char>| #[trigger]
            self.directories.contains_key(p) ==> self.directories[p] == VIRTUAL_DRIVE_FILETIME
    }
}

/// The directories of a fresh drive carry the one timestamp.
pub proof fn law_seeded_directories_share_one_time(files: Seq<DriveSeedFile>)
    ensures
        seeded(files).directories_share_one_time(),
    decreases files.len(),
{
    if files.len() > 0 {
        law_seeded_directories_share_one_time(files.drop_last());
    }
}

/// Where every directory carries the one timestamp, every directory still does after anything
/// that is done to the drive.
pub proof fn law_directories_keep_one_time(
    drive: DriveModel,
    path: Seq<char>,
    from: Seq<char>,
    file: FileModel,
)
    requires
        drive.directories_share_one_time(),
    ensures
        drive.with_file(path).directories_share_one_time(),
        drive.with_file_set(path, file).directories_share_one_time(),
        drive.with_directory(path).directories_share_one_time(),
        drive.without(path).directories_share_one_time(),
        drive.renamed(from, path) matches Some(after) ==> after.directories_share_one_time(),
{
    let parents = with_parents(drive.directories, path);
    assert forall|p: Seq<char>| #[trigger] parents.contains_key(p) implies parents[p]
        == VIRTUAL_DRIVE_FILETIME by {
        if drive.directories.contains_key(p) {
            assert(drive.directories[p] == VIRTUAL_DRIVE_FILETIME);
        }
    }
    if drive.renamed(from, path) is Some {
        let after = drive.renamed(from, path)->0;
        assert forall|p: Seq<char>| #[trigger]
            after.directories.contains_key(p) implies after.directories[p]
            == VIRTUAL_DRIVE_FILETIME by {
            if !drive.files.contains_key(from) && lands_on(
                subtree(drive.directories, from),
                from,
                path,
                p,
            ) {
                assert(parents.contains_key(from + p.skip(path.len() as int)));
            } else {
                assert(parents.contains_key(p));
            }
        }
    }
}

} // verus!
