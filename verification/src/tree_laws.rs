//! What each operation does to the drive, path by path.

use vstd::prelude::*;

use crate::drive::{
    child_prefix, is_parent, names_child, path_so_far, seeded, subtree, with_parents, DriveModel,
    DriveSeedFile, EntryModel, FileModel,
};
use crate::drive_laws::{is_tail, lemma_join_prefix, lemma_landing, lemma_tail};
use crate::path::{law_normal_form_is_clean, normal, skipped, under};
use crate::path_laws::{law_trimming, law_under};
use crate::path_map::lands_on;
use crate::text::{before, join, split};
use crate::text::{lemma_join_split, lemma_split_concat, lemma_split_pieces};

verus! {

/// What a look at a path shows: a file with its size, time and content before a directory with
/// its time, and nothing where there is neither.
pub proof fn law_lookup(drive: DriveModel, p: Seq<char>)
    ensures
        drive.files.contains_key(p) ==> drive.metadata(p) == Some(
            (false, drive.files[p].size, drive.files[p].last_modified),
        ) && drive.content(p) == drive.files[p].data,
        !drive.files.contains_key(p) ==> drive.content(p) is None,
        !drive.files.contains_key(p) && drive.directories.contains_key(p) ==> drive.metadata(p)
            == Some((true, 0u64, drive.directories[p])),
        !drive.files.contains_key(p) && !drive.directories.contains_key(p) ==> drive.metadata(p)
            is None,
        drive.exists_at(p) <==> drive.files.contains_key(p) || drive.directories.contains_key(p),
{
}

/// `q` is the root, or what stands before one of the slashes of `path`.
pub open spec fn is_ancestor(q: Seq<char>, path: Seq<char>) -> bool {
    q.len() == 0 || (q.len() < path.len() && path[q.len() as int] == '/' && forall|i: int|
        0 <= i < q.len() ==> #[trigger] q[i] == path[i])
}

/// The path does not start with a slash.
pub open spec fn is_relative(path: Seq<char>) -> bool {
    path.len() == 0 || path[0] != '/'
}

proof fn lemma_so_far(parts: Seq<Seq<char>>)
    requires
        parts.len() > 0,
        parts[0].len() > 0,
    ensures
        path_so_far(parts) == join(parts),
        join(parts).len() > 0,
    decreases parts.len(),
{
    let init = parts.drop_last();
    if parts.len() == 1 {
        assert(path_so_far(init).len() == 0);
    } else {
        assert(init[0] == parts[0]);
        lemma_so_far(init);
    }
}

proof fn lemma_first_piece(path: Seq<char>)
    requires
        path.len() > 0,
        path[0] != '/',
    ensures
        split(path).len() > 0,
        split(path)[0].len() > 0,
    decreases path.len(),
{
    let init = path.drop_last();
    lemma_split_pieces(path);
    lemma_split_pieces(init);
    if path.len() == 1 {
        assert(init =~= Seq::empty());
        assert(split(init).len() == 1);
    } else {
        assert(init[0] == path[0]);
        lemma_first_piece(init);
    }
}

/// The parents of a path that does not start with a slash.
proof fn lemma_parents(path: Seq<char>, q: Seq<char>)
    requires
        is_relative(path),
    ensures
        is_parent(path, q) <==> is_ancestor(q, path),
{
    let parts = split(path);
    lemma_split_pieces(path);
    if is_parent(path, q) && q.len() > 0 {
        let k = choose|k: int| 0 < k < parts.len() && q == #[trigger] path_so_far(parts.take(k));
        if path.len() == 0 {
            assert(parts.len() == 1);
        }
        lemma_first_piece(path);
        assert(parts.take(k)[0] == parts[0]);
        lemma_so_far(parts.take(k));
        lemma_join_prefix(parts, k);
        lemma_join_split(path);
        assert(q == path.take(q.len() as int));
        assert forall|i: int| 0 <= i < q.len() implies #[trigger] q[i] == path[i] by {
            assert(path.take(q.len() as int)[i] == path[i]);
        }
    }
    if is_ancestor(q, path) && q.len() > 0 {
        let rest = path.skip(q.len() + 1int);
        assert(path =~= q.push('/') + rest);
        lemma_split_concat(q, rest);
        lemma_split_pieces(q);
        lemma_split_pieces(rest);
        let k = split(q).len() as int;
        assert(parts.take(k) =~= split(q));
        assert(q[0] == path[0]);
        lemma_first_piece(q);
        lemma_so_far(split(q));
        lemma_join_split(q);
        assert(q == path_so_far(parts.take(k)));
    }
}

/// The directories with the missing ancestors of a path added: those that are there keep their
/// time, and every new one gets the start of 2024.
pub proof fn law_parents_are_added(
    directories: Map<Seq<char>, i64>,
    path: Seq<char>,
    q: Seq<char>,
)
    requires
        is_relative(path),
    ensures
        with_parents(directories, path).contains_key(q) <==> directories.contains_key(q)
            || is_ancestor(q, path),
        directories.contains_key(q) ==> with_parents(directories, path)[q] == directories[q],
        !directories.contains_key(q) && is_ancestor(q, path) ==> with_parents(directories, path)[q]
            == 133_485_408_000_000_000,
{
    lemma_parents(path, q);
}

proof fn lemma_so_far_skips(parts: Seq<Seq<char>>)
    requires
        parts.len() > 0,
        parts[0].len() == 0,
    ensures
        path_so_far(parts) == path_so_far(parts.skip(1)),
    decreases parts.len(),
{
    if parts.len() == 1 {
        assert(path_so_far(parts.drop_last()).len() == 0);
        assert(path_so_far(parts.skip(1)).len() == 0);
        assert(path_so_far(parts) =~= path_so_far(parts.skip(1)));
    } else {
        let init = parts.drop_last();
        lemma_so_far_skips(init);
        assert(parts.skip(1).drop_last() =~= init.skip(1));
    }
}

/// A slash at the start of a path adds no ancestor.
pub proof fn law_leading_slash_adds_no_parent(directories: Map<Seq<char>, i64>, rest: Seq<char>)
    ensures
        with_parents(directories, seq!['/'] + rest) == with_parents(directories, rest),
{
    let path = seq!['/'] + rest;
    let none = Seq::<char>::empty();
    assert(path =~= none.push('/') + rest);
    lemma_split_concat(none, rest);
    assert(split(none) =~= seq![none]);
    let parts = split(path);
    let tail = split(rest);
    assert(parts =~= seq![none] + tail);
    assert forall|q: Seq<char>| #[trigger] is_parent(path, q) == is_parent(rest, q) by {
        if is_parent(path, q) && q.len() > 0 {
            let k = choose|k: int|
                0 < k < parts.len() && q == #[trigger] path_so_far(parts.take(k));
            assert(parts.take(k)[0] == none);
            lemma_so_far_skips(parts.take(k));
            assert(parts.take(k).skip(1) =~= tail.take(k - 1));
            assert(k > 1) by {
                if k == 1 {
                    assert(path_so_far(tail.take(0)).len() == 0);
                }
            }
            assert(q == path_so_far(tail.take(k - 1)));
        }
        if is_parent(rest, q) && q.len() > 0 {
            let k = choose|k: int| 0 < k < tail.len() && q == #[trigger] path_so_far(tail.take(k));
            assert(parts.take(k + 1)[0] == none);
            lemma_so_far_skips(parts.take(k + 1));
            assert(parts.take(k + 1).skip(1) =~= tail.take(k));
            assert(q == path_so_far(parts.take(k + 1)));
        }
    }
    assert(with_parents(directories, path) =~= with_parents(directories, rest));
}

/// Placing a file or a directory changes nothing at any other path but the missing ancestors, and
/// a file that is there already stays as it is.
pub proof fn law_placing(drive: DriveModel, path: Seq<char>, file: FileModel, q: Seq<char>)
    ensures
        // A file is there afterwards; one that was there is kept.
        drive.with_file(path).files.contains_key(path),
        drive.files.contains_key(path) ==> drive.with_file(path).files[path] == drive.files[path],
        !drive.files.contains_key(path) ==> ({
            let made = drive.with_file(path).files[path];
            &&& made.size == 0
            &&& made.data is Some
            &&& made.data->0.len() == 0
            &&& made.last_modified == 133_485_408_000_000_000
        }),
        drive.with_file_set(path, file).files.contains_key(path),
        drive.with_file_set(path, file).files[path] == file,
        drive.with_directory(path).directories.contains_key(path),
        drive.with_directory(path).directories[path] == 133_485_408_000_000_000,
        drive.with_directory(path).files == drive.files,
        // Every other file is as before.
        q != path ==> drive.with_file(path).files.contains_key(q) == drive.files.contains_key(q)
            && drive.with_file_set(path, file).files.contains_key(q) == drive.files.contains_key(q),
        q != path && drive.files.contains_key(q) ==> drive.with_file(path).files[q]
            == drive.files[q] && drive.with_file_set(path, file).files[q] == drive.files[q],
        // So is every directory, and only ancestors are new.
        drive.with_file(path).directories == with_parents(drive.directories, path),
        drive.with_file_set(path, file).directories == with_parents(drive.directories, path),
        is_relative(path) ==> (drive.with_file(path).directories.contains_key(q)
            <==> drive.directories.contains_key(q) || is_ancestor(q, path)),
        is_relative(path) ==> (drive.with_file_set(path, file).directories.contains_key(q)
            <==> drive.directories.contains_key(q) || is_ancestor(q, path)),
        is_relative(path) ==> (drive.with_directory(path).directories.contains_key(q)
            <==> drive.directories.contains_key(q) || is_ancestor(q, path) || q == path),
        drive.directories.contains_key(q) ==> drive.with_file(path).directories[q]
            == drive.directories[q] && drive.with_file_set(path, file).directories[q]
            == drive.directories[q],
        drive.directories.contains_key(q) && q != path ==> drive.with_directory(
            path,
        ).directories.contains_key(q) && drive.with_directory(path).directories[q]
            == drive.directories[q],
        is_relative(path) && !drive.directories.contains_key(q) && is_ancestor(q, path) ==> drive.with_file(
            path,
        ).directories[q] == 133_485_408_000_000_000 && drive.with_file_set(
            path,
            file,
        ).directories[q] == 133_485_408_000_000_000 && drive.with_directory(path).directories[q]
            == 133_485_408_000_000_000,
{
    if is_relative(path) {
        law_parents_are_added(drive.directories, path, q);
    }
}

/// Removing takes out the entry at the path alone: at every other path the same file or the same
/// directory is there, or nothing, as before.
pub proof fn law_removal_is_local(drive: DriveModel, path: Seq<char>, q: Seq<char>)
    ensures
        !drive.without(path).files.contains_key(path),
        !drive.without(path).directories.contains_key(path),
        q != path ==> ({
            let after = drive.without(path);
            &&& after.files.contains_key(q) == drive.files.contains_key(q)
            &&& drive.files.contains_key(q) ==> after.files[q] == drive.files[q]
            &&& after.directories.contains_key(q) == drive.directories.contains_key(q)
            &&& drive.directories.contains_key(q) ==> after.directories[q] == drive.directories[q]
        }),
{
}

/// Something of the map comes to `q` when `from` at the start of a path becomes `to`.
pub open spec fn comes_to<V>(
    m: Map<Seq<char>, V>,
    from: Seq<char>,
    to: Seq<char>,
    q: Seq<char>,
) -> bool {
    &&& q.len() >= to.len()
    &&& q.take(to.len() as int) == to
    &&& is_tail(q.skip(to.len() as int))
    &&& m.contains_key(from + q.skip(to.len() as int))
}

proof fn lemma_comes_to<V>(m: Map<Seq<char>, V>, from: Seq<char>, to: Seq<char>, q: Seq<char>)
    ensures
        lands_on(subtree(m, from), from, to, q) <==> comes_to(m, from, to, q),
{
    lemma_landing(m, from, to);
    let tail = q.skip(to.len() as int);
    if comes_to(m, from, to, q) {
        assert(q =~= to + tail);
    }
    if lands_on(subtree(m, from), from, to, q) {
        lemma_tail(to, tail);
        assert(q.take(to.len() as int) =~= to);
    }
}

/// There is something to rename exactly where a file is, or a directory other than the root.
pub proof fn law_what_can_be_renamed(drive: DriveModel, from: Seq<char>, to: Seq<char>)
    ensures
        drive.renamed(from, to) is Some <==> drive.files.contains_key(from) || (
        drive.directories.contains_key(from) && from.len() > 0),
{
}

/// Renaming a file moves that file alone, over whatever file was at the new path; only missing
/// ancestors of the new path are added.
pub proof fn law_renaming_a_file(
    drive: DriveModel,
    from: Seq<char>,
    to: Seq<char>,
    q: Seq<char>,
)
    requires
        drive.files.contains_key(from),
    ensures
        drive.renamed(from, to) is Some,
        ({
            let after = drive.renamed(from, to)->0;
            &&& after.files.contains_key(to)
            &&& after.files[to] == drive.files[from]
            &&& from != to ==> !after.files.contains_key(from)
            &&& q != from && q != to ==> after.files.contains_key(q) == drive.files.contains_key(q)
            &&& q != from && q != to && drive.files.contains_key(q) ==> after.files[q]
                == drive.files[q]
            &&& after.directories == with_parents(drive.directories, to)
            &&& is_relative(to) ==> (after.directories.contains_key(q)
                <==> drive.directories.contains_key(q) || is_ancestor(q, to))
            &&& drive.directories.contains_key(q) ==> after.directories[q] == drive.directories[q]
            &&& is_relative(to) && !drive.directories.contains_key(q) && is_ancestor(q, to) ==> after.directories[q]
                == 133_485_408_000_000_000
        }),
{
    if is_relative(to) {
        law_parents_are_added(drive.directories, to, q);
    }
}

/// Renaming a directory moves what is at it and below it, each to the same place under the new
/// path; what was there gives way, everything else stays, and only missing ancestors of the new
/// path are added.
pub proof fn law_renaming_a_directory(
    drive: DriveModel,
    from: Seq<char>,
    to: Seq<char>,
    q: Seq<char>,
)
    requires
        !drive.files.contains_key(from),
        drive.directories.contains_key(from),
        from.len() > 0,
        is_relative(to),
    ensures
        drive.renamed(from, to) is Some,
        ({
            let after = drive.renamed(from, to)->0;
            let source = from + q.skip(to.len() as int);
            &&& after.files.contains_key(q) <==> comes_to(drive.files, from, to, q) || (
            drive.files.contains_key(q) && !under(q, from))
            &&& comes_to(drive.files, from, to, q) ==> after.files[q] == drive.files[source]
            &&& !comes_to(drive.files, from, to, q) && after.files.contains_key(q) ==> after.files[q]
                == drive.files[q]
            &&& after.directories.contains_key(q) <==> comes_to(drive.directories, from, to, q) || (
            drive.directories.contains_key(q) && !under(q, from)) || (
            !drive.directories.contains_key(q) && is_ancestor(q, to))
            &&& comes_to(drive.directories, from, to, q) ==> after.directories[q]
                == drive.directories[source]
            &&& !comes_to(drive.directories, from, to, q) && drive.directories.contains_key(q)
                && !under(q, from) ==> after.directories[q] == drive.directories[q]
            &&& !comes_to(drive.directories, from, to, q) && !drive.directories.contains_key(q)
                && is_ancestor(q, to) ==> after.directories[q] == 133_485_408_000_000_000
        }),
{
    lemma_comes_to(drive.files, from, to, q);
    lemma_comes_to(drive.directories, from, to, q);
    law_parents_are_added(drive.directories, to, q);
    let source = from + q.skip(to.len() as int);
    law_parents_are_added(drive.directories, to, source);
}

/// The path of a name in a directory.
pub open spec fn path_in(dir: Seq<char>, name: Seq<char>) -> Seq<char> {
    if dir.len() == 0 {
        name
    } else {
        dir.push('/') + name
    }
}

/// Each line of a listing names something in the directory, without a slash, and says of a file
/// that it is none of the directories, what its size is and what its time is, and of a directory
/// that it is one, with no size and with its time. The names ascend, so that none comes twice.
pub proof fn law_listed_lines(
    drive: DriveModel,
    dir: Seq<char>,
    list: Seq<EntryModel>,
    i: int,
    j: int,
)
    requires
        drive.is_listing(dir, list),
        0 <= i < list.len(),
    ensures
        list[i].0.len() > 0,
        !list[i].0.contains('/'),
        exists|p: Seq<char>|
            (drive.files.contains_key(p) || drive.directories.contains_key(p)) && #[trigger] under(
                p,
                path_in(dir, list[i].0),
            ),
        drive.files.contains_key(path_in(dir, list[i].0)) ==> ({
            let file = drive.files[path_in(dir, list[i].0)];
            &&& !list[i].1
            &&& file.size <= usize::MAX ==> list[i].2 == file.size
            &&& file.size > usize::MAX ==> list[i].2 == usize::MAX
            &&& list[i].3 == file.last_modified
        }),
        !drive.files.contains_key(path_in(dir, list[i].0)) && drive.directories.contains_key(
            path_in(dir, list[i].0),
        ) ==> list[i].1 && list[i].2 == 0 && list[i].3 == drive.directories[path_in(
            dir,
            list[i].0,
        )],
        drive.listable(dir) ==> drive.files.contains_key(path_in(dir, list[i].0))
            || drive.directories.contains_key(path_in(dir, list[i].0)),
        i < j < list.len() ==> before(list[i].0, list[j].0),
{
    let name = list[i].0;
    assert(drive.has_child(dir, name));
    assert(child_prefix(dir) + name =~= path_in(dir, name));
    let p = choose|p: Seq<char>| #[trigger] drive.exists_at(p) && names_child(p, dir, name);
    assert(under(p, path_in(dir, name)));
    assert(list[i] == drive.entry(dir, name));
}

/// Where the names start in the paths of what lies below a directory.
pub open spec fn name_start(dir: Seq<char>) -> int {
    if dir.len() == 0 {
        0
    } else {
        dir.len() + 1int
    }
}

/// `p` lies below the directory, and the name of the child that it is or lies below ends at `end`.
pub open spec fn lies_below(p: Seq<char>, dir: Seq<char>, end: int) -> bool {
    let start = name_start(dir);
    &&& start < end <= p.len()
    &&& dir.len() > 0 ==> p.take(start) == dir.push('/')
    &&& forall|i: int| start <= i < end ==> #[trigger] p[i] != '/'
    &&& end == p.len() || p[end] == '/'
}

/// Nothing is left out of a listing: whatever lies below the directory, the part of its path up
/// to the next slash is listed.
pub proof fn law_everything_is_listed(
    drive: DriveModel,
    dir: Seq<char>,
    list: Seq<EntryModel>,
    p: Seq<char>,
    end: int,
)
    requires
        drive.is_listing(dir, list),
        drive.files.contains_key(p) || drive.directories.contains_key(p),
        lies_below(p, dir, end),
    ensures
        exists|i: int|
            0 <= i < list.len() && (#[trigger] list[i]).0 == p.subrange(name_start(dir), end),
{
    lemma_child_of(p, dir, end);
    assert(drive.exists_at(p));
    assert(drive.has_child(dir, p.subrange(name_start(dir), end)));
}

/// A directory can be listed exactly when each child that something lies below is there itself.
pub proof fn law_what_can_be_listed(drive: DriveModel, dir: Seq<char>)
    ensures
        drive.listable(dir) <==> forall|p: Seq<char>, end: int|
            (drive.files.contains_key(p) || drive.directories.contains_key(p))
                && #[trigger] lies_below(p, dir, end) ==> drive.files.contains_key(p.take(end))
                || drive.directories.contains_key(p.take(end)),
{
    let prefix = child_prefix(dir);
    assert(prefix.len() == name_start(dir));
    if drive.listable(dir) {
        assert forall|p: Seq<char>, end: int|
            (drive.files.contains_key(p) || drive.directories.contains_key(p))
                && #[trigger] lies_below(p, dir, end) implies drive.files.contains_key(p.take(end))
            || drive.directories.contains_key(p.take(end)) by {
            let name = p.subrange(name_start(dir), end);
            lemma_child_of(p, dir, end);
            assert(drive.exists_at(p));
            assert(drive.has_child(dir, name));
            assert(prefix + name =~= p.take(end)) by {
                lemma_child_of(p, dir, end);
            }
        }
    }
    if forall|p: Seq<char>, end: int|
        (drive.files.contains_key(p) || drive.directories.contains_key(p)) && #[trigger] lies_below(
            p,
            dir,
            end,
        ) ==> drive.files.contains_key(p.take(end)) || drive.directories.contains_key(p.take(end)) {
        assert forall|name: Seq<char>| #[trigger] drive.has_child(dir, name) implies drive.exists_at(
            prefix + name,
        ) by {
            let p = choose|p: Seq<char>| #[trigger]
                drive.exists_at(p) && names_child(p, dir, name);
            let d = prefix + name;
            let end = d.len() as int;
            law_under(p, d);
            assert(p.take(end) =~= d);
            assert(lies_below(p, dir, end)) by {
                assert forall|i: int| name_start(dir) <= i < end implies #[trigger] p[i] != '/' by {
                    assert(p[i] == d[i]);
                    assert(name.contains(name[i - prefix.len()]));
                }
                if dir.len() > 0 {
                    assert(p.take(name_start(dir)) =~= dir.push('/')) by {
                        assert forall|i: int| 0 <= i < prefix.len() implies p[i] == prefix[i] by {
                            assert(p[i] == d[i]);
                        }
                    }
                }
            }
        }
    }
}

proof fn lemma_child_of(p: Seq<char>, dir: Seq<char>, end: int)
    requires
        lies_below(p, dir, end),
    ensures
        names_child(p, dir, p.subrange(name_start(dir), end)),
        child_prefix(dir) + p.subrange(name_start(dir), end) == p.take(end),
{
    let start = name_start(dir);
    let name = p.subrange(start, end);
    assert(!name.contains('/')) by {
        if name.contains('/') {
            let k = choose|k: int| 0 <= k < name.len() && name[k] == '/';
            assert(p[start + k] == '/');
        }
    }
    let d = child_prefix(dir) + name;
    assert(d =~= p.take(end)) by {
        assert forall|i: int| 0 <= i < end implies #[trigger] d[i] == p[i] by {
            if i < start {
                assert(p.take(start)[i] == p[i]);
            }
        }
    }
    law_under(p, d);
    assert(p.take(end).len() == end);
    if end == p.len() {
        assert(p =~= d);
    } else {
        assert forall|i: int| 0 <= i < d.len() implies #[trigger] p[i] == d[i] by {
            assert(p.take(end)[i] == p[i]);
        }
    }
}

/// What a directory query names. Stars at its end are dropped, and the separators before them.
/// What is left is rejected or names a path. Nothing left means the open directory; else the path
/// counts from the root where something is there, then from the open directory where something
/// is there, and else from the root again.
pub proof fn law_query_target(
    drive: DriveModel,
    open_path: Seq<char>,
    core: Seq<char>,
    separators: Seq<char>,
    stars: Seq<char>,
)
    requires
        forall|i: int|
            0 <= i < separators.len() ==> (#[trigger] separators[i] == '\\' || separators[i]
                == '/'),
        forall|i: int| 0 <= i < stars.len() ==> #[trigger] stars[i] == '*',
        core.len() > 0 ==> core.last() != '\\' && core.last() != '/',
        core.len() > 0 && separators.len() == 0 ==> core.last() != '*',
    ensures
        normal(core) is None ==> drive.query_target(open_path, core + separators + stars) is None,
        normal(core) matches Some(p) ==> drive.query_target(open_path, core + separators + stars)
            == Some(
            if p.len() == 0 {
                open_path
            } else if drive.files.contains_key(p) || drive.directories.contains_key(p) {
                p
            } else if open_path.len() > 0 && (drive.files.contains_key(open_path.push('/') + p)
                || drive.directories.contains_key(open_path.push('/') + p)) {
                open_path.push('/') + p
            } else {
                p
            },
        ),
{
    let head = core + separators;
    if head.len() > 0 && separators.len() > 0 {
        assert(head.last() == separators[separators.len() - 1]);
    } else if head.len() > 0 {
        assert(head =~= core);
    }
    law_trimming(head, stars, set!['*']);
    law_trimming(core, separators, set!['\\', '/']);
}

/// A fresh drive has the root and the ancestors of the given files for directories, and no other.
pub proof fn law_seeded_directories(files: Seq<DriveSeedFile>, q: Seq<char>)
    ensures
        seeded(files).directories.contains_key(q) <==> q.len() == 0 || exists|i: int|
            0 <= i < files.len() && (normal((#[trigger] files[i]).name@) matches Some(p)
                && p.len() > 0 && is_ancestor(q, p)),
    decreases files.len(),
{
    if files.len() == 0 {
        if q.len() == 0 {
            assert(q =~= Seq::empty());
        }
    } else {
        let init = files.drop_last();
        let last = files.len() - 1;
        law_seeded_directories(init, q);
        if let Some(p) = normal(files[last].name@) {
            law_normal_form_is_clean(files[last].name@);
            if p.len() > 0 {
                lemma_clean_is_relative(p);
                law_parents_are_added(seeded(init).directories, p, q);
            }
        }
        if exists|i: int|
            0 <= i < init.len() && (normal((#[trigger] init[i]).name@) matches Some(p) && p.len()
                > 0 && is_ancestor(q, p)) {
            let i = choose|i: int|
                0 <= i < init.len() && (normal((#[trigger] init[i]).name@) matches Some(p)
                    && p.len() > 0 && is_ancestor(q, p));
            assert(files[i] == init[i]);
        }
        if exists|i: int|
            0 <= i < files.len() && (normal((#[trigger] files[i]).name@) matches Some(p)
                && p.len() > 0 && is_ancestor(q, p)) {
            let i = choose|i: int|
                0 <= i < files.len() && (normal((#[trigger] files[i]).name@) matches Some(p)
                    && p.len() > 0 && is_ancestor(q, p));
            if i < last {
                assert(init[i] == files[i]);
            }
        }
    }
}

/// A path in normal form does not start with a slash.
pub proof fn lemma_clean_is_relative(p: Seq<char>)
    requires
        crate::path::clean(p),
    ensures
        is_relative(p),
{
    if p.len() > 0 && p[0] == '/' {
        let none = Seq::<char>::empty();
        let rest = p.skip(1);
        assert(p =~= none.push('/') + rest);
        lemma_split_concat(none, rest);
        assert(split(none).len() == 1 && split(none)[0].len() == 0);
        assert(split(p)[0] == split(none)[0]);
        assert(skipped(split(p)[0]));
    }
}

} // verus!
