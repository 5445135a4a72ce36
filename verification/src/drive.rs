//! The virtual drive: a small tree of files and directories held in memory.

use vstd::prelude::*;
use vstd::string::*;

use crate::filetime::{filetime, filetime_from_unix_millis, VIRTUAL_DRIVE_FILETIME};
use crate::path::{
    child_path, normal, normalize_prefix, query_len, trim_end, under,
};
use crate::path_map::{lands_on, listed, relocated, PathMap};
use crate::text::{append_range, before, chars_of, split, string_of};
use crate::text::{lemma_before_strict, lemma_split_concat, lemma_split_pieces};

verus! {

/// One file that the user chose to place on the drive.
#[derive(Clone, Debug)]
pub struct DriveSeedFile {
    pub name: String,
    pub size: u64,
    /// Unix milliseconds of the last modification.
    pub last_modified: i64,
}

/// A file on the drive. A chosen file starts with its size alone; the content of a file that
/// Windows creates or writes is held here.
#[derive(Debug)]
pub struct VirtualFile {
    pub size: u64,
    pub data: Option<Vec<u8>>,
    pub last_modified: i64,
}

/// What a file on the drive is.
#[verifier::ext_equal]
pub struct FileModel {
    pub size: u64,
    pub data: Option<Seq<u8>>,
    pub last_modified: i64,
}

impl View for VirtualFile {
    type V = FileModel;

    open spec fn view(&self) -> FileModel {
        FileModel {
            size: self.size,
            data: match self.data {
                Some(bytes) => Some(bytes@),
                None => None,
            },
            last_modified: self.last_modified,
        }
    }
}

/// What the drive holds: files and directories by path, directories with their timestamps.
#[verifier::ext_equal]
pub struct DriveModel {
    pub files: Map<Seq<char>, FileModel>,
    pub directories: Map<Seq<char>, i64>,
}

/// A path-confined file tree. Paths are relative, with slashes between components.
#[derive(Debug)]
pub struct VirtualDrive {
    files: PathMap<VirtualFile>,
    directories: PathMap<i64>,
}

impl View for VirtualDrive {
    type V = DriveModel;

    closed spec fn view(&self) -> DriveModel {
        DriveModel {
            files: models(self.files@),
            directories: self.directories@,
        }
    }
}

/// What each file is.
pub open spec fn models(files: Map<Seq<char>, VirtualFile>) -> Map<Seq<char>, FileModel> {
    files.map_values(|f: VirtualFile| f@)
}

/// The path that the components build up to, without a slash at its start.
pub open spec fn path_so_far(parts: Seq<Seq<char>>) -> Seq<char>
    decreases parts.len(),
{
    if parts.len() == 0 {
        Seq::empty()
    } else {
        let init = path_so_far(parts.drop_last());
        if init.len() == 0 {
            parts.last()
        } else {
            init.push('/') + parts.last()
        }
    }
}

/// `p` is the root or a proper ancestor of `path`.
pub open spec fn is_parent(path: Seq<char>, p: Seq<char>) -> bool {
    p.len() == 0 || exists|k: int|
        0 < k < split(path).len() && p == #[trigger] path_so_far(split(path).take(k))
}

/// The directories with every missing ancestor of `path` added.
pub open spec fn with_parents(
    directories: Map<Seq<char>, i64>,
    path: Seq<char>,
) -> Map<Seq<char>, i64> {
    Map::new(
        |p: Seq<char>| directories.contains_key(p) || is_parent(path, p),
        |p: Seq<char>|
            if directories.contains_key(p) {
                directories[p]
            } else {
                VIRTUAL_DRIVE_FILETIME
            },
    )
}

/// A file that holds its content, which is empty.
pub open spec fn empty_file() -> FileModel {
    FileModel { size: 0, data: Some(Seq::empty()), last_modified: VIRTUAL_DRIVE_FILETIME }
}

impl DriveModel {
    /// Whether the path is a directory, its size and its timestamp; a file shadows a directory.
    pub open spec fn metadata(self, path: Seq<char>) -> Option<(bool, u64, i64)> {
        if self.files.contains_key(path) {
            Some((false, self.files[path].size, self.files[path].last_modified))
        } else if self.directories.contains_key(path) {
            Some((true, 0, self.directories[path]))
        } else {
            None
        }
    }

    /// The path is a file or a directory.
    pub open spec fn exists_at(self, path: Seq<char>) -> bool {
        self.files.contains_key(path) || self.directories.contains_key(path)
    }

    /// The content of a file, where the drive holds it.
    pub open spec fn content(self, path: Seq<char>) -> Option<Seq<u8>> {
        if self.files.contains_key(path) {
            self.files[path].data
        } else {
            None
        }
    }

    /// The drive with an empty file at `path`, unless a file is there already.
    pub open spec fn with_file(self, path: Seq<char>) -> DriveModel {
        DriveModel {
            files: if self.files.contains_key(path) {
                self.files
            } else {
                self.files.insert(path, empty_file())
            },
            directories: with_parents(self.directories, path),
        }
    }

    /// The drive with a file at `path` set to `file`.
    pub open spec fn with_file_set(self, path: Seq<char>, file: FileModel) -> DriveModel {
        DriveModel {
            files: self.files.insert(path, file),
            directories: with_parents(self.directories, path),
        }
    }

    /// The drive with a directory at `path`.
    pub open spec fn with_directory(self, path: Seq<char>) -> DriveModel {
        DriveModel {
            files: self.files,
            directories: with_parents(self.directories, path).insert(path, VIRTUAL_DRIVE_FILETIME),
        }
    }

    /// The path that a directory query names. A query that names nothing but wildcards and
    /// separators means the open directory; any other is taken from the root where something is
    /// there, and else below the open directory where something is there.
    pub open spec fn query_target(
        self,
        open_path: Seq<char>,
        requested: Seq<char>,
    ) -> Option<Seq<char>> {
        match normal(trim_end(trim_end(requested, set!['*']), set!['\\', '/'])) {
            None => None,
            Some(p) => if p.len() == 0 {
                Some(open_path)
            } else if self.exists_at(p) {
                Some(p)
            } else if open_path.len() > 0 && self.exists_at(open_path.push('/') + p) {
                Some(open_path.push('/') + p)
            } else {
                Some(p)
            },
        }
    }

    /// The drive without the entry at `path`; what lies below it stays.
    pub open spec fn without(self, path: Seq<char>) -> DriveModel {
        DriveModel {
            files: self.files.remove(path),
            directories: self.directories.remove(path),
        }
    }
}

/// The entries of a map that are `dir` or lie below it.
pub open spec fn subtree<V>(m: Map<Seq<char>, V>, dir: Seq<char>) -> Set<Seq<char>> {
    Set::new(|q: Seq<char>| m.contains_key(q) && under(q, dir))
}

impl DriveModel {
    /// The drive after a rename, or `None` where there is nothing to rename. A file moves alone;
    /// a directory other than the root moves with everything below it. The parent directories of
    /// the new path are added before the directory moves.
    pub open spec fn renamed(self, from: Seq<char>, to: Seq<char>) -> Option<DriveModel> {
        if self.files.contains_key(from) {
            Some(
                DriveModel {
                    files: self.files.remove(from).insert(to, self.files[from]),
                    directories: with_parents(self.directories, to),
                },
            )
        } else if !self.directories.contains_key(from) || from.len() == 0 {
            None
        } else {
            Some(
                DriveModel {
                    files: relocated(self.files, subtree(self.files, from), from, to),
                    directories: relocated(
                        with_parents(self.directories, to),
                        subtree(self.directories, from),
                        from,
                        to,
                    ),
                },
            )
        }
    }
}

/// One line of a directory listing: name, whether it is a directory, size and timestamp.
pub type EntryModel = (Seq<char>, bool, usize, i64);

/// What the paths of everything in a directory start with.
pub open spec fn child_prefix(dir: Seq<char>) -> Seq<char> {
    if dir.len() == 0 {
        Seq::empty()
    } else {
        dir.push('/')
    }
}

/// `path` is the entry `name` of the directory, or lies below it.
pub open spec fn names_child(path: Seq<char>, dir: Seq<char>, name: Seq<char>) -> bool {
    &&& name.len() > 0
    &&& !name.contains('/')
    &&& under(path, child_prefix(dir) + name)
}

/// The size as far as a `usize` can hold it.
pub open spec fn fitting(size: u64) -> usize {
    if size <= usize::MAX {
        size as usize
    } else {
        usize::MAX
    }
}

/// A directory listing as a sequence of lines.
pub open spec fn lines(entries: Seq<(String, bool, usize, i64)>) -> Seq<EntryModel> {
    entries.map_values(|e: (String, bool, usize, i64)| (e.0@, e.1, e.2, e.3))
}

impl DriveModel {
    /// The directory has an immediate child of this name.
    pub open spec fn has_child(self, dir: Seq<char>, name: Seq<char>) -> bool {
        exists|p: Seq<char>| #[trigger] self.exists_at(p) && names_child(p, dir, name)
    }

    /// Every immediate child of the directory is itself a file or a directory, so that it can be
    /// listed.
    pub open spec fn listable(self, dir: Seq<char>) -> bool {
        forall|name: Seq<char>| #[trigger]
            self.has_child(dir, name) ==> self.exists_at(child_prefix(dir) + name)
    }

    /// The line for a child.
    pub open spec fn entry(self, dir: Seq<char>, name: Seq<char>) -> EntryModel {
        let (directory, size, time) = self.metadata(child_prefix(dir) + name)->0;
        (name, directory, fitting(size), time)
    }

    /// One line for each immediate child, in ascending order of names.
    pub open spec fn is_listing(self, dir: Seq<char>, list: Seq<EntryModel>) -> bool {
        &&& forall|i: int, j: int|
            0 <= i < j < list.len() ==> before((#[trigger] list[i]).0, (#[trigger] list[j]).0)
        &&& forall|i: int|
            0 <= i < list.len() ==> self.has_child(dir, (#[trigger] list[i]).0) && list[i]
                == self.entry(dir, list[i].0)
        &&& forall|name: Seq<char>| #[trigger]
            self.has_child(dir, name) ==> exists|i: int|
                0 <= i < list.len() && (#[trigger] list[i]).0 == name
    }

    /// The listing of a directory.
    pub open spec fn listing(self, dir: Seq<char>) -> Seq<EntryModel> {
        choose|list: Seq<EntryModel>| self.is_listing(dir, list)
    }
}

proof fn lemma_listing_prefix(
    drive: DriveModel,
    dir: Seq<char>,
    a: Seq<EntryModel>,
    b: Seq<EntryModel>,
    n: int,
)
    requires
        drive.is_listing(dir, a),
        drive.is_listing(dir, b),
        0 <= n <= a.len(),
    ensures
        n <= b.len(),
        a.take(n) == b.take(n),
    decreases n,
{
    if n > 0 {
        lemma_listing_prefix(drive, dir, a, b, n - 1);
        let x = a[n - 1].0;
        assert(drive.has_child(dir, x));
        let j = choose|j: int| 0 <= j < b.len() && (#[trigger] b[j]).0 == x;
        if j < n - 1 {
            assert(a.take(n - 1)[j] == b.take(n - 1)[j]);
            assert(a[j].0 == x);
            lemma_before_strict(a[j].0, a[n - 1].0);
        }
        let y = b[n - 1].0;
        assert(drive.has_child(dir, y));
        let i = choose|i: int| 0 <= i < a.len() && (#[trigger] a[i]).0 == y;
        if i < n - 1 {
            assert(a.take(n - 1)[i] == b.take(n - 1)[i]);
            assert(b[i].0 == y);
            lemma_before_strict(b[i].0, b[n - 1].0);
        }
        if x != y {
            assert(n - 1 < j && n - 1 < i);
            assert(before(b[n - 1].0, b[j].0));
            assert(before(a[n - 1].0, a[i].0));
            lemma_before_strict(x, y);
        }
        assert(a[n - 1] == b[n - 1]);
        assert(a.take(n) =~= a.take(n - 1).push(a[n - 1]));
        assert(b.take(n) =~= b.take(n - 1).push(b[n - 1]));
    }
}

/// A directory has only one listing: the children and their order leave no choice.
pub proof fn law_listing_is_unique(
    drive: DriveModel,
    dir: Seq<char>,
    a: Seq<EntryModel>,
    b: Seq<EntryModel>,
)
    requires
        drive.is_listing(dir, a),
        drive.is_listing(dir, b),
    ensures
        a == b,
{
    lemma_listing_prefix(drive, dir, a, b, a.len() as int);
    lemma_listing_prefix(drive, dir, b, a, b.len() as int);
    assert(a.take(a.len() as int) =~= a);
    assert(b.take(b.len() as int) =~= b);
}

proof fn lemma_one_child_name(path: Seq<char>, dir: Seq<char>, a: Seq<char>, b: Seq<char>)
    requires
        names_child(path, dir, a),
        names_child(path, dir, b),
    ensures
        a == b,
{
    let prefix = child_prefix(dir);
    lemma_under_at(path, prefix, a);
    lemma_under_at(path, prefix, b);
    if a.len() < b.len() {
        assert(path[(prefix.len() + a.len()) as int] == '/');
        assert(b[a.len() as int] == path[(prefix.len() + a.len()) as int]);
        assert(b.contains(b[a.len() as int]));
    } else if b.len() < a.len() {
        assert(path[(prefix.len() + b.len()) as int] == '/');
        assert(a[b.len() as int] == path[(prefix.len() + b.len()) as int]);
        assert(a.contains(a[b.len() as int]));
    } else {
        assert(a =~= b);
    }
}

/// What `under` says of the characters of the path.
proof fn lemma_under_at(path: Seq<char>, prefix: Seq<char>, name: Seq<char>)
    requires
        under(path, prefix + name),
    ensures
        path.len() >= prefix.len() + name.len(),
        forall|i: int| 0 <= i < prefix.len() ==> path[i] == prefix[i],
        forall|i: int| 0 <= i < name.len() ==> #[trigger] name[i] == path[prefix.len() + i],
        path.len() > prefix.len() + name.len() ==> path[(prefix.len() + name.len()) as int] == '/',
{
    let d = prefix + name;
    if path != d {
        let e = d.push('/');
        assert forall|i: int| 0 <= i < e.len() implies path[i] == e[i] by {
            assert(path.subrange(0, e.len() as int)[i] == e[i]);
        }
    }
    assert forall|i: int| 0 <= i < name.len() implies #[trigger] name[i] == path[prefix.len() + i] by {
        assert(d[prefix.len() + i] == name[i]);
    }
}

/// The path of a child.
fn full_name(dir: &str, name: &str) -> (r: String)
    ensures
        r@ == child_prefix(dir@) + name@,
{
    if dir.is_empty() {
        assert(child_prefix(dir@) + name@ =~= name@);
        name.to_owned()
    } else {
        child_path(dir, name)
    }
}

/// The child of a directory that a path is or lies below.
fn child_name(path: &str, dir: &str, prefix: &Vec<char>) -> (r: Option<String>)
    requires
        prefix@ == child_prefix(dir@),
    ensures
        match r {
            Some(name) => names_child(path@, dir@, name@),
            None => forall|name: Seq<char>| !names_child(path@, dir@, name),
        },
{
    let chars = chars_of(path);
    if chars.len() <= prefix.len() {
        proof {
            assert forall|name: Seq<char>| !names_child(path@, dir@, name) by {
                if names_child(path@, dir@, name) {
                    lemma_under_at(path@, prefix@, name);
                }
            }
        }
        return None;
    }
    let mut i: usize = 0;
    while i < prefix.len()
        invariant
            i <= prefix@.len() < chars@.len(),
            chars@ == path@,
            prefix@ == child_prefix(dir@),
            forall|j: int| 0 <= j < i ==> chars@[j] == prefix@[j],
        decreases prefix@.len() - i,
    {
        if chars[i] != prefix[i] {
            proof {
                assert forall|name: Seq<char>| !names_child(path@, dir@, name) by {
                    if names_child(path@, dir@, name) {
                        lemma_under_at(path@, prefix@, name);
                    }
                }
            }
            return None;
        }
        i = i + 1;
    }
    let start: usize = i;
    let mut end: usize = start;
    while end < chars.len() && chars[end] != '/'
        invariant
            start <= end <= chars@.len(),
            forall|j: int| start <= j < end ==> chars@[j] != '/',
        decreases chars@.len() - end,
    {
        end = end + 1;
    }
    if end == start {
        proof {
            assert forall|name: Seq<char>| !names_child(path@, dir@, name) by {
                if names_child(path@, dir@, name) {
                    lemma_under_at(path@, prefix@, name);
                    assert(name[0] == '/');
                    assert(name.contains(name[0]));
                }
            }
        }
        return None;
    }
    let name = string_of(&chars, start, end);
    proof {
        assert(!name@.contains('/'));
        let d = prefix@ + name@;
        if end == chars.len() {
            assert(path@ =~= d);
        } else {
            assert(d.push('/') =~= path@.take(d.len() + 1int));
        }
    }
    Some(name)
}

proof fn lemma_models_relocated(
    files: Map<Seq<char>, VirtualFile>,
    from: Seq<char>,
    to: Seq<char>,
)
    ensures
        models(relocated(files, subtree(files, from), from, to)) == relocated(
            models(files),
            subtree(models(files), from),
            from,
            to,
        ),
{
    assert(subtree(files, from) =~= subtree(models(files), from));
    let a = models(relocated(files, subtree(files, from), from, to));
    let b = relocated(models(files), subtree(files, from), from, to);
    assert forall|p: Seq<char>| #[trigger] a.dom().contains(p) implies a[p] == b[p] by {
        if lands_on(subtree(files, from), from, to, p) {
            assert(files.contains_key(from + p.skip(to.len() as int)));
        }
    }
    assert(a =~= b);
}

/// The drive that holds the given files and their parent directories. A file whose name is
/// rejected, or names the root, is left out; of two files with one name the later one counts.
pub open spec fn seeded(files: Seq<DriveSeedFile>) -> DriveModel
    decreases files.len(),
{
    if files.len() == 0 {
        DriveModel {
            files: Map::empty(),
            directories: map![Seq::<char>::empty() => VIRTUAL_DRIVE_FILETIME],
        }
    } else {
        let init = seeded(files.drop_last());
        let file = files.last();
        match normal(file.name@) {
            Some(p) => if p.len() == 0 {
                init
            } else {
                init.with_file_set(
                    p,
                    FileModel {
                        size: file.size,
                        data: None,
                        last_modified: filetime(file.last_modified),
                    },
                )
            },
            None => init,
        }
    }
}

impl VirtualDrive {
    /// Both maps are in order.
    pub closed spec fn wf(self) -> bool {
        self.files.wf() && self.directories.wf()
    }

    /// A drive with the given files and their parent directories.
    pub fn from_seed_files(files: Vec<DriveSeedFile>) -> (r: Self)
        ensures
            r.wf(),
            r@ == seeded(files@),
    {
        let mut directories: PathMap<i64> = PathMap::new();
        directories.insert(String::new(), VIRTUAL_DRIVE_FILETIME);
        let mut drive = VirtualDrive { files: PathMap::new(), directories };
        assert(drive@ =~= seeded(files@.take(0)));
        let mut i: usize = 0;
        while i < files.len()
            invariant
                i <= files@.len(),
                drive.wf(),
                drive@ == seeded(files@.take(i as int)),
            decreases files@.len() - i,
        {
            let ghost init = drive@;
            let file = &files[i];
            assert(files@.take(i + 1).drop_last() =~= files@.take(i as int));
            if let Ok(path) = Self::normalize(file.name.as_str()) {
                if !path.as_str().is_empty() {
                    let ghost p = path@;
                    drive.ensure_parents(path.as_str());
                    let seed = VirtualFile {
                        size: file.size,
                        data: None,
                        last_modified: filetime_from_unix_millis(file.last_modified),
                    };
                    drive.files.insert(path, seed);
                    assert(drive@ =~= init.with_file_set(p, seed@));
                }
            }
            i = i + 1;
        }
        assert(files@.take(files@.len() as int) =~= files@);
        drive
    }

    /// The relative path that a Windows path names: slashes between components, no empty or `.`
    /// component. A path with a `..` component or a NUL is rejected.
    pub fn normalize(path: &str) -> (r: Result<String, ()>)
        ensures
            match normal(path@) {
                Some(p) => r matches Ok(text) && text@ == p,
                None => r is Err,
            },
    {
        crate::path::normalize(path)
    }

    /// Whether a directory is at the path.
    pub fn is_dir(&self, path: &str) -> (r: bool)
        requires
            self.wf(),
        ensures
            r == self@.directories.contains_key(path@),
    {
        self.directories.contains(path)
    }

    /// The size of the file at the path.
    pub fn file_size(&self, path: &str) -> (r: Option<u64>)
        requires
            self.wf(),
        ensures
            r == if self@.files.contains_key(path@) {
                Some(self@.files[path@].size)
            } else {
                None
            },
    {
        match self.files.get(path) {
            Some(file) => Some(file.size),
            None => None,
        }
    }

    /// The content of the file at the path, where the drive holds it.
    pub fn file_data(&self, path: &str) -> (r: Option<&[u8]>)
        requires
            self.wf(),
        ensures
            match self@.content(path@) {
                Some(bytes) => r matches Some(data) && data@ == bytes,
                None => r is None,
            },
    {
        match self.files.get(path) {
            Some(file) => match &file.data {
                Some(data) => Some(data.as_slice()),
                None => None,
            },
            None => None,
        }
    }

    /// Whether the path is a directory, its size and its timestamp.
    pub fn metadata(&self, path: &str) -> (r: Option<(bool, u64, i64)>)
        requires
            self.wf(),
        ensures
            r == self@.metadata(path@),
    {
        match self.files.get(path) {
            Some(file) => Some((false, file.size, file.last_modified)),
            None => match self.directories.get(path) {
                Some(time) => Some((true, 0, *time)),
                None => None,
            },
        }
    }

    /// The path that a directory query on an open directory names.
    pub fn directory_query_path(&self, open_handle_path: &str, requested_path: &str) -> (r: Result<
        String,
        (),
    >)
        requires
            self.wf(),
        ensures
            match self@.query_target(open_handle_path@, requested_path@) {
                Some(p) => r matches Ok(text) && text@ == p,
                None => r is Err,
            },
    {
        let chars = chars_of(requested_path);
        let end = query_len(&chars);
        let requested = match normalize_prefix(&chars, end) {
            Ok(path) => path,
            Err(()) => {
                return Err(());
            },
        };
        if requested.as_str().is_empty() {
            return Ok(open_handle_path.to_owned());
        }
        if self.is_dir(requested.as_str()) || self.file_size(requested.as_str()).is_some() {
            return Ok(requested);
        }
        if !open_handle_path.is_empty() {
            let relative = child_path(open_handle_path, requested.as_str());
            if self.is_dir(relative.as_str()) || self.file_size(relative.as_str()).is_some() {
                return Ok(relative);
            }
        }
        Ok(requested)
    }

    /// Makes sure that a file is at the path, with its parent directories, and gives access to
    /// it. A file that was not there starts with empty content.
    pub fn create_file(&mut self, path: String) -> (file: &mut VirtualFile)
        requires
            old(self).wf(),
        ensures
            file@ == old(self)@.with_file(path@).files[path@],
            final(self).wf(),
            final(self)@ == old(self)@.with_file_set(path@, final(file)@),
    {
        let ghost p = path@;
        self.ensure_parents(path.as_str());
        if !self.files.contains(path.as_str()) {
            let empty = VirtualFile {
                size: 0,
                data: Some(Vec::new()),
                last_modified: VIRTUAL_DRIVE_FILETIME,
            };
            assert(empty@ =~= empty_file());
            self.files.insert(path.clone(), empty);
        }
        proof {
            assert forall|v: VirtualFile| #[trigger]
                models(self.files@.insert(p, v)) == models(old(self).files@).insert(p, v@) by {
                assert(models(self.files@.insert(p, v)) =~= models(old(self).files@).insert(p, v@));
            }
        }
        self.files.value_mut(path.as_str())
    }

    /// Puts a directory at the path, with its parent directories.
    pub fn create_dir(&mut self, path: String)
        requires
            old(self).wf(),
        ensures
            final(self).wf(),
            final(self)@ == old(self)@.with_directory(path@),
    {
        self.ensure_parents(path.as_str());
        self.directories.insert(path, VIRTUAL_DRIVE_FILETIME);
    }

    /// Takes the entry at the path off the drive; what lies below it stays.
    pub fn remove(&mut self, path: &str)
        requires
            old(self).wf(),
        ensures
            final(self).wf(),
            final(self)@ == old(self)@.without(path@),
    {
        let _ = self.files.remove(path);
        let _ = self.directories.remove(path);
        assert(self@ =~= old(self)@.without(path@));
    }

    /// The names of the immediate children of a directory.
    fn child_names(&self, dir: &str) -> (names: PathMap<()>)
        requires
            self.wf(),
        ensures
            names.wf(),
            forall|name: Seq<char>| #[trigger]
                names@.contains_key(name) <==> self@.has_child(dir@, name),
    {
        let mut prefix = chars_of(dir);
        if prefix.len() > 0 {
            prefix.push('/');
        }
        let mut names: PathMap<()> = PathMap::new();
        let mut i: usize = 0;
        while i < self.directories.len()
            invariant
                i <= self.directories.keys().len(),
                prefix@ == child_prefix(dir@),
                names.wf(),
                self.wf(),
                forall|name: Seq<char>| #[trigger]
                    names@.contains_key(name) <==> exists|k: int|
                        0 <= k < i && names_child(#[trigger] self.directories.keys()[k], dir@, name),
            decreases self.directories.keys().len() - i,
        {
            let found = child_name(self.directories.key_at(i).as_str(), dir, &prefix);
            proof {
                if let Some(name) = &found {
                    lemma_new_name(self.directories.keys(), i as int, dir@, name@);
                }
            }
            if let Some(name) = found {
                names.insert(name, ());
            }
            i = i + 1;
        }
        let mut i: usize = 0;
        while i < self.files.len()
            invariant
                i <= self.files.keys().len(),
                prefix@ == child_prefix(dir@),
                names.wf(),
                self.wf(),
                forall|name: Seq<char>| #[trigger]
                    names@.contains_key(name) <==> (exists|k: int|
                        0 <= k < self.directories.keys().len() && names_child(
                            #[trigger] self.directories.keys()[k],
                            dir@,
                            name,
                        )) || exists|k: int|
                        0 <= k < i && names_child(#[trigger] self.files.keys()[k], dir@, name),
            decreases self.files.keys().len() - i,
        {
            let found = child_name(self.files.key_at(i).as_str(), dir, &prefix);
            proof {
                if let Some(name) = &found {
                    lemma_new_name(self.files.keys(), i as int, dir@, name@);
                }
            }
            if let Some(name) = found {
                names.insert(name, ());
            }
            i = i + 1;
        }
        proof {
            self.lemma_child_names(names@, dir@);
        }
        names
    }

    /// Whether every child of the directory can be listed.
    pub fn can_list(&self, dir: &str) -> (r: bool)
        requires
            self.wf(),
        ensures
            r == self@.listable(dir@),
    {
        let names = self.child_names(dir);
        proof {
            names.lemma_keys();
        }
        let mut n: usize = 0;
        while n < names.len()
            invariant
                n <= names.keys().len(),
                names.wf(),
                self.wf(),
                forall|i: int|
                    0 <= i < names.keys().len() ==> self@.has_child(
                        dir@,
                        #[trigger] names.keys()[i],
                    ),
                forall|i: int|
                    0 <= i < n ==> self@.exists_at(
                        child_prefix(dir@) + #[trigger] names.keys()[i],
                    ),
            decreases names.keys().len() - n,
        {
            let name: &String = names.key_at(n);
            let path = full_name(dir, name.as_str());
            if self.metadata(path.as_str()).is_none() {
                assert(self@.has_child(dir@, names.keys()[n as int]));
                return false;
            }
            n = n + 1;
        }
        proof {
            assert forall|name: Seq<char>| #[trigger] self@.has_child(dir@, name) implies self@.exists_at(
                child_prefix(dir@) + name,
            ) by {
                assert(names.keys().contains(name));
            }
        }
        true
    }

    /// The immediate children of a directory in ascending order of names, each with whether it
    /// is a directory, its size and its timestamp.
    pub fn children(&self, dir: &str) -> (r: Vec<(String, bool, usize, i64)>)
        requires
            self.wf(),
            self@.listable(dir@),
        ensures
            self@.is_listing(dir@, lines(r@)),
            lines(r@) == self@.listing(dir@),
    {
        let names = self.child_names(dir);
        proof {
            names.lemma_keys();
        }
        let mut r: Vec<(String, bool, usize, i64)> = Vec::new();
        let mut n: usize = 0;
        while n < names.len()
            invariant
                n <= names.keys().len(),
                names.wf(),
                self.wf(),
                self@.listable(dir@),
                forall|i: int|
                    0 <= i < names.keys().len() ==> self@.has_child(
                        dir@,
                        #[trigger] names.keys()[i],
                    ),
                r@.len() == n,
                forall|i: int|
                    0 <= i < n ==> lines(r@)[i] == self@.entry(dir@, #[trigger] names.keys()[i]),
            decreases names.keys().len() - n,
        {
            let name: String = names.key_at(n).clone();
            let path = full_name(dir, name.as_str());
            proof {
                assert(self@.has_child(dir@, names.keys()[n as int]));
                assert(self@.exists_at(child_prefix(dir@) + name@));
            }
            if let Some((directory, size, last_modified)) = self.metadata(path.as_str()) {
                let size: usize = if size <= usize::MAX as u64 {
                    size as usize
                } else {
                    usize::MAX
                };
                r.push((name, directory, size, last_modified));
            }
            n = n + 1;
        }
        proof {
            let list = lines(r@);
            assert forall|i: int, j: int| 0 <= i < j < list.len() implies before(
                (#[trigger] list[i]).0,
                (#[trigger] list[j]).0,
            ) by {
                assert(list[i] == self@.entry(dir@, names.keys()[i]));
                assert(list[j] == self@.entry(dir@, names.keys()[j]));
            }
            assert forall|i: int| 0 <= i < list.len() implies self@.has_child(
                dir@,
                (#[trigger] list[i]).0,
            ) && list[i] == self@.entry(dir@, list[i].0) by {
                assert(list[i] == self@.entry(dir@, names.keys()[i]));
            }
            assert forall|name: Seq<char>| #[trigger]
                self@.has_child(dir@, name) implies exists|i: int|
                0 <= i < list.len() && (#[trigger] list[i]).0 == name by {
                assert(names.keys().contains(name));
                let i = choose|i: int| 0 <= i < names.keys().len() && names.keys()[i] == name;
                assert(list[i] == self@.entry(dir@, names.keys()[i]));
            }
            assert(self@.is_listing(dir@, list));
            law_listing_is_unique(self@, dir@, list, self@.listing(dir@));
        }
        r
    }

    /// The names found below the directories and files are those of the children.
    proof fn lemma_child_names(self, names: Map<Seq<char>, ()>, dir: Seq<char>)
        requires
            self.wf(),
            forall|name: Seq<char>| #[trigger]
                names.contains_key(name) <==> (exists|k: int|
                    0 <= k < self.directories.keys().len() && names_child(
                        #[trigger] self.directories.keys()[k],
                        dir,
                        name,
                    )) || exists|k: int|
                    0 <= k < self.files.keys().len() && names_child(
                        #[trigger] self.files.keys()[k],
                        dir,
                        name,
                    ),
        ensures
            forall|name: Seq<char>| #[trigger]
                names.contains_key(name) <==> self@.has_child(dir, name),
    {
        self.directories.lemma_keys();
        self.files.lemma_keys();
        assert forall|name: Seq<char>| #[trigger]
            names.contains_key(name) == self@.has_child(dir, name) by {
            if self@.has_child(dir, name) {
                let p = choose|p: Seq<char>| #[trigger]
                    self@.exists_at(p) && names_child(p, dir, name);
                if self@.files.contains_key(p) {
                    assert(self.files.keys().contains(p));
                    let k = choose|k: int|
                        0 <= k < self.files.keys().len() && self.files.keys()[k] == p;
                    assert(names_child(self.files.keys()[k], dir, name));
                } else {
                    assert(self.directories.keys().contains(p));
                    let k = choose|k: int|
                        0 <= k < self.directories.keys().len() && self.directories.keys()[k] == p;
                    assert(names_child(self.directories.keys()[k], dir, name));
                }
            }
            if names.contains_key(name) {
                if exists|k: int|
                    0 <= k < self.directories.keys().len() && names_child(
                        #[trigger] self.directories.keys()[k],
                        dir,
                        name,
                    ) {
                    let k = choose|k: int|
                        0 <= k < self.directories.keys().len() && names_child(
                            #[trigger] self.directories.keys()[k],
                            dir,
                            name,
                        );
                    assert(self@.exists_at(self.directories.keys()[k]));
                } else {
                    let k = choose|k: int|
                        0 <= k < self.files.keys().len() && names_child(
                            #[trigger] self.files.keys()[k],
                            dir,
                            name,
                        );
                    assert(self@.exists_at(self.files.keys()[k]));
                }
            }
        }
    }

    /// Renames a file, or a directory with everything below it. Returns whether there was
    /// something to rename.
    pub fn rename(&mut self, from: &str, to: String) -> (r: bool)
        requires
            old(self).wf(),
        ensures
            final(self).wf(),
            match old(self)@.renamed(from@, to@) {
                Some(after) => r && final(self)@ == after,
                None => !r && final(self)@ == old(self)@,
            },
    {
        let ghost start = *self;
        if let Some(file) = self.files.remove(from) {
            let ghost target = to@;
            self.ensure_parents(to.as_str());
            self.files.insert(to, file);
            assert(self@.files =~= start@.files.remove(from@).insert(target, file@));
            return true;
        }
        assert(self.files@ =~= start.files@);
        if !self.directories.contains(from) || from.is_empty() {
            return false;
        }
        let from_chars = chars_of(from);
        let directories = self.directories.keys_under(&from_chars);
        let files = self.files.keys_under(&from_chars);
        self.ensure_parents(to.as_str());
        proof {
            lemma_listed_under(directories@, start.directories@, from@);
            lemma_listed_under(files@, start.files@, from@);
            lemma_models_relocated(start.files@, from@, to@);
            assert(listed(directories@) =~= subtree(start.directories@, from@));
            assert(listed(files@) =~= subtree(start.files@, from@));
        }
        self.directories.relocate(&directories, from, to.as_str());
        self.files.relocate(&files, from, to.as_str());
        true
    }

    /// Adds the root and every missing ancestor of a path.
    fn ensure_parents(&mut self, path: &str)
        requires
            old(self).wf(),
        ensures
            final(self).wf(),
            final(self).files == old(self).files,
            final(self).directories@ == with_parents(old(self).directories@, path@),
    {
        let ghost given = self.directories@;
        let ghost s = path@;
        let ghost mut done: Seq<Seq<char>> = Seq::empty();
        let root = String::new();
        if !self.directories.contains(root.as_str()) {
            self.directories.insert(root, VIRTUAL_DRIVE_FILETIME);
        }
        let chars = chars_of(path);
        let mut current = String::new();
        let mut start: usize = 0;
        let mut i: usize = 0;
        proof {
            lemma_split_pieces(s);
            assert(s.take(0) =~= Seq::empty());
            assert(split(s.take(0)).drop_last() =~= done);
            assert(split(s).take(0) =~= done);
            assert(self.directories@ =~= with_first_parents(given, split(s), 0)) by {
                assert forall|p: Seq<char>| p.len() == 0 implies p == Seq::<char>::empty() by {
                    assert(p =~= Seq::<char>::empty());
                }
            }
        }
        while i < chars.len()
            invariant
                start <= i <= chars@.len(),
                chars@ == s,
                self.wf(),
                self.files == old(self).files,
                split(s.take(i as int)).len() >= 1,
                split(s.take(i as int)).drop_last() == done,
                split(s.take(i as int)).last() == s.subrange(start as int, i as int),
                current@ == path_so_far(done),
                done.len() < split(s).len(),
                done == split(s).take(done.len() as int),
                self.directories@ == with_first_parents(given, split(s), done.len() as int),
            decreases chars@.len() - i,
        {
            assert(s.take(i + 1).drop_last() =~= s.take(i as int));
            if chars[i] == '/' {
                let ghost part = s.subrange(start as int, i as int);
                let ghost ready = done.push(part);
                proof {
                    lemma_split_concat(s.take(i as int), s.skip(i + 1));
                    lemma_split_pieces(s.skip(i + 1));
                    assert(s =~= s.take(i as int).push('/') + s.skip(i + 1));
                    assert(ready =~= split(s.take(i as int)));
                    assert(ready =~= split(s).take(ready.len() as int));
                    assert(ready.drop_last() =~= done);
                    assert(split(s.take(i + 1)).drop_last() =~= ready);
                    assert(s.subrange(i + 1, i + 1) =~= Seq::empty());
                }
                if !current.as_str().is_empty() {
                    current.push('/');
                }
                append_range(&mut current, &chars, start, i);
                assert(current@ =~= path_so_far(ready));
                if !self.directories.contains(current.as_str()) {
                    self.directories.insert(current.clone(), VIRTUAL_DRIVE_FILETIME);
                }
                assert(self.directories@ =~= with_first_parents(
                    given,
                    split(s),
                    ready.len() as int,
                ));
                proof {
                    done = ready;
                }
                start = i + 1;
            } else {
                proof {
                    assert(split(s.take(i + 1)).drop_last() =~= done);
                    assert(s.subrange(start as int, i + 1) =~= s.subrange(
                        start as int,
                        i as int,
                    ).push(s[i as int]));
                }
            }
            i = i + 1;
        }
        proof {
            assert(s.take(i as int) =~= s);
            assert(self.directories@ =~= with_parents(given, s));
        }
    }
}

/// A path that names a child adds exactly that name.
proof fn lemma_new_name(keys: Seq<Seq<char>>, i: int, dir: Seq<char>, name: Seq<char>)
    requires
        0 <= i < keys.len(),
        names_child(keys[i], dir, name),
    ensures
        forall|other: Seq<char>| names_child(keys[i], dir, other) ==> other == name,
{
    assert forall|other: Seq<char>| names_child(keys[i], dir, other) implies other == name by {
        lemma_one_child_name(keys[i], dir, other, name);
    }
}

proof fn lemma_listed_under<V>(paths: Seq<String>, m: Map<Seq<char>, V>, dir: Seq<char>)
    requires
        listed(paths) == subtree(m, dir),
    ensures
        forall|i: int|
            0 <= i < paths.len() ==> m.contains_key((#[trigger] paths[i])@) && dir.is_prefix_of(
                paths[i]@,
            ),
{
    assert forall|i: int| 0 <= i < paths.len() implies m.contains_key((#[trigger] paths[i])@)
        && dir.is_prefix_of(paths[i]@) by {
        let q = paths[i]@;
        assert(listed(paths).contains(q));
        assert(under(q, dir));
        if q != dir {
            assert(dir.push('/').is_prefix_of(q));
            assert(dir =~= q.take(dir.len() as int)) by {
                assert forall|k: int| 0 <= k < dir.len() implies dir[k] == q[k] by {
                    assert(dir.push('/')[k] == q.subrange(0, dir.push('/').len() as int)[k]);
                }
            }
        }
    }
}

/// The directories with the root and the first `n` ancestors added.
spec fn with_first_parents(
    directories: Map<Seq<char>, i64>,
    parts: Seq<Seq<char>>,
    n: int,
) -> Map<Seq<char>, i64> {
    Map::new(
        |p: Seq<char>|
            directories.contains_key(p) || p.len() == 0 || exists|k: int|
                0 < k <= n && p == #[trigger] path_so_far(parts.take(k)),
        |p: Seq<char>|
            if directories.contains_key(p) {
                directories[p]
            } else {
                VIRTUAL_DRIVE_FILETIME
            },
    )
}

} // verus!
