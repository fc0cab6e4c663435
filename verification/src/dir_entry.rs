//! One matched filesystem entry, with fill-once caches.
//!
//! An entry is either a normal entry handed over by the directory walker
//! (path, type and depth as plain values) or a synthesized record for a
//! broken symbolic link (only a path; its type comes from its metadata).
//! Metadata and style are computed outside and stored here at most once:
//! after the first fill, later fills change nothing.

use vstd::prelude::*;

use crate::config::Config;
use crate::config::Paint;
use crate::paths::strip_cur;
use crate::paths::strip_cur_spec;
use crate::paths::subvec;

verus! {

/// The type of a filesystem entry.
#[derive(Clone, Copy, Debug, PartialEq, Eq, Structural)]
pub enum FileKind {
    File,
    Directory,
    Symlink,
    BlockDevice,
    CharDevice,
    Socket,
    Pipe,
    Other,
}

/// What the renderer and the filters read of an entry's metadata: its
/// type, its size in bytes, and its modification time as seconds and
/// nanoseconds since the epoch.
#[derive(Clone, Copy, Debug)]
pub struct EntryMetadata {
    pub kind: FileKind,
    pub size: u64,
    pub modified_secs: i64,
    pub modified_nanos: u32,
}

enum DirEntryInner {
    Normal { path: Vec<u8>, file_type: Option<FileKind>, depth: usize },
    BrokenSymlink(Vec<u8>),
}

/// A fill-once cache step: an unfilled cache takes the value, a filled one
/// keeps what it has.
pub open spec fn fill_once<T>(cache: Option<Option<T>>, v: Option<T>) -> Option<Option<T>> {
    match cache {
        None => Some(v),
        Some(x) => Some(x),
    }
}

/// A second fill never changes a cache.
pub proof fn lemma_fill_once_stable<T>(cache: Option<Option<T>>, v1: Option<T>, v2: Option<T>)
    ensures
        fill_once(fill_once(cache, v1), v2) == fill_once(cache, v1),
{
}

/// One matched entry with its two fill-once caches.
pub struct DirEntry {
    inner: DirEntryInner,
    metedata: Option<Option<EntryMetadata>>,
    style: Option<Option<Paint>>,
}

impl DirEntry {
    /// The entry's path bytes.
    pub closed spec fn path_view(&self) -> Seq<u8> {
        match &self.inner {
            DirEntryInner::Normal { path, .. } => path@,
            DirEntryInner::BrokenSymlink(path) => path@,
        }
    }

    /// Whether this is a synthesized broken-symlink record.
    pub closed spec fn is_broken_symlink(&self) -> bool {
        self.inner is BrokenSymlink
    }

    /// The type the walker reported for a normal entry.
    pub closed spec fn stored_file_type(&self) -> Option<FileKind> {
        match &self.inner {
            DirEntryInner::Normal { file_type, .. } => *file_type,
            DirEntryInner::BrokenSymlink(_) => None,
        }
    }

    /// The walker depth of a normal entry.
    pub closed spec fn depth_view(&self) -> Option<usize> {
        match &self.inner {
            DirEntryInner::Normal { depth, .. } => Some(*depth),
            DirEntryInner::BrokenSymlink(_) => None,
        }
    }

    /// The metadata cache: unfilled, or filled with the stat outcome.
    pub closed spec fn metedata_cache(&self) -> Option<Option<EntryMetadata>> {
        self.metedata
    }

    /// The style cache, as byte strings.
    pub closed spec fn style_cache(&self) -> Option<Option<(Seq<u8>, Seq<u8>)>> {
        match &self.style {
            None => None,
            Some(None) => Some(None),
            Some(Some(p)) => Some(Some(p@)),
        }
    }

    /// The cached metadata, flattened: what `metedata` returns.
    pub open spec fn metedata_view(&self) -> Option<EntryMetadata> {
        match self.metedata_cache() {
            Some(m) => m,
            None => None,
        }
    }

    /// The cached style, flattened: what `style` returns.
    pub open spec fn style_view(&self) -> Option<(Seq<u8>, Seq<u8>)> {
        match self.style_cache() {
            Some(s) => s,
            None => None,
        }
    }

    /// The entry's effective type: the stored one for a normal entry; for
    /// a broken symlink, the type of its cached metadata.
    pub open spec fn file_type_spec(&self) -> Option<FileKind> {
        if self.is_broken_symlink() {
            match self.metedata_view() {
                Some(m) => Some(m.kind),
                None => None,
            }
        } else {
            self.stored_file_type()
        }
    }

    /// The stripped path: without a leading `.` component when the
    /// configuration asks for that.
    pub open spec fn stripped_spec(&self, config: &Config) -> Seq<u8> {
        if config.strip_cwd_prefix {
            strip_cur_spec(self.path_view())
        } else {
            self.path_view()
        }
    }

    /// A normal entry as the walker yields it.
    pub fn normol(path: Vec<u8>, file_type: Option<FileKind>, depth: usize) -> (e: DirEntry)
        ensures
            e.path_view() == path@,
            !e.is_broken_symlink(),
            e.stored_file_type() == file_type,
            e.depth_view() == Some(depth),
            e.metedata_cache() is None,
            e.style_cache() is None,
    {
        DirEntry {
            inner: DirEntryInner::Normal { path, file_type, depth },
            metedata: None,
            style: None,
        }
    }

    /// A synthesized record for a broken symbolic link.
    pub fn borken_symlink(path: Vec<u8>) -> (e: DirEntry)
        ensures
            e.path_view() == path@,
            e.is_broken_symlink(),
            e.metedata_cache() is None,
            e.style_cache() is None,
    {
        DirEntry { inner: DirEntryInner::BrokenSymlink(path), metedata: None, style: None }
    }

    /// The entry's path.
    pub fn path(&self) -> (r: &Vec<u8>)
        ensures
            r@ == self.path_view(),
    {
        match &self.inner {
            DirEntryInner::Normal { path, .. } => path,
            DirEntryInner::BrokenSymlink(path) => path,
        }
    }

    /// The entry's path, taking the entry apart.
    pub fn into_path(self) -> (r: Vec<u8>)
        ensures
            r@ == self.path_view(),
    {
        match self.inner {
            DirEntryInner::Normal { path, .. } => path,
            DirEntryInner::BrokenSymlink(path) => path,
        }
    }

    /// The path shown to the user: stripped of a leading `.` component
    /// when the configuration asks for that.
    pub fn stripped_path(&self, config: &Config) -> (r: Vec<u8>)
        ensures
            r@ == self.stripped_spec(config),
    {
        let p = self.path();
        if config.strip_cwd_prefix {
            strip_cur(p)
        } else {
            proof {
                assert(p@.subrange(0, p@.len() as int) =~= p@);
            }
            subvec(p, 0, p.len())
        }
    }

    /// As `stripped_path`, taking the entry apart.
    pub fn into_stripped_path(self, config: &Config) -> (r: Vec<u8>)
        ensures
            r@ == self.stripped_spec(config),
    {
        let r = self.stripped_path(config);
        r
    }

    /// The entry's effective type.
    pub fn file_type(&self) -> (r: Option<FileKind>)
        ensures
            r == self.file_type_spec(),
    {
        match &self.inner {
            DirEntryInner::Normal { file_type, .. } => *file_type,
            DirEntryInner::BrokenSymlink(_) => match self.metedata() {
                Some(m) => Some(m.kind),
                None => None,
            },
        }
    }

    /// The cached metadata; `None` while the cache is unfilled or when the
    /// stat failed.
    pub fn metedata(&self) -> (r: Option<EntryMetadata>)
        ensures
            r == self.metedata_view(),
    {
        match &self.metedata {
            Some(Some(m)) => Some(*m),
            _ => None,
        }
    }

    /// Whether the metadata cache has been filled.
    pub fn metedata_filled(&self) -> (r: bool)
        ensures
            r == (self.metedata_cache() is Some),
    {
        self.metedata.is_some()
    }

    /// Fills the metadata cache once: after the first call the cache keeps
    /// its value, whatever is handed in later.
    pub fn fill_metedata(&mut self, m: Option<EntryMetadata>)
        ensures
            final(self).metedata_cache() == fill_once(old(self).metedata_cache(), m),
            final(self).path_view() == old(self).path_view(),
            final(self).is_broken_symlink() == old(self).is_broken_symlink(),
            final(self).stored_file_type() == old(self).stored_file_type(),
            final(self).depth_view() == old(self).depth_view(),
            final(self).style_cache() == old(self).style_cache(),
    {
        if self.metedata.is_none() {
            self.metedata = Some(m);
        }
    }

    /// The walker depth; a broken-symlink record has none.
    pub fn depth(&self) -> (r: Option<usize>)
        ensures
            r == self.depth_view(),
    {
        match &self.inner {
            DirEntryInner::Normal { depth, .. } => Some(*depth),
            DirEntryInner::BrokenSymlink(_) => None,
        }
    }

    /// Whether the style cache has been filled.
    pub fn style_filled(&self) -> (r: bool)
        ensures
            r == (self.style_cache() is Some),
    {
        self.style.is_some()
    }

    /// Fills the style cache once, like `fill_metedata`.
    pub fn fill_style(&mut self, s: Option<Paint>)
        ensures
            final(self).style_cache() == fill_once(
                old(self).style_cache(),
                (match s {
                    None => None,
                    Some(p) => Some(p@),
                }),
            ),
            final(self).path_view() == old(self).path_view(),
            final(self).is_broken_symlink() == old(self).is_broken_symlink(),
            final(self).stored_file_type() == old(self).stored_file_type(),
            final(self).depth_view() == old(self).depth_view(),
            final(self).metedata_cache() == old(self).metedata_cache(),
    {
        if self.style.is_none() {
            self.style = Some(s);
        }
    }

    /// Three-way order against another entry: by path alone,
    /// lexicographic over path components, blind to type and metadata.
    pub fn cmp_by_path(&self, other: &DirEntry) -> (r: core::cmp::Ordering)
        ensures
            crate::paths::ord_sign(r) == crate::paths::path_cmp_spec(
                self.path_view(),
                other.path_view(),
            ),
    {
        crate::paths::path_cmp(self.path(), other.path())
    }

    /// The cached style; `None` while the cache is unfilled or when no
    /// rule matched.
    pub fn style(&self) -> (r: Option<&Paint>)
        ensures
            (match r {
                Some(p) => self.style_view() == Some(p@),
                None => self.style_view() is None,
            }),
    {
        match &self.style {
            Some(Some(p)) => Some(p),
            _ => None,
        }
    }
}

impl PartialEq for DirEntry {
    /// Entries are equal exactly when their paths hold the same
    /// components.
    fn eq(&self, other: &DirEntry) -> (r: bool) {
        let c = self.cmp_by_path(other);
        matches!(c, core::cmp::Ordering::Equal)
    }
}

impl vstd::std_specs::cmp::PartialEqSpecImpl for DirEntry {
    open spec fn obeys_eq_spec() -> bool {
        true
    }

    open spec fn eq_spec(&self, other: &DirEntry) -> bool {
        crate::paths::path_cmp_spec(self.path_view(), other.path_view()) == 0
    }
}

impl Eq for DirEntry {

}

impl PartialOrd for DirEntry {
    /// Entries order by path alone, lexicographic over path components.
    fn partial_cmp(&self, other: &DirEntry) -> (r: Option<core::cmp::Ordering>) {
        Some(self.cmp_by_path(other))
    }
}

impl vstd::std_specs::cmp::PartialOrdSpecImpl for DirEntry {
    open spec fn obeys_partial_cmp_spec() -> bool {
        true
    }

    open spec fn partial_cmp_spec(&self, other: &DirEntry) -> Option<core::cmp::Ordering> {
        Some(
            crate::paths::ord_of_sign(
                crate::paths::path_cmp_spec(self.path_view(), other.path_view()),
            ),
        )
    }
}

} // verus!
