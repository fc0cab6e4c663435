//! The entry-type filter: which kinds of entries are kept.

use vstd::prelude::*;

use crate::dir_entry::DirEntry;
use crate::dir_entry::FileKind;

verus! {

/// Which entry types pass the filter, plus the two probes that need a
/// look at the filesystem: executability and emptiness.
#[derive(Debug)]
pub struct FileType {
    pub files: bool,
    pub directories: bool,
    pub symlibks: bool,
    pub block_devices: bool,
    pub chat_devices: bool,
    pub sockets: bool,
    pub pipes: bool,
    pub executables_only: bool,
    pub empty_only: bool,
}

impl Default for FileType {
    /// Every flag off: nothing is asked for.
    fn default() -> (r: FileType)
        ensures
            !r.files && !r.directories && !r.symlibks && !r.block_devices && !r.chat_devices
                && !r.sockets && !r.pipes && !r.executables_only && !r.empty_only,
    {
        FileType {
            files: false,
            directories: false,
            symlibks: false,
            block_devices: false,
            chat_devices: false,
            sockets: false,
            pipes: false,
            executables_only: false,
            empty_only: false,
        }
    }
}

/// Whether an entry of the given type and probes is to be ignored: its
/// kind is switched off, a demanded probe fails, or its kind is unknown.
pub open spec fn should_ignore_spec(
    ft: &FileType,
    kind: Option<FileKind>,
    executable: bool,
    empty: bool,
) -> bool {
    match kind {
        Some(k) => (!ft.files && k is File) || (!ft.directories && k is Directory) || (!ft.symlibks
            && k is Symlink) || (!ft.block_devices && k is BlockDevice) || (!ft.chat_devices
            && k is CharDevice) || (!ft.sockets && k is Socket) || (!ft.pipes && k is Pipe) || (
        ft.executables_only && !executable) || (ft.empty_only && !empty) || !(k is File
            || k is Directory || k is Symlink || k is BlockDevice || k is CharDevice
            || k is Socket || k is Pipe),
        None => true,
    }
}

impl FileType {
    /// Whether the entry is to be ignored. The two probes are computed
    /// outside: whether the entry's path is executable, and whether the
    /// file or directory is empty.
    pub fn should_ignore(&self, entry: &DirEntry, executable: bool, empty: bool) -> (r: bool)
        ensures
            r == should_ignore_spec(self, entry.file_type_spec(), executable, empty),
    {
        match entry.file_type() {
            Some(entry_type) => {
                (!self.files && matches!(entry_type, FileKind::File)) || (!self.directories
                    && matches!(entry_type, FileKind::Directory)) || (!self.symlibks && matches!(
                    entry_type,
                    FileKind::Symlink,
                )) || (!self.block_devices && matches!(entry_type, FileKind::BlockDevice)) || (
                !self.chat_devices && matches!(entry_type, FileKind::CharDevice)) || (!self.sockets
                    && matches!(entry_type, FileKind::Socket)) || (!self.pipes && matches!(
                    entry_type,
                    FileKind::Pipe,
                )) || (self.executables_only && !executable) || (self.empty_only && !empty) || !(
                matches!(entry_type, FileKind::File) || matches!(entry_type, FileKind::Directory)
                    || matches!(entry_type, FileKind::Symlink) || matches!(
                    entry_type,
                    FileKind::BlockDevice,
                ) || matches!(entry_type, FileKind::CharDevice) || matches!(
                    entry_type,
                    FileKind::Socket,
                ) || matches!(entry_type, FileKind::Pipe))
            },
            None => true,
        }
    }
}

} // verus!
