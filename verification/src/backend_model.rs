//! What the drive backend does, request by request, as functions from state to state and answer.

use vstd::prelude::*;
use vstd::string::*;

use crate::drive::{empty_file, seeded, DriveModel, DriveSeedFile, EntryModel, FileModel};
use crate::efs::{
    level_name, reply, set_buffer_size, single_entry, status_name, DeviceCreateRequest,
    DeviceIoRequest, DeviceReadRequest, DeviceWriteRequest, EntryInformation,
    FileAttributeTagInformation, FileBasicInformation, FileStandardInformation, InformationModel,
    ServerDriveIoRequest, ServerDriveQueryDirectoryRequest, ServerDriveQueryInformationRequest,
    ServerDriveQueryVolumeInformationRequest, ServerDriveSetInformationRequest,
    ServerDriveSetSecurityRequest, SetBuffer, FILE_ATTRIBUTE_ARCHIVE, FILE_ATTRIBUTE_DIRECTORY,
    FILE_ATTRIBUTE_TAG_INFORMATION, FILE_BASIC_INFORMATION, FILE_CASE_PRESERVED_NAMES, FILE_CREATE,
    FILE_DIRECTORY_FILE, FILE_DIRECTORY_INFORMATION, FILE_FS_ATTRIBUTE_INFORMATION,
    FILE_FS_FULL_SIZE_INFORMATION, FILE_FS_SIZE_INFORMATION, FILE_FS_VOLUME_INFORMATION,
    FILE_FULL_DIRECTORY_INFORMATION, FILE_NAMES_INFORMATION, FILE_NON_DIRECTORY_FILE, FILE_OPEN_IF,
    FILE_OVERWRITE, FILE_OVERWRITE_IF, FILE_STANDARD_INFORMATION, FILE_SUPERSEDE,
    FILE_UNICODE_ON_DISK, INFORMATION_FILE_CREATED, INFORMATION_FILE_OPENED, INFORMATION_NONE,
    STATUS_ACCESS_DENIED, STATUS_NOT_A_DIRECTORY, STATUS_NOT_SUPPORTED, STATUS_NO_MORE_FILES,
    STATUS_NO_SUCH_FILE, STATUS_SUCCESS, STATUS_UNSUCCESSFUL,
};
use crate::filetime::VIRTUAL_DRIVE_FILETIME;
use crate::path::normal;
use crate::response::{
    FileFsFullSizeInformation, FileFsSizeInformation, ResponseModel, VolumeModel,
};
use crate::text::decimal;

verus! {

/// The allocation units of the volume.
pub const ALLOCATION_UNITS: i64 = 262_144;

/// The size of an allocation unit, which is one sector.
pub const SECTOR_SIZE: u32 = 4096;

/// The longest name of a file.
pub const MAX_NAME_LENGTH: u32 = 255;

/// The number of the volume.
pub const VOLUME_SERIAL_NUMBER: u32 = 0x5356_4452;

/// The request failed after its effect, because its answer cannot be written down.
#[derive(Clone, Copy, Debug, PartialEq, Eq, Structural)]
pub enum DriveError {
    /// A length does not fit the length field of the answer.
    LengthOverflow,
}

/// What the page is told.
#[verifier::ext_equal]
pub enum MessageModel {
    ReadRequested { request_id: u32, name: Seq<char>, offset: u64, length: u32 },
    Completed { name: Seq<char>, data: Seq<u8> },
    Diagnostic(Seq<char>),
}

/// An open file or directory, with what is left of its enumeration.
#[verifier::ext_equal]
pub struct HandleModel {
    pub path: Seq<char>,
    pub directory: bool,
    pub children: Option<Seq<EntryModel>>,
    pub written: bool,
}

/// The state of the drive backend. The handles whose create request made the file that they are
/// open on are marked as created. The outbox holds the messages to the page, oldest first.
#[verifier::ext_equal]
pub struct BackendModel {
    pub drive: DriveModel,
    pub next_file_id: u32,
    pub handles: Map<u32, HandleModel>,
    pub created: Set<u32>,
    pub next_read_request_id: u32,
    pub pending_reads: Map<u32, DeviceReadRequest>,
    pub outbox: Seq<MessageModel>,
}

/// The number after `id`; zero is passed over.
pub open spec fn following(id: u32) -> u32 {
    if id == u32::MAX {
        1
    } else {
        (id + 1) as u32
    }
}

/// Every bit of `flag` is set.
pub open spec fn has_flag(bits: u32, flag: u32) -> bool {
    bits & flag == flag
}

/// The disposition creates what does not exist.
pub open spec fn may_create(disposition: u32) -> bool {
    ||| disposition == FILE_CREATE
    ||| disposition == FILE_OPEN_IF
    ||| disposition == FILE_OVERWRITE_IF
    ||| disposition == FILE_SUPERSEDE
}

/// The disposition empties the file that it opens.
pub open spec fn empties(disposition: u32) -> bool {
    ||| disposition == FILE_OVERWRITE
    ||| disposition == FILE_OVERWRITE_IF
    ||| disposition == FILE_SUPERSEDE
}

pub open spec fn bool_name(b: bool) -> Seq<char> {
    if b {
        "true"@
    } else {
        "false"@
    }
}

/// The attributes of a directory or of a file.
pub open spec fn attributes_of(directory: bool) -> u32 {
    if directory {
        FILE_ATTRIBUTE_DIRECTORY
    } else {
        FILE_ATTRIBUTE_ARCHIVE
    }
}

/// A size as far as a signed field can hold it.
pub open spec fn signed_size(size: int) -> i64 {
    if size <= i64::MAX {
        size as i64
    } else {
        i64::MAX
    }
}

/// A directory entry of the requested kind. The one timestamp stands for all four.
pub open spec fn entry_of_level(
    level: u32,
    name: Seq<char>,
    directory: bool,
    size: usize,
    time: i64,
) -> InformationModel {
    let entry = single_entry(
        time,
        time,
        time,
        time,
        signed_size(size as int),
        attributes_of(directory),
        name,
    );
    if level == FILE_DIRECTORY_INFORMATION {
        InformationModel::Directory(entry)
    } else if level == FILE_FULL_DIRECTORY_INFORMATION {
        InformationModel::FullDirectory(EntryInformation { ea_size: Some(0), ..entry })
    } else if level == FILE_NAMES_INFORMATION {
        InformationModel::Names { next_entry_offset: 0, file_index: 0, file_name: name }
    } else {
        InformationModel::BothDirectory(
            EntryInformation {
                ea_size: Some(0),
                short_name_length: Some(0),
                short_name: Some(Seq::new(24, |i: int| 0u8)),
                ..entry
            },
        )
    }
}

/// What is known of a file or a directory, in the requested class, where the drive serves it.
pub open spec fn information_of_level(
    level: u32,
    directory: bool,
    size: u64,
    time: i64,
) -> Option<InformationModel> {
    if level == FILE_BASIC_INFORMATION {
        Some(
            InformationModel::Basic(
                FileBasicInformation {
                    creation_time: time,
                    last_access_time: time,
                    last_write_time: time,
                    change_time: time,
                    file_attributes: attributes_of(directory),
                },
            ),
        )
    } else if level == FILE_STANDARD_INFORMATION {
        Some(
            InformationModel::Standard(
                FileStandardInformation {
                    allocation_size: signed_size(size as int),
                    end_of_file: signed_size(size as int),
                    number_of_links: 1,
                    delete_pending: false,
                    directory,
                },
            ),
        )
    } else if level == FILE_ATTRIBUTE_TAG_INFORMATION {
        Some(
            InformationModel::AttributeTag(
                FileAttributeTagInformation {
                    file_attributes: attributes_of(directory),
                    reparse_tag: 0,
                },
            ),
        )
    } else {
        None
    }
}

/// What is known of the volume, in the requested class, where the drive serves it.
pub open spec fn volume_of_level(level: u32) -> Option<VolumeModel> {
    if level == FILE_FS_ATTRIBUTE_INFORMATION {
        Some(
            VolumeModel::Attribute {
                attributes: FILE_CASE_PRESERVED_NAMES | FILE_UNICODE_ON_DISK,
                max_component_name_len: MAX_NAME_LENGTH,
                name: "StoneVeyl"@,
            },
        )
    } else if level == FILE_FS_SIZE_INFORMATION {
        Some(
            VolumeModel::Size(
                FileFsSizeInformation {
                    total_alloc_units: ALLOCATION_UNITS,
                    available_alloc_units: ALLOCATION_UNITS,
                    sectors_per_alloc_unit: 1,
                    bytes_per_sector: SECTOR_SIZE,
                },
            ),
        )
    } else if level == FILE_FS_FULL_SIZE_INFORMATION {
        Some(
            VolumeModel::FullSize(
                FileFsFullSizeInformation {
                    total_alloc_units: ALLOCATION_UNITS,
                    caller_available_alloc_units: ALLOCATION_UNITS,
                    actual_available_alloc_units: ALLOCATION_UNITS,
                    sectors_per_alloc_unit: 1,
                    bytes_per_sector: SECTOR_SIZE,
                },
            ),
        )
    } else if level == FILE_FS_VOLUME_INFORMATION {
        Some(
            VolumeModel::Volume {
                creation_time: VIRTUAL_DRIVE_FILETIME,
                serial_number: VOLUME_SERIAL_NUMBER,
                supports_objects: false,
                label: "StoneVeyl Files"@,
            },
        )
    } else {
        None
    }
}

/// The bytes from `offset` on, at most `length` of them.
pub open spec fn range_of(data: Seq<u8>, offset: u64, length: u32) -> Seq<u8> {
    let start = if offset <= data.len() {
        offset as int
    } else {
        data.len() as int
    };
    let end = if start + length <= data.len() {
        start + length
    } else {
        data.len() as int
    };
    data.subrange(start, end)
}

/// The bytes with `bytes` placed at `offset`, longer where they reach past the end.
pub open spec fn overlaid(data: Seq<u8>, offset: int, bytes: Seq<u8>) -> Seq<u8> {
    data.take(offset) + bytes + if offset + bytes.len() <= data.len() {
        data.skip(offset + bytes.len())
    } else {
        Seq::empty()
    }
}

/// Where a path goes when `from` is renamed to `to`.
pub open spec fn moved_path(path: Seq<char>, from: Seq<char>, to: Seq<char>) -> Seq<char> {
    if path == from {
        to
    } else if from.push('/').is_prefix_of(path) {
        to.push('/') + path.skip(from.len() + 1int)
    } else {
        path
    }
}

/// The open handles after a rename.
pub open spec fn moved_handles(
    handles: Map<u32, HandleModel>,
    from: Seq<char>,
    to: Seq<char>,
) -> Map<u32, HandleModel> {
    handles.map_values(
        |h: HandleModel| HandleModel { path: moved_path(h.path, from, to), ..h },
    )
}

/// What diagnostics call a request.
pub open spec fn request_kind(req: ServerDriveIoRequest) -> Seq<char> {
    match req {
        ServerDriveIoRequest::ServerCreateDriveRequest(_) => "create"@,
        ServerDriveIoRequest::DeviceReadRequest(_) => "read"@,
        ServerDriveIoRequest::DeviceWriteRequest(_) => "write"@,
        ServerDriveIoRequest::DeviceCloseRequest(_) => "close"@,
        ServerDriveIoRequest::DeviceFlushBuffersRequest(_) => "flush"@,
        ServerDriveIoRequest::ServerDriveQueryDirectoryRequest(_) => "query-directory"@,
        ServerDriveIoRequest::ServerDriveQueryInformationRequest(_) => "query-information"@,
        ServerDriveIoRequest::ServerDriveQueryVolumeInformationRequest(_) => "query-volume"@,
        ServerDriveIoRequest::ServerDriveSetInformationRequest(_) => "set-information"@,
        ServerDriveIoRequest::DeviceControlRequest(_) => "device-control"@,
        ServerDriveIoRequest::ServerDriveQuerySecurityRequest(_) => "query-security"@,
        ServerDriveIoRequest::ServerDriveSetSecurityRequest(_) => "set-security"@,
        ServerDriveIoRequest::ServerDriveNotifyChangeDirectoryRequest(_) => "notify-directory"@,
        ServerDriveIoRequest::ServerDriveLockControlRequest(_) => "lock-control"@,
    }
}

impl BackendModel {
    /// A backend for the given files, with nothing open and nothing asked.
    pub open spec fn initial(files: Seq<DriveSeedFile>) -> BackendModel {
        BackendModel {
            drive: seeded(files),
            next_file_id: 1,
            handles: Map::empty(),
            created: Set::empty(),
            next_read_request_id: 1,
            pending_reads: Map::empty(),
            outbox: Seq::empty(),
        }
    }

    /// The state with one more message to the page.
    pub open spec fn told(self, message: MessageModel) -> BackendModel {
        BackendModel { outbox: self.outbox.push(message), ..self }
    }

    /// The state with one more diagnostic for the page.
    pub open spec fn said(self, text: Seq<char>) -> BackendModel {
        self.told(MessageModel::Diagnostic(text))
    }

    /// The path of an open handle, as diagnostics show it.
    pub open spec fn shown_path(self, file_id: u32) -> Seq<char> {
        if self.handles.contains_key(file_id) {
            self.handles[file_id].path
        } else {
            "<missing>"@
        }
    }

    /// The handle is an open file.
    pub open spec fn open_file(self, file_id: u32) -> bool {
        self.handles.contains_key(file_id) && !self.handles[file_id].directory
    }

    /// A create request for this path is refused: it must not exist and does, it must exist and
    /// does not, or it is a directory where a file is wanted or the other way round.
    pub open spec fn refuses(self, req: DeviceCreateRequest, path: Seq<char>) -> bool {
        let exists_dir = self.drive.directories.contains_key(path);
        let exists_file = self.drive.files.contains_key(path);
        ||| self.drive.exists_at(path) && req.create_disposition == FILE_CREATE
        ||| !self.drive.exists_at(path) && !may_create(req.create_disposition)
        ||| exists_dir && has_flag(req.create_options, FILE_NON_DIRECTORY_FILE)
        ||| exists_file && has_flag(req.create_options, FILE_DIRECTORY_FILE)
    }

    /// A create request for this path opens a directory.
    pub open spec fn opens_directory(self, req: DeviceCreateRequest, path: Seq<char>) -> bool {
        ||| has_flag(req.create_options, FILE_DIRECTORY_FILE)
        ||| self.drive.directories.contains_key(path)
        ||| path.len() == 0
    }

    /// A create request for this path that is not refused makes a file.
    pub open spec fn makes_file(self, req: DeviceCreateRequest, path: Seq<char>) -> bool {
        !self.drive.exists_at(path) && !self.opens_directory(req, path)
    }

    /// The drive after a create request for this path that is not refused.
    pub open spec fn drive_opened(self, req: DeviceCreateRequest, path: Seq<char>) -> DriveModel {
        let directory = self.opens_directory(req, path);
        if !self.drive.exists_at(path) {
            if directory {
                self.drive.with_directory(path)
            } else {
                self.drive.with_file(path)
            }
        } else if !directory && empties(req.create_disposition) {
            self.drive.with_file_set(path, empty_file())
        } else {
            self.drive
        }
    }

    pub open spec fn create(self, req: DeviceCreateRequest) -> (BackendModel, ResponseModel) {
        let request = req.device_io_request;
        match normal(req.path@) {
            None => (
                self.said("create rejected path="@ + req.path@),
                ResponseModel::Create {
                    reply: reply(request, STATUS_ACCESS_DENIED),
                    file_id: 0,
                    information: INFORMATION_NONE,
                },
            ),
            Some(path) => {
                let exists_dir = self.drive.directories.contains_key(path);
                let directory = self.opens_directory(req, path);
                if self.refuses(req, path) {
                    (
                        self.said(
                            "create path="@ + path + " status=NO_SUCH_FILE exists="@ + bool_name(
                                self.drive.exists_at(path),
                            ) + " directory="@ + bool_name(exists_dir),
                        ),
                        ResponseModel::Create {
                            reply: reply(
                                request,
                                if exists_dir && has_flag(
                                    req.create_options,
                                    FILE_NON_DIRECTORY_FILE,
                                ) {
                                    STATUS_NOT_A_DIRECTORY
                                } else {
                                    STATUS_NO_SUCH_FILE
                                },
                            ),
                            file_id: 0,
                            information: INFORMATION_NONE,
                        },
                    )
                } else {
                    let handle = HandleModel { path, directory, children: None, written: false };
                    (
                        BackendModel {
                            drive: self.drive_opened(req, path),
                            next_file_id: following(self.next_file_id),
                            handles: self.handles.insert(self.next_file_id, handle),
                            created: if self.makes_file(req, path) {
                                self.created.insert(self.next_file_id)
                            } else {
                                self.created.remove(self.next_file_id)
                            },
                            ..self
                        }.said(
                            "create id="@ + decimal(self.next_file_id as nat) + " path="@ + req.path@
                                + " status=SUCCESS directory="@ + bool_name(directory),
                        ),
                        ResponseModel::Create {
                            reply: reply(request, STATUS_SUCCESS),
                            file_id: self.next_file_id,
                            information: if self.drive.exists_at(path) {
                                INFORMATION_FILE_OPENED
                            } else {
                                INFORMATION_FILE_CREATED
                            },
                        },
                    )
                }
            },
        }
    }

    /// A read of held content is answered at once. A read of a chosen file is passed on to the
    /// page and answered later.
    pub open spec fn read(self, req: DeviceReadRequest) -> (BackendModel, Seq<ResponseModel>) {
        let request = req.device_io_request;
        let path = self.handles[request.file_id].path;
        if !self.open_file(request.file_id) || !self.drive.files.contains_key(path) {
            (
                self,
                seq![
                    ResponseModel::Read {
                        reply: reply(request, STATUS_NO_SUCH_FILE),
                        data: Seq::empty(),
                    },
                ],
            )
        } else {
            match self.drive.content(path) {
                Some(data) => (
                    self,
                    seq![
                        ResponseModel::Read {
                            reply: reply(request, STATUS_SUCCESS),
                            data: range_of(data, req.offset, req.length),
                        },
                    ],
                ),
                None => (
                    BackendModel {
                        next_read_request_id: following(self.next_read_request_id),
                        pending_reads: self.pending_reads.insert(self.next_read_request_id, req),
                        ..self
                    }.told(
                        MessageModel::ReadRequested {
                            request_id: self.next_read_request_id,
                            name: path,
                            offset: req.offset,
                            length: req.length,
                        },
                    ),
                    Seq::empty(),
                ),
            }
        }
    }

    /// The page delivers what a read asked for.
    pub open spec fn complete_read(self, request_id: u32, data: Seq<u8>, failed: bool) -> (
        BackendModel,
        Seq<ResponseModel>,
    ) {
        if !self.pending_reads.contains_key(request_id) {
            (
                self.said(
                    "[DEBUG-rdpdrive-response] read id="@ + decimal(request_id as nat)
                        + " status=dropped reason=unknown-request"@,
                ),
                Seq::empty(),
            )
        } else {
            let request = self.pending_reads[request_id].device_io_request;
            let status = if failed {
                STATUS_UNSUCCESSFUL
            } else {
                STATUS_SUCCESS
            };
            (
                BackendModel {
                    pending_reads: self.pending_reads.remove(request_id),
                    ..self
                }.said(
                    "[DEBUG-rdpdrive-response] read id="@ + decimal(request_id as nat)
                        + " completion="@ + decimal(request.completion_id as nat) + " path="@
                        + self.shown_path(request.file_id) + " status="@ + status_name(status)
                        + " bytes="@ + decimal(data.len()),
                ),
                seq![
                    ResponseModel::Read {
                        reply: reply(request, status),
                        data: if failed {
                            Seq::empty()
                        } else {
                            data
                        },
                    },
                ],
            )
        }
    }

    /// The file behind a write: its content where held, and none where not.
    pub open spec fn written_file(self, path: Seq<char>) -> FileModel {
        self.drive.with_file(path).files[path]
    }

    /// The content that a write starts from.
    pub open spec fn written_base(self, path: Seq<char>) -> Seq<u8> {
        match self.written_file(path).data {
            Some(data) => data,
            None => Seq::empty(),
        }
    }

    /// A write must not leave a gap behind the end of the content.
    pub open spec fn write(self, req: DeviceWriteRequest) -> (BackendModel, ResponseModel) {
        let request = req.device_io_request;
        if !self.open_file(request.file_id) {
            (
                self,
                ResponseModel::Write { reply: reply(request, STATUS_NO_SUCH_FILE), length: 0 },
            )
        } else {
            let handle = self.handles[request.file_id];
            let base = self.written_base(handle.path);
            let fits = req.offset <= base.len();
            let content = overlaid(base, req.offset as int, req.write_data@);
            let file = if fits {
                FileModel {
                    size: content.len() as u64,
                    data: Some(content),
                    last_modified: VIRTUAL_DRIVE_FILETIME,
                }
            } else {
                FileModel { data: Some(base), ..self.written_file(handle.path) }
            };
            (
                BackendModel {
                    drive: self.drive.with_file_set(handle.path, file),
                    handles: self.handles.insert(
                        request.file_id,
                        HandleModel { written: true, ..handle },
                    ),
                    ..self
                },
                ResponseModel::Write {
                    reply: reply(
                        request,
                        if fits {
                            STATUS_SUCCESS
                        } else {
                            STATUS_UNSUCCESSFUL
                        },
                    ),
                    length: if fits && req.write_data@.len() <= u32::MAX {
                        req.write_data@.len() as u32
                    } else {
                        0
                    },
                },
            )
        }
    }

    /// A directory query starts a new enumeration, and its target can be listed.
    pub open spec fn answerable(self, req: ServerDriveQueryDirectoryRequest) -> bool {
        let file_id = req.device_io_request.file_id;
        self.handles.contains_key(file_id) && self.handles[file_id].directory && req.initial_query
            != 0 ==> (self.drive.query_target(self.handles[file_id].path, req.path@) matches Some(
            target,
        ) ==> self.drive.listable(target))
    }

    /// Hands out the first entry that is left of an enumeration.
    pub open spec fn next_entry(
        self,
        req: ServerDriveQueryDirectoryRequest,
        left: Option<Seq<EntryModel>>,
    ) -> (BackendModel, ResponseModel) {
        let request = req.device_io_request;
        let handle = self.handles[request.file_id];
        let id = decimal(request.file_id as nat);
        if left is Some && left->0.len() > 0 {
            let (name, directory, size, time) = left->0[0];
            (
                BackendModel {
                    handles: self.handles.insert(
                        request.file_id,
                        HandleModel { children: Some(left->0.skip(1)), ..handle },
                    ),
                    ..self
                }.said(
                    "directory id="@ + id + " status=SUCCESS entry="@ + name + " directory="@
                        + bool_name(directory),
                ),
                ResponseModel::QueryDirectory {
                    reply: reply(request, STATUS_SUCCESS),
                    buffer: Some(
                        entry_of_level(req.file_info_class_lvl, name, directory, size, time),
                    ),
                },
            )
        } else {
            let status = if req.initial_query != 0 {
                STATUS_NO_SUCH_FILE
            } else {
                STATUS_NO_MORE_FILES
            };
            (
                BackendModel {
                    handles: self.handles.insert(
                        request.file_id,
                        HandleModel { children: left, ..handle },
                    ),
                    ..self
                }.said("directory id="@ + id + " status="@ + status_name(status)),
                ResponseModel::QueryDirectory { reply: reply(request, status), buffer: None },
            )
        }
    }

    /// An initial query starts an enumeration of its target; every query hands out one entry.
    /// The handle keeps its own path.
    pub open spec fn directory(self, req: ServerDriveQueryDirectoryRequest) -> (
        BackendModel,
        ResponseModel,
    ) {
        let request = req.device_io_request;
        let handle = self.handles[request.file_id];
        let id = decimal(request.file_id as nat);
        if !self.handles.contains_key(request.file_id) {
            (
                self,
                ResponseModel::QueryDirectory {
                    reply: reply(request, STATUS_NO_SUCH_FILE),
                    buffer: None,
                },
            )
        } else if !handle.directory {
            (
                self,
                ResponseModel::QueryDirectory {
                    reply: reply(request, STATUS_NOT_A_DIRECTORY),
                    buffer: None,
                },
            )
        } else if req.initial_query == 0 {
            self.next_entry(req, handle.children)
        } else {
            match self.drive.query_target(handle.path, req.path@) {
                None => (
                    self.said("directory id="@ + id + " path="@ + req.path@ + " status=ACCESS_DENIED"@),
                    ResponseModel::QueryDirectory {
                        reply: reply(request, STATUS_ACCESS_DENIED),
                        buffer: None,
                    },
                ),
                Some(target) => {
                    let listing = self.drive.listing(target);
                    self.said(
                        "directory id="@ + id + " requested="@ + req.path@ + " target="@ + target
                            + " entries="@ + decimal(listing.len()),
                    ).next_entry(req, Some(listing))
                },
            }
        }
    }

    /// Closing a handle on a file that was created or written through it hands the content to the
    /// page.
    pub open spec fn close(self, request: DeviceIoRequest) -> (BackendModel, ResponseModel) {
        let handle = self.handles[request.file_id];
        let closed = BackendModel {
            handles: self.handles.remove(request.file_id),
            created: self.created.remove(request.file_id),
            ..self
        };
        let after = if self.open_file(request.file_id) && (handle.written || self.created.contains(
            request.file_id,
        )) && self.drive.content(handle.path) is Some {
            closed.told(
                MessageModel::Completed {
                    name: handle.path,
                    data: self.drive.content(handle.path)->0,
                },
            )
        } else {
            closed
        };
        (after, ResponseModel::Close { reply: reply(request, STATUS_SUCCESS) })
    }

    pub open spec fn query_information(self, req: ServerDriveQueryInformationRequest) -> (
        BackendModel,
        ResponseModel,
    ) {
        let request = req.device_io_request;
        let known = if self.handles.contains_key(request.file_id) {
            self.drive.metadata(self.handles[request.file_id].path)
        } else {
            None
        };
        let buffer = match known {
            Some((directory, size, time)) => information_of_level(
                req.file_info_class_lvl,
                directory,
                size,
                time,
            ),
            None => None,
        };
        let status = if known is None {
            STATUS_NO_SUCH_FILE
        } else if buffer is None {
            STATUS_NOT_SUPPORTED
        } else {
            STATUS_SUCCESS
        };
        (
            self.said(
                "query-information id="@ + decimal(request.file_id as nat) + " path="@
                    + self.shown_path(request.file_id) + " class="@ + level_name(
                    req.file_info_class_lvl,
                ) + " status="@ + status_name(status),
            ),
            ResponseModel::QueryInformation { reply: reply(request, status), buffer },
        )
    }

    pub open spec fn query_volume(
        self,
        req: ServerDriveQueryVolumeInformationRequest,
    ) -> ResponseModel {
        let buffer = volume_of_level(req.fs_info_class_lvl);
        ResponseModel::QueryVolume {
            reply: reply(
                req.device_io_request,
                if buffer is Some {
                    STATUS_SUCCESS
                } else {
                    STATUS_NOT_SUPPORTED
                },
            ),
            buffer,
        }
    }

    /// What setting information on an open handle does, and its outcome. A renamed path takes the
    /// open handles along.
    pub open spec fn set_information(self, req: ServerDriveSetInformationRequest) -> (
        BackendModel,
        u32,
    ) {
        let file_id = req.device_io_request.file_id;
        let from = self.handles[file_id].path;
        if !self.handles.contains_key(file_id) {
            (self, STATUS_NO_SUCH_FILE)
        } else {
            match req.set_buffer {
                SetBuffer::Rename { file_name } => match normal(file_name@) {
                    Some(to) => match self.drive.renamed(from, to) {
                        Some(drive) => (
                            BackendModel {
                                drive,
                                handles: moved_handles(self.handles, from, to),
                                ..self
                            },
                            STATUS_SUCCESS,
                        ),
                        None => (self, STATUS_UNSUCCESSFUL),
                    },
                    None => (self, STATUS_UNSUCCESSFUL),
                },
                SetBuffer::Disposition => (
                    BackendModel { drive: self.drive.without(from), ..self },
                    STATUS_SUCCESS,
                ),
                _ => (self, STATUS_SUCCESS),
            }
        }
    }

    /// The request can be served.
    pub open spec fn can_answer(self, req: ServerDriveIoRequest) -> bool {
        req matches ServerDriveIoRequest::ServerDriveQueryDirectoryRequest(query)
            ==> self.answerable(query)
    }

    /// A request is announced to the page and served.
    pub open spec fn handle_drive_io_request(self, req: ServerDriveIoRequest) -> (
        BackendModel,
        Result<Seq<ResponseModel>, DriveError>,
    ) {
        let noted = self.said("[DEBUG-rdpdrive-dispatch] request="@ + request_kind(req));
        match req {
            ServerDriveIoRequest::ServerCreateDriveRequest(req) => {
                let (after, response) = noted.create(req);
                (after, Ok(seq![response]))
            },
            ServerDriveIoRequest::DeviceReadRequest(req) => {
                let (after, responses) = noted.read(req);
                (after, Ok(responses))
            },
            ServerDriveIoRequest::DeviceWriteRequest(req) => {
                let (after, response) = noted.write(req);
                (after, Ok(seq![response]))
            },
            ServerDriveIoRequest::DeviceCloseRequest(request) => {
                let (after, response) = noted.close(request);
                (after, Ok(seq![response]))
            },
            ServerDriveIoRequest::DeviceFlushBuffersRequest(request) => (
                noted,
                Ok(seq![ResponseModel::FlushBuffers { reply: reply(request, STATUS_SUCCESS) }]),
            ),
            ServerDriveIoRequest::ServerDriveQueryDirectoryRequest(req) => {
                let (after, response) = noted.directory(req);
                (after, Ok(seq![response]))
            },
            ServerDriveIoRequest::ServerDriveQueryInformationRequest(req) => {
                let (after, response) = noted.query_information(req);
                (after, Ok(seq![response]))
            },
            ServerDriveIoRequest::ServerDriveQueryVolumeInformationRequest(req) => (
                noted,
                Ok(seq![noted.query_volume(req)]),
            ),
            ServerDriveIoRequest::ServerDriveSetInformationRequest(req) => {
                let (after, status) = noted.set_information(req);
                let size = set_buffer_size(req.set_buffer);
                (
                    after,
                    if size <= u32::MAX {
                        Ok(
                            seq![
                                ResponseModel::SetInformation {
                                    reply: reply(req.device_io_request, status),
                                    length: size as u32,
                                },
                            ],
                        )
                    } else {
                        Err(DriveError::LengthOverflow)
                    },
                )
            },
            ServerDriveIoRequest::DeviceControlRequest(request) => (
                noted,
                Ok(seq![ResponseModel::Control { reply: reply(request, STATUS_SUCCESS) }]),
            ),
            ServerDriveIoRequest::ServerDriveQuerySecurityRequest(request) => (
                noted,
                Ok(
                    seq![
                        ResponseModel::QuerySecurity {
                            reply: reply(request, STATUS_NOT_SUPPORTED),
                        },
                    ],
                ),
            ),
            ServerDriveIoRequest::ServerDriveSetSecurityRequest(req) => (
                noted,
                if req.security_descriptor@.len() <= u32::MAX {
                    Ok(
                        seq![
                            ResponseModel::SetSecurity {
                                reply: reply(req.device_io_request, STATUS_NOT_SUPPORTED),
                                length: req.security_descriptor@.len() as u32,
                            },
                        ],
                    )
                } else {
                    Err(DriveError::LengthOverflow)
                },
            ),
            ServerDriveIoRequest::ServerDriveNotifyChangeDirectoryRequest(request) => (
                noted,
                Ok(
                    seq![
                        ResponseModel::NotifyChangeDirectory {
                            reply: reply(request, STATUS_NOT_SUPPORTED),
                        },
                    ],
                ),
            ),
            ServerDriveIoRequest::ServerDriveLockControlRequest(request) => (
                noted,
                Ok(
                    seq![
                        ResponseModel::LockControl { reply: reply(request, STATUS_NOT_SUPPORTED) },
                    ],
                ),
            ),
        }
    }
}

} // verus!
