//! The drive backend: open handles, pending reads and the answers to requests.

use std::collections::{HashMap, HashSet};

use vstd::prelude::*;
use vstd::string::*;

use crate::backend_model::{
    bool_name, entry_of_level, following, information_of_level, moved_handles, moved_path,
    overlaid, request_kind, signed_size, volume_of_level, BackendModel, DriveError, HandleModel,
    MessageModel, ALLOCATION_UNITS, MAX_NAME_LENGTH, SECTOR_SIZE, VOLUME_SERIAL_NUMBER,
};
use crate::drive::{lines, DriveSeedFile, VirtualDrive};
use crate::efs::{
    level_text, reply, set_buffer_length, status_text, DeviceCreateRequest, DeviceIoRequest,
    DeviceIoResponse, DeviceReadRequest, DeviceWriteRequest, FileAttributeTagInformation,
    FileBasicInformation, FileBothDirectoryInformation, FileDirectoryInformation,
    FileFullDirectoryInformation, FileInformationClass, FileNamesInformation,
    FileStandardInformation, ServerDriveIoRequest, ServerDriveQueryDirectoryRequest,
    ServerDriveQueryInformationRequest, ServerDriveSetInformationRequest, SetBuffer,
    FILE_ATTRIBUTE_ARCHIVE, FILE_ATTRIBUTE_DIRECTORY, FILE_ATTRIBUTE_TAG_INFORMATION,
    FILE_BASIC_INFORMATION, FILE_CASE_PRESERVED_NAMES, FILE_CREATE, FILE_DIRECTORY_FILE,
    FILE_DIRECTORY_INFORMATION, FILE_FS_ATTRIBUTE_INFORMATION, FILE_FS_FULL_SIZE_INFORMATION,
    FILE_FS_SIZE_INFORMATION, FILE_FS_VOLUME_INFORMATION, FILE_FULL_DIRECTORY_INFORMATION,
    FILE_NAMES_INFORMATION, FILE_NON_DIRECTORY_FILE, FILE_OPEN_IF, FILE_OVERWRITE,
    FILE_OVERWRITE_IF, FILE_STANDARD_INFORMATION, FILE_SUPERSEDE, FILE_UNICODE_ON_DISK,
    INFORMATION_FILE_CREATED, INFORMATION_FILE_OPENED, INFORMATION_NONE, STATUS_ACCESS_DENIED,
    STATUS_NOT_A_DIRECTORY, STATUS_NOT_SUPPORTED, STATUS_NO_MORE_FILES, STATUS_NO_SUCH_FILE,
    STATUS_SUCCESS, STATUS_UNSUCCESSFUL,
};
use crate::filetime::VIRTUAL_DRIVE_FILETIME;
use crate::path::is_under;
use crate::response::{
    answers, viewed, DriveResponse, FileFsAttributeInformation, FileFsFullSizeInformation,
    FileFsSizeInformation, FileFsVolumeInformation, FileSystemInformationClass, ResponseModel,
};
use crate::text::{append_range, chars_of, decimal_text};

verus! {

broadcast use vstd::std_specs::hash::group_hash_axioms;

/// An open file or directory, with what is left of its enumeration.
#[derive(Debug)]
pub struct OpenHandle {
    pub path: String,
    pub directory: bool,
    pub children: Option<Vec<(String, bool, usize, i64)>>,
    pub written: bool,
}

impl View for OpenHandle {
    type V = HandleModel;

    open spec fn view(&self) -> HandleModel {
        HandleModel {
            path: self.path@,
            directory: self.directory,
            children: match self.children {
                Some(entries) => Some(lines(entries@)),
                None => None,
            },
            written: self.written,
        }
    }
}

/// What the page is told: a range of a chosen file is wanted, a file that Windows created or wrote
/// is complete and can be offered as a download, or a line of the local protocol trace.
#[derive(Debug)]
pub enum DriveBackendMessage {
    ReadRequested { request_id: u32, name: String, offset: u64, length: u32 },
    Completed { name: String, data: Vec<u8> },
    Diagnostic(String),
}

impl View for DriveBackendMessage {
    type V = MessageModel;

    open spec fn view(&self) -> MessageModel {
        match *self {
            DriveBackendMessage::ReadRequested { request_id, name, offset, length } =>
                MessageModel::ReadRequested { request_id, name: name@, offset, length },
            DriveBackendMessage::Completed { name, data } => MessageModel::Completed {
                name: name@,
                data: data@,
            },
            DriveBackendMessage::Diagnostic(text) => MessageModel::Diagnostic(text@),
        }
    }
}

/// What the messages are.
pub open spec fn messages(outbox: Seq<DriveBackendMessage>) -> Seq<MessageModel> {
    outbox.map_values(|m: DriveBackendMessage| m@)
}

/// What the open handles are.
pub open spec fn handle_models(handles: Map<u32, OpenHandle>) -> Map<u32, HandleModel> {
    handles.map_values(|h: OpenHandle| h@)
}

/// The backend of the redirected drive. It works on the virtual drive alone: no request can leave
/// that tree.
#[derive(Debug)]
pub struct WasmDriveBackend {
    drive: VirtualDrive,
    next_file_id: u32,
    handles: HashMap<u32, OpenHandle>,
    created: HashSet<u32>,
    next_read_request_id: u32,
    pending_reads: HashMap<u32, DeviceReadRequest>,
    outbox: Vec<DriveBackendMessage>,
}

impl View for WasmDriveBackend {
    type V = BackendModel;

    closed spec fn view(&self) -> BackendModel {
        BackendModel {
            drive: self.drive@,
            next_file_id: self.next_file_id,
            handles: handle_models(self.handles@),
            created: self.created@,
            next_read_request_id: self.next_read_request_id,
            pending_reads: self.pending_reads@,
            outbox: messages(self.outbox@),
        }
    }
}

fn bool_text(b: bool) -> (r: &'static str)
    ensures
        r@ == bool_name(b),
{
    if b {
        "true"
    } else {
        "false"
    }
}

/// The text with another one behind it.
fn joined(a: &str, b: &str) -> (r: String)
    ensures
        r@ == a@ + b@,
{
    let mut r = a.to_owned();
    r.append(b);
    r
}

impl WasmDriveBackend {
    /// The drive is in order.
    pub closed spec fn wf(self) -> bool {
        self.drive.wf()
    }

    /// A backend for a drive with the given files, with nothing open and nothing asked.
    pub fn new(files: Vec<DriveSeedFile>) -> (r: Self)
        ensures
            r.wf(),
            r@ == BackendModel::initial(files@),
    {
        let r = WasmDriveBackend {
            drive: VirtualDrive::from_seed_files(files),
            next_file_id: 1,
            handles: HashMap::new(),
            created: HashSet::new(),
            next_read_request_id: 1,
            pending_reads: HashMap::new(),
            outbox: Vec::new(),
        };
        assert(r@.handles =~= Map::empty());
        assert(r@.outbox =~= Seq::empty());
        assert(r@.pending_reads =~= Map::empty());
        r
    }

    /// Hands the messages to the page over, oldest first.
    pub fn take_messages(&mut self) -> (r: Vec<DriveBackendMessage>)
        requires
            old(self).wf(),
        ensures
            final(self).wf(),
            messages(r@) == old(self)@.outbox,
            final(self)@ == (BackendModel { outbox: Seq::empty(), ..old(self)@ }),
    {
        let mut r: Vec<DriveBackendMessage> = Vec::new();
        std::mem::swap(&mut r, &mut self.outbox);
        assert(self@.outbox =~= Seq::empty());
        r
    }

    fn send(&mut self, message: DriveBackendMessage)
        requires
            old(self).wf(),
        ensures
            final(self).wf(),
            final(self)@ == old(self)@.told(message@),
            final(self).handles == old(self).handles,
            final(self).drive == old(self).drive,
    {
        self.outbox.push(message);
        assert(self@.outbox =~= old(self)@.outbox.push(message@));
    }

    fn send_diagnostic(&mut self, message: String)
        requires
            old(self).wf(),
        ensures
            final(self).wf(),
            final(self)@ == old(self)@.said(message@),
            final(self).handles == old(self).handles,
            final(self).drive == old(self).drive,
    {
        self.send(DriveBackendMessage::Diagnostic(message));
    }

    fn set_handle(&mut self, file_id: u32, handle: OpenHandle)
        requires
            old(self).wf(),
        ensures
            final(self).wf(),
            final(self)@ == (BackendModel {
                handles: old(self)@.handles.insert(file_id, handle@),
                ..old(self)@
            }),
    {
        self.handles.insert(file_id, handle);
        assert(self@.handles =~= old(self)@.handles.insert(file_id, handle@));
    }

    /// The number for a new handle.
    pub fn allocate_file_id(&mut self) -> (id: u32)
        requires
            old(self).wf(),
        ensures
            final(self).wf(),
            id == old(self)@.next_file_id,
            final(self)@ == (BackendModel {
                next_file_id: following(old(self)@.next_file_id),
                ..old(self)@
            }),
    {
        let id: u32 = self.next_file_id;
        self.next_file_id = if id == u32::MAX {
            1
        } else {
            id + 1
        };
        id
    }

    /// Serves a create request.
    pub fn create(&mut self, req: DeviceCreateRequest) -> (r: Vec<DriveResponse>)
        requires
            old(self).wf(),
        ensures
            final(self).wf(),
            final(self)@ == old(self)@.create(req).0,
            answers(r@) == seq![old(self)@.create(req).1],
    {
        let request = req.device_io_request;
        let path = match VirtualDrive::normalize(req.path.as_str()) {
            Ok(path) => path,
            Err(()) => {
                self.send_diagnostic(joined("create rejected path=", req.path.as_str()));
                let response = DriveResponse::DeviceCreateResponse {
                    device_io_reply: DeviceIoResponse::new(request, STATUS_ACCESS_DENIED),
                    file_id: 0,
                    information: INFORMATION_NONE,
                };
                return single(response);
            },
        };
        let wants_directory = req.create_options & FILE_DIRECTORY_FILE == FILE_DIRECTORY_FILE;
        let must_be_file = req.create_options & FILE_NON_DIRECTORY_FILE == FILE_NON_DIRECTORY_FILE;
        let exists_dir = self.drive.is_dir(path.as_str());
        let exists_file = self.drive.file_size(path.as_str()).is_some();
        let exists = exists_dir || exists_file;
        let disposition: u32 = req.create_disposition;
        let creates = disposition == FILE_CREATE || disposition == FILE_OPEN_IF || disposition
            == FILE_OVERWRITE_IF || disposition == FILE_SUPERSEDE;
        if (exists && disposition == FILE_CREATE) || (!exists && !creates) || (exists_dir
            && must_be_file) || (exists_file && wants_directory) {
            let mut text = joined("create path=", path.as_str());
            text.append(" status=NO_SUCH_FILE exists=");
            text.append(bool_text(exists));
            text.append(" directory=");
            text.append(bool_text(exists_dir));
            self.send_diagnostic(text);
            let response = DriveResponse::DeviceCreateResponse {
                device_io_reply: DeviceIoResponse::new(
                    request,
                    if exists_dir && must_be_file {
                        STATUS_NOT_A_DIRECTORY
                    } else {
                        STATUS_NO_SUCH_FILE
                    },
                ),
                file_id: 0,
                information: INFORMATION_NONE,
            };
            return single(response);
        }
        let directory = wants_directory || exists_dir || path.as_str().is_empty();
        if !exists {
            if directory {
                self.drive.create_dir(path.clone());
            } else {
                let _ = self.drive.create_file(path.clone());
            }
        } else if !directory && (disposition == FILE_OVERWRITE || disposition == FILE_OVERWRITE_IF
            || disposition == FILE_SUPERSEDE) {
            let file = self.drive.create_file(path.clone());
            file.size = 0;
            file.data = Some(Vec::new());
            file.last_modified = VIRTUAL_DRIVE_FILETIME;
        }
        assert(self.drive@ =~= old(self)@.drive_opened(req, path@));
        let file_id: u32 = self.allocate_file_id();
        self.set_handle(file_id, OpenHandle { path, directory, children: None, written: false });
        if !exists && !directory {
            self.created.insert(file_id);
        } else {
            self.created.remove(&file_id);
        }
        let mut text = joined("create id=", decimal_text(file_id as u64).as_str());
        text.append(" path=");
        text.append(req.path.as_str());
        text.append(" status=SUCCESS directory=");
        text.append(bool_text(directory));
        self.send_diagnostic(text);
        let response = DriveResponse::DeviceCreateResponse {
            device_io_reply: DeviceIoResponse::new(request, STATUS_SUCCESS),
            file_id,
            information: if exists {
                INFORMATION_FILE_OPENED
            } else {
                INFORMATION_FILE_CREATED
            },
        };
        single(response)
    }

    /// The path of an open file.
    fn open_path(&self, file_id: u32) -> (r: Option<String>)
        ensures
            match r {
                Some(path) => self@.open_file(file_id) && path@ == self@.handles[file_id].path,
                None => !self@.open_file(file_id),
            },
    {
        match self.handles.get(&file_id) {
            Some(handle) => if handle.directory {
                None
            } else {
                Some(handle.path.clone())
            },
            None => None,
        }
    }

    /// Serves a read request. A read of a chosen file is passed on to the page and answered by
    /// `complete_read`.
    pub fn read(&mut self, req: DeviceReadRequest) -> (r: Vec<DriveResponse>)
        requires
            old(self).wf(),
        ensures
            final(self).wf(),
            final(self)@ == old(self)@.read(req).0,
            answers(r@) == old(self)@.read(req).1,
    {
        let request = req.device_io_request;
        let name: String = match self.open_path(request.file_id) {
            Some(path) => path,
            None => {
                return Self::missing(request);
            },
        };
        if let Some(data) = self.drive.file_data(name.as_str()) {
            let start: usize = if req.offset <= data.len() as u64 {
                req.offset as usize
            } else {
                data.len()
            };
            let length: usize = req.length as usize;
            let end: usize = if length <= data.len() - start {
                start + length
            } else {
                data.len()
            };
            let read_data = bytes_between(data, start, end);
            let response = DriveResponse::DeviceReadResponse {
                device_io_reply: DeviceIoResponse::new(request, STATUS_SUCCESS),
                read_data,
            };
            return single(response);
        }
        if self.drive.file_size(name.as_str()).is_none() {
            return Self::missing(request);
        }
        let request_id: u32 = self.next_read_request_id;
        self.next_read_request_id = if request_id == u32::MAX {
            1
        } else {
            request_id + 1
        };
        self.pending_reads.insert(request_id, req);
        self.send(
            DriveBackendMessage::ReadRequested {
                request_id,
                name,
                offset: req.offset,
                length: req.length,
            },
        );
        let r: Vec<DriveResponse> = Vec::new();
        assert(answers(r@) =~= Seq::empty());
        r
    }

    /// The answer to a read where there is no file.
    fn missing(request: DeviceIoRequest) -> (r: Vec<DriveResponse>)
        ensures
            answers(r@) == seq![
                ResponseModel::Read {
                    reply: reply(request, STATUS_NO_SUCH_FILE),
                    data: Seq::empty(),
                },
            ],
    {
        let read_data: Vec<u8> = Vec::new();
        assert(read_data@ =~= Seq::empty());
        single(
            DriveResponse::DeviceReadResponse {
                device_io_reply: DeviceIoResponse::new(request, STATUS_NO_SUCH_FILE),
                read_data,
            },
        )
    }

    /// The path of an open handle, as diagnostics show it.
    fn shown_path(&self, file_id: u32) -> (r: String)
        ensures
            r@ == self@.shown_path(file_id),
    {
        match self.handles.get(&file_id) {
            Some(handle) => handle.path.clone(),
            None => "<missing>".to_owned(),
        }
    }

    /// Answers a pending read with what the page delivered. A read that nothing waits for is
    /// dropped.
    pub fn complete_read(&mut self, request_id: u32, data: Vec<u8>, failed: bool) -> (r: Vec<
        DriveResponse,
    >)
        requires
            old(self).wf(),
        ensures
            final(self).wf(),
            final(self)@ == old(self)@.complete_read(request_id, data@, failed).0,
            answers(r@) == old(self)@.complete_read(request_id, data@, failed).1,
    {
        let mut text = joined(
            "[DEBUG-rdpdrive-response] read id=",
            decimal_text(request_id as u64).as_str(),
        );
        let req = match self.pending_reads.remove(&request_id) {
            Some(req) => req,
            None => {
                text.append(" status=dropped reason=unknown-request");
                assert(self@.pending_reads =~= old(self)@.pending_reads);
                self.send_diagnostic(text);
                let r: Vec<DriveResponse> = Vec::new();
                assert(answers(r@) =~= Seq::empty());
                return r;
            },
        };
        let request = req.device_io_request;
        let status: u32 = if failed {
            STATUS_UNSUCCESSFUL
        } else {
            STATUS_SUCCESS
        };
        text.append(" completion=");
        text.append(decimal_text(request.completion_id as u64).as_str());
        text.append(" path=");
        text.append(self.shown_path(request.file_id).as_str());
        text.append(" status=");
        text.append(status_text(status).as_str());
        text.append(" bytes=");
        text.append(decimal_text(data.len() as u64).as_str());
        self.send_diagnostic(text);
        let read_data: Vec<u8> = if failed {
            Vec::new()
        } else {
            data
        };
        assert(failed ==> read_data@ =~= Seq::empty());
        single(
            DriveResponse::DeviceReadResponse {
                device_io_reply: DeviceIoResponse::new(request, status),
                read_data,
            },
        )
    }

    /// Serves a write request.
    pub fn write(&mut self, req: DeviceWriteRequest) -> (r: Vec<DriveResponse>)
        requires
            old(self).wf(),
        ensures
            final(self).wf(),
            final(self)@ == old(self)@.write(req).0,
            answers(r@) == seq![old(self)@.write(req).1],
    {
        let request = req.device_io_request;
        let bytes = req.write_data;
        let path: String = match self.open_path(request.file_id) {
            Some(path) => path,
            None => {
                let response = DriveResponse::DeviceWriteResponse {
                    device_io_reply: DeviceIoResponse::new(request, STATUS_NO_SUCH_FILE),
                    length: 0,
                };
                return single(response);
            },
        };
        if let Some(handle) = self.handles.remove(&request.file_id) {
            let written = OpenHandle { written: true, ..handle };
            self.set_handle(request.file_id, written);
        }
        let ghost name = path@;
        let ghost base = old(self)@.written_base(name);
        let file = self.drive.create_file(path);
        let mut data: Vec<u8> = match file.data.take() {
            Some(data) => data,
            None => Vec::new(),
        };
        assert(data@ =~= base);
        let fits = req.offset <= data.len() as u64;
        if fits {
            overlay(&mut data, req.offset as usize, &bytes);
            file.size = data.len() as u64;
            file.last_modified = VIRTUAL_DRIVE_FILETIME;
        }
        file.data = Some(data);
        let (status, length): (u32, u32) = if fits {
            (
                STATUS_SUCCESS,
                if bytes.len() as u64 <= u32::MAX as u64 {
                    bytes.len() as u32
                } else {
                    0
                },
            )
        } else {
            (STATUS_UNSUCCESSFUL, 0)
        };
        assert(self@ =~= old(self)@.write(req).0);
        let response = DriveResponse::DeviceWriteResponse {
            device_io_reply: DeviceIoResponse::new(request, status),
            length,
        };
        single(response)
    }

    /// A directory entry of the requested kind.
    pub fn directory_info(
        level: u32,
        name: String,
        directory: bool,
        size: usize,
        last_modified: i64,
    ) -> (r: FileInformationClass)
        ensures
            r@ == entry_of_level(level, name@, directory, size, last_modified),
    {
        let attributes: u32 = if directory {
            FILE_ATTRIBUTE_DIRECTORY
        } else {
            FILE_ATTRIBUTE_ARCHIVE
        };
        let t: i64 = last_modified;
        let size: i64 = clamp_size(size as u64);
        if level == FILE_DIRECTORY_INFORMATION {
            FileInformationClass::Directory(
                FileDirectoryInformation::new(t, t, t, t, size, attributes, name),
            )
        } else if level == FILE_FULL_DIRECTORY_INFORMATION {
            FileInformationClass::FullDirectory(
                FileFullDirectoryInformation::new(t, t, t, t, size, attributes, name),
            )
        } else if level == FILE_NAMES_INFORMATION {
            FileInformationClass::Names(FileNamesInformation::new(name))
        } else {
            FileInformationClass::BothDirectory(
                FileBothDirectoryInformation::new(t, t, t, t, size, attributes, name),
            )
        }
    }

    /// An answer to a directory query.
    pub fn directory_response(
        request: DeviceIoRequest,
        status: u32,
        buffer: Option<FileInformationClass>,
    ) -> (r: Vec<DriveResponse>)
        ensures
            answers(r@) == seq![
                ResponseModel::QueryDirectory {
                    reply: reply(request, status),
                    buffer: viewed(buffer),
                },
            ],
    {
        single(
            DriveResponse::ClientDriveQueryDirectoryResponse {
                device_io_reply: DeviceIoResponse::new(request, status),
                buffer,
            },
        )
    }

    /// Whether every child of the target of a directory query can be listed.
    pub fn can_list(&self, req: &ServerDriveQueryDirectoryRequest) -> (r: bool)
        requires
            self.wf(),
        ensures
            r == self@.answerable(*req),
    {
        if req.initial_query == 0 {
            return true;
        }
        match self.handles.get(&req.device_io_request.file_id) {
            Some(handle) => if handle.directory {
                match self.drive.directory_query_path(handle.path.as_str(), req.path.as_str()) {
                    Ok(path) => self.drive.can_list(path.as_str()),
                    Err(()) => true,
                }
            } else {
                true
            },
            None => true,
        }
    }

    /// Serves a directory query.
    pub fn directory(&mut self, req: ServerDriveQueryDirectoryRequest) -> (r: Vec<DriveResponse>)
        requires
            old(self).wf(),
            old(self)@.answerable(req),
        ensures
            final(self).wf(),
            final(self)@ == old(self)@.directory(req).0,
            answers(r@) == seq![old(self)@.directory(req).1],
    {
        let request = req.device_io_request;
        let mut handle = match self.handles.remove(&request.file_id) {
            Some(handle) => handle,
            None => {
                assert(self@ =~= old(self)@);
                return Self::directory_response(request, STATUS_NO_SUCH_FILE, None);
            },
        };
        let ghost model = handle@;
        assert(model == old(self)@.handles[request.file_id]);
        if !handle.directory {
            self.set_handle(request.file_id, handle);
            assert(self@ =~= old(self)@);
            return Self::directory_response(request, STATUS_NOT_A_DIRECTORY, None);
        }
        let id = decimal_text(request.file_id as u64);
        let ghost mut base = old(self)@;
        if req.initial_query != 0 {
            let path = match self.drive.directory_query_path(
                handle.path.as_str(),
                req.path.as_str(),
            ) {
                Ok(path) => path,
                Err(()) => {
                    self.set_handle(request.file_id, handle);
                    assert(self@ =~= old(self)@);
                    let mut text = joined("directory id=", id.as_str());
                    text.append(" path=");
                    text.append(req.path.as_str());
                    text.append(" status=ACCESS_DENIED");
                    self.send_diagnostic(text);
                    return Self::directory_response(request, STATUS_ACCESS_DENIED, None);
                },
            };
            let children = self.drive.children(path.as_str());
            let mut text = joined("directory id=", id.as_str());
            text.append(" requested=");
            text.append(req.path.as_str());
            text.append(" target=");
            text.append(path.as_str());
            text.append(" entries=");
            text.append(decimal_text(children.len() as u64).as_str());
            handle.children = Some(children);
            proof {
                base = old(self)@.said(text@);
            }
            self.send_diagnostic(text);
        }
        let ghost left = handle@.children;
        assert(self@ =~= (BackendModel { handles: self@.handles, ..base }));
        assert(forall|h: HandleModel| #[trigger]
            self@.handles.insert(request.file_id, h) =~= base.handles.insert(request.file_id, h));
        let entry = take_first(&mut handle);
        let ghost after = handle@;
        self.set_handle(request.file_id, handle);
        assert(self@ =~= (BackendModel {
            handles: base.handles.insert(request.file_id, after),
            ..base
        }));
        match entry {
            Some((name, directory, size, last_modified)) => {
                let mut text = joined("directory id=", id.as_str());
                text.append(" status=SUCCESS entry=");
                text.append(name.as_str());
                text.append(" directory=");
                text.append(bool_text(directory));
                self.send_diagnostic(text);
                let info = Self::directory_info(
                    req.file_info_class_lvl,
                    name,
                    directory,
                    size,
                    last_modified,
                );
                proof {
                    assert(self@ == base.next_entry(req, left).0);
                }
                Self::directory_response(request, STATUS_SUCCESS, Some(info))
            },
            None => {
                let status: u32 = if req.initial_query != 0 {
                    STATUS_NO_SUCH_FILE
                } else {
                    STATUS_NO_MORE_FILES
                };
                let mut text = joined("directory id=", id.as_str());
                text.append(" status=");
                text.append(status_text(status).as_str());
                self.send_diagnostic(text);
                proof {
                    assert(self@ == base.next_entry(req, left).0);
                }
                Self::directory_response(request, status, None)
            },
        }
    }

    /// The numbers of the open handles.
    fn open_ids(&self) -> (r: Vec<u32>)
        ensures
            r@.no_duplicates(),
            forall|id: u32| #[trigger] r@.contains(id) <==> self@.handles.contains_key(id),
    {
        let mut r: Vec<u32> = Vec::new();
        for id in it: self.handles.keys()
            invariant
                r@.len() == it.index(),
                forall|i: int| 0 <= i < r@.len() ==> r@[i] == *it.seq()[i],
        {
            r.push(*id);
        }
        proof {
            let keys = vstd::std_specs::iter::IteratorSpec::remaining(
                &vstd::std_specs::hash::spec_keys_iter(&self.handles),
            ).unref();
            assert(r@ =~= keys);
            assert forall|id: u32| #[trigger] r@.contains(id) == self@.handles.contains_key(id) by {
                assert(keys.to_set().contains(id) == r@.contains(id));
            }
        }
        r
    }

    /// Lets the open handles follow a rename.
    pub fn update_open_handle_paths(&mut self, from: &str, to: &str)
        requires
            old(self).wf(),
        ensures
            final(self).wf(),
            final(self)@ == (BackendModel {
                handles: moved_handles(old(self)@.handles, from@, to@),
                ..old(self)@
            }),
    {
        let from_chars = chars_of(from);
        let ids = self.open_ids();
        let mut i: usize = 0;
        while i < ids.len()
            invariant
                i <= ids@.len(),
                from_chars@ == from@,
                ids@.no_duplicates(),
                forall|id: u32| #[trigger]
                    ids@.contains(id) <==> old(self)@.handles.contains_key(id),
                self.wf(),
                self@ == (BackendModel { handles: self@.handles, ..old(self)@ }),
                self@.handles.dom() == old(self)@.handles.dom(),
                forall|k: int|
                    0 <= k < i ==> self@.handles[#[trigger] ids@[k]] == moved_handles(
                        old(self)@.handles,
                        from@,
                        to@,
                    )[ids@[k]],
                forall|k: int|
                    i <= k < ids@.len() ==> self@.handles[#[trigger] ids@[k]]
                        == old(self)@.handles[ids@[k]],
            decreases ids@.len() - i,
        {
            let id: u32 = ids[i];
            let ghost earlier = self@;
            assert(ids@.contains(id));
            assert(earlier.handles.dom().contains(id));
            if let Some(handle) = self.handles.remove(&id) {
                let ghost model = handle@;
                assert(model == earlier.handles[id]);
                let path = renamed_path(handle.path.as_str(), &from_chars, to);
                assert(path@ == moved_path(model.path, from@, to@));
                self.set_handle(id, OpenHandle { path, ..handle });
                assert(self@.handles =~= earlier.handles.insert(
                    id,
                    HandleModel { path: moved_path(model.path, from@, to@), ..model },
                ));
                assert(self@.handles.dom() =~= earlier.handles.dom());
            }
            i = i + 1;
        }
        proof {
            let after = moved_handles(old(self)@.handles, from@, to@);
            assert forall|id: u32| #[trigger] after.dom().contains(id) implies after[id]
                == self@.handles[id] by {
                assert(ids@.contains(id));
                let k = choose|k: int| 0 <= k < ids@.len() && ids@[k] == id;
                assert(self@.handles[ids@[k]] == after[ids@[k]]);
            }
            assert(self@.handles =~= after);
        }
    }

    /// Serves a close request. A file that was created or written through the handle is handed to
    /// the page.
    fn close(&mut self, request: DeviceIoRequest) -> (r: Vec<DriveResponse>)
        requires
            old(self).wf(),
        ensures
            final(self).wf(),
            final(self)@ == old(self)@.close(request).0,
            answers(r@) == seq![old(self)@.close(request).1],
    {
        let removed = self.handles.remove(&request.file_id);
        assert(self@.handles =~= old(self)@.handles.remove(request.file_id));
        let made = self.created.remove(&request.file_id);
        if let Some(handle) = removed {
            if (handle.written || made) && !handle.directory {
                if let Some(data) = self.drive.file_data(handle.path.as_str()) {
                    let data = bytes_between(data, 0, data.len());
                    assert(data@ =~= old(self)@.drive.content(handle.path@)->0);
                    self.send(DriveBackendMessage::Completed { name: handle.path, data });
                }
            }
        }
        single(
            DriveResponse::DeviceCloseResponse {
                device_io_reply: DeviceIoResponse::new(request, STATUS_SUCCESS),
            },
        )
    }

    /// What is known of a file or a directory, in the requested class, where the drive serves it.
    fn information(level: u32, directory: bool, size: u64, last_modified: i64) -> (r: Option<
        FileInformationClass,
    >)
        ensures
            viewed(r) == information_of_level(level, directory, size, last_modified),
    {
        let file_attributes: u32 = if directory {
            FILE_ATTRIBUTE_DIRECTORY
        } else {
            FILE_ATTRIBUTE_ARCHIVE
        };
        let size: i64 = clamp_size(size);
        if level == FILE_BASIC_INFORMATION {
            Some(
                FileInformationClass::Basic(
                    FileBasicInformation {
                        creation_time: last_modified,
                        last_access_time: last_modified,
                        last_write_time: last_modified,
                        change_time: last_modified,
                        file_attributes,
                    },
                ),
            )
        } else if level == FILE_STANDARD_INFORMATION {
            Some(
                FileInformationClass::Standard(
                    FileStandardInformation {
                        allocation_size: size,
                        end_of_file: size,
                        number_of_links: 1,
                        delete_pending: false,
                        directory,
                    },
                ),
            )
        } else if level == FILE_ATTRIBUTE_TAG_INFORMATION {
            Some(
                FileInformationClass::AttributeTag(
                    FileAttributeTagInformation { file_attributes, reparse_tag: 0 },
                ),
            )
        } else {
            None
        }
    }

    /// Serves a query for what is known of an open handle.
    fn query_information(&mut self, req: ServerDriveQueryInformationRequest) -> (r: Vec<
        DriveResponse,
    >)
        requires
            old(self).wf(),
        ensures
            final(self).wf(),
            final(self)@ == old(self)@.query_information(req).0,
            answers(r@) == seq![old(self)@.query_information(req).1],
    {
        let request = req.device_io_request;
        let known = match self.handles.get(&request.file_id) {
            Some(handle) => self.drive.metadata(handle.path.as_str()),
            None => None,
        };
        let (status, buffer) = match known {
            Some((directory, size, last_modified)) => {
                let info = Self::information(
                    req.file_info_class_lvl,
                    directory,
                    size,
                    last_modified,
                );
                if info.is_some() {
                    (STATUS_SUCCESS, info)
                } else {
                    (STATUS_NOT_SUPPORTED, None)
                }
            },
            None => (STATUS_NO_SUCH_FILE, None),
        };
        let mut text = joined("query-information id=", decimal_text(request.file_id as u64).as_str());
        text.append(" path=");
        text.append(self.shown_path(request.file_id).as_str());
        text.append(" class=");
        text.append(level_text(req.file_info_class_lvl).as_str());
        text.append(" status=");
        text.append(status_text(status).as_str());
        self.send_diagnostic(text);
        single(
            DriveResponse::ClientDriveQueryInformationResponse {
                device_io_reply: DeviceIoResponse::new(request, status),
                buffer,
            },
        )
    }

    /// What is known of the volume, in the requested class, where the drive serves it.
    fn volume_information(level: u32) -> (r: Option<FileSystemInformationClass>)
        ensures
            viewed(r) == volume_of_level(level),
    {
        if level == FILE_FS_ATTRIBUTE_INFORMATION {
            Some(
                FileSystemInformationClass::FileFsAttributeInformation(
                    FileFsAttributeInformation {
                        file_system_attributes: FILE_CASE_PRESERVED_NAMES | FILE_UNICODE_ON_DISK,
                        max_component_name_len: MAX_NAME_LENGTH,
                        file_system_name: "StoneVeyl".to_owned(),
                    },
                ),
            )
        } else if level == FILE_FS_SIZE_INFORMATION {
            Some(
                FileSystemInformationClass::FileFsSizeInformation(
                    FileFsSizeInformation {
                        total_alloc_units: ALLOCATION_UNITS,
                        available_alloc_units: ALLOCATION_UNITS,
                        sectors_per_alloc_unit: 1,
                        bytes_per_sector: SECTOR_SIZE,
                    },
                ),
            )
        } else if level == FILE_FS_FULL_SIZE_INFORMATION {
            Some(
                FileSystemInformationClass::FileFsFullSizeInformation(
                    FileFsFullSizeInformation {
                        total_alloc_units: ALLOCATION_UNITS,
                        caller_available_alloc_units: ALLOCATION_UNITS,
                        actual_available_alloc_units: ALLOCATION_UNITS,
                        sectors_per_alloc_unit: 1,
                        bytes_per_sector: SECTOR_SIZE,
                    },
                ),
            )
        } else if level == FILE_FS_VOLUME_INFORMATION {
            Some(
                FileSystemInformationClass::FileFsVolumeInformation(
                    FileFsVolumeInformation {
                        volume_creation_time: VIRTUAL_DRIVE_FILETIME,
                        volume_serial_number: VOLUME_SERIAL_NUMBER,
                        supports_objects: false,
                        volume_label: "StoneVeyl Files".to_owned(),
                    },
                ),
            )
        } else {
            None
        }
    }

    /// Carries out what a request sets on an open handle.
    fn set_information(&mut self, req: &ServerDriveSetInformationRequest) -> (status: u32)
        requires
            old(self).wf(),
        ensures
            final(self).wf(),
            final(self)@ == old(self)@.set_information(*req).0,
            status == old(self)@.set_information(*req).1,
    {
        let from: String = match self.handles.get(&req.device_io_request.file_id) {
            Some(handle) => handle.path.clone(),
            None => {
                return STATUS_NO_SUCH_FILE;
            },
        };
        assert(from@ == self@.handles[req.device_io_request.file_id].path);
        match &req.set_buffer {
            SetBuffer::Rename { file_name } => match VirtualDrive::normalize(file_name.as_str()) {
                Ok(to) => {
                    if self.drive.rename(from.as_str(), to.clone()) {
                        self.update_open_handle_paths(from.as_str(), to.as_str());
                        STATUS_SUCCESS
                    } else {
                        STATUS_UNSUCCESSFUL
                    }
                },
                Err(()) => STATUS_UNSUCCESSFUL,
            },
            SetBuffer::Disposition => {
                self.drive.remove(from.as_str());
                STATUS_SUCCESS
            },
            _ => STATUS_SUCCESS,
        }
    }

    /// What diagnostics call a request.
    fn request_name(req: &ServerDriveIoRequest) -> (r: &'static str)
        ensures
            r@ == request_kind(*req),
    {
        match req {
            ServerDriveIoRequest::ServerCreateDriveRequest(_) => "create",
            ServerDriveIoRequest::DeviceReadRequest(_) => "read",
            ServerDriveIoRequest::DeviceWriteRequest(_) => "write",
            ServerDriveIoRequest::DeviceCloseRequest(_) => "close",
            ServerDriveIoRequest::DeviceFlushBuffersRequest(_) => "flush",
            ServerDriveIoRequest::ServerDriveQueryDirectoryRequest(_) => "query-directory",
            ServerDriveIoRequest::ServerDriveQueryInformationRequest(_) => "query-information",
            ServerDriveIoRequest::ServerDriveQueryVolumeInformationRequest(_) => "query-volume",
            ServerDriveIoRequest::ServerDriveSetInformationRequest(_) => "set-information",
            ServerDriveIoRequest::DeviceControlRequest(_) => "device-control",
            ServerDriveIoRequest::ServerDriveQuerySecurityRequest(_) => "query-security",
            ServerDriveIoRequest::ServerDriveSetSecurityRequest(_) => "set-security",
            ServerDriveIoRequest::ServerDriveNotifyChangeDirectoryRequest(_) => "notify-directory",
            ServerDriveIoRequest::ServerDriveLockControlRequest(_) => "lock-control",
        }
    }

    /// Whether the request can be served: a directory query that starts an enumeration needs a
    /// target whose children can all be listed.
    pub fn can_answer(&self, req: &ServerDriveIoRequest) -> (r: bool)
        requires
            self.wf(),
        ensures
            r == self@.can_answer(*req),
    {
        match req {
            ServerDriveIoRequest::ServerDriveQueryDirectoryRequest(req) => self.can_list(req),
            _ => true,
        }
    }

    /// Serves a request: it is announced to the page, carried out and answered.
    pub fn handle_drive_io_request(&mut self, req: ServerDriveIoRequest) -> (r: Result<
        Vec<DriveResponse>,
        DriveError,
    >)
        requires
            old(self).wf(),
            old(self)@.can_answer(req),
        ensures
            final(self).wf(),
            final(self)@ == old(self)@.handle_drive_io_request(req).0,
            match (r, old(self)@.handle_drive_io_request(req).1) {
                (Ok(responses), Ok(expected)) => answers(responses@) == expected,
                (Err(error), Err(expected)) => error == expected,
                _ => false,
            },
    {
        self.send_diagnostic(
            joined("[DEBUG-rdpdrive-dispatch] request=", Self::request_name(&req)),
        );
        match req {
            ServerDriveIoRequest::ServerCreateDriveRequest(req) => Ok(self.create(req)),
            ServerDriveIoRequest::DeviceReadRequest(req) => Ok(self.read(req)),
            ServerDriveIoRequest::DeviceWriteRequest(req) => Ok(self.write(req)),
            ServerDriveIoRequest::DeviceCloseRequest(request) => Ok(self.close(request)),
            ServerDriveIoRequest::DeviceFlushBuffersRequest(request) => Ok(
                single(
                    DriveResponse::DeviceFlushBuffersResponse {
                        device_io_reply: DeviceIoResponse::new(request, STATUS_SUCCESS),
                    },
                ),
            ),
            ServerDriveIoRequest::ServerDriveQueryDirectoryRequest(req) => Ok(self.directory(req)),
            ServerDriveIoRequest::ServerDriveQueryInformationRequest(req) => Ok(
                self.query_information(req),
            ),
            ServerDriveIoRequest::ServerDriveQueryVolumeInformationRequest(req) => {
                let buffer = Self::volume_information(req.fs_info_class_lvl);
                let status: u32 = if buffer.is_some() {
                    STATUS_SUCCESS
                } else {
                    STATUS_NOT_SUPPORTED
                };
                Ok(
                    single(
                        DriveResponse::ClientDriveQueryVolumeInformationResponse {
                            device_io_reply: DeviceIoResponse::new(req.device_io_request, status),
                            buffer,
                        },
                    ),
                )
            },
            ServerDriveIoRequest::ServerDriveSetInformationRequest(req) => {
                let status: u32 = self.set_information(&req);
                match set_buffer_length(&req.set_buffer) {
                    Some(length) => Ok(
                        single(
                            DriveResponse::ClientDriveSetInformationResponse {
                                device_io_reply: DeviceIoResponse::new(
                                    req.device_io_request,
                                    status,
                                ),
                                length,
                            },
                        ),
                    ),
                    None => Err(DriveError::LengthOverflow),
                }
            },
            ServerDriveIoRequest::DeviceControlRequest(request) => Ok(
                single(
                    DriveResponse::DeviceControlResponse {
                        device_io_reply: DeviceIoResponse::new(request, STATUS_SUCCESS),
                    },
                ),
            ),
            ServerDriveIoRequest::ServerDriveQuerySecurityRequest(request) => Ok(
                single(
                    DriveResponse::ClientDriveQuerySecurityResponse {
                        device_io_reply: DeviceIoResponse::new(request, STATUS_NOT_SUPPORTED),
                    },
                ),
            ),
            ServerDriveIoRequest::ServerDriveSetSecurityRequest(req) => {
                let length: usize = req.security_descriptor.len();
                if length as u64 <= u32::MAX as u64 {
                    Ok(
                        single(
                            DriveResponse::ClientDriveSetSecurityResponse {
                                device_io_reply: DeviceIoResponse::new(
                                    req.device_io_request,
                                    STATUS_NOT_SUPPORTED,
                                ),
                                length: length as u32,
                            },
                        ),
                    )
                } else {
                    Err(DriveError::LengthOverflow)
                }
            },
            ServerDriveIoRequest::ServerDriveNotifyChangeDirectoryRequest(request) => Ok(
                single(
                    DriveResponse::ClientDriveNotifyChangeDirectoryResponse {
                        device_io_reply: DeviceIoResponse::new(request, STATUS_NOT_SUPPORTED),
                    },
                ),
            ),
            ServerDriveIoRequest::ServerDriveLockControlRequest(request) => Ok(
                single(
                    DriveResponse::ClientDriveLockControlResponse {
                        device_io_reply: DeviceIoResponse::new(request, STATUS_NOT_SUPPORTED),
                    },
                ),
            ),
        }
    }
}

/// Where a path goes when `from` is renamed to `to`.
fn renamed_path(path: &str, from: &Vec<char>, to: &str) -> (r: String)
    ensures
        r@ == moved_path(path@, from@, to@),
{
    let chars = chars_of(path);
    if is_under(&chars, from) {
        let mut r = to.to_owned();
        append_range(&mut r, &chars, from.len(), chars.len());
        proof {
            if path@ == from@ {
                assert(r@ =~= to@);
            } else {
                assert(path@.take(from@.len() + 1int)[from@.len() as int] == '/');
                assert(r@ =~= to@.push('/') + path@.skip(from@.len() + 1int));
            }
        }
        r
    } else {
        path.to_owned()
    }
}

/// Takes the first entry that is left of an enumeration.
fn take_first(handle: &mut OpenHandle) -> (r: Option<(String, bool, usize, i64)>)
    ensures
        match r {
            Some(entry) => {
                &&& old(handle)@.children is Some
                &&& old(handle)@.children->0.len() > 0
                &&& (entry.0@, entry.1, entry.2, entry.3) == old(handle)@.children->0[0]
                &&& final(handle)@ == (HandleModel {
                    children: Some(old(handle)@.children->0.skip(1)),
                    ..old(handle)@
                })
            },
            None => {
                &&& old(handle)@.children is None || old(handle)@.children->0.len() == 0
                &&& final(handle)@ == old(handle)@
            },
        },
{
    match handle.children.take() {
        Some(mut entries) => {
            let ghost before_call = entries@;
            if entries.len() == 0 {
                handle.children = Some(entries);
                None
            } else {
                let entry = entries.remove(0);
                assert(lines(entries@) =~= lines(before_call).skip(1));
                handle.children = Some(entries);
                Some(entry)
            }
        },
        None => None,
    }
}

/// A size as far as a signed field can hold it.
fn clamp_size(size: u64) -> (r: i64)
    ensures
        r == signed_size(size as int),
{
    if size <= i64::MAX as u64 {
        size as i64
    } else {
        i64::MAX
    }
}

/// The bytes of a range.
fn bytes_between(data: &[u8], start: usize, end: usize) -> (r: Vec<u8>)
    requires
        start <= end <= data@.len(),
    ensures
        r@ == data@.subrange(start as int, end as int),
{
    let mut r: Vec<u8> = Vec::new();
    let mut i: usize = start;
    while i < end
        invariant
            start <= i <= end <= data@.len(),
            r@ == data@.subrange(start as int, i as int),
        decreases end - i,
    {
        r.push(data[i]);
        i = i + 1;
        assert(data@.subrange(start as int, i as int) =~= data@.subrange(
            start as int,
            i - 1,
        ).push(data@[i - 1]));
    }
    r
}

/// Places bytes over the content from `start` on, and behind its end.
fn overlay(data: &mut Vec<u8>, start: usize, bytes: &Vec<u8>)
    requires
        start <= old(data)@.len(),
    ensures
        final(data)@ == overlaid(old(data)@, start as int, bytes@),
{
    let ghost base = data@;
    let mut i: usize = 0;
    let mut at: usize = start;
    assert(data@ =~= overlaid(base, start as int, bytes@.take(0)));
    while i < bytes.len()
        invariant
            i <= bytes@.len(),
            start <= base.len(),
            at == start + i,
            at <= data@.len(),
            data@ == overlaid(base, start as int, bytes@.take(i as int)),
        decreases bytes@.len() - i,
    {
        if at < data.len() {
            data.set(at, bytes[i]);
        } else {
            data.push(bytes[i]);
        }
        assert(at < data.len());
        at = at + 1;
        i = i + 1;
        assert(bytes@.take(i as int) =~= bytes@.take(i - 1).push(bytes@[i - 1]));
        assert(data@ =~= overlaid(base, start as int, bytes@.take(i as int)));
    }
    assert(bytes@.take(i as int) =~= bytes@);
}

/// One answer.
fn single(response: DriveResponse) -> (r: Vec<DriveResponse>)
    ensures
        answers(r@) == seq![response@],
{
    let r = vec![response];
    assert(answers(r@) =~= seq![response@]);
    r
}

} // verus!
