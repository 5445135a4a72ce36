//! What holds of the drive backend whatever it is asked.

use vstd::prelude::*;

use crate::backend_model::{
    empties, entry_of_level, following, moved_handles, moved_path, overlaid, range_of,
    BackendModel, HandleModel, MessageModel,
};
use crate::drive::{
    empty_file, law_listing_is_unique, seeded, subtree, DriveModel, DriveSeedFile, EntryModel,
    FileModel,
};
use crate::drive_laws::{
    is_tail, law_directories_keep_one_time, law_drive_stays_confined, law_placing_keeps_the_tree,
    law_removing_a_leaf_keeps_the_tree, law_rename_keeps_children_reachable,
    law_rename_keeps_the_tree, law_seeded_drive_is_a_tree,
    law_seeded_directories_share_one_time, law_seeded_drive_holds_given_files,
    law_seeded_drive_is_confined, law_tree_is_listable, lemma_has_tail, lemma_tail_confined,
    seed_file,
};
use crate::efs::{
    reply, DeviceCreateRequest, DeviceIoRequest, DeviceReadRequest, DeviceWriteRequest,
    ServerDriveIoRequest, ServerDriveQueryDirectoryRequest,
    ServerDriveSetInformationRequest, SetBuffer, INFORMATION_FILE_CREATED, STATUS_NO_MORE_FILES, STATUS_NO_SUCH_FILE,
    STATUS_SUCCESS, STATUS_UNSUCCESSFUL,
};
use crate::filetime::VIRTUAL_DRIVE_FILETIME;
use crate::path::{clean, confined, law_normal_form_is_clean, normal, skipped, under};
use crate::path_map::lands_on;
use crate::response::ResponseModel;
use crate::text::{lemma_split_concat, split};

verus! {

/// The name in a message to the page.
pub open spec fn named(message: MessageModel) -> Option<Seq<char>> {
    match message {
        MessageModel::ReadRequested { name, .. } => Some(name),
        MessageModel::Completed { name, .. } => Some(name),
        MessageModel::Diagnostic(_) => None,
    }
}

impl BackendModel {
    /// Neither the drive nor an open handle nor a message to the page names a path that could
    /// leave the tree.
    pub open spec fn all_confined(self) -> bool {
        &&& self.drive.all_confined()
        &&& forall|id: u32| #[trigger]
            self.handles.contains_key(id) ==> confined(self.handles[id].path)
        &&& forall|i: int|
            0 <= i < self.outbox.len() ==> (named(#[trigger] self.outbox[i]) matches Some(name)
                ==> confined(name))
    }
}

/// A fresh backend knows only confined paths, whatever the names of its files.
pub proof fn law_fresh_backend_is_confined(files: Seq<DriveSeedFile>)
    ensures
        BackendModel::initial(files).all_confined(),
{
    law_seeded_drive_is_confined(files);
}

proof fn lemma_told_confined(state: BackendModel, message: MessageModel)
    requires
        state.all_confined(),
        named(message) matches Some(name) ==> confined(name),
    ensures
        state.told(message).all_confined(),
{
    let after = state.told(message);
    assert forall|i: int| 0 <= i < after.outbox.len() implies (named(
        #[trigger] after.outbox[i],
    ) matches Some(name) ==> confined(name)) by {
        if i < state.outbox.len() {
            assert(after.outbox[i] == state.outbox[i]);
        }
    }
}

proof fn lemma_handle_confined(state: BackendModel, id: u32, handle: HandleModel)
    requires
        state.all_confined(),
        confined(handle.path),
    ensures
        (BackendModel { handles: state.handles.insert(id, handle), ..state }).all_confined(),
{
}

proof fn lemma_drive_confined(state: BackendModel, drive: DriveModel)
    requires
        state.all_confined(),
        drive.all_confined(),
    ensures
        (BackendModel { drive, ..state }).all_confined(),
{
}

proof fn lemma_create_confined(state: BackendModel, req: DeviceCreateRequest)
    requires
        state.all_confined(),
    ensures
        state.create(req).0.all_confined(),
{
    law_normal_form_is_clean(req.path@);
    if normal(req.path@) is Some && !state.refuses(req, normal(req.path@)->0) {
        let path = normal(req.path@)->0;
        law_drive_stays_confined(
            state.drive,
            path,
            path,
            empty_file(),
        );
        let drive = state.drive_opened(req, path);
        assert(drive.all_confined());
        let handle = state.create(req).0.handles[state.next_file_id];
        let opened = BackendModel { drive, ..state };
        lemma_drive_confined(state, drive);
        lemma_handle_confined(opened, state.next_file_id, handle);
        let numbered = BackendModel {
            drive,
            next_file_id: following(state.next_file_id),
            handles: state.handles.insert(state.next_file_id, handle),
            ..state
        };
        assert(numbered.all_confined());
        lemma_told_confined(numbered, state.create(req).0.outbox.last());
    } else {
        lemma_told_confined(state, state.create(req).0.outbox.last());
    }
}

proof fn lemma_write_confined(state: BackendModel, req: DeviceWriteRequest)
    requires
        state.all_confined(),
    ensures
        state.write(req).0.all_confined(),
{
    let id = req.device_io_request.file_id;
    if state.open_file(id) {
        let path = state.handles[id].path;
        let after = state.write(req).0;
        law_drive_stays_confined(state.drive, path, path, after.drive.files[path]);
        assert(after.drive == state.drive.with_file_set(path, after.drive.files[path]));
        lemma_drive_confined(state, after.drive);
        lemma_handle_confined(BackendModel { drive: after.drive, ..state }, id, after.handles[id]);
    }
}

proof fn lemma_entry_confined(
    state: BackendModel,
    req: ServerDriveQueryDirectoryRequest,
    left: Option<Seq<EntryModel>>,
)
    requires
        state.all_confined(),
        state.handles.contains_key(req.device_io_request.file_id),
    ensures
        state.next_entry(req, left).0.all_confined(),
{
    let id = req.device_io_request.file_id;
    let after = state.next_entry(req, left).0;
    lemma_handle_confined(state, id, after.handles[id]);
    lemma_told_confined(
        BackendModel { handles: state.handles.insert(id, after.handles[id]), ..state },
        after.outbox.last(),
    );
}

proof fn lemma_directory_confined(state: BackendModel, req: ServerDriveQueryDirectoryRequest)
    requires
        state.all_confined(),
    ensures
        state.directory(req).0.all_confined(),
{
    let id = req.device_io_request.file_id;
    if state.handles.contains_key(id) && state.handles[id].directory {
        if req.initial_query == 0 {
            lemma_entry_confined(state, req, state.handles[id].children);
        } else {
            match state.drive.query_target(state.handles[id].path, req.path@) {
                None => {
                    lemma_told_confined(state, state.directory(req).0.outbox.last());
                },
                Some(target) => {
                    let text = state.directory(req).0.outbox[state.outbox.len() as int];
                    lemma_told_confined(state, text);
                    lemma_entry_confined(
                        state.told(text),
                        req,
                        Some(state.drive.listing(target)),
                    );
                },
            }
        }
    }
}

proof fn lemma_set_information_confined(
    state: BackendModel,
    req: ServerDriveSetInformationRequest,
)
    requires
        state.all_confined(),
    ensures
        state.set_information(req).0.all_confined(),
{
    let id = req.device_io_request.file_id;
    if state.handles.contains_key(id) {
        let from = state.handles[id].path;
        match req.set_buffer {
            SetBuffer::Rename { file_name } => {
                law_normal_form_is_clean(file_name@);
                if let Some(to) = normal(file_name@) {
                    if let Some(drive) = state.drive.renamed(from, to) {
                        law_drive_stays_confined(
                            state.drive,
                            to,
                            from,
                            empty_file(),
                        );
                        let handles = moved_handles(state.handles, from, to);
                        assert forall|k: u32| #[trigger] handles.contains_key(k) implies confined(
                            handles[k].path,
                        ) by {
                            assert(state.handles.contains_key(k));
                            lemma_moved_confined(state.handles[k].path, from, to);
                        }
                    }
                }
            },
            SetBuffer::Disposition => {
                law_drive_stays_confined(
                    state.drive,
                    from,
                    from,
                    empty_file(),
                );
            },
            _ => {},
        }
    }
}

proof fn lemma_moved_confined(path: Seq<char>, from: Seq<char>, to: Seq<char>)
    requires
        confined(path),
        confined(to),
    ensures
        confined(moved_path(path, from, to)),
{
    if under(path, from) {
        lemma_has_tail(path, from);
        let tail = path.skip(from.len() as int);
        lemma_tail_confined(from, to, tail);
        lemma_moved_tail(from, to, tail);
    }
}

/// A path at or below `from` keeps what follows.
proof fn lemma_moved_tail(from: Seq<char>, to: Seq<char>, tail: Seq<char>)
    requires
        is_tail(tail),
    ensures
        moved_path(from + tail, from, to) == to + tail,
{
    let path = from + tail;
    if tail.len() == 0 {
        assert(path =~= from);
        assert(to + tail =~= to);
    } else {
        assert(path.len() != from.len());
        assert(from.push('/') =~= path.take(from.len() + 1int));
        assert(to.push('/') + path.skip(from.len() + 1int) =~= to + tail);
    }
}

/// No request, whatever it holds, makes the backend know a path that could leave the tree; nor
/// does what the page delivers.
pub proof fn law_requests_stay_confined(
    state: BackendModel,
    req: ServerDriveIoRequest,
    request_id: u32,
    data: Seq<u8>,
    failed: bool,
)
    requires
        state.all_confined(),
    ensures
        state.handle_drive_io_request(req).0.all_confined(),
        state.complete_read(request_id, data, failed).0.all_confined(),
{
    lemma_told_confined(state, state.handle_drive_io_request(req).0.outbox[state.outbox.len() as int]);
    let noted = state.told(state.handle_drive_io_request(req).0.outbox[state.outbox.len() as int]);
    match req {
        ServerDriveIoRequest::ServerCreateDriveRequest(req) => {
            lemma_create_confined(noted, req);
        },
        ServerDriveIoRequest::DeviceReadRequest(req) => {
            let id = req.device_io_request.file_id;
            let asked = BackendModel {
                next_read_request_id: following(noted.next_read_request_id),
                pending_reads: noted.pending_reads.insert(noted.next_read_request_id, req),
                ..noted
            };
            assert(asked.all_confined());
            if noted.read(req).1.len() == 0 {
                lemma_told_confined(asked, noted.read(req).0.outbox.last());
            }
        },
        ServerDriveIoRequest::DeviceWriteRequest(req) => {
            lemma_write_confined(noted, req);
        },
        ServerDriveIoRequest::DeviceCloseRequest(request) => {
            let closed = BackendModel { handles: noted.handles.remove(request.file_id), ..noted };
            assert(closed.all_confined());
            if noted.close(request).0.outbox != noted.outbox {
                lemma_told_confined(closed, noted.close(request).0.outbox.last());
            }
        },
        ServerDriveIoRequest::ServerDriveQueryDirectoryRequest(req) => {
            lemma_directory_confined(noted, req);
        },
        ServerDriveIoRequest::ServerDriveQueryInformationRequest(req) => {
            lemma_told_confined(noted, noted.query_information(req).0.outbox.last());
        },
        ServerDriveIoRequest::ServerDriveSetInformationRequest(req) => {
            lemma_set_information_confined(noted, req);
        },
        _ => {},
    }
    let answered = BackendModel {
        pending_reads: state.pending_reads.remove(request_id),
        ..state
    };
    assert(answered.all_confined());
    let message = state.complete_read(request_id, data, failed).0.outbox.last();
    lemma_told_confined(state, message);
    lemma_told_confined(answered, message);
}

impl BackendModel {
    /// The drive has no gaps, and every open handle has a path in normal form.
    pub open spec fn orderly(self) -> bool {
        &&& self.drive.rooted()
        &&& forall|id: u32| #[trigger]
            self.handles.contains_key(id) ==> clean(self.handles[id].path)
    }

    /// The request neither moves a path to the root or below itself, nor deletes the root or
    /// something that other entries lie below.
    pub open spec fn leaves_no_gap(self, req: ServerDriveIoRequest) -> bool {
        match req {
            ServerDriveIoRequest::ServerDriveSetInformationRequest(req) => {
                let id = req.device_io_request.file_id;
                let from = self.handles[id].path;
                self.handles.contains_key(id) ==> match req.set_buffer {
                    SetBuffer::Rename { file_name } => normal(file_name@) matches Some(to)
                        ==> to.len() > 0 && (to == from || !under(to, from)),
                    SetBuffer::Disposition => from.len() > 0 && forall|p: Seq<char>| #[trigger]
                        self.drive.exists_at(p) && under(p, from) ==> p == from,
                    _ => true,
                }
            },
            _ => true,
        }
    }
}

/// A fresh backend has no gaps, whatever the names of its files.
pub proof fn law_fresh_backend_is_orderly(files: Seq<DriveSeedFile>)
    ensures
        BackendModel::initial(files).orderly(),
{
    law_seeded_drive_is_a_tree(files);
}

/// Where the drive has no gaps, every request can be served.
pub proof fn law_orderly_backend_answers(state: BackendModel, req: ServerDriveIoRequest)
    requires
        state.orderly(),
    ensures
        state.can_answer(req),
{
    if let ServerDriveIoRequest::ServerDriveQueryDirectoryRequest(query) = req {
        let id = query.device_io_request.file_id;
        if let Some(target) = state.drive.query_target(state.handles[id].path, query.path@) {
            law_tree_is_listable(state.drive, target);
        }
    }
}

proof fn lemma_moved_clean(path: Seq<char>, from: Seq<char>, to: Seq<char>)
    requires
        clean(path),
        clean(to),
        to.len() > 0,
    ensures
        clean(moved_path(path, from, to)),
{
    lemma_moved_confined(path, from, to);
    if path != from && from.push('/').is_prefix_of(path) {
        let rest = path.skip(from.len() + 1int);
        let moved = to.push('/') + rest;
        assert(path =~= from.push('/') + rest);
        lemma_split_concat(from, rest);
        lemma_split_concat(to, rest);
        assert forall|i: int| 0 <= i < split(moved).len() implies !skipped(
            #[trigger] split(moved)[i],
        ) by {
            if i < split(to).len() {
                assert(split(moved)[i] == split(to)[i]);
            } else {
                let j = i - split(to).len();
                assert(split(moved)[i] == split(rest)[j]);
                assert(split(path)[split(from).len() + j] == split(rest)[j]);
            }
        }
    }
}

/// Every request that leaves no gap itself keeps the drive without gaps, so that requests can go
/// on being served.
pub proof fn law_requests_keep_order(state: BackendModel, req: ServerDriveIoRequest)
    requires
        state.orderly(),
        state.leaves_no_gap(req),
    ensures
        state.handle_drive_io_request(req).0.orderly(),
{
    let after = state.handle_drive_io_request(req).0;
    match req {
        ServerDriveIoRequest::ServerCreateDriveRequest(req) => {
            law_normal_form_is_clean(req.path@);
            if let Some(path) = normal(req.path@) {
                law_placing_keeps_the_tree(state.drive, path, empty_file());
            }
        },
        ServerDriveIoRequest::DeviceWriteRequest(req) => {
            let id = req.device_io_request.file_id;
            if state.open_file(id) {
                let path = state.handles[id].path;
                law_placing_keeps_the_tree(state.drive, path, after.drive.files[path]);
            }
        },
        ServerDriveIoRequest::ServerDriveSetInformationRequest(req) => {
            let id = req.device_io_request.file_id;
            if state.handles.contains_key(id) {
                let from = state.handles[id].path;
                match req.set_buffer {
                    SetBuffer::Rename { file_name } => {
                        law_normal_form_is_clean(file_name@);
                        if let Some(to) = normal(file_name@) {
                            law_rename_keeps_the_tree(state.drive, from, to);
                            assert forall|k: u32| #[trigger]
                                state.handles.contains_key(k) implies clean(
                                moved_path(state.handles[k].path, from, to),
                            ) by {
                                lemma_moved_clean(state.handles[k].path, from, to);
                            }
                        }
                    },
                    SetBuffer::Disposition => {
                        law_removing_a_leaf_keeps_the_tree(state.drive, from);
                    },
                    _ => {},
                }
            }
        },
        _ => {},
    }
}

impl BackendModel {
    /// Zero is neither an open handle nor a read that the page was asked for, and will not be the
    /// next of either.
    pub open spec fn numbers_start_at_one(self) -> bool {
        &&& self.next_file_id != 0
        &&& self.next_read_request_id != 0
        &&& !self.handles.contains_key(0)
        &&& !self.pending_reads.contains_key(0)
    }
}

/// A fresh backend numbers from one, and every request and every delivery keeps zero unused.
pub proof fn law_zero_is_never_a_number(
    files: Seq<DriveSeedFile>,
    state: BackendModel,
    req: ServerDriveIoRequest,
    request_id: u32,
    data: Seq<u8>,
    failed: bool,
)
    requires
        state.numbers_start_at_one(),
    ensures
        BackendModel::initial(files).numbers_start_at_one(),
        state.handle_drive_io_request(req).0.numbers_start_at_one(),
        state.complete_read(request_id, data, failed).0.numbers_start_at_one(),
{
}

/// What a request starts with.
pub open spec fn io_request(req: ServerDriveIoRequest) -> DeviceIoRequest {
    match req {
        ServerDriveIoRequest::ServerCreateDriveRequest(req) => req.device_io_request,
        ServerDriveIoRequest::DeviceReadRequest(req) => req.device_io_request,
        ServerDriveIoRequest::DeviceWriteRequest(req) => req.device_io_request,
        ServerDriveIoRequest::DeviceCloseRequest(request) => request,
        ServerDriveIoRequest::DeviceFlushBuffersRequest(request) => request,
        ServerDriveIoRequest::ServerDriveQueryDirectoryRequest(req) => req.device_io_request,
        ServerDriveIoRequest::ServerDriveQueryInformationRequest(req) => req.device_io_request,
        ServerDriveIoRequest::ServerDriveQueryVolumeInformationRequest(req) =>
            req.device_io_request,
        ServerDriveIoRequest::ServerDriveSetInformationRequest(req) => req.device_io_request,
        ServerDriveIoRequest::DeviceControlRequest(request) => request,
        ServerDriveIoRequest::ServerDriveQuerySecurityRequest(request) => request,
        ServerDriveIoRequest::ServerDriveSetSecurityRequest(req) => req.device_io_request,
        ServerDriveIoRequest::ServerDriveNotifyChangeDirectoryRequest(request) => request,
        ServerDriveIoRequest::ServerDriveLockControlRequest(request) => request,
    }
}

/// A request that is answered gets one answer, which carries its device and its number. Only a
/// read can go without: then the page was asked, and the request waits under a number of its own.
pub proof fn law_each_request_is_answered_once(state: BackendModel, req: ServerDriveIoRequest)
    ensures
        state.handle_drive_io_request(req).1 matches Ok(responses) ==> {
            ||| responses.len() == 1 && responses[0].reply() == reply(
                io_request(req),
                responses[0].reply().io_status,
            )
            ||| responses.len() == 0 && req is DeviceReadRequest && state.handle_drive_io_request(
                req,
            ).0.pending_reads == state.pending_reads.insert(
                state.next_read_request_id,
                req->DeviceReadRequest_0,
            )
        },
{
    let noted = state.said(
        "[DEBUG-rdpdrive-dispatch] request="@ + crate::backend_model::request_kind(req),
    );
    if let ServerDriveIoRequest::ServerDriveQueryDirectoryRequest(query) = req {
        let id = query.device_io_request.file_id;
        if let Some(target) = noted.drive.query_target(noted.handles[id].path, query.path@) {
            assert(noted.directory(query).1.reply() == reply(
                query.device_io_request,
                noted.directory(query).1.reply().io_status,
            ));
        }
    }
}

/// A pending read is answered by the first delivery alone, with the device and the number of the
/// request that asked for it; what is delivered again is dropped.
pub proof fn law_pending_read_is_answered_once(
    state: BackendModel,
    request_id: u32,
    data: Seq<u8>,
    failed: bool,
    again: Seq<u8>,
    failed_again: bool,
)
    requires
        state.pending_reads.contains_key(request_id),
    ensures
        state.complete_read(request_id, data, failed).1 == seq![
            ResponseModel::Read {
                reply: reply(
                    state.pending_reads[request_id].device_io_request,
                    if failed {
                        STATUS_UNSUCCESSFUL
                    } else {
                        STATUS_SUCCESS
                    },
                ),
                data: if failed {
                    Seq::empty()
                } else {
                    data
                },
            },
        ],
        state.complete_read(request_id, data, failed).0.complete_read(
            request_id,
            again,
            failed_again,
        ).1.len() == 0,
{
}

/// The bytes that were placed are there, and the bytes before and behind them are as before.
proof fn lemma_overlaid(data: Seq<u8>, offset: int, bytes: Seq<u8>)
    requires
        0 <= offset <= data.len(),
    ensures
        overlaid(data, offset, bytes).len() >= offset + bytes.len(),
        overlaid(data, offset, bytes).len() >= data.len(),
        overlaid(data, offset, bytes).subrange(offset, offset + bytes.len()) == bytes,
        forall|i: int|
            0 <= i < data.len() && (i < offset || i >= offset + bytes.len()) ==> overlaid(
                data,
                offset,
                bytes,
            )[i] == #[trigger] data[i],
{
    assert(overlaid(data, offset, bytes).subrange(offset, offset + bytes.len()) =~= bytes);
}

/// What was written to an open file is what a read of the same range through the same handle
/// returns, at once.
pub proof fn law_read_returns_what_was_written(
    state: BackendModel,
    write: DeviceWriteRequest,
    read: DeviceReadRequest,
)
    requires
        state.write(write).1 is Write,
        state.write(write).1.reply().io_status == STATUS_SUCCESS,
        read.device_io_request.file_id == write.device_io_request.file_id,
        read.offset == write.offset,
        read.length == write.write_data@.len(),
    ensures
        state.write(write).0.read(read).0 == state.write(write).0,
        state.write(write).0.read(read).1 == seq![
            ResponseModel::Read {
                reply: reply(read.device_io_request, STATUS_SUCCESS),
                data: write.write_data@,
            },
        ],
{
    let id = write.device_io_request.file_id;
    assert(state.open_file(id));
    let path = state.handles[id].path;
    let base = state.written_base(path);
    lemma_overlaid(base, write.offset as int, write.write_data@);
    let content = overlaid(base, write.offset as int, write.write_data@);
    assert(range_of(content, read.offset, read.length) =~= write.write_data@);
}

/// A write changes one file alone: every other file is as before, nothing is lost from the
/// directories, and held content keeps its bytes before and behind what is placed.
pub proof fn law_write_leaves_the_rest(state: BackendModel, req: DeviceWriteRequest, p: Seq<char>)
    requires
        state.drive.exists_at(p),
    ensures
        state.drive.directories.contains_key(p) ==> state.write(
            req,
        ).0.drive.directories.contains_key(p) && state.write(req).0.drive.directories[p]
            == state.drive.directories[p],
        state.drive.files.contains_key(p) && p
            != state.handles[req.device_io_request.file_id].path ==> state.write(
            req,
        ).0.drive.files.contains_key(p) && state.write(req).0.drive.files[p]
            == state.drive.files[p],
        state.drive.content(p) is Some ==> ({
            let data = state.drive.content(p)->0;
            let after = state.write(req).0.drive.content(p)->0;
            &&& state.write(req).0.drive.content(p) is Some
            &&& data.len() <= after.len()
            &&& forall|i: int|
                0 <= i < data.len() && (i < req.offset || i >= req.offset + req.write_data@.len())
                    ==> after[i] == #[trigger] data[i]
        }),
{
    let id = req.device_io_request.file_id;
    if state.open_file(id) {
        let path = state.handles[id].path;
        let base = state.written_base(path);
        if req.offset <= base.len() {
            lemma_overlaid(base, req.offset as int, req.write_data@);
        }
        if p == path && state.drive.content(p) is Some {
            assert(base == state.drive.content(p)->0);
            assert(state.write(req).0.drive.content(p) == Some(
                if req.offset <= base.len() {
                    overlaid(base, req.offset as int, req.write_data@)
                } else {
                    base
                },
            ));
        }
    }
}

/// A file that was written to through a handle is handed to the page when the handle is closed,
/// with the content that it then has.
pub proof fn law_written_file_is_delivered(
    state: BackendModel,
    write: DeviceWriteRequest,
    close: DeviceIoRequest,
)
    requires
        state.open_file(write.device_io_request.file_id),
        close.file_id == write.device_io_request.file_id,
    ensures
        ({
            let path = state.handles[close.file_id].path;
            let after = state.write(write).0;
            &&& after.drive.content(path) is Some
            &&& after.close(close).0.outbox == state.outbox.push(
                MessageModel::Completed { name: path, data: after.drive.content(path)->0 },
            )
        }),
{
}

/// A file that Windows created is handed to the page when the handle that made it is closed, also
/// where nothing was written to it.
pub proof fn law_created_file_is_delivered(
    state: BackendModel,
    create: DeviceCreateRequest,
    close: DeviceIoRequest,
)
    requires
        state.create(create).1 is Create,
        state.create(create).1->Create_information == INFORMATION_FILE_CREATED,
        close.file_id == state.create(create).1->Create_file_id,
        !state.create(create).0.handles[close.file_id].directory,
    ensures
        ({
            let path = state.create(create).0.handles[close.file_id].path;
            let after = state.create(create).0;
            &&& normal(create.path@) == Some(path)
            &&& after.drive.content(path) == Some(Seq::<u8>::empty())
            &&& after.close(close).0.outbox == after.outbox.push(
                MessageModel::Completed { name: path, data: Seq::empty() },
            )
        }),
{
}

/// Whatever happened since, closing a handle on a file that was created or written through it
/// hands the page the content that the file then has.
pub proof fn law_made_file_is_delivered(state: BackendModel, close: DeviceIoRequest)
    requires
        state.open_file(close.file_id),
        state.created.contains(close.file_id) || state.handles[close.file_id].written,
        state.drive.content(state.handles[close.file_id].path) is Some,
    ensures
        state.close(close).0.outbox == state.outbox.push(
            MessageModel::Completed {
                name: state.handles[close.file_id].path,
                data: state.drive.content(state.handles[close.file_id].path)->0,
            },
        ),
{
}

/// A handle that made its file stays open and stays marked, until it is closed or its number is
/// given out again; and so does the mark of a write.
pub proof fn law_marks_stay(state: BackendModel, req: ServerDriveIoRequest, id: u32)
    requires
        state.open_file(id),
        req is DeviceCloseRequest ==> io_request(req).file_id != id,
        req is ServerCreateDriveRequest ==> state.next_file_id != id,
    ensures
        ({
            let after = state.handle_drive_io_request(req).0;
            &&& after.open_file(id)
            &&& state.created.contains(id) ==> after.created.contains(id)
            &&& state.handles[id].written ==> after.handles[id].written
        }),
{
}

impl BackendModel {
    /// Only open files are marked as created.
    pub open spec fn marks_are_open(self) -> bool {
        forall|id: u32| #[trigger] self.created.contains(id) ==> self.open_file(id)
    }
}

/// A fresh backend marks nothing, and every request keeps the marks to open files.
pub proof fn law_only_open_files_are_marked(
    files: Seq<DriveSeedFile>,
    state: BackendModel,
    req: ServerDriveIoRequest,
)
    requires
        state.marks_are_open(),
    ensures
        BackendModel::initial(files).marks_are_open(),
        state.handle_drive_io_request(req).0.marks_are_open(),
{
    let after = state.handle_drive_io_request(req).0;
    assert forall|id: u32| #[trigger] after.created.contains(id) implies after.open_file(id) by {
        if state.created.contains(id) {
            assert(state.open_file(id));
        }
    }
}

/// A file that Windows created is read from the drive, never from the page.
pub proof fn law_created_file_is_read_from_the_drive(
    state: BackendModel,
    create: DeviceCreateRequest,
    read: DeviceReadRequest,
)
    requires
        state.create(create).1 is Create,
        state.create(create).1->Create_information == INFORMATION_FILE_CREATED,
        read.device_io_request.file_id == state.create(create).1->Create_file_id,
        !state.create(create).0.handles[read.device_io_request.file_id].directory,
    ensures
        state.create(create).0.read(read).0 == state.create(create).0,
        state.create(create).0.read(read).1 == seq![
            ResponseModel::Read {
                reply: reply(read.device_io_request, STATUS_SUCCESS),
                data: Seq::empty(),
            },
        ],
{
    assert(range_of(Seq::empty(), read.offset, read.length) =~= Seq::<u8>::empty());
}

/// Closing a handle that neither made its file nor was written to, or a directory, tells the page
/// nothing.
pub proof fn law_unwritten_file_is_not_delivered(state: BackendModel, close: DeviceIoRequest)
    requires
        state.handles.contains_key(close.file_id) ==> (!state.handles[close.file_id].written
            && !state.created.contains(close.file_id)) || state.handles[close.file_id].directory,
    ensures
        state.close(close).0.outbox == state.outbox,
{
}

/// A closed handle is gone: reads and writes through it find no file, and enumeration no handle.
/// The drive and every other handle are as before.
pub proof fn law_closed_handle_is_gone(
    state: BackendModel,
    close: DeviceIoRequest,
    read: DeviceReadRequest,
    write: DeviceWriteRequest,
    query: ServerDriveQueryDirectoryRequest,
    other: u32,
)
    requires
        read.device_io_request.file_id == close.file_id,
        write.device_io_request.file_id == close.file_id,
        query.device_io_request.file_id == close.file_id,
        other != close.file_id,
    ensures
        ({
            let after = state.close(close).0;
            &&& after.read(read).1 == seq![
                ResponseModel::Read {
                    reply: reply(read.device_io_request, STATUS_NO_SUCH_FILE),
                    data: Seq::empty(),
                },
            ]
            &&& after.write(write).1 == (ResponseModel::Write {
                reply: reply(write.device_io_request, STATUS_NO_SUCH_FILE),
                length: 0,
            })
            &&& after.directory(query).1 == (ResponseModel::QueryDirectory {
                reply: reply(query.device_io_request, STATUS_NO_SUCH_FILE),
                buffer: None,
            })
            &&& after.drive == state.drive
            &&& after.handles.contains_key(other) == state.handles.contains_key(other)
            &&& state.handles.contains_key(other) ==> after.handles[other] == state.handles[other]
        }),
{
}

/// A directory query, whatever it names, leaves the drive alone and changes nothing of any handle
/// but what is left of the enumeration of its own: an open directory is never retargeted.
pub proof fn law_enumeration_keeps_the_handle(
    state: BackendModel,
    req: ServerDriveQueryDirectoryRequest,
    id: u32,
)
    requires
        state.handles.contains_key(id),
    ensures
        ({
            let after = state.directory(req).0;
            &&& after.drive == state.drive
            &&& after.handles.contains_key(id)
            &&& after.handles[id].path == state.handles[id].path
            &&& after.handles[id].directory == state.handles[id].directory
            &&& after.handles[id].written == state.handles[id].written
            &&& id != req.device_io_request.file_id ==> after.handles[id] == state.handles[id]
        }),
{
}

/// Between two states an open directory stays open, with the same left of its enumeration.
pub open spec fn keeps_enumeration(earlier: BackendModel, later: BackendModel, id: u32) -> bool {
    &&& later.handles.contains_key(id)
    &&& later.handles[id].directory == earlier.handles[id].directory
    &&& later.handles[id].children == earlier.handles[id].children
}

/// Directory queries on one handle, each in the state given for it. The first starts an
/// enumeration and the others go on with it. Between two of them anything may happen that keeps
/// what is left.
pub open spec fn is_enumeration(
    states: Seq<BackendModel>,
    queries: Seq<ServerDriveQueryDirectoryRequest>,
    id: u32,
) -> bool {
    &&& states.len() == queries.len()
    &&& queries.len() > 0
    &&& queries[0].initial_query != 0
    &&& states[0].handles.contains_key(id)
    &&& states[0].handles[id].directory
    &&& forall|k: int|
        0 <= k < queries.len() ==> (#[trigger] queries[k]).device_io_request.file_id == id
    &&& forall|k: int| 0 < k < queries.len() ==> (#[trigger] queries[k]).initial_query == 0
    &&& forall|k: int| 0 < k < states.len() ==> #[trigger] goes_on(states, queries, id, k)
}

/// The state of the query at position `k` keeps what the query before it left.
pub open spec fn goes_on(
    states: Seq<BackendModel>,
    queries: Seq<ServerDriveQueryDirectoryRequest>,
    id: u32,
    k: int,
) -> bool {
    keeps_enumeration(states[k - 1].directory(queries[k - 1]).0, states[k], id)
}

/// What one query leaves of an enumeration.
proof fn lemma_one_query(
    state: BackendModel,
    req: ServerDriveQueryDirectoryRequest,
    left: Seq<EntryModel>,
)
    requires
        req.initial_query == 0,
        state.handles.contains_key(req.device_io_request.file_id),
        state.handles[req.device_io_request.file_id].directory,
        state.handles[req.device_io_request.file_id].children == Some(left),
    ensures
        ({
            let after = state.directory(req).0;
            let id = req.device_io_request.file_id;
            &&& after.handles.contains_key(id)
            &&& after.handles[id].directory
            &&& after.handles[id].children == Some(
                if left.len() > 0 {
                    left.skip(1)
                } else {
                    left
                },
            )
        }),
{
}

proof fn lemma_queue(
    states: Seq<BackendModel>,
    queries: Seq<ServerDriveQueryDirectoryRequest>,
    id: u32,
    target: Seq<char>,
    k: int,
)
    requires
        is_enumeration(states, queries, id),
        states[0].drive.query_target(states[0].handles[id].path, queries[0].path@) == Some(target),
        0 <= k < queries.len(),
    ensures
        ({
            let list = states[0].drive.listing(target);
            let after = states[k].directory(queries[k]).0;
            &&& after.handles.contains_key(id)
            &&& after.handles[id].directory
            &&& after.handles[id].children == Some(
                if k < list.len() {
                    list.skip(k + 1)
                } else {
                    Seq::empty()
                },
            )
        }),
    decreases k,
{
    let list = states[0].drive.listing(target);
    assert(queries[k].device_io_request.file_id == id);
    if k == 0 {
        if list.len() == 0 {
            assert(list =~= Seq::empty());
        }
    } else {
        lemma_queue(states, queries, id, target, k - 1);
        assert(queries[k].initial_query == 0);
        assert(goes_on(states, queries, id, k));
        let left = states[k].handles[id].children->0;
        lemma_one_query(states[k], queries[k], left);
        if k < list.len() {
            assert(list.skip(k).skip(1) =~= list.skip(k + 1));
        } else if k == list.len() {
            assert(left =~= Seq::empty());
        }
    }
}

/// An enumeration names each child of its target once, in the order of the listing: the query at
/// position `k` the child at position `k`, in the class that the query asks for. A target without
/// children is answered as missing, and when all children are named, every further query finds no
/// more. What else the backend serves in between makes no difference.
pub proof fn law_enumeration_names_each_child_once(
    states: Seq<BackendModel>,
    queries: Seq<ServerDriveQueryDirectoryRequest>,
    id: u32,
    target: Seq<char>,
    list: Seq<EntryModel>,
    k: int,
)
    requires
        is_enumeration(states, queries, id),
        states[0].drive.query_target(states[0].handles[id].path, queries[0].path@) == Some(target),
        states[0].drive.is_listing(target, list),
        0 <= k < queries.len(),
    ensures
        states[k].directory(queries[k]).1 == if k < list.len() {
            named_entry(queries[k], list[k])
        } else if k == 0 {
            no_entry(queries[k], STATUS_NO_SUCH_FILE)
        } else {
            no_entry(queries[k], STATUS_NO_MORE_FILES)
        },
{
    law_listing_is_unique(states[0].drive, target, states[0].drive.listing(target), list);
    assert(queries[k].device_io_request.file_id == id);
    if k > 0 {
        lemma_queue(states, queries, id, target, k - 1);
        assert(queries[k].initial_query == 0);
        assert(goes_on(states, queries, id, k));
        if k < list.len() {
            assert(list.skip(k)[0] == list[k]);
        } else if k == list.len() {
            assert(list.skip(k).len() == 0);
        }
    }
}

/// No request but a directory query on the handle itself, or its closing, touches what is left of
/// an enumeration; a number that is given out again starts afresh.
pub proof fn law_other_requests_keep_an_enumeration(
    state: BackendModel,
    req: ServerDriveIoRequest,
    id: u32,
)
    requires
        state.handles.contains_key(id),
        req is DeviceCloseRequest || req is ServerDriveQueryDirectoryRequest ==> io_request(
            req,
        ).file_id != id,
        req is ServerCreateDriveRequest ==> state.next_file_id != id,
    ensures
        keeps_enumeration(state, state.handle_drive_io_request(req).0, id),
{
}

/// The answer that names an entry.
pub open spec fn named_entry(
    req: ServerDriveQueryDirectoryRequest,
    entry: EntryModel,
) -> ResponseModel {
    ResponseModel::QueryDirectory {
        reply: reply(req.device_io_request, STATUS_SUCCESS),
        buffer: Some(
            entry_of_level(req.file_info_class_lvl, entry.0, entry.1, entry.2, entry.3),
        ),
    }
}

/// The answer that names no entry.
pub open spec fn no_entry(req: ServerDriveQueryDirectoryRequest, status: u32) -> ResponseModel {
    ResponseModel::QueryDirectory { reply: reply(req.device_io_request, status), buffer: None }
}

/// A create request that is not answered with success opens nothing and changes nothing on the
/// drive; its answer names no handle.
pub proof fn law_refused_create_changes_nothing(state: BackendModel, req: DeviceCreateRequest)
    requires
        state.create(req).1.reply().io_status != STATUS_SUCCESS,
    ensures
        state.create(req).0 == (BackendModel { outbox: state.create(req).0.outbox, ..state }),
        state.create(req).1->Create_file_id == 0,
{
}

/// A create request that is answered with success opens a handle on the normal form of its path,
/// and something is there: a directory where the handle is one and not on the root, a file where
/// the handle is none, and a file that holds empty content where the request asked to empty it or
/// nothing was there before.
pub proof fn law_created_path_exists(state: BackendModel, req: DeviceCreateRequest)
    requires
        state.create(req).1.reply().io_status == STATUS_SUCCESS,
    ensures
        normal(req.path@) is Some,
        ({
            let path = normal(req.path@)->0;
            let after = state.create(req).0;
            let id = state.create(req).1->Create_file_id;
            &&& after.handles.contains_key(id)
            &&& after.handles[id].path == path
            &&& !after.handles[id].written
            &&& after.drive.exists_at(path)
            &&& after.handles[id].directory && path.len() > 0
                ==> after.drive.directories.contains_key(path)
            &&& !after.handles[id].directory ==> after.drive.files.contains_key(path)
            &&& !after.handles[id].directory && (empties(req.create_disposition)
                || !state.drive.exists_at(path)) ==> after.drive.files[path] == empty_file()
        }),
{
}

/// Flushing, control, queries and what the drive does not support leave everything as it is but
/// for the diagnostics.
pub proof fn law_queries_change_nothing(state: BackendModel, req: ServerDriveIoRequest)
    requires
        req is DeviceFlushBuffersRequest || req is ServerDriveQueryInformationRequest
            || req is ServerDriveQueryVolumeInformationRequest || req is DeviceControlRequest
            || req is ServerDriveQuerySecurityRequest || req is ServerDriveSetSecurityRequest
            || req is ServerDriveNotifyChangeDirectoryRequest
            || req is ServerDriveLockControlRequest,
    ensures
        state.handle_drive_io_request(req).0 == (BackendModel {
            outbox: state.handle_drive_io_request(req).0.outbox,
            ..state
        }),
{
}

/// Messages to the page are only added, never taken back or changed.
pub proof fn law_messages_are_only_added(
    state: BackendModel,
    req: ServerDriveIoRequest,
    request_id: u32,
    data: Seq<u8>,
    failed: bool,
)
    ensures
        state.outbox.is_prefix_of(state.handle_drive_io_request(req).0.outbox),
        state.outbox.is_prefix_of(state.complete_read(request_id, data, failed).0.outbox),
{
}

/// After a rename the open handles still lead to what they were opened on: the file behind a
/// handle on the renamed path, or below a renamed directory, is the same file.
pub proof fn law_handles_follow_a_rename(
    state: BackendModel,
    req: ServerDriveSetInformationRequest,
    id: u32,
)
    requires
        state.set_information(req).1 == STATUS_SUCCESS,
        req.set_buffer is Rename,
        state.handles.contains_key(id),
        state.drive.files.contains_key(state.handles[id].path),
        ({
            let from = state.handles[req.device_io_request.file_id].path;
            let path = state.handles[id].path;
            path == from || !state.drive.files.contains_key(from) && under(path, from)
        }),
    ensures
        ({
            let after = state.set_information(req).0;
            &&& after.handles.contains_key(id)
            &&& after.drive.files.contains_key(after.handles[id].path)
            &&& after.drive.files[after.handles[id].path]
                == state.drive.files[state.handles[id].path]
        }),
{
    let from = state.handles[req.device_io_request.file_id].path;
    let path = state.handles[id].path;
    let to = normal(req.set_buffer->file_name@)->0;
    lemma_has_tail(path, from);
    let tail = path.skip(from.len() as int);
    lemma_moved_tail(from, to, tail);
    if state.drive.files.contains_key(from) {
        assert(to + tail =~= to);
    } else {
        law_rename_keeps_children_reachable(state.drive, from, to, tail);
    }
}

/// A fresh drive holds no content: a chosen file is read from the page when Windows asks for it.
pub proof fn law_chosen_files_are_read_from_the_page(
    files: Seq<DriveSeedFile>,
    state: BackendModel,
    read: DeviceReadRequest,
)
    requires
        state.drive == seeded(files),
        state.open_file(read.device_io_request.file_id),
        state.drive.files.contains_key(state.handles[read.device_io_request.file_id].path),
    ensures
        state.read(read).1.len() == 0,
        state.read(read).0.outbox == state.outbox.push(
            MessageModel::ReadRequested {
                request_id: state.next_read_request_id,
                name: state.handles[read.device_io_request.file_id].path,
                offset: read.offset,
                length: read.length,
            },
        ),
{
    lemma_seeded_content(files, state.handles[read.device_io_request.file_id].path);
}

proof fn lemma_seeded_content(files: Seq<DriveSeedFile>, p: Seq<char>)
    ensures
        seeded(files).content(p) is None,
    decreases files.len(),
{
    if files.len() > 0 {
        lemma_seeded_content(files.drop_last(), p);
    }
}

/// A write that succeeds leaves a file whose size is the length of its content.
pub proof fn law_written_size_is_the_content_length(state: BackendModel, req: DeviceWriteRequest)
    requires
        state.write(req).1.reply().io_status == STATUS_SUCCESS,
    ensures
        ({
            let path = state.handles[req.device_io_request.file_id].path;
            let after = state.write(req).0.drive;
            &&& after.content(path) is Some
            &&& after.content(path)->0.len() <= u64::MAX ==> after.metadata(path) == Some(
                (false, after.content(path)->0.len() as u64, VIRTUAL_DRIVE_FILETIME),
            )
        }),
{
}

/// What was deleted through a handle is gone, and reads through the handle find no file.
pub proof fn law_deleted_path_is_gone(
    state: BackendModel,
    req: ServerDriveSetInformationRequest,
    read: DeviceReadRequest,
)
    requires
        state.handles.contains_key(req.device_io_request.file_id),
        req.set_buffer is Disposition,
        read.device_io_request.file_id == req.device_io_request.file_id,
    ensures
        ({
            let after = state.set_information(req).0;
            &&& !after.drive.exists_at(state.handles[req.device_io_request.file_id].path)
            &&& after.read(read).1 == seq![
                ResponseModel::Read {
                    reply: reply(read.device_io_request, STATUS_NO_SUCH_FILE),
                    data: Seq::empty(),
                },
            ]
        }),
{
}

impl BackendModel {
    /// Every open handle and every pending read has a number that was given out already.
    pub open spec fn numbers_ascend(self) -> bool {
        &&& forall|id: u32| #[trigger] self.handles.contains_key(id) ==> id < self.next_file_id
        &&& forall|id: u32| #[trigger]
            self.pending_reads.contains_key(id) ==> id < self.next_read_request_id
    }
}

/// Until the numbers run out, a new handle never takes the place of an open one, nor a new
/// pending read the place of another.
pub proof fn law_numbers_are_not_reused(state: BackendModel, req: ServerDriveIoRequest)
    requires
        state.numbers_ascend(),
        state.next_file_id < u32::MAX,
        state.next_read_request_id < u32::MAX,
    ensures
        state.handle_drive_io_request(req).0.numbers_ascend(),
        req is ServerCreateDriveRequest ==> forall|id: u32| #[trigger]
            state.handles.contains_key(id) ==> state.handle_drive_io_request(
                req,
            ).0.handles.contains_key(id) && state.handle_drive_io_request(req).0.handles[id]
                == state.handles[id],
        forall|id: u32| #[trigger]
            state.pending_reads.contains_key(id) ==> state.handle_drive_io_request(
                req,
            ).0.pending_reads.contains_key(id) && state.handle_drive_io_request(
                req,
            ).0.pending_reads[id] == state.pending_reads[id],
{
}

impl BackendModel {
    /// Every file whose content the drive does not hold is one of the chosen files.
    pub open spec fn holds_all_but_chosen(self, files: Seq<DriveSeedFile>) -> bool {
        forall|p: Seq<char>| #[trigger]
            self.drive.files.contains_key(p) && self.drive.files[p].data is None
                ==> is_chosen(files, self.drive.files[p])
    }
}

/// The file stands for one of the chosen files, with its size and its time.
pub open spec fn is_chosen(files: Seq<DriveSeedFile>, file: FileModel) -> bool {
    exists|i: int| 0 <= i < files.len() && file == seed_file(#[trigger] files[i])
}

/// The page is only ever asked for what it chose: on a fresh backend the content of no other file
/// is missing, and every request keeps it so.
pub proof fn law_page_is_asked_for_chosen_files_alone(
    files: Seq<DriveSeedFile>,
    state: BackendModel,
    req: ServerDriveIoRequest,
    read: DeviceReadRequest,
)
    requires
        state.holds_all_but_chosen(files),
    ensures
        BackendModel::initial(files).holds_all_but_chosen(files),
        state.handle_drive_io_request(req).0.holds_all_but_chosen(files),
        state.read(read).1.len() == 0 ==> is_chosen(
            files,
            state.drive.files[state.handles[read.device_io_request.file_id].path],
        ),
{
    let fresh = BackendModel::initial(files);
    assert forall|p: Seq<char>| #[trigger]
        fresh.drive.files.contains_key(p) && fresh.drive.files[p].data is None implies is_chosen(
        files,
        fresh.drive.files[p],
    ) by {
        law_seeded_drive_holds_given_files(files, p);
    }
    let after = state.handle_drive_io_request(req).0;
    assert forall|p: Seq<char>| #[trigger]
        after.drive.files.contains_key(p) && after.drive.files[p].data is None implies is_chosen(
        files,
        after.drive.files[p],
    ) by {
        if let ServerDriveIoRequest::ServerDriveSetInformationRequest(set) = req {
            if let SetBuffer::Rename { file_name } = set.set_buffer {
                let from = state.handles[set.device_io_request.file_id].path;
                let to = normal(file_name@)->0;
                if after.drive != state.drive {
                    lemma_renamed_file(state.drive, from, to, p);
                }
            }
        }
    }
}

/// Every file on a drive after a rename was on it before.
proof fn lemma_renamed_file(drive: DriveModel, from: Seq<char>, to: Seq<char>, p: Seq<char>)
    requires
        drive.renamed(from, to) is Some,
        drive.renamed(from, to)->0.files.contains_key(p),
    ensures
        exists|q: Seq<char>| #[trigger]
            drive.files.contains_key(q) && drive.files[q] == drive.renamed(from, to)->0.files[p],
{
    let after = drive.renamed(from, to)->0;
    if drive.files.contains_key(from) {
        if p == to {
            assert(drive.files.contains_key(from));
        } else {
            assert(drive.files.contains_key(p));
        }
    } else if lands_on(subtree(drive.files, from), from, to, p) {
        assert(drive.files.contains_key(from + p.skip(to.len() as int)));
    } else {
        assert(drive.files.contains_key(p));
    }
}

/// The timestamp of the directories is fixed for the life of the drive: every directory of a
/// fresh backend carries it, and after every request every directory still does.
pub proof fn law_requests_keep_one_directory_time(
    files: Seq<DriveSeedFile>,
    state: BackendModel,
    req: ServerDriveIoRequest,
)
    requires
        state.drive.directories_share_one_time(),
    ensures
        BackendModel::initial(files).drive.directories_share_one_time(),
        state.handle_drive_io_request(req).0.drive.directories_share_one_time(),
{
    law_seeded_directories_share_one_time(files);
    let after = state.handle_drive_io_request(req).0;
    match req {
        ServerDriveIoRequest::ServerCreateDriveRequest(create) => {
            if let Some(path) = normal(create.path@) {
                law_directories_keep_one_time(state.drive, path, path, empty_file());
            }
        },
        ServerDriveIoRequest::DeviceWriteRequest(write) => {
            let path = state.handles[write.device_io_request.file_id].path;
            law_directories_keep_one_time(state.drive, path, path, after.drive.files[path]);
        },
        ServerDriveIoRequest::ServerDriveSetInformationRequest(set) => {
            let from = state.handles[set.device_io_request.file_id].path;
            law_directories_keep_one_time(state.drive, from, from, empty_file());
            if let SetBuffer::Rename { file_name } = set.set_buffer {
                if let Some(to) = normal(file_name@) {
                    law_directories_keep_one_time(state.drive, to, from, empty_file());
                }
            }
        },
        _ => {},
    }
}

} // verus!
