//! What each request does and how it is answered, in terms of what is on the drive and what is
//! open.

use vstd::prelude::*;

use crate::backend_model::{entry_of_level, BackendModel, DriveError, MessageModel};
use crate::drive::{empty_file, seeded, with_parents, DriveModel, DriveSeedFile, EntryModel};
use crate::drive_laws::is_tail;
use crate::efs::{
    level_name, set_buffer_size, status_name, DeviceCreateRequest, DeviceIoRequest,
    DeviceReadRequest, DeviceWriteRequest, InformationModel, ServerDriveIoRequest,
    ServerDriveQueryDirectoryRequest, ServerDriveQueryInformationRequest,
    ServerDriveQueryVolumeInformationRequest, ServerDriveSetInformationRequest, FILE_OPEN,
};
use crate::path::{law_normal_form_is_clean, normal, under};
use crate::response::{ResponseModel, VolumeModel};
use crate::text::decimal;
use crate::tree_laws::{
    is_ancestor, is_relative, law_listed_lines, law_placing, law_removal_is_local,
    lemma_clean_is_relative, path_in,
};

verus! {

/// The answer carries the device and the number of the request, and this outcome.
pub open spec fn answers_with(
    response: ResponseModel,
    request: DeviceIoRequest,
    io_status: u32,
) -> bool {
    &&& response.reply().device_id == request.device_id
    &&& response.reply().completion_id == request.completion_id
    &&& response.reply().io_status == io_status
}

/// How "true" and "false" are written.
pub open spec fn written_bool(b: bool) -> Seq<char> {
    if b {
        "true"@
    } else {
        "false"@
    }
}

/// When a create request succeeds. What exists opens unless it has to be new, or is a directory
/// where none is allowed, or a file where a directory is wanted. What does not exist is created
/// where the disposition says so. A rejected path is denied.
pub proof fn law_create_outcome(state: BackendModel, req: DeviceCreateRequest)
    ensures
        ({
            let response = state.create(req).1;
            let request = req.device_io_request;
            &&& response is Create
            &&& normal(req.path@) is None ==> answers_with(response, request, 0xC000_0022)
            &&& normal(req.path@) matches Some(path) ==> {
                let file = state.drive.files.contains_key(path);
                let directory = state.drive.directories.contains_key(path);
                let wants_directory = req.create_options & 0x1u32 == 0x1;
                let wants_file = req.create_options & 0x40u32 == 0x40;
                let creates = req.create_disposition == 0 || req.create_disposition == 2
                    || req.create_disposition == 3 || req.create_disposition == 5;
                let succeeds = if file || directory {
                    req.create_disposition != 2 && !(directory && wants_file) && !(file
                        && wants_directory)
                } else {
                    creates
                };
                &&& succeeds ==> answers_with(response, request, 0)
                &&& !succeeds && directory && wants_file ==> answers_with(
                    response,
                    request,
                    0xC000_0103,
                )
                &&& !succeeds && !(directory && wants_file) ==> answers_with(
                    response,
                    request,
                    0xC000_000F,
                )
            }
            &&& response.reply().io_status == 0 ==> response->Create_file_id == state.next_file_id
                && response->Create_information == if state.drive.files.contains_key(
                normal(req.path@)->0,
            ) || state.drive.directories.contains_key(normal(req.path@)->0) {
                1u8
            } else {
                2u8
            }
            &&& response.reply().io_status != 0 ==> response->Create_file_id == 0
                && response->Create_information == 0
        }),
{
}

/// A create request that fails changes nothing but the diagnostics.
pub proof fn law_failed_create(state: BackendModel, req: DeviceCreateRequest)
    requires
        state.create(req).1.reply().io_status != 0,
    ensures
        ({
            let after = state.create(req).0;
            &&& after.drive == state.drive
            &&& after.next_file_id == state.next_file_id
            &&& after.handles == state.handles
            &&& after.created == state.created
            &&& after.next_read_request_id == state.next_read_request_id
            &&& after.pending_reads == state.pending_reads
        }),
{
}

/// The handle that a successful create request opens, and what becomes of the numbers and of the
/// other handles.
pub proof fn law_opened_handle(state: BackendModel, req: DeviceCreateRequest, other: u32)
    requires
        state.create(req).1.reply().io_status == 0,
    ensures
        normal(req.path@) is Some,
        ({
            let path = normal(req.path@)->0;
            let after = state.create(req).0;
            let id = state.next_file_id;
            let there = state.drive.files.contains_key(path) || state.drive.directories.contains_key(
                path,
            );
            &&& after.handles.contains_key(id)
            &&& after.handles[id].path == path
            &&& after.handles[id].directory <==> req.create_options & 0x1u32 == 0x1
                || state.drive.directories.contains_key(path) || path.len() == 0
            &&& after.handles[id].children is None
            &&& !after.handles[id].written
            &&& after.created.contains(id) <==> !there && !after.handles[id].directory
            &&& id < u32::MAX ==> after.next_file_id == id + 1
            &&& id == u32::MAX ==> after.next_file_id == 1
            &&& other != id ==> after.handles.contains_key(other) == state.handles.contains_key(
                other,
            )
            &&& other != id && state.handles.contains_key(other) ==> after.handles[other]
                == state.handles[other]
            &&& other != id ==> after.created.contains(other) == state.created.contains(other)
            &&& after.next_read_request_id == state.next_read_request_id
            &&& after.pending_reads == state.pending_reads
        }),
{
}

/// Opening what exists leaves the whole drive as it is, unless it is a file that the disposition
/// empties; the other dispositions empty nothing.
pub proof fn law_opening_changes_nothing(state: BackendModel, req: DeviceCreateRequest)
    requires
        normal(req.path@) is Some,
        state.drive.files.contains_key(normal(req.path@)->0) || state.drive.directories.contains_key(
            normal(req.path@)->0,
        ),
        (req.create_disposition != 0 && req.create_disposition != 4 && req.create_disposition != 5)
            || state.drive.directories.contains_key(normal(req.path@)->0),
    ensures
        state.create(req).0.drive == state.drive,
{
}

/// The plain open disposition, number one, is refused where nothing is there, and neither then
/// nor else does it change the drive.
pub proof fn law_plain_open(state: BackendModel, req: DeviceCreateRequest)
    requires
        req.create_disposition == FILE_OPEN,
    ensures
        req.create_disposition == 1,
        state.create(req).0.drive == state.drive,
        normal(req.path@) matches Some(path) ==> {
            let there = state.drive.files.contains_key(path) || state.drive.directories.contains_key(
                path,
            );
            !there ==> answers_with(state.create(req).1, req.device_io_request, 0xC000_000F)
        },
{
}

/// What a successful create request does to the drive at each path. A file that is made or
/// emptied holds empty content and carries the start of 2024, a directory that is made is there,
/// no other file changes, and no directory does; only the missing ancestors are new.
pub proof fn law_created_drive(state: BackendModel, req: DeviceCreateRequest, q: Seq<char>)
    requires
        state.create(req).1.reply().io_status == 0,
    ensures
        normal(req.path@) is Some,
        ({
            let path = normal(req.path@)->0;
            let before_call = state.drive;
            let after = state.create(req).0.drive;
            let there = before_call.files.contains_key(path) || before_call.directories.contains_key(
                path,
            );
            let directory = req.create_options & 0x1u32 == 0x1
                || before_call.directories.contains_key(path) || path.len() == 0;
            let made = !there && !directory;
            let emptied = there && !directory && (req.create_disposition == 0
                || req.create_disposition == 4 || req.create_disposition == 5);
            &&& made || emptied ==> {
                &&& after.files.contains_key(path)
                &&& after.files[path].size == 0
                &&& after.files[path].data is Some
                &&& after.files[path].data->0.len() == 0
                &&& after.files[path].last_modified == 133_485_408_000_000_000
            }
            &&& !made && !emptied ==> after.files == before_call.files
            &&& q != path ==> after.files.contains_key(q) == before_call.files.contains_key(q)
            &&& q != path && before_call.files.contains_key(q) ==> after.files[q]
                == before_call.files[q]
            &&& !there && directory ==> after.directories.contains_key(path)
            &&& before_call.directories.contains_key(q) ==> after.directories.contains_key(q)
                && after.directories[q] == before_call.directories[q]
            &&& after.directories.contains_key(q) && !before_call.directories.contains_key(q) ==> (
            is_ancestor(q, path) || (q == path && !there && directory)) && after.directories[q]
                == 133_485_408_000_000_000
            &&& (!there || emptied) && is_ancestor(q, path) ==> after.directories.contains_key(q)
            &&& there && !emptied ==> after == before_call
        }),
{
    let path = normal(req.path@)->0;
    law_normal_form_is_clean(req.path@);
    lemma_clean_is_relative(path);
    law_placing(state.drive, path, empty_file(), q);
    let after = state.create(req).0.drive;
    assert(after == state.drive_opened(req, path));
    if !state.drive.exists_at(path) {
        if state.opens_directory(req, path) {
            assert(after == state.drive.with_directory(path));
        } else {
            assert(after == state.drive.with_file(path));
        }
    } else if !state.opens_directory(req, path) && (req.create_disposition == 0
        || req.create_disposition == 4 || req.create_disposition == 5) {
        assert(after == state.drive.with_file_set(path, empty_file()));
    }
}

/// What the page hears of a create request.
pub proof fn law_create_diagnostics(state: BackendModel, req: DeviceCreateRequest)
    ensures
        normal(req.path@) is None ==> state.create(req).0.outbox == state.outbox.push(
            MessageModel::Diagnostic("create rejected path="@ + req.path@),
        ),
        normal(req.path@) matches Some(path) ==> state.create(req).0.outbox == state.outbox.push(
            MessageModel::Diagnostic(
                if state.create(req).1.reply().io_status == 0 {
                    "create id="@ + decimal(state.next_file_id as nat) + " path="@ + req.path@
                        + " status=SUCCESS directory="@ + written_bool(
                        state.create(req).0.handles[state.next_file_id].directory,
                    )
                } else {
                    "create path="@ + path + " status=NO_SUCH_FILE exists="@ + written_bool(
                        state.drive.files.contains_key(path)
                            || state.drive.directories.contains_key(path),
                    ) + " directory="@ + written_bool(state.drive.directories.contains_key(path))
                },
            ),
        ),
{
}

/// A read of held content is answered at once with the bytes from the offset on, as many as are
/// asked for and there; nothing changes.
pub proof fn law_read_of_held_content(state: BackendModel, req: DeviceReadRequest, i: int)
    requires
        state.handles.contains_key(req.device_io_request.file_id),
        !state.handles[req.device_io_request.file_id].directory,
        state.drive.files.contains_key(state.handles[req.device_io_request.file_id].path),
        state.drive.files[state.handles[req.device_io_request.file_id].path].data is Some,
    ensures
        ({
            let content = state.drive.files[state.handles[req.device_io_request.file_id].path].data->0;
            let responses = state.read(req).1;
            let data = responses[0]->Read_data;
            &&& state.read(req).0 == state
            &&& responses.len() == 1
            &&& responses[0] is Read
            &&& answers_with(responses[0], req.device_io_request, 0)
            &&& req.offset >= content.len() ==> data.len() == 0
            &&& req.offset < content.len() && req.offset + req.length <= content.len()
                ==> data.len() == req.length
            &&& req.offset < content.len() && req.offset + req.length > content.len()
                ==> data.len() == content.len() - req.offset
            &&& 0 <= i < data.len() ==> data[i] == content[req.offset + i]
        }),
{
}

/// A read of a file whose content is not held asks the page for that range under the next number,
/// keeps the request under it, and is not answered yet.
pub proof fn law_read_of_a_chosen_file(state: BackendModel, req: DeviceReadRequest)
    requires
        state.handles.contains_key(req.device_io_request.file_id),
        !state.handles[req.device_io_request.file_id].directory,
        state.drive.files.contains_key(state.handles[req.device_io_request.file_id].path),
        state.drive.files[state.handles[req.device_io_request.file_id].path].data is None,
    ensures
        ({
            let (after, responses) = state.read(req);
            let id = state.next_read_request_id;
            &&& responses.len() == 0
            &&& after.pending_reads == state.pending_reads.insert(id, req)
            &&& id < u32::MAX ==> after.next_read_request_id == id + 1
            &&& id == u32::MAX ==> after.next_read_request_id == 1
            &&& after.outbox == state.outbox.push(
                MessageModel::ReadRequested {
                    request_id: id,
                    name: state.handles[req.device_io_request.file_id].path,
                    offset: req.offset,
                    length: req.length,
                },
            )
            &&& after.drive == state.drive
            &&& after.handles == state.handles
            &&& after.created == state.created
            &&& after.next_file_id == state.next_file_id
        }),
{
}

/// A read without an open file behind it finds none; nothing changes.
pub proof fn law_read_without_a_file(state: BackendModel, req: DeviceReadRequest)
    requires
        !state.handles.contains_key(req.device_io_request.file_id)
            || state.handles[req.device_io_request.file_id].directory
            || !state.drive.files.contains_key(state.handles[req.device_io_request.file_id].path),
    ensures
        state.read(req).0 == state,
        state.read(req).1.len() == 1,
        state.read(req).1[0] is Read,
        answers_with(state.read(req).1[0], req.device_io_request, 0xC000_000F),
        state.read(req).1[0]->Read_data.len() == 0,
{
}

/// A delivery for a read that waits answers it and takes it from the list; one for any other
/// number is dropped. Nothing else changes.
pub proof fn law_delivery(
    state: BackendModel,
    request_id: u32,
    data: Seq<u8>,
    failed: bool,
    other: u32,
)
    ensures
        ({
            let (after, responses) = state.complete_read(request_id, data, failed);
            let waiting = state.pending_reads.contains_key(request_id);
            let request = state.pending_reads[request_id].device_io_request;
            &&& after.drive == state.drive
            &&& after.handles == state.handles
            &&& after.created == state.created
            &&& after.next_file_id == state.next_file_id
            &&& after.next_read_request_id == state.next_read_request_id
            &&& !after.pending_reads.contains_key(request_id)
            &&& other != request_id ==> after.pending_reads.contains_key(other)
                == state.pending_reads.contains_key(other)
            &&& other != request_id && state.pending_reads.contains_key(other)
                ==> after.pending_reads[other] == state.pending_reads[other]
            &&& !waiting ==> responses.len() == 0 && after.outbox == state.outbox.push(
                MessageModel::Diagnostic(
                    "[DEBUG-rdpdrive-response] read id="@ + decimal(request_id as nat)
                        + " status=dropped reason=unknown-request"@,
                ),
            )
            &&& waiting ==> {
                &&& responses.len() == 1
                &&& responses[0] is Read
                &&& !failed ==> answers_with(responses[0], request, 0)
                    && responses[0]->Read_data == data
                &&& failed ==> answers_with(responses[0], request, 0xC000_0001)
                    && responses[0]->Read_data.len() == 0
                &&& after.outbox == state.outbox.push(
                    MessageModel::Diagnostic(
                        "[DEBUG-rdpdrive-response] read id="@ + decimal(request_id as nat)
                            + " completion="@ + decimal(request.completion_id as nat) + " path="@
                            + (if state.handles.contains_key(request.file_id) {
                            state.handles[request.file_id].path
                        } else {
                            "<missing>"@
                        }) + " status="@ + (if failed {
                            "STATUS_UNSUCCESSFUL"@
                        } else {
                            "STATUS_SUCCESS"@
                        }) + " bytes="@ + decimal(data.len()),
                    ),
                )
            }
        }),
{
}

/// The content that an open file holds before a write: none where it is not held.
pub open spec fn held(drive: DriveModel, path: Seq<char>) -> Seq<u8> {
    if drive.files.contains_key(path) && drive.files[path].data is Some {
        drive.files[path].data->0
    } else {
        Seq::empty()
    }
}

/// A write through an open file succeeds exactly when its offset is at most the length of the
/// content that is held. Then the content is the old one with the bytes placed at the offset, and
/// as long as the longer of the old content and the end of the bytes. Else the content stays.
pub proof fn law_write_outcome(state: BackendModel, req: DeviceWriteRequest, i: int)
    requires
        state.handles.contains_key(req.device_io_request.file_id),
        !state.handles[req.device_io_request.file_id].directory,
    ensures
        ({
            let path = state.handles[req.device_io_request.file_id].path;
            let base = held(state.drive, path);
            let bytes = req.write_data@;
            let (after, response) = state.write(req);
            let file = after.drive.files[path];
            let content = file.data->0;
            &&& response is Write
            &&& after.drive.files.contains_key(path)
            &&& file.data is Some
            &&& req.offset <= base.len() ==> {
                &&& answers_with(response, req.device_io_request, 0)
                &&& bytes.len() <= u32::MAX ==> response->Write_length == bytes.len()
                &&& bytes.len() > u32::MAX ==> response->Write_length == 0
                &&& req.offset + bytes.len() <= base.len() ==> content.len() == base.len()
                &&& req.offset + bytes.len() > base.len() ==> content.len() == req.offset
                    + bytes.len()
                &&& req.offset <= i < req.offset + bytes.len() ==> content[i] == bytes[i
                    - req.offset]
                &&& 0 <= i < req.offset ==> content[i] == base[i]
                &&& req.offset + bytes.len() <= i < base.len() ==> content[i] == base[i]
                &&& content.len() <= u64::MAX ==> file.size == content.len()
                &&& file.last_modified == 133_485_408_000_000_000
            }
            &&& req.offset > base.len() ==> {
                &&& answers_with(response, req.device_io_request, 0xC000_0001)
                &&& response->Write_length == 0
                &&& content == base
                &&& state.drive.files.contains_key(path) ==> file.size
                    == state.drive.files[path].size && file.last_modified
                    == state.drive.files[path].last_modified
                &&& !state.drive.files.contains_key(path) ==> file.size == 0 && file.last_modified
                    == 133_485_408_000_000_000
            }
        }),
{
}

/// A write touches its own file, the missing ancestors of it and the mark of its own handle, and
/// nothing else.
pub proof fn law_write_is_local(
    state: BackendModel,
    req: DeviceWriteRequest,
    q: Seq<char>,
    other: u32,
)
    requires
        state.handles.contains_key(req.device_io_request.file_id),
        !state.handles[req.device_io_request.file_id].directory,
    ensures
        ({
            let id = req.device_io_request.file_id;
            let path = state.handles[id].path;
            let after = state.write(req).0;
            &&& q != path ==> after.drive.files.contains_key(q) == state.drive.files.contains_key(q)
            &&& q != path && state.drive.files.contains_key(q) ==> after.drive.files[q]
                == state.drive.files[q]
            &&& is_relative(path) ==> (after.drive.directories.contains_key(q)
                <==> state.drive.directories.contains_key(q) || is_ancestor(q, path))
            &&& after.drive.directories == with_parents(state.drive.directories, path)
            &&& state.drive.directories.contains_key(q) ==> after.drive.directories[q]
                == state.drive.directories[q]
            &&& after.handles.contains_key(id)
            &&& after.handles[id].written
            &&& after.handles[id].path == path
            &&& !after.handles[id].directory
            &&& after.handles[id].children == state.handles[id].children
            &&& other != id ==> after.handles.contains_key(other) == state.handles.contains_key(
                other,
            )
            &&& other != id && state.handles.contains_key(other) ==> after.handles[other]
                == state.handles[other]
            &&& after.created == state.created
            &&& after.next_file_id == state.next_file_id
            &&& after.next_read_request_id == state.next_read_request_id
            &&& after.pending_reads == state.pending_reads
            &&& after.outbox == state.outbox
        }),
{
    let path = state.handles[req.device_io_request.file_id].path;
    law_placing(state.drive, path, state.write(req).0.drive.files[path], q);
}

/// A write without an open file behind it finds none; nothing changes.
pub proof fn law_write_without_a_file(state: BackendModel, req: DeviceWriteRequest)
    requires
        !state.handles.contains_key(req.device_io_request.file_id)
            || state.handles[req.device_io_request.file_id].directory,
    ensures
        state.write(req).0 == state,
        state.write(req).1 is Write,
        answers_with(state.write(req).1, req.device_io_request, 0xC000_000F),
        state.write(req).1->Write_length == 0,
{
}

/// After a write that succeeds, a listing that shows the file shows the length of its content for
/// its size, and a query for its standard information says the same.
pub proof fn law_written_size_is_listed(
    state: BackendModel,
    req: DeviceWriteRequest,
    query: ServerDriveQueryInformationRequest,
    dir: Seq<char>,
    list: Seq<EntryModel>,
    k: int,
)
    requires
        state.write(req).1.reply().io_status == 0,
        state.write(req).0.drive.is_listing(dir, list),
        0 <= k < list.len(),
        path_in(dir, list[k].0)
            == state.handles[req.device_io_request.file_id].path,
        query.device_io_request.file_id == req.device_io_request.file_id,
        query.file_info_class_lvl == 5,
    ensures
        ({
            let after = state.write(req).0;
            let path = state.handles[req.device_io_request.file_id].path;
            let length = after.drive.files[path].data->0.len();
            &&& after.drive.files[path].data is Some
            &&& !list[k].1
            &&& length <= usize::MAX && length <= i64::MAX ==> {
                &&& list[k].2 == length
                &&& after.query_information(query).1.reply().io_status == 0
                &&& after.query_information(query).1->QueryInformation_buffer->0 is Standard
                &&& after.query_information(
                    query,
                ).1->QueryInformation_buffer->0->Standard_0.end_of_file == length
            }
        }),
{
    law_listed_lines(state.write(req).0.drive, dir, list, k, k);
    law_write_outcome(state, req, 0);
}

/// Closing takes the handle away and is answered with success. The page gets the content that is
/// held of an open file that was created or written through the handle, and nothing else.
pub proof fn law_close(state: BackendModel, request: DeviceIoRequest, other: u32)
    ensures
        ({
            let (after, response) = state.close(request);
            let id = request.file_id;
            let handle = state.handles[id];
            let delivers = state.handles.contains_key(id) && !handle.directory && (handle.written
                || state.created.contains(id)) && state.drive.files.contains_key(handle.path)
                && state.drive.files[handle.path].data is Some;
            &&& response is Close
            &&& answers_with(response, request, 0)
            &&& !after.handles.contains_key(id)
            &&& !after.created.contains(id)
            &&& other != id ==> after.handles.contains_key(other) == state.handles.contains_key(
                other,
            ) && after.created.contains(other) == state.created.contains(other)
            &&& other != id && state.handles.contains_key(other) ==> after.handles[other]
                == state.handles[other]
            &&& delivers ==> after.outbox == state.outbox.push(
                MessageModel::Completed {
                    name: handle.path,
                    data: state.drive.files[handle.path].data->0,
                },
            )
            &&& !delivers ==> after.outbox == state.outbox
            &&& after.drive == state.drive
            &&& after.next_file_id == state.next_file_id
            &&& after.next_read_request_id == state.next_read_request_id
            &&& after.pending_reads == state.pending_reads
        }),
{
}

/// A query for what is known of a handle: timestamps and attributes, or size and kind, or
/// attributes alone, of what is at the path of the handle. Any other class is not supported, and
/// nothing changes but the diagnostics.
pub proof fn law_information(state: BackendModel, req: ServerDriveQueryInformationRequest)
    ensures
        ({
            let (after, response) = state.query_information(req);
            let request = req.device_io_request;
            let level = req.file_info_class_lvl;
            let open = state.handles.contains_key(request.file_id);
            let path = state.handles[request.file_id].path;
            let file = open && state.drive.files.contains_key(path);
            let directory = open && !file && state.drive.directories.contains_key(path);
            let attributes = if directory {
                0x10u32
            } else {
                0x20u32
            };
            let time = if directory {
                state.drive.directories[path]
            } else {
                state.drive.files[path].last_modified
            };
            let size = if directory {
                0u64
            } else {
                state.drive.files[path].size
            };
            let buffer = response->QueryInformation_buffer;
            &&& after.drive == state.drive
            &&& after.handles == state.handles
            &&& after.created == state.created
            &&& after.pending_reads == state.pending_reads
            &&& after.next_file_id == state.next_file_id
            &&& after.next_read_request_id == state.next_read_request_id
            &&& response is QueryInformation
            &&& !file && !directory ==> answers_with(response, request, 0xC000_000F) && buffer
                is None
            &&& (file || directory) && level != 4 && level != 5 && level != 35 ==> answers_with(
                response,
                request,
                0xC000_00BB,
            ) && buffer is None
            &&& (file || directory) && (level == 4 || level == 5 || level == 35) ==> answers_with(
                response,
                request,
                0,
            ) && buffer is Some
            &&& (file || directory) && level == 4 ==> {
                &&& buffer->0 is Basic
                &&& buffer->0->Basic_0.creation_time == time
                &&& buffer->0->Basic_0.last_access_time == time
                &&& buffer->0->Basic_0.last_write_time == time
                &&& buffer->0->Basic_0.change_time == time
                &&& buffer->0->Basic_0.file_attributes == attributes
            }
            &&& (file || directory) && level == 5 ==> {
                &&& buffer->0 is Standard
                &&& size <= i64::MAX ==> buffer->0->Standard_0.end_of_file == size
                    && buffer->0->Standard_0.allocation_size == size
                &&& size > i64::MAX ==> buffer->0->Standard_0.end_of_file == i64::MAX
                    && buffer->0->Standard_0.allocation_size == i64::MAX
                &&& buffer->0->Standard_0.number_of_links == 1
                &&& !buffer->0->Standard_0.delete_pending
                &&& buffer->0->Standard_0.directory == directory
            }
            &&& (file || directory) && level == 35 ==> {
                &&& buffer->0 is AttributeTag
                &&& buffer->0->AttributeTag_0.file_attributes == attributes
                &&& buffer->0->AttributeTag_0.reparse_tag == 0
            }
            &&& after.outbox == state.outbox.push(
                MessageModel::Diagnostic(
                    "query-information id="@ + decimal(request.file_id as nat) + " path="@ + (
                    if open {
                        path
                    } else {
                        "<missing>"@
                    }) + " class="@ + level_name(level) + " status="@ + status_name(
                        response.reply().io_status,
                    ),
                ),
            )
        }),
{
}

/// The volume has 262,144 units of one sector of 4096 bytes, all of them free.
pub proof fn law_volume(state: BackendModel, req: ServerDriveQueryVolumeInformationRequest)
    ensures
        ({
            let response = state.query_volume(req);
            let level = req.fs_info_class_lvl;
            let buffer = response->QueryVolume_buffer;
            &&& response is QueryVolume
            &&& level == 1 || level == 3 || level == 5 || level == 7 ==> answers_with(
                response,
                req.device_io_request,
                0,
            ) && buffer is Some
            &&& level != 1 && level != 3 && level != 5 && level != 7 ==> answers_with(
                response,
                req.device_io_request,
                0xC000_00BB,
            ) && buffer is None
            &&& level == 1 ==> buffer->0 == (VolumeModel::Volume {
                creation_time: 133_485_408_000_000_000,
                serial_number: 0x5356_4452,
                supports_objects: false,
                label: "StoneVeyl Files"@,
            })
            &&& level == 3 ==> {
                &&& buffer->0 is Size
                &&& buffer->0->Size_0.total_alloc_units == 262_144
                &&& buffer->0->Size_0.available_alloc_units == 262_144
                &&& buffer->0->Size_0.sectors_per_alloc_unit == 1
                &&& buffer->0->Size_0.bytes_per_sector == 4096
            }
            &&& level == 5 ==> buffer->0 == (VolumeModel::Attribute {
                attributes: 2u32 | 4u32,
                max_component_name_len: 255,
                name: "StoneVeyl"@,
            })
            &&& level == 7 ==> {
                &&& buffer->0 is FullSize
                &&& buffer->0->FullSize_0.total_alloc_units == 262_144
                &&& buffer->0->FullSize_0.caller_available_alloc_units == 262_144
                &&& buffer->0->FullSize_0.actual_available_alloc_units == 262_144
                &&& buffer->0->FullSize_0.sectors_per_alloc_unit == 1
                &&& buffer->0->FullSize_0.bytes_per_sector == 4096
            }
        }),
{
}

/// Deleting through a handle takes the path of the handle off the drive and leaves every file and
/// every directory at any other path as it was; no handle changes.
pub proof fn law_deletion_is_local(
    state: BackendModel,
    req: ServerDriveSetInformationRequest,
    q: Seq<char>,
)
    requires
        state.handles.contains_key(req.device_io_request.file_id),
        req.set_buffer is Disposition,
    ensures
        ({
            let path = state.handles[req.device_io_request.file_id].path;
            let (after, status) = state.set_information(req);
            &&& status == 0
            &&& !after.drive.files.contains_key(path)
            &&& !after.drive.directories.contains_key(path)
            &&& q != path ==> {
                &&& after.drive.files.contains_key(q) == state.drive.files.contains_key(q)
                &&& state.drive.files.contains_key(q) ==> after.drive.files[q]
                    == state.drive.files[q]
                &&& after.drive.directories.contains_key(q) == state.drive.directories.contains_key(
                    q,
                )
                &&& state.drive.directories.contains_key(q) ==> after.drive.directories[q]
                    == state.drive.directories[q]
            }
            &&& after.handles == state.handles
            &&& after.created == state.created
            &&& after.next_file_id == state.next_file_id
            &&& after.next_read_request_id == state.next_read_request_id
            &&& after.pending_reads == state.pending_reads
            &&& after.outbox == state.outbox
        }),
{
    law_removal_is_local(state.drive, state.handles[req.device_io_request.file_id].path, q);
}

/// A rename succeeds exactly when the new name is accepted and there is something to rename; then
/// the drive is renamed from the path of the handle to the normal form of the name, and each open
/// handle at or below the old path has the new path in its place. Else nothing changes.
pub proof fn law_rename_request(
    state: BackendModel,
    req: ServerDriveSetInformationRequest,
    id: u32,
    tail: Seq<char>,
)
    requires
        state.handles.contains_key(req.device_io_request.file_id),
        req.set_buffer is Rename,
    ensures
        ({
            let from = state.handles[req.device_io_request.file_id].path;
            let name = normal(req.set_buffer->file_name@);
            let (after, status) = state.set_information(req);
            let renamed = name is Some && (state.drive.files.contains_key(from) || (
            state.drive.directories.contains_key(from) && from.len() > 0));
            &&& renamed ==> {
                &&& status == 0
                &&& Some(after.drive) == state.drive.renamed(from, name->0)
                &&& after.handles.contains_key(id) == state.handles.contains_key(id)
                &&& state.handles.contains_key(id) ==> {
                    &&& after.handles[id].directory == state.handles[id].directory
                    &&& after.handles[id].children == state.handles[id].children
                    &&& after.handles[id].written == state.handles[id].written
                    &&& is_tail(tail) && state.handles[id].path == from + tail
                        ==> after.handles[id].path == name->0 + tail
                    &&& !under(state.handles[id].path, from) ==> after.handles[id].path
                        == state.handles[id].path
                }
                &&& after.created == state.created
                &&& after.next_file_id == state.next_file_id
                &&& after.next_read_request_id == state.next_read_request_id
                &&& after.pending_reads == state.pending_reads
                &&& after.outbox == state.outbox
            }
            &&& !renamed ==> status == 0xC000_0001 && after == state
        }),
{
    let from = state.handles[req.device_io_request.file_id].path;
    let name = normal(req.set_buffer->file_name@);
    if name is Some && is_tail(tail) {
        let to = name->0;
        let path = from + tail;
        if tail.len() == 0 {
            assert(path =~= from);
            assert(to + tail =~= to);
        } else {
            assert(path.len() != from.len());
            assert(from.push('/') =~= path.take(from.len() + 1int));
            assert(to.push('/') + path.skip(from.len() + 1int) =~= to + tail);
        }
    }
}

/// Setting anything else has no effect and succeeds on an open handle; without one nothing is set
/// at all.
pub proof fn law_other_settings(state: BackendModel, req: ServerDriveSetInformationRequest)
    ensures
        !state.handles.contains_key(req.device_io_request.file_id) ==> state.set_information(req)
            == (state, 0xC000_000Fu32),
        state.handles.contains_key(req.device_io_request.file_id) && !(req.set_buffer is Rename)
            && !(req.set_buffer is Disposition) ==> state.set_information(req) == (state, 0u32),
{
}

/// A directory query without an open directory behind it is refused; nothing changes.
pub proof fn law_query_without_a_directory(
    state: BackendModel,
    req: ServerDriveQueryDirectoryRequest,
)
    ensures
        !state.handles.contains_key(req.device_io_request.file_id) ==> state.directory(req).0
            == state && answers_with(state.directory(req).1, req.device_io_request, 0xC000_000F),
        state.handles.contains_key(req.device_io_request.file_id)
            && !state.handles[req.device_io_request.file_id].directory ==> state.directory(req).0
            == state && answers_with(state.directory(req).1, req.device_io_request, 0xC000_0103),
        !state.handles.contains_key(req.device_io_request.file_id)
            || !state.handles[req.device_io_request.file_id].directory ==> state.directory(
            req,
        ).1 is QueryDirectory && state.directory(req).1->QueryDirectory_buffer is None,
{
}

/// A directory query with a rejected path is denied; nothing changes but the diagnostics.
pub proof fn law_denied_query(state: BackendModel, req: ServerDriveQueryDirectoryRequest)
    requires
        state.handles.contains_key(req.device_io_request.file_id),
        state.handles[req.device_io_request.file_id].directory,
        req.initial_query != 0,
        state.drive.query_target(
            state.handles[req.device_io_request.file_id].path,
            req.path@,
        ) is None,
    ensures
        ({
            let (after, response) = state.directory(req);
            &&& response is QueryDirectory
            &&& answers_with(response, req.device_io_request, 0xC000_0022)
            &&& response->QueryDirectory_buffer is None
            &&& after == (BackendModel {
                outbox: state.outbox.push(
                    MessageModel::Diagnostic(
                        "directory id="@ + decimal(req.device_io_request.file_id as nat)
                            + " path="@ + req.path@ + " status=ACCESS_DENIED"@,
                    ),
                ),
                ..state
            })
        }),
{
}

/// A directory query with entries to hand out: the first of them, in the class that is asked for.
/// The four timestamps are the time of the entry, its size stands for length and allocation, and
/// its attributes tell a directory from a file. What follows is left for the next query. An
/// initial query takes the entries from the listing of its target, any other from what is left.
pub proof fn law_next_entry(
    state: BackendModel,
    req: ServerDriveQueryDirectoryRequest,
    list: Seq<EntryModel>,
    other: u32,
)
    requires
        state.handles.contains_key(req.device_io_request.file_id),
        state.handles[req.device_io_request.file_id].directory,
        list.len() > 0,
        req.initial_query == 0 ==> state.handles[req.device_io_request.file_id].children == Some(
            list,
        ),
        req.initial_query != 0 ==> (state.drive.query_target(
            state.handles[req.device_io_request.file_id].path,
            req.path@,
        ) matches Some(target) && list == state.drive.listing(target)),
    ensures
        ({
            let id = req.device_io_request.file_id;
            let (after, response) = state.directory(req);
            let info = response->QueryDirectory_buffer->0;
            let (name, directory, size, time) = list[0];
            let fields = if req.file_info_class_lvl == 1 {
                info->Directory_0
            } else if req.file_info_class_lvl == 2 {
                info->FullDirectory_0
            } else {
                info->BothDirectory_0
            };
            let text = "directory id="@ + decimal(id as nat) + " status=SUCCESS entry="@ + name
                + " directory="@ + written_bool(directory);
            &&& response is QueryDirectory
            &&& answers_with(response, req.device_io_request, 0)
            &&& response->QueryDirectory_buffer is Some
            &&& req.file_info_class_lvl == 1 ==> info is Directory
            &&& req.file_info_class_lvl == 2 ==> info is FullDirectory
            &&& req.file_info_class_lvl == 12 ==> info == (InformationModel::Names {
                next_entry_offset: 0,
                file_index: 0,
                file_name: name,
            })
            &&& req.file_info_class_lvl != 1 && req.file_info_class_lvl != 2
                && req.file_info_class_lvl != 12 ==> info is BothDirectory
            &&& req.file_info_class_lvl != 12 ==> {
                &&& fields.file_name == name
                &&& fields.creation_time == time
                &&& fields.last_access_time == time
                &&& fields.last_write_time == time
                &&& fields.change_time == time
                &&& size <= i64::MAX ==> fields.end_of_file == size && fields.allocation_size
                    == size
                &&& size > i64::MAX ==> fields.end_of_file == i64::MAX && fields.allocation_size
                    == i64::MAX
                &&& directory ==> fields.file_attributes == 0x10
                &&& !directory ==> fields.file_attributes == 0x20
                &&& fields.next_entry_offset == 0
                &&& fields.file_index == 0
            }
            &&& after.handles.contains_key(id)
            &&& after.handles[id].children == Some(list.subrange(1, list.len() as int))
            &&& after.handles[id].path == state.handles[id].path
            &&& after.handles[id].directory
            &&& after.handles[id].written == state.handles[id].written
            &&& other != id ==> after.handles.contains_key(other) == state.handles.contains_key(
                other,
            )
            &&& other != id && state.handles.contains_key(other) ==> after.handles[other]
                == state.handles[other]
            &&& after.drive == state.drive
            &&& after.created == state.created
            &&& after.next_file_id == state.next_file_id
            &&& after.next_read_request_id == state.next_read_request_id
            &&& after.pending_reads == state.pending_reads
            &&& req.initial_query == 0 ==> after.outbox == state.outbox.push(
                MessageModel::Diagnostic(text),
            )
            &&& req.initial_query != 0 ==> after.outbox == state.outbox.push(
                MessageModel::Diagnostic(
                    "directory id="@ + decimal(id as nat) + " requested="@ + req.path@
                        + " target="@ + state.drive.query_target(
                        state.handles[id].path,
                        req.path@,
                    )->0 + " entries="@ + decimal(list.len()),
                ),
            ).push(MessageModel::Diagnostic(text))
        }),
{
    assert(list.skip(1) =~= list.subrange(1, list.len() as int));
}

/// A directory query with no entry to hand out finds no file where it starts an enumeration, and
/// no more files where it goes on with one.
pub proof fn law_no_entry(
    state: BackendModel,
    req: ServerDriveQueryDirectoryRequest,
    other: u32,
)
    requires
        state.handles.contains_key(req.device_io_request.file_id),
        state.handles[req.device_io_request.file_id].directory,
        req.initial_query == 0 ==> (state.handles[req.device_io_request.file_id].children is None
            || state.handles[req.device_io_request.file_id].children->0.len() == 0),
        req.initial_query != 0 ==> (state.drive.query_target(
            state.handles[req.device_io_request.file_id].path,
            req.path@,
        ) matches Some(target) && state.drive.listing(target).len() == 0),
    ensures
        ({
            let id = req.device_io_request.file_id;
            let (after, response) = state.directory(req);
            &&& response is QueryDirectory
            &&& response->QueryDirectory_buffer is None
            &&& req.initial_query != 0 ==> answers_with(
                response,
                req.device_io_request,
                0xC000_000F,
            )
            &&& req.initial_query == 0 ==> answers_with(
                response,
                req.device_io_request,
                0x8000_0006,
            )
            &&& after.drive == state.drive
            &&& after.created == state.created
            &&& after.next_file_id == state.next_file_id
            &&& after.next_read_request_id == state.next_read_request_id
            &&& after.pending_reads == state.pending_reads
            &&& after.handles.contains_key(id)
            &&& req.initial_query == 0 ==> after.handles[id].children
                == state.handles[id].children
            &&& req.initial_query != 0 ==> after.handles[id].children is Some
                && after.handles[id].children->0.len() == 0
            &&& after.handles[id].path == state.handles[id].path
            &&& after.handles[id].directory
            &&& after.handles[id].written == state.handles[id].written
            &&& other != id ==> after.handles.contains_key(other) == state.handles.contains_key(
                other,
            )
            &&& other != id && state.handles.contains_key(other) ==> after.handles[other]
                == state.handles[other]
            &&& req.initial_query == 0 ==> after.outbox == state.outbox.push(
                MessageModel::Diagnostic(
                    "directory id="@ + decimal(id as nat) + " status="@ + "STATUS_NO_MORE_FILES"@,
                ),
            )
            &&& req.initial_query != 0 ==> after.outbox == state.outbox.push(
                MessageModel::Diagnostic(
                    "directory id="@ + decimal(id as nat) + " requested="@ + req.path@
                        + " target="@ + state.drive.query_target(
                        state.handles[id].path,
                        req.path@,
                    )->0 + " entries="@ + decimal(0),
                ),
            ).push(
                MessageModel::Diagnostic(
                    "directory id="@ + decimal(id as nat) + " status="@ + "STATUS_NO_SUCH_FILE"@,
                ),
            )
        }),
{
}

/// A request is announced by its kind and then served as such; the kinds that the drive does not
/// serve itself are answered without looking at it.
pub proof fn law_dispatch(state: BackendModel, req: ServerDriveIoRequest)
    ensures
        ({
            let kind = match req {
                ServerDriveIoRequest::ServerCreateDriveRequest(_) => "create"@,
                ServerDriveIoRequest::DeviceReadRequest(_) => "read"@,
                ServerDriveIoRequest::DeviceWriteRequest(_) => "write"@,
                ServerDriveIoRequest::DeviceCloseRequest(_) => "close"@,
                ServerDriveIoRequest::DeviceFlushBuffersRequest(_) => "flush"@,
                ServerDriveIoRequest::ServerDriveQueryDirectoryRequest(_) => "query-directory"@,
                ServerDriveIoRequest::ServerDriveQueryInformationRequest(_) =>
                    "query-information"@,
                ServerDriveIoRequest::ServerDriveQueryVolumeInformationRequest(_) =>
                    "query-volume"@,
                ServerDriveIoRequest::ServerDriveSetInformationRequest(_) => "set-information"@,
                ServerDriveIoRequest::DeviceControlRequest(_) => "device-control"@,
                ServerDriveIoRequest::ServerDriveQuerySecurityRequest(_) => "query-security"@,
                ServerDriveIoRequest::ServerDriveSetSecurityRequest(_) => "set-security"@,
                ServerDriveIoRequest::ServerDriveNotifyChangeDirectoryRequest(_) =>
                    "notify-directory"@,
                ServerDriveIoRequest::ServerDriveLockControlRequest(_) => "lock-control"@,
            };
            let noted = BackendModel {
                outbox: state.outbox.push(
                    MessageModel::Diagnostic("[DEBUG-rdpdrive-dispatch] request="@ + kind),
                ),
                ..state
            };
            let (after, result) = state.handle_drive_io_request(req);
            match req {
                ServerDriveIoRequest::ServerCreateDriveRequest(r) => after == noted.create(r).0
                    && result == Ok::<Seq<ResponseModel>, DriveError>(seq![noted.create(r).1]),
                ServerDriveIoRequest::DeviceReadRequest(r) => after == noted.read(r).0 && result
                    == Ok::<Seq<ResponseModel>, DriveError>(noted.read(r).1),
                ServerDriveIoRequest::DeviceWriteRequest(r) => after == noted.write(r).0 && result
                    == Ok::<Seq<ResponseModel>, DriveError>(seq![noted.write(r).1]),
                ServerDriveIoRequest::DeviceCloseRequest(r) => after == noted.close(r).0 && result
                    == Ok::<Seq<ResponseModel>, DriveError>(seq![noted.close(r).1]),
                ServerDriveIoRequest::ServerDriveQueryDirectoryRequest(r) => after
                    == noted.directory(r).0 && result == Ok::<Seq<ResponseModel>, DriveError>(
                    seq![noted.directory(r).1],
                ),
                ServerDriveIoRequest::ServerDriveQueryInformationRequest(r) => after
                    == noted.query_information(r).0 && result == Ok::<
                    Seq<ResponseModel>,
                    DriveError,
                >(seq![noted.query_information(r).1]),
                ServerDriveIoRequest::ServerDriveQueryVolumeInformationRequest(r) => after == noted
                    && result == Ok::<Seq<ResponseModel>, DriveError>(seq![noted.query_volume(r)]),
                ServerDriveIoRequest::ServerDriveSetInformationRequest(r) => after
                    == noted.set_information(r).0 && (result is Ok <==> set_buffer_size(
                    r.set_buffer,
                ) <= u32::MAX) && (result matches Ok(responses) ==> {
                    &&& responses.len() == 1
                    &&& responses[0] is SetInformation
                    &&& responses[0]->SetInformation_length == set_buffer_size(r.set_buffer)
                    &&& answers_with(
                        responses[0],
                        r.device_io_request,
                        noted.set_information(r).1,
                    )
                }),
                ServerDriveIoRequest::ServerDriveSetSecurityRequest(r) => after == noted && (
                result is Ok <==> r.security_descriptor@.len() <= u32::MAX) && (result matches Ok(
                    responses,
                ) ==> {
                    &&& responses.len() == 1
                    &&& responses[0] is SetSecurity
                    &&& responses[0]->SetSecurity_length == r.security_descriptor@.len()
                    &&& answers_with(responses[0], r.device_io_request, 0xC000_00BB)
                }),
                ServerDriveIoRequest::DeviceFlushBuffersRequest(r) => after == noted && (
                result matches Ok(responses) && responses.len() == 1 && responses[0] is FlushBuffers
                    && answers_with(responses[0], r, 0)),
                ServerDriveIoRequest::DeviceControlRequest(r) => after == noted && (
                result matches Ok(responses) && responses.len() == 1 && responses[0] is Control
                    && answers_with(responses[0], r, 0)),
                ServerDriveIoRequest::ServerDriveQuerySecurityRequest(r) => after == noted && (
                result matches Ok(responses) && responses.len() == 1 && responses[0] is QuerySecurity
                    && answers_with(responses[0], r, 0xC000_00BB)),
                ServerDriveIoRequest::ServerDriveNotifyChangeDirectoryRequest(r) => after == noted
                    && (result matches Ok(responses) && responses.len() == 1
                    && responses[0] is NotifyChangeDirectory && answers_with(
                    responses[0],
                    r,
                    0xC000_00BB,
                )),
                ServerDriveIoRequest::ServerDriveLockControlRequest(r) => after == noted && (
                result matches Ok(responses) && responses.len() == 1 && responses[0] is LockControl
                    && answers_with(responses[0], r, 0xC000_00BB)),
            }
        }),
{
}

/// A directory entry of each class: everything about it but its short name, which is empty, and
/// its extended attributes, which have no size.
pub proof fn law_entry_of_each_class(
    level: u32,
    name: Seq<char>,
    directory: bool,
    size: usize,
    time: i64,
)
    ensures
        ({
            let info = entry_of_level(level, name, directory, size, time);
            let fields = if level == 1 {
                info->Directory_0
            } else if level == 2 {
                info->FullDirectory_0
            } else {
                info->BothDirectory_0
            };
            &&& level == 1 ==> info is Directory && fields.ea_size is None && fields.short_name
                is None && fields.short_name_length is None
            &&& level == 2 ==> info is FullDirectory && fields.ea_size == Some(0u32)
                && fields.short_name is None && fields.short_name_length is None
            &&& level == 12 ==> info == (InformationModel::Names {
                next_entry_offset: 0,
                file_index: 0,
                file_name: name,
            })
            &&& level != 1 && level != 2 && level != 12 ==> {
                &&& info is BothDirectory
                &&& fields.ea_size == Some(0u32)
                &&& fields.short_name_length == Some(0i8)
                &&& fields.short_name is Some
                &&& fields.short_name->0.len() == 24
                &&& forall|i: int| 0 <= i < 24 ==> #[trigger] fields.short_name->0[i] == 0
            }
            &&& level != 12 ==> {
                &&& fields.file_name == name
                &&& fields.creation_time == time
                &&& fields.last_access_time == time
                &&& fields.last_write_time == time
                &&& fields.change_time == time
                &&& size <= i64::MAX ==> fields.end_of_file == size && fields.allocation_size
                    == size
                &&& size > i64::MAX ==> fields.end_of_file == i64::MAX && fields.allocation_size
                    == i64::MAX
                &&& directory ==> fields.file_attributes == 0x10
                &&& !directory ==> fields.file_attributes == 0x20
            }
        }),
{
}

/// Every request can be served but one: a directory query that starts an enumeration of a target
/// that cannot be listed.
pub proof fn law_what_can_be_answered(state: BackendModel, req: ServerDriveIoRequest)
    ensures
        !(req is ServerDriveQueryDirectoryRequest) ==> state.can_answer(req),
        req matches ServerDriveIoRequest::ServerDriveQueryDirectoryRequest(query) ==> {
            let id = query.device_io_request.file_id;
            let target = state.drive.query_target(state.handles[id].path, query.path@);
            !state.can_answer(req) <==> state.handles.contains_key(id)
                && state.handles[id].directory && query.initial_query != 0 && target is Some
                && !state.drive.listable(target->0)
        },
{
}

/// A fresh backend has the seeded drive, nothing open, nothing asked and nothing to say, and
/// numbers from one.
pub proof fn law_fresh_backend(files: Seq<DriveSeedFile>)
    ensures
        ({
            let fresh = BackendModel::initial(files);
            &&& fresh.drive == seeded(files)
            &&& fresh.next_file_id == 1
            &&& fresh.next_read_request_id == 1
            &&& forall|id: u32| !fresh.handles.contains_key(id)
            &&& forall|id: u32| !fresh.created.contains(id)
            &&& forall|id: u32| !fresh.pending_reads.contains_key(id)
            &&& fresh.outbox.len() == 0
        }),
{
}

} // verus!
