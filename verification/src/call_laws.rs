//! What a caller of the drive, of its backend and of the router gets back.

use vstd::prelude::*;

use crate::backend::{messages, DriveBackendMessage, WasmDriveBackend};
use crate::backend_model::{entry_of_level, BackendModel, DriveError};
use crate::drive::{lines, seeded, DriveSeedFile, VirtualDrive, VirtualFile};
use crate::efs::{
    set_buffer_length, utf16_units, DeviceCreateRequest, DeviceIoRequest, DeviceIoResponse,
    DeviceReadRequest, DeviceWriteRequest, FileInformationClass, ServerDriveIoRequest,
    ServerDriveQueryDirectoryRequest, SetBuffer,
};
use crate::filetime::filetime_from_unix_millis;
use crate::path::{is_under, normal, normalize};
use crate::rdpdr::WasmRdpdrBackend;
use crate::response::{answers, DriveResponse, ResponseModel};
use crate::text::before;
use crate::tree_laws::{is_ancestor, is_relative, law_listed_lines, law_placing, path_in};

verus! {

/// A call of `normalize` gives the normal form of the path, or an error where it has none.
pub proof fn law_normalize_call(path: &str, r: Result<String, ()>)
    requires
        call_ensures(normalize, (path,), r) || call_ensures(VirtualDrive::normalize, (path,), r),
    ensures
        r is Err <==> normal(path@) is None,
        r is Ok ==> normal(path@) == Some(r->Ok_0@),
{
}

/// A call of `is_under` tells whether the path is the directory or goes on behind it with a slash.
pub proof fn law_is_under_call(path: &Vec<char>, dir: &Vec<char>, r: bool)
    requires
        call_ensures(is_under, (path, dir), r),
    ensures
        r <==> path@ == dir@ || (path@.len() > dir@.len() && path@.take(dir@.len() as int) == dir@
            && path@[dir@.len() as int] == '/'),
{
    if dir@.push('/').is_prefix_of(path@) {
        assert(path@.take(dir@.len() as int) =~= dir@);
        assert(dir@.push('/')[dir@.len() as int] == path@[dir@.len() as int]);
    }
    if path@.len() > dir@.len() && path@.take(dir@.len() as int) == dir@ && path@[dir@.len() as int]
        == '/' {
        assert(dir@.push('/') =~= path@.subrange(0, dir@.len() + 1int));
    }
}

/// A moment in the range of the timestamps is counted in ticks from 1601 on.
pub proof fn law_timestamp_call(millis: i64, r: i64)
    requires
        call_ensures(filetime_from_unix_millis, (millis,), r),
        i64::MIN <= millis * 10_000,
        millis * 10_000 + 116_444_736_000_000_000 <= i64::MAX,
    ensures
        r == millis * 10_000 + 116_444_736_000_000_000,
{
}

/// A call of `set_buffer_length` gives the length of the encoding, where a length field holds it.
pub proof fn law_set_length_call(set_buffer: &SetBuffer, r: Option<u32>)
    requires
        call_ensures(set_buffer_length, (set_buffer,), r),
    ensures
        set_buffer is Basic ==> r == Some(36u32),
        set_buffer is EndOfFile || set_buffer is Allocation ==> r == Some(8u32),
        set_buffer is Disposition ==> r == Some(1u32),
        *set_buffer matches SetBuffer::Rename { file_name } ==> {
            &&& r is Some <==> 8 + 2 * utf16_units(file_name@) <= u32::MAX
            &&& r is Some ==> r->0 == 8 + 2 * utf16_units(file_name@)
        },
        *set_buffer matches SetBuffer::Other { size } ==> {
            &&& r is Some <==> size <= u32::MAX
            &&& r is Some ==> r->0 == size
        },
{
}

/// The start of an answer repeats the device and the number of the request.
pub proof fn law_reply_call(request: DeviceIoRequest, io_status: u32, r: DeviceIoResponse)
    requires
        call_ensures(DeviceIoResponse::new, (request, io_status), r),
    ensures
        r.device_id == request.device_id,
        r.completion_id == request.completion_id,
        r.io_status == io_status,
{
}

/// What the drive tells of a path: whether it is a directory, and of a file its size and the
/// content that is held.
pub proof fn law_lookup_calls(
    drive: &VirtualDrive,
    path: &str,
    is_dir: bool,
    size: Option<u64>,
    data: Option<&[u8]>,
    known: Option<(bool, u64, i64)>,
)
    requires
        drive.wf(),
        call_ensures(VirtualDrive::is_dir, (drive, path), is_dir),
        call_ensures(VirtualDrive::file_size, (drive, path), size),
        call_ensures(VirtualDrive::file_data, (drive, path), data),
        call_ensures(VirtualDrive::metadata, (drive, path), known),
    ensures
        is_dir <==> drive@.directories.contains_key(path@),
        size is Some <==> drive@.files.contains_key(path@),
        size is Some ==> size->0 == drive@.files[path@].size,
        data is Some <==> drive@.files.contains_key(path@) && drive@.files[path@].data is Some,
        data is Some ==> data->0@ == drive@.files[path@].data->0,
        known is Some <==> size is Some || is_dir,
        size is Some ==> known == Some((false, size->0, drive@.files[path@].last_modified)),
        size is None && is_dir ==> known == Some((true, 0u64, drive@.directories[path@])),
{
}

/// A call of `create_file` gives access to the file at the path, which is empty where there was
/// none. No other file changes, and of the directories only missing ancestors are added.
pub proof fn law_create_file_call(
    drive: &mut VirtualDrive,
    path: String,
    file: &mut VirtualFile,
    q: Seq<char>,
)
    requires
        drive.wf(),
        is_relative(path@),
        call_ensures(VirtualDrive::create_file, (drive, path), file),
    ensures
        old(drive)@.files.contains_key(path@) ==> old(file)@ == old(drive)@.files[path@],
        !old(drive)@.files.contains_key(path@) ==> old(file)@.size == 0 && old(file)@.data == Some(
            Seq::<u8>::empty(),
        ) && old(file)@.last_modified == 133_485_408_000_000_000,
        final(drive)@.files.contains_key(path@),
        final(drive)@.files[path@] == final(file)@,
        q != path@ ==> (final(drive)@.files.contains_key(q) <==> old(drive)@.files.contains_key(q))
            && (old(drive)@.files.contains_key(q) ==> final(drive)@.files[q]
            == old(drive)@.files[q]),
        final(drive)@.directories.contains_key(q) <==> old(drive)@.directories.contains_key(q)
            || is_ancestor(q, path@),
        old(drive)@.directories.contains_key(q) ==> final(drive)@.directories[q]
            == old(drive)@.directories[q],
{
    law_placing(drive@, path@, final(file)@, q);
}

/// A call of `create_dir` makes the path and its missing ancestors directories. No file changes.
pub proof fn law_create_dir_call(drive: &mut VirtualDrive, path: String, q: Seq<char>)
    requires
        drive.wf(),
        is_relative(path@),
        call_ensures(VirtualDrive::create_dir, (drive, path), ()),
    ensures
        final(drive)@.files == old(drive)@.files,
        final(drive)@.directories.contains_key(q) <==> old(drive)@.directories.contains_key(q)
            || is_ancestor(q, path@) || q == path@,
        final(drive)@.directories[path@] == 133_485_408_000_000_000,
        q != path@ && old(drive)@.directories.contains_key(q) ==> final(drive)@.directories[q]
            == old(drive)@.directories[q],
{
    law_placing(drive@, path@, arbitrary(), q);
}

/// A call of `remove` takes the entry at the path off the drive and leaves every other one as it
/// is.
pub proof fn law_remove_call(drive: &mut VirtualDrive, path: &str, q: Seq<char>)
    requires
        drive.wf(),
        call_ensures(VirtualDrive::remove, (drive, path), ()),
    ensures
        !final(drive)@.files.contains_key(path@),
        !final(drive)@.directories.contains_key(path@),
        q != path@ ==> {
            &&& final(drive)@.files.contains_key(q) <==> old(drive)@.files.contains_key(q)
            &&& old(drive)@.files.contains_key(q) ==> final(drive)@.files[q]
                == old(drive)@.files[q]
            &&& final(drive)@.directories.contains_key(q) <==> old(drive)@.directories.contains_key(
                q,
            )
            &&& old(drive)@.directories.contains_key(q) ==> final(drive)@.directories[q]
                == old(drive)@.directories[q]
        },
{
}

/// A call of `rename` succeeds on a file and on a directory other than the root; else nothing
/// changes. What it does to the tree is what the laws of renaming say.
pub proof fn law_rename_call(drive: &mut VirtualDrive, from: &str, to: String, r: bool)
    requires
        drive.wf(),
        call_ensures(VirtualDrive::rename, (drive, from, to), r),
    ensures
        r <==> old(drive)@.files.contains_key(from@) || (old(drive)@.directories.contains_key(from@)
            && from@.len() > 0),
        r ==> Some(final(drive)@) == old(drive)@.renamed(from@, to@),
        !r ==> final(drive)@ == old(drive)@,
{
}

/// A call of `children` gives one line for each child in ascending order of names: of a file its
/// size, as far as the line can hold it, and its time; of a directory no size and its time.
pub proof fn law_children_call(
    drive: &VirtualDrive,
    dir: &str,
    r: Vec<(String, bool, usize, i64)>,
    i: int,
    j: int,
)
    requires
        drive.wf(),
        drive@.listable(dir@),
        call_ensures(VirtualDrive::children, (drive, dir), r),
        0 <= i < r@.len(),
    ensures
        drive@.is_listing(dir@, lines(r@)),
        ({
            let p = path_in(dir@, r@[i].0@);
            &&& r@[i].0@.len() > 0
            &&& !r@[i].0@.contains('/')
            &&& drive@.files.contains_key(p) ==> {
                &&& !r@[i].1
                &&& drive@.files[p].size <= usize::MAX ==> r@[i].2 == drive@.files[p].size
                &&& drive@.files[p].size > usize::MAX ==> r@[i].2 == usize::MAX
                &&& r@[i].3 == drive@.files[p].last_modified
            }
            &&& !drive@.files.contains_key(p) ==> {
                &&& drive@.directories.contains_key(p)
                &&& r@[i].1
                &&& r@[i].2 == 0
                &&& r@[i].3 == drive@.directories[p]
            }
        }),
        i < j < r@.len() ==> before(r@[i].0@, r@[j].0@),
{
    assert(lines(r@)[i].0 == r@[i].0@);
    law_listed_lines(drive@, dir@, lines(r@), i, j);
}

/// The other questions to the drive are answered as their names say.
pub proof fn law_query_calls(
    files: Vec<DriveSeedFile>,
    fresh: VirtualDrive,
    drive: &VirtualDrive,
    dir: &str,
    can_list: bool,
    requested: &str,
    target: Result<String, ()>,
)
    requires
        drive.wf(),
        call_ensures(VirtualDrive::from_seed_files, (files,), fresh),
        call_ensures(VirtualDrive::can_list, (drive, dir), can_list),
        call_ensures(VirtualDrive::directory_query_path, (drive, dir, requested), target),
    ensures
        fresh@ == seeded(files@),
        can_list <==> drive@.listable(dir@),
        target is Err <==> drive@.query_target(dir@, requested@) is None,
        target is Ok ==> drive@.query_target(dir@, requested@) == Some(target->Ok_0@),
{
}

/// A fresh backend holds the given files, and nothing is open or asked.
pub proof fn law_fresh_backend_call(files: Vec<DriveSeedFile>, backend: WasmDriveBackend)
    requires
        call_ensures(WasmDriveBackend::new, (files,), backend),
    ensures
        backend.wf(),
        backend@ == BackendModel::initial(files@),
{
}

/// Numbers of handles count up from one; after the greatest one comes one again.
pub proof fn law_allocation_call(backend: &mut WasmDriveBackend, id: u32)
    requires
        backend.wf(),
        call_ensures(WasmDriveBackend::allocate_file_id, (backend,), id),
    ensures
        id == old(backend)@.next_file_id,
        id < u32::MAX ==> final(backend)@.next_file_id == id + 1,
        id == u32::MAX ==> final(backend)@.next_file_id == 1,
        final(backend)@.drive == old(backend)@.drive,
        final(backend)@.handles == old(backend)@.handles,
        final(backend)@.created == old(backend)@.created,
        final(backend)@.next_read_request_id == old(backend)@.next_read_request_id,
        final(backend)@.pending_reads == old(backend)@.pending_reads,
        final(backend)@.outbox == old(backend)@.outbox,
{
}

/// A create request gets one answer, which the laws of creation describe, and so does what it
/// leaves behind.
pub proof fn law_create_call(
    backend: &mut WasmDriveBackend,
    req: DeviceCreateRequest,
    r: Vec<DriveResponse>,
)
    requires
        backend.wf(),
        call_ensures(WasmDriveBackend::create, (backend, req), r),
    ensures
        final(backend).wf(),
        final(backend)@ == old(backend)@.create(req).0,
        r@.len() == 1,
        r@[0]@ == old(backend)@.create(req).1,
{
    assert(answers(r@).len() == 1 && answers(r@).len() == r@.len());
    assert(answers(r@)[0] == r@[0]@);
}

/// A read request gets the answers that the laws of reading describe.
pub proof fn law_read_call(
    backend: &mut WasmDriveBackend,
    req: DeviceReadRequest,
    r: Vec<DriveResponse>,
)
    requires
        backend.wf(),
        call_ensures(WasmDriveBackend::read, (backend, req), r),
    ensures
        final(backend).wf(),
        final(backend)@ == old(backend)@.read(req).0,
        answers(r@) == old(backend)@.read(req).1,
{
}

/// A delivery gets the answers that the law of delivery describes.
pub proof fn law_delivery_call(
    backend: &mut WasmDriveBackend,
    request_id: u32,
    data: Vec<u8>,
    failed: bool,
    r: Vec<DriveResponse>,
)
    requires
        backend.wf(),
        call_ensures(WasmDriveBackend::complete_read, (backend, request_id, data, failed), r),
    ensures
        final(backend).wf(),
        final(backend)@ == old(backend)@.complete_read(request_id, data@, failed).0,
        answers(r@) == old(backend)@.complete_read(request_id, data@, failed).1,
{
}

/// A write request gets one answer, which the laws of writing describe, and so does what it
/// leaves behind.
pub proof fn law_write_call(
    backend: &mut WasmDriveBackend,
    req: DeviceWriteRequest,
    r: Vec<DriveResponse>,
)
    requires
        backend.wf(),
        call_ensures(WasmDriveBackend::write, (backend, req), r),
    ensures
        final(backend).wf(),
        final(backend)@ == old(backend)@.write(req).0,
        r@.len() == 1,
        r@[0]@ == old(backend)@.write(req).1,
{
    assert(answers(r@).len() == 1 && answers(r@).len() == r@.len());
    assert(answers(r@)[0] == r@[0]@);
}

/// A directory query gets one answer, which the laws of enumeration describe, and so does what it
/// leaves behind.
pub proof fn law_directory_call(
    backend: &mut WasmDriveBackend,
    req: ServerDriveQueryDirectoryRequest,
    r: Vec<DriveResponse>,
)
    requires
        backend.wf(),
        backend@.answerable(req),
        call_ensures(WasmDriveBackend::directory, (backend, req), r),
    ensures
        final(backend).wf(),
        final(backend)@ == old(backend)@.directory(req).0,
        r@.len() == 1,
        r@[0]@ == old(backend)@.directory(req).1,
{
    assert(answers(r@).len() == 1 && answers(r@).len() == r@.len());
    assert(answers(r@)[0] == r@[0]@);
}

/// A directory entry is made of the kind that is asked for, as the law of each class describes.
pub proof fn law_directory_info_call(
    level: u32,
    name: String,
    directory: bool,
    size: usize,
    last_modified: i64,
    r: FileInformationClass,
)
    requires
        call_ensures(
            WasmDriveBackend::directory_info,
            (level, name, directory, size, last_modified),
            r,
        ),
    ensures
        r@ == entry_of_level(level, name@, directory, size, last_modified),
{
}

/// A directory answer is put together from the start of the answer and the entry.
pub proof fn law_directory_response_call(
    request: DeviceIoRequest,
    status: u32,
    buffer: Option<FileInformationClass>,
    r: Vec<DriveResponse>,
)
    requires
        call_ensures(WasmDriveBackend::directory_response, (request, status, buffer), r),
    ensures
        r@.len() == 1,
        r@[0]@ is QueryDirectory,
        r@[0]@->QueryDirectory_reply == (DeviceIoResponse {
            device_id: request.device_id,
            completion_id: request.completion_id,
            io_status: status,
        }),
        r@[0]@->QueryDirectory_buffer is Some <==> buffer is Some,
        buffer is Some ==> r@[0]@->QueryDirectory_buffer->0 == buffer->0@,
{
    assert(answers(r@).len() == 1 && answers(r@).len() == r@.len());
    assert(answers(r@)[0] == r@[0]@);
}

/// The open handles follow a rename: the path itself and what lies below it get the new start,
/// and nothing else changes.
pub proof fn law_moved_handles_call(
    backend: &mut WasmDriveBackend,
    from: &str,
    to: &str,
    id: u32,
    tail: Seq<char>,
)
    requires
        backend.wf(),
        call_ensures(WasmDriveBackend::update_open_handle_paths, (backend, from, to), ()),
    ensures
        final(backend)@.drive == old(backend)@.drive,
        final(backend)@.created == old(backend)@.created,
        final(backend)@.next_file_id == old(backend)@.next_file_id,
        final(backend)@.next_read_request_id == old(backend)@.next_read_request_id,
        final(backend)@.pending_reads == old(backend)@.pending_reads,
        final(backend)@.outbox == old(backend)@.outbox,
        final(backend)@.handles.contains_key(id) <==> old(backend)@.handles.contains_key(id),
        old(backend)@.handles.contains_key(id) ==> ({
            let before_call = old(backend)@.handles[id];
            let after_call = final(backend)@.handles[id];
            &&& after_call.directory == before_call.directory
            &&& after_call.children == before_call.children
            &&& after_call.written == before_call.written
            &&& before_call.path == from@ ==> after_call.path == to@
            &&& before_call.path == from@.push('/') + tail ==> after_call.path == to@.push('/')
                + tail
            &&& before_call.path != from@ && !from@.push('/').is_prefix_of(before_call.path)
                ==> after_call.path == before_call.path
        }),
{
    let path = from@.push('/') + tail;
    assert(path.skip(from@.len() + 1int) =~= tail);
    assert(from@.push('/') =~= path.subrange(0, from@.len() + 1int));
}

/// Every request gets the answers that the law of dispatch describes, or the error.
pub proof fn law_request_call(
    backend: &mut WasmDriveBackend,
    req: ServerDriveIoRequest,
    r: Result<Vec<DriveResponse>, DriveError>,
)
    requires
        backend.wf(),
        backend@.can_answer(req),
        call_ensures(WasmDriveBackend::handle_drive_io_request, (backend, req), r),
    ensures
        final(backend).wf(),
        final(backend)@ == old(backend)@.handle_drive_io_request(req).0,
        r is Ok <==> old(backend)@.handle_drive_io_request(req).1 is Ok,
        r is Ok ==> answers(r->Ok_0@) == old(backend)@.handle_drive_io_request(req).1->Ok_0,
        r is Err ==> old(backend)@.handle_drive_io_request(req).1 == Err::<
            Seq<ResponseModel>,
            DriveError,
        >(r->Err_0),
{
}

/// The backend tells which requests it can serve.
pub proof fn law_question_calls(
    backend: &WasmDriveBackend,
    query: &ServerDriveQueryDirectoryRequest,
    can_list: bool,
    req: &ServerDriveIoRequest,
    can_answer: bool,
)
    requires
        backend.wf(),
        call_ensures(WasmDriveBackend::can_list, (backend, query), can_list),
        call_ensures(WasmDriveBackend::can_answer, (backend, req), can_answer),
    ensures
        can_list <==> backend@.answerable(*query),
        can_answer <==> backend@.can_answer(*req),
{
}

/// Messages are handed over once, all of them and in order, and nothing else changes.
pub proof fn law_messages_call(backend: &mut WasmDriveBackend, r: Vec<DriveBackendMessage>)
    requires
        backend.wf(),
        call_ensures(WasmDriveBackend::take_messages, (backend,), r),
    ensures
        final(backend).wf(),
        messages(r@) == old(backend)@.outbox,
        final(backend)@.outbox.len() == 0,
        final(backend)@.drive == old(backend)@.drive,
        final(backend)@.handles == old(backend)@.handles,
        final(backend)@.created == old(backend)@.created,
        final(backend)@.next_file_id == old(backend)@.next_file_id,
        final(backend)@.next_read_request_id == old(backend)@.next_read_request_id,
        final(backend)@.pending_reads == old(backend)@.pending_reads,
{
}

/// There is a router exactly where there is a drive or a printer, and it holds what it is given.
pub proof fn law_fresh_router_call<P>(
    drive: Option<WasmDriveBackend>,
    printer: Option<P>,
    r: Option<WasmRdpdrBackend<P>>,
)
    requires
        drive is Some ==> drive->0.wf(),
        call_ensures(WasmRdpdrBackend::<P>::new, (drive, printer), r),
    ensures
        r is Some <==> drive is Some || printer is Some,
        r is Some ==> {
            &&& r->0.wf()
            &&& r->0@.drive is Some <==> drive is Some
            &&& drive is Some ==> r->0@.drive == Some(drive->0@)
            &&& r->0@.printer == printer
            &&& r->0@.deferred.len() == 0
        },
{
}

/// The router tells what it has and what can be served.
pub proof fn law_router_question_calls<P>(
    router: &WasmRdpdrBackend<P>,
    has_drive: bool,
    has_printer: bool,
    req: &ServerDriveIoRequest,
    can_answer: bool,
)
    requires
        router.wf(),
        call_ensures(WasmRdpdrBackend::<P>::has_drive, (router,), has_drive),
        call_ensures(WasmRdpdrBackend::<P>::has_printer, (router,), has_printer),
        call_ensures(WasmRdpdrBackend::<P>::can_answer, (router, req), can_answer),
    ensures
        has_drive <==> router@.drive is Some,
        has_printer <==> router@.printer is Some,
        can_answer <==> !has_drive || router@.drive->0.can_answer(*req),
{
}

/// Late answers are handed over once, all of them and in order, and nothing else changes.
pub proof fn law_poll_call<P>(router: &mut WasmRdpdrBackend<P>, r: Vec<DriveResponse>)
    requires
        router.wf(),
        call_ensures(WasmRdpdrBackend::<P>::poll_deferred_messages, (router,), r),
    ensures
        final(router).wf(),
        answers(r@) == old(router)@.deferred,
        final(router)@.deferred.len() == 0,
        final(router)@.drive == old(router)@.drive,
        final(router)@.printer == old(router)@.printer,
{
}

/// Access to the printer changes the printer alone.
pub proof fn law_printer_call<P>(router: &mut WasmRdpdrBackend<P>, r: Option<&mut P>)
    requires
        router.wf(),
        call_ensures(WasmRdpdrBackend::<P>::printer_mut, (router,), r),
    ensures
        final(router).wf(),
        r is Some <==> old(router)@.printer is Some,
        final(router)@.printer is Some <==> old(router)@.printer is Some,
        r is Some ==> old(router)@.printer == Some(*r->0) && final(router)@.printer == Some(
            *final(r->0),
        ),
        final(router)@.drive == old(router)@.drive,
        final(router)@.deferred == old(router)@.deferred,
{
}

/// The router hands the messages of its drive over, and has none without a drive.
pub proof fn law_router_messages_call<P>(
    router: &mut WasmRdpdrBackend<P>,
    r: Vec<DriveBackendMessage>,
)
    requires
        router.wf(),
        call_ensures(WasmRdpdrBackend::<P>::take_messages, (router,), r),
    ensures
        final(router).wf(),
        final(router)@.printer == old(router)@.printer,
        final(router)@.deferred == old(router)@.deferred,
        final(router)@.drive is Some <==> old(router)@.drive is Some,
        old(router)@.drive is None ==> r@.len() == 0,
        old(router)@.drive is Some ==> {
            &&& messages(r@) == old(router)@.drive->0.outbox
            &&& final(router)@.drive->0 == (BackendModel {
                outbox: Seq::empty(),
                ..old(router)@.drive->0
            })
        },
{
}

/// Deliveries and requests through the router do what its laws say.
pub proof fn law_router_delivery_call<P>(
    router: &mut WasmRdpdrBackend<P>,
    request_id: u32,
    data: Vec<u8>,
    failed: bool,
    r: bool,
)
    requires
        router.wf(),
        call_ensures(
            WasmRdpdrBackend::<P>::complete_drive_read,
            (router, request_id, data, failed),
            r,
        ),
    ensures
        final(router).wf(),
        final(router)@ == old(router)@.complete_drive_read(request_id, data@, failed).0,
        r == old(router)@.complete_drive_read(request_id, data@, failed).1,
{
}

/// A request through the router is served by the drive; without a drive it is not answered.
pub proof fn law_router_request_call<P>(
    router: &mut WasmRdpdrBackend<P>,
    req: ServerDriveIoRequest,
    r: Result<Vec<DriveResponse>, DriveError>,
)
    requires
        router.wf(),
        router@.drive is Some ==> router@.drive->0.can_answer(req),
        call_ensures(WasmRdpdrBackend::<P>::handle_drive_io_request, (router, req), r),
    ensures
        final(router).wf(),
        final(router)@ == old(router)@.handle_drive_io_request(req).0,
        old(router)@.drive is None ==> r is Ok && r->Ok_0@.len() == 0,
        r is Ok <==> old(router)@.handle_drive_io_request(req).1 is Ok,
        r is Ok ==> answers(r->Ok_0@) == old(router)@.handle_drive_io_request(req).1->Ok_0,
{
    if old(router)@.drive is None && r is Ok {
        assert(answers(r->Ok_0@).len() == r->Ok_0@.len());
    }
}

} // verus!
