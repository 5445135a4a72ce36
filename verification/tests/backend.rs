//! The drive backend, request by request.

use ironrdp_web::backend::{DriveBackendMessage, WasmDriveBackend};
use ironrdp_web::drive::DriveSeedFile;
use ironrdp_web::efs::{
    DeviceCreateRequest, DeviceIoRequest, DeviceIoResponse, DeviceReadRequest, DeviceWriteRequest,
    FileInformationClass, ServerDriveIoRequest, ServerDriveQueryDirectoryRequest,
    ServerDriveQueryInformationRequest, ServerDriveQueryVolumeInformationRequest,
    ServerDriveSetInformationRequest, ServerDriveSetSecurityRequest, SetBuffer,
    FILE_ATTRIBUTE_TAG_INFORMATION, FILE_BASIC_INFORMATION, FILE_BOTH_DIRECTORY_INFORMATION,
    FILE_CREATE, FILE_DIRECTORY_FILE, FILE_FS_ATTRIBUTE_INFORMATION, FILE_FS_FULL_SIZE_INFORMATION,
    FILE_FS_SIZE_INFORMATION, FILE_FS_VOLUME_INFORMATION, FILE_NAMES_INFORMATION,
    FILE_NON_DIRECTORY_FILE, FILE_OPEN, FILE_OPEN_IF, FILE_OVERWRITE, FILE_OVERWRITE_IF,
    FILE_STANDARD_INFORMATION, FILE_SUPERSEDE, INFORMATION_FILE_CREATED, INFORMATION_FILE_OPENED,
    INFORMATION_NONE, STATUS_ACCESS_DENIED, STATUS_NOT_A_DIRECTORY, STATUS_NOT_SUPPORTED,
    STATUS_NO_MORE_FILES, STATUS_NO_SUCH_FILE, STATUS_SUCCESS, STATUS_UNSUCCESSFUL,
};
use ironrdp_web::filetime::{filetime_from_unix_millis, VIRTUAL_DRIVE_FILETIME};
use ironrdp_web::response::{DriveResponse, FileSystemInformationClass};

const TIME: i64 = 1_704_067_200_000;

fn backend(files: &[(&str, u64)]) -> WasmDriveBackend {
    WasmDriveBackend::new(
        files
            .iter()
            .map(|(name, size)| DriveSeedFile {
                name: (*name).to_owned(),
                size: *size,
                last_modified: TIME,
            })
            .collect(),
    )
}

fn io(file_id: u32) -> DeviceIoRequest {
    DeviceIoRequest { device_id: 7, file_id, completion_id: 100 + file_id }
}

fn serve(b: &mut WasmDriveBackend, req: ServerDriveIoRequest) -> Vec<DriveResponse> {
    assert!(b.can_answer(&req));
    b.handle_drive_io_request(req).expect("answer")
}

fn open(
    b: &mut WasmDriveBackend,
    path: &str,
    create_disposition: u32,
    create_options: u32,
) -> (u32, u32, u8) {
    let req = ServerDriveIoRequest::ServerCreateDriveRequest(DeviceCreateRequest {
        device_io_request: io(0),
        create_disposition,
        create_options,
        path: path.to_owned(),
    });
    match serve(b, req).as_slice() {
        [DriveResponse::DeviceCreateResponse { device_io_reply, file_id, information }] => {
            (device_io_reply.io_status, *file_id, *information)
        }
        _ => panic!("one create response"),
    }
}

fn opened(b: &mut WasmDriveBackend, path: &str) -> u32 {
    let (status, id, _) = open(b, path, FILE_OPEN_IF, 0);
    assert_eq!(status, STATUS_SUCCESS);
    id
}

fn write(b: &mut WasmDriveBackend, id: u32, offset: u64, bytes: &[u8]) -> (u32, u32) {
    let req = ServerDriveIoRequest::DeviceWriteRequest(DeviceWriteRequest {
        device_io_request: io(id),
        offset,
        write_data: bytes.to_vec(),
    });
    match serve(b, req).as_slice() {
        [DriveResponse::DeviceWriteResponse { device_io_reply, length }] => {
            (device_io_reply.io_status, *length)
        }
        _ => panic!("one write response"),
    }
}

fn read(b: &mut WasmDriveBackend, id: u32, offset: u64, length: u32) -> Option<(u32, Vec<u8>)> {
    let req = ServerDriveIoRequest::DeviceReadRequest(DeviceReadRequest {
        device_io_request: io(id),
        length,
        offset,
    });
    read_result(serve(b, req))
}

fn read_result(responses: Vec<DriveResponse>) -> Option<(u32, Vec<u8>)> {
    match responses.into_iter().next() {
        Some(DriveResponse::DeviceReadResponse { device_io_reply, read_data }) => {
            Some((device_io_reply.io_status, read_data))
        }
        Some(_) => panic!("read response"),
        None => None,
    }
}

fn close(b: &mut WasmDriveBackend, id: u32) {
    let responses = serve(b, ServerDriveIoRequest::DeviceCloseRequest(io(id)));
    match responses.as_slice() {
        [DriveResponse::DeviceCloseResponse { device_io_reply }] => {
            assert_eq!(device_io_reply.io_status, STATUS_SUCCESS);
        }
        _ => panic!("one close response"),
    }
}

fn query(
    b: &mut WasmDriveBackend,
    id: u32,
    initial_query: u8,
    path: &str,
) -> (u32, Option<String>) {
    let req = ServerDriveIoRequest::ServerDriveQueryDirectoryRequest(
        ServerDriveQueryDirectoryRequest {
            device_io_request: io(id),
            file_info_class_lvl: FILE_NAMES_INFORMATION,
            initial_query,
            path: path.to_owned(),
        },
    );
    match serve(b, req).into_iter().next() {
        Some(DriveResponse::ClientDriveQueryDirectoryResponse { device_io_reply, buffer }) => {
            let name = match buffer {
                Some(FileInformationClass::Names(names)) => Some(names.file_name),
                Some(_) => panic!("names"),
                None => None,
            };
            (device_io_reply.io_status, name)
        }
        _ => panic!("directory response"),
    }
}

fn information(b: &mut WasmDriveBackend, id: u32, level: u32) -> (u32, Option<FileInformationClass>) {
    let req = ServerDriveIoRequest::ServerDriveQueryInformationRequest(
        ServerDriveQueryInformationRequest { device_io_request: io(id), file_info_class_lvl: level },
    );
    match serve(b, req).into_iter().next() {
        Some(DriveResponse::ClientDriveQueryInformationResponse { device_io_reply, buffer }) => {
            (device_io_reply.io_status, buffer)
        }
        _ => panic!("information response"),
    }
}

fn set(b: &mut WasmDriveBackend, id: u32, set_buffer: SetBuffer) -> (u32, u32) {
    let req = ServerDriveIoRequest::ServerDriveSetInformationRequest(
        ServerDriveSetInformationRequest { device_io_request: io(id), set_buffer },
    );
    match serve(b, req).as_slice() {
        [DriveResponse::ClientDriveSetInformationResponse { device_io_reply, length }] => {
            (device_io_reply.io_status, *length)
        }
        _ => panic!("set-information response"),
    }
}

fn rename(b: &mut WasmDriveBackend, id: u32, to: &str) -> u32 {
    set(b, id, SetBuffer::Rename { file_name: to.to_owned() }).0
}

fn volume(b: &mut WasmDriveBackend, level: u32) -> (u32, Option<FileSystemInformationClass>) {
    let req = ServerDriveIoRequest::ServerDriveQueryVolumeInformationRequest(
        ServerDriveQueryVolumeInformationRequest {
            device_io_request: io(0),
            fs_info_class_lvl: level,
        },
    );
    match serve(b, req).into_iter().next() {
        Some(DriveResponse::ClientDriveQueryVolumeInformationResponse {
            device_io_reply,
            buffer,
        }) => (device_io_reply.io_status, buffer),
        _ => panic!("volume response"),
    }
}

fn diagnostics(b: &mut WasmDriveBackend) -> Vec<String> {
    b.take_messages()
        .into_iter()
        .filter_map(|m| match m {
            DriveBackendMessage::Diagnostic(text) => Some(text),
            _ => None,
        })
        .collect()
}

fn completed(b: &mut WasmDriveBackend) -> Vec<(String, Vec<u8>)> {
    b.take_messages()
        .into_iter()
        .filter_map(|m| match m {
            DriveBackendMessage::Completed { name, data } => Some((name, data)),
            _ => None,
        })
        .collect()
}

#[test]
fn a_rejected_path_is_denied() {
    let mut b = backend(&[]);
    assert_eq!(open(&mut b, "..\\x", FILE_OPEN_IF, 0), (STATUS_ACCESS_DENIED, 0, INFORMATION_NONE));
    assert_eq!(
        diagnostics(&mut b),
        vec!["[DEBUG-rdpdrive-dispatch] request=create", "create rejected path=..\\x"]
    );
    assert_eq!(opened(&mut b, "x"), 1);
}

#[test]
fn what_is_missing_opens_only_where_it_may_be_created() {
    for disposition in [FILE_OPEN, FILE_OVERWRITE, 6] {
        let mut b = backend(&[]);
        assert_eq!(
            open(&mut b, "x", disposition, 0),
            (STATUS_NO_SUCH_FILE, 0, INFORMATION_NONE)
        );
        assert_eq!(
            diagnostics(&mut b)[1],
            "create path=x status=NO_SUCH_FILE exists=false directory=false"
        );
    }
    for disposition in [FILE_CREATE, FILE_OPEN_IF, FILE_OVERWRITE_IF, FILE_SUPERSEDE] {
        let mut b = backend(&[]);
        assert_eq!(
            open(&mut b, "d\\x", disposition, 0),
            (STATUS_SUCCESS, 1, INFORMATION_FILE_CREATED)
        );
        assert_eq!(
            diagnostics(&mut b)[1],
            "create id=1 path=d\\x status=SUCCESS directory=false"
        );
        assert_eq!(open(&mut b, "d", FILE_OPEN, 0).0, STATUS_SUCCESS);
    }
}

#[test]
fn what_exists_opens_unless_it_must_be_new() {
    let mut b = backend(&[("f", 3)]);
    assert_eq!(open(&mut b, "f", FILE_CREATE, 0).0, STATUS_NO_SUCH_FILE);
    assert_eq!(
        open(&mut b, "f", FILE_OPEN, 0),
        (STATUS_SUCCESS, 1, INFORMATION_FILE_OPENED)
    );
    assert_eq!(open(&mut b, "", FILE_OPEN, 0), (STATUS_SUCCESS, 2, INFORMATION_FILE_OPENED));
}

#[test]
fn files_and_directories_are_told_apart() {
    let mut b = backend(&[("d/f", 3)]);
    assert_eq!(open(&mut b, "d", FILE_OPEN, FILE_NON_DIRECTORY_FILE).0, STATUS_NOT_A_DIRECTORY);
    assert_eq!(
        diagnostics(&mut b)[1],
        "create path=d status=NO_SUCH_FILE exists=true directory=true"
    );
    assert_eq!(open(&mut b, "d/f", FILE_OPEN, FILE_DIRECTORY_FILE).0, STATUS_NO_SUCH_FILE);
    assert_eq!(open(&mut b, "d", FILE_OPEN, FILE_DIRECTORY_FILE).0, STATUS_SUCCESS);
    assert_eq!(open(&mut b, "d/f", FILE_OPEN, FILE_NON_DIRECTORY_FILE).0, STATUS_SUCCESS);
    assert_eq!(
        open(&mut b, "new", FILE_CREATE, FILE_DIRECTORY_FILE),
        (STATUS_SUCCESS, 3, INFORMATION_FILE_CREATED)
    );
    assert!(matches!(
        information(&mut b, 3, FILE_STANDARD_INFORMATION),
        (STATUS_SUCCESS, Some(FileInformationClass::Standard(i))) if i.directory
    ));
}

#[test]
fn overwriting_empties_a_file() {
    for disposition in [FILE_OVERWRITE, FILE_OVERWRITE_IF, FILE_SUPERSEDE] {
        let mut b = backend(&[("f", 3)]);
        let (status, id, information) = open(&mut b, "f", disposition, 0);
        assert_eq!((status, information), (STATUS_SUCCESS, INFORMATION_FILE_OPENED));
        assert_eq!(read(&mut b, id, 0, 10), Some((STATUS_SUCCESS, Vec::new())));
    }
    let mut b = backend(&[("f", 3)]);
    let id = opened(&mut b, "f");
    assert_eq!(read(&mut b, id, 0, 10), None);
}

#[test]
fn a_read_returns_what_was_written() {
    let mut b = backend(&[]);
    let id = opened(&mut b, "out.bin");
    assert_eq!(write(&mut b, id, 0, &[1, 2, 3, 4]), (STATUS_SUCCESS, 4));
    assert_eq!(write(&mut b, id, 2, &[9, 8, 7]), (STATUS_SUCCESS, 3));
    assert_eq!(read(&mut b, id, 2, 3), Some((STATUS_SUCCESS, vec![9, 8, 7])));
    assert_eq!(read(&mut b, id, 0, 100), Some((STATUS_SUCCESS, vec![1, 2, 9, 8, 7])));
    assert_eq!(read(&mut b, id, 1, 1), Some((STATUS_SUCCESS, vec![2])));
    assert_eq!(read(&mut b, id, u64::MAX, 5), Some((STATUS_SUCCESS, Vec::new())));
    assert_eq!(write(&mut b, id, 1, &[5]), (STATUS_SUCCESS, 1));
    assert_eq!(read(&mut b, id, 0, 9), Some((STATUS_SUCCESS, vec![1, 5, 9, 8, 7])));
}

#[test]
fn a_write_leaves_no_gap_and_no_other_file_changes() {
    let mut b = backend(&[("seed", 9)]);
    let one = opened(&mut b, "one");
    let two = opened(&mut b, "two");
    assert_eq!(write(&mut b, one, 0, &[1]), (STATUS_SUCCESS, 1));
    assert_eq!(write(&mut b, two, 0, &[2]), (STATUS_SUCCESS, 1));
    assert_eq!(write(&mut b, one, 3, &[4]), (STATUS_UNSUCCESSFUL, 0));
    assert_eq!(read(&mut b, one, 0, 9), Some((STATUS_SUCCESS, vec![1])));
    assert_eq!(read(&mut b, two, 0, 9), Some((STATUS_SUCCESS, vec![2])));
    assert_eq!(write(&mut b, 77, 0, &[4]), (STATUS_NO_SUCH_FILE, 0));
    let root = opened(&mut b, "");
    assert_eq!(write(&mut b, root, 0, &[4]), (STATUS_NO_SUCH_FILE, 0));
    let seed = opened(&mut b, "seed");
    assert_eq!(write(&mut b, seed, 1, &[4]), (STATUS_UNSUCCESSFUL, 0));
    assert!(matches!(
        information(&mut b, seed, FILE_STANDARD_INFORMATION),
        (STATUS_SUCCESS, Some(FileInformationClass::Standard(i))) if i.end_of_file == 9
    ));
    assert_eq!(read(&mut b, seed, 0, 9), Some((STATUS_SUCCESS, Vec::new())));
}

#[test]
fn a_chosen_file_is_read_from_the_page() {
    let mut b = backend(&[("dir/photo.jpg", 50)]);
    let id = opened(&mut b, "dir\\photo.jpg");
    b.take_messages();
    assert_eq!(read(&mut b, id, 16, 4), None);
    let messages = b.take_messages();
    match messages.as_slice() {
        [DriveBackendMessage::Diagnostic(_), DriveBackendMessage::ReadRequested { request_id, name, offset, length }] => {
            assert_eq!((*request_id, name.as_str(), *offset, *length), (1, "dir/photo.jpg", 16, 4));
        }
        _ => panic!("a read request for the page"),
    }
    let responses = b.complete_read(1, vec![1, 2, 3, 4], false);
    match responses.as_slice() {
        [DriveResponse::DeviceReadResponse { device_io_reply, read_data }] => {
            assert_eq!(
                *device_io_reply,
                DeviceIoResponse { device_id: 7, completion_id: 100 + id, io_status: STATUS_SUCCESS }
            );
            assert_eq!(read_data.as_slice(), &[1, 2, 3, 4]);
        }
        _ => panic!("one read response"),
    }
    assert!(b.complete_read(1, vec![1], false).is_empty());
    assert_eq!(
        diagnostics(&mut b),
        vec![
            "[DEBUG-rdpdrive-response] read id=1 completion=101 path=dir/photo.jpg status=STATUS_SUCCESS bytes=4",
            "[DEBUG-rdpdrive-response] read id=1 status=dropped reason=unknown-request",
        ]
    );
}

#[test]
fn a_failed_read_delivers_nothing() {
    let mut b = backend(&[("f", 50)]);
    let id = opened(&mut b, "f");
    assert_eq!(read(&mut b, id, 0, 4), None);
    close(&mut b, id);
    b.take_messages();
    assert_eq!(
        read_result(b.complete_read(1, vec![1, 2], true)),
        Some((STATUS_UNSUCCESSFUL, Vec::new()))
    );
    assert_eq!(
        diagnostics(&mut b),
        vec!["[DEBUG-rdpdrive-response] read id=1 completion=101 path=<missing> status=STATUS_UNSUCCESSFUL bytes=2"]
    );
}

#[test]
fn reads_are_numbered_apart() {
    let mut b = backend(&[("f", 50)]);
    let id = opened(&mut b, "f");
    assert_eq!(read(&mut b, id, 0, 1), None);
    assert_eq!(read(&mut b, id, 1, 1), None);
    assert_eq!(read_result(b.complete_read(2, vec![8], false)), Some((STATUS_SUCCESS, vec![8])));
    assert_eq!(read_result(b.complete_read(1, vec![9], false)), Some((STATUS_SUCCESS, vec![9])));
}

#[test]
fn a_read_without_a_file_finds_none() {
    let mut b = backend(&[("f", 50)]);
    assert_eq!(read(&mut b, 5, 0, 1), Some((STATUS_NO_SUCH_FILE, Vec::new())));
    let root = opened(&mut b, "");
    assert_eq!(read(&mut b, root, 0, 1), Some((STATUS_NO_SUCH_FILE, Vec::new())));
    let id = opened(&mut b, "f");
    assert_eq!(set(&mut b, id, SetBuffer::Disposition), (STATUS_SUCCESS, 1));
    assert_eq!(read(&mut b, id, 0, 1), Some((STATUS_NO_SUCH_FILE, Vec::new())));
}

#[test]
fn a_written_file_is_delivered_when_it_is_closed() {
    let mut b = backend(&[]);
    let id = opened(&mut b, "save\\as.txt");
    write(&mut b, id, 0, b"hello");
    b.take_messages();
    close(&mut b, id);
    let messages = b.take_messages();
    match messages.as_slice() {
        [DriveBackendMessage::Diagnostic(_), DriveBackendMessage::Completed { name, data }] => {
            assert_eq!(name, "save/as.txt");
            assert_eq!(data.as_slice(), b"hello");
        }
        _ => panic!("a completed file"),
    }
    assert_eq!(read(&mut b, id, 0, 1), Some((STATUS_NO_SUCH_FILE, Vec::new())));
    assert_eq!(write(&mut b, id, 0, b"x"), (STATUS_NO_SUCH_FILE, 0));
    assert_eq!(query(&mut b, id, 1, "*"), (STATUS_NO_SUCH_FILE, None));
}

#[test]
fn a_created_file_is_delivered_when_it_is_closed() {
    let mut b = backend(&[]);
    assert_eq!(
        open(&mut b, "\\empty.txt", FILE_CREATE, 0),
        (STATUS_SUCCESS, 1, INFORMATION_FILE_CREATED)
    );
    b.take_messages();
    close(&mut b, 1);
    assert_eq!(completed(&mut b), vec![("empty.txt".to_owned(), Vec::new())]);
    close(&mut b, 1);
    assert!(completed(&mut b).is_empty());
}

#[test]
fn a_created_file_is_delivered_once_with_what_it_holds() {
    let mut b = backend(&[]);
    let id = opened(&mut b, "draft");
    let other = opened(&mut b, "draft");
    write(&mut b, other, 0, b"text");
    assert_eq!(rename(&mut b, id, "final"), STATUS_SUCCESS);
    close(&mut b, id);
    assert_eq!(completed(&mut b), vec![("final".to_owned(), b"text".to_vec())]);
    close(&mut b, other);
    assert_eq!(completed(&mut b), vec![("final".to_owned(), b"text".to_vec())]);
}

#[test]
fn a_file_that_was_neither_created_nor_written_is_not_delivered() {
    let mut b = backend(&[("chosen", 3)]);
    let chosen = opened(&mut b, "chosen");
    close(&mut b, chosen);
    let created = opened(&mut b, "new.txt");
    let again = opened(&mut b, "new.txt");
    close(&mut b, again);
    let (_, directory, _) = open(&mut b, "dir", FILE_CREATE, FILE_DIRECTORY_FILE);
    close(&mut b, directory);
    close(&mut b, 99);
    assert!(completed(&mut b).is_empty());
    assert_eq!(set(&mut b, created, SetBuffer::Disposition).0, STATUS_SUCCESS);
    close(&mut b, created);
    assert!(completed(&mut b).is_empty());
}

#[test]
fn the_page_is_not_asked_for_a_file_that_it_did_not_choose() {
    let mut b = backend(&[("chosen", 3)]);
    let id = opened(&mut b, "new.txt");
    assert_eq!(read(&mut b, id, 0, 5), Some((STATUS_SUCCESS, Vec::new())));
    assert_eq!(read(&mut b, id, 9, 5), Some((STATUS_SUCCESS, Vec::new())));
    let chosen = opened(&mut b, "chosen");
    assert_eq!(rename(&mut b, chosen, "moved"), STATUS_SUCCESS);
    assert_eq!(read(&mut b, chosen, 0, 5), None);
    let asked: Vec<String> = b
        .take_messages()
        .into_iter()
        .filter_map(|m| match m {
            DriveBackendMessage::ReadRequested { name, .. } => Some(name),
            _ => None,
        })
        .collect();
    assert_eq!(asked, vec!["moved"]);
}

#[test]
fn an_enumeration_names_each_child_once() {
    let mut b = backend(&[("d/b", 1), ("d/a", 1), ("d/c/x", 1), ("e", 1)]);
    let id = opened(&mut b, "d");
    b.take_messages();
    assert_eq!(query(&mut b, id, 1, "\\d\\*"), (STATUS_SUCCESS, Some("a".to_owned())));
    assert_eq!(query(&mut b, id, 0, ""), (STATUS_SUCCESS, Some("b".to_owned())));
    assert_eq!(query(&mut b, id, 0, ""), (STATUS_SUCCESS, Some("c".to_owned())));
    assert_eq!(query(&mut b, id, 0, ""), (STATUS_NO_MORE_FILES, None));
    assert_eq!(query(&mut b, id, 0, ""), (STATUS_NO_MORE_FILES, None));
    let texts = diagnostics(&mut b);
    assert_eq!(texts[1], "directory id=1 requested=\\d\\* target=d entries=3");
    assert_eq!(texts[2], "directory id=1 status=SUCCESS entry=a directory=false");
    assert_eq!(texts[6], "directory id=1 status=SUCCESS entry=c directory=true");
    assert_eq!(texts[8], "directory id=1 status=STATUS_NO_MORE_FILES");
}

#[test]
fn an_enumeration_goes_on_whatever_is_served_in_between() {
    let mut b = backend(&[("d/a", 1), ("d/b", 1), ("d/c", 1)]);
    let id = opened(&mut b, "d");
    assert_eq!(query(&mut b, id, 1, "*"), (STATUS_SUCCESS, Some("a".to_owned())));
    let new = opened(&mut b, "d\\aa");
    write(&mut b, new, 0, &[1]);
    assert_eq!(rename(&mut b, id, "e"), STATUS_SUCCESS);
    assert_eq!(query(&mut b, id, 0, "anything"), (STATUS_SUCCESS, Some("b".to_owned())));
    close(&mut b, new);
    assert_eq!(query(&mut b, id, 0, "..\\x"), (STATUS_SUCCESS, Some("c".to_owned())));
    assert_eq!(query(&mut b, id, 0, "*"), (STATUS_NO_MORE_FILES, None));
}

#[test]
fn enumerating_a_child_keeps_the_parent_handle() {
    let mut b = backend(&[("Grandstream/9.127/readme.txt", 2), ("Grandstream/11.110/notes.txt", 3)]);
    let id = opened(&mut b, "Grandstream");
    assert_eq!(query(&mut b, id, 1, "9.127\\*"), (STATUS_SUCCESS, Some("readme.txt".to_owned())));
    assert_eq!(query(&mut b, id, 1, "*"), (STATUS_SUCCESS, Some("11.110".to_owned())));
    assert_eq!(query(&mut b, id, 0, ""), (STATUS_SUCCESS, Some("9.127".to_owned())));
}

#[test]
fn an_enumeration_can_fail() {
    let mut b = backend(&[("f", 2)]);
    assert_eq!(query(&mut b, 9, 1, "*"), (STATUS_NO_SUCH_FILE, None));
    let file = opened(&mut b, "f");
    assert_eq!(query(&mut b, file, 1, "*"), (STATUS_NOT_A_DIRECTORY, None));
    let root = opened(&mut b, "");
    b.take_messages();
    assert_eq!(query(&mut b, root, 1, "..\\*"), (STATUS_ACCESS_DENIED, None));
    assert_eq!(diagnostics(&mut b)[1], "directory id=2 path=..\\* status=ACCESS_DENIED");
    assert_eq!(query(&mut b, root, 1, "nothing"), (STATUS_NO_SUCH_FILE, None));
    assert_eq!(diagnostics(&mut b)[2], "directory id=2 status=STATUS_NO_SUCH_FILE");
    assert_eq!(query(&mut b, root, 0, ""), (STATUS_NO_MORE_FILES, None));
}

#[test]
fn entries_carry_size_and_time() {
    let mut b = backend(&[("f", 12)]);
    let root = opened(&mut b, "");
    let req = ServerDriveIoRequest::ServerDriveQueryDirectoryRequest(
        ServerDriveQueryDirectoryRequest {
            device_io_request: io(root),
            file_info_class_lvl: FILE_BOTH_DIRECTORY_INFORMATION,
            initial_query: 1,
            path: "*".to_owned(),
        },
    );
    match serve(&mut b, req).into_iter().next() {
        Some(DriveResponse::ClientDriveQueryDirectoryResponse {
            buffer: Some(FileInformationClass::BothDirectory(i)),
            ..
        }) => {
            assert_eq!((i.file_name.as_str(), i.end_of_file), ("f", 12));
            assert_eq!(i.last_write_time, filetime_from_unix_millis(TIME));
        }
        _ => panic!("a directory entry"),
    }
}

#[test]
fn a_gap_is_noticed_before_it_is_listed() {
    let mut b = backend(&[("d/f", 1)]);
    let d = opened(&mut b, "d");
    let root = opened(&mut b, "");
    assert_eq!(set(&mut b, d, SetBuffer::Disposition).0, STATUS_SUCCESS);
    let req = |initial_query: u8| {
        ServerDriveIoRequest::ServerDriveQueryDirectoryRequest(ServerDriveQueryDirectoryRequest {
            device_io_request: io(root),
            file_info_class_lvl: FILE_NAMES_INFORMATION,
            initial_query,
            path: "*".to_owned(),
        })
    };
    assert!(!b.can_answer(&req(1)));
    assert!(b.can_answer(&req(0)));
    let again = open(&mut b, "d", FILE_CREATE, FILE_DIRECTORY_FILE);
    assert_eq!(again.0, STATUS_SUCCESS);
    assert!(b.can_answer(&req(1)));
}

#[test]
fn information_is_given_in_three_classes() {
    let mut b = backend(&[("f", u64::MAX)]);
    let id = opened(&mut b, "f");
    b.take_messages();
    match information(&mut b, id, FILE_BASIC_INFORMATION) {
        (STATUS_SUCCESS, Some(FileInformationClass::Basic(i))) => {
            assert_eq!(i.change_time, filetime_from_unix_millis(TIME));
            assert_eq!(i.file_attributes, 0x20);
        }
        _ => panic!("basic information"),
    }
    match information(&mut b, id, FILE_STANDARD_INFORMATION) {
        (STATUS_SUCCESS, Some(FileInformationClass::Standard(i))) => {
            assert_eq!((i.allocation_size, i.end_of_file), (i64::MAX, i64::MAX));
            assert_eq!((i.number_of_links, i.delete_pending, i.directory), (1, false, false));
        }
        _ => panic!("standard information"),
    }
    match information(&mut b, id, FILE_ATTRIBUTE_TAG_INFORMATION) {
        (STATUS_SUCCESS, Some(FileInformationClass::AttributeTag(i))) => {
            assert_eq!((i.file_attributes, i.reparse_tag), (0x20, 0));
        }
        _ => panic!("attribute information"),
    }
    assert!(matches!(information(&mut b, id, 41), (STATUS_NOT_SUPPORTED, None)));
    assert!(matches!(information(&mut b, 8, FILE_NAMES_INFORMATION), (STATUS_NO_SUCH_FILE, None)));
    let texts = diagnostics(&mut b);
    assert_eq!(texts[1], "query-information id=1 path=f class=FileBasicInformation status=STATUS_SUCCESS");
    assert_eq!(texts[3], "query-information id=1 path=f class=FileStandardInformation status=STATUS_SUCCESS");
    assert_eq!(texts[5], "query-information id=1 path=f class=FileAttributeTagInformation status=STATUS_SUCCESS");
    assert_eq!(texts[7], "query-information id=1 path=f class=FileInformationClassLevel(41) status=STATUS_NOT_SUPPORTED");
    assert_eq!(texts[9], "query-information id=8 path=<missing> class=FileNamesInformation status=STATUS_NO_SUCH_FILE");
}

#[test]
fn every_named_class_is_named() {
    let mut b = backend(&[]);
    for (level, name) in [
        (1, "FileDirectoryInformation"),
        (2, "FileFullDirectoryInformation"),
        (3, "FileBothDirectoryInformation"),
        (4, "FileBasicInformation"),
        (5, "FileStandardInformation"),
        (12, "FileNamesInformation"),
        (22, "FileStreamInformation"),
        (35, "FileAttributeTagInformation"),
        (13, "FileInformationClassLevel(13)"),
        (u32::MAX, "FileInformationClassLevel(4294967295)"),
    ] {
        b.take_messages();
        information(&mut b, 3, level);
        assert_eq!(
            diagnostics(&mut b)[1],
            format!("query-information id=3 path=<missing> class={name} status=STATUS_NO_SUCH_FILE")
        );
    }
}

#[test]
fn the_volume_is_described_in_four_classes() {
    let mut b = backend(&[]);
    match volume(&mut b, FILE_FS_ATTRIBUTE_INFORMATION) {
        (STATUS_SUCCESS, Some(FileSystemInformationClass::FileFsAttributeInformation(i))) => {
            assert_eq!((i.file_system_attributes, i.max_component_name_len), (6, 255));
            assert_eq!(i.file_system_name, "StoneVeyl");
        }
        _ => panic!("attributes"),
    }
    match volume(&mut b, FILE_FS_SIZE_INFORMATION) {
        (STATUS_SUCCESS, Some(FileSystemInformationClass::FileFsSizeInformation(i))) => {
            assert_eq!((i.total_alloc_units, i.available_alloc_units), (262_144, 262_144));
            assert_eq!((i.sectors_per_alloc_unit, i.bytes_per_sector), (1, 4096));
        }
        _ => panic!("size"),
    }
    match volume(&mut b, FILE_FS_FULL_SIZE_INFORMATION) {
        (STATUS_SUCCESS, Some(FileSystemInformationClass::FileFsFullSizeInformation(i))) => {
            assert_eq!(i.total_alloc_units, 262_144);
            assert_eq!(i.caller_available_alloc_units, 262_144);
            assert_eq!(i.actual_available_alloc_units, 262_144);
            assert_eq!((i.sectors_per_alloc_unit, i.bytes_per_sector), (1, 4096));
        }
        _ => panic!("full size"),
    }
    match volume(&mut b, FILE_FS_VOLUME_INFORMATION) {
        (STATUS_SUCCESS, Some(FileSystemInformationClass::FileFsVolumeInformation(i))) => {
            assert_eq!(i.volume_creation_time, VIRTUAL_DRIVE_FILETIME);
            assert_eq!((i.volume_serial_number, i.supports_objects), (0x5356_4452, false));
            assert_eq!(i.volume_label, "StoneVeyl Files");
        }
        _ => panic!("volume"),
    }
    assert!(matches!(volume(&mut b, 4), (STATUS_NOT_SUPPORTED, None)));
}

#[test]
fn a_rename_takes_the_open_handles_along() {
    let mut b = backend(&[("d/sub/seed", 1)]);
    let d = opened(&mut b, "d");
    let f = opened(&mut b, "d\\sub\\f");
    let other = opened(&mut b, "dx");
    write(&mut b, f, 0, b"data");
    assert_eq!(set(&mut b, d, SetBuffer::Rename { file_name: "\\e".to_owned() }), (STATUS_SUCCESS, 6 + 6));
    assert_eq!(read(&mut b, f, 0, 9), Some((STATUS_SUCCESS, b"data".to_vec())));
    b.take_messages();
    information(&mut b, f, FILE_BASIC_INFORMATION);
    information(&mut b, d, FILE_BASIC_INFORMATION);
    information(&mut b, other, FILE_BASIC_INFORMATION);
    let texts = diagnostics(&mut b);
    assert!(texts[1].contains(" path=e/sub/f "));
    assert!(texts[3].contains(" path=e "));
    assert!(texts[5].contains(" path=dx "));
    assert_eq!(rename(&mut b, f, "top"), STATUS_SUCCESS);
    assert_eq!(read(&mut b, f, 0, 4), Some((STATUS_SUCCESS, b"data".to_vec())));
}

#[test]
fn a_rename_can_fail() {
    let mut b = backend(&[("f", 1)]);
    assert_eq!(rename(&mut b, 1, "x"), STATUS_NO_SUCH_FILE);
    let id = opened(&mut b, "f");
    assert_eq!(rename(&mut b, id, "..\\x"), STATUS_UNSUCCESSFUL);
    let root = opened(&mut b, "");
    assert_eq!(rename(&mut b, root, "x"), STATUS_UNSUCCESSFUL);
    assert_eq!(open(&mut b, "f", FILE_OPEN, 0).0, STATUS_SUCCESS);
}

#[test]
fn setting_anything_else_is_accepted_without_effect() {
    let mut b = backend(&[("f", 1)]);
    let id = opened(&mut b, "f");
    assert_eq!(set(&mut b, id, SetBuffer::Basic), (STATUS_SUCCESS, 36));
    assert_eq!(set(&mut b, id, SetBuffer::EndOfFile), (STATUS_SUCCESS, 8));
    assert_eq!(set(&mut b, id, SetBuffer::Allocation), (STATUS_SUCCESS, 8));
    assert_eq!(set(&mut b, id, SetBuffer::Other { size: 5 }), (STATUS_SUCCESS, 5));
    assert_eq!(set(&mut b, 50, SetBuffer::Basic), (STATUS_NO_SUCH_FILE, 36));
    assert_eq!(read(&mut b, id, 0, 1), None);
}

#[test]
fn the_other_requests_are_answered_by_kind() {
    let mut b = backend(&[]);
    let outcome = |r: &DeviceIoResponse| (r.device_id, r.completion_id, r.io_status);
    let mut statuses: Vec<(u32, u32, u32)> = Vec::new();
    for req in [
        ServerDriveIoRequest::DeviceFlushBuffersRequest(io(1)),
        ServerDriveIoRequest::DeviceControlRequest(io(2)),
        ServerDriveIoRequest::ServerDriveQuerySecurityRequest(io(3)),
        ServerDriveIoRequest::ServerDriveSetSecurityRequest(ServerDriveSetSecurityRequest {
            device_io_request: io(4),
            security_descriptor: vec![0; 11],
        }),
        ServerDriveIoRequest::ServerDriveNotifyChangeDirectoryRequest(io(5)),
        ServerDriveIoRequest::ServerDriveLockControlRequest(io(6)),
    ] {
        let responses = serve(&mut b, req);
        assert_eq!(responses.len(), 1);
        statuses.push(match &responses[0] {
            DriveResponse::DeviceFlushBuffersResponse { device_io_reply } => outcome(device_io_reply),
            DriveResponse::DeviceControlResponse { device_io_reply } => outcome(device_io_reply),
            DriveResponse::ClientDriveQuerySecurityResponse { device_io_reply } => outcome(device_io_reply),
            DriveResponse::ClientDriveSetSecurityResponse { device_io_reply, length } => {
                assert_eq!(*length, 11);
                outcome(device_io_reply)
            }
            DriveResponse::ClientDriveNotifyChangeDirectoryResponse { device_io_reply } => outcome(device_io_reply),
            DriveResponse::ClientDriveLockControlResponse { device_io_reply } => outcome(device_io_reply),
            _ => panic!("unexpected kind of answer"),
        });
    }
    assert_eq!(
        statuses,
        vec![
            (7, 101, STATUS_SUCCESS),
            (7, 102, STATUS_SUCCESS),
            (7, 103, STATUS_NOT_SUPPORTED),
            (7, 104, STATUS_NOT_SUPPORTED),
            (7, 105, STATUS_NOT_SUPPORTED),
            (7, 106, STATUS_NOT_SUPPORTED),
        ]
    );
    assert_eq!(
        diagnostics(&mut b),
        vec![
            "[DEBUG-rdpdrive-dispatch] request=flush",
            "[DEBUG-rdpdrive-dispatch] request=device-control",
            "[DEBUG-rdpdrive-dispatch] request=query-security",
            "[DEBUG-rdpdrive-dispatch] request=set-security",
            "[DEBUG-rdpdrive-dispatch] request=notify-directory",
            "[DEBUG-rdpdrive-dispatch] request=lock-control",
        ]
    );
}

#[test]
fn every_request_is_announced() {
    let mut b = backend(&[("f", 1)]);
    let id = opened(&mut b, "f");
    read(&mut b, id, 0, 1);
    write(&mut b, id, 0, &[1]);
    query(&mut b, id, 0, "");
    information(&mut b, id, FILE_BASIC_INFORMATION);
    volume(&mut b, FILE_FS_SIZE_INFORMATION);
    set(&mut b, id, SetBuffer::Basic);
    close(&mut b, id);
    let announced: Vec<String> = diagnostics(&mut b)
        .into_iter()
        .filter(|text| text.starts_with("[DEBUG-rdpdrive-dispatch]"))
        .collect();
    assert_eq!(
        announced,
        vec![
            "[DEBUG-rdpdrive-dispatch] request=create",
            "[DEBUG-rdpdrive-dispatch] request=read",
            "[DEBUG-rdpdrive-dispatch] request=write",
            "[DEBUG-rdpdrive-dispatch] request=query-directory",
            "[DEBUG-rdpdrive-dispatch] request=query-information",
            "[DEBUG-rdpdrive-dispatch] request=query-volume",
            "[DEBUG-rdpdrive-dispatch] request=set-information",
            "[DEBUG-rdpdrive-dispatch] request=close",
        ]
    );
}

#[test]
fn handles_are_numbered_from_one() {
    let mut b = backend(&[("f", 1)]);
    assert_eq!(opened(&mut b, "f"), 1);
    assert_eq!(opened(&mut b, "f"), 2);
    close(&mut b, 1);
    assert_eq!(opened(&mut b, "f"), 3);
    assert_eq!(b.allocate_file_id(), 4);
    assert_eq!(opened(&mut b, "f"), 5);
}

#[test]
fn a_directory_moved_to_the_root_takes_its_handles_along() {
    let mut b = backend(&[("d/f", 1)]);
    let d = opened(&mut b, "d");
    let f = opened(&mut b, "d/f");
    write(&mut b, f, 0, &[3]);
    assert_eq!(rename(&mut b, d, "\\"), STATUS_SUCCESS);
    assert_eq!(read(&mut b, f, 0, 1), Some((STATUS_SUCCESS, vec![3])));
}

#[test]
fn no_message_names_a_path_outside_the_tree() {
    let mut b = backend(&[("..\\seed", 1), ("ok\\seed", 1)]);
    for path in ["..\\a", "ok\\..\\..\\b", "\\\\server\\share", "c:\\d", "x\\.\\y"] {
        let (status, id, _) = open(&mut b, path, FILE_OPEN_IF, 0);
        if status == STATUS_SUCCESS {
            write(&mut b, id, 0, &[1]);
            rename(&mut b, id, "..\\up");
            rename(&mut b, id, "\\moved\\here");
            close(&mut b, id);
        }
    }
    let seed = opened(&mut b, "ok/seed");
    read(&mut b, seed, 0, 1);
    let mut named = 0;
    for message in b.take_messages() {
        let name = match message {
            DriveBackendMessage::Completed { name, .. } => name,
            DriveBackendMessage::ReadRequested { name, .. } => name,
            DriveBackendMessage::Diagnostic(_) => continue,
        };
        named += 1;
        assert!(!name.contains('\\'));
        assert!(name.split('/').all(|part| part != ".."));
    }
    assert_eq!(named, 4);
}

#[test]
fn queries_and_unsupported_requests_change_nothing() {
    let mut b = backend(&[("f", 1)]);
    let id = opened(&mut b, "f");
    information(&mut b, id, FILE_BASIC_INFORMATION);
    volume(&mut b, FILE_FS_SIZE_INFORMATION);
    serve(&mut b, ServerDriveIoRequest::DeviceFlushBuffersRequest(io(id)));
    serve(&mut b, ServerDriveIoRequest::ServerDriveLockControlRequest(io(id)));
    assert_eq!(read(&mut b, id, 0, 1), None);
    assert_eq!(opened(&mut b, "f"), id + 1);
    let root = opened(&mut b, "");
    assert_eq!(query(&mut b, root, 1, "*"), (STATUS_SUCCESS, Some("f".to_owned())));
    assert_eq!(query(&mut b, root, 0, "*"), (STATUS_NO_MORE_FILES, None));
}

#[test]
fn a_written_file_has_the_size_of_its_content() {
    let mut b = backend(&[("f", 40)]);
    let id = opened(&mut b, "f");
    assert_eq!(write(&mut b, id, 0, &[1, 2, 3]), (STATUS_SUCCESS, 3));
    assert!(matches!(
        information(&mut b, id, FILE_STANDARD_INFORMATION),
        (STATUS_SUCCESS, Some(FileInformationClass::Standard(i))) if i.end_of_file == 3
    ));
    assert!(matches!(
        information(&mut b, id, FILE_BASIC_INFORMATION),
        (STATUS_SUCCESS, Some(FileInformationClass::Basic(i))) if i.change_time == VIRTUAL_DRIVE_FILETIME
    ));
}

#[test]
fn a_deleted_file_is_gone_until_it_is_written_again() {
    let mut b = backend(&[("f", 40)]);
    let id = opened(&mut b, "f");
    assert_eq!(set(&mut b, id, SetBuffer::Disposition), (STATUS_SUCCESS, 1));
    assert_eq!(open(&mut b, "f", FILE_OPEN, 0).0, STATUS_NO_SUCH_FILE);
    assert_eq!(write(&mut b, id, 0, &[6]), (STATUS_SUCCESS, 1));
    assert_eq!(read(&mut b, id, 0, 2), Some((STATUS_SUCCESS, vec![6])));
}

#[test]
fn open_handles_and_pending_reads_are_not_replaced() {
    let mut b = backend(&[("f", 40), ("g", 1)]);
    let f = opened(&mut b, "f");
    read(&mut b, f, 0, 1);
    let g = opened(&mut b, "g");
    read(&mut b, g, 0, 1);
    assert_ne!(f, g);
    b.take_messages();
    assert_eq!(read_result(b.complete_read(1, vec![1], false)), Some((STATUS_SUCCESS, vec![1])));
    assert!(diagnostics(&mut b)[0].contains(" path=f "));
    assert_eq!(read_result(b.complete_read(2, vec![2], false)), Some((STATUS_SUCCESS, vec![2])));
    assert!(diagnostics(&mut b)[0].contains(" path=g "));
}
