//! The router for the drive and the printer.

use ironrdp_web::backend::{DriveBackendMessage, WasmDriveBackend};
use ironrdp_web::drive::DriveSeedFile;
use ironrdp_web::efs::{
    DeviceCreateRequest, DeviceIoRequest, DeviceReadRequest, ServerDriveIoRequest,
    ServerDriveQueryDirectoryRequest, FILE_OPEN, FILE_NAMES_INFORMATION, STATUS_SUCCESS,
};
use ironrdp_web::rdpdr::WasmRdpdrBackend;
use ironrdp_web::response::DriveResponse;

#[derive(Debug, PartialEq)]
struct Printer(u32);

fn io(file_id: u32) -> DeviceIoRequest {
    DeviceIoRequest { device_id: 1, file_id, completion_id: 9 }
}

fn drive() -> WasmDriveBackend {
    WasmDriveBackend::new(vec![DriveSeedFile {
        name: "f".to_owned(),
        size: 4,
        last_modified: 0,
    }])
}

fn reading() -> WasmRdpdrBackend<Printer> {
    let mut router = WasmRdpdrBackend::new(Some(drive()), None).expect("a drive");
    let create = ServerDriveIoRequest::ServerCreateDriveRequest(DeviceCreateRequest {
        device_io_request: io(0),
        create_disposition: FILE_OPEN,
        create_options: 0,
        path: "f".to_owned(),
    });
    assert_eq!(router.handle_drive_io_request(create).expect("answer").len(), 1);
    let read = ServerDriveIoRequest::DeviceReadRequest(DeviceReadRequest {
        device_io_request: io(1),
        length: 4,
        offset: 0,
    });
    assert!(router.can_answer(&read));
    assert!(router.handle_drive_io_request(read).expect("answer").is_empty());
    router
}

#[test]
fn there_is_a_router_where_there_is_something_to_route_to() {
    assert!(WasmRdpdrBackend::<Printer>::new(None, None).is_none());
    let printing = WasmRdpdrBackend::new(None, Some(Printer(1))).expect("a printer");
    assert_eq!((printing.has_drive(), printing.has_printer()), (false, true));
    let both = WasmRdpdrBackend::new(Some(drive()), Some(Printer(1))).expect("both");
    assert_eq!((both.has_drive(), both.has_printer()), (true, true));
}

#[test]
fn a_late_answer_is_polled_once() {
    let mut router = reading();
    assert!(router.complete_drive_read(1, vec![1, 2, 3, 4], false));
    assert!(!router.complete_drive_read(1, vec![1], false));
    let polled = router.poll_deferred_messages();
    match polled.as_slice() {
        [DriveResponse::DeviceReadResponse { device_io_reply, read_data }] => {
            assert_eq!((device_io_reply.io_status, device_io_reply.completion_id), (STATUS_SUCCESS, 9));
            assert_eq!(read_data.as_slice(), &[1, 2, 3, 4]);
        }
        _ => panic!("one late answer"),
    }
    assert!(router.poll_deferred_messages().is_empty());
}

#[test]
fn messages_to_the_page_are_handed_over_once() {
    let mut router = reading();
    let messages = router.take_messages();
    assert!(matches!(
        messages.last(),
        Some(DriveBackendMessage::ReadRequested { request_id: 1, offset: 0, length: 4, .. })
    ));
    assert!(router.take_messages().is_empty());
}

#[test]
fn without_a_drive_nothing_is_answered() {
    let mut router = WasmRdpdrBackend::new(None, Some(Printer(2))).expect("a printer");
    let query = ServerDriveIoRequest::ServerDriveQueryDirectoryRequest(
        ServerDriveQueryDirectoryRequest {
            device_io_request: io(1),
            file_info_class_lvl: FILE_NAMES_INFORMATION,
            initial_query: 1,
            path: "*".to_owned(),
        },
    );
    assert!(router.can_answer(&query));
    assert!(router.handle_drive_io_request(query).expect("answer").is_empty());
    assert!(!router.complete_drive_read(1, vec![1], false));
    assert!(router.poll_deferred_messages().is_empty());
    assert!(router.take_messages().is_empty());
}

#[test]
fn the_printer_can_be_reached() {
    let mut router = WasmRdpdrBackend::new(Some(drive()), Some(Printer(1))).expect("both");
    if let Some(printer) = router.printer_mut() {
        printer.0 = 5;
    }
    assert_eq!(router.printer_mut(), Some(&mut Printer(5)));
    assert_eq!(reading().printer_mut(), None);
}
