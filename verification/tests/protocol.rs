//! The plain protocol values against those of the protocol crate.

use ironrdp_rdpdr::pdu::efs;
use ironrdp_rdpdr::pdu::efs::FileInformationClassLevel as Level;
use ironrdp_rdpdr::pdu::efs::FileSystemInformationClassLevel as FsLevel;
use ironrdp_web::backend::WasmDriveBackend;
use ironrdp_web::backend_model::DriveError;
use ironrdp_web::efs as own;
use ironrdp_web::efs::{
    DeviceIoRequest, DeviceIoResponse, FileInformationClass, ServerDriveIoRequest,
    ServerDriveSetInformationRequest, SetBuffer,
};
use ironrdp_web::filetime::VIRTUAL_DRIVE_FILETIME;
use ironrdp_web::response::DriveResponse;

#[test]
fn directory_entries_expose_valid_filetimes() {
    let info = WasmDriveBackend::directory_info(
        own::FILE_BOTH_DIRECTORY_INFORMATION,
        "9.127".to_owned(),
        true,
        0,
        VIRTUAL_DRIVE_FILETIME,
    );
    let FileInformationClass::BothDirectory(info) = info else {
        panic!("expected FILE_BOTH_DIRECTORY_INFORMATION");
    };
    assert_eq!(info.creation_time, VIRTUAL_DRIVE_FILETIME);
    assert_eq!(info.last_access_time, VIRTUAL_DRIVE_FILETIME);
    assert_eq!(info.last_write_time, VIRTUAL_DRIVE_FILETIME);
    assert_eq!(info.change_time, VIRTUAL_DRIVE_FILETIME);
    assert!(info.file_attributes & own::FILE_ATTRIBUTE_DIRECTORY == own::FILE_ATTRIBUTE_DIRECTORY);
}

#[test]
fn both_directory_entries_carry_every_field() {
    let FileInformationClass::BothDirectory(i) =
        WasmDriveBackend::directory_info(99, "f".to_owned(), false, 5, 7)
    else {
        panic!("unknown levels fall back to FILE_BOTH_DIRECTORY_INFORMATION");
    };
    assert_eq!((i.next_entry_offset, i.file_index, i.ea_size, i.short_name_length), (0, 0, 0, 0));
    assert_eq!((i.end_of_file, i.allocation_size), (5, 5));
    assert_eq!((i.creation_time, i.change_time), (7, 7));
    assert_eq!(i.file_attributes, own::FILE_ATTRIBUTE_ARCHIVE);
    assert_eq!(i.short_name, [0u8; 24]);
    assert_eq!(i.file_name, "f");
}

#[test]
fn plain_directory_entries_carry_every_field() {
    let FileInformationClass::Directory(i) = WasmDriveBackend::directory_info(
        own::FILE_DIRECTORY_INFORMATION,
        "d".to_owned(),
        true,
        usize::MAX,
        3,
    ) else {
        panic!("expected FILE_DIRECTORY_INFORMATION");
    };
    assert_eq!((i.next_entry_offset, i.file_index), (0, 0));
    assert_eq!((i.end_of_file, i.allocation_size), (i64::MAX, i64::MAX));
    assert_eq!((i.last_access_time, i.last_write_time), (3, 3));
    assert_eq!(i.file_attributes, own::FILE_ATTRIBUTE_DIRECTORY);
    assert_eq!(i.file_name, "d");
}

#[test]
fn full_directory_entries_carry_every_field() {
    let FileInformationClass::FullDirectory(i) = WasmDriveBackend::directory_info(
        own::FILE_FULL_DIRECTORY_INFORMATION,
        "n".to_owned(),
        false,
        9,
        4,
    ) else {
        panic!("expected FILE_FULL_DIRECTORY_INFORMATION");
    };
    assert_eq!((i.next_entry_offset, i.file_index, i.ea_size), (0, 0, 0));
    assert_eq!((i.end_of_file, i.allocation_size, i.change_time), (9, 9, 4));
    assert_eq!(i.file_attributes, own::FILE_ATTRIBUTE_ARCHIVE);
    assert_eq!(i.file_name, "n");
}

#[test]
fn name_entries_carry_the_name() {
    let FileInformationClass::Names(i) = WasmDriveBackend::directory_info(
        own::FILE_NAMES_INFORMATION,
        "only".to_owned(),
        false,
        9,
        4,
    ) else {
        panic!("expected FILE_NAMES_INFORMATION");
    };
    assert_eq!((i.next_entry_offset, i.file_index), (0, 0));
    assert_eq!(i.file_name, "only");
}

#[test]
fn outcomes_are_those_of_the_protocol() {
    for (plain, status) in [
        (own::STATUS_SUCCESS, efs::NtStatus::SUCCESS),
        (own::STATUS_UNSUCCESSFUL, efs::NtStatus::UNSUCCESSFUL),
        (own::STATUS_NO_MORE_FILES, efs::NtStatus::NO_MORE_FILES),
        (own::STATUS_ACCESS_DENIED, efs::NtStatus::ACCESS_DENIED),
        (own::STATUS_NOT_A_DIRECTORY, efs::NtStatus::NOT_A_DIRECTORY),
        (own::STATUS_NO_SUCH_FILE, efs::NtStatus::NO_SUCH_FILE),
        (own::STATUS_NOT_SUPPORTED, efs::NtStatus::NOT_SUPPORTED),
    ] {
        assert_eq!(plain, u32::from(status));
    }
}

#[test]
fn dispositions_and_options_are_those_of_the_protocol() {
    for (plain, disposition) in [
        (own::FILE_SUPERSEDE, efs::CreateDisposition::FILE_SUPERSEDE),
        (own::FILE_OPEN, efs::CreateDisposition::FILE_OPEN),
        (own::FILE_CREATE, efs::CreateDisposition::FILE_CREATE),
        (own::FILE_OPEN_IF, efs::CreateDisposition::FILE_OPEN_IF),
        (own::FILE_OVERWRITE, efs::CreateDisposition::FILE_OVERWRITE),
        (own::FILE_OVERWRITE_IF, efs::CreateDisposition::FILE_OVERWRITE_IF),
    ] {
        assert_eq!(plain, u32::from(disposition));
    }
    assert_eq!(own::FILE_DIRECTORY_FILE, efs::CreateOptions::FILE_DIRECTORY_FILE.bits());
    assert_eq!(own::FILE_NON_DIRECTORY_FILE, efs::CreateOptions::FILE_NON_DIRECTORY_FILE.bits());
    assert_eq!(own::INFORMATION_NONE, efs::Information::empty().bits());
    assert_eq!(own::INFORMATION_FILE_OPENED, efs::Information::FILE_OPENED.bits());
    assert_eq!(own::INFORMATION_FILE_CREATED, efs::Information::FILE_CREATED.bits());
}

#[test]
fn attributes_are_those_of_the_protocol() {
    assert_eq!(own::FILE_ATTRIBUTE_DIRECTORY, efs::FileAttributes::FILE_ATTRIBUTE_DIRECTORY.bits());
    assert_eq!(own::FILE_ATTRIBUTE_ARCHIVE, efs::FileAttributes::FILE_ATTRIBUTE_ARCHIVE.bits());
    assert_eq!(
        own::FILE_CASE_PRESERVED_NAMES,
        efs::FileSystemAttributes::FILE_CASE_PRESERVED_NAMES.bits()
    );
    assert_eq!(own::FILE_UNICODE_ON_DISK, efs::FileSystemAttributes::FILE_UNICODE_ON_DISK.bits());
}

#[test]
fn information_classes_are_those_of_the_protocol() {
    for (plain, level) in [
        (own::FILE_DIRECTORY_INFORMATION, Level::FILE_DIRECTORY_INFORMATION),
        (own::FILE_FULL_DIRECTORY_INFORMATION, Level::FILE_FULL_DIRECTORY_INFORMATION),
        (own::FILE_BOTH_DIRECTORY_INFORMATION, Level::FILE_BOTH_DIRECTORY_INFORMATION),
        (own::FILE_BASIC_INFORMATION, Level::FILE_BASIC_INFORMATION),
        (own::FILE_STANDARD_INFORMATION, Level::FILE_STANDARD_INFORMATION),
        (own::FILE_NAMES_INFORMATION, Level::FILE_NAMES_INFORMATION),
        (own::FILE_STREAM_INFORMATION, Level::FILE_STREAM_INFORMATION),
        (own::FILE_ATTRIBUTE_TAG_INFORMATION, Level::FILE_ATTRIBUTE_TAG_INFORMATION),
    ] {
        assert_eq!(plain, u32::from(level));
    }
    for (plain, level) in [
        (own::FILE_FS_VOLUME_INFORMATION, FsLevel::FILE_FS_VOLUME_INFORMATION),
        (own::FILE_FS_SIZE_INFORMATION, FsLevel::FILE_FS_SIZE_INFORMATION),
        (own::FILE_FS_ATTRIBUTE_INFORMATION, FsLevel::FILE_FS_ATTRIBUTE_INFORMATION),
        (own::FILE_FS_FULL_SIZE_INFORMATION, FsLevel::FILE_FS_FULL_SIZE_INFORMATION),
    ] {
        assert_eq!(plain, u32::from(level));
    }
}

#[test]
fn set_lengths_are_those_of_the_protocol() {
    let basic = efs::FileBasicInformation {
        creation_time: 0,
        last_access_time: 0,
        last_write_time: 0,
        change_time: 0,
        file_attributes: efs::FileAttributes::empty(),
    };
    let names = ["", "a.txt", "\u{e9}\u{20ac}", "\u{1F600}x"];
    let length = |buffer: &SetBuffer| own::set_buffer_length(buffer).map(|n| n as usize);
    assert_eq!(length(&SetBuffer::Basic), Some(efs::FileInformationClass::from(basic).size()));
    assert_eq!(
        length(&SetBuffer::EndOfFile),
        Some(efs::FileInformationClass::from(efs::FileEndOfFileInformation { end_of_file: 1 }).size())
    );
    assert_eq!(
        length(&SetBuffer::Allocation),
        Some(
            efs::FileInformationClass::from(efs::FileAllocationInformation { allocation_size: 1 })
                .size()
        )
    );
    assert_eq!(
        length(&SetBuffer::Disposition),
        Some(
            efs::FileInformationClass::from(efs::FileDispositionInformation { delete_pending: 1 })
                .size()
        )
    );
    for name in names {
        let rename = efs::FileRenameInformation {
            replace_if_exists: efs::Boolean::False,
            file_name: name.to_owned(),
        };
        assert_eq!(
            length(&SetBuffer::Rename { file_name: name.to_owned() }),
            Some(efs::FileInformationClass::from(rename).size())
        );
    }
    assert_eq!(length(&SetBuffer::Other { size: 41 }), Some(41));
}

#[test]
fn a_length_that_does_not_fit_is_an_error() {
    let too_long = u32::MAX as usize + 1;
    assert_eq!(own::set_buffer_length(&SetBuffer::Other { size: too_long }), None);
    assert_eq!(own::set_buffer_length(&SetBuffer::Other { size: too_long - 1 }), Some(u32::MAX));
    let mut backend = WasmDriveBackend::new(Vec::new());
    let answer = backend.handle_drive_io_request(
        ServerDriveIoRequest::ServerDriveSetInformationRequest(ServerDriveSetInformationRequest {
            device_io_request: DeviceIoRequest { device_id: 1, file_id: 1, completion_id: 1 },
            set_buffer: SetBuffer::Other { size: too_long },
        }),
    );
    assert!(matches!(answer, Err(DriveError::LengthOverflow)));
}

#[test]
fn an_answer_repeats_device_and_number() {
    let request = DeviceIoRequest { device_id: 4, file_id: 5, completion_id: 6 };
    let reply = DeviceIoResponse::new(request, own::STATUS_ACCESS_DENIED);
    assert_eq!((reply.device_id, reply.completion_id), (4, 6));
    assert_eq!(reply.io_status, own::STATUS_ACCESS_DENIED);
    let outside = efs::DeviceIoResponse::new(
        efs::DeviceIoRequest {
            device_id: 4,
            file_id: 5,
            completion_id: 6,
            major_function: efs::MajorFunction::Close,
            minor_function: efs::MinorFunction::from(0),
        },
        efs::NtStatus::from(reply.io_status),
    );
    assert_eq!((outside.device_id, outside.completion_id), (reply.device_id, reply.completion_id));
    let responses =
        WasmDriveBackend::directory_response(request, own::STATUS_NO_MORE_FILES, None);
    assert!(matches!(
        responses.as_slice(),
        [DriveResponse::ClientDriveQueryDirectoryResponse { buffer: None, device_io_reply }]
            if device_io_reply.io_status == own::STATUS_NO_MORE_FILES
    ));
}
