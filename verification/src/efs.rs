//! The device redirection requests that a drive serves and its answers, as plain values.

use vstd::prelude::*;
use vstd::string::*;

use ironrdp_rdpdr::pdu::efs::{FileAttributes, FileInformationClassLevel, NtStatus};

use crate::text::{chars_of, decimal};

verus! {

/// The operation completed.
pub const STATUS_SUCCESS: u32 = 0x0000_0000;

/// The operation failed.
pub const STATUS_UNSUCCESSFUL: u32 = 0xC000_0001;

/// An enumeration has no further entry.
pub const STATUS_NO_MORE_FILES: u32 = 0x8000_0006;

/// The path is not allowed.
pub const STATUS_ACCESS_DENIED: u32 = 0xC000_0022;

/// The path and the request disagree on what is a directory.
pub const STATUS_NOT_A_DIRECTORY: u32 = 0xC000_0103;

/// There is no such file or handle.
pub const STATUS_NO_SUCH_FILE: u32 = 0xC000_000F;

/// The drive does not serve the request.
pub const STATUS_NOT_SUPPORTED: u32 = 0xC000_00BB;

/// Replace the file, or create it.
pub const FILE_SUPERSEDE: u32 = 0;

/// Open what exists.
pub const FILE_OPEN: u32 = 1;

/// Create what does not exist.
pub const FILE_CREATE: u32 = 2;

/// Open what exists, or create it.
pub const FILE_OPEN_IF: u32 = 3;

/// Open what exists and empty it.
pub const FILE_OVERWRITE: u32 = 4;

/// Open what exists and empty it, or create it.
pub const FILE_OVERWRITE_IF: u32 = 5;

/// The create option that asks for a directory.
pub const FILE_DIRECTORY_FILE: u32 = 0x0000_0001;

/// The create option that refuses a directory.
pub const FILE_NON_DIRECTORY_FILE: u32 = 0x0000_0040;

/// A create request did not open anything.
pub const INFORMATION_NONE: u8 = 0;

/// A create request opened what was there.
pub const INFORMATION_FILE_OPENED: u8 = 1;

/// A create request created what it opened.
pub const INFORMATION_FILE_CREATED: u8 = 2;

/// The attribute of a directory.
pub const FILE_ATTRIBUTE_DIRECTORY: u32 = 0x0000_0010;

/// The attribute of a file.
pub const FILE_ATTRIBUTE_ARCHIVE: u32 = 0x0000_0020;

pub const FILE_DIRECTORY_INFORMATION: u32 = 1;

pub const FILE_FULL_DIRECTORY_INFORMATION: u32 = 2;

pub const FILE_BOTH_DIRECTORY_INFORMATION: u32 = 3;

pub const FILE_BASIC_INFORMATION: u32 = 4;

pub const FILE_STANDARD_INFORMATION: u32 = 5;

pub const FILE_NAMES_INFORMATION: u32 = 12;

pub const FILE_STREAM_INFORMATION: u32 = 22;

pub const FILE_ATTRIBUTE_TAG_INFORMATION: u32 = 35;

pub const FILE_FS_VOLUME_INFORMATION: u32 = 1;

pub const FILE_FS_SIZE_INFORMATION: u32 = 3;

pub const FILE_FS_ATTRIBUTE_INFORMATION: u32 = 5;

pub const FILE_FS_FULL_SIZE_INFORMATION: u32 = 7;

/// Names keep their case.
pub const FILE_CASE_PRESERVED_NAMES: u32 = 0x0000_0002;

/// Names are stored as Unicode.
pub const FILE_UNICODE_ON_DISK: u32 = 0x0000_0004;

/// What every request starts with: the device, the open handle and the number of the request.
#[derive(Clone, Copy, Debug, PartialEq, Eq, Structural)]
pub struct DeviceIoRequest {
    pub device_id: u32,
    pub file_id: u32,
    pub completion_id: u32,
}

/// What every answer starts with: the device, the number of the request and the outcome.
#[derive(Clone, Copy, Debug, PartialEq, Eq, Structural)]
pub struct DeviceIoResponse {
    pub device_id: u32,
    pub completion_id: u32,
    pub io_status: u32,
}

/// The answer to a request with the given outcome.
pub open spec fn reply(request: DeviceIoRequest, io_status: u32) -> DeviceIoResponse {
    DeviceIoResponse {
        device_id: request.device_id,
        completion_id: request.completion_id,
        io_status,
    }
}

impl DeviceIoResponse {
    /// The answer to a request with the given outcome.
    pub fn new(device_io_request: DeviceIoRequest, io_status: u32) -> (r: Self)
        ensures
            r == reply(device_io_request, io_status),
    {
        DeviceIoResponse {
            device_id: device_io_request.device_id,
            completion_id: device_io_request.completion_id,
            io_status,
        }
    }
}

/// A request to open or create a path.
#[derive(Debug)]
pub struct DeviceCreateRequest {
    pub device_io_request: DeviceIoRequest,
    pub create_disposition: u32,
    pub create_options: u32,
    pub path: String,
}

/// A request for a range of a file.
#[derive(Clone, Copy, Debug, PartialEq, Eq, Structural)]
pub struct DeviceReadRequest {
    pub device_io_request: DeviceIoRequest,
    pub length: u32,
    pub offset: u64,
}

/// A request to place bytes in a file.
#[derive(Debug)]
pub struct DeviceWriteRequest {
    pub device_io_request: DeviceIoRequest,
    pub offset: u64,
    pub write_data: Vec<u8>,
}

/// A request for the next entry of an enumeration, or for the first of a new one.
#[derive(Debug)]
pub struct ServerDriveQueryDirectoryRequest {
    pub device_io_request: DeviceIoRequest,
    pub file_info_class_lvl: u32,
    pub initial_query: u8,
    pub path: String,
}

/// A request for what is known of an open handle.
#[derive(Clone, Copy, Debug, PartialEq, Eq, Structural)]
pub struct ServerDriveQueryInformationRequest {
    pub device_io_request: DeviceIoRequest,
    pub file_info_class_lvl: u32,
}

/// A request for what is known of the volume.
#[derive(Clone, Copy, Debug, PartialEq, Eq, Structural)]
pub struct ServerDriveQueryVolumeInformationRequest {
    pub device_io_request: DeviceIoRequest,
    pub fs_info_class_lvl: u32,
}

/// What a request sets on an open handle.
#[derive(Debug)]
pub enum SetBuffer {
    /// Timestamps and attributes.
    Basic,
    /// The length of the file.
    EndOfFile,
    /// Deletion.
    Disposition,
    /// A new path.
    Rename { file_name: String },
    /// The space set aside for the file.
    Allocation,
    /// Any other class of information, with the length of its encoding.
    Other { size: usize },
}

/// A request to change an open handle.
#[derive(Debug)]
pub struct ServerDriveSetInformationRequest {
    pub device_io_request: DeviceIoRequest,
    pub set_buffer: SetBuffer,
}

/// A request to set a security descriptor.
#[derive(Debug)]
pub struct ServerDriveSetSecurityRequest {
    pub device_io_request: DeviceIoRequest,
    pub security_descriptor: Vec<u8>,
}

/// The requests that a drive serves.
#[derive(Debug)]
pub enum ServerDriveIoRequest {
    ServerCreateDriveRequest(DeviceCreateRequest),
    DeviceReadRequest(DeviceReadRequest),
    DeviceWriteRequest(DeviceWriteRequest),
    DeviceCloseRequest(DeviceIoRequest),
    DeviceFlushBuffersRequest(DeviceIoRequest),
    ServerDriveQueryDirectoryRequest(ServerDriveQueryDirectoryRequest),
    ServerDriveQueryInformationRequest(ServerDriveQueryInformationRequest),
    ServerDriveQueryVolumeInformationRequest(ServerDriveQueryVolumeInformationRequest),
    ServerDriveSetInformationRequest(ServerDriveSetInformationRequest),
    DeviceControlRequest(DeviceIoRequest),
    ServerDriveQuerySecurityRequest(DeviceIoRequest),
    ServerDriveSetSecurityRequest(ServerDriveSetSecurityRequest),
    ServerDriveNotifyChangeDirectoryRequest(DeviceIoRequest),
    ServerDriveLockControlRequest(DeviceIoRequest),
}

/// Timestamps and attributes.
#[derive(Clone, Copy, Debug, PartialEq, Eq, Structural)]
pub struct FileBasicInformation {
    pub creation_time: i64,
    pub last_access_time: i64,
    pub last_write_time: i64,
    pub change_time: i64,
    pub file_attributes: u32,
}

/// Size and kind.
#[derive(Clone, Copy, Debug, PartialEq, Eq, Structural)]
pub struct FileStandardInformation {
    pub allocation_size: i64,
    pub end_of_file: i64,
    pub number_of_links: u32,
    pub delete_pending: bool,
    pub directory: bool,
}

/// Attributes alone.
#[derive(Clone, Copy, Debug, PartialEq, Eq, Structural)]
pub struct FileAttributeTagInformation {
    pub file_attributes: u32,
    pub reparse_tag: u32,
}

/// A directory entry.
#[derive(Debug)]
pub struct FileDirectoryInformation {
    pub next_entry_offset: u32,
    pub file_index: u32,
    pub creation_time: i64,
    pub last_access_time: i64,
    pub last_write_time: i64,
    pub change_time: i64,
    pub end_of_file: i64,
    pub allocation_size: i64,
    pub file_attributes: u32,
    pub file_name: String,
}

/// A directory entry with the size of its extended attributes.
#[derive(Debug)]
pub struct FileFullDirectoryInformation {
    pub next_entry_offset: u32,
    pub file_index: u32,
    pub creation_time: i64,
    pub last_access_time: i64,
    pub last_write_time: i64,
    pub change_time: i64,
    pub end_of_file: i64,
    pub allocation_size: i64,
    pub file_attributes: u32,
    pub ea_size: u32,
    pub file_name: String,
}

/// A directory entry with the size of its extended attributes and its short name.
#[derive(Debug)]
pub struct FileBothDirectoryInformation {
    pub next_entry_offset: u32,
    pub file_index: u32,
    pub creation_time: i64,
    pub last_access_time: i64,
    pub last_write_time: i64,
    pub change_time: i64,
    pub end_of_file: i64,
    pub allocation_size: i64,
    pub file_attributes: u32,
    pub ea_size: u32,
    pub short_name_length: i8,
    pub short_name: [u8; 24],
    pub file_name: String,
}

/// The name of a directory entry.
#[derive(Debug)]
pub struct FileNamesInformation {
    pub next_entry_offset: u32,
    pub file_index: u32,
    pub file_name: String,
}

/// What an answer says of a file or a directory.
#[derive(Debug)]
pub enum FileInformationClass {
    Basic(FileBasicInformation),
    Standard(FileStandardInformation),
    AttributeTag(FileAttributeTagInformation),
    Directory(FileDirectoryInformation),
    FullDirectory(FileFullDirectoryInformation),
    BothDirectory(FileBothDirectoryInformation),
    Names(FileNamesInformation),
}

/// A directory entry of any of the kinds that carry more than a name. Only the wider kinds have
/// an extended-attribute size, and only the widest has a short name.
#[verifier::ext_equal]
pub struct EntryInformation {
    pub next_entry_offset: u32,
    pub file_index: u32,
    pub creation_time: i64,
    pub last_access_time: i64,
    pub last_write_time: i64,
    pub change_time: i64,
    pub end_of_file: i64,
    pub allocation_size: i64,
    pub file_attributes: u32,
    pub ea_size: Option<u32>,
    pub short_name_length: Option<i8>,
    pub short_name: Option<Seq<u8>>,
    pub file_name: Seq<char>,
}

/// What an answer says of a file or a directory.
#[verifier::ext_equal]
pub enum InformationModel {
    Basic(FileBasicInformation),
    Standard(FileStandardInformation),
    AttributeTag(FileAttributeTagInformation),
    Directory(EntryInformation),
    FullDirectory(EntryInformation),
    BothDirectory(EntryInformation),
    Names { next_entry_offset: u32, file_index: u32, file_name: Seq<char> },
}

impl View for FileDirectoryInformation {
    type V = EntryInformation;

    open spec fn view(&self) -> EntryInformation {
        EntryInformation {
            next_entry_offset: self.next_entry_offset,
            file_index: self.file_index,
            creation_time: self.creation_time,
            last_access_time: self.last_access_time,
            last_write_time: self.last_write_time,
            change_time: self.change_time,
            end_of_file: self.end_of_file,
            allocation_size: self.allocation_size,
            file_attributes: self.file_attributes,
            ea_size: None,
            short_name_length: None,
            short_name: None,
            file_name: self.file_name@,
        }
    }
}

impl View for FileFullDirectoryInformation {
    type V = EntryInformation;

    open spec fn view(&self) -> EntryInformation {
        EntryInformation {
            next_entry_offset: self.next_entry_offset,
            file_index: self.file_index,
            creation_time: self.creation_time,
            last_access_time: self.last_access_time,
            last_write_time: self.last_write_time,
            change_time: self.change_time,
            end_of_file: self.end_of_file,
            allocation_size: self.allocation_size,
            file_attributes: self.file_attributes,
            ea_size: Some(self.ea_size),
            short_name_length: None,
            short_name: None,
            file_name: self.file_name@,
        }
    }
}

impl View for FileBothDirectoryInformation {
    type V = EntryInformation;

    open spec fn view(&self) -> EntryInformation {
        EntryInformation {
            next_entry_offset: self.next_entry_offset,
            file_index: self.file_index,
            creation_time: self.creation_time,
            last_access_time: self.last_access_time,
            last_write_time: self.last_write_time,
            change_time: self.change_time,
            end_of_file: self.end_of_file,
            allocation_size: self.allocation_size,
            file_attributes: self.file_attributes,
            ea_size: Some(self.ea_size),
            short_name_length: Some(self.short_name_length),
            short_name: Some(self.short_name@),
            file_name: self.file_name@,
        }
    }
}

impl View for FileInformationClass {
    type V = InformationModel;

    open spec fn view(&self) -> InformationModel {
        match *self {
            FileInformationClass::Basic(i) => InformationModel::Basic(i),
            FileInformationClass::Standard(i) => InformationModel::Standard(i),
            FileInformationClass::AttributeTag(i) => InformationModel::AttributeTag(i),
            FileInformationClass::Directory(i) => InformationModel::Directory(i@),
            FileInformationClass::FullDirectory(i) => InformationModel::FullDirectory(i@),
            FileInformationClass::BothDirectory(i) => InformationModel::BothDirectory(i@),
            FileInformationClass::Names(i) => InformationModel::Names {
                next_entry_offset: i.next_entry_offset,
                file_index: i.file_index,
                file_name: i.file_name@,
            },
        }
    }
}

/// A directory entry that stands alone: no further entry follows it, it has no index, and its
/// allocation is its size.
pub open spec fn single_entry(
    creation_time: i64,
    last_access_time: i64,
    last_write_time: i64,
    change_time: i64,
    file_size: i64,
    file_attributes: u32,
    file_name: Seq<char>,
) -> EntryInformation {
    EntryInformation {
        next_entry_offset: 0,
        file_index: 0,
        creation_time,
        last_access_time,
        last_write_time,
        change_time,
        end_of_file: file_size,
        allocation_size: file_size,
        file_attributes,
        ea_size: None,
        short_name_length: None,
        short_name: None,
        file_name,
    }
}

impl FileDirectoryInformation {
    /// Calls `FileDirectoryInformation::new` of `ironrdp_rdpdr`, which keeps the timestamps, the
    /// attributes and the name, uses the size as length and allocation, and sets the offset and
    /// the index to zero.
    #[verifier::external_body]
    pub(crate) fn new(
        creation_time: i64,
        last_access_time: i64,
        last_write_time: i64,
        change_time: i64,
        file_size: i64,
        file_attributes: u32,
        file_name: String,
    ) -> (r: Self)
        ensures
            r@ == single_entry(
                creation_time,
                last_access_time,
                last_write_time,
                change_time,
                file_size,
                file_attributes,
                file_name@,
            ),
    {
        let attributes = FileAttributes::from_bits_retain(file_attributes);
        let i = ironrdp_rdpdr::pdu::efs::FileDirectoryInformation::new(
            creation_time, last_access_time, last_write_time, change_time, file_size, attributes, file_name,
        );
        FileDirectoryInformation {
            next_entry_offset: i.next_entry_offset, file_index: i.file_index,
            creation_time: i.creation_time, last_access_time: i.last_access_time,
            last_write_time: i.last_write_time, change_time: i.change_time,
            end_of_file: i.end_of_file, allocation_size: i.allocation_size,
            file_attributes: i.file_attributes.bits(), file_name: i.file_name,
        }
    }
}

impl FileFullDirectoryInformation {
    /// Calls `FileFullDirectoryInformation::new` of `ironrdp_rdpdr`, which keeps the timestamps,
    /// the attributes and the name, uses the size as length and allocation, and sets the offset,
    /// the index and the size of the extended attributes to zero.
    #[verifier::external_body]
    pub(crate) fn new(
        creation_time: i64,
        last_access_time: i64,
        last_write_time: i64,
        change_time: i64,
        file_size: i64,
        file_attributes: u32,
        file_name: String,
    ) -> (r: Self)
        ensures
            r@ == (EntryInformation {
                ea_size: Some(0),
                ..single_entry(
                    creation_time,
                    last_access_time,
                    last_write_time,
                    change_time,
                    file_size,
                    file_attributes,
                    file_name@,
                )
            }),
    {
        let attributes = FileAttributes::from_bits_retain(file_attributes);
        let i = ironrdp_rdpdr::pdu::efs::FileFullDirectoryInformation::new(
            creation_time, last_access_time, last_write_time, change_time, file_size, attributes, file_name,
        );
        FileFullDirectoryInformation {
            next_entry_offset: i.next_entry_offset, file_index: i.file_index,
            creation_time: i.creation_time, last_access_time: i.last_access_time,
            last_write_time: i.last_write_time, change_time: i.change_time,
            end_of_file: i.end_of_file, allocation_size: i.allocation_size,
            file_attributes: i.file_attributes.bits(), ea_size: i.ea_size, file_name: i.file_name,
        }
    }
}

impl FileBothDirectoryInformation {
    /// Calls `FileBothDirectoryInformation::new` of `ironrdp_rdpdr`, which keeps the timestamps,
    /// the attributes and the name, uses the size as length and allocation, sets the offset, the
    /// index and the size of the extended attributes to zero, and leaves the short name empty.
    #[verifier::external_body]
    pub(crate) fn new(
        creation_time: i64,
        last_access_time: i64,
        last_write_time: i64,
        change_time: i64,
        file_size: i64,
        file_attributes: u32,
        file_name: String,
    ) -> (r: Self)
        ensures
            r@ == (EntryInformation {
                ea_size: Some(0),
                short_name_length: Some(0),
                short_name: Some(Seq::new(24, |i: int| 0u8)),
                ..single_entry(
                    creation_time,
                    last_access_time,
                    last_write_time,
                    change_time,
                    file_size,
                    file_attributes,
                    file_name@,
                )
            }),
    {
        let attributes = FileAttributes::from_bits_retain(file_attributes);
        let i = ironrdp_rdpdr::pdu::efs::FileBothDirectoryInformation::new(
            creation_time, last_access_time, last_write_time, change_time, file_size, attributes, file_name,
        );
        FileBothDirectoryInformation {
            next_entry_offset: i.next_entry_offset, file_index: i.file_index,
            creation_time: i.creation_time, last_access_time: i.last_access_time,
            last_write_time: i.last_write_time, change_time: i.change_time,
            end_of_file: i.end_of_file, allocation_size: i.allocation_size,
            file_attributes: i.file_attributes.bits(), ea_size: i.ea_size, file_name: i.file_name,
            short_name_length: i.short_name_length, short_name: i.short_name,
        }
    }
}

impl FileNamesInformation {
    /// Calls `FileNamesInformation::new` of `ironrdp_rdpdr`, which keeps the name and sets the
    /// offset and the index to zero.
    #[verifier::external_body]
    pub(crate) fn new(file_name: String) -> (r: Self)
        ensures
            r.next_entry_offset == 0,
            r.file_index == 0,
            r.file_name@ == file_name@,
    {
        let i = ironrdp_rdpdr::pdu::efs::FileNamesInformation::new(file_name);
        FileNamesInformation {
            next_entry_offset: i.next_entry_offset,
            file_index: i.file_index,
            file_name: i.file_name,
        }
    }
}

/// What diagnostics call an outcome.
pub open spec fn status_name(io_status: u32) -> Seq<char> {
    if io_status == STATUS_SUCCESS {
        "STATUS_SUCCESS"@
    } else if io_status == STATUS_UNSUCCESSFUL {
        "STATUS_UNSUCCESSFUL"@
    } else if io_status == STATUS_NO_MORE_FILES {
        "STATUS_NO_MORE_FILES"@
    } else if io_status == STATUS_ACCESS_DENIED {
        "STATUS_ACCESS_DENIED"@
    } else if io_status == STATUS_NOT_A_DIRECTORY {
        "STATUS_NOT_A_DIRECTORY"@
    } else if io_status == STATUS_NO_SUCH_FILE {
        "STATUS_NO_SUCH_FILE"@
    } else {
        "STATUS_NOT_SUPPORTED"@
    }
}

/// The outcomes that the drive reports.
pub open spec fn is_reported(io_status: u32) -> bool {
    ||| io_status == STATUS_SUCCESS
    ||| io_status == STATUS_UNSUCCESSFUL
    ||| io_status == STATUS_NO_MORE_FILES
    ||| io_status == STATUS_ACCESS_DENIED
    ||| io_status == STATUS_NOT_A_DIRECTORY
    ||| io_status == STATUS_NO_SUCH_FILE
    ||| io_status == STATUS_NOT_SUPPORTED
}

/// Formats an `NtStatus` of `ironrdp_rdpdr` with its `Debug` impl, which writes the name of each
/// outcome that the drive reports.
#[verifier::external_body]
pub(crate) fn status_text(io_status: u32) -> (r: String)
    requires
        is_reported(io_status),
    ensures
        r@ == status_name(io_status),
{
    format!("{:?}", NtStatus::from(io_status))
}

/// What diagnostics call a class of file information.
pub open spec fn level_name(level: u32) -> Seq<char> {
    if level == FILE_BASIC_INFORMATION {
        "FileBasicInformation"@
    } else if level == FILE_STANDARD_INFORMATION {
        "FileStandardInformation"@
    } else if level == FILE_ATTRIBUTE_TAG_INFORMATION {
        "FileAttributeTagInformation"@
    } else if level == FILE_DIRECTORY_INFORMATION {
        "FileDirectoryInformation"@
    } else if level == FILE_FULL_DIRECTORY_INFORMATION {
        "FileFullDirectoryInformation"@
    } else if level == FILE_BOTH_DIRECTORY_INFORMATION {
        "FileBothDirectoryInformation"@
    } else if level == FILE_STREAM_INFORMATION {
        "FileStreamInformation"@
    } else if level == FILE_NAMES_INFORMATION {
        "FileNamesInformation"@
    } else {
        "FileInformationClassLevel("@ + decimal(level as nat) + ")"@
    }
}

/// Formats a `FileInformationClassLevel` of `ironrdp_rdpdr` with its `Debug` impl, which writes
/// the name of eight classes and the number of any other.
#[verifier::external_body]
pub(crate) fn level_text(level: u32) -> (r: String)
    ensures
        r@ == level_name(level),
{
    format!("{:?}", FileInformationClassLevel::from(level))
}

/// The first character that UTF-16 writes as a pair of units.
pub const FIRST_PAIRED: char = '\u{10000}';

/// The number of UTF-16 units of a text.
pub open spec fn utf16_units(text: Seq<char>) -> nat
    decreases text.len(),
{
    if text.len() == 0 {
        0
    } else {
        utf16_units(text.drop_last()) + if text.last() >= FIRST_PAIRED {
            2nat
        } else {
            1nat
        }
    }
}

/// The length of the encoding of what a request sets. A new path takes a flag byte, a directory
/// byte, a length field and its UTF-16 units with a terminator.
pub open spec fn set_buffer_size(set_buffer: SetBuffer) -> nat {
    match set_buffer {
        SetBuffer::Basic => 36,
        SetBuffer::EndOfFile => 8,
        SetBuffer::Disposition => 1,
        SetBuffer::Rename { file_name } => 6 + 2 * (utf16_units(file_name@) + 1),
        SetBuffer::Allocation => 8,
        SetBuffer::Other { size } => size as nat,
    }
}

/// The text takes so many UTF-16 units, as far as a length field can hold the bytes of them.
fn count_utf16_units(text: &str) -> (r: Option<u32>)
    ensures
        match r {
            Some(n) => n == utf16_units(text@) && n <= 0x7FFF_FFFF,
            None => utf16_units(text@) > 0x7FFF_FFFF,
        },
{
    let chars = chars_of(text);
    let mut n: u32 = 0;
    let mut i: usize = 0;
    while i < chars.len()
        invariant
            i <= chars@.len(),
            chars@ == text@,
            n == utf16_units(chars@.take(i as int)),
            n <= 0x7FFF_FFFF,
        decreases chars@.len() - i,
    {
        let units: u32 = if chars[i] >= FIRST_PAIRED {
            2
        } else {
            1
        };
        proof {
            assert(chars@.take(i + 1).drop_last() =~= chars@.take(i as int));
            lemma_units_grow(text@, i + 1);
        }
        if n + units > 0x7FFF_FFFF {
            return None;
        }
        n = n + units;
        i = i + 1;
    }
    assert(chars@.take(i as int) =~= text@);
    Some(n)
}

proof fn lemma_units_grow(text: Seq<char>, i: int)
    requires
        0 <= i <= text.len(),
    ensures
        utf16_units(text.take(i)) <= utf16_units(text),
    decreases text.len() - i,
{
    if i < text.len() {
        lemma_units_grow(text, i + 1);
        assert(text.take(i + 1).drop_last() =~= text.take(i));
    } else {
        assert(text.take(i) =~= text);
    }
}

/// The length that the answer to a set request repeats, where a length field can hold it.
pub fn set_buffer_length(set_buffer: &SetBuffer) -> (r: Option<u32>)
    ensures
        match r {
            Some(n) => n == set_buffer_size(*set_buffer),
            None => set_buffer_size(*set_buffer) > u32::MAX,
        },
{
    match set_buffer {
        SetBuffer::Basic => Some(36),
        SetBuffer::EndOfFile => Some(8),
        SetBuffer::Disposition => Some(1),
        SetBuffer::Rename { file_name } => match count_utf16_units(file_name.as_str()) {
            Some(n) => if n <= 0x7FFF_FFFB {
                Some(2 * n + 8)
            } else {
                None
            },
            None => None,
        },
        SetBuffer::Allocation => Some(8),
        SetBuffer::Other { size } => if *size <= u32::MAX as usize {
            Some(*size as u32)
        } else {
            None
        },
    }
}

} // verus!
