//! The answers of a drive.

use vstd::prelude::*;
use vstd::string::*;

use crate::efs::{DeviceIoResponse, FileInformationClass, InformationModel};

verus! {

/// Age, number and label of a volume.
#[derive(Debug)]
pub struct FileFsVolumeInformation {
    pub volume_creation_time: i64,
    pub volume_serial_number: u32,
    pub supports_objects: bool,
    pub volume_label: String,
}

/// Size of a volume.
#[derive(Clone, Copy, Debug, PartialEq, Eq, Structural)]
pub struct FileFsSizeInformation {
    pub total_alloc_units: i64,
    pub available_alloc_units: i64,
    pub sectors_per_alloc_unit: u32,
    pub bytes_per_sector: u32,
}

/// What kind of file system a volume holds.
#[derive(Debug)]
pub struct FileFsAttributeInformation {
    pub file_system_attributes: u32,
    pub max_component_name_len: u32,
    pub file_system_name: String,
}

/// Size of a volume, with what is left for the caller.
#[derive(Clone, Copy, Debug, PartialEq, Eq, Structural)]
pub struct FileFsFullSizeInformation {
    pub total_alloc_units: i64,
    pub caller_available_alloc_units: i64,
    pub actual_available_alloc_units: i64,
    pub sectors_per_alloc_unit: u32,
    pub bytes_per_sector: u32,
}

/// What an answer says of the volume.
#[derive(Debug)]
pub enum FileSystemInformationClass {
    FileFsVolumeInformation(FileFsVolumeInformation),
    FileFsSizeInformation(FileFsSizeInformation),
    FileFsAttributeInformation(FileFsAttributeInformation),
    FileFsFullSizeInformation(FileFsFullSizeInformation),
}

/// What an answer says of the volume.
#[verifier::ext_equal]
pub enum VolumeModel {
    Volume {
        creation_time: i64,
        serial_number: u32,
        supports_objects: bool,
        label: Seq<char>,
    },
    Size(FileFsSizeInformation),
    Attribute { attributes: u32, max_component_name_len: u32, name: Seq<char> },
    FullSize(FileFsFullSizeInformation),
}

impl View for FileSystemInformationClass {
    type V = VolumeModel;

    open spec fn view(&self) -> VolumeModel {
        match *self {
            FileSystemInformationClass::FileFsVolumeInformation(i) => VolumeModel::Volume {
                creation_time: i.volume_creation_time,
                serial_number: i.volume_serial_number,
                supports_objects: i.supports_objects,
                label: i.volume_label@,
            },
            FileSystemInformationClass::FileFsSizeInformation(i) => VolumeModel::Size(i),
            FileSystemInformationClass::FileFsAttributeInformation(i) => VolumeModel::Attribute {
                attributes: i.file_system_attributes,
                max_component_name_len: i.max_component_name_len,
                name: i.file_system_name@,
            },
            FileSystemInformationClass::FileFsFullSizeInformation(i) => VolumeModel::FullSize(i),
        }
    }
}

/// An answer to a request. The answers to control, notification and query-security requests carry
/// no data.
#[derive(Debug)]
pub enum DriveResponse {
    DeviceCreateResponse { device_io_reply: DeviceIoResponse, file_id: u32, information: u8 },
    DeviceReadResponse { device_io_reply: DeviceIoResponse, read_data: Vec<u8> },
    DeviceWriteResponse { device_io_reply: DeviceIoResponse, length: u32 },
    DeviceCloseResponse { device_io_reply: DeviceIoResponse },
    DeviceFlushBuffersResponse { device_io_reply: DeviceIoResponse },
    ClientDriveQueryDirectoryResponse {
        device_io_reply: DeviceIoResponse,
        buffer: Option<FileInformationClass>,
    },
    ClientDriveQueryInformationResponse {
        device_io_reply: DeviceIoResponse,
        buffer: Option<FileInformationClass>,
    },
    ClientDriveQueryVolumeInformationResponse {
        device_io_reply: DeviceIoResponse,
        buffer: Option<FileSystemInformationClass>,
    },
    ClientDriveSetInformationResponse { device_io_reply: DeviceIoResponse, length: u32 },
    DeviceControlResponse { device_io_reply: DeviceIoResponse },
    ClientDriveQuerySecurityResponse { device_io_reply: DeviceIoResponse },
    ClientDriveSetSecurityResponse { device_io_reply: DeviceIoResponse, length: u32 },
    ClientDriveNotifyChangeDirectoryResponse { device_io_reply: DeviceIoResponse },
    ClientDriveLockControlResponse { device_io_reply: DeviceIoResponse },
}

/// An answer to a request.
#[verifier::ext_equal]
pub enum ResponseModel {
    Create { reply: DeviceIoResponse, file_id: u32, information: u8 },
    Read { reply: DeviceIoResponse, data: Seq<u8> },
    Write { reply: DeviceIoResponse, length: u32 },
    Close { reply: DeviceIoResponse },
    FlushBuffers { reply: DeviceIoResponse },
    QueryDirectory { reply: DeviceIoResponse, buffer: Option<InformationModel> },
    QueryInformation { reply: DeviceIoResponse, buffer: Option<InformationModel> },
    QueryVolume { reply: DeviceIoResponse, buffer: Option<VolumeModel> },
    SetInformation { reply: DeviceIoResponse, length: u32 },
    Control { reply: DeviceIoResponse },
    QuerySecurity { reply: DeviceIoResponse },
    SetSecurity { reply: DeviceIoResponse, length: u32 },
    NotifyChangeDirectory { reply: DeviceIoResponse },
    LockControl { reply: DeviceIoResponse },
}

impl ResponseModel {
    /// The part that every answer has.
    pub open spec fn reply(self) -> DeviceIoResponse {
        match self {
            ResponseModel::Create { reply, .. } => reply,
            ResponseModel::Read { reply, .. } => reply,
            ResponseModel::Write { reply, .. } => reply,
            ResponseModel::Close { reply } => reply,
            ResponseModel::FlushBuffers { reply } => reply,
            ResponseModel::QueryDirectory { reply, .. } => reply,
            ResponseModel::QueryInformation { reply, .. } => reply,
            ResponseModel::QueryVolume { reply, .. } => reply,
            ResponseModel::SetInformation { reply, .. } => reply,
            ResponseModel::Control { reply } => reply,
            ResponseModel::QuerySecurity { reply } => reply,
            ResponseModel::SetSecurity { reply, .. } => reply,
            ResponseModel::NotifyChangeDirectory { reply } => reply,
            ResponseModel::LockControl { reply } => reply,
        }
    }
}

/// The view inside an option.
pub open spec fn viewed<T: View>(o: Option<T>) -> Option<T::V> {
    match o {
        Some(t) => Some(t@),
        None => None,
    }
}

impl View for DriveResponse {
    type V = ResponseModel;

    open spec fn view(&self) -> ResponseModel {
        match *self {
            DriveResponse::DeviceCreateResponse { device_io_reply, file_id, information } =>
                ResponseModel::Create { reply: device_io_reply, file_id, information },
            DriveResponse::DeviceReadResponse { device_io_reply, read_data } =>
                ResponseModel::Read { reply: device_io_reply, data: read_data@ },
            DriveResponse::DeviceWriteResponse { device_io_reply, length } =>
                ResponseModel::Write { reply: device_io_reply, length },
            DriveResponse::DeviceCloseResponse { device_io_reply } => ResponseModel::Close {
                reply: device_io_reply,
            },
            DriveResponse::DeviceFlushBuffersResponse { device_io_reply } =>
                ResponseModel::FlushBuffers { reply: device_io_reply },
            DriveResponse::ClientDriveQueryDirectoryResponse { device_io_reply, buffer } =>
                ResponseModel::QueryDirectory { reply: device_io_reply, buffer: viewed(buffer) },
            DriveResponse::ClientDriveQueryInformationResponse { device_io_reply, buffer } =>
                ResponseModel::QueryInformation { reply: device_io_reply, buffer: viewed(buffer) },
            DriveResponse::ClientDriveQueryVolumeInformationResponse { device_io_reply, buffer } =>
                ResponseModel::QueryVolume { reply: device_io_reply, buffer: viewed(buffer) },
            DriveResponse::ClientDriveSetInformationResponse { device_io_reply, length } =>
                ResponseModel::SetInformation { reply: device_io_reply, length },
            DriveResponse::DeviceControlResponse { device_io_reply } => ResponseModel::Control {
                reply: device_io_reply,
            },
            DriveResponse::ClientDriveQuerySecurityResponse { device_io_reply } =>
                ResponseModel::QuerySecurity { reply: device_io_reply },
            DriveResponse::ClientDriveSetSecurityResponse { device_io_reply, length } =>
                ResponseModel::SetSecurity { reply: device_io_reply, length },
            DriveResponse::ClientDriveNotifyChangeDirectoryResponse { device_io_reply } =>
                ResponseModel::NotifyChangeDirectory { reply: device_io_reply },
            DriveResponse::ClientDriveLockControlResponse { device_io_reply } =>
                ResponseModel::LockControl { reply: device_io_reply },
        }
    }
}

/// What the answers are.
pub open spec fn answers(responses: Seq<DriveResponse>) -> Seq<ResponseModel> {
    responses.map_values(|r: DriveResponse| r@)
}

} // verus!
