//! What the plain values of the protocol stand for.

use vstd::prelude::*;
use vstd::string::*;

use crate::backend::{messages, DriveBackendMessage, OpenHandle};
use crate::backend_model::MessageModel;
use crate::drive::{lines, VirtualFile};
use crate::efs::{
    level_name, set_buffer_size, single_entry, status_name, utf16_units, FileInformationClass,
    InformationModel, SetBuffer, FIRST_PAIRED,
};
use crate::filetime::filetime;
use crate::response::{
    answers, DriveResponse, FileSystemInformationClass, ResponseModel, VolumeModel,
};
use crate::text::decimal;

verus! {

/// A character below 65,536 takes one UTF-16 unit and any other two, and the units of a text are
/// those of its parts.
pub proof fn law_utf16_units(c: char, a: Seq<char>, b: Seq<char>)
    ensures
        utf16_units(Seq::empty()) == 0,
        (c as int) < 0x1_0000 ==> utf16_units(seq![c]) == 1,
        (c as int) >= 0x1_0000 ==> utf16_units(seq![c]) == 2,
        utf16_units(a + b) == utf16_units(a) + utf16_units(b),
    decreases b.len(),
{
    let one = seq![c];
    assert(one.drop_last() =~= Seq::empty());
    assert(utf16_units(one.drop_last()) == 0);
    assert(one.last() == c);
    assert(utf16_units(one) == if c >= FIRST_PAIRED {
        2nat
    } else {
        1nat
    });
    if b.len() == 0 {
        assert(a + b =~= a);
    } else {
        law_utf16_units(c, a, b.drop_last());
        assert((a + b).drop_last() =~= a + b.drop_last());
        assert((a + b).last() == b.last());
    }
}

/// The length that the answer to a set request repeats: that of the encoding of what is set.
pub proof fn law_set_lengths(set_buffer: SetBuffer)
    ensures
        set_buffer is Basic ==> set_buffer_size(set_buffer) == 36,
        set_buffer is EndOfFile ==> set_buffer_size(set_buffer) == 8,
        set_buffer is Allocation ==> set_buffer_size(set_buffer) == 8,
        set_buffer is Disposition ==> set_buffer_size(set_buffer) == 1,
        set_buffer is Rename ==> set_buffer_size(set_buffer) == 8 + 2 * utf16_units(
            set_buffer->file_name@,
        ),
        set_buffer is Other ==> set_buffer_size(set_buffer) == set_buffer->size,
{
}

/// What diagnostics call the outcomes.
pub proof fn law_status_names()
    ensures
        status_name(0) == "STATUS_SUCCESS"@,
        status_name(0xC000_0001) == "STATUS_UNSUCCESSFUL"@,
        status_name(0x8000_0006) == "STATUS_NO_MORE_FILES"@,
        status_name(0xC000_0022) == "STATUS_ACCESS_DENIED"@,
        status_name(0xC000_0103) == "STATUS_NOT_A_DIRECTORY"@,
        status_name(0xC000_000F) == "STATUS_NO_SUCH_FILE"@,
        status_name(0xC000_00BB) == "STATUS_NOT_SUPPORTED"@,
{
}

/// What diagnostics call the classes of file information: eight by name, any other by number.
pub proof fn law_level_names(level: u32)
    ensures
        level_name(1) == "FileDirectoryInformation"@,
        level_name(2) == "FileFullDirectoryInformation"@,
        level_name(3) == "FileBothDirectoryInformation"@,
        level_name(4) == "FileBasicInformation"@,
        level_name(5) == "FileStandardInformation"@,
        level_name(12) == "FileNamesInformation"@,
        level_name(22) == "FileStreamInformation"@,
        level_name(35) == "FileAttributeTagInformation"@,
        level == 0 || (level > 5 && level != 12 && level != 22 && level != 35) ==> level_name(level)
            == "FileInformationClassLevel("@ + decimal(level as nat) + ")"@,
{
}

/// A timestamp counts 10,000 ticks for each millisecond from 1601 on, as far as it can. Beyond
/// the end it stays at the greatest value; before the range of the ticks it stays at the least
/// count of ticks.
pub proof fn law_timestamps(millis: i64)
    ensures
        i64::MIN <= millis * 10_000 && millis * 10_000 + 116_444_736_000_000_000 <= i64::MAX
            ==> filetime(millis) == millis * 10_000 + 116_444_736_000_000_000,
        millis * 10_000 + 116_444_736_000_000_000 > i64::MAX ==> filetime(millis) == i64::MAX,
        millis * 10_000 < i64::MIN ==> filetime(millis) == i64::MIN + 116_444_736_000_000_000,
{
}

/// The view of a file shows its size, its content where it is held, and its time.
pub proof fn law_view_of_a_file(file: VirtualFile)
    ensures
        file@.size == file.size,
        file@.last_modified == file.last_modified,
        file@.data is Some <==> file.data is Some,
        file.data is Some ==> file@.data->0 == file.data->0@,
{
}

/// The view of a handle shows its path, its kind, its mark and each entry that is left.
pub proof fn law_view_of_a_handle(handle: OpenHandle, i: int)
    ensures
        handle@.path == handle.path@,
        handle@.directory == handle.directory,
        handle@.written == handle.written,
        handle@.children is Some <==> handle.children is Some,
        handle.children matches Some(entries) ==> {
            &&& handle@.children->0.len() == entries@.len()
            &&& 0 <= i < entries@.len() ==> handle@.children->0[i] == (
                entries@[i].0@,
                entries@[i].1,
                entries@[i].2,
                entries@[i].3,
            )
        },
{
}

/// The view of the messages shows each message with every part of it, in order.
pub proof fn law_view_of_messages(outbox: Seq<DriveBackendMessage>, i: int)
    requires
        0 <= i < outbox.len(),
    ensures
        messages(outbox).len() == outbox.len(),
        match outbox[i] {
            DriveBackendMessage::ReadRequested { request_id, name, offset, length } => messages(
                outbox,
            )[i] == (MessageModel::ReadRequested { request_id, name: name@, offset, length }),
            DriveBackendMessage::Completed { name, data } => messages(outbox)[i] == (
            MessageModel::Completed { name: name@, data: data@ }),
            DriveBackendMessage::Diagnostic(text) => messages(outbox)[i]
                == MessageModel::Diagnostic(text@),
        },
{
}

/// The view of the answers shows each answer with every part of it, in order.
pub proof fn law_view_of_answers(responses: Seq<DriveResponse>, i: int)
    requires
        0 <= i < responses.len(),
    ensures
        answers(responses).len() == responses.len(),
        match responses[i] {
            DriveResponse::DeviceCreateResponse { device_io_reply, file_id, information } =>
                answers(responses)[i] == (ResponseModel::Create {
                    reply: device_io_reply,
                    file_id,
                    information,
                }),
            DriveResponse::DeviceReadResponse { device_io_reply, read_data } => answers(
                responses,
            )[i] == (ResponseModel::Read { reply: device_io_reply, data: read_data@ }),
            DriveResponse::DeviceWriteResponse { device_io_reply, length } => answers(responses)[i]
                == (ResponseModel::Write { reply: device_io_reply, length }),
            DriveResponse::DeviceCloseResponse { device_io_reply } => answers(responses)[i] == (
            ResponseModel::Close { reply: device_io_reply }),
            DriveResponse::DeviceFlushBuffersResponse { device_io_reply } => answers(responses)[i]
                == (ResponseModel::FlushBuffers { reply: device_io_reply }),
            DriveResponse::ClientDriveQueryDirectoryResponse { device_io_reply, buffer } => {
                &&& answers(responses)[i] is QueryDirectory
                &&& answers(responses)[i].reply() == device_io_reply
                &&& answers(responses)[i]->QueryDirectory_buffer is Some <==> buffer is Some
                &&& buffer is Some ==> answers(responses)[i]->QueryDirectory_buffer->0
                    == buffer->0@
            },
            DriveResponse::ClientDriveQueryInformationResponse { device_io_reply, buffer } => {
                &&& answers(responses)[i] is QueryInformation
                &&& answers(responses)[i].reply() == device_io_reply
                &&& answers(responses)[i]->QueryInformation_buffer is Some <==> buffer is Some
                &&& buffer is Some ==> answers(responses)[i]->QueryInformation_buffer->0
                    == buffer->0@
            },
            DriveResponse::ClientDriveQueryVolumeInformationResponse { device_io_reply, buffer } => {
                &&& answers(responses)[i] is QueryVolume
                &&& answers(responses)[i].reply() == device_io_reply
                &&& answers(responses)[i]->QueryVolume_buffer is Some <==> buffer is Some
                &&& buffer is Some ==> answers(responses)[i]->QueryVolume_buffer->0 == buffer->0@
            },
            DriveResponse::ClientDriveSetInformationResponse { device_io_reply, length } =>
                answers(responses)[i] == (ResponseModel::SetInformation {
                    reply: device_io_reply,
                    length,
                }),
            DriveResponse::DeviceControlResponse { device_io_reply } => answers(responses)[i] == (
            ResponseModel::Control { reply: device_io_reply }),
            DriveResponse::ClientDriveQuerySecurityResponse { device_io_reply } => answers(
                responses,
            )[i] == (ResponseModel::QuerySecurity { reply: device_io_reply }),
            DriveResponse::ClientDriveSetSecurityResponse { device_io_reply, length } => answers(
                responses,
            )[i] == (ResponseModel::SetSecurity { reply: device_io_reply, length }),
            DriveResponse::ClientDriveNotifyChangeDirectoryResponse { device_io_reply } => answers(
                responses,
            )[i] == (ResponseModel::NotifyChangeDirectory { reply: device_io_reply }),
            DriveResponse::ClientDriveLockControlResponse { device_io_reply } => answers(
                responses,
            )[i] == (ResponseModel::LockControl { reply: device_io_reply }),
        },
{
}

/// The part of an answer that every answer has.
pub proof fn law_reply_of_an_answer(response: ResponseModel)
    ensures
        match response {
            ResponseModel::Create { reply, .. } => response.reply() == reply,
            ResponseModel::Read { reply, .. } => response.reply() == reply,
            ResponseModel::Write { reply, .. } => response.reply() == reply,
            ResponseModel::Close { reply } => response.reply() == reply,
            ResponseModel::FlushBuffers { reply } => response.reply() == reply,
            ResponseModel::QueryDirectory { reply, .. } => response.reply() == reply,
            ResponseModel::QueryInformation { reply, .. } => response.reply() == reply,
            ResponseModel::QueryVolume { reply, .. } => response.reply() == reply,
            ResponseModel::SetInformation { reply, .. } => response.reply() == reply,
            ResponseModel::Control { reply } => response.reply() == reply,
            ResponseModel::QuerySecurity { reply } => response.reply() == reply,
            ResponseModel::SetSecurity { reply, .. } => response.reply() == reply,
            ResponseModel::NotifyChangeDirectory { reply } => response.reply() == reply,
            ResponseModel::LockControl { reply } => response.reply() == reply,
        },
{
}

/// The view of what an answer says of a file shows every field.
pub proof fn law_view_of_information(info: FileInformationClass)
    ensures
        match info {
            FileInformationClass::Basic(i) => info@ == InformationModel::Basic(i),
            FileInformationClass::Standard(i) => info@ == InformationModel::Standard(i),
            FileInformationClass::AttributeTag(i) => info@ == InformationModel::AttributeTag(i),
            FileInformationClass::Directory(i) => {
                &&& info@ is Directory
                &&& info@->Directory_0.next_entry_offset == i.next_entry_offset
                &&& info@->Directory_0.file_index == i.file_index
                &&& info@->Directory_0.creation_time == i.creation_time
                &&& info@->Directory_0.last_access_time == i.last_access_time
                &&& info@->Directory_0.last_write_time == i.last_write_time
                &&& info@->Directory_0.change_time == i.change_time
                &&& info@->Directory_0.end_of_file == i.end_of_file
                &&& info@->Directory_0.allocation_size == i.allocation_size
                &&& info@->Directory_0.file_attributes == i.file_attributes
                &&& info@->Directory_0.file_name == i.file_name@
            },
            FileInformationClass::FullDirectory(i) => {
                &&& info@ is FullDirectory
                &&& info@->FullDirectory_0.next_entry_offset == i.next_entry_offset
                &&& info@->FullDirectory_0.file_index == i.file_index
                &&& info@->FullDirectory_0.creation_time == i.creation_time
                &&& info@->FullDirectory_0.last_access_time == i.last_access_time
                &&& info@->FullDirectory_0.last_write_time == i.last_write_time
                &&& info@->FullDirectory_0.change_time == i.change_time
                &&& info@->FullDirectory_0.end_of_file == i.end_of_file
                &&& info@->FullDirectory_0.allocation_size == i.allocation_size
                &&& info@->FullDirectory_0.file_attributes == i.file_attributes
                &&& info@->FullDirectory_0.ea_size == Some(i.ea_size)
                &&& info@->FullDirectory_0.file_name == i.file_name@
            },
            FileInformationClass::BothDirectory(i) => {
                &&& info@ is BothDirectory
                &&& info@->BothDirectory_0.next_entry_offset == i.next_entry_offset
                &&& info@->BothDirectory_0.file_index == i.file_index
                &&& info@->BothDirectory_0.creation_time == i.creation_time
                &&& info@->BothDirectory_0.last_access_time == i.last_access_time
                &&& info@->BothDirectory_0.last_write_time == i.last_write_time
                &&& info@->BothDirectory_0.change_time == i.change_time
                &&& info@->BothDirectory_0.end_of_file == i.end_of_file
                &&& info@->BothDirectory_0.allocation_size == i.allocation_size
                &&& info@->BothDirectory_0.file_attributes == i.file_attributes
                &&& info@->BothDirectory_0.ea_size == Some(i.ea_size)
                &&& info@->BothDirectory_0.short_name_length == Some(i.short_name_length)
                &&& info@->BothDirectory_0.short_name == Some(i.short_name@)
                &&& info@->BothDirectory_0.file_name == i.file_name@
            },
            FileInformationClass::Names(i) => info@ == (InformationModel::Names {
                next_entry_offset: i.next_entry_offset,
                file_index: i.file_index,
                file_name: i.file_name@,
            }),
        },
{
}

/// The view of what an answer says of the volume shows every field.
pub proof fn law_view_of_volume_information(info: FileSystemInformationClass)
    ensures
        match info {
            FileSystemInformationClass::FileFsVolumeInformation(i) => info@ == (
            VolumeModel::Volume {
                creation_time: i.volume_creation_time,
                serial_number: i.volume_serial_number,
                supports_objects: i.supports_objects,
                label: i.volume_label@,
            }),
            FileSystemInformationClass::FileFsSizeInformation(i) => info@ == VolumeModel::Size(i),
            FileSystemInformationClass::FileFsAttributeInformation(i) => info@ == (
            VolumeModel::Attribute {
                attributes: i.file_system_attributes,
                max_component_name_len: i.max_component_name_len,
                name: i.file_system_name@,
            }),
            FileSystemInformationClass::FileFsFullSizeInformation(i) => info@
                == VolumeModel::FullSize(i),
        },
{
}

/// A listing is viewed line by line.
pub proof fn law_view_of_a_listing(entries: Seq<(String, bool, usize, i64)>, i: int)
    requires
        0 <= i < entries.len(),
    ensures
        lines(entries).len() == entries.len(),
        lines(entries)[i] == (entries[i].0@, entries[i].1, entries[i].2, entries[i].3),
{
}

/// A directory entry that stands alone repeats what it is given: the four timestamps each in
/// their place, the size for length and allocation, the attributes and the name.
pub proof fn law_single_entry(
    creation_time: i64,
    last_access_time: i64,
    last_write_time: i64,
    change_time: i64,
    file_size: i64,
    file_attributes: u32,
    file_name: Seq<char>,
)
    ensures
        ({
            let entry = single_entry(
                creation_time,
                last_access_time,
                last_write_time,
                change_time,
                file_size,
                file_attributes,
                file_name,
            );
            &&& entry.next_entry_offset == 0
            &&& entry.file_index == 0
            &&& entry.creation_time == creation_time
            &&& entry.last_access_time == last_access_time
            &&& entry.last_write_time == last_write_time
            &&& entry.change_time == change_time
            &&& entry.end_of_file == file_size
            &&& entry.allocation_size == file_size
            &&& entry.file_attributes == file_attributes
            &&& entry.file_name == file_name
        }),
{
}

} // verus!
