//! The client: the commands of the protocol as calls.
use crate::cbor::access::empty_payload;
use crate::cbor::value::{encode_value, CborModel, CborValue};
use crate::commands::fs::{
    FileChecksum, FileChecksumResponse, FileChecksumResponseView, FileChecksumView, FileClose,
    FileStatus, FileStatusResponse, FileStatusView, SupportedFileChecksumTypes,
    SupportedFileChecksumTypesResponse, SupportedFileChecksumTypesResponseView,
};
use crate::commands::image::{ImageStateWrite, ImageStateWriteView};
use crate::commands::os::{
    BootloaderInfo, BootloaderInfoResponse, BootloaderInfoResponseView, Echo, EchoResponseView,
    EchoView, MCUmgrParameters, MCUmgrParametersResponse, SystemReset, TaskStatistics,
    TaskStatisticsResponse, TaskStatisticsResponseView,
};
use crate::commands::shell::{
    ShellCommandLineExecute, ShellCommandLineExecuteResponse, ShellCommandLineExecuteResponseView,
    ShellCommandLineExecuteView,
};
use crate::commands::McuMgrCommand;
use crate::connection::{parsed, reports_run, sent_for, Connection, ExecuteError};
use crate::progress::ProgressCallback;
use crate::transfer::{
    chunk_capacity, download, download_fits, download_run, download_view, upload, upload_plan,
    upload_run, DownloadState, FileDownloadError, FileUploadError, ImageUploadError, UploadState,
    UploadTarget, UploadTargetView,
};
use crate::transport::Transport;
use vstd::prelude::*;
use vstd::string::StringExecFns;

verus! {

/// The frame size that every device takes.
pub const DEFAULT_FRAME_SIZE: usize = 256;

/// A client of one device.
pub struct MCUmgrClient<T: Transport> {
    /// The connection that this client drives.
    pub connection: Connection<T>,
    /// The largest frame that this client sends in a transfer.
    pub smp_frame_size: usize,
}

impl<T: Transport> MCUmgrClient<T> {
    /// A client over `transport` that has sent nothing yet.
    pub fn new(transport: T) -> (client: Self)
        ensures
            client.connection.history().len() == 0,
            client.connection.next_sequence() == 0,
            client.connection.owned() == transport,
            client.smp_frame_size == DEFAULT_FRAME_SIZE,
    {
        MCUmgrClient { connection: Connection::new(transport), smp_frame_size: DEFAULT_FRAME_SIZE }
    }

    /// The transport.
    pub fn transport(&self) -> (transport: &T)
        ensures
            *transport == self.connection.owned(),
    {
        self.connection.transport()
    }

    /// Sets the largest frame that this client sends in a transfer.
    pub fn set_frame_size(&mut self, smp_frame_size: usize)
        ensures
            final(self).smp_frame_size == smp_frame_size,
            final(self).connection == old(self).connection,
    {
        self.smp_frame_size = smp_frame_size;
    }

    /// Asks the device for the size of its buffers and takes it as the
    /// largest frame of a transfer. Where the device does not say, the
    /// frame size stays.
    pub fn use_auto_frame_size(&mut self) -> (r: Result<(), ExecuteError>)
        ensures
            final(self).connection.follows(
                old(self).connection,
                MCUmgrParameters::identity(),
                encode_value(empty_payload()),
            ),
            match parsed(
                final(self).connection.answer_item(
                    old(self).connection,
                    MCUmgrParameters::identity(),
                    encode_value(empty_payload()),
                ),
                |m: CborModel| MCUmgrParametersResponse::parse(m),
            ) {
                Ok(response) => r is Ok && final(self).smp_frame_size == response.buf_size,
                Err(e) => r matches Err(f) && f == e && final(self).smp_frame_size == old(self).smp_frame_size,
            },
    {
        let response = self.connection.execute_command(&MCUmgrParameters)?;
        self.smp_frame_size = response.buf_size as usize;
        Ok(())
    }

    /// Executes `command` and gives its response.
    pub fn raw_command<C: McuMgrCommand>(&mut self, command: &C) -> (r: Result<
        C::Response,
        ExecuteError,
    >)
        ensures
            final(self).smp_frame_size == old(self).smp_frame_size,
            exists|identity: crate::commands::CommandIdentity, data: CborValue|
                {
                    &&& #[trigger] sent_for(command, identity, data)
                    &&& final(self).connection.follows(
                        old(self).connection,
                        identity,
                        encode_value(data@),
                    )
                    &&& match final(self).connection.answer_item(
                        old(self).connection,
                        identity,
                        encode_value(data@),
                    ) {
                        Err(e) => r matches Err(f) && f == e,
                        Ok(m) => exists|item: CborValue, parsed: Result<C::Response, crate::cbor::decode::CodecError>|
                            {
                                &&& item@ == m
                                &&& #[trigger] call_ensures(
                                    C::parse_response,
                                    (command, &item),
                                    parsed,
                                )
                                &&& match parsed {
                                    Ok(response) => r == Ok::<C::Response, ExecuteError>(response),
                                    Err(e) => r matches Err(f) && f == ExecuteError::Codec(e),
                                }
                            },
                    }
                },
    {
        self.connection.execute_command(command)
    }

    /// Sends `msg` to the device and gives the text that comes back.
    pub fn os_echo(&mut self, msg: &str) -> (r: Result<String, ExecuteError>)
        ensures
            final(self).smp_frame_size == old(self).smp_frame_size,
            final(self).connection.follows(
                old(self).connection,
                Echo::identity(),
                encode_value(EchoView { d: msg@ }.payload()),
            ),
            match parsed(
                final(self).connection.answer_item(
                    old(self).connection,
                    Echo::identity(),
                    encode_value(EchoView { d: msg@ }.payload()),
                ),
                |m: CborModel| EchoResponseView::parse(m),
            ) {
                Ok(response) => r matches Ok(text) && text@ == response.r,
                Err(e) => r matches Err(f) && f == e,
            },
    {
        let command = Echo { d: String::from_str(msg) };
        match self.connection.execute_command(&command) {
            Ok(response) => Ok(response.r),
            Err(e) => Err(e),
        }
    }

    /// Asks for the statistics of the tasks of the device.
    pub fn os_task_statistics(&mut self) -> (r: Result<TaskStatisticsResponse, ExecuteError>)
        ensures
            final(self).smp_frame_size == old(self).smp_frame_size,
            final(self).connection.follows(
                old(self).connection,
                TaskStatistics::identity(),
                encode_value(empty_payload()),
            ),
            match parsed(
                final(self).connection.answer_item(
                    old(self).connection,
                    TaskStatistics::identity(),
                    encode_value(empty_payload()),
                ),
                |m: CborModel| TaskStatisticsResponseView::parse(m),
            ) {
                Ok(response) => r matches Ok(x) && x@ == response,
                Err(e) => r matches Err(f) && f == e,
            },
    {
        self.connection.execute_command(&TaskStatistics)
    }

    /// Asks for the sizes of the buffers of the device.
    pub fn os_mcumgr_parameters(&mut self) -> (r: Result<MCUmgrParametersResponse, ExecuteError>)
        ensures
            final(self).smp_frame_size == old(self).smp_frame_size,
            final(self).connection.follows(
                old(self).connection,
                MCUmgrParameters::identity(),
                encode_value(empty_payload()),
            ),
            r == parsed(
                final(self).connection.answer_item(
                    old(self).connection,
                    MCUmgrParameters::identity(),
                    encode_value(empty_payload()),
                ),
                |m: CborModel| MCUmgrParametersResponse::parse(m),
            ),
    {
        self.connection.execute_command(&MCUmgrParameters)
    }

    /// Asks the device which bootloader it has.
    pub fn os_bootloader_info(&mut self) -> (r: Result<BootloaderInfoResponse, ExecuteError>)
        ensures
            final(self).smp_frame_size == old(self).smp_frame_size,
            final(self).connection.follows(
                old(self).connection,
                BootloaderInfo::identity(),
                encode_value(empty_payload()),
            ),
            match parsed(
                final(self).connection.answer_item(
                    old(self).connection,
                    BootloaderInfo::identity(),
                    encode_value(empty_payload()),
                ),
                |m: CborModel| BootloaderInfoResponseView::parse(m),
            ) {
                Ok(response) => r matches Ok(x) && x@ == response,
                Err(e) => r matches Err(f) && f == e,
            },
    {
        self.connection.execute_command(&BootloaderInfo)
    }

    /// Tells the device to restart.
    pub fn os_system_reset(&mut self, force: bool, boot_mode: Option<u8>) -> (r: Result<
        (),
        ExecuteError,
    >)
        ensures
            final(self).smp_frame_size == old(self).smp_frame_size,
            final(self).connection.follows(
                old(self).connection,
                SystemReset::identity(),
                encode_value(SystemReset { force, boot_mode }.payload()),
            ),
            match final(self).connection.answer_item(
                old(self).connection,
                SystemReset::identity(),
                encode_value(SystemReset { force, boot_mode }.payload()),
            ) {
                Ok(_) => r is Ok,
                Err(e) => r matches Err(f) && f == e,
            },
    {
        self.connection.execute_command(&SystemReset { force, boot_mode })
    }

    /// Marks the image with `hash` for the next boot: to stay where
    /// `confirm`, else to be tried once.
    pub fn image_state_write(&mut self, hash: Option<Vec<u8>>, confirm: bool) -> (r: Result<
        (),
        ExecuteError,
    >)
        ensures
            final(self).smp_frame_size == old(self).smp_frame_size,
            final(self).connection.follows(
                old(self).connection,
                ImageStateWrite::identity(),
                encode_value(
                    ImageStateWriteView {
                        hash: crate::commands::image::optional_bytes(hash),
                        confirm,
                    }.payload(),
                ),
            ),
            match final(self).connection.answer_item(
                old(self).connection,
                ImageStateWrite::identity(),
                encode_value(
                    ImageStateWriteView {
                        hash: crate::commands::image::optional_bytes(hash),
                        confirm,
                    }.payload(),
                ),
            ) {
                Ok(_) => r is Ok,
                Err(e) => r matches Err(f) && f == e,
            },
    {
        self.connection.execute_command(&ImageStateWrite { hash, confirm })
    }

    /// Asks for the length of the file `name`.
    pub fn fs_file_status(&mut self, name: &str) -> (r: Result<FileStatusResponse, ExecuteError>)
        ensures
            final(self).smp_frame_size == old(self).smp_frame_size,
            final(self).connection.follows(
                old(self).connection,
                FileStatus::identity(),
                encode_value(FileStatusView { name: name@ }.payload()),
            ),
            r == parsed(
                final(self).connection.answer_item(
                    old(self).connection,
                    FileStatus::identity(),
                    encode_value(FileStatusView { name: name@ }.payload()),
                ),
                |m: CborModel| FileStatusResponse::parse(m),
            ),
    {
        self.connection.execute_command(&FileStatus { name: String::from_str(name) })
    }

    /// Asks for the hash or the checksum `kind` of the file `name`, taken
    /// from offset `off` over `len` bytes.
    pub fn fs_file_checksum(
        &mut self,
        name: &str,
        kind: Option<&str>,
        off: u64,
        len: Option<u64>,
    ) -> (r: Result<FileChecksumResponse, ExecuteError>)
        ensures
            final(self).smp_frame_size == old(self).smp_frame_size,
            final(self).connection.follows(
                old(self).connection,
                FileChecksum::identity(),
                encode_value(
                    FileChecksumView {
                        name: name@,
                        kind: crate::transfer::optional_str(kind),
                        off,
                        len,
                    }.payload(),
                ),
            ),
            match parsed(
                final(self).connection.answer_item(
                    old(self).connection,
                    FileChecksum::identity(),
                    encode_value(
                        FileChecksumView {
                            name: name@,
                            kind: crate::transfer::optional_str(kind),
                            off,
                            len,
                        }.payload(),
                    ),
                ),
                |m: CborModel| FileChecksumResponseView::parse(m),
            ) {
                Ok(response) => r matches Ok(x) && x@ == response,
                Err(e) => r matches Err(f) && f == e,
            },
    {
        let command = FileChecksum {
            name: String::from_str(name),
            kind: match kind {
                Some(k) => Some(String::from_str(k)),
                None => None,
            },
            off,
            len,
        };
        self.connection.execute_command(&command)
    }

    /// Asks which hashes and checksums the device can make.
    pub fn fs_supported_checksum_types(&mut self) -> (r: Result<
        SupportedFileChecksumTypesResponse,
        ExecuteError,
    >)
        ensures
            final(self).smp_frame_size == old(self).smp_frame_size,
            final(self).connection.follows(
                old(self).connection,
                SupportedFileChecksumTypes::identity(),
                encode_value(empty_payload()),
            ),
            match parsed(
                final(self).connection.answer_item(
                    old(self).connection,
                    SupportedFileChecksumTypes::identity(),
                    encode_value(empty_payload()),
                ),
                |m: CborModel| SupportedFileChecksumTypesResponseView::parse(m),
            ) {
                Ok(response) => r matches Ok(x) && x@ == response,
                Err(e) => r matches Err(f) && f == e,
            },
    {
        self.connection.execute_command(&SupportedFileChecksumTypes)
    }

    /// Closes the files that the device holds open.
    pub fn fs_file_close(&mut self) -> (r: Result<(), ExecuteError>)
        ensures
            final(self).smp_frame_size == old(self).smp_frame_size,
            final(self).connection.follows(
                old(self).connection,
                FileClose::identity(),
                encode_value(empty_payload()),
            ),
            match final(self).connection.answer_item(
                old(self).connection,
                FileClose::identity(),
                encode_value(empty_payload()),
            ) {
                Ok(_) => r is Ok,
                Err(e) => r matches Err(f) && f == e,
            },
    {
        self.connection.execute_command(&FileClose)
    }

    /// Runs the command line `argv` in the shell of the device.
    pub fn shell_execute(&mut self, argv: Vec<String>) -> (r: Result<
        ShellCommandLineExecuteResponse,
        ExecuteError,
    >)
        ensures
            final(self).smp_frame_size == old(self).smp_frame_size,
            final(self).connection.follows(
                old(self).connection,
                ShellCommandLineExecute::identity(),
                encode_value(
                    ShellCommandLineExecuteView {
                        argv: crate::commands::shell::texts(argv@),
                    }.payload(),
                ),
            ),
            match parsed(
                final(self).connection.answer_item(
                    old(self).connection,
                    ShellCommandLineExecute::identity(),
                    encode_value(
                        ShellCommandLineExecuteView {
                            argv: crate::commands::shell::texts(argv@),
                        }.payload(),
                    ),
                ),
                |m: CborModel| ShellCommandLineExecuteResponseView::parse(m),
            ) {
                Ok(response) => r matches Ok(x) && x@ == response,
                Err(e) => r matches Err(f) && f == e,
            },
    {
        self.connection.execute_command(&ShellCommandLineExecute { argv })
    }

    /// Writes `data` to the file `name` on the device, in frames of at
    /// most the frame size of this client.
    pub fn fs_file_upload<P: ProgressCallback>(&mut self, name: &str, data: &[u8], progress: &mut P) -> (r:
        Result<(), FileUploadError>)
        ensures
            final(self).smp_frame_size == old(self).smp_frame_size,
            final(self).connection.extends(old(self).connection),
            final(self).connection.ran(old(self).connection),
            reports_run(
                final(self).connection.since(old(self).connection),
                *old(progress),
                *final(progress),
            ),
            ({
                let target = UploadTargetView::File { name: name@ };
                let frame_size = old(self).smp_frame_size;
                &&& chunk_capacity(target, data.len() as u64, frame_size) <= 0 ==> r == Err::<
                    (),
                    FileUploadError,
                >(FileUploadError::FrameSizeTooSmall) && final(self).connection.history() == old(self).connection.history()
                &&& chunk_capacity(target, data.len() as u64, frame_size) > 0 ==> upload_run(
                    upload_plan(target, data@, frame_size, None),
                    old(self).connection.next_sequence(),
                    final(self).connection.since(old(self).connection),
                ) == Some(
                    UploadState::Finished {
                        sequence: final(self).connection.next_sequence(),
                        result: r,
                    },
                )
            }),
    {
        let target = UploadTarget::File { name: String::from_str(name) };
        let frame_size = self.smp_frame_size;
        upload(&mut self.connection, &target, data, frame_size, progress)
    }

    /// Reads the file `name` from the device.
    pub fn fs_file_download<P: ProgressCallback>(&mut self, name: &str, progress: &mut P) -> (r:
        Result<Vec<u8>, FileDownloadError>)
        ensures
            final(self).smp_frame_size == old(self).smp_frame_size,
            final(self).connection.extends(old(self).connection),
            final(self).connection.ran(old(self).connection),
            reports_run(
                final(self).connection.since(old(self).connection),
                *old(progress),
                *final(progress),
            ),
            !download_fits(name@) ==> (r matches Err(FileDownloadError::NameTooLong)) && final(self).connection.history() == old(self).connection.history(),
            download_fits(name@) ==> download_run(
                name@,
                old(self).connection.next_sequence(),
                final(self).connection.since(old(self).connection),
            ) == Some(
                DownloadState::Finished {
                    sequence: final(self).connection.next_sequence(),
                    result: download_view(r),
                },
            ),
    {
        download(&mut self.connection, name, progress)
    }

    /// Writes the firmware image `data` to the slot of image `image` on
    /// the device, with the hash `sha` of the whole where there is one.
    pub fn image_upload<P: ProgressCallback>(
        &mut self,
        data: &[u8],
        image: Option<u32>,
        sha: Option<Vec<u8>>,
        upgrade: bool,
        progress: &mut P,
    ) -> (r: Result<(), ImageUploadError>)
        ensures
            final(self).smp_frame_size == old(self).smp_frame_size,
            final(self).connection.extends(old(self).connection),
            final(self).connection.ran(old(self).connection),
            reports_run(
                final(self).connection.since(old(self).connection),
                *old(progress),
                *final(progress),
            ),
            ({
                let target = UploadTargetView::Image {
                    image,
                    sha: crate::commands::image::optional_bytes(sha),
                    upgrade,
                };
                let frame_size = old(self).smp_frame_size;
                &&& chunk_capacity(target, data.len() as u64, frame_size) <= 0 ==> r == Err::<
                    (),
                    ImageUploadError,
                >(ImageUploadError::FrameSizeTooSmall) && final(self).connection.history() == old(self).connection.history()
                &&& chunk_capacity(target, data.len() as u64, frame_size) > 0 ==> (upload_run(
                    upload_plan(target, data@, frame_size, None),
                    old(self).connection.next_sequence(),
                    final(self).connection.since(old(self).connection),
                ) matches Some(UploadState::Finished { sequence, result }) && sequence == final(self).connection.next_sequence() && r == crate::transfer::image_result(result))
            }),
    {
        let target = UploadTarget::Image { image, sha, upgrade };
        let frame_size = self.smp_frame_size;
        match upload(&mut self.connection, &target, data, frame_size, progress) {
            Ok(()) => Ok(()),
            Err(e) => Err(ImageUploadError::from_upload(e)),
        }
    }
}

} // verus!
