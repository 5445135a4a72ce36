//! One device redirection backend for the drive and the optional printer.

use vstd::prelude::*;

use crate::backend::{messages, DriveBackendMessage, WasmDriveBackend};
use crate::backend_laws::law_pending_read_is_answered_once;
use crate::backend_model::{BackendModel, DriveError};
use crate::efs::ServerDriveIoRequest;
use crate::response::{answers, viewed, DriveResponse, ResponseModel};

verus! {

/// Routes requests to the drive and to the printer, and keeps the answers that came late until
/// they are asked for.
#[derive(Debug)]
pub struct WasmRdpdrBackend<P> {
    drive: Option<WasmDriveBackend>,
    printer: Option<P>,
    deferred_messages: Vec<DriveResponse>,
}

/// The state of the router.
#[verifier::ext_equal]
pub struct RouterModel<P> {
    pub drive: Option<BackendModel>,
    pub printer: Option<P>,
    pub deferred: Seq<ResponseModel>,
}

impl<P> View for WasmRdpdrBackend<P> {
    type V = RouterModel<P>;

    closed spec fn view(&self) -> RouterModel<P> {
        RouterModel {
            drive: viewed(self.drive),
            printer: self.printer,
            deferred: answers(self.deferred_messages@),
        }
    }
}

impl<P> RouterModel<P> {
    /// The drive answers a pending read, and its answer is kept for later.
    pub open spec fn complete_drive_read(self, request_id: u32, data: Seq<u8>, failed: bool) -> (
        RouterModel<P>,
        bool,
    ) {
        match self.drive {
            Some(drive) => {
                let (after, responses) = drive.complete_read(request_id, data, failed);
                (
                    RouterModel {
                        drive: Some(after),
                        deferred: self.deferred + responses,
                        ..self
                    },
                    responses.len() > 0,
                )
            },
            None => (self, false),
        }
    }

    /// The drive serves a request; without a drive there is no answer.
    pub open spec fn handle_drive_io_request(self, req: ServerDriveIoRequest) -> (
        RouterModel<P>,
        Result<Seq<ResponseModel>, DriveError>,
    ) {
        match self.drive {
            Some(drive) => {
                let (after, responses) = drive.handle_drive_io_request(req);
                (RouterModel { drive: Some(after), ..self }, responses)
            },
            None => (self, Ok(Seq::empty())),
        }
    }
}

impl<P> WasmRdpdrBackend<P> {
    /// The drive is in order.
    pub closed spec fn wf(self) -> bool {
        self.drive matches Some(drive) ==> drive.wf()
    }

    /// A router for what there is; none without a drive and a printer.
    pub fn new(drive: Option<WasmDriveBackend>, printer: Option<P>) -> (r: Option<Self>)
        requires
            drive matches Some(d) ==> d.wf(),
        ensures
            match r {
                Some(router) => {
                    &&& drive is Some || printer is Some
                    &&& router.wf()
                    &&& router@ == (RouterModel {
                        drive: viewed(drive),
                        printer,
                        deferred: Seq::empty(),
                    })
                },
                None => drive is None && printer is None,
            },
    {
        if drive.is_none() && printer.is_none() {
            None
        } else {
            let router = WasmRdpdrBackend { drive, printer, deferred_messages: Vec::new() };
            assert(router@.deferred =~= Seq::empty());
            Some(router)
        }
    }

    /// Whether a drive is redirected.
    pub fn has_drive(&self) -> (r: bool)
        ensures
            r == (self@.drive is Some),
    {
        self.drive.is_some()
    }

    /// Whether a printer is redirected.
    pub fn has_printer(&self) -> (r: bool)
        ensures
            r == (self@.printer is Some),
    {
        self.printer.is_some()
    }

    /// Access to the printer.
    pub fn printer_mut(&mut self) -> (r: Option<&mut P>)
        requires
            old(self).wf(),
        ensures
            final(self).wf(),
            match r {
                Some(printer) => {
                    &&& old(self)@.printer == Some(*printer)
                    &&& final(self)@ == (RouterModel {
                        printer: Some(*final(printer)),
                        ..old(self)@
                    })
                },
                None => old(self)@.printer is None && final(self)@ == old(self)@,
            },
    {
        match &mut self.printer {
            Some(printer) => Some(printer),
            None => None,
        }
    }

    /// Answers a pending read of the drive with what the page delivered. Tells whether there is
    /// an answer to poll.
    pub fn complete_drive_read(&mut self, request_id: u32, data: Vec<u8>, failed: bool) -> (r: bool)
        requires
            old(self).wf(),
        ensures
            final(self).wf(),
            final(self)@ == old(self)@.complete_drive_read(request_id, data@, failed).0,
            r == old(self)@.complete_drive_read(request_id, data@, failed).1,
    {
        let mut responses: Vec<DriveResponse> = match &mut self.drive {
            Some(drive) => drive.complete_read(request_id, data, failed),
            None => Vec::new(),
        };
        let ghost expected = answers(responses@);
        let queued = responses.len() > 0;
        assert(queued == (expected.len() > 0));
        let ghost kept = self.deferred_messages@;
        self.deferred_messages.append(&mut responses);
        assert(answers(self.deferred_messages@) =~= answers(kept) + expected);
        assert(self@ =~= old(self)@.complete_drive_read(request_id, data@, failed).0);
        queued
    }

    /// Hands the answers that came late over, oldest first.
    pub fn poll_deferred_messages(&mut self) -> (r: Vec<DriveResponse>)
        requires
            old(self).wf(),
        ensures
            final(self).wf(),
            answers(r@) == old(self)@.deferred,
            final(self)@ == (RouterModel { deferred: Seq::empty(), ..old(self)@ }),
    {
        let mut r: Vec<DriveResponse> = Vec::new();
        std::mem::swap(&mut r, &mut self.deferred_messages);
        assert(self@.deferred =~= Seq::empty());
        r
    }

    /// Hands the messages of the drive to the page over, oldest first.
    pub fn take_messages(&mut self) -> (r: Vec<DriveBackendMessage>)
        requires
            old(self).wf(),
        ensures
            final(self).wf(),
            match old(self)@.drive {
                Some(drive) => {
                    &&& messages(r@) == drive.outbox
                    &&& final(self)@ == (RouterModel {
                        drive: Some(BackendModel { outbox: Seq::empty(), ..drive }),
                        ..old(self)@
                    })
                },
                None => r@.len() == 0 && final(self)@ == old(self)@,
            },
    {
        match &mut self.drive {
            Some(drive) => drive.take_messages(),
            None => Vec::new(),
        }
    }

    /// Whether the drive can serve the request.
    pub fn can_answer(&self, req: &ServerDriveIoRequest) -> (r: bool)
        requires
            self.wf(),
        ensures
            r == (self@.drive matches Some(drive) ==> drive.can_answer(*req)),
    {
        match &self.drive {
            Some(drive) => drive.can_answer(req),
            None => true,
        }
    }

    /// Lets the drive serve a request; without a drive there is no answer.
    pub fn handle_drive_io_request(&mut self, req: ServerDriveIoRequest) -> (r: Result<
        Vec<DriveResponse>,
        DriveError,
    >)
        requires
            old(self).wf(),
            old(self)@.drive matches Some(drive) ==> drive.can_answer(req),
        ensures
            final(self).wf(),
            final(self)@ == old(self)@.handle_drive_io_request(req).0,
            match (r, old(self)@.handle_drive_io_request(req).1) {
                (Ok(responses), Ok(expected)) => answers(responses@) == expected,
                (Err(error), Err(expected)) => error == expected,
                _ => false,
            },
    {
        match &mut self.drive {
            Some(drive) => drive.handle_drive_io_request(req),
            None => {
                let r: Vec<DriveResponse> = Vec::new();
                assert(answers(r@) =~= Seq::empty());
                Ok(r)
            },
        }
    }
}

/// The answer to a pending read is kept for one poll: the first delivery adds it behind what is
/// kept, and a second delivery adds nothing.
pub proof fn law_late_answer_is_kept_once<P>(
    router: RouterModel<P>,
    drive: BackendModel,
    request_id: u32,
    data: Seq<u8>,
    failed: bool,
    again: Seq<u8>,
    failed_again: bool,
)
    requires
        router.drive == Some(drive),
        drive.pending_reads.contains_key(request_id),
    ensures
        ({
            let (first, queued) = router.complete_drive_read(request_id, data, failed);
            let (second, queued_again) = first.complete_drive_read(request_id, again, failed_again);
            &&& queued
            &&& first.deferred == router.deferred + drive.complete_read(request_id, data, failed).1
            &&& first.deferred.len() == router.deferred.len() + 1
            &&& !queued_again
            &&& second.deferred == first.deferred
        }),
{
    law_pending_read_is_answered_once(drive, request_id, data, failed, again, failed_again);
    let (first, queued) = router.complete_drive_read(request_id, data, failed);
    assert(first.deferred + Seq::<ResponseModel>::empty() =~= first.deferred);
    assert(drive.complete_read(request_id, data, failed).0.complete_read(
        request_id,
        again,
        failed_again,
    ).1 =~= Seq::<ResponseModel>::empty());
}

/// Requests to the drive and deliveries to it leave the printer alone.
pub proof fn law_drive_leaves_the_printer_alone<P>(
    router: RouterModel<P>,
    req: ServerDriveIoRequest,
    request_id: u32,
    data: Seq<u8>,
    failed: bool,
)
    ensures
        router.handle_drive_io_request(req).0.printer == router.printer,
        router.handle_drive_io_request(req).0.deferred == router.deferred,
        router.complete_drive_read(request_id, data, failed).0.printer == router.printer,
{
}

/// A delivery goes to the drive, whose answer is kept behind those that are kept already; there
/// is one exactly when the drive waits for that read. Without a drive nothing happens.
pub proof fn law_router_delivery<P>(
    router: RouterModel<P>,
    request_id: u32,
    data: Seq<u8>,
    failed: bool,
)
    ensures
        ({
            let (after, queued) = router.complete_drive_read(request_id, data, failed);
            &&& after.printer == router.printer
            &&& router.drive is None ==> !queued && after.drive is None && after.deferred
                == router.deferred
            &&& router.drive matches Some(drive) ==> {
                &&& queued <==> drive.pending_reads.contains_key(request_id)
                &&& after.drive == Some(drive.complete_read(request_id, data, failed).0)
                &&& after.deferred == router.deferred + drive.complete_read(
                    request_id,
                    data,
                    failed,
                ).1
            }
        }),
{
}

/// A request goes to the drive and is answered by it; without a drive it is not answered.
pub proof fn law_router_requests<P>(router: RouterModel<P>, req: ServerDriveIoRequest)
    ensures
        ({
            let (after, answer) = router.handle_drive_io_request(req);
            &&& after.printer == router.printer
            &&& after.deferred == router.deferred
            &&& router.drive is None ==> after.drive is None && answer == Ok::<
                Seq<ResponseModel>,
                DriveError,
            >(Seq::empty())
            &&& router.drive matches Some(drive) ==> {
                &&& after.drive == Some(drive.handle_drive_io_request(req).0)
                &&& answer == drive.handle_drive_io_request(req).1
            }
        }),
{
}

} // verus!
