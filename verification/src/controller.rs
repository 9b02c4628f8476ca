//! The controlling station's side of a connection: it starts data transfer,
//! sends one I frame at a time, waits for each to be acknowledged, and stops.

use crate::apci;
use crate::apci::{Apdu, ApduView};
use crate::error::Error;
use vstd::prelude::*;
use vstd::slice::{slice_subrange, slice_to_vec};

verus! {

/// The controlling station's side of one connection, data transfer started.
pub struct Controller {
    sent: u16,
}

impl View for Controller {
    type V = u16;

    /// The send sequence number of the next I frame.
    closed spec fn view(&self) -> u16 {
        self.sent
    }
}

/// What a controller that waits for an acknowledgement does on an APDU.
#[derive(Clone, Debug, PartialEq, Eq)]
pub enum ControllerStep {
    /// Send the reply, if any, and read the next APDU.
    ReadOn { reply: Option<Apdu> },
    /// The frame is acknowledged.
    Acknowledged,
}

/// What a [`ControllerStep`] says.
#[verifier::ext_equal]
pub enum ControllerStepView {
    ReadOn { reply: Option<ApduView> },
    Acknowledged,
}

impl View for ControllerStep {
    type V = ControllerStepView;

    open spec fn view(&self) -> ControllerStepView {
        match *self {
            ControllerStep::ReadOn { reply } => ControllerStepView::ReadOn {
                reply: apci::apdu_view(reply),
            },
            ControllerStep::Acknowledged => ControllerStepView::Acknowledged,
        }
    }
}

/// The view of what [`Controller::on_apdu`] returns.
pub open spec fn controller_step_view(stepped: Result<ControllerStep, Error>) -> Result<
    ControllerStepView,
    Error,
> {
    match stepped {
        Ok(step) => Ok(step@),
        Err(error) => Err(error),
    }
}

/// What a controller made of the bytes that came in.
#[verifier::ext_equal]
pub struct ControllerRun {
    /// The send sequence number of the next I frame afterwards.
    pub sent: u16,
    /// What was not read.
    pub rest: Seq<u8>,
    /// What was written.
    pub written: Seq<u8>,
    /// How it ended.
    pub result: Result<(), Error>,
}

/// What a controller does on an APDU, or when the station closed, while it
/// waits for all up to `sent` to be acknowledged.
pub open spec fn waiting_step(sent: u16, apdu: Option<ApduView>) -> Result<
    ControllerStepView,
    Error,
> {
    match apdu {
        Some(ApduView::S { receive }) | Some(ApduView::I { receive, .. }) => if receive == sent {
            Ok(ControllerStepView::Acknowledged)
        } else {
            Err(Error::WrongAcknowledgement { receive, expected: sent })
        },
        Some(ApduView::U { command }) => if command == apci::TESTFR_ACT {
            Ok(ControllerStepView::ReadOn { reply: Some(apci::command_frame(apci::TESTFR_CON)) })
        } else {
            Ok(ControllerStepView::ReadOn { reply: None })
        },
        None => Err(Error::ClosedUnacknowledged),
    }
}

/// Waiting on `incoming`, all that the station still sends, for all up to
/// `sent` to be acknowledged.
pub open spec fn waiting_run(sent: u16, incoming: Seq<u8>) -> ControllerRun
    decreases incoming.len(),
{
    let rest = apci::read_rest(incoming);
    match apci::read_result(incoming) {
        Err(error) => ControllerRun { sent, rest, written: seq![], result: Err(error) },
        Ok(apdu) => match waiting_step(sent, apdu) {
            Err(error) => ControllerRun { sent, rest, written: seq![], result: Err(error) },
            Ok(ControllerStepView::Acknowledged) => ControllerRun {
                sent,
                rest,
                written: seq![],
                result: Ok(()),
            },
            Ok(ControllerStepView::ReadOn { reply }) => {
                let later = waiting_run(sent, rest);
                ControllerRun { written: apci::reply_wire(reply) + later.written, ..later }
            },
        },
    }
}

/// The I frame that carries `asdu` with the sequence number `sent`.
pub open spec fn information_frame(sent: u16, asdu: Seq<u8>) -> ApduView {
    ApduView::I { send: sent, receive: 0, asdu }
}

/// Sending `asdu` with the sequence number `sent` and waiting on `incoming`
/// for it to be acknowledged.
pub open spec fn sending_run(sent: u16, asdu: Seq<u8>, incoming: Seq<u8>) -> ControllerRun {
    if asdu.len() > apci::MAX_ASDU {
        ControllerRun { sent, rest: incoming, written: seq![], result: Err(Error::AsduTooLong) }
    } else {
        let waiting = waiting_run(apci::next_sequence(sent), incoming);
        ControllerRun {
            written: information_frame(sent, asdu).wire() + waiting.written,
            ..waiting
        }
    }
}

/// Whether an APDU confirms STARTDT.
pub open spec fn confirms_start(apdu: Option<ApduView>) -> bool {
    apdu == Some(apci::command_frame(apci::STARTDT_CON))
}

/// Starting data transfer with a station that sends `incoming`.
pub open spec fn starting_run(incoming: Seq<u8>) -> ControllerRun {
    ControllerRun {
        sent: 0,
        rest: apci::read_rest(incoming),
        written: apci::command_frame(apci::STARTDT_ACT).wire(),
        result: match apci::read_result(incoming) {
            Ok(apdu) => if confirms_start(apdu) {
                Ok(())
            } else {
                Err(Error::StartNotConfirmed)
            },
            Err(error) => Err(error),
        },
    }
}

/// How many ASDUs a payload of `length` bytes takes.
pub open spec fn asdu_count(length: nat) -> nat {
    (length + apci::MAX_ASDU - 1) as nat / apci::MAX_ASDU as nat
}

/// Where the ASDU `i` of a payload of `length` bytes ends.
pub open spec fn asdu_end(length: nat, i: int) -> int {
    if (i + 1) * apci::MAX_ASDU <= length {
        (i + 1) * apci::MAX_ASDU
    } else {
        length as int
    }
}

/// The ASDUs a payload travels as: each as long as an APDU carries, but for
/// the last, which holds what is left.
pub open spec fn asdus_of(payload: Seq<u8>) -> Seq<Seq<u8>> {
    Seq::new(
        asdu_count(payload.len()),
        |i: int| payload.subrange(i * apci::MAX_ASDU, asdu_end(payload.len(), i)),
    )
}

/// The view of a list of ASDUs.
pub open spec fn asdus_view(asdus: Seq<Vec<u8>>) -> Seq<Seq<u8>> {
    asdus.map_values(|asdu: Vec<u8>| asdu@)
}

/// Sending `asdus` in order from the sequence number `sent` on, each
/// acknowledged before the next goes.
pub open spec fn sending_each_run(
    sent: u16,
    asdus: Seq<Seq<u8>>,
    incoming: Seq<u8>,
) -> ControllerRun
    decreases asdus.len(),
{
    if asdus.len() == 0 {
        ControllerRun { sent, rest: incoming, written: seq![], result: Ok(()) }
    } else {
        let first = sending_run(sent, asdus[0], incoming);
        if first.result is Ok {
            let later = sending_each_run(first.sent, asdus.drop_first(), first.rest);
            ControllerRun { written: first.written + later.written, ..later }
        } else {
            first
        }
    }
}

/// A whole conversation with a station that sends `incoming`: STARTDT,
/// `asdus` in order, STOPDT. It ends where something goes wrong.
pub open spec fn conversation_run(asdus: Seq<Seq<u8>>, incoming: Seq<u8>) -> ControllerRun {
    let starting = starting_run(incoming);
    if starting.result is Ok {
        let sending = sending_each_run(starting.sent, asdus, starting.rest);
        ControllerRun {
            written: starting.written + sending.written + if sending.result is Ok {
                apci::command_frame(apci::STOPDT_ACT).wire()
            } else {
                seq![]
            },
            ..sending
        }
    } else {
        starting
    }
}

/// Where ASDUs are cut and how many there are, in plain numbers.
pub(crate) proof fn asdu_cuts(length: nat, i: int)
    ensures
        i * apci::MAX_ASDU == 249 * i,
        (i + 1) * apci::MAX_ASDU == 249 * i + 249,
        asdu_count(length) == (length + 248) / 249,
{
    assert(i * apci::MAX_ASDU == 249 * i && (i + 1) * apci::MAX_ASDU == 249 * i + 249)
        by (nonlinear_arith)
        requires
            apci::MAX_ASDU == 249,
    ;
    assert((length + apci::MAX_ASDU - 1) as nat / apci::MAX_ASDU as nat == (length + 248) / 249)
        by (nonlinear_arith)
        requires
            apci::MAX_ASDU == 249,
    ;
}

/// Cuts a payload into the ASDUs it travels as.
pub fn asdus(payload: &[u8]) -> (asdus: Vec<Vec<u8>>)
    ensures
        asdus_view(asdus@) == asdus_of(payload@),
{
    let mut asdus: Vec<Vec<u8>> = Vec::new();
    let mut at: usize = 0;
    proof {
        asdu_cuts(payload@.len(), 0);
    }
    while at < payload.len()
        invariant
            at <= payload@.len(),
            at < payload@.len() ==> at == asdus@.len() * apci::MAX_ASDU,
            at == payload@.len() ==> asdus@.len() == asdu_count(payload@.len()),
            asdus@.len() <= asdu_count(payload@.len()),
            forall|i: int|
                0 <= i < asdus@.len() ==> (#[trigger] asdus@[i])@ == asdus_of(payload@)[i],
        decreases payload.len() - at,
    {
        let end: usize = if payload.len() - at > apci::MAX_ASDU {
            at + apci::MAX_ASDU
        } else {
            payload.len()
        };
        proof {
            asdu_cuts(payload@.len(), asdus@.len() as int);
            asdu_cuts(payload@.len(), asdus@.len() as int + 1);
        }
        let asdu = slice_to_vec(slice_subrange(payload, at, end));
        asdus.push(asdu);
        at = end;
    }
    assert(asdus_view(asdus@) =~= asdus_of(payload@));
    asdus
}

impl Controller {
    /// Sequence numbers have fifteen bits.
    pub open spec fn wf(&self) -> bool {
        self@ < 0x8000
    }

    /// The controller that the station's answer to STARTDT makes: `None` is
    /// a station that closed.
    ///
    /// # Errors
    /// An answer other than the confirmation.
    pub fn confirmed(answer: Option<Apdu>) -> (confirmed: Result<Controller, Error>)
        ensures
            match confirmed {
                Ok(controller) => confirms_start(apci::apdu_view(answer)) && controller.wf()
                    && controller@ == 0,
                Err(error) => !confirms_start(apci::apdu_view(answer)) && error
                    == Error::StartNotConfirmed,
            },
    {
        match answer {
            Some(Apdu::U { command }) if command == apci::STARTDT_CON => Ok(Controller { sent: 0 }),
            _ => Err(Error::StartNotConfirmed),
        }
    }

    /// The I frame that carries `asdu` next.
    pub fn information(&self, asdu: &[u8]) -> (apdu: Apdu)
        ensures
            apdu@ == information_frame(self@, asdu@),
    {
        Apdu::I { send: self.sent, receive: 0, asdu: slice_to_vec(asdu) }
    }

    /// Counts an I frame that went out.
    pub fn advance(&mut self)
        requires
            old(self).wf(),
        ensures
            final(self).wf(),
            final(self)@ == apci::next_sequence(old(self)@),
    {
        self.sent = apci::successor(self.sent);
    }

    /// Takes one APDU, or `None` when the station closed, while the last I
    /// frame is not acknowledged, and says what to do.
    ///
    /// # Errors
    /// An acknowledgement that does not cover the frame, or a station that
    /// closed.
    pub fn on_apdu(&self, apdu: Option<Apdu>) -> (stepped: Result<ControllerStep, Error>)
        ensures
            controller_step_view(stepped) == waiting_step(self@, apci::apdu_view(apdu)),
    {
        match apdu {
            Some(Apdu::S { receive }) | Some(Apdu::I { receive, .. }) => {
                if receive == self.sent {
                    Ok(ControllerStep::Acknowledged)
                } else {
                    Err(Error::WrongAcknowledgement { receive, expected: self.sent })
                }
            },
            Some(Apdu::U { command }) => {
                if command == apci::TESTFR_ACT {
                    Ok(
                        ControllerStep::ReadOn {
                            reply: Some(Apdu::U { command: apci::TESTFR_CON }),
                        },
                    )
                } else {
                    Ok(ControllerStep::ReadOn { reply: None })
                }
            },
            None => Err(Error::ClosedUnacknowledged),
        }
    }

    /// Send `asdu` as one I frame and wait for it to be acknowledged.
    /// `incoming` is what the station sends before it closes; what was read
    /// is taken off it. What is sent goes behind what is in `outgoing`.
    ///
    /// # Errors
    /// An ASDU over [`apci::MAX_ASDU`], a peer that went away, or an
    /// acknowledgement that does not cover it.
    pub fn send_asdu(
        &mut self,
        asdu: &[u8],
        incoming: &mut &[u8],
        outgoing: &mut Vec<u8>,
    ) -> (sent: Result<(), Error>)
        requires
            old(self).wf(),
        ensures
            final(self).wf(),
            final(self)@ == sending_run(old(self)@, asdu@, old(incoming)@).sent,
            final(incoming)@ == sending_run(old(self)@, asdu@, old(incoming)@).rest,
            final(outgoing)@ == old(outgoing)@ + sending_run(
                old(self)@,
                asdu@,
                old(incoming)@,
            ).written,
            sent == sending_run(old(self)@, asdu@, old(incoming)@).result,
    {
        let frame = self.information(asdu);
        match apci::write(outgoing, &frame) {
            Ok(_) => {},
            Err(error) => {
                return Err(error);
            },
        }
        self.advance();
        let ghost whole = waiting_run(self@, incoming@);
        let ghost framed = outgoing@;
        loop
            invariant
                self.wf(),
                self@ == apci::next_sequence(old(self)@),
                waiting_run(self@, incoming@).sent == whole.sent,
                waiting_run(self@, incoming@).rest == whole.rest,
                waiting_run(self@, incoming@).result == whole.result,
                outgoing@ + waiting_run(self@, incoming@).written == framed + whole.written,
                framed == old(outgoing)@ + information_frame(old(self)@, asdu@).wire(),
                whole == waiting_run(apci::next_sequence(old(self)@), old(incoming)@),
                asdu@.len() <= apci::MAX_ASDU,
            decreases incoming@.len(),
        {
            let apdu = match apci::read(incoming) {
                Ok(apdu) => apdu,
                Err(error) => {
                    return Err(error);
                },
            };
            match self.on_apdu(apdu) {
                Ok(ControllerStep::ReadOn { reply }) => {
                    apci::write_reply(outgoing, &reply);
                },
                Ok(ControllerStep::Acknowledged) => {
                    return Ok(());
                },
                Err(error) => {
                    return Err(error);
                },
            }
        }
    }

    /// Say STOPDT and close.
    pub fn stop(self, outgoing: &mut Vec<u8>) -> (stopped: Result<(), Error>)
        ensures
            stopped == Ok::<(), Error>(()),
            final(outgoing)@ == old(outgoing)@ + apci::command_frame(apci::STOPDT_ACT).wire(),
    {
        apci::write(outgoing, &Apdu::U { command: apci::STOPDT_ACT })
    }
}

} // verus!
