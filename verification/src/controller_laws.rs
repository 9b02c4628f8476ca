//! What a controlling station makes of whatever comes in: when an ASDU, and
//! when a whole conversation, counts as sent.

use crate::apci;
use crate::apci::{Apdu, ApduView};
use crate::controller;
use crate::controller::{ControllerRun, ControllerStep, ControllerStepView};
use crate::error::Error;
use crate::laws;
use crate::wire_laws;
use vstd::prelude::*;

verus! {

/// The views of what a controller is to do say all that it says.
pub proof fn views_of_waiting_hide_nothing(
    reply: Option<Apdu>,
    step: ControllerStep,
    error: Error,
    asdus: Seq<Vec<u8>>,
)
    ensures
        (ControllerStep::ReadOn { reply })@ == (ControllerStepView::ReadOn {
            reply: apci::apdu_view(reply),
        }),
        ControllerStep::Acknowledged@ == ControllerStepView::Acknowledged,
        controller::controller_step_view(Ok(step)) == Ok::<ControllerStepView, Error>(step@),
        controller::controller_step_view(Err(error)) == Err::<ControllerStepView, Error>(error),
        controller::asdus_view(asdus).len() == asdus.len(),
        forall|i: int|
            0 <= i < asdus.len() ==> #[trigger] controller::asdus_view(asdus)[i] == asdus[i]@,
{
}

/// The frame that carries an ASDU holds its number and the ASDU whole, and
/// acknowledges nothing.
pub proof fn a_frame_carries_its_asdu(sent: u16, asdu: Seq<u8>)
    ensures
        controller::information_frame(sent, asdu) == (ApduView::I { send: sent, receive: 0, asdu }),
{
}

/// While it waits, a controller is content with an acknowledgement of exactly
/// what it sent, in an S or an I frame, and refuses any other.
pub proof fn a_waiting_controller_on_an_acknowledgement(
    sent: u16,
    send: u16,
    receive: u16,
    asdu: Seq<u8>,
)
    ensures
        ({
            let by_s = controller::waiting_step(sent, Some(ApduView::S { receive }));
            let by_i = controller::waiting_step(sent, Some(ApduView::I { send, receive, asdu }));
            &&& by_s == by_i
            &&& receive == sent ==> by_s == Ok::<ControllerStepView, Error>(
                ControllerStepView::Acknowledged,
            )
            &&& receive != sent ==> by_s == Err::<ControllerStepView, Error>(
                Error::WrongAcknowledgement { receive, expected: sent },
            )
        }),
{
}

/// While it waits, a controller confirms TESTFR, passes over other commands,
/// and refuses a station that closes.
pub proof fn a_waiting_controller_on_a_command_or_a_close(sent: u16, command: u8)
    ensures
        command == 0x43 ==> controller::waiting_step(sent, Some(ApduView::U { command })) == Ok::<
            ControllerStepView,
            Error,
        >(ControllerStepView::ReadOn { reply: Some(ApduView::U { command: 0x83 }) }),
        command != 0x43 ==> controller::waiting_step(sent, Some(ApduView::U { command })) == Ok::<
            ControllerStepView,
            Error,
        >(ControllerStepView::ReadOn { reply: None }),
        controller::waiting_step(sent, None) == Err::<ControllerStepView, Error>(
            Error::ClosedUnacknowledged,
        ),
{
}

/// Waiting ends with the first frame that is no command: well when it
/// acknowledges exactly what was sent, and with the error that says what came
/// instead; with what cannot be read; or with the close.
pub proof fn waiting_ends_with_the_first_answer(sent: u16, incoming: Seq<u8>)
    ensures
        ({
            let run = controller::waiting_run(sent, incoming);
            let rest = apci::read_rest(incoming);
            match apci::read_result(incoming) {
                Err(error) => run == (ControllerRun {
                    sent,
                    rest,
                    written: seq![],
                    result: Err(error),
                }),
                Ok(None) => run == (ControllerRun {
                    sent,
                    rest,
                    written: seq![],
                    result: Err(Error::ClosedUnacknowledged),
                }),
                Ok(Some(ApduView::S { receive })) => run == (ControllerRun {
                    sent,
                    rest,
                    written: seq![],
                    result: if receive == sent {
                        Ok(())
                    } else {
                        Err(Error::WrongAcknowledgement { receive, expected: sent })
                    },
                }),
                Ok(Some(ApduView::I { receive, .. })) => run == (ControllerRun {
                    sent,
                    rest,
                    written: seq![],
                    result: if receive == sent {
                        Ok(())
                    } else {
                        Err(Error::WrongAcknowledgement { receive, expected: sent })
                    },
                }),
                Ok(Some(ApduView::U { command })) => {
                    let later = controller::waiting_run(sent, rest);
                    &&& run.sent == later.sent
                    &&& run.rest == later.rest
                    &&& run.result == later.result
                    &&& command == 0x43 ==> run.written == seq![0x68u8, 4, 0x83, 0, 0, 0]
                        + later.written
                    &&& command != 0x43 ==> run.written == later.written
                },
            }
        }),
{
    wire_laws::a_command_is_written_as_its_first_control_byte(0x83);
    let later = controller::waiting_run(sent, apci::read_rest(incoming));
    assert(Seq::<u8>::empty() + later.written =~= later.written);
}

/// Sending an ASDU writes its one frame and waits for the number after it to
/// be acknowledged; one over 249 bytes is refused with nothing written, read
/// or counted.
pub proof fn sending_writes_the_frame_and_waits(sent: u16, asdu: Seq<u8>, incoming: Seq<u8>)
    requires
        sent < 32768,
    ensures
        ({
            let run = controller::sending_run(sent, asdu, incoming);
            let next = ((sent + 1) % 32768) as u16;
            let waiting = controller::waiting_run(next, incoming);
            let frame = seq![
                0x68u8,
                (4 + asdu.len()) as u8,
                (2 * sent % 256) as u8,
                (2 * sent / 256) as u8,
                0,
                0,
            ] + asdu;
            &&& asdu.len() > 249 ==> run == (ControllerRun {
                sent,
                rest: incoming,
                written: seq![],
                result: Err(Error::AsduTooLong),
            })
            &&& asdu.len() <= 249 ==> {
                &&& run.sent == next
                &&& run.rest == waiting.rest
                &&& run.result == waiting.result
                &&& run.written == frame + waiting.written
            }
        }),
{
    let next = ((sent + 1) % 32768) as u16;
    laws::waiting_keeps_count(next, incoming);
    if asdu.len() <= 249 {
        wire_laws::information_on_the_wire(sent, 0, asdu);
        assert(2 * sent / 256 % 256 == 2 * sent / 256);
    }
}

/// Starting writes STARTDT, reads one answer, and ends well exactly when that
/// is read as the confirmation; otherwise with what could not be read, or
/// with the refusal of the answer. The first number is zero.
pub proof fn starting_takes_the_confirmation_only(incoming: Seq<u8>)
    ensures
        ({
            let run = controller::starting_run(incoming);
            &&& run.sent == 0
            &&& run.rest == apci::read_rest(incoming)
            &&& run.written == seq![0x68u8, 4, 0x07, 0, 0, 0]
            &&& match apci::read_result(incoming) {
                Err(error) => run.result == Err::<(), Error>(error),
                Ok(Some(ApduView::U { command })) => run.result == if command == 0x0b {
                    Ok(())
                } else {
                    Err(Error::StartNotConfirmed)
                },
                _ => run.result == Err::<(), Error>(Error::StartNotConfirmed),
            }
        }),
        forall|apdu: Option<ApduView>| #[trigger]
            controller::confirms_start(apdu) <==> apdu == Some(ApduView::U { command: 0x0b }),
{
    wire_laws::a_command_is_written_as_its_first_control_byte(0x07);
}

/// Sending several goes on with the next exactly when the one before was
/// sent, with what that one left unread; where one was not, it ends there,
/// as that one ended.
pub proof fn sending_each_is_one_after_another(
    sent: u16,
    asdus: Seq<Seq<u8>>,
    incoming: Seq<u8>,
)
    ensures
        ({
            let run = controller::sending_each_run(sent, asdus, incoming);
            let first = controller::sending_run(sent, asdus[0], incoming);
            let later = controller::sending_each_run(first.sent, asdus.skip(1), first.rest);
            &&& asdus.len() == 0 ==> run == (ControllerRun {
                sent,
                rest: incoming,
                written: seq![],
                result: Ok(()),
            })
            &&& asdus.len() > 0 && first.result is Err ==> run == first
            &&& asdus.len() > 0 && first.result is Ok ==> {
                &&& run.sent == later.sent
                &&& run.rest == later.rest
                &&& run.result == later.result
                &&& run.written == first.written + later.written
            }
        }),
{
    if asdus.len() > 0 {
        assert(asdus.drop_first() =~= asdus.skip(1));
    }
}

/// A conversation starts, sends, and stops: its result is that of the step
/// that failed, or of the sending; what is written is what the steps write,
/// and STOPDT when all went well and not otherwise.
pub proof fn a_conversation_ends_as_its_steps_end(asdus: Seq<Seq<u8>>, incoming: Seq<u8>)
    ensures
        ({
            let run = controller::conversation_run(asdus, incoming);
            let starting = controller::starting_run(incoming);
            let sending = controller::sending_each_run(0, asdus, starting.rest);
            &&& starting.result matches Err(error) ==> {
                &&& run.result == Err::<(), Error>(error)
                &&& run.written == starting.written
                &&& run.rest == starting.rest
            }
            &&& starting.result is Ok ==> {
                &&& run.result == sending.result
                &&& run.rest == sending.rest
                &&& run.sent == sending.sent
                &&& sending.result is Ok ==> run.written == starting.written + sending.written
                    + seq![0x68u8, 4, 0x13, 0, 0, 0]
                &&& sending.result is Err ==> run.written == starting.written + sending.written
            }
        }),
{
    wire_laws::a_command_is_written_as_its_first_control_byte(0x13);
    let starting = controller::starting_run(incoming);
    let sending = controller::sending_each_run(0, asdus, starting.rest);
    let written = starting.written + sending.written;
    assert(written + Seq::<u8>::empty() =~= written);
}

/// What is left of what comes in behind its first acknowledgement.
pub open spec fn behind_acknowledgement(incoming: Seq<u8>) -> Seq<u8>
    decreases incoming.len(),
{
    match apci::read_result(incoming) {
        Ok(Some(ApduView::U { .. })) => behind_acknowledgement(apci::read_rest(incoming)),
        _ => apci::read_rest(incoming),
    }
}

/// Whether each of `asdus` fits and, one after another, the first
/// acknowledgement that comes in after it covers it.
pub open spec fn acknowledged_in_turn(
    sent: u16,
    asdus: Seq<Seq<u8>>,
    incoming: Seq<u8>,
) -> bool
    decreases asdus.len(),
{
    let next = ((sent + 1) % 32768) as u16;
    asdus.len() > 0 ==> {
        &&& asdus[0].len() <= 249
        &&& laws::first_acknowledgement(incoming) == Some(next)
        &&& acknowledged_in_turn(next, asdus.skip(1), behind_acknowledgement(incoming))
    }
}

/// Waiting leaves what stands behind the first acknowledgement.
proof fn waiting_leaves_what_is_behind(sent: u16, incoming: Seq<u8>)
    ensures
        controller::waiting_run(sent, incoming).rest == behind_acknowledgement(incoming),
    decreases incoming.len(),
{
    waiting_ends_with_the_first_answer(sent, incoming);
    if let Ok(Some(ApduView::U { .. })) = apci::read_result(incoming) {
        waiting_leaves_what_is_behind(sent, apci::read_rest(incoming));
    }
}

/// Several count as sent exactly when each is acknowledged in turn.
pub proof fn sent_each_means_acknowledged_in_turn(
    sent: u16,
    asdus: Seq<Seq<u8>>,
    incoming: Seq<u8>,
)
    requires
        sent < 32768,
    ensures
        controller::sending_each_run(sent, asdus, incoming).result == Ok::<(), Error>(())
            <==> acknowledged_in_turn(sent, asdus, incoming),
        controller::sending_each_run(sent, asdus, incoming).result is Ok
            <==> acknowledged_in_turn(sent, asdus, incoming),
    decreases asdus.len(),
{
    sending_each_is_one_after_another(sent, asdus, incoming);
    if asdus.len() > 0 {
        let next = ((sent + 1) % 32768) as u16;
        laws::sent_means_acknowledged(sent, asdus[0], incoming);
        sending_writes_the_frame_and_waits(sent, asdus[0], incoming);
        waiting_ends_with_the_first_answer(next, incoming);
        waiting_leaves_what_is_behind(next, incoming);
        if controller::sending_run(sent, asdus[0], incoming).result is Ok {
            sent_each_means_acknowledged_in_turn(
                next,
                asdus.skip(1),
                behind_acknowledgement(incoming),
            );
        }
    }
}

/// A conversation ends well exactly when the first frame that comes in is
/// read as the confirmation of STARTDT and each ASDU in turn fits and is
/// covered by the first acknowledgement after it.
pub proof fn a_conversation_ends_well_when_all_is_acknowledged(
    asdus: Seq<Seq<u8>>,
    incoming: Seq<u8>,
)
    ensures
        controller::conversation_run(asdus, incoming).result is Ok <==> apci::read_result(incoming)
            == Ok::<Option<ApduView>, Error>(Some(ApduView::U { command: 0x0b }))
            && acknowledged_in_turn(0, asdus, apci::read_rest(incoming)),
{
    starting_takes_the_confirmation_only(incoming);
    a_conversation_ends_as_its_steps_end(asdus, incoming);
    sent_each_means_acknowledged_in_turn(0, asdus, apci::read_rest(incoming));
}

/// Sending one ASDU in a conversation of its own ends as sending that ASDU
/// ends, once started; so a wrong acknowledgement is never taken for a right
/// one.
pub proof fn a_conversation_of_one_ends_as_its_asdu(asdu: Seq<u8>, incoming: Seq<u8>)
    requires
        apci::read_result(incoming) == Ok::<Option<ApduView>, Error>(
            Some(ApduView::U { command: 0x0b }),
        ),
    ensures
        controller::conversation_run(seq![asdu], incoming).result == controller::sending_run(
            0,
            asdu,
            apci::read_rest(incoming),
        ).result,
        controller::conversation_run(seq![asdu], incoming).rest == controller::sending_run(
            0,
            asdu,
            apci::read_rest(incoming),
        ).rest,
{
    let rest = apci::read_rest(incoming);
    let first = controller::sending_run(0, asdu, rest);
    starting_takes_the_confirmation_only(incoming);
    a_conversation_ends_as_its_steps_end(seq![asdu], incoming);
    sending_each_is_one_after_another(0, seq![asdu], rest);
    sending_each_is_one_after_another(first.sent, seq![asdu].skip(1), first.rest);
    if let Ok(unit) = first.result {
        assert(unit == ());
    }
}

/// The ASDU `i` that a payload travels as is its 249 bytes from 249 times `i`
/// on, or what is left of it; there are just as many as it takes.
pub proof fn a_payload_is_cut_at_every_limit(payload: Seq<u8>)
    ensures
        ({
            let asdus = controller::asdus_of(payload);
            &&& 249 * asdus.len() >= payload.len()
            &&& 249 * asdus.len() < payload.len() + 249
            &&& forall|i: int|
                0 <= i < asdus.len() ==> #[trigger] asdus[i] == payload.subrange(
                    249 * i,
                    if 249 * i + 249 <= payload.len() {
                        249 * i + 249
                    } else {
                        payload.len() as int
                    },
                )
        }),
{
    let asdus = controller::asdus_of(payload);
    controller::asdu_cuts(payload.len(), 0);
    assert forall|i: int| 0 <= i < asdus.len() implies #[trigger] asdus[i] == payload.subrange(
        249 * i,
        if 249 * i + 249 <= payload.len() {
            249 * i + 249
        } else {
            payload.len() as int
        },
    ) by {
        controller::asdu_cuts(payload.len(), i);
    }
}

} // verus!
