//! What holds of the stations and their frames as a whole.

use crate::apci;
use crate::apci::ApduView;
use crate::controller;
use crate::controller::ControllerRun;
use crate::error::Error;
use crate::station;
use crate::station::{ArrivedView, StationView};
use crate::transport;
use vstd::prelude::*;

verus! {

/// What is encoded is read back: off a valid APDU's bytes, whatever follows
/// them, reading gives the APDU and leaves what follows.
pub proof fn reading_gives_back_what_was_encoded(apdu: ApduView, more: Seq<u8>)
    requires
        apdu.valid(),
    ensures
        apci::read_result(apdu.wire() + more) == Ok::<Option<ApduView>, Error>(Some(apdu)),
        apci::read_rest(apdu.wire() + more) == more,
{
    let incoming = apdu.wire() + more;
    let length: int = 4 + apdu.payload().len() as int;
    assert(incoming[1] == length);
    assert(incoming.skip(2 + length) =~= more);
    let body = incoming.subrange(2, 2 + length);
    assert(body =~= apdu.control() + apdu.payload());
    assert(body.skip(4) =~= apdu.payload());
}

/// An encoded APDU opens with the start byte and announces how many bytes
/// follow its length.
pub proof fn encoding_announces_its_length(apdu: ApduView)
    requires
        apdu.fits(),
    ensures
        apdu.wire()[0] == apci::START,
        apdu.wire()[1] == apdu.wire().len() - 2,
{
}

/// Whatever comes in, what is read is a valid APDU.
pub proof fn what_is_read_is_valid(incoming: Seq<u8>)
    ensures
        apci::read_result(incoming) matches Ok(Some(apdu)) ==> apdu.valid(),
{
}

/// An APDU is read the same whatever follows it, and what follows is left.
pub proof fn reading_stops_at_the_end_of_the_apdu(incoming: Seq<u8>, more: Seq<u8>)
    requires
        apci::read_result(incoming) matches Ok(Some(_)),
    ensures
        apci::read_result(incoming + more) == apci::read_result(incoming),
        apci::read_rest(incoming + more) == apci::read_rest(incoming) + more,
{
    let end = 2 + incoming[1];
    assert((incoming + more).subrange(2, end) =~= incoming.subrange(2, end));
    assert((incoming + more).skip(end) =~= incoming.skip(end) + more);
}

/// An I frame before STARTDT is refused, and a station that refuses changes
/// nothing and answers nothing.
pub proof fn information_before_start_is_refused(
    station: StationView,
    apdu: ApduView,
    more: Seq<u8>,
)
    requires
        !station.started,
        apdu is I,
        apdu.valid(),
    ensures
        station.run(apdu.wire() + more).result == Err::<Option<ArrivedView>, Error>(
            Error::NotStarted,
        ),
        station.run(apdu.wire() + more).station == station,
        station.run(apdu.wire() + more).written == Seq::<u8>::empty(),
{
    reading_gives_back_what_was_encoded(apdu, more);
}

/// Once data transfer is started, an I frame that is not the next in
/// sequence is refused, and a station that refuses changes nothing and
/// answers nothing.
pub proof fn information_out_of_sequence_is_refused(
    station: StationView,
    send: u16,
    receive: u16,
    asdu: Seq<u8>,
    more: Seq<u8>,
)
    requires
        station.started,
        send != station.received,
        (ApduView::I { send, receive, asdu }).valid(),
    ensures
        ({
            let run = station.run((ApduView::I { send, receive, asdu }).wire() + more);
            &&& run.result == Err::<Option<ArrivedView>, Error>(
                Error::OutOfSequence { send, expected: station.received },
            )
            &&& run.station == station
            &&& run.written == Seq::<u8>::empty()
        }),
{
    reading_gives_back_what_was_encoded(ApduView::I { send, receive, asdu }, more);
}

/// Once data transfer is started, the next I frame in sequence is
/// acknowledged by the sequence number after its own and its ASDU handed up,
/// and only that frame is read.
pub proof fn information_in_sequence_is_acknowledged_and_handed_up(
    station: StationView,
    receive: u16,
    asdu: Seq<u8>,
    more: Seq<u8>,
)
    requires
        station.started,
        (ApduView::I { send: station.received, receive, asdu }).valid(),
    ensures
        ({
            let run = station.run(
                (ApduView::I { send: station.received, receive, asdu }).wire() + more,
            );
            let next = apci::next_sequence(station.received);
            &&& run.result == Ok::<Option<ArrivedView>, Error>(
                Some(
                    ArrivedView {
                        origin_uri: station::origin_text(station.peer, station.received),
                        bytes: asdu,
                    },
                ),
            )
            &&& run.station == (StationView { received: next, ..station })
            &&& run.written == (ApduView::S { receive: next }).wire()
            &&& run.rest == more
        }),
{
    reading_gives_back_what_was_encoded(
        ApduView::I { send: station.received, receive, asdu },
        more,
    );
}

/// STARTDT is answered by its confirmation, and what follows is read with
/// data transfer started.
pub proof fn start_is_confirmed(station: StationView, more: Seq<u8>)
    ensures
        ({
            let run = station.run(apci::command_frame(apci::STARTDT_ACT).wire() + more);
            let later = (StationView { started: true, ..station }).run(more);
            &&& run.result == later.result
            &&& run.station == later.station
            &&& run.rest == later.rest
            &&& run.written == apci::command_frame(apci::STARTDT_CON).wire() + later.written
        }),
{
    reading_gives_back_what_was_encoded(apci::command_frame(apci::STARTDT_ACT), more);
}

/// STOPDT is answered by its confirmation and ends the conversation with
/// data transfer stopped; no sequence number is lost.
pub proof fn stop_is_confirmed(station: StationView, more: Seq<u8>)
    ensures
        ({
            let run = station.run(apci::command_frame(apci::STOPDT_ACT).wire() + more);
            &&& run.result == Ok::<Option<ArrivedView>, Error>(None)
            &&& run.station == (StationView { started: false, ..station })
            &&& run.rest == more
            &&& run.written == apci::command_frame(apci::STOPDT_CON).wire()
        }),
{
    reading_gives_back_what_was_encoded(apci::command_frame(apci::STOPDT_ACT), more);
}

/// TESTFR is answered by its confirmation, and changes nothing else.
pub proof fn test_is_confirmed(station: StationView, more: Seq<u8>)
    ensures
        ({
            let run = station.run(apci::command_frame(apci::TESTFR_ACT).wire() + more);
            let later = station.run(more);
            &&& run.result == later.result
            &&& run.station == later.station
            &&& run.rest == later.rest
            &&& run.written == apci::command_frame(apci::TESTFR_CON).wire() + later.written
        }),
{
    reading_gives_back_what_was_encoded(apci::command_frame(apci::TESTFR_ACT), more);
}

/// S frames and confirmations are passed over.
pub proof fn what_asks_for_nothing_is_passed_over(
    station: StationView,
    apdu: ApduView,
    more: Seq<u8>,
)
    requires
        apdu.valid(),
        apdu !is I,
        apdu != apci::command_frame(apci::STARTDT_ACT),
        apdu != apci::command_frame(apci::STOPDT_ACT),
        apdu != apci::command_frame(apci::TESTFR_ACT),
    ensures
        station.run(apdu.wire() + more) == station.run(more),
{
    reading_gives_back_what_was_encoded(apdu, more);
    assert(Seq::<u8>::empty() + station.run(more).written =~= station.run(more).written);
}

/// A peer that closes between APDUs ends the conversation, unanswered.
pub proof fn closing_ends_the_conversation(station: StationView)
    ensures
        station.run(seq![]).result == Ok::<Option<ArrivedView>, Error>(None),
        station.run(seq![]).station == station,
        station.run(seq![]).written == Seq::<u8>::empty(),
{
}

/// Whether `written` ends with the bytes of `apdu`.
pub open spec fn ends_with(written: Seq<u8>, apdu: ApduView) -> bool {
    &&& written.len() >= apdu.wire().len()
    &&& written.skip(written.len() - apdu.wire().len()) == apdu.wire()
}

/// What is written before does not change how it ends.
proof fn ending_behind_more(before: Seq<u8>, written: Seq<u8>, apdu: ApduView)
    requires
        ends_with(written, apdu),
    ensures
        ends_with(before + written, apdu),
{
    let length = apdu.wire().len();
    assert((before + written).skip(before.len() + written.len() - length) =~= written.skip(
        written.len() - length,
    ));
}

/// Whatever came in before, an ASDU is handed up only while data transfer is
/// started, and then the last that was written acknowledges it: with the
/// sequence number that the station expects next.
pub proof fn what_is_handed_up_is_acknowledged(station: StationView, incoming: Seq<u8>)
    ensures
        station.run(incoming).result matches Ok(Some(_)) ==> {
            &&& station.run(incoming).station.started
            &&& ends_with(
                station.run(incoming).written,
                ApduView::S { receive: station.run(incoming).station.received },
            )
        },
    decreases incoming.len(),
{
    let run = station.run(incoming);
    if let Ok(apdu) = apci::read_result(incoming) {
        match station.step_result(apdu) {
            Ok(station::StationStepView::ReadOn { reply }) => {
                let rest = apci::read_rest(incoming);
                what_is_handed_up_is_acknowledged(station.after(apdu), rest);
                if run.result matches Ok(Some(_)) {
                    ending_behind_more(
                        apci::reply_wire(reply),
                        station.after(apdu).run(rest).written,
                        ApduView::S { receive: run.station.received },
                    );
                }
            },
            Ok(station::StationStepView::HandUp { reply: Some(reply), .. }) => {
                assert(reply.wire().skip(0) =~= reply.wire());
            },
            _ => {},
        }
    }
}

/// Whatever came in before, a conversation ends without an error only when
/// the peer said STOPDT, which is confirmed and leaves data transfer
/// stopped, or when it closed.
pub proof fn a_conversation_ends_with_stop_or_close(station: StationView, incoming: Seq<u8>)
    ensures
        station.run(incoming).result == Ok::<Option<ArrivedView>, Error>(None) ==> {
            ||| station.run(incoming).rest.len() == 0
            ||| !station.run(incoming).station.started && ends_with(
                station.run(incoming).written,
                apci::command_frame(apci::STOPDT_CON),
            )
        },
    decreases incoming.len(),
{
    let run = station.run(incoming);
    let stopped = apci::command_frame(apci::STOPDT_CON);
    if let Ok(apdu) = apci::read_result(incoming) {
        match station.step_result(apdu) {
            Ok(station::StationStepView::ReadOn { reply }) => {
                let rest = apci::read_rest(incoming);
                let later = station.after(apdu).run(rest);
                a_conversation_ends_with_stop_or_close(station.after(apdu), rest);
                if ends_with(later.written, stopped) {
                    ending_behind_more(apci::reply_wire(reply), later.written, stopped);
                }
            },
            Ok(station::StationStepView::HandUp { reply: Some(reply), .. }) => {
                assert(reply.wire().skip(0) =~= reply.wire());
            },
            _ => {},
        }
    }
}

/// What a station answers is a valid APDU.
pub proof fn what_a_station_answers_is_valid(station: StationView, apdu: Option<ApduView>)
    ensures
        match station.step_result(apdu) {
            Ok(station::StationStepView::ReadOn { reply: Some(reply) }) => reply.valid(),
            Ok(station::StationStepView::HandUp { reply: Some(reply), .. }) => reply.valid(),
            _ => true,
        },
{
}

/// The sequence number `n` places after `first`.
pub open spec fn sequence_after(first: u16, n: nat) -> u16 {
    ((first + n) % 0x8000) as u16
}

/// Each ASDU of a session carries the sequence number after the one before,
/// starting with the one the station expects; afterwards the station expects
/// the next. The peer stays who it was.
pub proof fn sessions_hand_up_in_sequence(station: StationView, incoming: Seq<u8>)
    requires
        station.received < 0x8000,
    ensures
        station.session(incoming).station.peer == station.peer,
        station.session(incoming).result matches Ok(arrivals) ==> {
            &&& station.session(incoming).station.received == sequence_after(
                station.received,
                arrivals.len(),
            )
            &&& forall|i: int|
                0 <= i < arrivals.len() ==> (#[trigger] arrivals[i]).origin_uri
                    == station::origin_text(
                    station.peer,
                    sequence_after(station.received, i as nat),
                )
        },
    decreases incoming.len(),
{
    run_keeps_count(station, incoming);
    station::run_consumes(station, incoming);
    let run = station.run(incoming);
    if let Ok(Some(arrived)) = run.result {
        sessions_hand_up_in_sequence(run.station, run.rest);
        if let Ok(more) = run.station.session(run.rest).result {
            let arrivals = seq![arrived] + more;
            assert forall|i: int| 0 <= i < arrivals.len() implies (
            #[trigger] arrivals[i]).origin_uri == station::origin_text(
                station.peer,
                sequence_after(station.received, i as nat),
            ) by {
                counting_on(station.received, 0);
                if i > 0 {
                    counting_on(station.received, (i - 1) as nat);
                    assert(arrivals[i] == more[i - 1]);
                }
            }
        }
    }
}

/// Up to the next ASDU a station counts that ASDU and no other.
proof fn run_keeps_count(station: StationView, incoming: Seq<u8>)
    ensures
        station.run(incoming).station.peer == station.peer,
        match station.run(incoming).result {
            Ok(Some(arrived)) => station.run(incoming).station.received == apci::next_sequence(
                station.received,
            ) && arrived.origin_uri == station::origin_text(station.peer, station.received),
            _ => station.run(incoming).station.received == station.received,
        },
    decreases incoming.len(),
{
    if let Ok(apdu) = apci::read_result(incoming) {
        if let Ok(station::StationStepView::ReadOn { reply }) = station.step_result(apdu) {
            run_keeps_count(station.after(apdu), apci::read_rest(incoming));
        }
    }
}

/// An ASDU over what one APDU carries is refused before anything is written
/// or read, and takes no sequence number.
pub proof fn an_asdu_too_long_is_not_sent(sent: u16, asdu: Seq<u8>, incoming: Seq<u8>)
    requires
        asdu.len() > apci::MAX_ASDU,
    ensures
        controller::sending_run(sent, asdu, incoming) == (ControllerRun {
            sent,
            rest: incoming,
            written: seq![],
            result: Err(Error::AsduTooLong),
        }),
{
}

/// An ASDU is sent when an S or I frame acknowledges exactly up to it; only
/// that frame is read.
pub proof fn an_acknowledged_asdu_is_sent(
    sent: u16,
    asdu: Seq<u8>,
    acknowledgement: ApduView,
    more: Seq<u8>,
)
    requires
        asdu.len() <= apci::MAX_ASDU,
        acknowledgement.valid(),
        match acknowledgement {
            ApduView::S { receive } => receive == apci::next_sequence(sent),
            ApduView::I { receive, .. } => receive == apci::next_sequence(sent),
            ApduView::U { .. } => false,
        },
    ensures
        controller::sending_run(sent, asdu, acknowledgement.wire() + more) == (ControllerRun {
            sent: apci::next_sequence(sent),
            rest: more,
            written: controller::information_frame(sent, asdu).wire(),
            result: Ok(()),
        }),
{
    reading_gives_back_what_was_encoded(acknowledgement, more);
    let frame = controller::information_frame(sent, asdu).wire();
    assert(frame + Seq::<u8>::empty() =~= frame);
}

/// An acknowledgement of anything else is refused.
pub proof fn a_wrong_acknowledgement_is_refused(
    sent: u16,
    acknowledgement: ApduView,
    receive: u16,
    more: Seq<u8>,
)
    requires
        acknowledgement.valid(),
        match acknowledgement {
            ApduView::S { receive: r } => r == receive,
            ApduView::I { receive: r, .. } => r == receive,
            ApduView::U { .. } => false,
        },
        receive != sent,
    ensures
        controller::waiting_run(sent, acknowledgement.wire() + more).result == Err::<(), Error>(
            Error::WrongAcknowledgement { receive, expected: sent },
        ),
        controller::waiting_run(sent, acknowledgement.wire() + more).written == Seq::<u8>::empty(),
{
    reading_gives_back_what_was_encoded(acknowledgement, more);
}

/// A station that closes before it acknowledged is an error.
pub proof fn a_station_that_closes_did_not_acknowledge(sent: u16)
    ensures
        controller::waiting_run(sent, seq![]).result == Err::<(), Error>(
            Error::ClosedUnacknowledged,
        ),
{
}

/// While a controller waits, TESTFR is answered by its confirmation and
/// other commands are passed over; neither changes anything else.
pub proof fn a_waiting_controller_answers_tests(sent: u16, command: u8, more: Seq<u8>)
    requires
        apci::is_command(command),
    ensures
        ({
            let run = controller::waiting_run(sent, apci::command_frame(command).wire() + more);
            let later = controller::waiting_run(sent, more);
            &&& run.result == later.result
            &&& run.rest == later.rest
            &&& run.sent == later.sent
            &&& run.written == if command == apci::TESTFR_ACT {
                apci::command_frame(apci::TESTFR_CON).wire() + later.written
            } else {
                later.written
            }
        }),
{
    reading_gives_back_what_was_encoded(apci::command_frame(command), more);
    let later = controller::waiting_run(sent, more);
    assert(Seq::<u8>::empty() + later.written =~= later.written);
}

/// What a controller sends is a valid APDU.
pub proof fn what_a_controller_sends_is_valid(sent: u16, asdu: Seq<u8>, apdu: Option<ApduView>)
    requires
        sent < 0x8000,
        asdu.len() <= apci::MAX_ASDU,
    ensures
        controller::information_frame(sent, asdu).valid(),
        controller::waiting_step(sent, apdu) matches Ok(
            controller::ControllerStepView::ReadOn { reply: Some(reply) },
        ) ==> reply.valid(),
{
}

/// The first acknowledgement in what comes in: in an S or I frame, past any
/// commands.
pub open spec fn first_acknowledgement(incoming: Seq<u8>) -> Option<u16>
    decreases incoming.len(),
{
    match apci::read_result(incoming) {
        Ok(Some(ApduView::S { receive })) => Some(receive),
        Ok(Some(ApduView::I { receive, .. })) => Some(receive),
        Ok(Some(ApduView::U { .. })) => first_acknowledgement(apci::read_rest(incoming)),
        _ => None,
    }
}

/// Waiting ends well exactly when the first acknowledgement is the one
/// waited for.
proof fn waiting_ends_with_the_acknowledgement(sent: u16, incoming: Seq<u8>)
    ensures
        controller::waiting_run(sent, incoming).result is Ok <==> first_acknowledgement(incoming)
            == Some(sent),
    decreases incoming.len(),
{
    if let Ok(Some(ApduView::U { .. })) = apci::read_result(incoming) {
        waiting_ends_with_the_acknowledgement(sent, apci::read_rest(incoming));
    }
}

/// An ASDU counts as sent exactly when it fits and the first acknowledgement
/// that comes in covers it.
pub proof fn sent_means_acknowledged(sent: u16, asdu: Seq<u8>, incoming: Seq<u8>)
    ensures
        controller::sending_run(sent, asdu, incoming).result is Ok <==> asdu.len()
            <= apci::MAX_ASDU && first_acknowledgement(incoming) == Some(
            apci::next_sequence(sent),
        ),
{
    waiting_ends_with_the_acknowledgement(apci::next_sequence(sent), incoming);
}

/// Waiting leaves the count alone.
pub(crate) proof fn waiting_keeps_count(sent: u16, incoming: Seq<u8>)
    ensures
        controller::waiting_run(sent, incoming).sent == sent,
    decreases incoming.len(),
{
    if let Ok(apdu) = apci::read_result(incoming) {
        if let Ok(controller::ControllerStepView::ReadOn { reply }) = controller::waiting_step(
            sent,
            apdu,
        ) {
            waiting_keeps_count(sent, apci::read_rest(incoming));
        }
    }
}

/// A controller that sent `asdus` has counted each.
pub proof fn a_controller_counts_what_it_sent(sent: u16, asdus: Seq<Seq<u8>>, incoming: Seq<u8>)
    requires
        sent < 0x8000,
    ensures
        controller::sending_each_run(sent, asdus, incoming).result is Ok
            ==> controller::sending_each_run(sent, asdus, incoming).sent == sequence_after(
            sent,
            asdus.len(),
        ),
    decreases asdus.len(),
{
    if asdus.len() > 0 {
        let first = controller::sending_run(sent, asdus[0], incoming);
        waiting_keeps_count(apci::next_sequence(sent), incoming);
        if first.result is Ok {
            a_controller_counts_what_it_sent(first.sent, asdus.drop_first(), first.rest);
        }
    }
}

/// Each ASDU is acknowledged before the next goes: where one of the first
/// `n` was not, what comes after them makes no difference to what is
/// written, read or returned.
pub proof fn what_is_not_acknowledged_stops_the_stream(
    sent: u16,
    asdus: Seq<Seq<u8>>,
    n: int,
    incoming: Seq<u8>,
)
    requires
        0 <= n <= asdus.len(),
        controller::sending_each_run(sent, asdus.take(n), incoming).result is Err,
    ensures
        controller::sending_each_run(sent, asdus, incoming) == controller::sending_each_run(
            sent,
            asdus.take(n),
            incoming,
        ),
    decreases n,
{
    if n > 0 {
        let first = controller::sending_run(sent, asdus[0], incoming);
        if first.result is Ok {
            assert(asdus.take(n).drop_first() =~= asdus.drop_first().take(n - 1));
            what_is_not_acknowledged_stops_the_stream(
                first.sent,
                asdus.drop_first(),
                n - 1,
                first.rest,
            );
        }
    }
}

/// Cutting a payload into ASDUs loses nothing: end to end they are the
/// payload. None is empty, none is over what one APDU carries, and all but
/// the last are exactly that.
pub proof fn cutting_loses_nothing(payload: Seq<u8>)
    ensures
        controller::asdus_of(payload).flatten() == payload,
        forall|i: int|
            0 <= i < controller::asdus_of(payload).len() ==> 0 < (
            #[trigger] controller::asdus_of(payload)[i]).len() <= apci::MAX_ASDU,
        forall|i: int|
            0 <= i < controller::asdus_of(payload).len() - 1 ==> (
            #[trigger] controller::asdus_of(payload)[i]).len() == apci::MAX_ASDU,
    decreases payload.len(),
{
    let asdus = controller::asdus_of(payload);
    assert forall|i: int| 0 <= i < asdus.len() implies 0 < (#[trigger] asdus[i]).len()
        <= apci::MAX_ASDU && (i < asdus.len() - 1 ==> asdus[i].len() == apci::MAX_ASDU) by {
        controller::asdu_cuts(payload.len(), i);
    }
    controller::asdu_cuts(payload.len(), 0);
    if payload.len() > 0 {
        let size = asdus[0].len() as int;
        let rest = payload.skip(size);
        cutting_loses_nothing(rest);
        controller::asdu_cuts(rest.len(), 0);
        assert(asdus.drop_first() =~= controller::asdus_of(rest)) by {
            assert forall|i: int| 0 <= i < asdus.len() - 1 implies asdus.drop_first()[i]
                =~= controller::asdus_of(rest)[i] by {
                controller::asdu_cuts(payload.len(), i + 1);
                controller::asdu_cuts(rest.len(), i);
            }
        }
        assert(asdus[0] + rest =~= payload);
    }
}

/// What a station hands up that takes `asdus` from the sequence number
/// `first` on.
pub open spec fn arrivals_of(peer: Seq<char>, first: u16, asdus: Seq<Seq<u8>>) -> Seq<ArrivedView> {
    Seq::new(
        asdus.len(),
        |i: int|
            ArrivedView {
                origin_uri: station::origin_text(peer, sequence_after(first, i as nat)),
                bytes: asdus[i],
            },
    )
}

/// Whether each of `asdus` fits in one APDU.
pub open spec fn all_fit(asdus: Seq<Seq<u8>>) -> bool {
    forall|i: int| 0 <= i < asdus.len() ==> (#[trigger] asdus[i]).len() <= apci::MAX_ASDU
}

/// What a controller writes that still has `asdus` to send: their frames,
/// and STOPDT if all goes well.
spec fn remaining(sent: u16, asdus: Seq<Seq<u8>>, replies: Seq<u8>) -> Seq<u8> {
    let sending = controller::sending_each_run(sent, asdus, replies);
    sending.written + if sending.result is Ok {
        apci::command_frame(apci::STOPDT_ACT).wire()
    } else {
        seq![]
    }
}

/// What a controller still writes opens with its next I frame.
proof fn remaining_opens_with_the_next_frame(sent: u16, asdus: Seq<Seq<u8>>, replies: Seq<u8>)
    requires
        asdus.len() > 0,
        asdus[0].len() <= apci::MAX_ASDU,
    ensures
        ({
            let frame = controller::information_frame(sent, asdus[0]).wire();
            let frames = remaining(sent, asdus, replies);
            frames == frame + frames.skip(frame.len() as int)
        }),
{
    let frame = controller::information_frame(sent, asdus[0]).wire();
    let frames = remaining(sent, asdus, replies);
    let first = controller::sending_run(sent, asdus[0], replies);
    assert(first.written.take(frame.len() as int) =~= frame);
    assert(frames.take(frame.len() as int) =~= frame);
    assert(frames =~= frame + frames.skip(frame.len() as int));
}

/// What a controller still writes whose next I frame is acknowledged.
proof fn remaining_after_an_acknowledgement(sent: u16, asdus: Seq<Seq<u8>>, more: Seq<u8>)
    requires
        sent < 0x8000,
        asdus.len() > 0,
        asdus[0].len() <= apci::MAX_ASDU,
    ensures
        ({
            let next = apci::next_sequence(sent);
            let replies = (ApduView::S { receive: next }).wire() + more;
            let rest = asdus.drop_first();
            &&& remaining(sent, asdus, replies) == controller::information_frame(
                sent,
                asdus[0],
            ).wire() + remaining(next, rest, more)
            &&& controller::sending_each_run(sent, asdus, replies).result
                == controller::sending_each_run(next, rest, more).result
        }),
{
    let next = apci::next_sequence(sent);
    let acknowledgement = ApduView::S { receive: next };
    an_acknowledged_asdu_is_sent(sent, asdus[0], acknowledgement, more);
    let later = controller::sending_each_run(next, asdus.drop_first(), more);
    let frame = controller::information_frame(sent, asdus[0]).wire();
    let stop = if later.result is Ok {
        apci::command_frame(apci::STOPDT_ACT).wire()
    } else {
        seq![]
    };
    assert((frame + later.written) + stop =~= frame + (later.written + stop));
}

/// All but the first of what fits fits.
proof fn the_rest_fits(asdus: Seq<Seq<u8>>)
    requires
        asdus.len() > 0,
        all_fit(asdus),
    ensures
        asdus[0].len() <= apci::MAX_ASDU,
        all_fit(asdus.drop_first()),
{
    let rest = asdus.drop_first();
    assert forall|i: int| 0 <= i < rest.len() implies (#[trigger] rest[i]).len()
        <= apci::MAX_ASDU by {
        assert(rest[i] == asdus[i + 1]);
    }
}

/// A session whose next I frame is taken goes on with what follows it.
proof fn a_session_goes_on_after_an_asdu(station: StationView, asdu: Seq<u8>, more: Seq<u8>)
    requires
        station.started,
        station.received < 0x8000,
        asdu.len() <= apci::MAX_ASDU,
    ensures
        ({
            let frame = controller::information_frame(station.received, asdu).wire();
            let next = apci::next_sequence(station.received);
            let run = station.session(frame + more);
            let later = (StationView { received: next, ..station }).session(more);
            let arrived = ArrivedView {
                origin_uri: station::origin_text(station.peer, station.received),
                bytes: asdu,
            };
            &&& run.written == (ApduView::S { receive: next }).wire() + later.written
            &&& run.rest == later.rest
            &&& later.result matches Ok(arrivals) ==> run.result == Ok::<Seq<ArrivedView>, Error>(
                seq![arrived] + arrivals,
            )
        }),
{
    information_in_sequence_is_acknowledged_and_handed_up(station, 0, asdu, more);
}

/// What is left behind the front of a sequence.
proof fn skipping_the_front(front: Seq<u8>, back: Seq<u8>)
    ensures
        (front + back).skip(front.len() as int) == back,
{
    assert((front + back).skip(front.len() as int) =~= back);
}

/// Counting on from the next sequence number.
proof fn counting_on(first: u16, n: nat)
    requires
        first < 0x8000,
    ensures
        sequence_after(apci::next_sequence(first), n) == sequence_after(first, n + 1),
        sequence_after(first, 0) == first,
{
}

/// The first ASDU arrives before the others.
proof fn the_first_arrives_first(peer: Seq<char>, first: u16, asdus: Seq<Seq<u8>>)
    requires
        first < 0x8000,
        asdus.len() > 0,
    ensures
        arrivals_of(peer, first, asdus) == seq![
            ArrivedView { origin_uri: station::origin_text(peer, first), bytes: asdus[0] },
        ] + arrivals_of(peer, apci::next_sequence(first), asdus.drop_first()),
{
    let whole = arrivals_of(peer, first, asdus);
    let arrived = ArrivedView { origin_uri: station::origin_text(peer, first), bytes: asdus[0] };
    let rest = arrivals_of(peer, apci::next_sequence(first), asdus.drop_first());
    let parts = seq![arrived] + rest;
    assert(whole.len() == parts.len());
    assert forall|i: int| 0 <= i < whole.len() implies whole[i] == parts[i] by {
        counting_on(first, 0);
        if i > 0 {
            counting_on(first, (i - 1) as nat);
            assert(parts[i] == rest[i - 1]);
            assert(asdus.drop_first()[i - 1] == asdus[i]);
        }
    }
    assert(whole =~= parts);
}

/// The rest of a conversation between two stations that are connected to
/// each other.
proof fn the_rest_arrives(
    station: StationView,
    asdus: Seq<Seq<u8>>,
    frames: Seq<u8>,
    replies: Seq<u8>,
)
    requires
        station.started,
        station.received < 0x8000,
        all_fit(asdus),
        frames == remaining(station.received, asdus, replies),
        replies == station.session(frames).written,
    ensures
        controller::sending_each_run(station.received, asdus, replies).result == Ok::<(), Error>(
            (),
        ),
        station.session(frames).result == Ok::<Seq<ArrivedView>, Error>(
            arrivals_of(station.peer, station.received, asdus),
        ),
    decreases asdus.len(),
{
    if asdus.len() == 0 {
        stop_is_confirmed(station, seq![]);
        assert(frames =~= apci::command_frame(apci::STOPDT_ACT).wire() + Seq::<u8>::empty());
        assert(arrivals_of(station.peer, station.received, asdus) =~= seq![]);
    } else {
        let sent = station.received;
        let next = apci::next_sequence(sent);
        let rest = asdus.drop_first();
        let frame = controller::information_frame(sent, asdus[0]).wire();
        let more_frames = frames.skip(frame.len() as int);
        the_rest_fits(asdus);
        remaining_opens_with_the_next_frame(sent, asdus, replies);
        a_session_goes_on_after_an_asdu(station, asdus[0], more_frames);
        let later_station = StationView { received: next, ..station };
        let more_replies = later_station.session(more_frames).written;
        remaining_after_an_acknowledgement(sent, asdus, more_replies);
        skipping_the_front(frame, remaining(next, rest, more_replies));
        the_rest_arrives(later_station, rest, more_frames, more_replies);
        the_first_arrives_first(station.peer, sent, asdus);
    }
}

/// When a controller that sends `asdus` and a station are connected to each
/// other, so that each reads what the other writes, every ASDU is sent and
/// acknowledged, and the station hands up each, whole and in order.
pub proof fn asdus_flow_in_sequence(
    peer: Seq<char>,
    asdus: Seq<Seq<u8>>,
    frames: Seq<u8>,
    replies: Seq<u8>,
)
    requires
        all_fit(asdus),
        frames == controller::conversation_run(asdus, replies).written,
        replies == StationView::fresh(peer).session(frames).written,
    ensures
        controller::conversation_run(asdus, replies).result == Ok::<(), Error>(()),
        StationView::fresh(peer).session(frames).result == Ok::<Seq<ArrivedView>, Error>(
            arrivals_of(peer, 0, asdus),
        ),
{
    let station = StationView::fresh(peer);
    let start = apci::command_frame(apci::STARTDT_ACT).wire();
    let confirmation = apci::command_frame(apci::STARTDT_CON);
    let more_frames = frames.skip(start.len() as int);
    assert(frames.len() >= start.len());
    assert(frames =~= start + more_frames);
    start_is_confirmed(station, more_frames);
    let started = StationView { started: true, ..station };
    let more_replies = started.session(more_frames).written;
    assert(replies =~= confirmation.wire() + more_replies);
    reading_gives_back_what_was_encoded(confirmation, more_replies);
    assert(more_frames =~= remaining(0, asdus, more_replies));
    the_rest_arrives(started, asdus, more_frames, more_replies);
}

/// The bytes of what a station hands up are the ASDUs end to end.
proof fn arrivals_join_to_their_asdus(peer: Seq<char>, first: u16, asdus: Seq<Seq<u8>>)
    ensures
        station::joined_bytes(arrivals_of(peer, first, asdus)) == asdus.flatten(),
    decreases asdus.len(),
{
    asdus.lemma_flatten_and_flatten_alt_are_equivalent();
    if asdus.len() > 0 {
        let before = asdus.drop_last();
        arrivals_join_to_their_asdus(peer, first, before);
        before.lemma_flatten_and_flatten_alt_are_equivalent();
        assert(arrivals_of(peer, first, asdus).drop_last() =~= arrivals_of(peer, first, before));
    }
}

/// A Stream of any length that goes over a controller and a station connected
/// to each other arrives whole, as one, with the origin of the last I frame
/// that carried it.
pub proof fn a_stream_arrives_whole(
    peer: Seq<char>,
    payload: Seq<u8>,
    frames: Seq<u8>,
    replies: Seq<u8>,
)
    requires
        frames == controller::conversation_run(controller::asdus_of(payload), replies).written,
        replies == StationView::fresh(peer).session(frames).written,
    ensures
        controller::conversation_run(controller::asdus_of(payload), replies).result == Ok::<
            (),
            Error,
        >(()),
        transport::taken_result(peer, frames) == Ok::<ArrivedView, Error>(
            (ArrivedView {
                origin_uri: if payload.len() == 0 {
                    "iec104://"@
                } else {
                    station::origin_text(
                        peer,
                        sequence_after(0, (controller::asdu_count(payload.len()) - 1) as nat),
                    )
                },
                bytes: payload,
            }),
        ),
{
    let asdus = controller::asdus_of(payload);
    cutting_loses_nothing(payload);
    asdus_flow_in_sequence(peer, asdus, frames, replies);
    arrivals_join_to_their_asdus(peer, 0, asdus);
    controller::asdu_cuts(payload.len(), 0);
}

/// The I frames that carry `asdus` from the sequence number `first` on.
pub open spec fn information_wires(first: u16, asdus: Seq<Seq<u8>>) -> Seq<u8>
    decreases asdus.len(),
{
    if asdus.len() == 0 {
        seq![]
    } else {
        controller::information_frame(first, asdus[0]).wire() + information_wires(
            apci::next_sequence(first),
            asdus.drop_first(),
        )
    }
}

/// The S frames that acknowledge `count` I frames from the sequence number
/// `first` on.
pub open spec fn acknowledgement_wires(first: u16, count: nat) -> Seq<u8>
    decreases count,
{
    if count == 0 {
        seq![]
    } else {
        (ApduView::S { receive: apci::next_sequence(first) }).wire() + acknowledgement_wires(
            apci::next_sequence(first),
            (count - 1) as nat,
        )
    }
}

/// All that a controller writes that sends `asdus`.
pub open spec fn conversation_frames(asdus: Seq<Seq<u8>>) -> Seq<u8> {
    apci::command_frame(apci::STARTDT_ACT).wire() + information_wires(0, asdus)
        + apci::command_frame(apci::STOPDT_ACT).wire()
}

/// All that a station writes that takes `count` ASDUs.
pub open spec fn conversation_replies(count: nat) -> Seq<u8> {
    apci::command_frame(apci::STARTDT_CON).wire() + acknowledgement_wires(0, count)
        + apci::command_frame(apci::STOPDT_CON).wire()
}

/// Acknowledged one after another, all of `asdus` are sent.
proof fn acknowledged_asdus_are_sent(sent: u16, asdus: Seq<Seq<u8>>, more: Seq<u8>)
    requires
        sent < 0x8000,
        all_fit(asdus),
    ensures
        ({
            let run = controller::sending_each_run(
                sent,
                asdus,
                acknowledgement_wires(sent, asdus.len()) + more,
            );
            &&& run.result == Ok::<(), Error>(())
            &&& run.written == information_wires(sent, asdus)
            &&& run.rest == more
        }),
    decreases asdus.len(),
{
    let replies = acknowledgement_wires(sent, asdus.len()) + more;
    if asdus.len() == 0 {
        assert(replies =~= more);
    } else {
        let next = apci::next_sequence(sent);
        let rest = asdus.drop_first();
        let later = acknowledgement_wires(next, rest.len()) + more;
        let acknowledgement = ApduView::S { receive: next };
        assert(replies =~= acknowledgement.wire() + later);
        an_acknowledged_asdu_is_sent(sent, asdus[0], acknowledgement, later);
        the_rest_fits(asdus);
        acknowledged_asdus_are_sent(next, rest, more);
    }
}

/// All of `asdus` in sequence are acknowledged one after another.
proof fn asdus_in_sequence_are_acknowledged(station: StationView, asdus: Seq<Seq<u8>>)
    requires
        station.started,
        station.received < 0x8000,
        all_fit(asdus),
    ensures
        ({
            let frames = information_wires(station.received, asdus) + apci::command_frame(
                apci::STOPDT_ACT,
            ).wire();
            let run = station.session(frames);
            &&& run.written == acknowledgement_wires(station.received, asdus.len())
                + apci::command_frame(apci::STOPDT_CON).wire()
            &&& run.rest == Seq::<u8>::empty()
        }),
    decreases asdus.len(),
{
    let stop = apci::command_frame(apci::STOPDT_ACT).wire();
    let frames = information_wires(station.received, asdus) + stop;
    if asdus.len() == 0 {
        assert(frames =~= stop + Seq::<u8>::empty());
        stop_is_confirmed(station, seq![]);
        assert(station.session(frames).written =~= acknowledgement_wires(station.received, 0)
            + apci::command_frame(apci::STOPDT_CON).wire());
    } else {
        let next = apci::next_sequence(station.received);
        let rest = asdus.drop_first();
        let later = information_wires(next, rest) + stop;
        assert(frames =~= controller::information_frame(station.received, asdus[0]).wire() + later);
        information_in_sequence_is_acknowledged_and_handed_up(station, 0, asdus[0], later);
        the_rest_fits(asdus);
        asdus_in_sequence_are_acknowledged(StationView { received: next, ..station }, rest);
        assert(station.session(frames).written =~= acknowledgement_wires(
            station.received,
            asdus.len(),
        ) + apci::command_frame(apci::STOPDT_CON).wire());
    }
}

/// A controller that sends `asdus` and a station connected to each other
/// write STARTDT, the I frames in sequence and STOPDT on one side, and the
/// two confirmations with an acknowledgement for each I frame between them
/// on the other. The station reads all; the controller leaves the last
/// confirmation unread.
pub proof fn a_conversation_on_the_wire(peer: Seq<char>, asdus: Seq<Seq<u8>>)
    requires
        all_fit(asdus),
    ensures
        controller::conversation_run(asdus, conversation_replies(asdus.len())).written
            == conversation_frames(asdus),
        controller::conversation_run(asdus, conversation_replies(asdus.len())).rest
            == apci::command_frame(apci::STOPDT_CON).wire(),
        StationView::fresh(peer).session(conversation_frames(asdus)).written
            == conversation_replies(asdus.len()),
        StationView::fresh(peer).session(conversation_frames(asdus)).rest == Seq::<u8>::empty(),
{
    let station = StationView::fresh(peer);
    let started = StationView { started: true, ..station };
    let stopped = apci::command_frame(apci::STOPDT_CON).wire();
    let confirmation = apci::command_frame(apci::STARTDT_CON);
    let more_replies = acknowledgement_wires(0, asdus.len()) + stopped;
    assert(conversation_replies(asdus.len()) =~= confirmation.wire() + more_replies);
    reading_gives_back_what_was_encoded(confirmation, more_replies);
    acknowledged_asdus_are_sent(0, asdus, stopped);
    let start = apci::command_frame(apci::STARTDT_ACT).wire();
    let more_frames = information_wires(0, asdus) + apci::command_frame(apci::STOPDT_ACT).wire();
    assert(conversation_frames(asdus) =~= start + more_frames);
    start_is_confirmed(station, more_frames);
    asdus_in_sequence_are_acknowledged(started, asdus);
    assert(station.session(start + more_frames).written =~= conversation_replies(asdus.len()));
}

} // verus!
