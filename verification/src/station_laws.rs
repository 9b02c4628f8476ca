//! What a controlled station makes of whatever comes in, frame by frame, and
//! of a whole session.

use crate::apci;
use crate::apci::{Apdu, ApduView};
use crate::error::Error;
use crate::station;
use crate::station::{
    Arrived, ArrivedView, SessionRun, StationRun, StationStep, StationStepView, StationView,
};
use crate::text;
use crate::transport;
use crate::wire_laws;
use vstd::prelude::*;

verus! {

/// The views of what a station hands up say all that it says.
pub proof fn views_of_arrivals_hide_nothing(arrived: Arrived, arrivals: Seq<Arrived>, error: Error)
    ensures
        arrived@.origin_uri == arrived.origin_uri@,
        arrived@.bytes == arrived.bytes@,
        station::arrived_view(Some(arrived)) == Some(arrived@),
        station::arrived_view(None) is None,
        station::next_view(Ok(Some(arrived))) == Ok::<Option<ArrivedView>, Error>(Some(arrived@)),
        station::next_view(Ok(None)) == Ok::<Option<ArrivedView>, Error>(None),
        station::next_view(Err(error)) == Err::<Option<ArrivedView>, Error>(error),
        station::arrivals_view(arrivals).len() == arrivals.len(),
        forall|i: int|
            0 <= i < arrivals.len() ==> #[trigger] station::arrivals_view(arrivals)[i]
                == arrivals[i]@,
        forall|list: Vec<Arrived>| #[trigger]
            transport::received_view(Ok(list)) == Ok::<Seq<ArrivedView>, Error>(
                station::arrivals_view(list@),
            ),
        transport::received_view(Err(error)) == Err::<Seq<ArrivedView>, Error>(error),
        transport::taken_view(Ok(arrived)) == Ok::<ArrivedView, Error>(arrived@),
        transport::taken_view(Err(error)) == Err::<ArrivedView, Error>(error),
{
}

/// The views of what a station is to do say all that it says.
pub proof fn views_of_steps_hide_nothing(
    reply: Option<Apdu>,
    arrived: Option<Arrived>,
    step: StationStep,
    error: Error,
)
    ensures
        (StationStep::ReadOn { reply })@ == (StationStepView::ReadOn {
            reply: apci::apdu_view(reply),
        }),
        (StationStep::HandUp { reply, arrived })@ == (StationStepView::HandUp {
            reply: apci::apdu_view(reply),
            arrived: station::arrived_view(arrived),
        }),
        station::station_step_view(Ok(step)) == Ok::<StationStepView, Error>(step@),
        station::station_step_view(Err(error)) == Err::<StationStepView, Error>(error),
{
}

/// A station just accepted knows its peer whole, expects the first I frame,
/// and has not started.
pub proof fn a_fresh_station_has_not_started(peer: Seq<char>)
    ensures
        StationView::fresh(peer).peer == peer,
        StationView::fresh(peer).received == 0,
        !StationView::fresh(peer).started,
{
}

/// An origin is the scheme, the whole peer, and the number in base ten.
pub proof fn an_origin_holds_peer_and_number_whole(peer: Seq<char>, send: u16)
    ensures
        ({
            let origin = station::origin_text(peer, send);
            let number = text::decimal_text(send as nat);
            &&& origin.len() == 9 + peer.len() + 6 + number.len()
            &&& origin.subrange(0, 9) == "iec104://"@
            &&& origin.subrange(9, 9 + peer.len() as int) == peer
            &&& origin.subrange(9 + peer.len() as int, 15 + peer.len() as int) == "?send="@
            &&& origin.skip(15 + peer.len() as int) == number
        }),
{
    reveal_strlit("iec104://");
    reveal_strlit("?send=");
    let origin = station::origin_text(peer, send);
    let number = text::decimal_text(send as nat);
    assert(origin.subrange(0, 9) =~= "iec104://"@);
    assert(origin.subrange(9, 9 + peer.len() as int) =~= peer);
    assert(origin.subrange(9 + peer.len() as int, 15 + peer.len() as int) =~= "?send="@);
    assert(origin.skip(15 + peer.len() as int) =~= number);
}

/// Two origins are the same only for the same peer and the same number.
pub proof fn origins_are_told_apart(peer: Seq<char>, send: u16, peer2: Seq<char>, send2: u16)
    requires
        station::origin_text(peer, send) == station::origin_text(peer2, send2),
    ensures
        peer == peer2,
        send == send2,
{
    if text::decimal_text(send as nat).len() < text::decimal_text(send2 as nat).len() {
        origins_end_alike(peer, send, peer2, send2);
    } else {
        origins_end_alike(peer2, send2, peer, send);
    }
    let origin = station::origin_text(peer, send);
    an_origin_holds_peer_and_number_whole(peer, send);
    an_origin_holds_peer_and_number_whole(peer2, send2);
    wire_laws::numbers_are_told_apart(send as nat, send2 as nat);
}

/// Where two origins are the same, their numbers are equally long: before
/// the digits stands a sign that is none.
proof fn origins_end_alike(peer: Seq<char>, send: u16, peer2: Seq<char>, send2: u16)
    requires
        station::origin_text(peer, send) == station::origin_text(peer2, send2),
        text::decimal_text(send as nat).len() <= text::decimal_text(send2 as nat).len(),
    ensures
        text::decimal_text(send as nat).len() == text::decimal_text(send2 as nat).len(),
        peer.len() == peer2.len(),
{
    reveal_strlit("?send=");
    let origin = station::origin_text(peer, send);
    let short = text::decimal_text(send as nat);
    let long = text::decimal_text(send2 as nat);
    an_origin_holds_peer_and_number_whole(peer, send);
    an_origin_holds_peer_and_number_whole(peer2, send2);
    let at = 14 + peer.len() as int;
    let front = 15 + peer2.len() as int;
    assert(origin[at] == origin.subrange(9 + peer.len() as int, 15 + peer.len() as int)[5]);
    assert(origin[at] == '=');
    if short.len() < long.len() {
        wire_laws::numbers_are_digits(send2 as nat);
        assert(at >= front);
        assert(origin[at] == origin.skip(front)[at - front]);
    }
}

/// On a command a station does what the command says: start, stop or test,
/// each confirmed; any other is passed over. Nothing else changes.
pub proof fn a_station_on_a_command(station: StationView, command: u8)
    ensures
        ({
            let apdu = Some(ApduView::U { command });
            let after = station.after(apdu);
            let step = station.step_result(apdu);
            &&& after.peer == station.peer
            &&& after.received == station.received
            &&& command == 0x07 ==> after.started && step == Ok::<StationStepView, Error>(
                StationStepView::ReadOn { reply: Some(ApduView::U { command: 0x0b }) },
            )
            &&& command == 0x13 ==> !after.started && step == Ok::<StationStepView, Error>(
                StationStepView::HandUp {
                    reply: Some(ApduView::U { command: 0x23 }),
                    arrived: None,
                },
            )
            &&& command == 0x43 ==> after.started == station.started && step == Ok::<
                StationStepView,
                Error,
            >(StationStepView::ReadOn { reply: Some(ApduView::U { command: 0x83 }) })
            &&& command != 0x07 && command != 0x13 && command != 0x43 ==> after.started
                == station.started && step == Ok::<StationStepView, Error>(
                StationStepView::ReadOn { reply: None },
            )
        }),
{
}

/// On an I frame a station that has started and expects it acknowledges it
/// with the number after it, hands up its ASDU as it is, with its number in
/// the origin, and expects the next; any other it refuses unchanged.
pub proof fn a_station_on_information(
    station: StationView,
    send: u16,
    receive: u16,
    asdu: Seq<u8>,
)
    requires
        station.received < 32768,
    ensures
        ({
            let apdu = Some(ApduView::I { send, receive, asdu });
            let after = station.after(apdu);
            let step = station.step_result(apdu);
            let next = ((send + 1) % 32768) as u16;
            &&& after.peer == station.peer
            &&& after.started == station.started
            &&& !station.started ==> after.received == station.received && step == Err::<
                StationStepView,
                Error,
            >(Error::NotStarted)
            &&& station.started && send != station.received ==> after.received == station.received
                && step == Err::<StationStepView, Error>(
                Error::OutOfSequence { send, expected: station.received },
            )
            &&& station.started && send == station.received ==> after.received == next && step
                == Ok::<StationStepView, Error>(
                StationStepView::HandUp {
                    reply: Some(ApduView::S { receive: next }),
                    arrived: Some(
                        ArrivedView {
                            origin_uri: "iec104://"@ + station.peer + "?send="@
                                + text::decimal_text(send as nat),
                            bytes: asdu,
                        },
                    ),
                },
            )
        }),
{
}

/// An S frame is passed over; a close ends the conversation. Neither changes
/// anything.
pub proof fn a_station_on_an_acknowledgement_or_a_close(station: StationView, receive: u16)
    ensures
        station.after(Some(ApduView::S { receive })) == station,
        station.step_result(Some(ApduView::S { receive })) == Ok::<StationStepView, Error>(
            StationStepView::ReadOn { reply: None },
        ),
        station.after(None) == station,
        station.step_result(None) == Ok::<StationStepView, Error>(
            StationStepView::HandUp { reply: None, arrived: None },
        ),
{
}

/// What cannot be read is passed on as it is, by a station unchanged and
/// silent; so is a close, as the end.
pub proof fn a_station_where_nothing_more_is_read(station: StationView, incoming: Seq<u8>)
    ensures
        apci::read_result(incoming) matches Err(error) ==> station.run(incoming) == (StationRun {
            station,
            rest: apci::read_rest(incoming),
            written: seq![],
            result: Err(error),
        }),
        apci::read_result(incoming) == Ok::<Option<ApduView>, Error>(None) ==> station.run(incoming)
            == (StationRun {
            station,
            rest: apci::read_rest(incoming),
            written: seq![],
            result: Ok(None),
        }),
{
}

/// Whatever its further bytes, a frame read as STARTDT is confirmed and what
/// follows it is taken as by a station that has started; one read as TESTFR
/// is confirmed and what follows taken as if it had not been there.
pub proof fn a_station_confirms_and_reads_on(station: StationView, incoming: Seq<u8>)
    ensures
        apci::read_result(incoming) == Ok::<Option<ApduView>, Error>(
            Some(ApduView::U { command: 0x07 }),
        ) ==> {
            let run = station.run(incoming);
            let later = (StationView {
                peer: station.peer,
                received: station.received,
                started: true,
            }).run(apci::read_rest(incoming));
            &&& run.written == seq![0x68u8, 4, 0x0b, 0, 0, 0] + later.written
            &&& run.result == later.result
            &&& run.station == later.station
            &&& run.rest == later.rest
        },
        apci::read_result(incoming) == Ok::<Option<ApduView>, Error>(
            Some(ApduView::U { command: 0x43 }),
        ) ==> {
            let run = station.run(incoming);
            let later = station.run(apci::read_rest(incoming));
            &&& run.written == seq![0x68u8, 4, 0x83, 0, 0, 0] + later.written
            &&& run.result == later.result
            &&& run.station == later.station
            &&& run.rest == later.rest
        },
{
    wire_laws::a_command_is_written_as_its_first_control_byte(0x0b);
    wire_laws::a_command_is_written_as_its_first_control_byte(0x83);
}

/// Whatever its further bytes, a frame read as STOPDT is confirmed and ends
/// the conversation, stopped, with what follows it left.
pub proof fn a_station_confirms_the_stop(station: StationView, incoming: Seq<u8>)
    requires
        apci::read_result(incoming) == Ok::<Option<ApduView>, Error>(
            Some(ApduView::U { command: 0x13 }),
        ),
    ensures
        station.run(incoming).written == seq![0x68u8, 4, 0x23, 0, 0, 0],
        station.run(incoming).result == Ok::<Option<ArrivedView>, Error>(None),
        station.run(incoming).station.peer == station.peer,
        station.run(incoming).station.received == station.received,
        !station.run(incoming).station.started,
        station.run(incoming).rest == apci::read_rest(incoming),
{
    wire_laws::a_command_is_written_as_its_first_control_byte(0x23);
}

/// Whatever its further bytes, a frame read as an S frame or as a
/// confirmation makes no difference.
pub proof fn a_station_passes_over_the_rest(station: StationView, incoming: Seq<u8>)
    requires
        match apci::read_result(incoming) {
            Ok(Some(ApduView::S { .. })) => true,
            Ok(Some(ApduView::U { command })) => command == 0x0b || command == 0x23 || command
                == 0x83,
            _ => false,
        },
    ensures
        station.run(incoming) == station.run(apci::read_rest(incoming)),
{
    let later = station.run(apci::read_rest(incoming));
    assert(Seq::<u8>::empty() + later.written =~= later.written);
}

/// Whatever its further bytes, a frame read as an I frame is refused or
/// acknowledged and handed up by what it was read as, and what follows it is
/// left.
pub proof fn a_station_takes_or_refuses_information(
    station: StationView,
    incoming: Seq<u8>,
    send: u16,
    receive: u16,
    asdu: Seq<u8>,
)
    requires
        station.received < 32768,
        apci::read_result(incoming) == Ok::<Option<ApduView>, Error>(
            Some(ApduView::I { send, receive, asdu }),
        ),
    ensures
        ({
            let run = station.run(incoming);
            let next = ((send + 1) % 32768) as u16;
            &&& run.rest == apci::read_rest(incoming)
            &&& run.station.peer == station.peer
            &&& run.station.started == station.started
            &&& !station.started ==> run.written.len() == 0 && run.station.received
                == station.received && run.result == Err::<Option<ArrivedView>, Error>(
                Error::NotStarted,
            )
            &&& station.started && send != station.received ==> run.written.len() == 0
                && run.station.received == station.received && run.result == Err::<
                Option<ArrivedView>,
                Error,
            >(Error::OutOfSequence { send, expected: station.received })
            &&& station.started && send == station.received ==> run.written == seq![
                0x68u8,
                4,
                1,
                0,
                (2 * next % 256) as u8,
                (2 * next / 256) as u8,
            ] && run.station.received == next && run.result == Ok::<Option<ArrivedView>, Error>(
                Some(
                    ArrivedView {
                        origin_uri: "iec104://"@ + station.peer + "?send="@ + text::decimal_text(
                            send as nat,
                        ),
                        bytes: asdu,
                    },
                ),
            )
        }),
{
    let next = ((send + 1) % 32768) as u16;
    wire_laws::an_acknowledgement_on_the_wire(next);
    a_station_on_information(station, send, receive, asdu);
    assert(2 * next / 256 % 256 == 2 * next / 256);
}

/// A session is one ASDU handed up after another, each as it was handed up,
/// until the end or an error; all that is written on the way is written, in
/// that order.
pub proof fn a_session_is_one_asdu_after_another(station: StationView, incoming: Seq<u8>)
    ensures
        ({
            let run = station.run(incoming);
            let session = station.session(incoming);
            let later = run.station.session(run.rest);
            &&& run.result matches Err(error) ==> session == (SessionRun {
                station: run.station,
                rest: run.rest,
                written: run.written,
                result: Err(error),
            })
            &&& run.result == Ok::<Option<ArrivedView>, Error>(None) ==> session == (SessionRun {
                station: run.station,
                rest: run.rest,
                written: run.written,
                result: Ok(seq![]),
            })
            &&& run.result matches Ok(Some(arrived)) ==> {
                &&& session.station == later.station
                &&& session.rest == later.rest
                &&& session.written == run.written + later.written
                &&& later.result matches Err(error) ==> session.result == Err::<
                    Seq<ArrivedView>,
                    Error,
                >(error)
                &&& later.result matches Ok(arrivals) ==> session.result == Ok::<
                    Seq<ArrivedView>,
                    Error,
                >(seq![arrived] + arrivals)
            }
        }),
{
    station::run_consumes(station, incoming);
}

/// A frame read as TESTFR, as an S frame or as a confirmation makes no
/// difference to what a session hands up, whatever follows it.
pub proof fn frames_between_change_nothing_that_arrives(station: StationView, incoming: Seq<u8>)
    requires
        match apci::read_result(incoming) {
            Ok(Some(ApduView::S { .. })) => true,
            Ok(Some(ApduView::U { command })) => command == 0x0b || command == 0x23 || command
                == 0x43 || command == 0x83,
            _ => false,
        },
    ensures
        station.session(incoming).result == station.session(apci::read_rest(incoming)).result,
        station.session(incoming).station == station.session(apci::read_rest(incoming)).station,
        station.session(incoming).rest == station.session(apci::read_rest(incoming)).rest,
{
    let more = apci::read_rest(incoming);
    if apci::read_result(incoming) == Ok::<Option<ApduView>, Error>(
        Some(ApduView::U { command: 0x43 }),
    ) {
        a_station_confirms_and_reads_on(station, incoming);
    } else {
        a_station_passes_over_the_rest(station, incoming);
    }
    a_session_is_one_asdu_after_another(station, incoming);
    a_session_is_one_asdu_after_another(station, more);
}

/// The ASDUs of the I frames in what comes in, up to STOPDT or the end.
pub open spec fn asdus_in(incoming: Seq<u8>) -> Seq<Seq<u8>>
    decreases incoming.len(),
{
    match apci::read_result(incoming) {
        Ok(Some(ApduView::I { asdu, .. })) => seq![asdu] + asdus_in(apci::read_rest(incoming)),
        Ok(Some(ApduView::S { .. })) => asdus_in(apci::read_rest(incoming)),
        Ok(Some(ApduView::U { command })) => if command == 0x13 {
            seq![]
        } else {
            asdus_in(apci::read_rest(incoming))
        },
        _ => seq![],
    }
}

/// Up to the next ASDU handed up, no ASDU is skipped, and it is handed up as
/// it came in.
proof fn the_next_asdu_is_the_first_in_line(station: StationView, incoming: Seq<u8>)
    ensures
        match station.run(incoming).result {
            Ok(Some(arrived)) => asdus_in(incoming) == seq![arrived.bytes] + asdus_in(
                station.run(incoming).rest,
            ),
            Ok(None) => asdus_in(incoming).len() == 0,
            Err(_) => true,
        },
    decreases incoming.len(),
{
    if let Ok(apdu) = apci::read_result(incoming) {
        if let Ok(StationStepView::ReadOn { reply }) = station.step_result(apdu) {
            the_next_asdu_is_the_first_in_line(station.after(apdu), apci::read_rest(incoming));
        }
    }
}

/// A session that ends well hands up exactly the ASDUs of the I frames that
/// came in, each whole and in order, whatever frames stand between them.
pub proof fn a_session_hands_up_every_asdu(station: StationView, incoming: Seq<u8>)
    ensures
        station.session(incoming).result matches Ok(arrivals) ==> {
            &&& arrivals.len() == asdus_in(incoming).len()
            &&& forall|i: int|
                0 <= i < arrivals.len() ==> (#[trigger] arrivals[i]).bytes == asdus_in(incoming)[i]
        },
    decreases incoming.len(),
{
    let run = station.run(incoming);
    the_next_asdu_is_the_first_in_line(station, incoming);
    a_session_is_one_asdu_after_another(station, incoming);
    station::run_consumes(station, incoming);
    if let Ok(Some(arrived)) = run.result {
        a_session_hands_up_every_asdu(run.station, run.rest);
        if let Ok(more) = run.station.session(run.rest).result {
            let arrivals = seq![arrived] + more;
            assert forall|i: int| 0 <= i < arrivals.len() implies (#[trigger] arrivals[i]).bytes
                == asdus_in(incoming)[i] by {
                if i > 0 {
                    assert(arrivals[i] == more[i - 1]);
                }
            }
        }
    }
}

/// Gathering joins the bytes of all, in order, under the origin of the last.
pub proof fn gathering_joins_all_under_the_last_origin(arrivals: Seq<ArrivedView>)
    ensures
        station::gathered(arrivals).bytes == arrivals.map_values(
            |arrived: ArrivedView| arrived.bytes,
        ).flatten(),
        arrivals.len() > 0 ==> station::gathered(arrivals).origin_uri
            == arrivals[arrivals.len() - 1].origin_uri,
        arrivals.len() == 0 ==> station::gathered(arrivals).origin_uri == "iec104://"@,
    decreases arrivals.len(),
{
    let bytes = arrivals.map_values(|arrived: ArrivedView| arrived.bytes);
    bytes.lemma_flatten_and_flatten_alt_are_equivalent();
    if arrivals.len() > 0 {
        let before = arrivals.drop_last();
        let before_bytes = before.map_values(|arrived: ArrivedView| arrived.bytes);
        gathering_joins_all_under_the_last_origin(before);
        before_bytes.lemma_flatten_and_flatten_alt_are_equivalent();
        assert(bytes.drop_last() =~= before_bytes);
        assert(bytes.last() == arrivals.last().bytes);
    }
}

/// Adding one more to what is gathered puts its bytes behind, and its origin
/// in place of the one before.
pub proof fn gathering_one_more(arrivals: Seq<ArrivedView>, arrived: ArrivedView)
    ensures
        station::gathered(arrivals.push(arrived)).bytes == station::gathered(arrivals).bytes
            + arrived.bytes,
        station::gathered(arrivals.push(arrived)).origin_uri == arrived.origin_uri,
{
    assert(arrivals.push(arrived).drop_last() =~= arrivals);
}

/// A session taken as one Stream holds the bytes of everything that the
/// session handed up, one after another and whatever their lengths, under the
/// origin of the last; a session that fails fails the same.
pub proof fn a_stream_taken_holds_the_whole_session(peer: Seq<char>, incoming: Seq<u8>)
    ensures
        ({
            let session = (StationView { peer, received: 0, started: false }).session(incoming);
            let taken = transport::taken_result(peer, incoming);
            &&& session.result matches Err(error) ==> taken == Err::<ArrivedView, Error>(error)
            &&& session.result matches Ok(arrivals) ==> taken == Ok::<ArrivedView, Error>(
                ArrivedView {
                    origin_uri: if arrivals.len() == 0 {
                        "iec104://"@
                    } else {
                        arrivals[arrivals.len() - 1].origin_uri
                    },
                    bytes: arrivals.map_values(|arrived: ArrivedView| arrived.bytes).flatten(),
                },
            )
        }),
{
    let station = StationView::fresh(peer);
    if let Ok(arrivals) = station.session(incoming).result {
        gathering_joins_all_under_the_last_origin(arrivals);
    }
}

/// A Stream taken is the ASDUs of all the I frames that came in, end to end.
pub proof fn a_stream_taken_is_all_asdus_end_to_end(peer: Seq<char>, incoming: Seq<u8>)
    ensures
        transport::taken_result(peer, incoming) matches Ok(taken) ==> taken.bytes == asdus_in(
            incoming,
        ).flatten(),
{
    let station = StationView::fresh(peer);
    a_session_hands_up_every_asdu(station, incoming);
    a_stream_taken_holds_the_whole_session(peer, incoming);
    if let Ok(arrivals) = station.session(incoming).result {
        assert(arrivals.map_values(|arrived: ArrivedView| arrived.bytes) =~= asdus_in(incoming));
    }
}

} // verus!
