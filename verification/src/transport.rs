//! Streams over IEC 60870-5-104: a whole conversation at a time, from either
//! end.

use crate::apci;
use crate::apci::Apdu;
use crate::controller;
use crate::controller::Controller;
use crate::error::Error;
use crate::station;
use crate::station::{Arrived, ArrivedView, Station, StationView};
use std::time::Duration;
use vstd::prelude::*;
use vstd::slice::slice_to_vec;

verus! {

/// `String::from` on a string slice, which [`Iec104Transport::new`] reaches
/// through `into`: the string it returns holds the characters of the slice.
pub assume_specification<'a>[ <String as From<&'a str>>::from ](s: &str) -> (owned: String)
    ensures
        owned@ == s@,
;

/// Where to listen or connect, and how long to wait for a peer.
#[derive(Clone)]
pub struct Iec104Transport {
    bind: String,
    timeout: Option<Duration>,
}

impl Iec104Transport {
    /// The address to listen or connect at.
    pub closed spec fn bind_text(&self) -> String {
        self.bind
    }

    /// How long to wait for a peer that stops mid-APDU.
    pub closed spec fn patience(&self) -> Option<Duration> {
        self.timeout
    }

    /// Listen or connect at `bind`; `0.0.0.0:2404` is the standard port.
    #[must_use]
    pub fn new<B: Into<String>>(bind: B) -> (transport: Self)
        ensures
            call_ensures(B::into, (bind,), transport.bind_text()),
            transport.patience() is None,
    {
        Self { bind: bind.into(), timeout: None }
    }

    /// Give up on a peer that stops mid-APDU.
    #[must_use]
    pub fn timing_out_after(self, timeout: Duration) -> (transport: Self)
        ensures
            transport.bind_text() == self.bind_text(),
            transport.patience() == Some(timeout),
    {
        Self { bind: self.bind, timeout: Some(timeout) }
    }

    /// Both ends on this machine: an ephemeral local port, `timeout` on
    /// either station.
    #[must_use]
    pub fn loopback(timeout: Duration) -> (transport: Self)
        ensures
            transport.bind_text()@ == "127.0.0.1:0"@,
            transport.patience() == Some(timeout),
    {
        Self::new("127.0.0.1:0").timing_out_after(timeout)
    }

    /// The address to listen or connect at.
    pub fn address(&self) -> (address: &str)
        ensures
            address@ == self.bind_text()@,
    {
        self.bind.as_str()
    }

    /// How long to wait for a peer that stops mid-APDU.
    pub fn timeout(&self) -> (timeout: Option<Duration>)
        ensures
            timeout == self.patience(),
    {
        self.timeout
    }

    /// The name of the transport.
    pub fn name(&self) -> (name: &'static str)
        ensures
            name@ == "iec-60870-5-104"@,
    {
        "iec-60870-5-104"
    }

    /// The station for a connection just accepted from `peer`.
    pub fn accept_one(&self, peer: String) -> (station: Station)
        ensures
            station.wf(),
            station@ == StationView::fresh(peer@),
    {
        Station::new(peer)
    }

    /// Starts data transfer on a connection just made: says STARTDT and
    /// waits for the station to confirm it. `incoming` is what the station
    /// sends before it closes; what was read is taken off it.
    ///
    /// # Errors
    /// Where the connection broke, or the station did not confirm STARTDT.
    pub fn connect(&self, incoming: &mut &[u8], outgoing: &mut Vec<u8>) -> (connected: Result<
        Controller,
        Error,
    >)
        ensures
            final(incoming)@ == controller::starting_run(old(incoming)@).rest,
            final(outgoing)@ == old(outgoing)@ + controller::starting_run(old(incoming)@).written,
            connected is Ok <==> controller::starting_run(old(incoming)@).result is Ok,
            connected matches Ok(controller) ==> controller.wf() && controller@
                == controller::starting_run(old(incoming)@).sent,
            connected matches Err(error) ==> controller::starting_run(old(incoming)@).result
                == Err::<(), Error>(error),
    {
        apci::write(outgoing, &Apdu::U { command: apci::STARTDT_ACT })?;
        match apci::read(incoming) {
            Ok(answer) => Controller::confirmed(answer),
            Err(error) => Err(error),
        }
    }

    /// One controlling station's ASDUs until it says STOPDT or closes.
    ///
    /// # Errors
    /// Where the connection broke or the peer broke the protocol.
    pub fn receive(
        &self,
        peer: String,
        incoming: &mut &[u8],
        outgoing: &mut Vec<u8>,
    ) -> (received: Result<Vec<Arrived>, Error>)
        ensures
            final(incoming)@ == StationView::fresh(peer@).session(old(incoming)@).rest,
            final(outgoing)@ == old(outgoing)@ + StationView::fresh(peer@).session(
                old(incoming)@,
            ).written,
            received_view(received) == StationView::fresh(peer@).session(old(incoming)@).result,
    {
        let mut station = self.accept_one(peer);
        let mut arrivals: Vec<Arrived> = Vec::new();
        let ghost whole = station@.session(incoming@);
        proof {
            assert(station::arrivals_view(arrivals@) =~= seq![]);
            if let Ok(all) = whole.result {
                assert(Seq::<ArrivedView>::empty() + all =~= all);
            }
        }
        loop
            invariant
                station.wf(),
                whole == StationView::fresh(peer@).session(old(incoming)@),
                station@.session(incoming@).rest == whole.rest,
                outgoing@ + station@.session(incoming@).written == old(outgoing)@ + whole.written,
                match station@.session(incoming@).result {
                    Ok(more) => whole.result == Ok::<Seq<ArrivedView>, Error>(
                        station::arrivals_view(arrivals@) + more,
                    ),
                    Err(error) => whole.result == Err::<Seq<ArrivedView>, Error>(error),
                },
            decreases incoming@.len(),
        {
            proof {
                station::run_consumes(station@, incoming@);
            }
            let ghost before = arrivals@;
            match station.next_asdu(incoming, outgoing) {
                Ok(Some(arrived)) => {
                    arrivals.push(arrived);
                    assert(station::arrivals_view(arrivals@) =~= station::arrivals_view(before)
                        + seq![arrived@]);
                    proof {
                        if let Ok(more) = station@.session(incoming@).result {
                            assert(station::arrivals_view(before) + (seq![arrived@] + more)
                                =~= station::arrivals_view(arrivals@) + more);
                        }
                    }
                },
                Ok(None) => {
                    return Ok(arrivals);
                },
                Err(error) => {
                    return Err(error);
                },
            }
        }
    }

    /// One controlling station's ASDUs until it says STOPDT or closes, as one
    /// Stream.
    ///
    /// # Errors
    /// Where the connection broke or the peer broke the protocol.
    pub fn take_one(
        &self,
        peer: String,
        incoming: &mut &[u8],
        outgoing: &mut Vec<u8>,
    ) -> (taken: Result<Arrived, Error>)
        ensures
            final(incoming)@ == StationView::fresh(peer@).session(old(incoming)@).rest,
            final(outgoing)@ == old(outgoing)@ + StationView::fresh(peer@).session(
                old(incoming)@,
            ).written,
            taken_view(taken) == taken_result(peer@, old(incoming)@),
    {
        match self.receive(peer, incoming, outgoing) {
            Ok(arrivals) => Ok(station::gather(&arrivals)),
            Err(error) => Err(error),
        }
    }

    /// Sends `bytes` as one ASDU on a connection just made, and closes.
    /// `incoming` is what the station sends before it closes; what was read
    /// is taken off it.
    ///
    /// # Errors
    /// An ASDU over [`apci::MAX_ASDU`], a station that did not confirm
    /// STARTDT or went away, or an acknowledgement that does not cover it.
    pub fn send(&self, bytes: &[u8], incoming: &mut &[u8], outgoing: &mut Vec<u8>) -> (sent: Result<
        (),
        Error,
    >)
        ensures
            final(incoming)@ == controller::conversation_run(seq![bytes@], old(incoming)@).rest,
            final(outgoing)@ == old(outgoing)@ + controller::conversation_run(
                seq![bytes@],
                old(incoming)@,
            ).written,
            sent == controller::conversation_run(seq![bytes@], old(incoming)@).result,
    {
        let mut asdus: Vec<Vec<u8>> = Vec::new();
        asdus.push(slice_to_vec(bytes));
        assert(controller::asdus_view(asdus@) =~= seq![bytes@]);
        self.converse(&asdus, incoming, outgoing)
    }

    /// Sends a Stream on a connection just made, and closes. A Stream longer
    /// than one ASDU travels as I frames in sequence, each acknowledged
    /// before the next goes, STOPDT closing.
    ///
    /// # Errors
    /// A station that did not confirm STARTDT or went away, or an
    /// acknowledgement that does not cover what was sent.
    pub fn send_to(
        &self,
        payload: &[u8],
        incoming: &mut &[u8],
        outgoing: &mut Vec<u8>,
    ) -> (sent: Result<(), Error>)
        ensures
            final(incoming)@ == controller::conversation_run(
                controller::asdus_of(payload@),
                old(incoming)@,
            ).rest,
            final(outgoing)@ == old(outgoing)@ + controller::conversation_run(
                controller::asdus_of(payload@),
                old(incoming)@,
            ).written,
            sent == controller::conversation_run(
                controller::asdus_of(payload@),
                old(incoming)@,
            ).result,
    {
        let asdus = controller::asdus(payload);
        self.converse(&asdus, incoming, outgoing)
    }

    /// Connects, sends `asdus` in order and stops.
    fn converse(&self, asdus: &Vec<Vec<u8>>, incoming: &mut &[u8], outgoing: &mut Vec<u8>) -> (sent:
        Result<(), Error>)
        ensures
            final(incoming)@ == controller::conversation_run(
                controller::asdus_view(asdus@),
                old(incoming)@,
            ).rest,
            final(outgoing)@ == old(outgoing)@ + controller::conversation_run(
                controller::asdus_view(asdus@),
                old(incoming)@,
            ).written,
            sent == controller::conversation_run(
                controller::asdus_view(asdus@),
                old(incoming)@,
            ).result,
    {
        let mut controller = match self.connect(incoming, outgoing) {
            Ok(controller) => controller,
            Err(error) => {
                return Err(error);
            },
        };
        let ghost all = controller::asdus_view(asdus@);
        let ghost whole = controller::sending_each_run(controller@, all, incoming@);
        let ghost started = outgoing@;
        let ghost talk = controller::conversation_run(all, old(incoming)@);
        let mut i: usize = 0;
        assert(all.skip(0) =~= all);
        while i < asdus.len()
            invariant
                i <= asdus@.len(),
                controller.wf(),
                all == controller::asdus_view(asdus@),
                controller::sending_each_run(controller@, all.skip(i as int), incoming@).rest
                    == whole.rest,
                controller::sending_each_run(controller@, all.skip(i as int), incoming@).result
                    == whole.result,
                outgoing@ + controller::sending_each_run(
                    controller@,
                    all.skip(i as int),
                    incoming@,
                ).written == started + whole.written,
                talk == controller::conversation_run(all, old(incoming)@),
                talk.rest == whole.rest,
                talk.result == whole.result,
                old(outgoing)@ + talk.written == started + whole.written + if whole.result is Ok {
                    apci::command_frame(apci::STOPDT_ACT).wire()
                } else {
                    seq![]
                },
            decreases asdus.len() - i,
        {
            assert(all.skip(i as int).drop_first() =~= all.skip(i + 1));
            match controller.send_asdu(asdus[i].as_slice(), incoming, outgoing) {
                Ok(_) => {
                    i = i + 1;
                },
                Err(error) => {
                    return Err(error);
                },
            }
        }
        controller.stop(outgoing)
    }
}

/// What [`Iec104Transport::take_one`] gives for what `peer` sends.
pub open spec fn taken_result(peer: Seq<char>, incoming: Seq<u8>) -> Result<ArrivedView, Error> {
    match StationView::fresh(peer).session(incoming).result {
        Ok(arrivals) => Ok(station::gathered(arrivals)),
        Err(error) => Err(error),
    }
}

/// The view of what [`Iec104Transport::take_one`] returns.
pub open spec fn taken_view(taken: Result<Arrived, Error>) -> Result<ArrivedView, Error> {
    match taken {
        Ok(arrived) => Ok(arrived@),
        Err(error) => Err(error),
    }
}

/// The view of what [`Iec104Transport::receive`] returns.
pub open spec fn received_view(received: Result<Vec<Arrived>, Error>) -> Result<
    Seq<ArrivedView>,
    Error,
> {
    match received {
        Ok(arrivals) => Ok(station::arrivals_view(arrivals@)),
        Err(error) => Err(error),
    }
}

} // verus!
