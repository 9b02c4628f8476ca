//! The controlled station's side of a connection: it answers STARTDT, STOPDT
//! and TESTFR, takes I frames in sequence, acknowledges each and hands its
//! ASDU up.

use crate::apci;
use crate::apci::{Apdu, ApduView};
use crate::error::Error;
use crate::text;
use vstd::prelude::*;

verus! {

/// What arrived: the bytes, and a URI that says where from.
#[derive(Clone, Debug, PartialEq, Eq)]
pub struct Arrived {
    pub origin_uri: String,
    pub bytes: Vec<u8>,
}

/// What an [`Arrived`] holds.
#[verifier::ext_equal]
pub struct ArrivedView {
    pub origin_uri: Seq<char>,
    pub bytes: Seq<u8>,
}

impl View for Arrived {
    type V = ArrivedView;

    open spec fn view(&self) -> ArrivedView {
        ArrivedView { origin_uri: self.origin_uri@, bytes: self.bytes@ }
    }
}

/// The origin URI of the ASDU that `peer` sent with the sequence number
/// `send`, as in `iec104://peer?send=5`.
pub open spec fn origin_text(peer: Seq<char>, send: u16) -> Seq<char> {
    "iec104://"@ + peer + "?send="@ + text::decimal_text(send as nat)
}

/// The controlled station's side of one connection.
pub struct Station {
    peer: String,
    received: u16,
    started: bool,
}

/// The state of a [`Station`].
#[verifier::ext_equal]
pub struct StationView {
    /// The address of the controlling station.
    pub peer: Seq<char>,
    /// The send sequence number that the next I frame must carry.
    pub received: u16,
    /// Whether data transfer is started.
    pub started: bool,
}

/// What a station does on an APDU.
#[derive(Clone, Debug, PartialEq, Eq)]
pub enum StationStep {
    /// Send the reply, if any, and read the next APDU.
    ReadOn { reply: Option<Apdu> },
    /// Send the reply, if any, and hand up what arrived: `None` at the end.
    HandUp { reply: Option<Apdu>, arrived: Option<Arrived> },
}

/// What a [`StationStep`] says.
#[verifier::ext_equal]
pub enum StationStepView {
    ReadOn { reply: Option<ApduView> },
    HandUp { reply: Option<ApduView>, arrived: Option<ArrivedView> },
}

/// The view of an arrival that may be missing.
pub open spec fn arrived_view(arrived: Option<Arrived>) -> Option<ArrivedView> {
    match arrived {
        Some(arrived) => Some(arrived@),
        None => None,
    }
}

impl View for StationStep {
    type V = StationStepView;

    open spec fn view(&self) -> StationStepView {
        match *self {
            StationStep::ReadOn { reply } => StationStepView::ReadOn { reply: apci::apdu_view(reply) },
            StationStep::HandUp { reply, arrived } => StationStepView::HandUp {
                reply: apci::apdu_view(reply),
                arrived: arrived_view(arrived),
            },
        }
    }
}

impl View for Station {
    type V = StationView;

    closed spec fn view(&self) -> StationView {
        StationView { peer: self.peer@, received: self.received, started: self.started }
    }
}

/// The view of what [`Station::on_apdu`] returns.
pub open spec fn station_step_view(stepped: Result<StationStep, Error>) -> Result<
    StationStepView,
    Error,
> {
    match stepped {
        Ok(step) => Ok(step@),
        Err(error) => Err(error),
    }
}

/// What a station made of the bytes that came in.
#[verifier::ext_equal]
pub struct StationRun {
    /// The station afterwards.
    pub station: StationView,
    /// What was not read.
    pub rest: Seq<u8>,
    /// What was written.
    pub written: Seq<u8>,
    /// What was handed up.
    pub result: Result<Option<ArrivedView>, Error>,
}

impl StationView {
    /// The station on a connection just accepted.
    pub open spec fn fresh(peer: Seq<char>) -> StationView {
        StationView { peer, received: 0, started: false }
    }

    /// Whether an I frame with this send sequence number is taken.
    pub open spec fn takes(self, send: u16) -> bool {
        self.started && send == self.received
    }

    /// The station after an APDU, or after the peer closed.
    pub open spec fn after(self, apdu: Option<ApduView>) -> StationView {
        match apdu {
            Some(ApduView::U { command }) => if command == apci::STARTDT_ACT {
                StationView { started: true, ..self }
            } else if command == apci::STOPDT_ACT {
                StationView { started: false, ..self }
            } else {
                self
            },
            Some(ApduView::I { send, .. }) => if self.takes(send) {
                StationView { received: apci::next_sequence(self.received), ..self }
            } else {
                self
            },
            _ => self,
        }
    }

    /// What the station does on an APDU, or when the peer closed.
    pub open spec fn step_result(self, apdu: Option<ApduView>) -> Result<StationStepView, Error> {
        match apdu {
            Some(ApduView::U { command }) => if command == apci::STARTDT_ACT {
                Ok(
                    StationStepView::ReadOn {
                        reply: Some(apci::command_frame(apci::STARTDT_CON)),
                    },
                )
            } else if command == apci::STOPDT_ACT {
                Ok(
                    StationStepView::HandUp {
                        reply: Some(apci::command_frame(apci::STOPDT_CON)),
                        arrived: None,
                    },
                )
            } else if command == apci::TESTFR_ACT {
                Ok(
                    StationStepView::ReadOn {
                        reply: Some(apci::command_frame(apci::TESTFR_CON)),
                    },
                )
            } else {
                Ok(StationStepView::ReadOn { reply: None })
            },
            Some(ApduView::I { send, asdu, .. }) => if !self.started {
                Err(Error::NotStarted)
            } else if send != self.received {
                Err(Error::OutOfSequence { send, expected: self.received })
            } else {
                Ok(
                    StationStepView::HandUp {
                        reply: Some(
                            ApduView::S { receive: apci::next_sequence(self.received) },
                        ),
                        arrived: Some(
                            ArrivedView { origin_uri: origin_text(self.peer, send), bytes: asdu },
                        ),
                    },
                )
            },
            Some(ApduView::S { .. }) => Ok(StationStepView::ReadOn { reply: None }),
            None => Ok(StationStepView::HandUp { reply: None, arrived: None }),
        }
    }

    /// What the station makes of `incoming`, all that the peer still sends,
    /// up to the next ASDU, the end or an error.
    pub open spec fn run(self, incoming: Seq<u8>) -> StationRun
        decreases incoming.len(),
    {
        let rest = apci::read_rest(incoming);
        match apci::read_result(incoming) {
            Err(error) => StationRun { station: self, rest, written: seq![], result: Err(error) },
            Ok(apdu) => {
                let station = self.after(apdu);
                match self.step_result(apdu) {
                    Err(error) => StationRun { station, rest, written: seq![], result: Err(error) },
                    Ok(StationStepView::HandUp { reply, arrived }) => StationRun {
                        station,
                        rest,
                        written: apci::reply_wire(reply),
                        result: Ok(arrived),
                    },
                    Ok(StationStepView::ReadOn { reply }) => {
                        let later = station.run(rest);
                        StationRun { written: apci::reply_wire(reply) + later.written, ..later }
                    },
                }
            },
        }
    }
}

/// Every ASDU handed up takes bytes off what comes in.
pub proof fn run_consumes(station: StationView, incoming: Seq<u8>)
    ensures
        station.run(incoming).rest.len() <= incoming.len(),
        station.run(incoming).result matches Ok(Some(_)) ==> station.run(incoming).rest.len()
            < incoming.len(),
    decreases incoming.len(),
{
    if let Ok(apdu) = apci::read_result(incoming) {
        if let Ok(StationStepView::ReadOn { reply }) = station.step_result(apdu) {
            run_consumes(station.after(apdu), apci::read_rest(incoming));
        }
    }
}

/// What a station made of a whole conversation.
#[verifier::ext_equal]
pub struct SessionRun {
    /// The station afterwards.
    pub station: StationView,
    /// What was not read.
    pub rest: Seq<u8>,
    /// What was written.
    pub written: Seq<u8>,
    /// All that was handed up, in order.
    pub result: Result<Seq<ArrivedView>, Error>,
}

impl StationView {
    /// What the station makes of `incoming` up to STOPDT, the close or an
    /// error.
    pub open spec fn session(self, incoming: Seq<u8>) -> SessionRun
        decreases incoming.len(),
    {
        let StationRun { station, rest, written, result } = self.run(incoming);
        match result {
            Err(error) => SessionRun { station, rest, written, result: Err(error) },
            Ok(None) => SessionRun { station, rest, written, result: Ok(seq![]) },
            Ok(Some(arrived)) => {
                proof {
                    run_consumes(self, incoming);
                }
                let later = station.session(rest);
                SessionRun {
                    station: later.station,
                    rest: later.rest,
                    written: written + later.written,
                    result: match later.result {
                        Ok(more) => Ok(seq![arrived] + more),
                        Err(error) => Err(error),
                    },
                }
            },
        }
    }
}

/// The bytes of all that arrived, one after another.
pub open spec fn joined_bytes(arrivals: Seq<ArrivedView>) -> Seq<u8>
    decreases arrivals.len(),
{
    if arrivals.len() == 0 {
        seq![]
    } else {
        joined_bytes(arrivals.drop_last()) + arrivals.last().bytes
    }
}

/// All that arrived as one: the bytes of all, with the origin of the last.
pub open spec fn gathered(arrivals: Seq<ArrivedView>) -> ArrivedView {
    ArrivedView {
        origin_uri: if arrivals.len() == 0 {
            "iec104://"@
        } else {
            arrivals.last().origin_uri
        },
        bytes: joined_bytes(arrivals),
    }
}

/// The view of a list of arrivals.
pub open spec fn arrivals_view(arrivals: Seq<Arrived>) -> Seq<ArrivedView> {
    arrivals.map_values(|arrived: Arrived| arrived@)
}

/// All that arrived as one: the bytes of all, with the origin of the last.
pub fn gather(arrivals: &Vec<Arrived>) -> (whole: Arrived)
    ensures
        whole@ == gathered(arrivals_view(arrivals@)),
{
    let mut origin = String::from_str("iec104://");
    let mut bytes: Vec<u8> = Vec::new();
    let ghost views = arrivals_view(arrivals@);
    for i in 0..arrivals.len()
        invariant
            views == arrivals_view(arrivals@),
            origin@ == gathered(views.take(i as int)).origin_uri,
            bytes@ == joined_bytes(views.take(i as int)),
    {
        proof {
            let taken = views.take(i + 1);
            assert(taken.drop_last() =~= views.take(i as int));
            assert(taken.last() == arrivals@[i as int]@);
        }
        origin = arrivals[i].origin_uri.clone();
        let ghost before = bytes@;
        bytes.extend_from_slice(arrivals[i].bytes.as_slice());
        assert(bytes@ =~= before + arrivals@[i as int].bytes@);
    }
    assert(views.take(arrivals.len() as int) =~= views);
    Arrived { origin_uri: origin, bytes }
}

/// The view of what [`Station::next_asdu`] returns.
pub open spec fn next_view(next: Result<Option<Arrived>, Error>) -> Result<
    Option<ArrivedView>,
    Error,
> {
    match next {
        Ok(arrived) => Ok(arrived_view(arrived)),
        Err(error) => Err(error),
    }
}

impl Station {
    /// Sequence numbers have fifteen bits.
    pub open spec fn wf(&self) -> bool {
        self@.received < 0x8000
    }

    /// The station on a connection just accepted from `peer`.
    pub(crate) fn new(peer: String) -> (station: Station)
        ensures
            station.wf(),
            station@ == StationView::fresh(peer@),
    {
        Station { peer, received: 0, started: false }
    }

    /// The origin URI of the ASDU with the sequence number `send`.
    fn origin(&self, send: u16) -> (origin: String)
        ensures
            origin@ == origin_text(self@.peer, send),
    {
        let mut origin = String::from_str("iec104://");
        origin.append(self.peer.as_str());
        origin.append("?send=");
        origin.append(text::decimal(send).as_str());
        origin
    }

    /// Takes one APDU, or `None` when the peer closed, and says what to do.
    ///
    /// # Errors
    /// An I frame before STARTDT, or one out of sequence.
    pub fn on_apdu(&mut self, apdu: Option<Apdu>) -> (stepped: Result<StationStep, Error>)
        requires
            old(self).wf(),
        ensures
            final(self).wf(),
            final(self)@ == old(self)@.after(apci::apdu_view(apdu)),
            station_step_view(stepped) == old(self)@.step_result(apci::apdu_view(apdu)),
    {
        match apdu {
            Some(Apdu::U { command }) => {
                if command == apci::STARTDT_ACT {
                    self.started = true;
                    Ok(StationStep::ReadOn { reply: Some(Apdu::U { command: apci::STARTDT_CON }) })
                } else if command == apci::STOPDT_ACT {
                    self.started = false;
                    Ok(
                        StationStep::HandUp {
                            reply: Some(Apdu::U { command: apci::STOPDT_CON }),
                            arrived: None,
                        },
                    )
                } else if command == apci::TESTFR_ACT {
                    Ok(StationStep::ReadOn { reply: Some(Apdu::U { command: apci::TESTFR_CON }) })
                } else {
                    Ok(StationStep::ReadOn { reply: None })
                }
            },
            Some(Apdu::I { send, asdu, .. }) => {
                if !self.started {
                    return Err(Error::NotStarted);
                }
                if send != self.received {
                    return Err(Error::OutOfSequence { send, expected: self.received });
                }
                self.received = apci::successor(self.received);
                Ok(
                    StationStep::HandUp {
                        reply: Some(Apdu::S { receive: self.received }),
                        arrived: Some(Arrived { origin_uri: self.origin(send), bytes: asdu }),
                    },
                )
            },
            Some(Apdu::S { .. }) => Ok(StationStep::ReadOn { reply: None }),
            None => Ok(StationStep::HandUp { reply: None, arrived: None }),
        }
    }

    /// The next ASDU the controlling station sends, acknowledged, or `None`
    /// when it said STOPDT or closed. STARTDT and TESTFR are answered on
    /// the way; an I frame before STARTDT is a protocol error.
    ///
    /// `incoming` is what the peer sends before it closes; what was read is
    /// taken off it. The answers go behind what is in `outgoing`.
    ///
    /// # Errors
    /// Where the connection broke or the peer broke the protocol.
    pub fn next_asdu(&mut self, incoming: &mut &[u8], outgoing: &mut Vec<u8>) -> (next: Result<
        Option<Arrived>,
        Error,
    >)
        requires
            old(self).wf(),
        ensures
            final(self).wf(),
            final(self)@ == old(self)@.run(old(incoming)@).station,
            final(incoming)@ == old(self)@.run(old(incoming)@).rest,
            final(outgoing)@ == old(outgoing)@ + old(self)@.run(old(incoming)@).written,
            next_view(next) == old(self)@.run(old(incoming)@).result,
    {
        let ghost whole = self@.run(incoming@);
        loop
            invariant
                self.wf(),
                whole == old(self)@.run(old(incoming)@),
                self@.run(incoming@).station == whole.station,
                self@.run(incoming@).rest == whole.rest,
                self@.run(incoming@).result == whole.result,
                outgoing@ + self@.run(incoming@).written == old(outgoing)@ + whole.written,
            decreases incoming@.len(),
        {
            let apdu = match apci::read(incoming) {
                Ok(apdu) => apdu,
                Err(error) => {
                    return Err(error);
                },
            };
            match self.on_apdu(apdu) {
                Ok(StationStep::ReadOn { reply }) => {
                    apci::write_reply(outgoing, &reply);
                },
                Ok(StationStep::HandUp { reply, arrived }) => {
                    apci::write_reply(outgoing, &reply);
                    return Ok(arrived);
                },
                Err(error) => {
                    return Err(error);
                },
            }
        }
    }
}

} // verus!
