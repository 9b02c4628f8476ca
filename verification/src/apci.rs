//! IEC 60870-5-104 section 5: the application protocol control information
//! (a start byte, a length, four control-field bytes) and the three frame
//! formats the control field encodes: I for data with both sequence
//! numbers, S for an acknowledgement, U for the start, stop and test
//! commands.

use crate::error::Error;
use vstd::prelude::*;
use vstd::slice::{slice_subrange, slice_to_vec};

verus! {

/// The start byte every APDU opens with.
pub const START: u8 = 0x68;

/// The most an APDU may be after the start and length bytes.
pub const MAX_APDU: usize = 253;

/// The most ASDU one I frame carries: the APDU less the control field.
pub const MAX_ASDU: usize = MAX_APDU - 4;

/// The U-format commands, as the first control byte writes them.
pub const STARTDT_ACT: u8 = 0x07;

pub const STARTDT_CON: u8 = 0x0b;

pub const STOPDT_ACT: u8 = 0x13;

pub const STOPDT_CON: u8 = 0x23;

pub const TESTFR_ACT: u8 = 0x43;

pub const TESTFR_CON: u8 = 0x83;

/// One APDU, by format.
#[derive(Clone, Debug, PartialEq, Eq)]
pub enum Apdu {
    /// Information: the send and receive sequence numbers and an ASDU.
    I { send: u16, receive: u16, asdu: Vec<u8> },
    /// Supervisory: a receive sequence number, acknowledging up to it.
    S { receive: u16 },
    /// Unnumbered: one of the six commands.
    U { command: u8 },
}

/// What an [`Apdu`] says, its ASDU as a sequence of bytes.
#[verifier::ext_equal]
pub enum ApduView {
    I { send: u16, receive: u16, asdu: Seq<u8> },
    S { receive: u16 },
    U { command: u8 },
}

impl View for Apdu {
    type V = ApduView;

    open spec fn view(&self) -> ApduView {
        match *self {
            Apdu::I { send, receive, asdu } => ApduView::I { send, receive, asdu: asdu@ },
            Apdu::S { receive } => ApduView::S { receive },
            Apdu::U { command } => ApduView::U { command },
        }
    }
}

/// How a sequence number stands in the control field: fifteen bits above a
/// zero bit, low byte first. A sixteenth bit is dropped.
pub open spec fn sequence_field(n: u16) -> Seq<u8> {
    seq![(2 * n % 0x100) as u8, (2 * n % 0x1_0000 / 0x100) as u8]
}

/// The sequence number that two control-field bytes hold, whatever the bit
/// below it.
pub open spec fn sequence_number(low: u8, high: u8) -> u16 {
    ((low + 0x100 * high) / 2) as u16
}

/// The sequence number after `n`: they count to 32767 and start over.
pub open spec fn next_sequence(n: u16) -> u16 {
    ((n + 1) % 0x8000) as u16
}

/// Whether `command` is one of the six U-format commands.
pub open spec fn is_command(command: u8) -> bool {
    ||| command == STARTDT_ACT
    ||| command == STARTDT_CON
    ||| command == STOPDT_ACT
    ||| command == STOPDT_CON
    ||| command == TESTFR_ACT
    ||| command == TESTFR_CON
}

impl ApduView {
    /// The ASDU carried: none but in an I frame.
    pub open spec fn payload(self) -> Seq<u8> {
        match self {
            ApduView::I { asdu, .. } => asdu,
            _ => seq![],
        }
    }

    /// The four control-field bytes.
    pub open spec fn control(self) -> Seq<u8> {
        match self {
            ApduView::I { send, receive, .. } => sequence_field(send) + sequence_field(receive),
            ApduView::S { receive } => seq![0x01, 0x00] + sequence_field(receive),
            ApduView::U { command } => seq![command, 0x00, 0x00, 0x00],
        }
    }

    /// The bytes on the wire: start, length, control field, ASDU.
    pub open spec fn wire(self) -> Seq<u8> {
        seq![START, (4 + self.payload().len()) as u8] + self.control() + self.payload()
    }

    /// Whether the ASDU is one that an APDU can carry.
    pub open spec fn fits(self) -> bool {
        self.payload().len() <= MAX_ASDU
    }

    /// Whether this is an APDU of the protocol: sequence numbers of fifteen
    /// bits, an ASDU that fits, a command that exists.
    pub open spec fn valid(self) -> bool {
        match self {
            ApduView::I { send, receive, asdu } => send < 0x8000 && receive < 0x8000 && asdu.len()
                <= MAX_ASDU,
            ApduView::S { receive } => receive < 0x8000,
            ApduView::U { command } => is_command(command),
        }
    }
}

/// The U frame of a command.
pub open spec fn command_frame(command: u8) -> ApduView {
    ApduView::U { command }
}

/// The sequence number after `n`.
pub(crate) fn successor(n: u16) -> (next: u16)
    requires
        n < 0x8000,
    ensures
        next == next_sequence(n),
{
    let sum: u16 = n + 1;
    assert(sum & 0x7fff == sum % 0x8000) by (bit_vector);
    sum & 0x7fff
}

/// Appends the control-field bytes of a sequence number to `out`.
fn push_sequence(out: &mut Vec<u8>, n: u16)
    ensures
        final(out)@ == old(out)@ + sequence_field(n),
{
    let shifted: u16 = n << 1;
    assert(shifted == 2 * n % 0x1_0000) by (bit_vector)
        requires
            shifted == n << 1,
    ;
    let low: u8 = (shifted & 0xff) as u8;
    let high: u8 = (shifted >> 8) as u8;
    assert(low == shifted % 0x100 && high == shifted / 0x100) by (bit_vector)
        requires
            low == (shifted & 0xff) as u8,
            high == (shifted >> 8) as u8,
    ;
    out.push(low);
    out.push(high);
}

/// Encode `apdu`.
///
/// # Errors
/// An ASDU over [`MAX_ASDU`].
pub fn encode(apdu: &Apdu) -> (encoded: Result<Vec<u8>, Error>)
    ensures
        match encoded {
            Ok(bytes) => apdu@.fits() && bytes@ == apdu@.wire(),
            Err(error) => !apdu@.fits() && error == Error::AsduTooLong,
        },
{
    let mut out: Vec<u8> = vec![START, 4];
    match apdu {
        Apdu::I { send, receive, asdu } => {
            if asdu.len() > MAX_ASDU {
                return Err(Error::AsduTooLong);
            }
            out.set(1, (4 + asdu.len()) as u8);
            push_sequence(&mut out, *send);
            push_sequence(&mut out, *receive);
            out.extend_from_slice(asdu.as_slice());
        },
        Apdu::S { receive } => {
            out.push(0x01);
            out.push(0x00);
            push_sequence(&mut out, *receive);
        },
        Apdu::U { command } => {
            out.push(*command);
            out.push(0x00);
            out.push(0x00);
            out.push(0x00);
        },
    }
    assert(out@ =~= apdu@.wire());
    Ok(out)
}

/// The view of an APDU that may be missing.
pub open spec fn apdu_view(apdu: Option<Apdu>) -> Option<ApduView> {
    match apdu {
        Some(apdu) => Some(apdu@),
        None => None,
    }
}

/// The bytes of an APDU that may be missing.
pub open spec fn reply_wire(reply: Option<ApduView>) -> Seq<u8> {
    match reply {
        Some(apdu) => apdu.wire(),
        None => seq![],
    }
}

/// Writes `apdu` behind what is already in `outgoing`.
///
/// # Errors
/// An ASDU over what one APDU carries: then nothing is written.
pub(crate) fn write(outgoing: &mut Vec<u8>, apdu: &Apdu) -> (written: Result<(), Error>)
    ensures
        written == if apdu@.fits() {
            Ok(())
        } else {
            Err(Error::AsduTooLong)
        },
        final(outgoing)@ == if apdu@.fits() {
            old(outgoing)@ + apdu@.wire()
        } else {
            old(outgoing)@
        },
{
    match encode(apdu) {
        Ok(bytes) => {
            outgoing.extend_from_slice(bytes.as_slice());
            assert(outgoing@ =~= old(outgoing)@ + apdu@.wire());
            Ok(())
        },
        Err(error) => Err(error),
    }
}

/// Writes a reply, where there is one.
pub(crate) fn write_reply(outgoing: &mut Vec<u8>, reply: &Option<Apdu>)
    requires
        reply matches Some(apdu) ==> apdu@.fits(),
    ensures
        final(outgoing)@ == old(outgoing)@ + reply_wire(apdu_view(*reply)),
{
    if let Some(apdu) = reply {
        let _written = write(outgoing, apdu);
    } else {
        assert(outgoing@ =~= outgoing@ + Seq::<u8>::empty());
    }
}

/// The APDU that a body, the bytes after start and length, holds.
pub open spec fn body_result(body: Seq<u8>) -> Result<ApduView, Error>
    recommends
        4 <= body.len(),
{
    let receive = sequence_number(body[2], body[3]);
    if body[0] % 4 == 1 {
        Ok(ApduView::S { receive })
    } else if body[0] % 4 == 3 {
        if is_command(body[0]) {
            Ok(ApduView::U { command: body[0] })
        } else {
            Err(Error::UnknownCommand)
        }
    } else {
        Ok(ApduView::I { send: sequence_number(body[0], body[1]), receive, asdu: body.skip(4) })
    }
}

/// What reading one APDU off `incoming` gives, where `incoming` is all that
/// the peer still sends before it closes.
pub open spec fn read_result(incoming: Seq<u8>) -> Result<Option<ApduView>, Error> {
    if incoming.len() == 0 {
        Ok(None)
    } else if incoming[0] != START {
        Err(Error::NotAStart)
    } else if incoming.len() < 2 {
        Err(Error::CutOffInLength)
    } else if !(4 <= incoming[1] <= MAX_APDU) {
        Err(Error::LengthOutOfRange)
    } else if incoming.len() < 2 + incoming[1] {
        Err(Error::CutOffInBody)
    } else {
        match body_result(incoming.subrange(2, 2 + incoming[1])) {
            Ok(apdu) => Ok(Some(apdu)),
            Err(error) => Err(error),
        }
    }
}

/// What reading one APDU leaves of `incoming`: all after the APDU, after the
/// byte that refused it, or nothing where the peer closed too early.
pub open spec fn read_rest(incoming: Seq<u8>) -> Seq<u8> {
    if incoming.len() == 0 {
        incoming
    } else if incoming[0] != START {
        incoming.skip(1)
    } else if incoming.len() < 2 {
        seq![]
    } else if !(4 <= incoming[1] <= MAX_APDU) {
        incoming.skip(2)
    } else if incoming.len() < 2 + incoming[1] {
        seq![]
    } else {
        incoming.skip(2 + incoming[1])
    }
}

/// The view of what [`read`] returns.
pub open spec fn read_view(read: Result<Option<Apdu>, Error>) -> Result<Option<ApduView>, Error> {
    match read {
        Ok(apdu) => Ok(apdu_view(apdu)),
        Err(error) => Err(error),
    }
}

/// The sequence number in two control-field bytes.
fn sequence_of(low: u8, high: u8) -> (n: u16)
    ensures
        n == sequence_number(low, high),
{
    let word: u16 = (low as u16) | ((high as u16) << 8);
    let n: u16 = word >> 1;
    assert(n == (low + 0x100 * high) / 2) by (bit_vector)
        requires
            word == (low as u16) | ((high as u16) << 8),
            n == word >> 1,
    ;
    n
}

/// The APDU that a body holds.
fn decode_body(body: &[u8]) -> (decoded: Result<Apdu, Error>)
    requires
        4 <= body@.len(),
    ensures
        match decoded {
            Ok(apdu) => body_result(body@) == Ok::<ApduView, Error>(apdu@),
            Err(error) => body_result(body@) == Err::<ApduView, Error>(error),
        },
{
    let first: u8 = body[0];
    let receive: u16 = sequence_of(body[2], body[3]);
    assert(first & 0x03 == first % 4) by (bit_vector);
    match first & 0x03 {
        0x01 => Ok(Apdu::S { receive }),
        0x03 => {
            if first == STARTDT_ACT || first == STARTDT_CON || first == STOPDT_ACT || first
                == STOPDT_CON || first == TESTFR_ACT || first == TESTFR_CON {
                Ok(Apdu::U { command: first })
            } else {
                Err(Error::UnknownCommand)
            }
        },
        _ => {
            let asdu = slice_to_vec(slice_subrange(body, 4, body.len()));
            assert(asdu@ =~= body@.skip(4));
            Ok(Apdu::I { send: sequence_of(first, body[1]), receive, asdu })
        },
    }
}

/// Where the reading of one APDU stands: which bytes come next.
///
/// It starts at [`Reading::Start`]. Whoever holds the connection reads
/// [`Reading::wanted`] bytes and hands them to [`Reading::step`], until the
/// step is done.
#[derive(Clone, Copy, Debug, PartialEq, Eq, Structural)]
pub enum Reading {
    /// The start byte: where the peer may have closed instead.
    Start,
    /// The length byte.
    Length,
    /// The control field and the ASDU.
    Body { length: usize },
}

/// What follows on bytes read.
#[derive(Clone, Debug, PartialEq, Eq)]
pub enum ReadStep {
    /// There is more to read.
    More(Reading),
    /// One APDU, or `None` when the peer closed between APDUs.
    Done(Option<Apdu>),
}

/// What a [`ReadStep`] says.
#[verifier::ext_equal]
pub enum ReadStepView {
    More(Reading),
    Done(Option<ApduView>),
}

impl View for ReadStep {
    type V = ReadStepView;

    open spec fn view(&self) -> ReadStepView {
        match *self {
            ReadStep::More(reading) => ReadStepView::More(reading),
            ReadStep::Done(apdu) => ReadStepView::Done(apdu_view(apdu)),
        }
    }
}

/// The view of what [`Reading::step`] returns.
pub open spec fn read_step_view(stepped: Result<ReadStep, Error>) -> Result<ReadStepView, Error> {
    match stepped {
        Ok(step) => Ok(step@),
        Err(error) => Err(error),
    }
}

impl Reading {
    /// A body is never shorter than the control field, nor longer than an
    /// APDU may be.
    pub open spec fn wf(self) -> bool {
        self matches Reading::Body { length } ==> 4 <= length <= MAX_APDU
    }

    /// How many bytes come next.
    pub open spec fn wanted_bytes(self) -> nat {
        match self {
            Reading::Start => 1,
            Reading::Length => 1,
            Reading::Body { length } => length as nat,
        }
    }

    /// What [`Reading::step`] gives for `got`.
    pub open spec fn step_result(self, got: Seq<u8>) -> Result<ReadStepView, Error> {
        match self {
            Reading::Start => if got.len() == 0 {
                Ok(ReadStepView::Done(None))
            } else if got[0] != START {
                Err(Error::NotAStart)
            } else {
                Ok(ReadStepView::More(Reading::Length))
            },
            Reading::Length => if got.len() == 0 {
                Err(Error::CutOffInLength)
            } else if !(4 <= got[0] <= MAX_APDU) {
                Err(Error::LengthOutOfRange)
            } else {
                Ok(ReadStepView::More(Reading::Body { length: got[0] as usize }))
            },
            Reading::Body { length } => if got.len() < length {
                Err(Error::CutOffInBody)
            } else {
                match body_result(got) {
                    Ok(apdu) => Ok(ReadStepView::Done(Some(apdu))),
                    Err(error) => Err(error),
                }
            },
        }
    }

    /// How many bytes to read next.
    pub fn wanted(&self) -> (count: usize)
        ensures
            count == self.wanted_bytes(),
    {
        match self {
            Reading::Start => 1,
            Reading::Length => 1,
            Reading::Body { length } => *length,
        }
    }

    /// The text of [`Reading::label`].
    pub open spec fn label_text(self) -> Seq<char> {
        match self {
            Reading::Start => "reading the start byte"@,
            Reading::Length => "reading the APDU length"@,
            Reading::Body { .. } => "reading the APDU"@,
        }
    }

    /// What is being read, in words: what an error says that the connection
    /// itself raised meanwhile.
    pub fn label(&self) -> (text: &'static str)
        ensures
            text@ == self.label_text(),
    {
        match self {
            Reading::Start => "reading the start byte",
            Reading::Length => "reading the APDU length",
            Reading::Body { .. } => "reading the APDU",
        }
    }

    /// Takes the bytes that were read: as many as were wanted, or fewer when
    /// the peer closed.
    ///
    /// # Errors
    /// A connection that closes mid-APDU, no start byte, a length under four
    /// or over [`MAX_APDU`], or a U command that does not exist.
    pub fn step(&self, got: &[u8]) -> (stepped: Result<ReadStep, Error>)
        requires
            self.wf(),
            got@.len() <= self.wanted_bytes(),
        ensures
            read_step_view(stepped) == self.step_result(got@),
            stepped matches Ok(ReadStep::More(next)) ==> next.wf(),
    {
        match self {
            Reading::Start => {
                if got.len() == 0 {
                    Ok(ReadStep::Done(None))
                } else if got[0] != START {
                    Err(Error::NotAStart)
                } else {
                    Ok(ReadStep::More(Reading::Length))
                }
            },
            Reading::Length => {
                if got.len() == 0 {
                    return Err(Error::CutOffInLength);
                }
                let length: usize = got[0] as usize;
                if length < 4 || length > MAX_APDU {
                    Err(Error::LengthOutOfRange)
                } else {
                    Ok(ReadStep::More(Reading::Body { length }))
                }
            },
            Reading::Body { length } => {
                if got.len() < *length {
                    return Err(Error::CutOffInBody);
                }
                match decode_body(got) {
                    Ok(apdu) => Ok(ReadStep::Done(Some(apdu))),
                    Err(error) => Err(error),
                }
            },
        }
    }
}

/// The first `count` bytes of `incoming`, or all where there are fewer.
pub open spec fn front(incoming: Seq<u8>, count: nat) -> Seq<u8> {
    if incoming.len() < count {
        incoming
    } else {
        incoming.take(count as int)
    }
}

/// What [`front`] leaves.
pub open spec fn behind(incoming: Seq<u8>, count: nat) -> Seq<u8> {
    if incoming.len() < count {
        seq![]
    } else {
        incoming.skip(count as int)
    }
}

impl Reading {
    /// How many steps may still follow.
    pub open spec fn steps_left(self) -> nat {
        match self {
            Reading::Start => 2,
            Reading::Length => 1,
            Reading::Body { .. } => 0,
        }
    }

    /// What the steps from here on `incoming` end with, and what they leave
    /// of it.
    pub open spec fn run(self, incoming: Seq<u8>) -> (Result<Option<ApduView>, Error>, Seq<u8>)
        decreases self.steps_left(),
    {
        let rest = behind(incoming, self.wanted_bytes());
        match self.step_result(front(incoming, self.wanted_bytes())) {
            Ok(ReadStepView::Done(apdu)) => (Ok(apdu), rest),
            Ok(ReadStepView::More(next)) => next.run(rest),
            Err(error) => (Err(error), rest),
        }
    }
}

/// Reading step by step, by as many bytes as each step asks for, gives what
/// reading the whole of `incoming` at once gives, and leaves the same.
pub proof fn stepwise_reading_agrees(incoming: Seq<u8>)
    ensures
        Reading::Start.run(incoming) == (read_result(incoming), read_rest(incoming)),
{
    reveal_with_fuel(Reading::run, 3);
    if incoming.len() >= 2 {
        assert(incoming.skip(1).skip(1) =~= incoming.skip(2));
        let length = incoming[1] as int;
        if 4 <= length <= MAX_APDU && incoming.len() >= 2 + length {
            assert(incoming.skip(2).take(length) =~= incoming.subrange(2, 2 + length));
            assert(incoming.skip(2).skip(length) =~= incoming.skip(2 + length));
        }
    }
}

/// Takes up to `count` bytes off the front of `incoming`: fewer when there
/// are not so many left.
fn take<'a>(incoming: &mut &'a [u8], count: usize) -> (taken: &'a [u8])
    ensures
        taken@ == front(old(incoming)@, count as nat),
        final(incoming)@ == behind(old(incoming)@, count as nat),
{
    let all: &'a [u8] = *incoming;
    let count: usize = if all.len() < count {
        all.len()
    } else {
        count
    };
    *incoming = slice_subrange(all, count, all.len());
    slice_subrange(all, 0, count)
}

/// Read one APDU, or `None` when the peer closed between APDUs. `incoming`
/// is what the peer sends before it closes; what was read is taken off it.
///
/// # Errors
/// A connection that closes mid-APDU, no start byte, a length under four
/// or over [`MAX_APDU`], or a U command that does not exist.
pub fn read(incoming: &mut &[u8]) -> (read: Result<Option<Apdu>, Error>)
    ensures
        read_view(read) == read_result(old(incoming)@),
        final(incoming)@ == read_rest(old(incoming)@),
{
    proof {
        stepwise_reading_agrees(old(incoming)@);
    }
    let mut reading = Reading::Start;
    loop
        invariant
            reading.wf(),
            reading.run(incoming@) == (read_result(old(incoming)@), read_rest(old(incoming)@)),
        decreases reading.steps_left(),
    {
        let got = take(incoming, reading.wanted());
        match reading.step(got) {
            Ok(ReadStep::Done(apdu)) => {
                return Ok(apdu);
            },
            Ok(ReadStep::More(next)) => {
                reading = next;
            },
            Err(error) => {
                return Err(error);
            },
        }
    }
}

} // verus!
