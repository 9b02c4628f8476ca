//! What stands on the wire, octet by octet, and what each octet is read as.

use crate::apci;
use crate::apci::{Apdu, ApduView, ReadStep, ReadStepView, Reading};
use crate::error::Error;
use crate::text;
use vstd::prelude::*;

verus! {

/// The numbers of the protocol.
pub proof fn the_numbers_of_the_protocol()
    ensures
        apci::START == 0x68,
        apci::MAX_APDU == 253,
        apci::MAX_ASDU == 249,
        apci::STARTDT_ACT == 0x07,
        apci::STARTDT_CON == 0x0b,
        apci::STOPDT_ACT == 0x13,
        apci::STOPDT_CON == 0x23,
        apci::TESTFR_ACT == 0x43,
        apci::TESTFR_CON == 0x83,
        forall|command: u8| #[trigger]
            apci::is_command(command) <==> (command == 0x07 || command == 0x0b || command == 0x13
                || command == 0x23 || command == 0x43 || command == 0x83),
        forall|command: u8| #[trigger]
            apci::command_frame(command) == (ApduView::U { command }),
{
}

/// A U frame is six bytes: start, a length of four, the command and three
/// zeros, whatever the command.
pub proof fn a_command_is_written_as_its_first_control_byte(command: u8)
    ensures
        (ApduView::U { command }).wire() == seq![0x68u8, 4, command, 0, 0, 0],
        (ApduView::U { command }).fits(),
{
    assert((ApduView::U { command }).wire() =~= seq![0x68u8, 4, command, 0, 0, 0]);
}

/// The six bytes of each of the six commands are read as that command, and
/// what follows is left.
pub proof fn a_command_is_read_from_its_first_control_byte(command: u8, more: Seq<u8>)
    requires
        command == 0x07 || command == 0x0b || command == 0x13 || command == 0x23 || command == 0x43
            || command == 0x83,
    ensures
        apci::read_result(seq![0x68u8, 4, command, 0, 0, 0] + more) == Ok::<
            Option<ApduView>,
            Error,
        >(Some(ApduView::U { command })),
        apci::read_rest(seq![0x68u8, 4, command, 0, 0, 0] + more) == more,
{
    a_body_is_read_by_its_control_field(command, 0, 0, 0, seq![], more);
    assert(seq![0x68u8, 4, command, 0, 0, 0] + Seq::<u8>::empty() + more =~= seq![
        0x68u8,
        4,
        command,
        0,
        0,
        0,
    ] + more);
}

/// An S frame is six bytes: start, a length of four, one, zero, and twice
/// the sequence number, low byte first, without a seventeenth bit.
pub proof fn an_acknowledgement_on_the_wire(receive: u16)
    ensures
        (ApduView::S { receive }).wire() == seq![
            0x68u8,
            4,
            1,
            0,
            (2 * receive % 256) as u8,
            (2 * receive / 256 % 256) as u8,
        ],
        (ApduView::S { receive }).fits(),
{
    assert(2 * receive % 0x1_0000 / 0x100 == 2 * receive / 256 % 256);
    assert((ApduView::S { receive }).wire() =~= seq![
        0x68u8,
        4,
        1,
        0,
        (2 * receive % 256) as u8,
        (2 * receive / 256 % 256) as u8,
    ]);
}

/// An I frame is start, the length of what follows, twice each sequence
/// number, low byte first, without a seventeenth bit, and the ASDU as it is.
pub proof fn information_on_the_wire(send: u16, receive: u16, asdu: Seq<u8>)
    requires
        asdu.len() <= 249,
    ensures
        (ApduView::I { send, receive, asdu }).wire() == seq![
            0x68u8,
            (4 + asdu.len()) as u8,
            (2 * send % 256) as u8,
            (2 * send / 256 % 256) as u8,
            (2 * receive % 256) as u8,
            (2 * receive / 256 % 256) as u8,
        ] + asdu,
{
    assert(2 * send % 0x1_0000 / 0x100 == 2 * send / 256 % 256);
    assert(2 * receive % 0x1_0000 / 0x100 == 2 * receive / 256 % 256);
    assert((ApduView::I { send, receive, asdu }).wire() =~= seq![
        0x68u8,
        (4 + asdu.len()) as u8,
        (2 * send % 256) as u8,
        (2 * send / 256 % 256) as u8,
        (2 * receive % 256) as u8,
        (2 * receive / 256 % 256) as u8,
    ] + asdu);
}

/// An I frame carries up to 249 bytes, and no more.
pub proof fn information_carries_up_to_its_limit(send: u16, receive: u16, asdu: Seq<u8>)
    ensures
        (ApduView::I { send, receive, asdu }).fits() <==> asdu.len() <= 249,
        (ApduView::I { send, receive, asdu }).valid() <==> send < 32768 && receive < 32768
            && asdu.len() <= 249,
        (ApduView::S { receive }).valid() <==> receive < 32768,
        forall|command: u8|
            (#[trigger] apci::command_frame(command)).valid() <==> apci::is_command(command),
{
}

/// A peer that sends nothing has closed; nothing is left.
pub proof fn nothing_is_read_as_a_close()
    ensures
        apci::read_result(seq![]) == Ok::<Option<ApduView>, Error>(None),
        apci::read_rest(seq![]) == Seq::<u8>::empty(),
{
}

/// A first byte other than the start byte is refused; what follows is left.
pub proof fn a_wrong_first_byte_is_refused(first: u8, more: Seq<u8>)
    requires
        first != 0x68,
    ensures
        apci::read_result(seq![first] + more) == Err::<Option<ApduView>, Error>(Error::NotAStart),
        apci::read_rest(seq![first] + more) == more,
{
    assert((seq![first] + more).skip(1) =~= more);
}

/// A start byte with nothing behind it is cut off.
pub proof fn a_start_byte_alone_is_cut_off()
    ensures
        apci::read_result(seq![0x68u8]) == Err::<Option<ApduView>, Error>(Error::CutOffInLength),
        apci::read_rest(seq![0x68u8]) == Seq::<u8>::empty(),
{
}

/// A length under four or over 253 is refused; what follows is left.
pub proof fn a_wrong_length_is_refused(length: u8, more: Seq<u8>)
    requires
        length < 4 || length > 253,
    ensures
        apci::read_result(seq![0x68u8, length] + more) == Err::<Option<ApduView>, Error>(
            Error::LengthOutOfRange,
        ),
        apci::read_rest(seq![0x68u8, length] + more) == more,
{
    assert((seq![0x68u8, length] + more).skip(2) =~= more);
}

/// Fewer bytes than announced are cut off; nothing is left.
pub proof fn a_short_body_is_cut_off(length: u8, body: Seq<u8>)
    requires
        4 <= length <= 253,
        body.len() < length,
    ensures
        apci::read_result(seq![0x68u8, length] + body) == Err::<Option<ApduView>, Error>(
            Error::CutOffInBody,
        ),
        apci::read_rest(seq![0x68u8, length] + body) == Seq::<u8>::empty(),
{
    assert((seq![0x68u8, length] + body)[1] == length);
}

/// A body of its announced length is read by its four control bytes: the two
/// low bits of the first tell the format, the numbers stand low byte first
/// above their lowest bit, a command is the first byte alone, and an I frame
/// carries all that is left of the body. What follows the body is left.
pub proof fn a_body_is_read_by_its_control_field(
    c0: u8,
    c1: u8,
    c2: u8,
    c3: u8,
    tail: Seq<u8>,
    more: Seq<u8>,
)
    requires
        tail.len() <= 249,
    ensures
        ({
            let incoming = seq![0x68u8, (4 + tail.len()) as u8, c0, c1, c2, c3] + tail + more;
            let read = apci::read_result(incoming);
            let receive = ((c2 + 256 * c3) / 2) as u16;
            &&& apci::read_rest(incoming) == more
            &&& c0 % 4 == 1 ==> read == Ok::<Option<ApduView>, Error>(
                Some(ApduView::S { receive }),
            )
            &&& c0 % 2 == 0 ==> read == Ok::<Option<ApduView>, Error>(
                Some(ApduView::I { send: ((c0 + 256 * c1) / 2) as u16, receive, asdu: tail }),
            )
            &&& (c0 == 0x07 || c0 == 0x0b || c0 == 0x13 || c0 == 0x23 || c0 == 0x43 || c0 == 0x83)
                ==> read == Ok::<Option<ApduView>, Error>(Some(ApduView::U { command: c0 }))
            &&& c0 % 4 == 3 && c0 != 0x07 && c0 != 0x0b && c0 != 0x13 && c0 != 0x23 && c0 != 0x43
                && c0 != 0x83 ==> read == Err::<Option<ApduView>, Error>(Error::UnknownCommand)
        }),
{
    let head = seq![0x68u8, (4 + tail.len()) as u8, c0, c1, c2, c3];
    let incoming = head + tail + more;
    let end: int = 6 + tail.len() as int;
    assert(incoming[1] == 4 + tail.len());
    assert(incoming.skip(end) =~= more);
    let body = incoming.subrange(2, end);
    assert(body =~= seq![c0, c1, c2, c3] + tail);
    assert(body.skip(4) =~= tail);
}

/// Sequence numbers count up by one to 32767, and start over with zero.
pub proof fn sequence_numbers_count_up_and_start_over(n: u16)
    requires
        n < 32768,
    ensures
        n < 32767 ==> apci::next_sequence(n) == n + 1,
        n == 32767 ==> apci::next_sequence(n) == 0,
{
}

/// No two sequence numbers are written alike, and each is read back.
pub proof fn a_sequence_number_is_its_field(n: u16)
    requires
        n < 32768,
    ensures
        apci::sequence_field(n).len() == 2,
        apci::sequence_field(n)[0] + 256 * apci::sequence_field(n)[1] == 2 * n,
        apci::sequence_number(apci::sequence_field(n)[0], apci::sequence_field(n)[1]) == n,
{
}

/// The view of an APDU says all that it says.
pub proof fn views_of_apdus_hide_nothing(send: u16, receive: u16, asdu: Vec<u8>, command: u8)
    ensures
        (Apdu::I { send, receive, asdu })@ == (ApduView::I { send, receive, asdu: asdu@ }),
        (Apdu::S { receive })@ == (ApduView::S { receive }),
        (Apdu::U { command })@ == (ApduView::U { command }),
{
}

/// The view of what reading gives says all that it says.
pub proof fn views_of_reads_hide_nothing(apdu: Apdu, error: Error, reading: Reading)
    ensures
        apci::apdu_view(Some(apdu)) == Some(apdu@),
        apci::apdu_view(None) is None,
        apci::read_view(Ok(Some(apdu))) == Ok::<Option<ApduView>, Error>(Some(apdu@)),
        apci::read_view(Ok(None)) == Ok::<Option<ApduView>, Error>(None),
        apci::read_view(Err(error)) == Err::<Option<ApduView>, Error>(error),
        ReadStep::More(reading)@ == ReadStepView::More(reading),
        ReadStep::Done(Some(apdu))@ == ReadStepView::Done(Some(apdu@)),
        ReadStep::Done(None)@ == ReadStepView::Done(None),
        apci::read_step_view(Err(error)) == Err::<ReadStepView, Error>(error),
        forall|step: ReadStep| #[trigger]
            apci::read_step_view(Ok(step)) == Ok::<ReadStepView, Error>(step@),
{
}

/// The steps of reading take one byte, one byte, and as many as announced;
/// a body is announced with 4 to 253 bytes.
pub proof fn steps_take_what_is_announced(length: usize)
    ensures
        Reading::Start.wanted_bytes() == 1,
        Reading::Length.wanted_bytes() == 1,
        (Reading::Body { length }).wanted_bytes() == length,
        Reading::Start.wf(),
        Reading::Length.wf(),
        (Reading::Body { length }).wf() <==> 4 <= length <= 253,
        Reading::Start.label_text() == "reading the start byte"@,
        Reading::Length.label_text() == "reading the APDU length"@,
        (Reading::Body { length }).label_text() == "reading the APDU"@,
{
}

/// The first step tells a close, a wrong byte and a start apart.
pub proof fn the_first_step_wants_the_start(byte: u8)
    ensures
        Reading::Start.step_result(seq![]) == Ok::<ReadStepView, Error>(ReadStepView::Done(None)),
        Reading::Start.step_result(seq![0x68u8]) == Ok::<ReadStepView, Error>(
            ReadStepView::More(Reading::Length),
        ),
        byte != 0x68 ==> Reading::Start.step_result(seq![byte]) == Err::<ReadStepView, Error>(
            Error::NotAStart,
        ),
{
}

/// The second step takes a length of 4 to 253, and goes on with a body of
/// that length.
pub proof fn the_second_step_wants_a_length(length: u8)
    ensures
        Reading::Length.step_result(seq![]) == Err::<ReadStepView, Error>(Error::CutOffInLength),
        4 <= length <= 253 ==> Reading::Length.step_result(seq![length]) == Ok::<
            ReadStepView,
            Error,
        >(ReadStepView::More(Reading::Body { length: length as usize })),
        length < 4 || length > 253 ==> Reading::Length.step_result(seq![length]) == Err::<
            ReadStepView,
            Error,
        >(Error::LengthOutOfRange),
{
}

/// The last step makes of a body what reading makes of it behind a start and
/// its length, and refuses a body that is short of it.
pub proof fn the_last_step_reads_the_body(length: u8, body: Seq<u8>)
    requires
        4 <= length <= 253,
        body.len() <= length,
    ensures
        ({
            let stepped = (Reading::Body { length: length as usize }).step_result(body);
            &&& body.len() < length ==> stepped == Err::<ReadStepView, Error>(Error::CutOffInBody)
            &&& body.len() == length ==> match apci::read_result(seq![0x68u8, length] + body) {
                Ok(apdu) => apdu is Some && stepped == Ok::<ReadStepView, Error>(
                    ReadStepView::Done(apdu),
                ),
                Err(error) => stepped == Err::<ReadStepView, Error>(error),
            }
        }),
{
    let incoming = seq![0x68u8, length] + body;
    assert(incoming[1] == length);
    if body.len() == length {
        assert(incoming.subrange(2, 2 + length) =~= body);
    }
}

/// A number below ten is its one digit; any other is the number without its
/// last digit, and that digit.
pub proof fn numbers_are_written_digit_by_digit(n: nat)
    ensures
        n < 10 ==> text::decimal_text(n) == seq![(48 + n) as char],
        n >= 10 ==> text::decimal_text(n) == text::decimal_text(n / 10).push(
            (48 + n % 10) as char,
        ),
{
    reveal_strlit("0123456789");
    let digit = n % 10;
    assert("0123456789"@[digit as int] == (48 + digit) as char);
}

/// A number is written in digits only, at least one.
pub proof fn numbers_are_digits(n: nat)
    ensures
        text::decimal_text(n).len() > 0,
        forall|i: int|
            0 <= i < text::decimal_text(n).len() ==> '0' <= #[trigger] text::decimal_text(n)[i]
                <= '9',
    decreases n,
{
    numbers_are_written_digit_by_digit(n);
    if n >= 10 {
        numbers_are_digits(n / 10);
    }
}

/// No two numbers are written alike.
pub proof fn numbers_are_told_apart(m: nat, n: nat)
    requires
        text::decimal_text(m) == text::decimal_text(n),
    ensures
        m == n,
    decreases m,
{
    numbers_are_written_digit_by_digit(m);
    numbers_are_written_digit_by_digit(n);
    let written = text::decimal_text(m);
    numbers_are_digits(m / 10);
    numbers_are_digits(n / 10);
    if m >= 10 && n >= 10 {
        assert(text::decimal_text(m / 10) =~= written.drop_last());
        assert(text::decimal_text(n / 10) =~= written.drop_last());
        numbers_are_told_apart(m / 10, n / 10);
    }
    assert(written.last() == (48 + m % 10) as char);
    assert(written.last() == (48 + n % 10) as char);
}

/// An error about two numbers says both, each in its place.
pub proof fn errors_say_both_numbers(actual: u16, expected: u16)
    ensures
        (Error::OutOfSequence { send: actual, expected }).message_text() == "send sequence "@
            + text::decimal_text(actual as nat) + " where "@ + text::decimal_text(expected as nat)
            + " was expected"@,
        (Error::WrongAcknowledgement { receive: actual, expected }).message_text()
            == "acknowledged up to "@ + text::decimal_text(actual as nat) + ", not "@
            + text::decimal_text(expected as nat),
{
}

} // verus!
