use iec104::apci::{
    encode, Apdu, STARTDT_ACT, STARTDT_CON, STOPDT_ACT, STOPDT_CON, TESTFR_ACT, TESTFR_CON,
};
use iec104::controller::{asdus, ControllerStep};
use iec104::station::{gather, StationStep};
use iec104::text::decimal;
use iec104::{Arrived, Controller, Error, Iec104Transport, Station, MAX_ASDU};
use std::time::Duration;

const PEER: &str = "127.0.0.1:50104";

fn command(command: u8) -> Vec<u8> {
    encode(&Apdu::U { command }).expect("command")
}

fn information(send: u16, asdu: &[u8]) -> Vec<u8> {
    encode(&Apdu::I {
        send,
        receive: 0,
        asdu: asdu.to_vec(),
    })
    .expect("information")
}

fn acknowledgement(receive: u16) -> Vec<u8> {
    encode(&Apdu::S { receive }).expect("acknowledgement")
}

fn accepted() -> Station {
    Iec104Transport::new("127.0.0.1:0").accept_one(PEER.to_string())
}

fn connected() -> Controller {
    let mut outgoing = Vec::new();
    let answer = command(STARTDT_CON);
    Iec104Transport::new("127.0.0.1:0")
        .connect(&mut answer.as_slice(), &mut outgoing)
        .unwrap_or_else(|error| panic!("{}", error.message()))
}

/// Connects both ends to each other: each reads what the other wrote, until
/// neither has more to say.
fn round(transport: &Iec104Transport, payload: &[u8]) -> Result<Arrived, Error> {
    let mut replies = Vec::new();
    loop {
        let mut frames = Vec::new();
        let sent = transport.send_to(payload, &mut replies.as_slice(), &mut frames);
        let mut answers = Vec::new();
        let taken = transport.take_one(PEER.to_string(), &mut frames.as_slice(), &mut answers);
        if answers == replies {
            sent?;
            return taken;
        }
        replies = answers;
    }
}

#[test]
fn a_loopback_round_carries_a_stream_as_asdus() {
    let loopback = Iec104Transport::loopback(Duration::from_secs(2));
    let arrived = round(&loopback, b"asdu").expect("round");
    assert_eq!(arrived.bytes, b"asdu");
    assert!(arrived.origin_uri.starts_with("iec104://127.0.0.1:"));
    assert!(arrived.origin_uri.ends_with("?send=0"));
    let long = vec![0x2a; 3000];
    let arrived = round(&loopback, &long).expect("thirteen I frames");
    assert_eq!(arrived.bytes, long);
    assert!(arrived.origin_uri.ends_with("?send=12"));
}

#[test]
fn the_loopback_returns_the_edges_whole() {
    let loopback = Iec104Transport::loopback(Duration::from_secs(2));
    let edges: [(&str, Vec<u8>); 8] = [
        ("empty", Vec::new()),
        ("one zero", vec![0]),
        ("start bytes", vec![0x68; 10]),
        ("every byte", (0..=255).collect()),
        ("one less than an ASDU", vec![1; MAX_ASDU - 1]),
        ("one ASDU", vec![2; MAX_ASDU]),
        ("one more than an ASDU", vec![3; MAX_ASDU + 1]),
        ("ten ASDUs", vec![0xff; 10 * MAX_ASDU]),
    ];
    for (name, bytes) in edges {
        let arrived = round(&loopback, &bytes)
            .unwrap_or_else(|error| panic!("{name}: {}", error.message()));
        assert_eq!(arrived.bytes, bytes, "{name}");
    }
    assert_eq!(round(&loopback, &[]).expect("empty").origin_uri, "iec104://");
}

#[test]
fn asdus_flow_in_sequence_and_are_acknowledged() {
    let mut controller = connected();
    let mut station = accepted();
    let mut frames = command(STARTDT_ACT);
    let asdus: [&[u8]; 2] = [
        &[0x2d, 0x01, 0x06, 0x00, 0x01, 0x00, 0x10, 0x27, 0x00, 0x01],
        &[0x64, 0x01, 0x06, 0x00, 0x01, 0x00, 0, 0, 0, 0x14],
    ];
    for (i, asdu) in asdus.iter().enumerate() {
        let answer = acknowledgement(i as u16 + 1);
        controller
            .send_asdu(asdu, &mut answer.as_slice(), &mut frames)
            .expect("controlling");
    }
    controller.stop(&mut frames).expect("controlling");
    let mut incoming = frames.as_slice();
    let mut replies = Vec::new();
    let first = station
        .next_asdu(&mut incoming, &mut replies)
        .expect("first")
        .expect("an ASDU");
    assert_eq!(first.bytes[0], 0x2d);
    assert!(first.origin_uri.ends_with("?send=0"));
    let second = station
        .next_asdu(&mut incoming, &mut replies)
        .expect("second")
        .expect("an ASDU");
    assert_eq!(second.bytes[0], 0x64);
    assert!(second.origin_uri.ends_with("?send=1"));
    assert!(station
        .next_asdu(&mut incoming, &mut replies)
        .expect("stopped")
        .is_none());
    let expected: Vec<u8> = [
        command(STARTDT_CON),
        acknowledgement(1),
        acknowledgement(2),
        command(STOPDT_CON),
    ]
    .concat();
    assert_eq!(replies, expected);
    assert!(incoming.is_empty());
}

#[test]
fn the_transport_trait_receives_a_session_and_sends_one_asdu() {
    let transport =
        Iec104Transport::new("127.0.0.1:0").timing_out_after(Duration::from_secs(2));
    let replies = [command(STARTDT_CON), acknowledgement(1), command(STOPDT_CON)].concat();
    let mut unread = replies.as_slice();
    let mut frames = Vec::new();
    transport
        .send(b"asdu", &mut unread, &mut frames)
        .expect("sending");
    assert_eq!(unread, command(STOPDT_CON));
    let mut answers = Vec::new();
    let arrived = transport
        .receive(PEER.to_string(), &mut frames.as_slice(), &mut answers)
        .expect("receiving");
    assert_eq!(arrived.len(), 1);
    assert_eq!(arrived[0].bytes, b"asdu");
    assert_eq!(answers, replies);
}

#[test]
fn an_i_frame_before_startdt_and_a_wrong_sequence_are_refused() {
    let early = encode(&Apdu::I {
        send: 0,
        receive: 0,
        asdu: vec![1],
    })
    .expect("encode");
    let mut replies = Vec::new();
    let error = accepted()
        .next_asdu(&mut early.as_slice(), &mut replies)
        .expect_err("early");
    assert_eq!(error, Error::NotStarted);
    assert!(replies.is_empty());
    let wrong = [command(STARTDT_ACT), information(7, &[1])].concat();
    let error = accepted()
        .next_asdu(&mut wrong.as_slice(), &mut replies)
        .expect_err("wrong");
    assert_eq!(
        error,
        Error::OutOfSequence {
            send: 7,
            expected: 0
        }
    );
    assert_eq!(replies, command(STARTDT_CON));
    assert!(encode(&Apdu::I {
        send: 0,
        receive: 0,
        asdu: vec![0; MAX_ASDU + 1]
    })
    .is_err());
}

#[test]
fn tests_are_answered_and_the_rest_passed_over() {
    let frames = [
        command(TESTFR_ACT),
        acknowledgement(3),
        command(STARTDT_ACT),
        command(TESTFR_CON),
        command(TESTFR_ACT),
        information(0, b"x"),
        command(TESTFR_ACT),
    ]
    .concat();
    let mut station = accepted();
    let mut incoming = frames.as_slice();
    let mut replies = Vec::new();
    let arrived = station
        .next_asdu(&mut incoming, &mut replies)
        .expect("taken")
        .expect("an ASDU");
    assert_eq!(
        arrived,
        Arrived {
            origin_uri: "iec104://127.0.0.1:50104?send=0".to_string(),
            bytes: b"x".to_vec()
        }
    );
    assert_eq!(
        replies,
        [
            command(TESTFR_CON),
            command(STARTDT_CON),
            command(TESTFR_CON),
            acknowledgement(1)
        ]
        .concat()
    );
    assert_eq!(incoming, command(TESTFR_ACT));
    assert_eq!(station.next_asdu(&mut incoming, &mut replies), Ok(None));
}

#[test]
fn stopping_needs_a_new_start_and_keeps_the_sequence() {
    let mut station = accepted();
    let mut replies = Vec::new();
    let frames = [
        command(STARTDT_ACT),
        information(0, b"a"),
        command(STOPDT_ACT),
    ]
    .concat();
    let mut incoming = frames.as_slice();
    assert!(station
        .next_asdu(&mut incoming, &mut replies)
        .expect("a")
        .is_some());
    assert_eq!(station.next_asdu(&mut incoming, &mut replies), Ok(None));
    assert_eq!(
        station.next_asdu(&mut information(1, b"b").as_slice(), &mut replies),
        Err(Error::NotStarted)
    );
    let again = [command(STARTDT_ACT), information(1, b"b")].concat();
    let arrived = station
        .next_asdu(&mut again.as_slice(), &mut replies)
        .expect("b")
        .expect("an ASDU");
    assert_eq!(arrived.origin_uri, "iec104://127.0.0.1:50104?send=1");
}

#[test]
fn sequence_numbers_start_over_after_the_last() {
    let mut station = accepted();
    let mut controller = connected();
    station
        .on_apdu(Some(Apdu::U {
            command: STARTDT_ACT,
        }))
        .expect("started");
    for n in 0..32768u16 {
        let frame = controller.information(&[1]);
        controller.advance();
        let step = station.on_apdu(Some(frame)).expect("in sequence");
        let next = if n == 32767 { 0 } else { n + 1 };
        match step {
            StationStep::HandUp {
                reply,
                arrived: Some(arrived),
            } => {
                assert_eq!(reply, Some(Apdu::S { receive: next }));
                assert_eq!(
                    arrived.origin_uri,
                    format!("iec104://127.0.0.1:50104?send={n}")
                );
                assert_eq!(controller.on_apdu(reply), Ok(ControllerStep::Acknowledged));
            }
            other => panic!("{other:?}"),
        }
    }
}

#[test]
fn a_controller_waits_for_its_acknowledgement() {
    let mut controller = connected();
    let mut frames = Vec::new();
    let replies = [
        command(TESTFR_ACT),
        command(STARTDT_CON),
        encode(&Apdu::I {
            send: 40,
            receive: 1,
            asdu: vec![9],
        })
        .expect("i"),
        acknowledgement(9),
    ]
    .concat();
    let mut incoming = replies.as_slice();
    assert_eq!(
        controller.send_asdu(b"a", &mut incoming, &mut frames),
        Ok(())
    );
    assert_eq!(
        frames,
        [information(0, b"a"), command(TESTFR_CON)].concat()
    );
    assert_eq!(
        controller.send_asdu(b"b", &mut incoming, &mut frames),
        Err(Error::WrongAcknowledgement {
            receive: 9,
            expected: 2
        })
    );
    assert_eq!(
        controller.send_asdu(b"c", &mut incoming, &mut frames),
        Err(Error::ClosedUnacknowledged)
    );
    let written = frames.len();
    assert_eq!(
        controller.send_asdu(&[0; 250], &mut incoming, &mut frames),
        Err(Error::AsduTooLong)
    );
    assert_eq!(frames.len(), written);
    assert_eq!(
        controller.information(b"d"),
        Apdu::I {
            send: 3,
            receive: 0,
            asdu: b"d".to_vec()
        }
    );
}

#[test]
fn data_transfer_starts_only_when_confirmed() {
    let transport = Iec104Transport::new("127.0.0.1:0");
    let mut outgoing = Vec::new();
    for answer in [
        Vec::new(),
        command(STOPDT_CON),
        acknowledgement(0),
        command(STARTDT_ACT),
    ] {
        match transport.connect(&mut answer.as_slice(), &mut outgoing) {
            Err(error) => assert_eq!(error, Error::StartNotConfirmed),
            Ok(_) => panic!("confirmed"),
        }
    }
    match transport.connect(&mut &[0x68][..], &mut outgoing) {
        Err(error) => assert_eq!(error, Error::CutOffInLength),
        Ok(_) => panic!("confirmed"),
    }
    assert_eq!(outgoing, command(STARTDT_ACT).repeat(5));
}

#[test]
fn what_is_not_acknowledged_stops_the_stream() {
    let transport = Iec104Transport::new("127.0.0.1:0");
    let payload = vec![5; 3 * MAX_ASDU];
    let replies = [command(STARTDT_CON), acknowledgement(1)].concat();
    let mut frames = Vec::new();
    assert_eq!(
        transport.send_to(&payload, &mut replies.as_slice(), &mut frames),
        Err(Error::ClosedUnacknowledged)
    );
    assert_eq!(
        frames,
        [
            command(STARTDT_ACT),
            information(0, &payload[..MAX_ASDU]),
            information(1, &payload[..MAX_ASDU])
        ]
        .concat()
    );
}

#[test]
fn a_payload_is_cut_into_full_asdus_and_a_last() {
    assert_eq!(asdus(&[]), Vec::<Vec<u8>>::new());
    let payload: Vec<u8> = (0..600usize).map(|i| (i % 251) as u8).collect();
    let cut = asdus(&payload);
    let lengths: Vec<usize> = cut.iter().map(Vec::len).collect();
    assert_eq!(lengths, [249, 249, 102]);
    assert_eq!(cut.concat(), payload);
    assert_eq!(asdus(&payload[..498]).len(), 2);
    let chunks: Vec<Vec<u8>> = payload.chunks(MAX_ASDU).map(<[u8]>::to_vec).collect();
    assert_eq!(cut, chunks);
}

#[test]
fn what_arrived_is_gathered_under_the_last_origin() {
    assert_eq!(
        gather(&Vec::new()),
        Arrived {
            origin_uri: "iec104://".to_string(),
            bytes: Vec::new()
        }
    );
    let arrived = |origin: &str, bytes: &[u8]| Arrived {
        origin_uri: origin.to_string(),
        bytes: bytes.to_vec(),
    };
    assert_eq!(
        gather(&vec![arrived("a", b"12"), arrived("b", b""), arrived("c", b"3")]),
        arrived("c", b"123")
    );
}

#[test]
fn errors_say_what_went_wrong() {
    let said = [
        (Error::AsduTooLong, "an ASDU over what one APDU carries"),
        (Error::NotAStart, "a byte that is not the APDU start"),
        (Error::LengthOutOfRange, "an APDU length outside four to 253"),
        (Error::UnknownCommand, "a U command that does not exist"),
        (Error::CutOffInLength, "reading the APDU length"),
        (Error::CutOffInBody, "reading the APDU"),
        (Error::NotStarted, "an I frame before STARTDT"),
        (
            Error::OutOfSequence {
                send: 32767,
                expected: 10,
            },
            "send sequence 32767 where 10 was expected",
        ),
        (
            Error::WrongAcknowledgement {
                receive: 0,
                expected: 9,
            },
            "acknowledged up to 0, not 9",
        ),
        (
            Error::ClosedUnacknowledged,
            "the station closed before acknowledging",
        ),
        (
            Error::StartNotConfirmed,
            "the station did not confirm STARTDT",
        ),
    ];
    for (error, words) in said {
        assert_eq!(error.message(), words);
    }
}

#[test]
fn numbers_are_written_in_base_ten() {
    for n in 0..=u16::MAX {
        assert_eq!(decimal(n), format!("{n}"));
    }
}

#[test]
fn a_transport_keeps_its_address_and_timeout() {
    let transport = Iec104Transport::new("0.0.0.0:2404");
    assert_eq!(transport.address(), "0.0.0.0:2404");
    assert_eq!(transport.timeout(), None);
    let patient = transport.timing_out_after(Duration::from_millis(1500)).clone();
    assert_eq!(patient.address(), "0.0.0.0:2404");
    assert_eq!(patient.timeout(), Some(Duration::from_millis(1500)));
    assert_eq!(patient.name(), "iec-60870-5-104");
    assert_eq!(Iec104Transport::new(String::from("host:1")).address(), "host:1");
    let loopback = Iec104Transport::loopback(Duration::from_secs(3));
    assert_eq!(loopback.address(), "127.0.0.1:0");
    assert_eq!(loopback.timeout(), Some(Duration::from_secs(3)));
}

#[test]
fn a_conversation_on_the_wire() {
    let transport = Iec104Transport::loopback(Duration::from_secs(2));
    let payload: Vec<u8> = (0..300usize).map(|i| i as u8).collect();
    let replies = [
        command(STARTDT_CON),
        acknowledgement(1),
        acknowledgement(2),
        command(STOPDT_CON),
    ]
    .concat();
    let frames = [
        command(STARTDT_ACT),
        information(0, &payload[..249]),
        information(1, &payload[249..]),
        command(STOPDT_ACT),
    ]
    .concat();
    let mut unread = replies.as_slice();
    let mut written = Vec::new();
    assert_eq!(
        transport.send_to(&payload, &mut unread, &mut written),
        Ok(())
    );
    assert_eq!(written, frames);
    assert_eq!(unread, command(STOPDT_CON));
    let mut unread = frames.as_slice();
    let mut answers = Vec::new();
    let taken = transport
        .take_one(PEER.to_string(), &mut unread, &mut answers)
        .expect("whole");
    assert_eq!(taken.bytes, payload);
    assert_eq!(taken.origin_uri, "iec104://127.0.0.1:50104?send=1");
    assert_eq!(answers, replies);
    assert!(unread.is_empty());
}

#[test]
fn a_broken_session_hands_nothing_on() {
    let transport = Iec104Transport::loopback(Duration::from_secs(2));
    let frames = [command(STARTDT_ACT), information(0, b"a"), information(0, b"b")].concat();
    let mut answers = Vec::new();
    let wrong = Error::OutOfSequence {
        send: 0,
        expected: 1,
    };
    assert_eq!(
        transport.receive(PEER.to_string(), &mut frames.as_slice(), &mut answers),
        Err(wrong)
    );
    assert_eq!(answers, [command(STARTDT_CON), acknowledgement(1)].concat());
    assert_eq!(
        transport.take_one(PEER.to_string(), &mut frames.as_slice(), &mut answers),
        Err(wrong)
    );
    let mut written = Vec::new();
    assert_eq!(
        transport.send(&[0; 250], &mut command(STARTDT_CON).as_slice(), &mut written),
        Err(Error::AsduTooLong)
    );
    assert_eq!(written, command(STARTDT_ACT));
}
