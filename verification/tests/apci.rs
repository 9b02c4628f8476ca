use iec104::apci::{
    encode, read, Apdu, ReadStep, Reading, MAX_APDU, MAX_ASDU, START, STARTDT_ACT, STARTDT_CON,
    STOPDT_ACT, STOPDT_CON, TESTFR_ACT, TESTFR_CON,
};
use iec104::Error;

#[test]
fn every_format_round_trips() {
    for apdu in [
        Apdu::I {
            send: 5,
            receive: 3,
            asdu: vec![0x0d, 0x01, 0x03, 0x00, 0x01, 0x00, 0x0a, 0x00, 0x00],
        },
        Apdu::I {
            send: 32767,
            receive: 0,
            asdu: Vec::new(),
        },
        Apdu::S { receive: 7 },
        Apdu::U {
            command: STARTDT_ACT,
        },
        Apdu::U {
            command: TESTFR_CON,
        },
    ] {
        let bytes = encode(&apdu).expect("encode");
        assert_eq!(bytes[0], START);
        assert_eq!(usize::from(bytes[1]), bytes.len() - 2);
        let back = read(&mut bytes.as_slice()).expect("read").expect("one");
        assert_eq!(back, apdu);
    }
    assert_eq!(
        encode(&Apdu::S { receive: 1 }).expect("s"),
        [0x68, 4, 1, 0, 2, 0]
    );
}

#[test]
fn what_is_not_an_apdu_is_refused() {
    assert!(read(&mut &[][..]).expect("closed").is_none());
    assert!(read(&mut &[0x69, 4, 0, 0, 0, 0][..]).is_err(), "start");
    assert!(read(&mut &[0x68, 3, 0, 0, 0][..]).is_err(), "short");
    assert!(
        read(&mut &[0x68, 4, 0x33, 0, 0, 0][..]).is_err(),
        "U command"
    );
    assert!(read(&mut &[0x68, 6, 0, 0, 0][..]).is_err(), "cut off");
    assert!(
        encode(&Apdu::I {
            send: 0,
            receive: 0,
            asdu: vec![0; MAX_ASDU + 1]
        })
        .is_err()
    );
}

#[test]
fn each_refusal_says_why_and_what_it_read() {
    let cases: [(&[u8], Error, usize); 7] = [
        (&[0x69, 4, 0, 0, 0, 0], Error::NotAStart, 5),
        (&[0x68], Error::CutOffInLength, 0),
        (&[0x68, 3, 0, 0, 0], Error::LengthOutOfRange, 3),
        (&[0x68, 254, 0, 0, 0], Error::LengthOutOfRange, 3),
        (&[0x68, 6, 0, 0, 0], Error::CutOffInBody, 0),
        (&[0x68, 4, 0x33, 0, 0, 0, 9], Error::UnknownCommand, 1),
        (&[0x68, 4, 0x0f, 0, 0, 0, 9], Error::UnknownCommand, 1),
    ];
    for (bytes, error, left) in cases {
        let mut incoming = bytes;
        assert_eq!(read(&mut incoming), Err(error));
        assert_eq!(incoming.len(), left);
    }
    assert_eq!(
        encode(&Apdu::I {
            send: 0,
            receive: 0,
            asdu: vec![0; MAX_ASDU + 1]
        }),
        Err(Error::AsduTooLong)
    );
}

#[test]
fn the_longest_asdu_fills_the_apdu() {
    let asdu: Vec<u8> = (0..MAX_ASDU).map(|i| i as u8).collect();
    let apdu = Apdu::I {
        send: 0x1234,
        receive: 0x7fff,
        asdu: asdu.clone(),
    };
    let bytes = encode(&apdu).expect("encode");
    assert_eq!(bytes.len(), MAX_APDU + 2);
    assert_eq!(bytes[..6], [0x68, 253, 0x68, 0x24, 0xfe, 0xff]);
    assert_eq!(bytes[6..], asdu[..]);
    assert_eq!(read(&mut bytes.as_slice()), Ok(Some(apdu)));
}

#[test]
fn a_sixteenth_bit_of_a_sequence_number_is_dropped() {
    let bytes = encode(&Apdu::S { receive: 0x8001 }).expect("encode");
    assert_eq!(bytes, [0x68, 4, 1, 0, 2, 0]);
}

#[test]
fn the_low_bits_of_the_control_field_are_not_part_of_the_numbers() {
    assert_eq!(
        read(&mut &[0x68, 5, 0x06, 0x01, 0x03, 0x00, 0xaa][..]),
        Ok(Some(Apdu::I {
            send: 0x83,
            receive: 1,
            asdu: vec![0xaa]
        }))
    );
    assert_eq!(
        read(&mut &[0x68, 5, 0x05, 0x77, 0x0e, 0x00, 0xaa][..]),
        Ok(Some(Apdu::S { receive: 7 }))
    );
}

#[test]
fn reading_stops_at_the_end_of_the_apdu() {
    let mut bytes = encode(&Apdu::S { receive: 9 }).expect("s");
    for command in [STARTDT_CON, STOPDT_ACT, STOPDT_CON, TESTFR_ACT] {
        bytes.extend_from_slice(&encode(&Apdu::U { command }).expect("u"));
    }
    let mut incoming = bytes.as_slice();
    assert_eq!(read(&mut incoming), Ok(Some(Apdu::S { receive: 9 })));
    assert_eq!(incoming.len(), 24);
    for command in [STARTDT_CON, STOPDT_ACT, STOPDT_CON, TESTFR_ACT] {
        assert_eq!(read(&mut incoming), Ok(Some(Apdu::U { command })));
    }
    assert_eq!(read(&mut incoming), Ok(None));
}

#[test]
fn an_apdu_is_read_step_by_step() {
    let start = Reading::Start;
    assert_eq!((start.wanted(), start.label()), (1, "reading the start byte"));
    assert_eq!(start.step(&[]), Ok(ReadStep::Done(None)));
    assert_eq!(start.step(&[0x67]), Err(Error::NotAStart));
    assert_eq!(start.step(&[0x68]), Ok(ReadStep::More(Reading::Length)));
    let length = Reading::Length;
    assert_eq!((length.wanted(), length.label()), (1, "reading the APDU length"));
    assert_eq!(length.step(&[]), Err(Error::CutOffInLength));
    assert_eq!(length.step(&[3]), Err(Error::LengthOutOfRange));
    let body = Reading::Body { length: 5 };
    assert_eq!(length.step(&[5]), Ok(ReadStep::More(body)));
    assert_eq!((body.wanted(), body.label()), (5, "reading the APDU"));
    assert_eq!(body.step(&[0, 0, 0, 0]), Err(Error::CutOffInBody));
    assert_eq!(
        body.step(&[2, 0, 4, 0, 0x2a]),
        Ok(ReadStep::Done(Some(Apdu::I {
            send: 1,
            receive: 2,
            asdu: vec![0x2a]
        })))
    );
}

#[test]
fn what_is_read_has_fifteen_bit_sequence_numbers() {
    assert_eq!(
        read(&mut &[0x68, 4, 0xfe, 0xff, 0xff, 0xff][..]),
        Ok(Some(Apdu::I {
            send: 0x7fff,
            receive: 0x7fff,
            asdu: Vec::new()
        }))
    );
}
