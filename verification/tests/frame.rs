use pvaccess::error::{EncodeError, FrameError, ProtocolError};
use pvaccess::frame::{
    frame_message, next_frame, read_datagram, IntoPvAccessFrame, PvAccessDecoder,
    PvAccessEncoder, PvAccessFrame, Reassembler,
};
use pvaccess::header::{Command, PvAccessHeader};
use pvaccess::messages::echo::EchoMessage;

fn echo_frame(big: bool) -> PvAccessFrame {
    let flags = if big { 0x80 } else { 0x00 };
    frame_message(&EchoMessage { random_bytes: vec![1, 2, 3] }, Command::Echo, flags).unwrap()
}

#[test]
fn frame_length_is_eight_plus_payload_size() {
    for big in [true, false] {
        let frame = echo_frame(big);
        assert_eq!(frame.header.payload_size, 5);
        assert_eq!(frame.payload.len(), 5);
        let bytes = frame.to_bytes();
        assert_eq!(bytes.len(), 8 + frame.header.payload_size as usize);
    }
    assert_eq!(
        echo_frame(true).to_bytes(),
        vec![0xCA, 2, 0x80, 0x02, 0, 0, 0, 5, 0, 3, 1, 2, 3]
    );
    assert_eq!(
        echo_frame(false).to_bytes(),
        vec![0xCA, 2, 0x00, 0x02, 5, 0, 0, 0, 3, 0, 1, 2, 3]
    );
}

#[test]
fn frame_into_frame_is_frame_message() {
    let m = EchoMessage { random_bytes: vec![1, 2, 3] };
    assert_eq!(m.clone().into_frame(Command::Echo, 0x80).unwrap(), echo_frame(true));
    let long = EchoMessage { random_bytes: vec![0; 70000] };
    assert_eq!(long.into_frame(Command::Echo, 0), Err(EncodeError::FieldTooLong));
    // Reserved flag bits are dropped.
    let f = m.into_frame(Command::Echo, 0x8E).unwrap();
    assert_eq!(f.header.flags.bits(), 0x80);
}

#[test]
fn framer_waits_for_a_whole_frame() {
    let bytes = echo_frame(true).to_bytes();
    let mut decoder = PvAccessDecoder;
    for cut in 0..bytes.len() {
        let mut buf = bytes[..cut].to_vec();
        assert_eq!(decoder.decode(&mut buf), Ok(None), "cut at {cut}");
        assert_eq!(buf, bytes[..cut].to_vec());
        assert_eq!(next_frame(&bytes[..cut]), Ok(None));
    }
    let mut buf = bytes.clone();
    buf.extend_from_slice(&[0xCA, 2]);
    let (header, body) = decoder.decode(&mut buf).unwrap().unwrap();
    assert_eq!(header, echo_frame(true).header);
    assert_eq!(body, vec![0, 3, 1, 2, 3]);
    assert_eq!(body.len(), header.payload_size as usize);
    assert_eq!(buf, vec![0xCA, 2]);
    assert_eq!(decoder.decode(&mut buf), Ok(None));
}

#[test]
fn framer_takes_frames_one_by_one() {
    let mut buf = echo_frame(true).to_bytes();
    buf.extend_from_slice(&echo_frame(false).to_bytes());
    let mut decoder = PvAccessDecoder;
    let first = decoder.decode(&mut buf).unwrap().unwrap();
    assert!(first.0.is_big_endian());
    let second = decoder.decode(&mut buf).unwrap().unwrap();
    assert!(!second.0.is_big_endian());
    assert_eq!(second.1, vec![3, 0, 1, 2, 3]);
    assert!(buf.is_empty());
    assert_eq!(decoder.decode(&mut buf), Ok(None));
}

#[test]
fn framer_fails_on_a_wrong_magic_byte() {
    let mut decoder = PvAccessDecoder;
    let mut buf = vec![0xAB, 2, 0, 2, 0, 0, 0, 0];
    assert_eq!(decoder.decode(&mut buf), Err(FrameError::InvalidMagic));
    assert_eq!(buf, vec![0xAB, 2, 0, 2, 0, 0, 0, 0]);
    let mut buf = vec![0xAB, 2, 0, 2, 0, 0, 0, 3, 1, 2, 3, 4];
    assert_eq!(decoder.decode(&mut buf), Err(FrameError::InvalidMagic));
}

#[test]
fn framer_waits_below_eight_bytes_whatever_they_are() {
    let mut decoder = PvAccessDecoder;
    let mut buf: Vec<u8> = Vec::new();
    assert_eq!(decoder.decode(&mut buf), Ok(None));
    let wrong = [0xABu8, 2, 0, 2, 0, 0, 0, 0];
    for cut in 1..8 {
        let mut buf = wrong[..cut].to_vec();
        assert_eq!(decoder.decode(&mut buf), Ok(None));
        assert_eq!(buf, wrong[..cut].to_vec());
        assert_eq!(next_frame(&wrong[..cut]), Ok(None));
    }
    assert_eq!(next_frame(&wrong), Err(FrameError::InvalidMagic));
    // The bytes that complete the header bring the error.
    let mut buf = vec![0x00, 0xFF, 0xFF];
    assert_eq!(decoder.decode(&mut buf), Ok(None));
    buf.extend_from_slice(&[0xFF, 0xFF, 0xFF, 0xFF, 0xFF]);
    assert_eq!(decoder.decode(&mut buf), Err(FrameError::InvalidMagic));
    assert_eq!(buf.len(), 8);
}

#[test]
fn encoder_appends_the_frame() {
    let mut dst = vec![9, 9];
    let mut encoder = PvAccessEncoder;
    encoder.encode(&echo_frame(true), &mut dst);
    assert_eq!(dst, vec![9, 9, 0xCA, 2, 0x80, 0x02, 0, 0, 0, 5, 0, 3, 1, 2, 3]);
}

#[test]
fn datagram_is_one_frame() {
    let bytes = echo_frame(false).to_bytes();
    let (h, body) = read_datagram(&bytes).unwrap();
    assert_eq!(h.message_command, Command::Echo);
    assert_eq!(body, vec![3, 0, 1, 2, 3]);
    assert_eq!(read_datagram(&bytes[..12]), Err(FrameError::PayloadTruncated));
    assert_eq!(read_datagram(&bytes[..7]), Err(FrameError::ShortHeader));
    assert_eq!(read_datagram(&[0xAB, 1, 2]), Err(FrameError::ShortHeader));
    assert_eq!(read_datagram(&[]), Err(FrameError::ShortHeader));
    assert_eq!(
        read_datagram(&[0xAB, 2, 0x40, 0, 0, 0, 0, 0]),
        Err(FrameError::InvalidMagic)
    );
    let mut long = bytes.clone();
    long.extend_from_slice(&[1, 2, 3]);
    assert_eq!(read_datagram(&long).unwrap().1, vec![3, 0, 1, 2, 3]);
}

#[test]
fn segments_are_put_together() {
    let mut r = Reassembler::new();
    let whole = PvAccessHeader::new(0x00, Command::ChannelGet, 2);
    assert_eq!(r.push(&whole, vec![1, 2]), Ok(Some((Command::ChannelGet, vec![1, 2]))));
    let first = PvAccessHeader::new(0x10, Command::ChannelGet, 2);
    let middle = PvAccessHeader::new(0x30, Command::ChannelGet, 1);
    let last = PvAccessHeader::new(0x20, Command::ChannelGet, 2);
    assert_eq!(r.push(&first, vec![1, 2]), Ok(None));
    assert!(r.is_pending());
    assert_eq!(r.push(&middle, vec![3]), Ok(None));
    assert_eq!(r.push(&middle, vec![4]), Ok(None));
    assert_eq!(
        r.push(&last, vec![5, 6]),
        Ok(Some((Command::ChannelGet, vec![1, 2, 3, 4, 5, 6])))
    );
    assert!(!r.is_pending());
}

#[test]
fn segments_out_of_turn_are_a_violation() {
    let first = PvAccessHeader::new(0x10, Command::ChannelGet, 0);
    let middle = PvAccessHeader::new(0x30, Command::ChannelGet, 0);
    let last = PvAccessHeader::new(0x20, Command::ChannelGet, 0);
    let whole = PvAccessHeader::new(0x00, Command::ChannelGet, 0);
    let other = PvAccessHeader::new(0x20, Command::ChannelPut, 0);
    let mut r = Reassembler::new();
    assert_eq!(r.push(&middle, vec![]), Err(ProtocolError::SegmentationViolation));
    assert_eq!(r.push(&last, vec![]), Err(ProtocolError::SegmentationViolation));
    assert_eq!(r.push(&first, vec![1]), Ok(None));
    assert_eq!(r.push(&first, vec![1]), Err(ProtocolError::SegmentationViolation));
    assert!(!r.is_pending());
    assert_eq!(r.push(&first, vec![1]), Ok(None));
    assert_eq!(r.push(&whole, vec![1]), Err(ProtocolError::SegmentationViolation));
    assert_eq!(r.push(&first, vec![1]), Ok(None));
    assert_eq!(r.push(&other, vec![1]), Err(ProtocolError::SegmentationViolation));
    assert!(!r.is_pending());
}
