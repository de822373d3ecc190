use pvaccess::emitter::{BeaconConfig, BeaconEmitter, Cadence, DEFAULT_BURST};
use pvaccess::header::Command;
use pvaccess::messages::beacon::{fresh_guid, guid_of, BeaconMessage};

fn config() -> BeaconConfig {
    BeaconConfig { udp_initial_interval: 1, udp_long_term_interval: 15 }
}

#[test]
fn emitter_burst_then_long_interval() {
    let template = BeaconMessage::new(5576, [3; 16], [127, 0, 0, 1]);
    let mut e = BeaconEmitter::new(template, config(), DEFAULT_BURST).unwrap();
    let mut waits = Vec::new();
    let mut sequence = Vec::new();
    for _ in 0..20 {
        let beat = e.emit(0);
        waits.push(beat.wait_seconds);
        sequence.push(beat.sequence_id);
        match beat.cadence {
            Cadence::Short => assert_eq!(beat.wait_seconds, 1),
            Cadence::Long => assert_eq!(beat.wait_seconds, 15),
        }
    }
    // Fifteen beacons a short interval apart: fourteen short gaps.
    assert_eq!(&waits[..14], &[1; 14]);
    assert_eq!(&waits[14..], &[15; 6]);
    assert_eq!(sequence, (0u8..20).collect::<Vec<u8>>());
}

#[test]
fn emitter_sequence_rolls_over() {
    let mut template = BeaconMessage::new(1, [0; 16], [1, 2, 3, 4]);
    template.beacon_sequence_id = 250;
    let mut e = BeaconEmitter::new(template, config(), 3).unwrap();
    let mut sequence = Vec::new();
    for _ in 0..300 {
        sequence.push(e.emit(0).sequence_id);
    }
    for (k, id) in sequence.iter().enumerate() {
        assert_eq!(*id as usize, (250 + k) % 256);
    }
    let mut seen = sequence[..256].to_vec();
    seen.sort();
    seen.dedup();
    assert_eq!(seen.len(), 256);
}

#[test]
fn emitter_frames_carry_the_beacon() {
    let template = BeaconMessage::new(5576, [9; 16], [10, 1, 2, 3]);
    let mut e = BeaconEmitter::new(template.clone(), config(), 1).unwrap();
    let beat = e.emit(7);
    assert_eq!(beat.cadence, Cadence::Long);
    assert_eq!(beat.frame.header.message_command, Command::Beacon);
    assert_eq!(beat.frame.header.flags.bits(), 0xC0);
    assert_eq!(beat.frame.header.payload_size as usize, beat.frame.payload.len());
    let sent = BeaconMessage::from_bytes(&beat.frame.payload, true).unwrap();
    assert_eq!(sent.change_count, 7);
    assert_eq!(sent.beacon_sequence_id, 0);
    assert_eq!(sent.guid, template.guid);
    assert_eq!(sent.server_port, 5576);
    let beat = e.emit(8);
    let sent = BeaconMessage::from_bytes(&beat.frame.payload, true).unwrap();
    assert_eq!(sent.change_count, 8);
    assert_eq!(sent.beacon_sequence_id, 1);
}

#[test]
fn emitter_without_burst() {
    let template = BeaconMessage::new(1, [0; 16], [1, 2, 3, 4]);
    let mut e = BeaconEmitter::new(template, config(), 0).unwrap();
    assert_eq!(e.emit(0).cadence, Cadence::Long);
    assert_eq!(e.emit(0).wait_seconds, 15);
}

#[test]
fn emitter_refuses_a_template_without_encoding() {
    let mut template = BeaconMessage::new(1, [0; 16], [1, 2, 3, 4]);
    template.protocol = "p".repeat(256);
    assert!(BeaconEmitter::new(template, config(), 15).is_none());
}

#[test]
fn guid_is_the_start_of_a_random_value() {
    let uid = [1u8, 2, 3, 4, 5, 6, 7, 8, 9, 10, 11, 12, 13, 14, 15, 16];
    assert_eq!(guid_of(&uid), [1, 2, 3, 4, 5, 6, 7, 8, 9, 10, 11, 12]);
    let a = fresh_guid();
    let b = fresh_guid();
    assert_eq!(a[6] & 0xF0, 0x40);
    assert_eq!(a[8] & 0xC0, 0x80);
    assert_eq!(b[6] & 0xF0, 0x40);
    assert_ne!(a, b);
}
