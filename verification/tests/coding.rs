use usync::constants::MTU;
use usync::protocol::coding::raptorq_code::{RaptorqReceiver, RaptorqSender};
use usync::protocol::coding::{FrameReceiver, FrameSender};
use usync::util::generate_random;

const CHUNK_SIZE: usize = 1048576;

#[test]
fn get_gen_frames() {
    let data = generate_random(CHUNK_SIZE);
    let mut generator = RaptorqSender::init(&data, 64).unwrap();
    for (i, (j, data)) in std::iter::from_fn(|| generator.next_frame().into())
        .enumerate()
        .take(200)
    {
        assert_eq!(i + 64, j as usize);
        assert!(data.len() <= MTU);
    }
}

#[test]
fn decoding() {
    let data = generate_random(CHUNK_SIZE);
    let mut encoder = RaptorqSender::init(&data, 0).unwrap();

    let config = encoder.get_transmission_info();
    let mut decoder = RaptorqReceiver::try_init(&config).unwrap();

    for i in 0..600 {
        let (frame_id, frame) = encoder.next_frame();
        if i % 5 != 0 {
            decoder.update(frame_id, &frame);
        }
    }

    // Mock a restart

    let restart_id = decoder.expected_frame_id();
    let mut encoder = RaptorqSender::init(&data, restart_id).unwrap();

    let restored_data = loop {
        let (frame_id, frame) = encoder.next_frame();
        assert!(frame_id < 1000, "Take too long!");
        if let Some(restored_data) = decoder.update(frame_id, &frame) {
            break restored_data;
        }
    };

    assert_eq!(data, restored_data);
}

#[test]
fn generate_random_has_the_length_asked_for() {
    assert_eq!(generate_random(0).len(), 0);
    assert_eq!(generate_random(1000).len(), 1000);
    // A thousand equal bytes would be no chance.
    let data = generate_random(1000);
    assert!(data.iter().any(|b| *b != data[0]));
}

#[test]
fn sender_refuses_what_the_code_cannot_encode() {
    assert!(RaptorqSender::init(&[], 0).is_none());
    assert!(RaptorqSender::init(&vec![0u8; 32 * 1024 * 1024 + 1], 0).is_none());
    assert!(RaptorqSender::init(&[1, 2, 3], 1 << 24).is_none());
    assert!(RaptorqSender::init(&[1, 2, 3], (1 << 24) - 1).is_some());
}

#[test]
fn sender_runs_out_of_symbols_at_the_last_id() {
    let mut sender = RaptorqSender::init(&[1, 2, 3], (1 << 24) - 2).unwrap();
    assert!(sender.has_next());
    assert_eq!(sender.next_frame().0, (1 << 24) - 2);
    assert!(sender.has_next());
    assert_eq!(sender.next_frame().0, (1 << 24) - 1);
    assert!(!sender.has_next());
}

#[test]
fn receiver_refuses_a_transmission_info_that_is_malformed() {
    let sender = RaptorqSender::init(&vec![7u8; 5000], 0).unwrap();
    let info = sender.get_transmission_info();
    assert_eq!(info, [0, 0, 0, 0x13, 0x88, 0, 5, 160, 1, 0, 1, 8]);
    assert!(RaptorqReceiver::try_init(&info).is_some());

    // Symbols of no length.
    assert!(RaptorqReceiver::try_init(&[0u8; 12]).is_none());
    let mut bad = info;
    bad[6] = 0;
    bad[7] = 0;
    assert!(RaptorqReceiver::try_init(&bad).is_none());
    // An alignment of zero, and one that does not divide the symbol size.
    let mut bad = info;
    bad[11] = 0;
    assert!(RaptorqReceiver::try_init(&bad).is_none());
    let mut bad = info;
    bad[11] = 7;
    assert!(RaptorqReceiver::try_init(&bad).is_none());
    // No source block, no sub-block.
    let mut bad = info;
    bad[8] = 0;
    assert!(RaptorqReceiver::try_init(&bad).is_none());
    let mut bad = info;
    bad[10] = 0;
    assert!(RaptorqReceiver::try_init(&bad).is_none());
    // More symbols to a block than the code allows: 56404 symbols in one block.
    let length: u64 = 56403 * 1440 + 1;
    let mut bad = info;
    bad[..5].copy_from_slice(&length.to_be_bytes()[3..]);
    assert!(RaptorqReceiver::try_init(&bad).is_none());
    bad[8] = 2;
    assert!(RaptorqReceiver::try_init(&bad).is_some());
}

#[test]
fn receiver_takes_the_transmission_info_of_other_senders() {
    // What the defaults of the code give a chunk of 1 MiB: one block.
    let defaults =
        raptorq::ObjectTransmissionInformation::with_defaults(1024 * 1024, 1440).serialize();
    assert_eq!(defaults, [0, 0, 0x10, 0, 0, 0, 5, 160, 1, 0, 1, 8]);
    assert!(RaptorqReceiver::try_init(&defaults).is_some());
    // Other symbol sizes, alignments and sub-blocks.
    assert!(RaptorqReceiver::try_init(&[0, 0, 0, 0x13, 0x88, 0, 5, 168, 1, 0, 1, 8]).is_some());
    assert!(RaptorqReceiver::try_init(&[0, 0, 0, 0x13, 0x88, 0, 0, 64, 2, 0, 4, 4]).is_some());

    // A chunk of another sender decodes: symbols of 64 bytes, two blocks.
    let data: Vec<u8> = (0..5000u32).map(|i| (i % 251) as u8).collect();
    let config = raptorq::ObjectTransmissionInformation::new(5000, 64, 2, 1, 4);
    let encoder = raptorq::Encoder::new(&data, config);
    let mut receiver = RaptorqReceiver::try_init(&config.serialize()).unwrap();
    let mut restored = None;
    for (id, packet) in encoder.get_encoded_packets(0).iter().enumerate() {
        restored = receiver.update(id as u32, &packet.serialize());
        if restored.is_some() {
            break;
        }
    }
    assert_eq!(restored, Some(data));
}

#[test]
fn receiver_drops_frames_that_are_no_packet_and_still_counts_them() {
    let data = vec![9u8; 3000];
    let mut sender = RaptorqSender::init(&data, 0).unwrap();
    let mut receiver = RaptorqReceiver::try_init(&sender.get_transmission_info()).unwrap();
    assert_eq!(receiver.expected_frame_id(), 0);

    assert!(receiver.update(4, &[]).is_none());
    assert_eq!(receiver.expected_frame_id(), 5);
    assert!(receiver.update(2, &[0, 0, 0]).is_none());
    assert_eq!(receiver.expected_frame_id(), 5);
    assert!(receiver.update(u32::MAX, &[1u8; 1444]).is_none());
    assert_eq!(receiver.expected_frame_id(), u32::MAX);

    let mut restored = None;
    for _ in 0..10 {
        let (id, frame) = sender.next_frame();
        assert_eq!(frame.len(), 1444);
        restored = receiver.update(id, &frame);
        if restored.is_some() {
            break;
        }
    }
    assert_eq!(restored, Some(data));
}

#[test]
fn receiver_reads_a_transmission_info_but_for_its_reserved_byte() {
    let data: Vec<u8> = (0..4000u32).map(|i| (i % 241) as u8).collect();
    let mut sender = RaptorqSender::init(&data, 0).unwrap();
    let info = sender.get_transmission_info();
    assert_eq!(info[5], 0);
    let mut marked = info;
    marked[5] = 0xA5;
    let mut plain = RaptorqReceiver::try_init(&info).unwrap();
    let mut other = RaptorqReceiver::try_init(&marked).unwrap();
    let mut restored = None;
    for _ in 0..10 {
        let (id, frame) = sender.next_frame();
        restored = plain.update(id, &frame);
        assert_eq!(other.update(id, &frame), restored);
        if restored.is_some() {
            break;
        }
    }
    assert_eq!(restored, Some(data));
}

#[test]
fn receiver_leaves_out_the_symbol_that_the_tuple_generator_overflows_on() {
    // One block of 980 symbols of 8 bytes.
    let info = raptorq::ObjectTransmissionInformation::new(980 * 8, 8, 1, 1, 8).serialize();
    let mut receiver = RaptorqReceiver::try_init(&info).unwrap();
    let packet = |symbol: u32| -> Vec<u8> {
        let id = symbol.to_be_bytes();
        vec![0, id[1], id[2], id[3], 1, 2, 3, 4, 5, 6, 7, 8]
    };
    // All but one of the symbols that the block needs, repair symbols each.
    for i in 0..979u32 {
        assert!(receiver.update(i, &packet(980 + i)).is_none());
    }
    // With this one the decoder would have enough and set out to solve.
    assert!(receiver.update(979, &packet(3157240 + 980)).is_none());
    assert_eq!(receiver.expected_frame_id(), 980);

    // The other such symbol, of a block of 2153 to 2195 symbols.
    let info = raptorq::ObjectTransmissionInformation::new(2195 * 8, 8, 1, 1, 8).serialize();
    let mut receiver = RaptorqReceiver::try_init(&info).unwrap();
    for i in 0..2194u32 {
        assert!(receiver.update(i, &packet(2195 + i)).is_none());
    }
    assert!(receiver.update(2194, &packet(8190682 + 2195)).is_none());
}

#[test]
fn source_frames_hold_the_bytes_of_the_chunk() {
    // Three symbols in one block, the last one not full.
    let data: Vec<u8> = (0..3000u32).map(|i| (i % 239) as u8).collect();
    let mut sender = RaptorqSender::init(&data, 0).unwrap();
    assert_eq!(sender.get_transmission_info()[8], 1);
    let (id, frame) = sender.next_frame();
    assert_eq!(id, 0);
    assert_eq!(&frame[..4], &[0, 0, 0, 0]);
    assert_eq!(&frame[4..], &data[..1440]);
    let (_, frame) = sender.next_frame();
    assert_eq!(&frame[..4], &[0, 0, 0, 1]);
    assert_eq!(&frame[4..], &data[1440..2880]);
    let (_, frame) = sender.next_frame();
    assert_eq!(&frame[..4], &[0, 0, 0, 2]);
    assert_eq!(&frame[4..124], &data[2880..]);
    assert!(frame[124..].iter().all(|b| *b == 0));
    assert_eq!(frame.len(), 1444);

    // A hundred symbols in two blocks of fifty: the frames take the blocks in turn.
    let data: Vec<u8> = (0..144000u32).map(|i| (i % 233) as u8).collect();
    let mut sender = RaptorqSender::init(&data, 0).unwrap();
    assert_eq!(sender.get_transmission_info()[8], 2);
    let (_, frame) = sender.next_frame();
    assert_eq!(&frame[..4], &[0, 0, 0, 0]);
    assert_eq!(&frame[4..], &data[..1440]);
    let (_, frame) = sender.next_frame();
    assert_eq!(&frame[..4], &[1, 0, 0, 0]);
    assert_eq!(&frame[4..], &data[50 * 1440..51 * 1440]);
    let (id, frame) = sender.next_frame();
    assert_eq!(id, 2);
    assert_eq!(&frame[..4], &[0, 0, 0, 1]);
    assert_eq!(&frame[4..], &data[1440..2880]);

    // A hundred and ninety-three symbols in three blocks: 65, 64 and 64.
    let data: Vec<u8> = (0..193 * 1440u32).map(|i| (i % 229) as u8).collect();
    let mut sender = RaptorqSender::init(&data, 0).unwrap();
    assert_eq!(sender.get_transmission_info()[8], 3);
    let (_, _) = sender.next_frame();
    let (_, frame) = sender.next_frame();
    assert_eq!(&frame[..4], &[1, 0, 0, 0]);
    assert_eq!(&frame[4..], &data[65 * 1440..66 * 1440]);
    let (_, frame) = sender.next_frame();
    assert_eq!(&frame[..4], &[2, 0, 0, 0]);
    assert_eq!(&frame[4..], &data[129 * 1440..130 * 1440]);
}
