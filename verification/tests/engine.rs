use std::collections::{HashMap, VecDeque};

use bytes::Bytes;
use usync::engine::decoding::{decide, ChunkDecoder, DecoderPhase, DecoderStep};
use usync::engine::encoding::{ChunkEncoder, EncoderStep, DEFAULT_SENDING_INTERVAL};
use usync::engine::receiving::{route, ReceivingSocket, Reporter, DEFAULT_RATE_KBPS, REPORT_PERIOD};
use usync::engine::sending::{build_sending_order, sending_interval, SendingSocket};
use usync::engine::ReceivingChunkReport::{Finished, WantNext};
use usync::engine::{
    Bus, BusAddress, BusMessage, PeerAddr, ReceivingChunkReport, SendingOrder,
};
use usync::protocol::coding::raptorq_code::{RaptorqReceiver, RaptorqSender};
use usync::protocol::coding::FrameSender;
use usync::protocol::key_ring::KeyRing;
use usync::protocol::wire::encoding::{parse_packet, PacketExt};
use usync::protocol::wire::frames::{DataFrame, ParsedFrameVariant};
use usync::protocol::wire::packets::{DataPacket, TicketPacket};
use usync::util::chunk_map::ChunkMap;
use usync::util::generate_random;
use usync::util::Compare;

const PRIVATE_KEY: &str = "9d61b19deffd5a60ba844af492ec2cc44449c5697b326919703bac031cae7f60";
const PUBLIC_KEY: &str = "d75a980182b10ab7d54bfed3c964073a0ee172f3daa62325af021a68f707511a";

const CLIENT: PeerAddr = PeerAddr::V4(0x7f000001, 10001);

fn server_ring() -> KeyRing {
    KeyRing::new(vec![String::from(PUBLIC_KEY)], None)
}

fn client_ring() -> KeyRing {
    KeyRing::new(vec![], Some(String::from(PRIVATE_KEY)))
}

fn join(parts: Vec<Bytes>) -> Bytes {
    let mut whole = Vec::new();
    for part in parts.iter() {
        whole.extend_from_slice(part);
    }
    Bytes::from(whole)
}

fn requests_of_ticket(datagram: Bytes) -> (Option<u32>, HashMap<u32, (u32, u32)>) {
    let parsed = parse_packet::<12>(datagram, &server_ring()).unwrap();
    let mut rate = None;
    let mut requests = HashMap::new();
    for frame in parsed.frames {
        match frame {
            ParsedFrameVariant::RateLimit(limit) => rate = Some(limit.desired_max_kbps),
            ParsedFrameVariant::GetChunk(request) => {
                let before = requests.insert(
                    request.chunk_id,
                    (request.next_receive_offset, request.receive_window_frames),
                );
                assert!(before.is_none());
            }
            _ => unreachable!(),
        }
    }
    (rate, requests)
}

#[test]
fn report_ordering() {
    let mut reporter = Reporter::new();
    assert!(reporter.is_empty());
    reporter.update(1, WantNext(5));
    reporter.update(1, Finished(3));
    reporter.update(1, WantNext(10));
    assert!(!reporter.is_empty());
    let ticket = reporter.generate(7, &client_ring());
    let (rate, requests) = requests_of_ticket(join(ticket.build(&client_ring(), 0)));
    assert_eq!(rate, Some(7));
    // Finished(3): the offset 3 and a window of zero.
    assert_eq!(requests, HashMap::from([(1, (3, 0))]));
}

#[test]
fn reports_are_ordered_by_kind_and_then_by_offset() {
    let ordered = [WantNext(0), WantNext(7), WantNext(u32::MAX), Finished(0), Finished(9)];
    for (i, a) in ordered.iter().enumerate() {
        for (j, b) in ordered.iter().enumerate() {
            assert_eq!(a.precedes(b), i < j);
            assert_eq!(a < b, i < j);
            let mut max = *a;
            max.cmax(*b);
            assert_eq!(max, ordered[i.max(j)]);
            let mut min = *a;
            min.cmin(*b);
            assert_eq!(min, ordered[i.min(j)]);
        }
    }
    assert!(Finished(0).is_finished());
    assert!(!WantNext(9).is_finished());
}

#[test]
fn reporter_keeps_the_latest_report_of_each_chunk() {
    let updates = [
        (4, WantNext(100)),
        (2, WantNext(50000)),
        (4, WantNext(90)),
        (9, Finished(12)),
        (2, WantNext(50001)),
        (9, WantNext(4000)),
        (7, WantNext(0)),
    ];
    let mut reporter = Reporter::new();
    for (chunk, report) in updates {
        reporter.update(chunk, report);
    }
    let ticket = reporter.generate(DEFAULT_RATE_KBPS, &client_ring());
    let (rate, requests) = requests_of_ticket(join(ticket.build(&client_ring(), 0)));
    assert_eq!(rate, Some(40960));
    // The window is a fifth of the offset, and 8192 at the least.
    assert_eq!(
        requests,
        HashMap::from([
            (4, (100, 8192)),
            (2, (50001, 10000)),
            (9, (12, 0)),
            (7, (0, 8192)),
        ])
    );
}

#[test]
fn finished_chunks_are_named_in_the_tickets_of_three_ticks() {
    let ring = client_ring();
    let mut reporter = Reporter::new();
    reporter.update(1, Finished(30));
    reporter.update(2, WantNext(40));
    let mut named = vec![];
    for tick in 0..5 {
        if tick == 1 {
            reporter.update(3, Finished(50));
        }
        assert_eq!(reporter.is_empty(), false);
        let ticket = reporter.generate(1, &ring);
        let (_, requests) = requests_of_ticket(join(ticket.build(&ring, tick)));
        let mut chunks: Vec<u32> = requests.keys().copied().collect();
        chunks.sort();
        named.push(chunks);
        assert_eq!(requests[&2], (40, 8192));
    }
    assert_eq!(
        named,
        vec![vec![1, 2], vec![1, 2, 3], vec![1, 2, 3], vec![2, 3], vec![2]]
    );
}

#[test]
fn a_report_that_comes_after_finished_does_not_reopen_the_chunk_in_the_ticket() {
    let ring = client_ring();
    let mut reporter = Reporter::new();
    reporter.update(1, Finished(30));
    let _ = reporter.generate(1, &ring);
    // The chunk is exiting; a late report makes it active again.
    reporter.update(1, WantNext(10));
    let ticket = reporter.generate(1, &ring);
    let (_, requests) = requests_of_ticket(join(ticket.build(&ring, 0)));
    // The exiting generation comes after the active reports and shadows them.
    assert_eq!(requests, HashMap::from([(1, (30, 0))]));
    // Once the generation is gone the active report shows.
    let _ = reporter.generate(1, &ring);
    let ticket = reporter.generate(1, &ring);
    let (_, requests) = requests_of_ticket(join(ticket.build(&ring, 0)));
    assert_eq!(requests, HashMap::from([(1, (10, 8192))]));
}

#[test]
fn reporter_empties_once_its_finished_chunks_are_gone() {
    let ring = client_ring();
    let mut reporter = Reporter::new();
    reporter.update(1, ReceivingChunkReport::Finished(30));
    for _ in 0..3 {
        assert!(!reporter.is_empty());
        let _ = reporter.generate(1, &ring);
    }
    assert!(!reporter.is_empty());
    let _ = reporter.generate(1, &ring);
    assert!(reporter.is_empty());
}

#[test]
fn chunk_map_is_a_map() {
    let mut map: ChunkMap<&str> = ChunkMap::new();
    assert!(map.is_empty());
    assert_eq!(map.get(3), None);
    map.insert(3, "three");
    map.insert(1, "one");
    map.insert(3, "drei");
    assert_eq!(map.len(), 2);
    assert_eq!(map.get(3), Some(&"drei"));
    assert_eq!(map.get(1), Some(&"one"));
    assert_eq!((map.key_at(0), *map.value_at(0)), (3, "drei"));
    assert_eq!((map.key_at(1), *map.value_at(1)), (1, "one"));
    assert_eq!(map.remove(3), Some("drei"));
    assert_eq!(map.remove(3), None);
    assert_eq!(map.len(), 1);
    assert_eq!(map.get(1), Some(&"one"));
    assert!(!map.is_empty());
}

#[test]
fn bus_delivers_in_order_to_the_address_registered() {
    let mut bus: Bus<u32> = Bus::new();
    assert_eq!(bus.peers(), 0);
    let decoder = BusAddress::FrameDecoder(7);
    let encoder = BusAddress::FrameEncoder(7, CLIENT);
    assert_eq!(bus.send(decoder, 1), Err(1));
    assert_eq!(bus.recv(decoder), None);
    assert_eq!(bus.unread(decoder), None);

    bus.register(decoder);
    bus.register(encoder);
    assert_eq!(bus.peers(), 2);
    assert_eq!(bus.unread(decoder), Some(0));
    assert_eq!(bus.recv(decoder), None);
    for message in [1, 2, 3] {
        assert_eq!(bus.send(decoder, message), Ok(()));
    }
    assert_eq!(bus.send(encoder, 9), Ok(()));
    assert_eq!(bus.unread(decoder), Some(3));
    assert_eq!(bus.recv(decoder), Some(1));
    assert_eq!(bus.recv(decoder), Some(2));
    assert_eq!(bus.send(decoder, 4), Ok(()));
    assert_eq!(bus.recv(decoder), Some(3));
    assert_eq!(bus.recv(decoder), Some(4));
    assert_eq!(bus.recv(decoder), None);
    assert_eq!(bus.recv(encoder), Some(9));

    // Another peer's encoder of the same chunk is another address.
    let other = BusAddress::FrameEncoder(7, PeerAddr::V4(0x7f000001, 10002));
    assert_eq!(bus.send(other, 5), Err(5));

    // Registering again starts the queue afresh; unregistering drops it.
    assert_eq!(bus.send(decoder, 6), Ok(()));
    bus.register(decoder);
    assert_eq!(bus.recv(decoder), None);
    assert_eq!(bus.send(decoder, 7), Ok(()));
    bus.unregister(decoder);
    assert_eq!(bus.send(decoder, 8), Err(8));
    assert_eq!(bus.peers(), 1);
    bus.unregister(decoder);
    assert_eq!(bus.peers(), 1);
}

#[test]
fn bus_messages_narrow_to_their_own_kind_only() {
    let order = SendingOrder {
        chunk_id: 1,
        sending_interval: None,
        time_stamp: 0,
        offset_next: 0,
        offset_no_more_than: 10,
        close_now: false,
    };
    let message: BusMessage<12> = BusMessage::SendingOrder(order);
    assert_eq!(message.into_sending_order(), Some(order));
    let message: BusMessage<12> = BusMessage::SendingOrder(order);
    assert!(message.into_report().is_none());
    let report = (3, ReceivingChunkReport::WantNext(4));
    let message: BusMessage<12> = BusMessage::ReceivingChunkReport(report);
    assert_eq!(message.into_report(), Some(report));
    let message: BusMessage<12> = BusMessage::ReceivingChunkReport(report);
    assert!(message.into_sending_order().is_none());
    let frame = DataFrame::new(1, 2, [3u8; 12], Bytes::from("abc"));
    let message: BusMessage<12> = BusMessage::SendingData((CLIENT, frame));
    assert!(message.into_receiving_data().is_none());
    let frame = DataFrame::new(1, 2, [3u8; 12], Bytes::from("abc"));
    let message: BusMessage<12> = BusMessage::SendingData((CLIENT, frame));
    let (peer, _) = message.into_sending_data().unwrap();
    assert_eq!(peer, CLIENT);
}

#[test]
fn rate_limit_sets_the_interval_of_one_datagram() {
    assert_eq!(sending_interval(0), None);
    // 1510 bytes at 8 ms each, in nanoseconds, by the rate.
    assert_eq!(sending_interval(1), Some(12_080_000_000));
    assert_eq!(sending_interval(40960), Some(294_921));
    assert_eq!(sending_interval(80_000), Some(151_000));
    assert_eq!(sending_interval(u32::MAX), Some(2));
}

fn ticket_datagram(ticket: TicketPacket) -> Bytes {
    join(ticket.build(&client_ring(), 0))
}

#[test]
fn ticket_makes_one_order_for_each_chunk() {
    let ring = client_ring();
    let socket: SendingSocket<12> = SendingSocket::new();
    let ticket = TicketPacket::new(&ring)
        .set_get_chunk(1, 5, 0)
        .set_rate_limit(40960)
        .set_get_chunk(2, 7, 8192)
        .set_get_chunk(3, u32::MAX, u32::MAX);
    let orders = socket.on_datagram(ticket_datagram(ticket), CLIENT, &server_ring(), 77);
    assert_eq!(
        orders,
        vec![
            (
                BusAddress::FrameEncoder(1, CLIENT),
                SendingOrder {
                    chunk_id: 1,
                    sending_interval: Some(294_921),
                    time_stamp: 77,
                    offset_next: 5,
                    offset_no_more_than: 5,
                    close_now: true,
                }
            ),
            (
                BusAddress::FrameEncoder(2, CLIENT),
                SendingOrder {
                    chunk_id: 2,
                    sending_interval: Some(294_921),
                    time_stamp: 77,
                    offset_next: 7,
                    offset_no_more_than: 8199,
                    close_now: false,
                }
            ),
            (
                BusAddress::FrameEncoder(3, CLIENT),
                SendingOrder {
                    chunk_id: 3,
                    sending_interval: Some(294_921),
                    time_stamp: 77,
                    offset_next: u32::MAX,
                    offset_no_more_than: 2 * (u32::MAX as u64),
                    close_now: false,
                }
            ),
        ]
    );
    assert!(!socket.starts_encoder(&orders[0].1));
    assert!(socket.starts_encoder(&orders[1].1));
    for (_, order) in orders.iter() {
        assert!(order.is_well_formed());
    }
}

#[test]
fn ticket_without_rate_limit_makes_orders_without_interval() {
    let ring = client_ring();
    let ticket = TicketPacket::new(&ring).set_get_chunk(2, 7, 10);
    let parsed = parse_packet::<12>(ticket_datagram(ticket), &server_ring()).unwrap();
    let orders = build_sending_order(&parsed, 5).unwrap();
    assert_eq!(orders.len(), 1);
    assert_eq!(orders.get(2).unwrap().sending_interval, None);
    assert_eq!(orders.get(2).unwrap().offset_no_more_than, 17);
}

/// The datagram of a ticket whose frames are laid out by hand.
fn ticket_of_frames(frames: &[u8]) -> Bytes {
    let ring = client_ring();
    let mut prefix = vec![1, 0x41, 0, 50, 0, frames.len() as u8, 0, 0, 0, 0];
    prefix.extend_from_slice(&ring.derive_public_key().unwrap());
    prefix.extend_from_slice(&[0, 0, 0, 0, 0, 0, 0, 9]);
    prefix.extend_from_slice(frames);
    let tail = ring.sign(
        usync::protocol::wire::verify::PacketVerifyType::Ed25519,
        &vec![Bytes::from(prefix.clone())],
    );
    prefix.extend_from_slice(&tail);
    Bytes::from(prefix)
}

#[test]
fn every_order_of_a_ticket_names_the_interval_of_its_rate_limit() {
    let socket: SendingSocket<12> = SendingSocket::new();
    // A request, the rate limit of 80000 kbps, another request.
    let frames = [
        2, 0, 15, 0, 0, 0, 1, 0, 0, 0, 0, 0, 0, 0, 10, // chunk 1 from 0, window 10
        3, 0, 7, 0, 1, 0x38, 0x80, // 80000 kbps
        2, 0, 15, 0, 0, 0, 2, 0, 0, 0, 5, 0, 0, 0, 20, // chunk 2 from 5, window 20
    ];
    let orders = socket.on_datagram(ticket_of_frames(&frames), CLIENT, &server_ring(), 3);
    assert_eq!(orders.len(), 2);
    for (_, order) in orders.iter() {
        assert_eq!(order.sending_interval, Some(151_000));
    }
    assert_eq!(orders[0].1.chunk_id, 1);
    assert_eq!(orders[1].1.offset_no_more_than, 25);

    // Of two rate limits the last one counts; without one there is no interval.
    let frames = [
        3, 0, 7, 0, 0, 0, 1, // 1 kbps
        2, 0, 15, 0, 0, 0, 1, 0, 0, 0, 0, 0, 0, 0, 10,
        3, 0, 7, 0, 0, 0xa0, 0, // 40960 kbps
    ];
    let orders = socket.on_datagram(ticket_of_frames(&frames), CLIENT, &server_ring(), 3);
    assert_eq!(orders[0].1.sending_interval, Some(294_921));
    let frames = [2, 0, 15, 0, 0, 0, 1, 0, 0, 0, 0, 0, 0, 0, 10];
    let orders = socket.on_datagram(ticket_of_frames(&frames), CLIENT, &server_ring(), 3);
    assert_eq!(orders[0].1.sending_interval, None);
}

#[test]
fn sender_socket_takes_tickets_only() {
    let socket: SendingSocket<12> = SendingSocket::new();
    let data = join(DataPacket::new(1, 2, [0u8; 12], vec![1, 2, 3]).build(&server_ring(), 0));
    assert!(socket
        .on_datagram(data.clone(), CLIENT, &server_ring(), 0)
        .is_empty());
    let parsed = parse_packet::<12>(data, &server_ring()).unwrap();
    assert!(build_sending_order(&parsed, 0).is_none());
    // A ticket of a signer that is not authorized.
    let ticket = TicketPacket::new(&client_ring()).set_get_chunk(1, 2, 3);
    assert!(socket
        .on_datagram(ticket_datagram(ticket), CLIENT, &KeyRing::empty(), 0)
        .is_empty());
    // Noise.
    assert!(socket
        .on_datagram(Bytes::from("noise"), CLIENT, &server_ring(), 0)
        .is_empty());
}

#[test]
fn sender_socket_wraps_a_data_frame_in_a_data_packet() {
    let socket: SendingSocket<12> = SendingSocket::new();
    let frame = DataFrame::new(5, 6, [7u8; 12], Bytes::from(vec![8u8; 1444]));
    let datagram = join(socket.on_frame(frame, &server_ring(), 9).unwrap());
    assert_eq!(datagram.len(), 1485);
    let parsed = parse_packet::<12>(datagram, &client_ring()).unwrap();
    match &parsed.frames[0] {
        ParsedFrameVariant::Data(frame) => {
            assert_eq!((frame.chunk_id, frame.frame_offset), (5, 6));
            assert_eq!(frame.transmission_info, [7u8; 12]);
            assert_eq!(frame.data, vec![8u8; 1444]);
        }
        _ => unreachable!(),
    }
    let frame = DataFrame::new(5, 6, [7u8; 12], Bytes::from(vec![8u8; 1450]));
    assert!(socket.on_frame(frame, &server_ring(), 9).is_none());
}

#[test]
fn receiver_socket_routes_data_frames_to_their_decoders() {
    let socket: ReceivingSocket<12> = ReceivingSocket::new(DEFAULT_RATE_KBPS);
    let data = join(DataPacket::new(11, 2, [0u8; 12], vec![1, 2, 3]).build(&server_ring(), 0));
    let routes = socket.on_datagram(data.clone(), &client_ring());
    assert_eq!(routes.len(), 1);
    assert_eq!(routes[0].0, BusAddress::FrameDecoder(11));
    match &routes[0].1 {
        BusMessage::ReceivingData(frame) => {
            assert_eq!(frame.frame_offset, 2);
            assert_eq!(frame.data, vec![1, 2, 3]);
        }
        _ => unreachable!(),
    }
    let parsed = parse_packet::<12>(data, &client_ring()).unwrap();
    assert_eq!(route(parsed).len(), 1);
    // A ticket holds no data frame; noise is dropped.
    let ticket = TicketPacket::new(&client_ring()).set_get_chunk(1, 2, 3);
    let both = KeyRing::new(vec![String::from(PUBLIC_KEY)], Some(String::from(PRIVATE_KEY)));
    assert!(socket.on_datagram(ticket_datagram(ticket), &both).is_empty());
    assert!(socket.on_datagram(Bytes::from("noise"), &both).is_empty());
}

/// The one datagram of a tick.
fn one(mut datagrams: Vec<Vec<Bytes>>) -> Bytes {
    assert_eq!(datagrams.len(), 1);
    join(datagrams.remove(0))
}

#[test]
fn receiver_socket_sends_a_ticket_each_tick_while_it_has_something_to_say() {
    let ring = client_ring();
    let mut socket: ReceivingSocket<12> = ReceivingSocket::new(DEFAULT_RATE_KBPS);
    assert!(socket.on_tick(&ring, 0).is_empty());
    socket.on_report(5, ReceivingChunkReport::WantNext(0));
    socket.on_report(5, ReceivingChunkReport::WantNext(50_000));
    let (rate, requests) = requests_of_ticket(one(socket.on_tick(&ring, 1)));
    assert_eq!(rate, Some(40960));
    assert_eq!(requests, HashMap::from([(5, (50_000, 10_000))]));
    socket.on_report(5, ReceivingChunkReport::Finished(60_000));
    for _ in 0..3 {
        let (_, requests) = requests_of_ticket(one(socket.on_tick(&ring, 2)));
        assert_eq!(requests, HashMap::from([(5, (60_000, 0))]));
    }
    // The last generation leaves at the fourth tick, whose ticket names nothing.
    let (_, requests) = requests_of_ticket(one(socket.on_tick(&ring, 3)));
    assert!(requests.is_empty());
    assert!(socket.on_tick(&ring, 4).is_empty());
}

#[test]
fn receiver_socket_cuts_a_ticket_that_does_not_fit_the_mtu() {
    let ring = client_ring();
    let mut socket: ReceivingSocket<12> = ReceivingSocket::new(1);
    for chunk in 0..91 {
        socket.on_report(chunk, ReceivingChunkReport::WantNext(chunk));
    }
    assert_eq!(one(socket.on_tick(&ring, 0)).len(), 1486);

    // 200 chunks take three tickets, of 91, 91 and 18 requests.
    for chunk in 91..200 {
        socket.on_report(chunk, ReceivingChunkReport::WantNext(chunk));
    }
    let datagrams = socket.on_tick(&ring, u32::MAX);
    assert_eq!(datagrams.len(), 3);
    let mut all = HashMap::new();
    let mut sizes = vec![];
    for (k, datagram) in datagrams.into_iter().enumerate() {
        let datagram = join(datagram);
        assert!(datagram.len() <= 1490);
        // The packet ids count on from the first one and wrap.
        let id = u32::from_be_bytes([datagram[6], datagram[7], datagram[8], datagram[9]]);
        assert_eq!(id, u32::MAX.wrapping_add(k as u32));
        let (rate, requests) = requests_of_ticket(datagram);
        assert_eq!(rate, Some(1));
        sizes.push(requests.len());
        for (chunk, request) in requests {
            assert!(all.insert(chunk, request).is_none());
        }
    }
    assert_eq!(sizes, vec![91, 91, 18]);
    assert_eq!(all.len(), 200);
    for chunk in 0..200u32 {
        assert_eq!(all[&chunk], (chunk, 8192));
    }
}

#[test]
fn ticket_splits_into_runs_of_its_requests() {
    let ring = client_ring();
    let mut ticket = TicketPacket::new(&ring).set_rate_limit(9);
    assert_eq!(ticket.split().len(), 1);
    let mut ticket_of_many = TicketPacket::new(&ring);
    for chunk in 0..182 {
        ticket_of_many = ticket_of_many.set_get_chunk(chunk, 1, 2);
    }
    let parts = ticket_of_many.split();
    assert_eq!(parts.len(), 2);
    for part in parts.iter() {
        assert!(part.fits_mtu());
    }
    ticket = TicketPacket::new(&ring).set_get_chunk(3, 4, 5);
    let parts = ticket.split();
    assert_eq!(parts.len(), 1);
    let (rate, requests) = requests_of_ticket(join(
        parts.into_iter().next().unwrap().build(&ring, 0),
    ));
    assert_eq!(rate, None);
    assert_eq!(requests, HashMap::from([(3, (4, 5))]));
}

fn frames_of(chunk_id: u32, data: &[u8], from: u32, count: usize) -> Vec<Bytes> {
    let socket: SendingSocket<12> = SendingSocket::new();
    let mut sender = RaptorqSender::init(data, from).unwrap();
    let info = sender.get_transmission_info();
    (0..count)
        .map(|_| {
            let (offset, frame) = sender.next_frame();
            let frame = DataFrame::new(chunk_id, offset, info, Bytes::from(frame));
            join(socket.on_frame(frame, &server_ring(), 0).unwrap())
        })
        .collect()
}

fn data_frame_of(datagram: Bytes) -> usync::protocol::wire::frames::ParsedDataFrame<12> {
    let parsed = parse_packet::<12>(datagram, &client_ring()).unwrap();
    match parsed.frames.into_iter().next().unwrap() {
        ParsedFrameVariant::Data(frame) => frame,
        _ => unreachable!(),
    }
}


#[test]
fn decoder_actor_goes_from_the_first_frame_to_the_whole_chunk() {
    let data = generate_random(10_000);
    let mut actor: ChunkDecoder<RaptorqReceiver, 12> = ChunkDecoder::new(21);
    assert_eq!(actor.address(), BusAddress::FrameDecoder(21));
    assert_eq!(actor.phase(), DecoderPhase::AwaitingFirstFrame);
    assert_eq!(actor.first_report(), (21, ReceivingChunkReport::WantNext(0)));

    let mut reports = vec![];
    let mut restored = None;
    // Seven symbols make the chunk; the second is lost.
    for (i, datagram) in frames_of(21, &data, 0, 20).into_iter().enumerate() {
        if i == 1 {
            continue;
        }
        match actor.on_frame(&data_frame_of(datagram)) {
            DecoderStep::Continue(report) => {
                assert_eq!(actor.phase(), DecoderPhase::Decoding);
                reports.push(report);
            }
            DecoderStep::Completed { report, data } => {
                assert_eq!(actor.phase(), DecoderPhase::Completed);
                reports.push(report);
                restored = Some(data);
                break;
            }
            _ => unreachable!(),
        }
    }
    assert_eq!(restored.unwrap(), data);
    // After each frame the next id wanted; at last finished.
    assert_eq!(reports[0], ReceivingChunkReport::WantNext(1));
    assert_eq!(reports[1], ReceivingChunkReport::WantNext(3));
    let last = reports.len() - 1;
    for (i, report) in reports.iter().enumerate().skip(1).take(last - 1) {
        assert_eq!(*report, ReceivingChunkReport::WantNext(i as u32 + 2));
    }
    assert_eq!(
        reports[last],
        ReceivingChunkReport::Finished(last as u32 + 2)
    );
    // The actor has ended.
    let again = frames_of(21, &data, 0, 1).remove(0);
    assert!(matches!(actor.on_frame(&data_frame_of(again)), DecoderStep::Closed));
    assert_eq!(actor.phase(), DecoderPhase::Completed);
}

#[test]
fn decoder_actor_that_completes_on_its_first_frame_reports_it_finished() {
    let data = vec![5u8; 100];
    let mut actor: ChunkDecoder<RaptorqReceiver, 12> = ChunkDecoder::new(1);
    let datagram = frames_of(1, &data, 0, 1).remove(0);
    match actor.on_frame(&data_frame_of(datagram)) {
        DecoderStep::Completed { report, data: restored } => {
            assert_eq!(report, ReceivingChunkReport::Finished(1));
            assert_eq!(restored, data);
        }
        _ => unreachable!(),
    }
    assert_eq!(actor.phase(), DecoderPhase::Completed);
}

#[test]
fn decoder_actor_fails_on_a_transmission_info_out_of_order() {
    let socket: SendingSocket<12> = SendingSocket::new();
    let frame = DataFrame::new(1, 0, [0u8; 12], Bytes::from(vec![0u8; 1444]));
    let datagram = join(socket.on_frame(frame, &server_ring(), 0).unwrap());
    let mut actor: ChunkDecoder<RaptorqReceiver, 12> = ChunkDecoder::new(1);
    assert!(matches!(
        actor.on_frame(&data_frame_of(datagram.clone())),
        DecoderStep::Failed
    ));
    assert_eq!(actor.phase(), DecoderPhase::Failed);
    assert!(matches!(
        actor.on_frame(&data_frame_of(datagram)),
        DecoderStep::Closed
    ));
}

#[test]
fn decide_reports_after_every_frame() {
    assert!(matches!(
        decide(None, 5),
        DecoderStep::Continue(ReceivingChunkReport::WantNext(5))
    ));
    match decide(Some(vec![2]), 6) {
        DecoderStep::Completed { report, data } => {
            assert_eq!(report, ReceivingChunkReport::Finished(6));
            assert_eq!(data, vec![2]);
        }
        _ => unreachable!(),
    }
}

fn order(chunk_id: u32, interval: Option<u64>, next: u32, window: u32) -> SendingOrder {
    SendingOrder {
        chunk_id,
        sending_interval: interval,
        time_stamp: 0,
        offset_next: next,
        offset_no_more_than: next as u64 + window as u64,
        close_now: window == 0,
    }
}

fn offsets(step: EncoderStep<12>) -> Vec<u32> {
    match step {
        EncoderStep::Emit(frames) => {
            let socket: SendingSocket<12> = SendingSocket::new();
            frames
                .into_iter()
                .map(|frame| {
                    let datagram = join(socket.on_frame(frame, &server_ring(), 0).unwrap());
                    data_frame_of(datagram).frame_offset
                })
                .collect()
        }
        _ => unreachable!(),
    }
}

#[test]
fn encoder_actor_paces_its_symbols_and_keeps_under_the_ceiling() {
    let data = generate_random(20_000);
    let start = order(3, Some(1000), 4, 6);
    let mut actor: ChunkEncoder<RaptorqSender, 12> =
        ChunkEncoder::new(&data, &start, CLIENT, 0).unwrap();
    assert_eq!(actor.address(), BusAddress::FrameEncoder(3, CLIENT));
    assert_eq!(actor.peer(), CLIENT);
    assert!(!actor.is_closed());

    // Nothing is due at the start.
    assert!(matches!(actor.on_tick(0), EncoderStep::Wait { wake_at: 1000 }));
    // One interval, one symbol, from the offset of the order on.
    assert_eq!(offsets(actor.on_tick(1000)), vec![4]);
    // Three intervals, three symbols.
    assert_eq!(offsets(actor.on_tick(4000)), vec![5, 6, 7]);
    // The ceiling is the offset plus what the order names, 4 + 10: a burst ends
    // after the symbol that reaches it.
    assert_eq!(offsets(actor.on_tick(100_000)), vec![8, 9, 10, 11, 12, 13, 14]);
    assert_eq!(offsets(actor.on_tick(200_000)), Vec::<u32>::new());
    // An order raises the ceiling and sets the rate.
    assert!(!actor.on_order(&order(3, Some(10), 15, 2), 200_000));
    assert_eq!(offsets(actor.on_tick(200_010)), vec![15]);
    assert_eq!(offsets(actor.on_tick(200_030)), vec![16, 17]);
    assert_eq!(offsets(actor.on_tick(200_090)), Vec::<u32>::new());
    // A lower ceiling does not lower it.
    assert!(!actor.on_order(&order(3, None, 0, 5), 200_100));
    assert_eq!(offsets(actor.on_tick(200_200)), Vec::<u32>::new());
    // An order to close closes.
    assert!(actor.on_order(&order(3, None, 100, 0), 200_300));
    assert!(actor.is_closed());
    assert!(matches!(actor.on_tick(200_400), EncoderStep::Close));
    assert!(actor.on_order(&order(3, None, 100, 50), 200_500));
}

#[test]
fn encoder_actor_without_orders_sleeps_and_closes() {
    let data = generate_random(2_000);
    let start = order(3, None, 0, 1_000_000);
    let mut actor: ChunkEncoder<RaptorqSender, 12> =
        ChunkEncoder::new(&data, &start, CLIENT, 0).unwrap();
    // The default interval is 20 ms.
    assert!(matches!(
        actor.on_tick(0),
        EncoderStep::Wait {
            wake_at: DEFAULT_SENDING_INTERVAL
        }
    ));
    assert_eq!(offsets(actor.on_tick(9_999_999_999)).len(), 8);
    assert!(matches!(
        actor.on_tick(10_000_000_000),
        EncoderStep::Wait {
            wake_at: 20_000_000_000
        }
    ));
    assert!(!actor.is_closed());
    assert!(matches!(actor.on_tick(20_000_000_000), EncoderStep::Close));
    assert!(actor.is_closed());
}

#[test]
fn encoder_actor_ends_when_the_sender_socket_is_gone() {
    let data = generate_random(2_000);
    let start = order(3, None, 0, 10);
    let mut actor: ChunkEncoder<RaptorqSender, 12> =
        ChunkEncoder::new(&data, &start, CLIENT, 0).unwrap();
    actor.on_send_failure();
    assert!(actor.is_closed());
    assert!(matches!(actor.on_tick(1_000_000_000), EncoderStep::Close));
}

#[test]
fn encoder_actor_is_not_made_for_what_the_code_cannot_encode() {
    let start = order(3, None, 0, 10);
    assert!(ChunkEncoder::<RaptorqSender, 12>::new(&[], &start, CLIENT, 0).is_none());
}

/// A transfer over a loopback: the sender socket with its encoders on one side,
/// the receiver socket with its decoders on the other, a clock that jumps from
/// event to event, and a network that loses one datagram in `lose_one_in` on the
/// way to the receiver.
fn transfer(chunks: &[Vec<u8>], concurrency: usize, lose_one_in: u32) -> Vec<Vec<u8>> {
    let server_keys = server_ring();
    let client_keys = client_ring();
    let sender: SendingSocket<12> = SendingSocket::new();
    let mut receiver: ReceivingSocket<12> = ReceivingSocket::new(DEFAULT_RATE_KBPS);
    let mut encoders: HashMap<u32, ChunkEncoder<RaptorqSender, 12>> = HashMap::new();
    let mut wake: HashMap<u32, u64> = HashMap::new();
    let mut decoders: HashMap<u32, ChunkDecoder<RaptorqReceiver, 12>> = HashMap::new();
    let mut waiting: VecDeque<u32> = (0..chunks.len() as u32).collect();
    let mut restored: Vec<Option<Vec<u8>>> = vec![None; chunks.len()];
    let mut done = 0;
    let mut now = 0u64;
    let mut next_ticket = 0u64;
    let mut packet_id = 0u32;
    let mut datagrams = 0u32;

    while done < chunks.len() {
        assert!(now < 600_000_000_000, "the transfer does not end");
        while decoders.len() < concurrency && !waiting.is_empty() {
            let chunk_id = waiting.pop_front().unwrap();
            let actor = ChunkDecoder::new(chunk_id);
            let (chunk, report) = actor.first_report();
            receiver.on_report(chunk, report);
            decoders.insert(chunk_id, actor);
        }
        if now >= next_ticket {
            next_ticket = now + REPORT_PERIOD;
            for ticket in receiver.on_tick(&client_keys, packet_id) {
                packet_id += 1;
                for (address, order) in sender.on_datagram(join(ticket), CLIENT, &server_keys, now)
                {
                    assert_eq!(address, BusAddress::FrameEncoder(order.chunk_id, CLIENT));
                    match encoders.get_mut(&order.chunk_id) {
                        Some(actor) => {
                            if actor.on_order(&order, now) {
                                encoders.remove(&order.chunk_id);
                                wake.remove(&order.chunk_id);
                            } else {
                                wake.insert(order.chunk_id, now);
                            }
                        }
                        None => {
                            if sender.starts_encoder(&order) {
                                let data = &chunks[order.chunk_id as usize];
                                let actor = ChunkEncoder::new(data, &order, CLIENT, now).unwrap();
                                encoders.insert(order.chunk_id, actor);
                                wake.insert(order.chunk_id, now);
                            }
                        }
                    }
                }
            }
        }
        let due: Vec<u32> = wake
            .iter()
            .filter(|(_, at)| **at <= now)
            .map(|(chunk, _)| *chunk)
            .collect();
        for chunk_id in due {
            let actor = encoders.get_mut(&chunk_id).unwrap();
            match actor.on_tick(now) {
                EncoderStep::Emit(frames) => {
                    for frame in frames {
                        let datagram = join(sender.on_frame(frame, &server_keys, packet_id).unwrap());
                        packet_id += 1;
                        datagrams += 1;
                        if lose_one_in != 0 && datagrams % lose_one_in == 0 {
                            continue;
                        }
                        for (address, message) in receiver.on_datagram(datagram, &client_keys) {
                            let BusAddress::FrameDecoder(chunk) = address else {
                                unreachable!()
                            };
                            let Some(decoder) = decoders.get_mut(&chunk) else {
                                continue;
                            };
                            let frame = message.into_receiving_data().unwrap();
                            match decoder.on_frame(&frame) {
                                DecoderStep::Continue(report) => {
                                    receiver.on_report(chunk, report);
                                }
                                DecoderStep::Completed { report, data } => {
                                    receiver.on_report(chunk, report);
                                    restored[chunk as usize] = Some(data);
                                    decoders.remove(&chunk);
                                    done += 1;
                                }
                                _ => unreachable!(),
                            }
                        }
                    }
                }
                EncoderStep::Wait { wake_at } => {
                    wake.insert(chunk_id, wake_at);
                }
                EncoderStep::Close => {
                    encoders.remove(&chunk_id);
                    wake.remove(&chunk_id);
                }
            }
        }
        let next_wake = wake.values().copied().filter(|at| *at > now).min();
        let pending = wake.values().any(|at| *at <= now);
        if !pending {
            now = match next_wake {
                Some(at) => at.min(next_ticket),
                None => next_ticket,
            };
        }
    }
    restored.into_iter().map(|chunk| chunk.unwrap()).collect()
}

#[test]
fn end_to_end_decode_with_a_fifth_of_the_symbols_lost() {
    let chunk = generate_random(1024 * 1024);
    let restored = transfer(&[chunk.clone()], 1, 5);
    assert_eq!(blake3::hash(&restored[0]), blake3::hash(&chunk));
}

#[test]
fn local_transfer() {
    const CONCURRENCY: usize = 10;
    const CHUNKS: usize = 20;
    const CHUNK_SIZE: usize = 1048576;
    let data = generate_random(CHUNK_SIZE);
    let expected_hash = blake3::hash(&data);
    let chunks: Vec<Vec<u8>> = (0..CHUNKS).map(|_| data.clone()).collect();
    let restored = transfer(&chunks, CONCURRENCY, 0);
    assert_eq!(restored.len(), CHUNKS);
    for chunk in restored {
        assert_eq!(chunk.len(), CHUNK_SIZE);
        assert_eq!(blake3::hash(&chunk), expected_hash);
    }
}
