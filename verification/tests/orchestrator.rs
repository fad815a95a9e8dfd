use echonet::error::{FrameError, TransportError};
use echonet::orchestrator::{
    multicast_group, on_datagram, react, Action, Destination, Event, Outbound,
    DISCOVERY_DELAY_SECS, ECHONET_LITE_PORT,
};
use echonet::packet::{ElU16, ElU8, Packet, Prop, EDT, EOJ, ESV};
use echonet::response::{DiscoveryResponse, SyncResponse, SVI};

fn eoj(a: u8, b: u8, c: u8) -> EOJ {
    EOJ([ElU8(a), ElU8(b), ElU8(c)])
}

fn prop(epc: u8, data: Vec<u8>) -> Prop {
    Prop { epc: ElU8(epc), pdc: ElU8(data.len() as u8), edt: EDT::from(data) }
}

fn frame(seoj: EOJ, esv: ESV, props: Vec<Prop>) -> Packet {
    Packet {
        tid: ElU16(0x0102),
        seoj,
        deoj: eoj(0x05, 0xFF, 0x01),
        esv,
        opc: ElU8(props.len() as u8),
        props,
    }
}

#[test]
fn transport_constants() {
    assert_eq!(ECHONET_LITE_PORT, 3610);
    assert_eq!(multicast_group(), [224, 0, 23, 0]);
    assert_eq!(DISCOVERY_DELAY_SECS, 1);
}

#[test]
fn start_schedules_discovery() {
    assert_eq!(react(Event::Started), Action::ScheduleDiscovery(1));
}

#[test]
fn discovery_is_sent_when_due() {
    let request = Packet::new_discovery_request();
    let bytes =
        vec![0x10, 0x81, 0x00, 0x01, 0x05, 0xFF, 0x01, 0x0E, 0xF0, 0x01, 0x62, 0x01, 0xD6, 0x00];
    assert_eq!(
        react(Event::DiscoveryDue),
        Action::SendDiscovery(Outbound { to: Destination::MulticastGroup, packet: request, bytes })
    );
}

#[test]
fn transport_failures_are_noted() {
    assert_eq!(
        react(Event::ReceiveFailed),
        Action::NoteFailure(TransportError::TransportReceiveFailed)
    );
    assert_eq!(react(Event::SendFailed), Action::NoteFailure(TransportError::TransportSendFailed));
}

#[test]
fn malformed_datagrams_are_dropped() {
    assert_eq!(on_datagram(&[]), Action::DropDatagram(FrameError::TooShort));
    assert_eq!(on_datagram(&[0u8; 12]), Action::DropDatagram(FrameError::InvalidHeader));
    let mut bytes = Packet::new_discovery_request().to_bytes();
    bytes[10] = 0x00;
    assert_eq!(on_datagram(&bytes), Action::DropDatagram(FrameError::InvalidServiceCode));
    bytes[10] = 0x62;
    bytes.pop();
    assert_eq!(on_datagram(&bytes), Action::DropDatagram(FrameError::PropertyTruncated));
    assert_eq!(
        react(Event::Datagram(&bytes)),
        Action::DropDatagram(FrameError::PropertyTruncated)
    );
}

#[test]
fn discovery_response_is_answered_with_one_request_per_instance() {
    let datagram = frame(
        eoj(0x0E, 0xF0, 0x01),
        ESV::GetRes,
        vec![prop(0xD6, vec![3, 0x01, 0x30, 0x01, 0x02, 0x7B, 0x01, 0x01, 0x30, 0x01])],
    )
    .to_bytes();
    let instances = vec![eoj(0x01, 0x30, 0x01), eoj(0x02, 0x7B, 0x01), eoj(0x01, 0x30, 0x01)];
    let requests: Vec<Outbound> = instances
        .iter()
        .map(|&to| {
            let packet = Packet::new_sync_request(to);
            let bytes = packet.to_bytes();
            Outbound { to: Destination::Sender, packet, bytes }
        })
        .collect();
    assert_eq!(
        requests[1].bytes,
        vec![
            0x10, 0x81, 0x00, 0x01, 0x05, 0xFF, 0x01, 0x02, 0x7B, 0x01, 0x62, 0x04, 0x82, 0x00,
            0x9D, 0x00, 0x9F, 0x00, 0x9E, 0x00,
        ]
    );
    // An instance that is listed twice is asked twice.
    assert_eq!(requests[0], requests[2]);
    assert_eq!(
        on_datagram(&datagram),
        Action::SendSyncRequests(
            DiscoveryResponse { eoj: eoj(0x0E, 0xF0, 0x01), instances },
            requests
        )
    );
}

#[test]
fn discovery_response_without_instances_sends_nothing() {
    let datagram = frame(eoj(0x0E, 0xF0, 0x01), ESV::GetRes, vec![prop(0xD6, vec![0])]).to_bytes();
    assert_eq!(
        react(Event::Datagram(&datagram)),
        Action::SendSyncRequests(
            DiscoveryResponse { eoj: eoj(0x0E, 0xF0, 0x01), instances: vec![] },
            vec![]
        )
    );
}

#[test]
fn sync_response_is_reported() {
    let datagram = frame(
        eoj(0x01, 0x30, 0x01),
        ESV::GetRes,
        vec![
            prop(0x82, vec![0, 0, 0x52, 0]),
            prop(0x9D, vec![1, 0x80]),
            prop(0x9F, vec![2, 0x80, 0x9F]),
            prop(0x9E, vec![0]),
        ],
    )
    .to_bytes();
    assert_eq!(
        on_datagram(&datagram),
        Action::Report(SyncResponse {
            eoj: eoj(0x01, 0x30, 0x01),
            svi: SVI([ElU8(0), ElU8(0), ElU8(0x52), ElU8(0)]),
            anno_props: vec![ElU8(0x80)],
            get_props: vec![ElU8(0x80), ElU8(0x9F)],
            set_props: vec![],
        })
    );
}

#[test]
fn discovery_is_tried_before_sync() {
    // From the node profile, with the instance list and the four properties:
    // both interpreters accept it, and discovery decides.
    let datagram = frame(
        eoj(0x0E, 0xF0, 0x01),
        ESV::GetRes,
        vec![
            prop(0x82, vec![0, 0, 0x52, 0]),
            prop(0x9D, vec![0]),
            prop(0x9F, vec![0]),
            prop(0x9E, vec![0]),
            prop(0xD6, vec![0]),
        ],
    );
    assert!(SyncResponse::try_from(&datagram).is_ok());
    assert_eq!(
        on_datagram(&datagram.to_bytes()),
        Action::SendSyncRequests(
            DiscoveryResponse { eoj: eoj(0x0E, 0xF0, 0x01), instances: vec![] },
            vec![]
        )
    );
}

#[test]
fn other_frames_are_unrecognized() {
    let request = Packet::new_sync_request(eoj(0x01, 0x30, 0x01));
    assert_eq!(on_datagram(&request.to_bytes()), Action::Unrecognized(request));
    let discovery = Packet::new_discovery_request();
    assert_eq!(on_datagram(&discovery.to_bytes()), Action::Unrecognized(discovery));
    let lacking = frame(eoj(0x01, 0x30, 0x01), ESV::GetRes, vec![prop(0x80, vec![0x30])]);
    assert_eq!(on_datagram(&lacking.to_bytes()), Action::Unrecognized(lacking));
}
