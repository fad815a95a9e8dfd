//! What the controller does about each thing that happens to it.
//!
//! The controller sends one discovery request to the multicast group shortly
//! after it starts. From then on every datagram is looked at on its own: a
//! discovery response is answered with one sync request for each instance it
//! lists, a sync response is reported, anything else is set aside. Nothing is
//! remembered from one datagram to the next, so the only state is the event at
//! hand.
//!
//! The event loop that owns the socket feeds `react` and carries out what
//! comes back.

use crate::error::FrameError;
use crate::error::TransportError;
use crate::packet::Packet;
use crate::packet::PacketView;
use crate::packet::EOJ;
use crate::response::discovery_response;
use crate::response::sync_response;
use crate::response::DiscoveryResponse;
use crate::response::DiscoveryView;
use crate::response::SyncResponse;
use crate::response::SyncView;
use crate::roundtrip::lemma_decode_encode;
use crate::wire::decode_packet;
use crate::wire::encode_packet;
use vstd::prelude::*;

verus! {

/// UDP port of the protocol.
pub const ECHONET_LITE_PORT: u16 = 3610;

/// Seconds between the start and the discovery request.
pub const DISCOVERY_DELAY_SECS: u64 = 1;

/// The IPv4 multicast group that nodes listen on: 224.0.23.0.
pub fn multicast_group() -> (addr: [u8; 4])
    ensures
        addr@ == seq![224u8, 0u8, 23u8, 0u8],
{
    [224, 0, 23, 0]
}

/// Something that happened to the controller.
#[derive(Clone, Copy, Debug)]
pub enum Event<'a> {
    /// The controller has started and its transport is ready.
    Started,
    /// The delay that `ScheduleDiscovery` asked for has passed.
    DiscoveryDue,
    /// A datagram has arrived.
    Datagram(&'a [u8]),
    /// The transport failed to receive.
    ReceiveFailed,
    /// The transport failed to send one datagram.
    SendFailed,
}

/// An event as a mathematical value.
pub enum EventView {
    Started,
    DiscoveryDue,
    Datagram(Seq<u8>),
    ReceiveFailed,
    SendFailed,
}

impl<'a> View for Event<'a> {
    type V = EventView;

    open spec fn view(&self) -> EventView {
        match *self {
            Event::Started => EventView::Started,
            Event::DiscoveryDue => EventView::DiscoveryDue,
            Event::Datagram(bytes) => EventView::Datagram(bytes@),
            Event::ReceiveFailed => EventView::ReceiveFailed,
            Event::SendFailed => EventView::SendFailed,
        }
    }
}

/// Where an outbound frame goes.
#[derive(Clone, Copy, Debug, PartialEq, Eq, Structural)]
pub enum Destination {
    /// To the multicast group, on the protocol's port.
    MulticastGroup,
    /// To the host that sent the datagram at hand, on the protocol's port.
    Sender,
}

/// A frame to send, with where it goes and the bytes that go on the wire for
/// it.
#[derive(Clone, Debug, PartialEq)]
pub struct Outbound {
    pub to: Destination,
    pub packet: Packet,
    pub bytes: Vec<u8>,
}

/// An outbound frame as a mathematical value.
pub struct OutboundView {
    pub to: Destination,
    pub packet: PacketView,
    pub bytes: Seq<u8>,
}

impl View for Outbound {
    type V = OutboundView;

    open spec fn view(&self) -> OutboundView {
        OutboundView { to: self.to, packet: self.packet@, bytes: self.bytes@ }
    }
}

/// What the event loop is to do next.
#[derive(Clone, Debug, PartialEq)]
pub enum Action {
    /// Wait this many seconds without holding up reception, then report
    /// `DiscoveryDue`.
    ScheduleDiscovery(u64),
    /// Send the discovery request.
    SendDiscovery(Outbound),
    /// A node has answered discovery: send each of the sync requests, one
    /// after the other, a failure of one not holding up the next.
    SendSyncRequests(DiscoveryResponse, Vec<Outbound>),
    /// An instance has answered synchronisation: report it.
    Report(SyncResponse),
    /// The datagram is a frame, but neither response: set it aside.
    Unrecognized(Packet),
    /// The datagram is no frame: drop it.
    DropDatagram(FrameError),
    /// The transport failed: note it and go on.
    NoteFailure(TransportError),
}

/// An action as a mathematical value.
pub enum ActionView {
    ScheduleDiscovery(u64),
    SendDiscovery(OutboundView),
    SendSyncRequests(DiscoveryView, Seq<OutboundView>),
    Report(SyncView),
    Unrecognized(PacketView),
    DropDatagram(FrameError),
    NoteFailure(TransportError),
}

/// The outbound frames of a vector, as mathematical values.
pub open spec fn outbound_view(frames: Seq<Outbound>) -> Seq<OutboundView> {
    Seq::new(frames.len(), |i: int| frames[i]@)
}

impl View for Action {
    type V = ActionView;

    open spec fn view(&self) -> ActionView {
        match *self {
            Action::ScheduleDiscovery(secs) => ActionView::ScheduleDiscovery(secs),
            Action::SendDiscovery(frame) => ActionView::SendDiscovery(frame@),
            Action::SendSyncRequests(response, requests) => ActionView::SendSyncRequests(
                response@,
                outbound_view(requests@),
            ),
            Action::Report(response) => ActionView::Report(response@),
            Action::Unrecognized(packet) => ActionView::Unrecognized(packet@),
            Action::DropDatagram(e) => ActionView::DropDatagram(e),
            Action::NoteFailure(e) => ActionView::NoteFailure(e),
        }
    }
}

/// A frame together with where it goes and its bytes.
pub open spec fn outbound(to: Destination, p: PacketView) -> OutboundView {
    OutboundView { to, packet: p, bytes: encode_packet(p) }
}

/// The discovery request, on its way to the multicast group.
pub open spec fn discovery() -> OutboundView {
    outbound(Destination::MulticastGroup, PacketView::discovery_request())
}

/// The sync request for one instance, on its way to the host that listed it.
pub open spec fn sync_request_for(eoj: EOJ) -> OutboundView {
    outbound(Destination::Sender, PacketView::sync_request(eoj))
}

/// One sync request for each instance, in the order of the instances, none
/// left out and none merged.
pub open spec fn sync_requests(instances: Seq<EOJ>) -> Seq<OutboundView> {
    Seq::new(instances.len(), |k: int| sync_request_for(instances[k]))
}

/// What a datagram calls for. A frame is tried as a discovery response first,
/// and as a sync response only where it is none.
pub open spec fn classify(b: Seq<u8>) -> ActionView {
    match decode_packet(b) {
        Err(e) => ActionView::DropDatagram(e),
        Ok(p) => match discovery_response(p) {
            Ok(d) => ActionView::SendSyncRequests(d, sync_requests(d.instances)),
            Err(_) => match sync_response(p) {
                Ok(s) => ActionView::Report(s),
                Err(_) => ActionView::Unrecognized(p),
            },
        },
    }
}

/// What an event calls for.
pub open spec fn reaction(event: EventView) -> ActionView {
    match event {
        EventView::Started => ActionView::ScheduleDiscovery(DISCOVERY_DELAY_SECS),
        EventView::DiscoveryDue => ActionView::SendDiscovery(discovery()),
        EventView::Datagram(b) => classify(b),
        EventView::ReceiveFailed => ActionView::NoteFailure(TransportError::TransportReceiveFailed),
        EventView::SendFailed => ActionView::NoteFailure(TransportError::TransportSendFailed),
    }
}

/// Encodes a frame for sending.
pub fn make_outbound(to: Destination, packet: Packet) -> (frame: Outbound)
    ensures
        frame@ == outbound(to, packet@),
{
    let bytes = packet.to_bytes();
    Outbound { to, packet, bytes }
}

/// Decides what a datagram calls for.
pub fn on_datagram(bytes: &[u8]) -> (action: Action)
    ensures
        action@ == classify(bytes@),
{
    let packet = match Packet::try_from(bytes) {
        Ok(packet) => packet,
        Err(e) => {
            return Action::DropDatagram(e);
        },
    };
    match DiscoveryResponse::try_from(&packet) {
        Ok(response) => {
            let mut requests: Vec<Outbound> = Vec::with_capacity(response.instances.len());
            let mut k: usize = 0;
            while k < response.instances.len()
                invariant
                    k <= response.instances@.len(),
                    requests@.len() == k,
                    outbound_view(requests@) == sync_requests(response.instances@.take(k as int)),
                decreases response.instances@.len() - k,
            {
                let ghost asked = response.instances@.take(k as int);
                let request = make_outbound(
                    Destination::Sender,
                    Packet::new_sync_request(response.instances[k]),
                );
                requests.push(request);
                k += 1;
                // The requests so far are as they were, and one more.
                assert forall|j: int| 0 <= j < k implies outbound_view(requests@)[j]
                    == sync_requests(response.instances@.take(k as int))[j] by {
                    if j < k - 1 {
                        assert(sync_requests(asked)[j] == sync_request_for(asked[j]));
                    }
                }
            }
            assert(response.instances@.take(k as int) =~= response.instances@);
            Action::SendSyncRequests(response, requests)
        },
        Err(_) => match SyncResponse::try_from(&packet) {
            Ok(response) => Action::Report(response),
            Err(_) => Action::Unrecognized(packet),
        },
    }
}

/// Decides what an event calls for.
pub fn react(event: Event) -> (action: Action)
    ensures
        action@ == reaction(event@),
{
    match event {
        Event::Started => Action::ScheduleDiscovery(DISCOVERY_DELAY_SECS),
        Event::DiscoveryDue => Action::SendDiscovery(
            make_outbound(Destination::MulticastGroup, Packet::new_discovery_request()),
        ),
        Event::Datagram(bytes) => on_datagram(bytes),
        Event::ReceiveFailed => Action::NoteFailure(TransportError::TransportReceiveFailed),
        Event::SendFailed => Action::NoteFailure(TransportError::TransportSendFailed),
    }
}

/// Every request that the controller sends is a well-formed frame that a
/// decoder reads back as it was sent, and that no controller takes for a
/// response.
pub proof fn lemma_requests_are_sound(eoj: EOJ)
    ensures
        PacketView::discovery_request().wf(),
        PacketView::sync_request(eoj).wf(),
        decode_packet(discovery().bytes) == Ok::<PacketView, FrameError>(
            PacketView::discovery_request(),
        ),
        decode_packet(sync_request_for(eoj).bytes) == Ok::<PacketView, FrameError>(
            PacketView::sync_request(eoj),
        ),
        classify(discovery().bytes) == ActionView::Unrecognized(PacketView::discovery_request()),
        classify(sync_request_for(eoj).bytes) == ActionView::Unrecognized(
            PacketView::sync_request(eoj),
        ),
{
    lemma_decode_encode(PacketView::discovery_request());
    lemma_decode_encode(PacketView::sync_request(eoj));
}

/// A discovery response is answered with exactly one sync request for each
/// instance it lists: the `k`-th request goes to the host that sent the
/// response, from the controller to the `k`-th instance.
pub proof fn lemma_one_request_per_instance(b: Seq<u8>)
    requires
        classify(b) is SendSyncRequests,
    ensures
        classify(b)->SendSyncRequests_1.len() == classify(b)->SendSyncRequests_0.instances.len(),
        forall|k: int|
            0 <= k < classify(b)->SendSyncRequests_1.len() ==> (
            #[trigger] classify(b)->SendSyncRequests_1[k]) == sync_request_for(
                classify(b)->SendSyncRequests_0.instances[k],
            ),
{
}

} // verus!
