//! The two responses that a controller looks for in a frame.

use crate::error::ResponseError;
use crate::packet::first_prop;
use crate::packet::ElU8;
use crate::packet::Packet;
use crate::packet::PacketView;
use crate::packet::EOJ;
use crate::packet::EPC_ANNOUNCE_MAP;
use crate::packet::EPC_GET_MAP;
use crate::packet::EPC_INSTANCE_LIST;
use crate::packet::EPC_SET_MAP;
use crate::packet::EPC_VERSION_INFO;
use crate::property_map::parse_property_map;
use crate::property_map::property_map;
use vstd::prelude::*;
use vstd::std_specs::convert::TryFromSpecImpl;

verus! {

/// What a node profile answers to discovery: the instances that the node
/// holds.
#[derive(Debug, Clone, PartialEq)]
pub struct DiscoveryResponse {
    pub eoj: EOJ,
    pub instances: Vec<EOJ>,
}

/// A discovery response as a mathematical value.
pub struct DiscoveryView {
    pub eoj: EOJ,
    pub instances: Seq<EOJ>,
}

impl View for DiscoveryResponse {
    type V = DiscoveryView;

    open spec fn view(&self) -> DiscoveryView {
        DiscoveryView { eoj: self.eoj, instances: self.instances@ }
    }
}

/// The `k`-th object specifier of an instance list: three bytes behind the
/// count byte and the specifiers before it.
pub open spec fn instance_at(data: Seq<ElU8>, k: int) -> EOJ {
    EOJ([data[1 + 3 * k], data[2 + 3 * k], data[3 + 3 * k]])
}

/// The instances that the data of an instance list holds: behind the count
/// byte, which bounds nothing, every three bytes are one object specifier.
/// `None` where there is no count byte or the last specifier is cut short.
pub open spec fn instance_list(data: Seq<ElU8>) -> Option<Seq<EOJ>> {
    if data.len() >= 1 && (data.len() - 1) % 3 == 0 {
        Some(Seq::new(((data.len() - 1) / 3) as nat, |k: int| instance_at(data, k)))
    } else {
        None
    }
}

/// The discovery response that a frame is, or the reason why it is none.
pub open spec fn discovery_response(p: PacketView) -> Result<DiscoveryView, ResponseError> {
    if !p.esv.spec_is_normal_response() {
        Err(ResponseError::NotAResponse)
    } else if p.deoj != EOJ::spec_controller() {
        Err(ResponseError::AddressMismatch)
    } else if p.seoj != EOJ::spec_node_profile() {
        Err(ResponseError::AddressMismatch)
    } else {
        match first_prop(p.props, ElU8(EPC_INSTANCE_LIST)) {
            None => Err(ResponseError::MissingProperty(ElU8(EPC_INSTANCE_LIST))),
            Some(list) => match instance_list(list.edt) {
                None => Err(ResponseError::InvalidInstanceList),
                Some(instances) => Ok(DiscoveryView { eoj: p.seoj, instances }),
            },
        }
    }
}

impl<'a> TryFrom<&'a Packet> for DiscoveryResponse {
    type Error = ResponseError;

    /// Reads a frame as a discovery response.
    #[verifier::loop_isolation(false)]
    fn try_from(p: &'a Packet) -> (r: Result<DiscoveryResponse, ResponseError>)
        ensures
            match r {
                Ok(d) => discovery_response(p@) == Ok::<DiscoveryView, ResponseError>(d@),
                Err(e) => discovery_response(p@) == Err::<DiscoveryView, ResponseError>(e),
            },
            !p@.esv.spec_is_normal_response() ==> r == Err::<DiscoveryResponse, ResponseError>(
                ResponseError::NotAResponse,
            ),
    {
        if !p.is_normal_response() {
            return Err(ResponseError::NotAResponse);
        }
        let controller = EOJ::controller();
        if !p.is_to(&controller) {
            return Err(ResponseError::AddressMismatch);
        }
        let node_profile = EOJ::node_profile();
        if !p.is_from(&node_profile) {
            return Err(ResponseError::AddressMismatch);
        }
        let prop = match p.get_prop(ElU8(EPC_INSTANCE_LIST)) {
            Some(prop) => prop,
            None => {
                return Err(ResponseError::MissingProperty(ElU8(EPC_INSTANCE_LIST)));
            },
        };
        let data = &prop.edt.0;
        let n = data.len();
        if n == 0 {
            return Err(ResponseError::InvalidInstanceList);
        }
        let mut instances: Vec<EOJ> = Vec::with_capacity(usize::from(data[0]));
        let mut at: usize = 1;
        while at < n
            invariant
                n == data@.len(),
                1 <= at <= n,
                (at - 1) % 3 == 0,
                instances@.len() == (at - 1) / 3,
                forall|k: int| 0 <= k < instances@.len() ==> instances@[k] == instance_at(data@, k),
            decreases n - at,
        {
            if n - at < 3 {
                return Err(ResponseError::InvalidInstanceList);
            }
            let mut chunk: Vec<ElU8> = Vec::with_capacity(3);
            chunk.push(data[at]);
            chunk.push(data[at + 1]);
            chunk.push(data[at + 2]);
            let eoj = match EOJ::try_from(chunk) {
                Ok(eoj) => eoj,
                Err(_) => {
                    return Err(ResponseError::InvalidInstanceList);
                },
            };
            instances.push(eoj);
            at += 3;
        }
        assert(instances@ =~= instance_list(data@).unwrap());
        Ok(DiscoveryResponse { eoj: p.seoj, instances })
    }
}

/// `Vec` values are compared by their views, so what `try_from` returns is
/// stated over the view, in the `ensures` of `try_from`, and not as one value
/// here.
impl<'a> TryFromSpecImpl<&'a Packet> for DiscoveryResponse {
    open spec fn obeys_try_from_spec() -> bool {
        false
    }

    open spec fn try_from_spec(p: &'a Packet) -> Result<DiscoveryResponse, ResponseError> {
        match discovery_response(p@) {
            Ok(v) => Ok(choose|d: DiscoveryResponse| d@ == v),
            Err(e) => Err(e),
        }
    }
}

/// Standard version information: the four bytes that say which release of the
/// protocol an object follows.
#[derive(Debug, Clone, Copy, PartialEq, Eq)]
pub struct SVI(pub [ElU8; 4]);

/// What an instance answers to synchronisation: its version and its three
/// property maps.
#[derive(Debug, Clone, PartialEq)]
pub struct SyncResponse {
    pub eoj: EOJ,
    pub svi: SVI,
    pub anno_props: Vec<ElU8>,
    pub get_props: Vec<ElU8>,
    pub set_props: Vec<ElU8>,
}

/// A sync response as a mathematical value.
pub struct SyncView {
    pub eoj: EOJ,
    pub svi: SVI,
    pub anno_props: Seq<ElU8>,
    pub get_props: Seq<ElU8>,
    pub set_props: Seq<ElU8>,
}

impl View for SyncResponse {
    type V = SyncView;

    open spec fn view(&self) -> SyncView {
        SyncView {
            eoj: self.eoj,
            svi: self.svi,
            anno_props: self.anno_props@,
            get_props: self.get_props@,
            set_props: self.set_props@,
        }
    }
}

/// The version information that a property's data holds: its first four
/// bytes. `None` where it holds fewer.
pub open spec fn version_info(data: Seq<ElU8>) -> Option<SVI> {
    if data.len() >= 4 {
        Some(SVI([data[0], data[1], data[2], data[3]]))
    } else {
        None
    }
}

/// The sync response that the four required properties make for the object
/// `eoj`, or the reason why they make none.
pub open spec fn sync_of(
    eoj: EOJ,
    version: Seq<ElU8>,
    announce: Seq<ElU8>,
    get: Seq<ElU8>,
    set: Seq<ElU8>,
) -> Result<SyncView, ResponseError> {
    if version_info(version) is Some && property_map(announce) is Some && property_map(get)
        is Some && property_map(set) is Some {
        Ok(
            SyncView {
                eoj,
                svi: version_info(version).unwrap(),
                anno_props: property_map(announce).unwrap(),
                get_props: property_map(get).unwrap(),
                set_props: property_map(set).unwrap(),
            },
        )
    } else {
        Err(ResponseError::MalformedProperty)
    }
}

/// The sync response that a frame is, or the reason why it is none. The
/// required properties are looked for in the order version, announce map, get
/// map, set map, and the first one that is absent is reported.
pub open spec fn sync_response(p: PacketView) -> Result<SyncView, ResponseError> {
    if !p.esv.spec_is_normal_response() {
        Err(ResponseError::NotAResponse)
    } else if p.deoj != EOJ::spec_controller() {
        Err(ResponseError::AddressMismatch)
    } else if first_prop(p.props, ElU8(EPC_VERSION_INFO)) is None {
        Err(ResponseError::MissingProperty(ElU8(EPC_VERSION_INFO)))
    } else if first_prop(p.props, ElU8(EPC_ANNOUNCE_MAP)) is None {
        Err(ResponseError::MissingProperty(ElU8(EPC_ANNOUNCE_MAP)))
    } else if first_prop(p.props, ElU8(EPC_GET_MAP)) is None {
        Err(ResponseError::MissingProperty(ElU8(EPC_GET_MAP)))
    } else if first_prop(p.props, ElU8(EPC_SET_MAP)) is None {
        Err(ResponseError::MissingProperty(ElU8(EPC_SET_MAP)))
    } else {
        sync_of(
            p.seoj,
            first_prop(p.props, ElU8(EPC_VERSION_INFO)).unwrap().edt,
            first_prop(p.props, ElU8(EPC_ANNOUNCE_MAP)).unwrap().edt,
            first_prop(p.props, ElU8(EPC_GET_MAP)).unwrap().edt,
            first_prop(p.props, ElU8(EPC_SET_MAP)).unwrap().edt,
        )
    }
}

impl<'a> TryFrom<&'a Packet> for SyncResponse {
    type Error = ResponseError;

    /// Reads a frame as a sync response.
    fn try_from(p: &'a Packet) -> (r: Result<SyncResponse, ResponseError>)
        ensures
            match r {
                Ok(s) => sync_response(p@) == Ok::<SyncView, ResponseError>(s@),
                Err(e) => sync_response(p@) == Err::<SyncView, ResponseError>(e),
            },
            !p@.esv.spec_is_normal_response() ==> r == Err::<SyncResponse, ResponseError>(
                ResponseError::NotAResponse,
            ),
    {
        if !p.is_normal_response() {
            return Err(ResponseError::NotAResponse);
        }
        let controller = EOJ::controller();
        if !p.is_to(&controller) {
            return Err(ResponseError::AddressMismatch);
        }
        let svi = match p.get_prop(ElU8(EPC_VERSION_INFO)) {
            Some(prop) => prop,
            None => {
                return Err(ResponseError::MissingProperty(ElU8(EPC_VERSION_INFO)));
            },
        };
        let anno = match p.get_prop(ElU8(EPC_ANNOUNCE_MAP)) {
            Some(prop) => prop,
            None => {
                return Err(ResponseError::MissingProperty(ElU8(EPC_ANNOUNCE_MAP)));
            },
        };
        let get = match p.get_prop(ElU8(EPC_GET_MAP)) {
            Some(prop) => prop,
            None => {
                return Err(ResponseError::MissingProperty(ElU8(EPC_GET_MAP)));
            },
        };
        let set = match p.get_prop(ElU8(EPC_SET_MAP)) {
            Some(prop) => prop,
            None => {
                return Err(ResponseError::MissingProperty(ElU8(EPC_SET_MAP)));
            },
        };
        if svi.edt.0.len() < 4 {
            return Err(ResponseError::MalformedProperty);
        }
        let version = SVI([svi.edt.0[0], svi.edt.0[1], svi.edt.0[2], svi.edt.0[3]]);
        let anno_props = match parse_property_map(&anno.edt) {
            Ok(codes) => codes,
            Err(e) => {
                return Err(e);
            },
        };
        let get_props = match parse_property_map(&get.edt) {
            Ok(codes) => codes,
            Err(e) => {
                return Err(e);
            },
        };
        let set_props = match parse_property_map(&set.edt) {
            Ok(codes) => codes,
            Err(e) => {
                return Err(e);
            },
        };
        Ok(SyncResponse { eoj: p.seoj, svi: version, anno_props, get_props, set_props })
    }
}

/// `Vec` values are compared by their views, so what `try_from` returns is
/// stated over the view, in the `ensures` of `try_from`, and not as one value
/// here.
impl<'a> TryFromSpecImpl<&'a Packet> for SyncResponse {
    open spec fn obeys_try_from_spec() -> bool {
        false
    }

    open spec fn try_from_spec(p: &'a Packet) -> Result<SyncResponse, ResponseError> {
        match sync_response(p@) {
            Ok(v) => Ok(choose|s: SyncResponse| s@ == v),
            Err(e) => Err(e),
        }
    }
}

/// A frame that carries a request is neither response, whatever its addresses
/// and properties are; the same holds of every service that is no normal
/// response.
pub proof fn lemma_request_is_no_response(p: PacketView)
    ensures
        p.esv.is_request() ==> !p.esv.spec_is_normal_response(),
        !p.esv.spec_is_normal_response() ==> discovery_response(p) == Err::<
            DiscoveryView,
            ResponseError,
        >(ResponseError::NotAResponse),
        !p.esv.spec_is_normal_response() ==> sync_response(p) == Err::<SyncView, ResponseError>(
            ResponseError::NotAResponse,
        ),
{
}

} // verus!
