//! The frame and its parts, as values; `wire` gives their bytes.

use crate::error::EojError;
use crate::error::FrameError;
use vstd::prelude::*;
use vstd::std_specs::cmp::PartialEqSpecImpl;
use vstd::std_specs::convert::FromSpecImpl;
use vstd::std_specs::convert::TryFromSpecImpl;

verus! {

/// Property code of the node profile's instance list.
pub const EPC_INSTANCE_LIST: u8 = 0xD6;

/// Property code of the standard version information.
pub const EPC_VERSION_INFO: u8 = 0x82;

/// Property code of the map of properties that an object announces.
pub const EPC_ANNOUNCE_MAP: u8 = 0x9D;

/// Property code of the map of properties that can be written.
pub const EPC_SET_MAP: u8 = 0x9E;

/// Property code of the map of properties that can be read.
pub const EPC_GET_MAP: u8 = 0x9F;

/// Transaction id that this controller puts into its requests.
pub const REQUEST_TID: u16 = 1;

/// One byte of the protocol.
#[derive(Clone, Copy, Debug, PartialEq, Eq, Structural)]
pub struct ElU8(pub u8);

impl From<ElU8> for usize {
    fn from(value: ElU8) -> (r: usize) {
        value.0 as usize
    }
}

impl FromSpecImpl<ElU8> for usize {
    open spec fn obeys_from_spec() -> bool {
        true
    }

    open spec fn from_spec(value: ElU8) -> usize {
        value.0 as usize
    }
}

/// Two bytes of the protocol, as one number.
#[derive(Clone, Copy, Debug, PartialEq, Eq, Structural)]
pub struct ElU16(pub u16);

impl From<ElU16> for usize {
    fn from(value: ElU16) -> (r: usize) {
        value.0 as usize
    }
}

impl FromSpecImpl<ElU16> for usize {
    open spec fn obeys_from_spec() -> bool {
        true
    }

    open spec fn from_spec(value: ElU16) -> usize {
        value.0 as usize
    }
}

/// An object specifier: class group, class and instance.
#[derive(Clone, Copy, Debug, Eq)]
pub struct EOJ(pub [ElU8; 3]);

impl EOJ {
    /// The specifier made of three bytes.
    pub open spec fn of(class_group: u8, class: u8, instance: u8) -> EOJ {
        EOJ([ElU8(class_group), ElU8(class), ElU8(instance)])
    }

    /// The controller: the object that this library speaks as.
    pub open spec fn spec_controller() -> EOJ {
        EOJ::of(0x05, 0xFF, 0x01)
    }

    /// The node profile: the object that every node answers discovery with.
    pub open spec fn spec_node_profile() -> EOJ {
        EOJ::of(0x0E, 0xF0, 0x01)
    }

    /// The three bytes, in wire order.
    pub open spec fn bytes(self) -> Seq<u8> {
        seq![self.0[0].0, self.0[1].0, self.0[2].0]
    }

    /// The controller's specifier.
    #[verifier::when_used_as_spec(spec_controller)]
    pub fn controller() -> (r: EOJ)
        ensures
            r == EOJ::spec_controller(),
    {
        EOJ([ElU8(0x05), ElU8(0xFF), ElU8(0x01)])
    }

    /// The node profile's specifier.
    #[verifier::when_used_as_spec(spec_node_profile)]
    pub fn node_profile() -> (r: EOJ)
        ensures
            r == EOJ::spec_node_profile(),
    {
        EOJ([ElU8(0x0E), ElU8(0xF0), ElU8(0x01)])
    }
}

/// Two specifiers with the same three bytes are the same specifier.
pub proof fn lemma_eoj_by_bytes(a: EOJ, b: EOJ)
    ensures
        a == b <==> a.bytes() == b.bytes(),
{
    if a.bytes() == b.bytes() {
        assert(a.0 =~= b.0);
    }
}

impl PartialEq for EOJ {
    fn eq(&self, other: &EOJ) -> (r: bool) {
        let r = self.0[0] == other.0[0] && self.0[1] == other.0[1] && self.0[2] == other.0[2];
        proof {
            if r {
                assert(self.0 =~= other.0);
            }
        }
        r
    }
}

impl PartialEqSpecImpl for EOJ {
    open spec fn obeys_eq_spec() -> bool {
        true
    }

    open spec fn eq_spec(&self, other: &EOJ) -> bool {
        *self == *other
    }
}

impl TryFrom<Vec<ElU8>> for EOJ {
    type Error = EojError;

    fn try_from(value: Vec<ElU8>) -> (r: Result<EOJ, EojError>) {
        if value.len() != 3 {
            return Err(EojError::InvalidLength);
        }
        Ok(EOJ([value[0], value[1], value[2]]))
    }
}

impl TryFromSpecImpl<Vec<ElU8>> for EOJ {
    open spec fn obeys_try_from_spec() -> bool {
        true
    }

    open spec fn try_from_spec(value: Vec<ElU8>) -> Result<EOJ, EojError> {
        if value@.len() == 3 {
            Ok(EOJ([value@[0], value@[1], value@[2]]))
        } else {
            Err(EojError::InvalidLength)
        }
    }
}

/// The service of a frame: what it asks for or answers.
#[derive(Clone, Copy, Debug, PartialEq, Eq, Structural)]
pub enum ESV {
    SetI,
    SetC,
    Get,
    InfReq,
    SetGet,
    SetRes,
    GetRes,
    Inf,
    InfC,
    InfCRes,
    SetGetRes,
    SetISNA,
    SetCSNA,
    GetSNA,
    InfSNA,
    SetGetSNA,
}

impl ESV {
    /// The byte that stands for a service on the wire.
    pub open spec fn spec_code(self) -> u8 {
        match self {
            ESV::SetI => 0x60,
            ESV::SetC => 0x61,
            ESV::Get => 0x62,
            ESV::InfReq => 0x63,
            ESV::SetGet => 0x6E,
            ESV::SetRes => 0x71,
            ESV::GetRes => 0x72,
            ESV::Inf => 0x73,
            ESV::InfC => 0x74,
            ESV::InfCRes => 0x7A,
            ESV::SetGetRes => 0x7E,
            ESV::SetISNA => 0x50,
            ESV::SetCSNA => 0x51,
            ESV::GetSNA => 0x52,
            ESV::InfSNA => 0x53,
            ESV::SetGetSNA => 0x5E,
        }
    }

    /// The service that a byte stands for, if it is one of the sixteen codes:
    /// the one service whose code the byte is.
    pub open spec fn of_code(b: u8) -> Option<ESV> {
        if exists|e: ESV| #[trigger] e.spec_code() == b {
            Some(choose|e: ESV| #[trigger] e.spec_code() == b)
        } else {
            None
        }
    }

    /// A normal response: the answer to a request that was carried out.
    pub open spec fn spec_is_normal_response(self) -> bool {
        self is SetRes || self is GetRes || self is SetGetRes
    }

    /// A request: what a controller sends to ask for a service.
    pub open spec fn is_request(self) -> bool {
        self is SetI || self is SetC || self is Get || self is InfReq || self is SetGet
    }

    /// The byte that stands for the service on the wire.
    #[verifier::when_used_as_spec(spec_code)]
    pub fn code(self) -> (b: u8)
        ensures
            b == self.spec_code(),
    {
        match self {
            ESV::SetI => 0x60,
            ESV::SetC => 0x61,
            ESV::Get => 0x62,
            ESV::InfReq => 0x63,
            ESV::SetGet => 0x6E,
            ESV::SetRes => 0x71,
            ESV::GetRes => 0x72,
            ESV::Inf => 0x73,
            ESV::InfC => 0x74,
            ESV::InfCRes => 0x7A,
            ESV::SetGetRes => 0x7E,
            ESV::SetISNA => 0x50,
            ESV::SetCSNA => 0x51,
            ESV::GetSNA => 0x52,
            ESV::InfSNA => 0x53,
            ESV::SetGetSNA => 0x5E,
        }
    }

    /// Whether the service is one of the three normal responses.
    #[verifier::when_used_as_spec(spec_is_normal_response)]
    pub fn is_normal_response(self) -> (r: bool)
        ensures
            r == self.spec_is_normal_response(),
    {
        match self {
            ESV::SetRes | ESV::GetRes | ESV::SetGetRes => true,
            _ => false,
        }
    }
}

/// No two services share a code, so a code names its service.
pub proof fn lemma_code_names_service(e: ESV)
    ensures
        ESV::of_code(e.spec_code()) == Some(e),
{
}

impl TryFrom<u8> for ESV {
    type Error = FrameError;

    fn try_from(value: u8) -> (r: Result<ESV, FrameError>) {
        let r = match value {
            0x60 => Ok(ESV::SetI),
            0x61 => Ok(ESV::SetC),
            0x62 => Ok(ESV::Get),
            0x63 => Ok(ESV::InfReq),
            0x6E => Ok(ESV::SetGet),
            0x71 => Ok(ESV::SetRes),
            0x72 => Ok(ESV::GetRes),
            0x73 => Ok(ESV::Inf),
            0x74 => Ok(ESV::InfC),
            0x7A => Ok(ESV::InfCRes),
            0x7E => Ok(ESV::SetGetRes),
            0x50 => Ok(ESV::SetISNA),
            0x51 => Ok(ESV::SetCSNA),
            0x52 => Ok(ESV::GetSNA),
            0x53 => Ok(ESV::InfSNA),
            0x5E => Ok(ESV::SetGetSNA),
            _ => Err(FrameError::InvalidServiceCode),
        };
        proof {
            match r {
                Ok(e) => {
                    lemma_code_names_service(e);
                },
                Err(_) => {
                    assert forall|e: ESV| #[trigger] e.spec_code() != value by {}
                },
            }
        }
        r
    }
}

impl TryFromSpecImpl<u8> for ESV {
    open spec fn obeys_try_from_spec() -> bool {
        true
    }

    open spec fn try_from_spec(value: u8) -> Result<ESV, FrameError> {
        match ESV::of_code(value) {
            Some(e) => Ok(e),
            None => Err(FrameError::InvalidServiceCode),
        }
    }
}

/// Property value data: the bytes that one property carries.
#[derive(Clone, Debug, PartialEq)]
pub struct EDT(pub Vec<ElU8>);

impl View for EDT {
    type V = Seq<ElU8>;

    open spec fn view(&self) -> Seq<ElU8> {
        self.0@
    }
}

/// The protocol bytes that stand for plain bytes, one for one.
pub open spec fn to_protocol(bytes: Seq<u8>) -> Seq<ElU8> {
    Seq::new(bytes.len(), |i: int| ElU8(bytes[i]))
}

/// The plain bytes under a sequence of protocol bytes, one for one.
pub open spec fn to_plain(data: Seq<ElU8>) -> Seq<u8> {
    Seq::new(data.len(), |i: int| data[i].0)
}

/// The two conversions undo each other.
pub proof fn lemma_protocol_plain(bytes: Seq<u8>, data: Seq<ElU8>)
    ensures
        to_plain(to_protocol(bytes)) == bytes,
        to_protocol(to_plain(data)) == data,
{
}

impl From<Vec<u8>> for EDT {
    /// The same bytes, each as a protocol byte.
    fn from(value: Vec<u8>) -> (r: EDT)
        ensures
            r@ == to_protocol(value@),
    {
        let mut out: Vec<ElU8> = Vec::with_capacity(value.len());
        let mut i: usize = 0;
        while i < value.len()
            invariant
                i <= value@.len(),
                out@ == to_protocol(value@.take(i as int)),
            decreases value@.len() - i,
        {
            out.push(ElU8(value[i]));
            i += 1;
        }
        EDT(out)
    }
}

/// `Vec` values are compared by their views, so what `from` returns is stated
/// over the view, in the `ensures` of `from`, and not as one value here.
impl FromSpecImpl<Vec<u8>> for EDT {
    open spec fn obeys_from_spec() -> bool {
        false
    }

    open spec fn from_spec(value: Vec<u8>) -> EDT {
        EDT(choose|v: Vec<ElU8>| v@ == to_protocol(value@))
    }
}

/// One property of a frame: its code, the length it declares, and its data.
#[derive(Clone, Debug, PartialEq)]
pub struct Prop {
    pub epc: ElU8,
    pub pdc: ElU8,
    pub edt: EDT,
}

/// A property as a mathematical value.
pub struct PropView {
    pub epc: ElU8,
    pub pdc: ElU8,
    pub edt: Seq<ElU8>,
}

impl PropView {
    /// The declared length is the length of the data.
    pub open spec fn wf(self) -> bool {
        self.edt.len() == self.pdc.0
    }

    /// A property that names a code and carries nothing, as a request holds it.
    pub open spec fn empty(epc: u8) -> PropView {
        PropView { epc: ElU8(epc), pdc: ElU8(0), edt: Seq::empty() }
    }
}

impl View for Prop {
    type V = PropView;

    open spec fn view(&self) -> PropView {
        PropView { epc: self.epc, pdc: self.pdc, edt: self.edt@ }
    }
}

impl Prop {
    /// A property that names a code and carries nothing.
    pub fn empty(epc: u8) -> (p: Prop)
        ensures
            p@ == PropView::empty(epc),
    {
        Prop { epc: ElU8(epc), pdc: ElU8(0), edt: EDT(Vec::new()) }
    }
}

/// The properties of a vector, as mathematical values.
pub open spec fn props_view(props: Seq<Prop>) -> Seq<PropView> {
    Seq::new(props.len(), |i: int| props[i]@)
}

/// `i` is the place of the first property with code `epc`.
pub open spec fn is_first_with(props: Seq<PropView>, epc: ElU8, i: int) -> bool {
    &&& 0 <= i < props.len()
    &&& props[i].epc == epc
    &&& forall|j: int| 0 <= j < i ==> (#[trigger] props[j]).epc != epc
}

/// The place of the first property with code `epc`, if there is one.
pub open spec fn find_prop(props: Seq<PropView>, epc: ElU8) -> Option<int> {
    if exists|i: int| is_first_with(props, epc, i) {
        Some(choose|i: int| is_first_with(props, epc, i))
    } else {
        None
    }
}

/// The first property with code `epc`, if there is one.
pub open spec fn first_prop(props: Seq<PropView>, epc: ElU8) -> Option<PropView> {
    match find_prop(props, epc) {
        Some(i) => Some(props[i]),
        None => None,
    }
}

/// There is at most one first place, so a place that is first is the one found.
pub proof fn lemma_find_prop_some(props: Seq<PropView>, epc: ElU8, i: int)
    requires
        is_first_with(props, epc, i),
    ensures
        find_prop(props, epc) == Some(i),
{
}

/// Nothing is found exactly when no property has the code.
pub proof fn lemma_find_prop_none(props: Seq<PropView>, epc: ElU8)
    ensures
        find_prop(props, epc) is None <==> forall|j: int|
            0 <= j < props.len() ==> (#[trigger] props[j]).epc != epc,
{
    if find_prop(props, epc) is None {
        assert forall|j: int| 0 <= j < props.len() implies (#[trigger] props[j]).epc != epc by {
            if props[j].epc == epc {
                lemma_first_exists(props, epc, j);
            }
        }
    }
}

/// Where some property up to place `j` has the code, a first one has it.
proof fn lemma_first_exists(props: Seq<PropView>, epc: ElU8, j: int)
    requires
        0 <= j < props.len(),
        props[j].epc == epc,
    ensures
        exists|i: int| is_first_with(props, epc, i),
    decreases j,
{
    if forall|k: int| 0 <= k < j ==> (#[trigger] props[k]).epc != epc {
        assert(is_first_with(props, epc, j));
    } else {
        let k = choose|k: int| 0 <= k < j && (#[trigger] props[k]).epc == epc;
        lemma_first_exists(props, epc, k);
    }
}

/// A frame: one message of the protocol.
#[derive(Clone, Debug, PartialEq)]
pub struct Packet {
    pub tid: ElU16,
    pub seoj: EOJ,
    pub deoj: EOJ,
    pub esv: ESV,
    pub opc: ElU8,
    pub props: Vec<Prop>,
}

/// A frame as a mathematical value.
pub struct PacketView {
    pub tid: ElU16,
    pub seoj: EOJ,
    pub deoj: EOJ,
    pub esv: ESV,
    pub opc: ElU8,
    pub props: Seq<PropView>,
}

impl PacketView {
    /// The frame holds as many properties as its count says, and each of them
    /// as many bytes as it declares: what can be written to the wire and read
    /// back.
    pub open spec fn wf(self) -> bool {
        &&& self.props.len() == self.opc.0
        &&& forall|i: int| 0 <= i < self.props.len() ==> (#[trigger] self.props[i]).wf()
    }

    /// The request that asks every node for the instances it holds.
    pub open spec fn discovery_request() -> PacketView {
        PacketView {
            tid: ElU16(REQUEST_TID),
            seoj: EOJ::spec_controller(),
            deoj: EOJ::spec_node_profile(),
            esv: ESV::Get,
            opc: ElU8(1),
            props: seq![PropView::empty(EPC_INSTANCE_LIST)],
        }
    }

    /// The request that asks one instance for its version and its three
    /// property maps.
    pub open spec fn sync_request(eoj: EOJ) -> PacketView {
        PacketView {
            tid: ElU16(REQUEST_TID),
            seoj: EOJ::spec_controller(),
            deoj: eoj,
            esv: ESV::Get,
            opc: ElU8(4),
            props: seq![
                PropView::empty(EPC_VERSION_INFO),
                PropView::empty(EPC_ANNOUNCE_MAP),
                PropView::empty(EPC_GET_MAP),
                PropView::empty(EPC_SET_MAP),
            ],
        }
    }
}

impl View for Packet {
    type V = PacketView;

    open spec fn view(&self) -> PacketView {
        PacketView {
            tid: self.tid,
            seoj: self.seoj,
            deoj: self.deoj,
            esv: self.esv,
            opc: self.opc,
            props: props_view(self.props@),
        }
    }
}

impl Packet {
    /// Whether the frame is addressed to `eoj`.
    pub fn is_to(&self, eoj: &EOJ) -> (r: bool)
        ensures
            r == (self@.deoj == *eoj),
    {
        self.deoj == *eoj
    }

    /// Whether the frame comes from `eoj`.
    pub fn is_from(&self, eoj: &EOJ) -> (r: bool)
        ensures
            r == (self@.seoj == *eoj),
    {
        self.seoj == *eoj
    }

    /// Whether the frame's service is one of the three normal responses.
    pub fn is_normal_response(&self) -> (r: bool)
        ensures
            r == self@.esv.spec_is_normal_response(),
    {
        match self.esv {
            ESV::SetRes | ESV::GetRes | ESV::SetGetRes => true,
            _ => false,
        }
    }

    /// The first property with code `epc`.
    pub fn get_prop(&self, epc: ElU8) -> (r: Option<&Prop>)
        ensures
            match find_prop(self@.props, epc) {
                Some(i) => r == Some(&self.props@[i]),
                None => r is None,
            },
    {
        let mut i: usize = 0;
        while i < self.props.len()
            invariant
                i <= self.props@.len(),
                forall|j: int| 0 <= j < i ==> (#[trigger] self@.props[j]).epc != epc,
            decreases self.props@.len() - i,
        {
            if self.props[i].epc == epc {
                proof {
                    lemma_find_prop_some(self@.props, epc, i as int);
                }
                return Some(&self.props[i]);
            }
            i += 1;
        }
        proof {
            lemma_find_prop_none(self@.props, epc);
        }
        None
    }

    /// The request that asks every node for the instances it holds: a `Get` of
    /// the instance list, from the controller to the node profile.
    pub fn new_discovery_request() -> (p: Packet)
        ensures
            p@ == PacketView::discovery_request(),
            p@.wf(),
    {
        let mut props: Vec<Prop> = Vec::new();
        props.push(Prop::empty(EPC_INSTANCE_LIST));
        let p = Packet {
            tid: ElU16(REQUEST_TID),
            seoj: EOJ::controller(),
            deoj: EOJ::node_profile(),
            esv: ESV::Get,
            opc: ElU8(1),
            props,
        };
        assert(p@.props =~= PacketView::discovery_request().props);
        p
    }

    /// The request that asks the instance `eoj` for its version and its three
    /// property maps: a `Get` of the four properties, from the controller.
    pub fn new_sync_request(eoj: EOJ) -> (p: Packet)
        ensures
            p@ == PacketView::sync_request(eoj),
            p@.wf(),
    {
        let mut props: Vec<Prop> = Vec::new();
        props.push(Prop::empty(EPC_VERSION_INFO));
        props.push(Prop::empty(EPC_ANNOUNCE_MAP));
        props.push(Prop::empty(EPC_GET_MAP));
        props.push(Prop::empty(EPC_SET_MAP));
        let p = Packet {
            tid: ElU16(REQUEST_TID),
            seoj: EOJ::controller(),
            deoj: eoj,
            esv: ESV::Get,
            opc: ElU8(4),
            props,
        };
        assert(p@.props =~= PacketView::sync_request(eoj).props);
        p
    }
}

} // verus!
