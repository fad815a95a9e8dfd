//! The wire format: which bytes stand for a frame, and which frame a buffer
//! holds.
//!
//! ```text
//! 0      1      2..4   4..7   7..10  10     11     12..
//! EHD1   EHD2   TID    SEOJ   DEOJ   ESV    OPC    OPC times: EPC PDC EDT
//! ```

use crate::buf::be_u16;
use crate::buf::get_u16;
use crate::buf::get_u8;
use crate::buf::remaining;
use crate::error::FrameError;
use crate::packet::props_view;
use crate::packet::to_plain;
use crate::packet::to_protocol;
use crate::packet::ElU16;
use crate::packet::ElU8;
use crate::packet::Packet;
use crate::packet::PacketView;
use crate::packet::Prop;
use crate::packet::PropView;
use crate::packet::EDT;
use crate::packet::EOJ;
use crate::packet::ESV;
use crate::roundtrip::lemma_encode_packet_len;
use vstd::prelude::*;
use vstd::std_specs::convert::TryFromSpecImpl;

verus! {

/// First header byte: the protocol.
pub const EHD1: u8 = 0x10;

/// Second header byte: the frame format.
pub const EHD2: u8 = 0x81;

/// Length of the fixed part of a frame.
pub const HEADER_LEN: usize = 12;

/// The bytes of one property: code, declared length, data.
pub open spec fn encode_prop(p: PropView) -> Seq<u8> {
    seq![p.epc.0, p.pdc.0] + to_plain(p.edt)
}

/// The bytes of a sequence of properties, one after the other.
pub open spec fn encode_props(props: Seq<PropView>) -> Seq<u8>
    decreases props.len(),
{
    if props.len() == 0 {
        Seq::empty()
    } else {
        encode_prop(props[0]) + encode_props(props.skip(1))
    }
}

/// The twelve bytes of the fixed part of a frame.
pub open spec fn encode_header(p: PacketView) -> Seq<u8> {
    seq![EHD1, EHD2, (p.tid.0 / 256) as u8, (p.tid.0 % 256) as u8] + p.seoj.bytes()
        + p.deoj.bytes() + seq![p.esv.spec_code(), p.opc.0]
}

/// The bytes of a frame.
pub open spec fn encode_packet(p: PacketView) -> Seq<u8> {
    encode_header(p) + encode_props(p.props)
}

/// The number of bytes that a sequence of properties declares for itself: for
/// each property two bytes and its declared length.
pub open spec fn props_len(props: Seq<PropView>) -> nat
    decreases props.len(),
{
    if props.len() == 0 {
        0
    } else {
        2 + props[0].pdc.0 as nat + props_len(props.skip(1))
    }
}

/// No whole property stands at the front of `rest`: it ends before the
/// declared length is read, or before the declared number of data bytes.
pub open spec fn truncated(rest: Seq<u8>) -> bool {
    rest.len() < 2 || rest.len() - 2 < rest[1]
}

/// The property at the front of `rest`, where one stands there whole.
pub open spec fn front_prop(rest: Seq<u8>) -> PropView {
    PropView {
        epc: ElU8(rest[0]),
        pdc: ElU8(rest[1]),
        edt: to_protocol(rest.subrange(2, 2 + rest[1])),
    }
}

/// What is left of `rest` behind the property at its front.
pub open spec fn behind_front(rest: Seq<u8>) -> Seq<u8> {
    rest.skip(2 + rest[1])
}

/// The first `n` properties of `rest`, or `None` where the buffer ends inside
/// one of them.
pub open spec fn decode_props(rest: Seq<u8>, n: nat) -> Option<Seq<PropView>>
    decreases n,
{
    if n == 0 {
        Some(Seq::empty())
    } else if truncated(rest) {
        None
    } else {
        match decode_props(behind_front(rest), (n - 1) as nat) {
            Some(tail) => Some(seq![front_prop(rest)] + tail),
            None => None,
        }
    }
}

/// What is left of `rest` behind its first `k` properties.
pub open spec fn behind_props(rest: Seq<u8>, k: nat) -> Seq<u8>
    decreases k,
{
    if k == 0 {
        rest
    } else {
        behind_props(behind_front(rest), (k - 1) as nat)
    }
}

/// The object specifier whose three bytes stand at `at` in `b`.
pub open spec fn eoj_at(b: Seq<u8>, at: int) -> EOJ {
    EOJ::of(b[at], b[at + 1], b[at + 2])
}

/// The buffer starts with the protocol's two header bytes.
pub open spec fn magic(b: Seq<u8>) -> bool {
    b[0] == EHD1 && b[1] == EHD2
}

/// The frame that a buffer holds, or the reason why it holds none. Bytes
/// behind the last property that the count announces are not looked at.
pub open spec fn decode_packet(b: Seq<u8>) -> Result<PacketView, FrameError> {
    if b.len() < HEADER_LEN {
        Err(FrameError::TooShort)
    } else if !magic(b) {
        Err(FrameError::InvalidHeader)
    } else {
        match ESV::of_code(b[10]) {
            None => Err(FrameError::InvalidServiceCode),
            Some(esv) => match decode_props(b.skip(12), b[11] as nat) {
                None => Err(FrameError::PropertyTruncated),
                Some(props) => Ok(
                    PacketView {
                        tid: ElU16(be_u16(b[2], b[3])),
                        seoj: eoj_at(b, 4),
                        deoj: eoj_at(b, 7),
                        esv,
                        opc: ElU8(b[11]),
                        props,
                    },
                ),
            },
        }
    }
}

/// The properties `head`, followed by those of `tail`, where there are any.
pub open spec fn followed_by(head: Seq<PropView>, tail: Option<Seq<PropView>>) -> Option<
    Seq<PropView>,
> {
    match tail {
        Some(t) => Some(head + t),
        None => None,
    }
}

/// Takes one object specifier from the front of the buffer. With fewer than
/// three bytes left the buffer is too short, and stays as it is.
fn read_eoj(cur: &mut &[u8]) -> (r: Result<EOJ, FrameError>)
    ensures
        old(cur)@.len() >= 3 ==> r == Ok::<EOJ, FrameError>(eoj_at(old(cur)@, 0)) && final(cur)@
            == old(cur)@.skip(3),
        old(cur)@.len() < 3 ==> r == Err::<EOJ, FrameError>(FrameError::TooShort) && final(cur)@
            == old(cur)@,
{
    if remaining(*cur) < 3 {
        return Err(FrameError::TooShort);
    }
    let mut raw: Vec<ElU8> = Vec::with_capacity(3);
    let mut k: usize = 0;
    while k < 3
        invariant
            k <= 3,
            old(cur)@.len() >= 3,
            cur@ == old(cur)@.skip(k as int),
            raw@ == to_protocol(old(cur)@.take(k as int)),
        decreases 3 - k,
    {
        raw.push(ElU8(get_u8(cur)));
        k += 1;
    }
    match EOJ::try_from(raw) {
        Ok(eoj) => Ok(eoj),
        Err(_) => Err(FrameError::TooShort),
    }
}

impl<'a> TryFrom<&'a [u8]> for Packet {
    type Error = FrameError;

    /// Decodes one frame from the front of a buffer.
    #[verifier::loop_isolation(false)]
    fn try_from(value: &'a [u8]) -> (r: Result<Packet, FrameError>)
        ensures
            match r {
                Ok(p) => decode_packet(value@) == Ok::<PacketView, FrameError>(p@),
                Err(e) => decode_packet(value@) == Err::<PacketView, FrameError>(e),
            },
            r matches Ok(p) ==> p@.wf(),
            value@.len() < 12 ==> r == Err::<Packet, FrameError>(FrameError::TooShort),
            value@.len() >= 12 && !magic(value@) ==> r == Err::<Packet, FrameError>(
                FrameError::InvalidHeader,
            ),
            value@.len() >= 12 && magic(value@) && ESV::of_code(value@[10]) is None ==> r == Err::<
                Packet,
                FrameError,
            >(FrameError::InvalidServiceCode),
            value@.len() >= 12 && magic(value@) && ESV::of_code(value@[10]) is Some && decode_props(
                value@.skip(12),
                value@[11] as nat,
            ) is None ==> r == Err::<Packet, FrameError>(FrameError::PropertyTruncated),
            value@.len() >= 12 && magic(value@) && ESV::of_code(value@[10]) is Some && value@[11]
                == 0 ==> (r matches Ok(p) && p@.props == Seq::<PropView>::empty()),
    {
        let mut cur: &[u8] = value;
        if remaining(cur) < HEADER_LEN {
            return Err(FrameError::TooShort);
        }
        if get_u8(&mut cur) != EHD1 {
            return Err(FrameError::InvalidHeader);
        }
        if get_u8(&mut cur) != EHD2 {
            return Err(FrameError::InvalidHeader);
        }
        let tid = ElU16(get_u16(&mut cur));
        let seoj = match read_eoj(&mut cur) {
            Ok(eoj) => eoj,
            Err(e) => {
                return Err(e);
            },
        };
        let deoj = match read_eoj(&mut cur) {
            Ok(eoj) => eoj,
            Err(e) => {
                return Err(e);
            },
        };
        let esv = match ESV::try_from(get_u8(&mut cur)) {
            Ok(esv) => esv,
            Err(e) => {
                return Err(e);
            },
        };
        let opc = get_u8(&mut cur);
        assert(cur@ =~= value@.skip(12));

        let ghost body = value@.skip(12);
        let n: usize = opc as usize;
        let mut props: Vec<Prop> = Vec::new();
        let mut i: usize = 0;
        while i < n
            invariant
                i <= n,
                n == opc,
                props@.len() == i,
                forall|j: int| 0 <= j < i ==> (#[trigger] props@[j])@.wf(),
                decode_props(body, n as nat) == followed_by(
                    props_view(props@),
                    decode_props(cur@, (n - i) as nat),
                ),
            decreases n - i,
        {
            let ghost rest = cur@;
            if remaining(cur) < 2 {
                return Err(FrameError::PropertyTruncated);
            }
            let epc = get_u8(&mut cur);
            let pdc = get_u8(&mut cur);
            if remaining(cur) < pdc as usize {
                return Err(FrameError::PropertyTruncated);
            }
            let mut edt: Vec<ElU8> = Vec::with_capacity(pdc as usize);
            let mut k: u8 = 0;
            while k < pdc
                invariant
                    k <= pdc,
                    rest.len() - 2 >= pdc,
                    cur@ == rest.skip(2 + k),
                    edt@ == to_protocol(rest.subrange(2, 2 + k)),
                decreases pdc - k,
            {
                edt.push(ElU8(get_u8(&mut cur)));
                k += 1;
            }
            let prop = Prop { epc: ElU8(epc), pdc: ElU8(pdc), edt: EDT(edt) };
            assert(prop@ == front_prop(rest) && cur@ == behind_front(rest));
            props.push(prop);
            i += 1;
            // What was still to read is this property and what is to read now.
            assert(decode_props(rest, (n - i + 1) as nat) == followed_by(
                seq![front_prop(rest)],
                decode_props(cur@, (n - i) as nat),
            ));
        }
        Ok(Packet { tid, seoj, deoj, esv, opc: ElU8(opc), props })
    }
}

/// `Vec` values are compared by their views, so what `try_from` returns is
/// stated over the view, in the `ensures` of `try_from`, and not as one value
/// here.
impl<'a> TryFromSpecImpl<&'a [u8]> for Packet {
    open spec fn obeys_try_from_spec() -> bool {
        false
    }

    open spec fn try_from_spec(value: &'a [u8]) -> Result<Packet, FrameError> {
        match decode_packet(value@) {
            Ok(v) => Ok(choose|p: Packet| p@ == v),
            Err(e) => Err(e),
        }
    }
}

impl Packet {
    /// Encodes the frame. The count and the declared lengths are written as
    /// the frame holds them.
    pub fn to_bytes(&self) -> (out: Vec<u8>)
        ensures
            out@ == encode_packet(self@),
            self@.wf() ==> out@.len() == 12 + props_len(self@.props),
    {
        let mut out: Vec<u8> = Vec::new();
        out.push(EHD1);
        out.push(EHD2);
        out.push((self.tid.0 / 256) as u8);
        out.push((self.tid.0 % 256) as u8);
        out.push(self.seoj.0[0].0);
        out.push(self.seoj.0[1].0);
        out.push(self.seoj.0[2].0);
        out.push(self.deoj.0[0].0);
        out.push(self.deoj.0[1].0);
        out.push(self.deoj.0[2].0);
        out.push(self.esv.code());
        out.push(self.opc.0);
        assert(self@.props.skip(0) =~= self@.props);
        let mut i: usize = 0;
        while i < self.props.len()
            invariant
                i <= self.props@.len(),
                out@ + encode_props(self@.props.skip(i as int)) == encode_packet(self@),
            decreases self.props@.len() - i,
        {
            let prop = &self.props[i];
            let ghost before = out@;
            let ghost left = self@.props.skip(i as int);
            out.push(prop.epc.0);
            out.push(prop.pdc.0);
            let mut k: usize = 0;
            while k < prop.edt.0.len()
                invariant
                    k <= prop.edt@.len(),
                    out@ == before + seq![prop.epc.0, prop.pdc.0] + to_plain(
                        prop.edt@.take(k as int),
                    ),
                decreases prop.edt@.len() - k,
            {
                out.push(prop.edt.0[k].0);
                k += 1;
            }
            i += 1;
            // The property just written was the first of those left.
            assert(out@ == before + encode_prop(left[0]));
            assert(left.skip(1) =~= self@.props.skip(i as int));
        }
        proof {
            if self@.wf() {
                lemma_encode_packet_len(self@);
            }
        }
        out
    }
}

} // verus!
