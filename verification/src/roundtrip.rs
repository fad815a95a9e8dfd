//! What holds between encoding and decoding.

use crate::buf::be_u16;
use crate::error::FrameError;
use crate::packet::lemma_code_names_service;
use crate::packet::lemma_eoj_by_bytes;
use crate::packet::lemma_protocol_plain;
use crate::packet::to_plain;
use crate::packet::PacketView;
use crate::packet::PropView;
use crate::packet::ESV;
use crate::wire::behind_front;
use crate::wire::behind_props;
use crate::wire::decode_packet;
use crate::wire::decode_props;
use crate::wire::encode_header;
use crate::wire::encode_packet;
use crate::wire::encode_prop;
use crate::wire::encode_props;
use crate::wire::eoj_at;
use crate::wire::front_prop;
use crate::wire::magic;
use crate::wire::props_len;
use crate::wire::truncated;
use vstd::prelude::*;

verus! {

/// Every property holds as many bytes as it declares.
pub open spec fn all_wf(props: Seq<PropView>) -> bool {
    forall|i: int| 0 <= i < props.len() ==> (#[trigger] props[i]).wf()
}

/// Well-formed properties stay so without the first of them.
proof fn lemma_all_wf_skip(props: Seq<PropView>)
    requires
        all_wf(props),
        props.len() > 0,
    ensures
        all_wf(props.skip(1)),
{
    assert forall|i: int| 0 <= i < props.skip(1).len() implies (#[trigger] props.skip(1)[i]).wf() by {
        assert(props[i + 1].wf());
    }
}

/// The bytes of well-formed properties are as many as the properties declare.
pub proof fn lemma_encode_props_len(props: Seq<PropView>)
    requires
        all_wf(props),
    ensures
        encode_props(props).len() == props_len(props),
    decreases props.len(),
{
    if props.len() > 0 {
        lemma_all_wf_skip(props);
        lemma_encode_props_len(props.skip(1));
    }
}

/// A well-formed frame takes twelve bytes and, for each property, two bytes
/// and its declared length.
pub proof fn lemma_encode_packet_len(p: PacketView)
    requires
        p.wf(),
    ensures
        encode_packet(p).len() == 12 + props_len(p.props),
{
    lemma_encode_props_len(p.props);
}

/// Well-formed properties that were written are read back as they were, and
/// what follows them in the buffer is left over.
pub proof fn lemma_decode_encode_props(props: Seq<PropView>, extra: Seq<u8>)
    requires
        all_wf(props),
    ensures
        decode_props(encode_props(props) + extra, props.len()) == Some(props),
        behind_props(encode_props(props) + extra, props.len()) == extra,
    decreases props.len(),
{
    if props.len() > 0 {
        let rest = encode_props(props) + extra;
        let first = props[0];
        let others = props.skip(1);
        // The first property stands whole at the front and is read as it was.
        assert(rest.subrange(2, 2 + rest[1]) =~= to_plain(first.edt));
        lemma_protocol_plain(Seq::empty(), first.edt);
        assert(front_prop(rest) == first);
        // Behind it stand the others, which are read back by induction.
        assert(behind_front(rest) =~= encode_props(others) + extra);
        lemma_all_wf_skip(props);
        lemma_decode_encode_props(others, extra);
        assert(seq![first] + others =~= props);
    }
}

/// Decoding undoes encoding: a well-formed frame that was written is read back
/// as it was, whatever follows it in the buffer.
pub proof fn lemma_decode_encode_then(p: PacketView, extra: Seq<u8>)
    requires
        p.wf(),
    ensures
        decode_packet(encode_packet(p) + extra) == Ok::<PacketView, FrameError>(p),
{
    let b = encode_packet(p) + extra;
    let h = encode_header(p);
    // The fixed part is read back field by field.
    assert forall|i: int| 0 <= i < 12 implies b[i] == h[i] by {}
    assert(be_u16(b[2], b[3]) == p.tid.0);
    lemma_eoj_by_bytes(eoj_at(b, 4), p.seoj);
    lemma_eoj_by_bytes(eoj_at(b, 7), p.deoj);
    lemma_code_names_service(p.esv);
    // Behind it stand the properties.
    assert(b.skip(12) =~= encode_props(p.props) + extra);
    lemma_decode_encode_props(p.props, extra);
}

/// Round trip: decoding the bytes of a well-formed frame gives the frame back.
pub proof fn lemma_decode_encode(p: PacketView)
    requires
        p.wf(),
    ensures
        decode_packet(encode_packet(p)) == Ok::<PacketView, FrameError>(p),
{
    lemma_decode_encode_then(p, Seq::empty());
    assert(encode_packet(p) + Seq::<u8>::empty() =~= encode_packet(p));
}

/// Properties that were read are well-formed, as many as were asked for, and
/// their bytes are the front of the buffer they were read from.
pub proof fn lemma_encode_decode_props(rest: Seq<u8>, n: nat)
    requires
        decode_props(rest, n) is Some,
    ensures
        decode_props(rest, n).unwrap().len() == n,
        all_wf(decode_props(rest, n).unwrap()),
        encode_props(decode_props(rest, n).unwrap()).len() <= rest.len(),
        encode_props(decode_props(rest, n).unwrap()) == rest.take(
            encode_props(decode_props(rest, n).unwrap()).len() as int,
        ),
    decreases n,
{
    let props = decode_props(rest, n).unwrap();
    if n > 0 {
        let first = front_prop(rest);
        let next = behind_front(rest);
        let tail = decode_props(next, (n - 1) as nat).unwrap();
        lemma_encode_decode_props(next, (n - 1) as nat);
        assert(props[0] == first);
        assert(props.skip(1) =~= tail);
        assert forall|i: int| 0 <= i < props.len() implies (#[trigger] props[i]).wf() by {
            if i > 0 {
                assert(props[i] == tail[i - 1]);
            }
        }
        // The first property gives back the bytes it was read from, and the
        // others give back those behind it.
        lemma_protocol_plain(rest.subrange(2, 2 + rest[1]), Seq::empty());
        assert(encode_prop(first) =~= rest.take(2 + rest[1]));
        assert(encode_props(props) =~= rest.take(2 + rest[1] + encode_props(tail).len() as int));
    }
}

/// Encoding undoes decoding, up to what the decoder does not look at: a frame
/// that was read is well-formed, and its bytes are the front of the buffer.
pub proof fn lemma_encode_decode(b: Seq<u8>)
    requires
        decode_packet(b) is Ok,
    ensures
        decode_packet(b).unwrap().wf(),
        encode_packet(decode_packet(b).unwrap()).len() <= b.len(),
        encode_packet(decode_packet(b).unwrap()) == b.take(
            encode_packet(decode_packet(b).unwrap()).len() as int,
        ),
{
    let p = decode_packet(b).unwrap();
    lemma_encode_decode_props(b.skip(12), b[11] as nat);
    assert(p.esv.spec_code() == b[10]);
    assert(encode_header(p) =~= b.take(12));
    assert(encode_packet(p) =~= b.take(12 + encode_props(p.props).len() as int));
}

/// A buffer with a sound fixed part that ends inside one of the properties
/// that its count announces is rejected as truncated: `k` properties stand
/// whole behind the fixed part, the count asks for more, and no whole property
/// follows them.
pub proof fn lemma_truncated_property(b: Seq<u8>, k: nat)
    requires
        b.len() >= 12,
        magic(b),
        ESV::of_code(b[10]) is Some,
        k < b[11],
        decode_props(b.skip(12), k) is Some,
        truncated(behind_props(b.skip(12), k)),
    ensures
        decode_packet(b) == Err::<PacketView, FrameError>(FrameError::PropertyTruncated),
{
    lemma_truncated_props(b.skip(12), k, b[11] as nat);
}

/// Where `k` properties stand whole at the front of `rest` and no whole
/// property follows them, more than `k` properties cannot be read.
pub proof fn lemma_truncated_props(rest: Seq<u8>, k: nat, n: nat)
    requires
        k < n,
        decode_props(rest, k) is Some,
        truncated(behind_props(rest, k)),
    ensures
        decode_props(rest, n) is None,
    decreases k,
{
    if k > 0 {
        lemma_truncated_props(behind_front(rest), (k - 1) as nat, (n - 1) as nat);
    }
}

} // verus!
