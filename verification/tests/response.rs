use echonet::error::ResponseError;
use echonet::packet::{ElU16, ElU8, Packet, Prop, EDT, EOJ, ESV};
use echonet::property_map::parse_property_map;
use echonet::response::{DiscoveryResponse, SyncResponse, SVI};

fn eoj(a: u8, b: u8, c: u8) -> EOJ {
    EOJ([ElU8(a), ElU8(b), ElU8(c)])
}

fn prop(epc: u8, data: Vec<u8>) -> Prop {
    Prop { epc: ElU8(epc), pdc: ElU8(data.len() as u8), edt: EDT::from(data) }
}

fn codes(bytes: &[u8]) -> Vec<ElU8> {
    bytes.iter().map(|&b| ElU8(b)).collect()
}

#[test]
fn test_parse_property_map() {
    {
        let edt = EDT(vec![
            ElU8(0x08),
            ElU8(0x80),
            ElU8(0x81),
            ElU8(0x8f),
            ElU8(0x93),
            ElU8(0xa0),
            ElU8(0xa3),
            ElU8(0xb0),
            ElU8(0xb3),
        ]);
        assert_eq!(
            parse_property_map(&edt),
            Ok(vec![
                ElU8(0x80),
                ElU8(0x81),
                ElU8(0x8f),
                ElU8(0x93),
                ElU8(0xa0),
                ElU8(0xa3),
                ElU8(0xb0),
                ElU8(0xb3),
            ])
        );
    }
    {
        let edt = EDT(vec![
            ElU8(0x12),
            ElU8(0x0d),
            ElU8(0x01),
            ElU8(0x01),
            ElU8(0x0f),
            ElU8(0x00),
            ElU8(0x00),
            ElU8(0x00),
            ElU8(0x00),
            ElU8(0x01),
            ElU8(0x01),
            ElU8(0x01),
            ElU8(0x08),
            ElU8(0x00),
            ElU8(0x02),
            ElU8(0x0a),
            ElU8(0x03),
        ]);
        assert_eq!(
            parse_property_map(&edt),
            Ok(vec![
                ElU8(0x80),
                ElU8(0xA0),
                ElU8(0xB0),
                ElU8(0x81),
                ElU8(0x82),
                ElU8(0x83),
                ElU8(0x93),
                ElU8(0xA3),
                ElU8(0xB3),
                ElU8(0x88),
                ElU8(0x89),
                ElU8(0x8A),
                ElU8(0xBB),
                ElU8(0x9D),
                ElU8(0x9E),
                ElU8(0xBE),
                ElU8(0x8F),
                ElU8(0x9F)
            ])
        );
    }
}

#[test]
fn test_sync_response_try_from() {
    let packet = Packet {
        tid: ElU16(0x01),
        seoj: EOJ::try_from(vec![ElU8(0x01), ElU8(0x30), ElU8(0x01)]).unwrap(),
        deoj: EOJ::try_from(vec![ElU8(0x05), ElU8(0xFF), ElU8(0x01)]).unwrap(),
        esv: ESV::GetRes,
        opc: ElU8(0x03),
        props: vec![
            Prop {
                epc: ElU8(0x82),
                pdc: ElU8(0x04),
                edt: EDT(vec![ElU8(0x00), ElU8(0x00), ElU8(0x52), ElU8(0x00)]),
            },
            Prop {
                epc: ElU8(0x9D),
                pdc: ElU8(0x07),
                edt: EDT(vec![
                    ElU8(0x06),
                    ElU8(0x80),
                    ElU8(0x81),
                    ElU8(0x88),
                    ElU8(0x8F),
                    ElU8(0xA0),
                    ElU8(0xB0),
                ]),
            },
            Prop {
                epc: ElU8(0x9E),
                pdc: ElU8(0x09),
                edt: EDT(vec![
                    ElU8(0x08),
                    ElU8(0x80),
                    ElU8(0x81),
                    ElU8(0x8F),
                    ElU8(0x93),
                    ElU8(0xA0),
                    ElU8(0xA3),
                    ElU8(0xB0),
                    ElU8(0xB3),
                ]),
            },
            Prop {
                epc: ElU8(0x9F),
                pdc: ElU8(0x11),
                edt: EDT(vec![
                    ElU8(0x12),
                    ElU8(0x0D),
                    ElU8(0x01),
                    ElU8(0x01),
                    ElU8(0x0F),
                    ElU8(0x00),
                    ElU8(0x00),
                    ElU8(0x00),
                    ElU8(0x00),
                    ElU8(0x01),
                    ElU8(0x01),
                    ElU8(0x01),
                    ElU8(0x08),
                    ElU8(0x00),
                    ElU8(0x02),
                    ElU8(0x0A),
                    ElU8(0x03),
                ]),
            },
        ],
    };
    let response = SyncResponse::try_from(&packet);
    if response.is_err() {
        println!("{:?}", &response);
    }
    assert!(response.is_ok());
    assert_eq!(
        response.unwrap(),
        SyncResponse {
            eoj: EOJ::try_from(vec![ElU8(0x01), ElU8(0x30), ElU8(0x01)]).unwrap(),
            svi: SVI([ElU8(0x00), ElU8(0x00), ElU8(0x52), ElU8(0x00)]),
            anno_props: vec![
                ElU8(0x80),
                ElU8(0x81),
                ElU8(0x88),
                ElU8(0x8F),
                ElU8(0xA0),
                ElU8(0xB0),
            ],
            set_props: vec![
                ElU8(0x80),
                ElU8(0x81),
                ElU8(0x8F),
                ElU8(0x93),
                ElU8(0xA0),
                ElU8(0xA3),
                ElU8(0xB0),
                ElU8(0xB3),
            ],
            get_props: vec![
                ElU8(0x80),
                ElU8(0xA0),
                ElU8(0xB0),
                ElU8(0x81),
                ElU8(0x82),
                ElU8(0x83),
                ElU8(0x93),
                ElU8(0xA3),
                ElU8(0xB3),
                ElU8(0x88),
                ElU8(0x89),
                ElU8(0x8A),
                ElU8(0xBB),
                ElU8(0x9D),
                ElU8(0x9E),
                ElU8(0xBE),
                ElU8(0x8F),
                ElU8(0x9F),
            ],
        }
    );
}

#[test]
fn test_discovery_response_try_from() {
    let packet = Packet {
        tid: ElU16(0x01),
        seoj: EOJ::try_from(vec![ElU8(0x0E), ElU8(0xF0), ElU8(0x01)]).unwrap(),
        deoj: EOJ::try_from(vec![ElU8(0x05), ElU8(0xFF), ElU8(0x01)]).unwrap(),
        esv: ESV::GetRes,
        opc: ElU8(0x01),
        props: vec![Prop {
            epc: ElU8(0xD6),
            pdc: ElU8(0x04),
            edt: EDT(vec![
                ElU8(0x02),
                ElU8(0x01),
                ElU8(0x30),
                ElU8(0x01),
                ElU8(0x02),
                ElU8(0x7B),
                ElU8(0x01),
            ]),
        }],
    };
    let response = DiscoveryResponse::try_from(&packet);
    if response.is_err() {
        println!("{:?}", &response);
    }
    assert!(response.is_ok());
    assert_eq!(
        response.unwrap(),
        DiscoveryResponse {
            eoj: EOJ::try_from(vec![ElU8(0x0E), ElU8(0xF0), ElU8(0x01)]).unwrap(),
            instances: vec![
                EOJ::try_from(vec![ElU8(0x01), ElU8(0x30), ElU8(0x01)]).unwrap(),
                EOJ::try_from(vec![ElU8(0x02), ElU8(0x7B), ElU8(0x01)]).unwrap(),
            ],
        }
    );
}

#[test]
fn property_map_list_is_taken_as_it_stands() {
    // The count bounds nothing: fewer and more codes than announced are kept.
    assert_eq!(parse_property_map(&EDT::from(vec![0x03, 0x80])), Ok(codes(&[0x80])));
    assert_eq!(
        parse_property_map(&EDT::from(vec![0x01, 0x80, 0x81, 0x82])),
        Ok(codes(&[0x80, 0x81, 0x82]))
    );
    assert_eq!(parse_property_map(&EDT::from(vec![0x00])), Ok(vec![]));
    assert_eq!(parse_property_map(&EDT::from(vec![0x0F])), Ok(vec![]));
}

#[test]
fn property_map_needs_a_count_byte() {
    assert_eq!(parse_property_map(&EDT::from(vec![])), Err(ResponseError::MalformedProperty));
}

#[test]
fn property_map_table_needs_sixteen_bytes() {
    for len in 0..16 {
        let mut data = vec![0x10u8];
        data.extend(std::iter::repeat(0xFF).take(len));
        assert_eq!(parse_property_map(&EDT::from(data)), Err(ResponseError::MalformedProperty));
    }
}

#[test]
fn property_map_table_maps_bit_j_of_byte_i() {
    for i in 0..16usize {
        for j in 0..8usize {
            let mut data = vec![0u8; 17];
            data[0] = 0x10;
            data[1 + i] = 1 << j;
            assert_eq!(
                parse_property_map(&EDT::from(data)),
                Ok(vec![ElU8((0x80 + 0x10 * j + i) as u8)])
            );
        }
    }
}

#[test]
fn property_map_table_lists_bytes_first_and_bits_second() {
    let mut data = vec![0xFFu8; 17];
    data[0] = 0x80;
    let all = parse_property_map(&EDT::from(data)).unwrap();
    assert_eq!(all.len(), 128);
    let mut expected = Vec::new();
    for i in 0..16u8 {
        for j in 0..8u8 {
            expected.push(ElU8(0x80 + 0x10 * j + i));
        }
    }
    assert_eq!(all, expected);
    assert_eq!(all[0], ElU8(0x80));
    assert_eq!(all[1], ElU8(0x90));
    assert_eq!(all[8], ElU8(0x81));
    assert_eq!(all[127], ElU8(0xFF));
}

#[test]
fn property_map_table_ignores_what_follows_it() {
    let mut data = vec![0u8; 17];
    data[0] = 0x11;
    data[16] = 0x80;
    let exact = parse_property_map(&EDT::from(data.clone()));
    assert_eq!(exact, Ok(vec![ElU8(0xFF)]));
    data.extend_from_slice(&[0xFF, 0xFF]);
    assert_eq!(parse_property_map(&EDT::from(data)), exact);
}

#[test]
fn property_map_table_starts_at_count_sixteen() {
    let mut data = vec![0u8; 17];
    data[0] = 0x0F;
    data[1] = 0x01;
    assert_eq!(parse_property_map(&EDT::from(data.clone())).unwrap().len(), 16);
    data[0] = 0x10;
    assert_eq!(parse_property_map(&EDT::from(data)), Ok(vec![ElU8(0x80)]));
}

fn discovery_frame(data: Vec<u8>) -> Packet {
    Packet {
        tid: ElU16(9),
        seoj: eoj(0x0E, 0xF0, 0x01),
        deoj: eoj(0x05, 0xFF, 0x01),
        esv: ESV::GetRes,
        opc: ElU8(1),
        props: vec![prop(0xD6, data)],
    }
}

#[test]
fn discovery_lists_the_instances_in_order() {
    let frame = discovery_frame(vec![0x02, 0x01, 0x30, 0x01, 0x02, 0x7B, 0x01]);
    assert_eq!(
        DiscoveryResponse::try_from(&frame),
        Ok(DiscoveryResponse {
            eoj: eoj(0x0E, 0xF0, 0x01),
            instances: vec![eoj(0x01, 0x30, 0x01), eoj(0x02, 0x7B, 0x01)],
        })
    );
}

#[test]
fn discovery_count_byte_bounds_nothing() {
    let frame = discovery_frame(vec![0x09, 0x01, 0x30, 0x01]);
    assert_eq!(DiscoveryResponse::try_from(&frame).unwrap().instances, vec![eoj(1, 0x30, 1)]);
    let frame = discovery_frame(vec![0x00, 0x01, 0x30, 0x01, 0x01, 0x30, 0x02]);
    assert_eq!(
        DiscoveryResponse::try_from(&frame).unwrap().instances,
        vec![eoj(1, 0x30, 1), eoj(1, 0x30, 2)]
    );
}

#[test]
fn discovery_accepts_an_empty_list() {
    let frame = discovery_frame(vec![0x00]);
    assert_eq!(
        DiscoveryResponse::try_from(&frame),
        Ok(DiscoveryResponse { eoj: eoj(0x0E, 0xF0, 0x01), instances: vec![] })
    );
}

#[test]
fn discovery_rejects_a_cut_instance_list() {
    for data in [vec![], vec![1, 1], vec![1, 1, 0x30], vec![2, 1, 0x30, 1, 2], vec![2, 1, 0x30, 1, 2, 0x7B]] {
        let frame = discovery_frame(data);
        assert_eq!(DiscoveryResponse::try_from(&frame), Err(ResponseError::InvalidInstanceList));
    }
}

#[test]
fn discovery_needs_the_right_addresses() {
    let mut frame = discovery_frame(vec![0]);
    frame.deoj = eoj(0x05, 0xFF, 0x02);
    assert_eq!(DiscoveryResponse::try_from(&frame), Err(ResponseError::AddressMismatch));
    let mut frame = discovery_frame(vec![0]);
    frame.seoj = eoj(0x01, 0x30, 0x01);
    assert_eq!(DiscoveryResponse::try_from(&frame), Err(ResponseError::AddressMismatch));
}

#[test]
fn discovery_needs_the_instance_list() {
    let mut frame = discovery_frame(vec![0]);
    frame.props[0].epc = ElU8(0xD5);
    assert_eq!(
        DiscoveryResponse::try_from(&frame),
        Err(ResponseError::MissingProperty(ElU8(0xD6)))
    );
    frame.props.clear();
    assert_eq!(
        DiscoveryResponse::try_from(&frame),
        Err(ResponseError::MissingProperty(ElU8(0xD6)))
    );
}

#[test]
fn discovery_reads_the_first_instance_list() {
    let mut frame = discovery_frame(vec![1, 1, 0x30, 1]);
    frame.props.push(prop(0xD6, vec![1, 2, 0x7B, 1]));
    assert_eq!(DiscoveryResponse::try_from(&frame).unwrap().instances, vec![eoj(1, 0x30, 1)]);
}

fn sync_frame() -> Packet {
    Packet {
        tid: ElU16(9),
        seoj: eoj(0x01, 0x30, 0x01),
        deoj: eoj(0x05, 0xFF, 0x01),
        esv: ESV::GetRes,
        opc: ElU8(4),
        props: vec![
            prop(0x82, vec![0x00, 0x00, 0x52, 0x00]),
            prop(0x9D, vec![0x02, 0x80, 0x81]),
            prop(0x9F, vec![0x01, 0x9F]),
            prop(0x9E, vec![0x00]),
        ],
    }
}

#[test]
fn sync_decodes_each_field_on_its_own() {
    assert_eq!(
        SyncResponse::try_from(&sync_frame()),
        Ok(SyncResponse {
            eoj: eoj(0x01, 0x30, 0x01),
            svi: SVI([ElU8(0), ElU8(0), ElU8(0x52), ElU8(0)]),
            anno_props: codes(&[0x80, 0x81]),
            get_props: codes(&[0x9F]),
            set_props: vec![],
        })
    );
}

#[test]
fn sync_takes_any_source() {
    let mut frame = sync_frame();
    frame.seoj = eoj(0x0E, 0xF0, 0x01);
    assert_eq!(SyncResponse::try_from(&frame).unwrap().eoj, eoj(0x0E, 0xF0, 0x01));
}

#[test]
fn sync_needs_the_controller_as_destination() {
    let mut frame = sync_frame();
    frame.deoj = eoj(0x05, 0xFF, 0x02);
    assert_eq!(SyncResponse::try_from(&frame), Err(ResponseError::AddressMismatch));
}

#[test]
fn sync_reports_the_missing_property() {
    for (at, code) in [(0usize, 0x82u8), (1, 0x9D), (2, 0x9F), (3, 0x9E)] {
        let mut frame = sync_frame();
        frame.props.remove(at);
        assert_eq!(
            SyncResponse::try_from(&frame),
            Err(ResponseError::MissingProperty(ElU8(code)))
        );
    }
    // Of several missing ones, the first in the order version, announce, get,
    // set is reported.
    let mut frame = sync_frame();
    frame.props.remove(3);
    frame.props.remove(1);
    assert_eq!(SyncResponse::try_from(&frame), Err(ResponseError::MissingProperty(ElU8(0x9D))));
    frame.props.clear();
    assert_eq!(SyncResponse::try_from(&frame), Err(ResponseError::MissingProperty(ElU8(0x82))));
}

#[test]
fn sync_version_needs_four_bytes() {
    let mut frame = sync_frame();
    frame.props[0] = prop(0x82, vec![0, 0, 0x52]);
    assert_eq!(SyncResponse::try_from(&frame), Err(ResponseError::MalformedProperty));
    frame.props[0] = prop(0x82, vec![1, 2, 3, 4, 5]);
    assert_eq!(
        SyncResponse::try_from(&frame).unwrap().svi,
        SVI([ElU8(1), ElU8(2), ElU8(3), ElU8(4)])
    );
}

#[test]
fn sync_maps_must_be_whole() {
    for at in 1..4 {
        let mut frame = sync_frame();
        frame.props[at].edt = EDT(vec![]);
        assert_eq!(SyncResponse::try_from(&frame), Err(ResponseError::MalformedProperty));
        frame.props[at].edt = EDT::from(vec![0x10, 0xFF]);
        assert_eq!(SyncResponse::try_from(&frame), Err(ResponseError::MalformedProperty));
    }
}

#[test]
fn requests_are_no_responses() {
    for esv in [ESV::SetI, ESV::SetC, ESV::Get, ESV::InfReq, ESV::SetGet] {
        let mut frame = sync_frame();
        frame.esv = esv;
        assert_eq!(SyncResponse::try_from(&frame), Err(ResponseError::NotAResponse));
        assert_eq!(DiscoveryResponse::try_from(&frame), Err(ResponseError::NotAResponse));
        let mut frame = discovery_frame(vec![1, 1, 0x30, 1]);
        frame.esv = esv;
        assert_eq!(SyncResponse::try_from(&frame), Err(ResponseError::NotAResponse));
        assert_eq!(DiscoveryResponse::try_from(&frame), Err(ResponseError::NotAResponse));
        // Wrong addresses and missing properties do not change the answer.
        frame.deoj = eoj(0, 0, 0);
        frame.props.clear();
        assert_eq!(SyncResponse::try_from(&frame), Err(ResponseError::NotAResponse));
        assert_eq!(DiscoveryResponse::try_from(&frame), Err(ResponseError::NotAResponse));
    }
}

#[test]
fn notifications_and_refusals_are_no_responses() {
    for esv in [
        ESV::Inf,
        ESV::InfC,
        ESV::InfCRes,
        ESV::SetISNA,
        ESV::SetCSNA,
        ESV::GetSNA,
        ESV::InfSNA,
        ESV::SetGetSNA,
    ] {
        let mut frame = sync_frame();
        frame.esv = esv;
        assert_eq!(SyncResponse::try_from(&frame), Err(ResponseError::NotAResponse));
        let mut frame = discovery_frame(vec![0]);
        frame.esv = esv;
        assert_eq!(DiscoveryResponse::try_from(&frame), Err(ResponseError::NotAResponse));
    }
}

#[test]
fn every_normal_response_code_is_accepted() {
    for esv in [ESV::SetRes, ESV::GetRes, ESV::SetGetRes] {
        let mut frame = sync_frame();
        frame.esv = esv;
        assert!(SyncResponse::try_from(&frame).is_ok());
        let mut frame = discovery_frame(vec![0]);
        frame.esv = esv;
        assert!(DiscoveryResponse::try_from(&frame).is_ok());
    }
}
