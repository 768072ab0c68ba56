use rdpdk::cmdline::arg::ArgData;
use rdpdk::cmdline::error::FlowError;
use rdpdk::cmdline::flow::items::l2net::EthLayout;
use rdpdk::cmdline::flow::items::l3net::Ipv4Layout;
use rdpdk::cmdline::flow::items::{FlowItems, ItemData, ItemLayouts, ITEM_TYPE_END};

const ETH: u32 = 9;
const IPV4: u32 = 11;

fn layouts() -> ItemLayouts {
    ItemLayouts {
        eth: EthLayout {
            item_type: ETH as isize,
            item_size: 14,
            src_offset: 6,
            dst_offset: 0,
            type_offset: 12,
        },
        ipv4: Ipv4Layout {
            item_type: IPV4 as isize,
            item_size: 20,
            src_offset: 12,
            dst_offset: 16,
            next_proto_offset: 9,
        },
    }
}

fn words(line: &str) -> Vec<String> {
    line.split_ascii_whitespace().map(|x| x.to_string()).collect()
}

#[test]
fn eth_ipv4_dst_compiles_to_three_entries() {
    let mut items = FlowItems::new(&layouts());
    let mut input = words("eth / ipv4 dst is 10.0.0.1 / end actions drop / end");
    assert_eq!(items.parse_pattern(&mut input), Ok(()));
    assert_eq!(input, words("actions drop / end"));

    let raw = items.get_raw_pattern();
    assert_eq!(raw.len(), 3);

    assert_eq!(raw[0].type_, ETH);
    assert!(raw[0].spec.is_none());
    assert!(raw[0].mask.is_none());
    assert!(raw[0].last.is_none());

    assert_eq!(raw[1].type_, IPV4);
    let spec = raw[1].spec.expect("the value of the ipv4 item");
    let mask = raw[1].mask.expect("the mask of the ipv4 item");
    assert_eq!(&spec.data()[16..20], &[10, 0, 0, 1]);
    assert_eq!(&mask.data()[16..20], &[0xff, 0xff, 0xff, 0xff]);
    for i in 0..64 {
        if !(16..20).contains(&i) {
            assert_eq!(spec.data()[i], 0);
            assert_eq!(mask.data()[i], 0);
        }
    }
    assert_eq!(spec.size(), 20);
    assert_eq!(mask.size(), 20);

    assert_eq!(raw[2].type_, ITEM_TYPE_END);
    assert!(raw[2].spec.is_none());
    assert!(raw[2].mask.is_none());
}

#[test]
fn terminator_alone_is_one_entry_without_payload() {
    let mut items = FlowItems::new(&layouts());
    let mut input = words("end");
    assert_eq!(items.parse_pattern(&mut input), Ok(()));
    assert!(input.is_empty());
    let raw = items.get_raw_pattern();
    assert_eq!(raw.len(), 1);
    assert_eq!(raw[0].type_, ITEM_TYPE_END);
    let payload: usize = raw
        .iter()
        .map(|e| {
            e.spec.map_or(0, |a| a.size())
                + e.mask.map_or(0, |a| a.size())
                + e.last.map_or(0, |a| a.size())
        })
        .sum();
    assert_eq!(payload, 0);
}

#[test]
fn is_sets_value_and_full_mask() {
    let mut data = ItemData::new();
    assert_eq!(data.is_mod(&[0x12, 0x34], 3), Ok(()));
    assert_eq!(&data.spec.data()[3..5], &[0x12, 0x34]);
    assert_eq!(&data.mask.data()[3..5], &[0xff, 0xff]);
    assert_eq!(data.spec.data()[2], 0);
    assert_eq!(data.spec.data()[5], 0);
    assert_eq!(data.mask.data()[2], 0);
    assert_eq!(data.mask.data()[5], 0);
    assert_eq!(data.last.size(), 0);
    assert_eq!(data.spec.size(), 5);
}

#[test]
fn spec_and_mask_commute() {
    let mut a = ItemData::new();
    a.spec_mod(&[1, 2, 3], 4).unwrap();
    a.mask_mod(&[0xf0, 0x0f, 0xff], 4).unwrap();
    let mut b = ItemData::new();
    b.mask_mod(&[0xf0, 0x0f, 0xff], 4).unwrap();
    b.spec_mod(&[1, 2, 3], 4).unwrap();
    assert_eq!(a.spec.data(), b.spec.data());
    assert_eq!(a.mask.data(), b.mask.data());
    assert_eq!(&a.spec.data()[4..7], &[1, 2, 3]);
    assert_eq!(&a.mask.data()[4..7], &[0xf0, 0x0f, 0xff]);
}

#[test]
fn unknown_modifier_is_unknown_keyword() {
    let mut items = FlowItems::new(&layouts());
    let mut input = words("ipv4 dst near 10.0.0.1 / end");
    assert_eq!(items.parse_pattern(&mut input), Err(FlowError::UnknownKeyword));
}

#[test]
fn bad_literal_is_invalid_argument() {
    let mut items = FlowItems::new(&layouts());
    let mut input = words("ipv4 dst is 10.0.0 / end");
    assert_eq!(items.parse_pattern(&mut input), Err(FlowError::InvalidArgument));
    assert_eq!(input, words("dst is 10.0.0 / end"));
}

#[test]
fn write_beyond_capacity_is_out_of_bounds() {
    let mut buffer = ArgData::new();
    assert_eq!(buffer.or_from_slice(&[1, 2], 63), Err(FlowError::OutOfBounds));
    assert_eq!(buffer.or_from_slice(&[1, 2], 62), Ok(()));
    assert_eq!(buffer.size(), 64);
}

#[test]
fn separator_alone_finishes_a_wildcard_item() {
    let mut items = FlowItems::new(&layouts());
    let mut input = words("eth / end");
    assert_eq!(items.parse_pattern(&mut input), Ok(()));
    let finished = items.context().items();
    assert_eq!(finished.len(), 2);
    assert_eq!(finished[0].itype, ETH);
    assert!(finished[0].data.is_none());
    assert_eq!(finished[1].itype, ITEM_TYPE_END);
    assert_eq!(items.context().id(), ITEM_TYPE_END);
    assert!(items.context().data().is_none());
}

#[test]
fn item_without_separator_is_not_finished() {
    let mut items = FlowItems::new(&layouts());
    let mut input = words("ipv4 src spec 1.2.3.4 pattern");
    assert_eq!(items.parse_pattern(&mut input), Ok(()));
    assert_eq!(input, words("pattern"));
    assert_eq!(items.context().id(), IPV4);
    assert_eq!(items.context().size(), 20);
    assert!(items.context().items().is_empty());
    assert!(items.get_raw_pattern().is_empty());
    let data = items.context().data().expect("the buffers of the item");
    assert_eq!(&data.spec.data()[12..16], &[1, 2, 3, 4]);
    assert_eq!(data.mask.data(), &[0u8; 64]);
    assert_eq!(data.spec.size(), 20);
    assert_eq!(data.mask.size(), 20);
    assert_eq!(data.last.size(), 20);
}

#[test]
fn all_modifiers_of_one_item() {
    let mut items = FlowItems::new(&layouts());
    let mut input = words(
        "eth dst is aa:bb:cc:dd:ee:ff src spec 1:2:3:4:5:6 src mask ff:ff:ff:0:0:0 \
         type is 0x0800 type last 0x0806 / end",
    );
    assert_eq!(items.parse_pattern(&mut input), Ok(()));
    assert!(input.is_empty());
    let raw = items.get_raw_pattern();
    assert_eq!(raw.len(), 2);
    let spec = raw[0].spec.unwrap();
    let mask = raw[0].mask.unwrap();
    let last = raw[0].last.unwrap();
    assert_eq!(&spec.data()[0..14], &[0xaa, 0xbb, 0xcc, 0xdd, 0xee, 0xff, 1, 2, 3, 4, 5, 6, 8, 0]);
    assert_eq!(
        &mask.data()[0..14],
        &[0xff, 0xff, 0xff, 0xff, 0xff, 0xff, 0xff, 0xff, 0xff, 0, 0, 0, 0xff, 0xff]
    );
    assert_eq!(&last.data()[0..14], &[0, 0, 0, 0, 0, 0, 0, 0, 0, 0, 0, 0, 8, 6]);
    assert_eq!(spec.size(), 14);
}

#[test]
fn repeated_fields_accumulate() {
    let mut items = FlowItems::new(&layouts());
    let mut input = words("ipv4 next_proto spec 0x01 next_proto spec 0x10 / end");
    assert_eq!(items.parse_pattern(&mut input), Ok(()));
    let raw = items.get_raw_pattern();
    assert_eq!(raw[0].spec.unwrap().data()[9], 0x11);
}

#[test]
fn field_that_ends_early_is_invalid_argument() {
    for line in ["ipv4 dst", "ipv4 dst is", "eth type"] {
        let mut items = FlowItems::new(&layouts());
        let mut input = words(line);
        assert_eq!(items.parse_pattern(&mut input), Err(FlowError::InvalidArgument), "{}", line);
    }
}

#[test]
fn literal_is_read_before_the_modifier() {
    let mut items = FlowItems::new(&layouts());
    let mut input = words("ipv4 dst near 10.0.0 / end");
    assert_eq!(items.parse_pattern(&mut input), Err(FlowError::InvalidArgument));
}

#[test]
fn empty_pattern_changes_nothing() {
    let mut items = FlowItems::new(&layouts());
    let mut input: Vec<String> = Vec::new();
    assert_eq!(items.parse_pattern(&mut input), Ok(()));
    assert!(items.get_raw_pattern().is_empty());
    let mut input = words("vlan / end");
    assert_eq!(items.parse_pattern(&mut input), Ok(()));
    assert_eq!(input, words("vlan / end"));
    assert!(items.get_raw_pattern().is_empty());
}

#[test]
fn modifiers_report_the_bounds() {
    let mut data = ItemData::new();
    assert_eq!(data.spec_mod(&[1, 2], 63), Err(FlowError::OutOfBounds));
    assert_eq!(data.mask_mod(&[1, 2], 63), Err(FlowError::OutOfBounds));
    assert_eq!(data.last_mod(&[1, 2], 63), Err(FlowError::OutOfBounds));
    assert_eq!(data.is_mod(&[1, 2], 63), Err(FlowError::OutOfBounds));
    assert_eq!(data.modify("is", &[1, 2], 63), Err(FlowError::OutOfBounds));
    assert_eq!(data.modify("was", &[1, 2], 63), Err(FlowError::UnknownKeyword));
    assert_eq!(data.modify("IS", &[1, 2], 0), Err(FlowError::UnknownKeyword));
    assert_eq!(data.spec.size(), 0);
    assert_eq!(data.modify("last", &[1, 2], 62), Ok(()));
    assert_eq!(&data.last.data()[62..], &[1, 2]);
    assert_eq!(data.last.size(), 64);
    assert_eq!(data.spec.size(), 0);
    let sized = ItemData::new_from_size(20);
    assert_eq!(sized.spec.size(), 20);
    assert_eq!(sized.mask.size(), 20);
    assert_eq!(sized.last.size(), 20);
}

#[test]
fn terminal_begins_an_item_with_sized_buffers() {
    let mut items = FlowItems::new(&layouts());
    let mut input = words("eth");
    assert_eq!(items.parse_pattern(&mut input), Ok(()));
    assert_eq!(items.context().id(), ETH);
    assert_eq!(items.context().size(), 14);
    assert!(!items.context().touched());
    let data = items.context().data().expect("the buffers of the item");
    for buffer in [data.spec, data.mask, data.last] {
        assert_eq!(buffer.size(), 14);
        assert_eq!(buffer.data(), &[0u8; 64]);
    }
}

#[test]
fn terminal_begins_anew_without_a_separator() {
    let mut items = FlowItems::new(&layouts());
    let mut input = words("eth dst is 1:2:3:4:5:6 ipv4 / end");
    assert_eq!(items.parse_pattern(&mut input), Ok(()));
    let raw = items.get_raw_pattern();
    assert_eq!(raw.len(), 2);
    assert_eq!(raw[0].type_, IPV4);
    assert!(raw[0].spec.is_none());
    assert!(raw[0].mask.is_none());
    assert!(raw[0].last.is_none());
}

#[test]
fn item_with_a_field_leads_to_all_three_buffers() {
    let mut items = FlowItems::new(&layouts());
    let mut input = words("ipv4 next_proto mask 0xff / end");
    assert_eq!(items.parse_pattern(&mut input), Ok(()));
    let raw = items.get_raw_pattern();
    assert_eq!(raw[0].spec.unwrap().data(), &[0u8; 64]);
    assert_eq!(raw[0].mask.unwrap().data()[9], 0xff);
    assert_eq!(raw[0].last.unwrap().data(), &[0u8; 64]);
    assert_eq!(raw[0].last.unwrap().size(), 20);
}
