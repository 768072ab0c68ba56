use rdpdk::cmdline::arg::arg_int::{ArgInt, ByteOrder};
use rdpdk::cmdline::arg::arg_net::Ipv4AddrArg;
use rdpdk::cmdline::arg::Arg;
use rdpdk::cmdline::error::FlowError;
use rdpdk::cmdline::flow::items::l2net::{flow_item_create_eth, EthLayout};
use rdpdk::cmdline::flow::items::l3net::Ipv4Layout;
use rdpdk::cmdline::flow::items::{
    FlowItems, Item, ItemEnd, ItemLayouts, ItemNode, ItemOps, ItemSeparator, ItemsParserContext,
    ITEM_TYPE_END,
};
use rdpdk::cmdline::node_map::{str_eq, NodeMap};
use rdpdk::cmdline::param::Param;

fn layouts() -> ItemLayouts {
    ItemLayouts {
        eth: EthLayout { item_type: 9, item_size: 14, src_offset: 6, dst_offset: 0, type_offset: 12 },
        ipv4: Ipv4Layout {
            item_type: 11,
            item_size: 20,
            src_offset: 12,
            dst_offset: 16,
            next_proto_offset: 9,
        },
    }
}

fn words(line: &str) -> Vec<String> {
    line.split_ascii_whitespace().map(|x| x.to_string()).collect()
}

fn leaf(name: &str, arg: Box<dyn Arg>, offset: usize) -> Param {
    Param::from(name, None, None, Some(vec![(arg, offset)]))
}

#[test]
fn texts_compare_by_their_characters() {
    assert!(str_eq("", ""));
    assert!(str_eq("end", "end"));
    assert!(!str_eq("end", "eth"));
    assert!(!str_eq("end", "en"));
    assert!(!str_eq("é", "e"));
    assert!(str_eq("é/", "é/"));
}

#[test]
fn node_map_keeps_the_last_value() {
    let mut map: NodeMap<u32> = NodeMap::new();
    assert_eq!(map.get("a"), None);
    map.insert("a".to_string(), 1);
    map.insert("b".to_string(), 2);
    assert_eq!(map.get("a"), Some(&1));
    assert_eq!(map.get("b"), Some(&2));
    map.insert("a".to_string(), 3);
    assert_eq!(map.get("a"), Some(&3));
    assert_eq!(map.get("b"), Some(&2));
    assert_eq!(map.get("c"), None);
    assert_eq!(map.get(""), None);
}

#[test]
fn second_registration_replaces_the_first() {
    let mut items = FlowItems::new(&layouts());
    let first = Param::from("udp", Some(14), Some(8), None);
    let second = Param::from("udp", Some(15), Some(20), None);
    items.register(Item::from(ItemNode::Param(first), None));
    items.register(Item::from(ItemNode::Param(second), None));
    let mut input = words("udp / end");
    assert_eq!(items.parse_pattern(&mut input), Ok(()));
    let raw = items.get_raw_pattern();
    assert_eq!(raw.len(), 2);
    assert_eq!(raw[0].type_, 15);
}

#[test]
fn registration_replaces_a_built_in_item() {
    let mut items = FlowItems::new(&layouts());
    let moved = EthLayout { item_type: 77, item_size: 14, src_offset: 0, dst_offset: 6, type_offset: 12 };
    flow_item_create_eth(&mut items, &moved);
    let mut input = words("eth src is 1:2:3:4:5:6 / end");
    assert_eq!(items.parse_pattern(&mut input), Ok(()));
    let raw = items.get_raw_pattern();
    assert_eq!(raw[0].type_, 77);
    assert_eq!(&raw[0].spec.unwrap().data()[0..6], &[1, 2, 3, 4, 5, 6]);
    assert!(items.lookup("eth").is_some());
    assert!(items.lookup("vlan").is_none());
    assert_eq!(items.lookup("end").unwrap().name(), "end");
}

#[test]
fn second_field_of_a_name_replaces_the_first() {
    let mut items = FlowItems::new(&layouts());
    let gre = Param::from("gre", Some(20), Some(4), None);
    let first = leaf("protocol", Box::new(ArgInt::<u16>::new_with_order(ByteOrder::BigEndian)), 0);
    let second = leaf("protocol", Box::new(ArgInt::<u16>::new_with_order(ByteOrder::BigEndian)), 2);
    items.register(Item::from(ItemNode::Param(gre), Some(vec![first, second])));
    let mut input = words("gre protocol is 0x6558 / end");
    assert_eq!(items.parse_pattern(&mut input), Ok(()));
    let raw = items.get_raw_pattern();
    assert_eq!(raw[0].type_, 20);
    assert_eq!(&raw[0].spec.unwrap().data()[0..4], &[0, 0, 0x65, 0x58]);
    assert_eq!(&raw[0].mask.unwrap().data()[0..4], &[0, 0, 0xff, 0xff]);
    assert_eq!(raw[0].spec.unwrap().size(), 4);
}

#[test]
fn field_beyond_the_capacity_is_out_of_bounds() {
    let mut items = FlowItems::new(&layouts());
    let wide = Param::from("wide", Some(30), Some(64), None);
    let far = leaf("far", Box::new(Ipv4AddrArg::new()), 61);
    let near = leaf("near", Box::new(Ipv4AddrArg::new()), 60);
    items.register(Item::from(ItemNode::Param(wide), Some(vec![far, near])));
    let mut input = words("wide near is 1.2.3.4 far is 1.2.3.4 / end");
    assert_eq!(items.parse_pattern(&mut input), Err(FlowError::OutOfBounds));
    assert_eq!(input, words("far is 1.2.3.4 / end"));
    let data = items.context().data().unwrap();
    assert_eq!(&data.spec.data()[60..], &[1, 2, 3, 4]);
}

#[test]
fn payload_beyond_the_capacity_is_out_of_bounds() {
    let mut items = FlowItems::new(&layouts());
    let huge = Param::from("huge", Some(31), Some(65), None);
    items.register(Item::from(ItemNode::Param(huge), None));
    let mut input = words("huge / end");
    assert_eq!(items.parse_pattern(&mut input), Err(FlowError::OutOfBounds));
    assert_eq!(input, words("huge / end"));
    assert_eq!(items.context().id(), ITEM_TYPE_END);
}

#[test]
fn nodes_read_through_their_trait() {
    let mut context = ItemsParserContext::new();
    let mut input = words("ipv4 / end rest");
    let ipv4 = Param::from("ipv4", Some(11), Some(20), None);
    assert_eq!(ItemOps::name(&ipv4), "ipv4");
    assert_eq!(ipv4.terminal(), Some((11, 20)));
    assert_eq!(ipv4.field_offset(), None);
    assert_eq!(ipv4.parse_item(&mut input, &mut context), Ok(()));
    assert_eq!(context.id(), 11);
    let separator = ItemSeparator::new();
    assert_eq!(separator.name(), "/");
    assert_eq!(separator.parse_item(&mut input, &mut context), Ok(()));
    let end = ItemNode::End(ItemEnd::new());
    assert_eq!(end.name(), "end");
    assert_eq!(end.parse_item(&mut input, &mut context), Ok(()));
    assert_eq!(input, words("rest"));
    assert_eq!(context.raw().len(), 2);
    let mut none: Vec<String> = Vec::new();
    assert_eq!(end.parse_item(&mut none, &mut context), Err(FlowError::InvalidArgument));
    assert_eq!(context.into_raw().len(), 2);
    let dst = leaf("dst", Box::new(Ipv4AddrArg::new()), 16);
    assert_eq!(dst.keyword(), "dst");
    assert_eq!(dst.terminal(), None);
    assert_eq!(dst.field_offset(), Some(16));
}
