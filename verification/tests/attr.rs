use rdpdk::cmdline::error::FlowError;
use rdpdk::cmdline::flow::attr::{AttrContext, Domain, FlowAttributes, RawAttr};

fn words(line: &str) -> Vec<String> {
    line.split_ascii_whitespace().map(|x| x.to_string()).collect()
}

const ZERO: RawAttr =
    RawAttr { group: 0, priority: 0, ingress: false, egress: false, transfer: false };

#[test]
fn no_attribute_gives_the_zero_record() {
    let mut attr = FlowAttributes::new();
    let mut input = words("pattern eth / end");
    assert_eq!(attr.parse_attr(&mut input), Ok(()));
    assert_eq!(input, words("pattern eth / end"));
    assert_eq!(*attr.get_raw_attr(), ZERO);
    assert_eq!(attr.context().domain(), None);
    assert_eq!(attr.context().group(), None);
    assert_eq!(attr.context().priority(), None);

    let mut attr = FlowAttributes::new();
    let mut input: Vec<String> = Vec::new();
    assert_eq!(attr.parse_attr(&mut input), Ok(()));
    assert_eq!(*attr.get_raw_attr(), ZERO);
}

#[test]
fn attributes_fill_the_record() {
    let mut attr = FlowAttributes::new();
    let mut input = words("ingress group 3 priority 0x10 pattern eth / end");
    assert_eq!(attr.parse_attr(&mut input), Ok(()));
    assert_eq!(input, words("pattern eth / end"));
    assert_eq!(
        *attr.get_raw_attr(),
        RawAttr { group: 3, priority: 16, ingress: true, egress: false, transfer: false }
    );
    assert_eq!(attr.context().domain(), Some(Domain::Ingress));
    assert_eq!(attr.context().group(), Some(3));
    assert_eq!(attr.context().priority(), Some(16));
}

#[test]
fn each_domain_sets_its_flag() {
    for (word, expected) in [
        ("ingress", RawAttr { ingress: true, ..ZERO }),
        ("egress", RawAttr { egress: true, ..ZERO }),
        ("transfer", RawAttr { transfer: true, ..ZERO }),
    ] {
        let mut attr = FlowAttributes::new();
        let mut input = words(word);
        assert_eq!(attr.parse_attr(&mut input), Ok(()));
        assert!(input.is_empty());
        assert_eq!(*attr.get_raw_attr(), expected);
    }
}

#[test]
fn the_last_domain_is_the_one_that_counts() {
    let mut attr = FlowAttributes::new();
    let mut input = words("ingress egress transfer egress pattern");
    assert_eq!(attr.parse_attr(&mut input), Ok(()));
    assert_eq!(*attr.get_raw_attr(), RawAttr { egress: true, ..ZERO });
}

#[test]
fn attribute_numbers_are_32_bit_literals() {
    let mut attr = FlowAttributes::new();
    let mut input = words("group 4294967295 priority 010");
    assert_eq!(attr.parse_attr(&mut input), Ok(()));
    assert_eq!(*attr.get_raw_attr(), RawAttr { group: u32::MAX, priority: 8, ..ZERO });

    for line in ["group", "group x", "priority 4294967296", "ingress priority"] {
        let mut attr = FlowAttributes::new();
        let mut input = words(line);
        assert_eq!(attr.parse_attr(&mut input), Err(FlowError::InvalidArgument), "{}", line);
        assert_eq!(*attr.get_raw_attr(), ZERO);
    }
}

#[test]
fn attribute_record_is_written_from_the_state() {
    let mut context = AttrContext::new();
    assert_eq!(*context.raw_attr(), ZERO);
    context.build_raw_attr();
    assert_eq!(*context.raw_attr(), ZERO);
}
