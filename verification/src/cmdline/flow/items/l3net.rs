//! The IPv4 item of the pattern grammar.

use vstd::prelude::*;
use crate::cmdline::arg::arg_int::{int_field, ArgInt};
use crate::cmdline::arg::arg_net::{address, Ipv4AddrArg};
use crate::cmdline::arg::Arg;
use crate::cmdline::flow::items::{FlowItems, Item, ItemNode};
use crate::cmdline::param::Param;

verus! {

/// Where the IPv4 item and its fields lie in the descriptors of the target:
/// the type of the item, the size of its payload, and the offsets of the
/// source address, the destination address and the next protocol in the
/// packet header.
#[derive(Clone, Copy, Debug)]
pub struct Ipv4Layout {
    pub item_type: isize,
    pub item_size: usize,
    pub src_offset: usize,
    pub dst_offset: usize,
    pub next_proto_offset: usize,
}

/// The level `item` is the IPv4 item for `layout`: the terminal selector
/// `ipv4`, with the addresses `src` and `dst` and the one-byte field
/// `next_proto`.
pub open spec fn is_ipv4_item(item: Item, layout: Ipv4Layout) -> bool {
    &&& item.selects("ipv4"@, layout.item_type, layout.item_size)
    &&& item.fields() matches Some(fields) && fields.dom() =~= set![
        "src"@,
        "dst"@,
        "next_proto"@,
    ]
    &&& item.has_field("src"@, layout.src_offset, |s: Seq<char>| address(s, '.', 10, 4))
    &&& item.has_field("dst"@, layout.dst_offset, |s: Seq<char>| address(s, '.', 10, 4))
    &&& item.has_field(
        "next_proto"@,
        layout.next_proto_offset,
        |s: Seq<char>| int_field(s, 1, 0xff, true),
    )
}

/// Registers the IPv4 item for `layout` under `ipv4`.
pub fn flow_item_create_ipv4(items_db: &mut FlowItems, layout: &Ipv4Layout)
    ensures
        final(items_db).state() == old(items_db).state(),
        final(items_db).grammar().contains_key("ipv4"@),
        final(items_db).grammar() == old(items_db).grammar().insert(
            "ipv4"@,
            final(items_db).grammar()["ipv4"@],
        ),
        is_ipv4_item(final(items_db).grammar()["ipv4"@], *layout),
{
    let src_arg: Box<dyn Arg> = Box::new(Ipv4AddrArg::new());
    assert(forall|s: Seq<char>| #[trigger] src_arg.encode(s) == address(s, '.', 10, 4));
    let src_args = vec![(src_arg, layout.src_offset)];
    assert(forall|s: Seq<char>| #[trigger] src_args@[0].0.encode(s) == address(s, '.', 10, 4));
    let src = Param::from("src", None, None, Some(src_args));
    assert(forall|s: Seq<char>| #[trigger] src.encode(s) == address(s, '.', 10, 4));

    let dst_arg: Box<dyn Arg> = Box::new(Ipv4AddrArg::new());
    assert(forall|s: Seq<char>| #[trigger] dst_arg.encode(s) == address(s, '.', 10, 4));
    let dst_args = vec![(dst_arg, layout.dst_offset)];
    assert(forall|s: Seq<char>| #[trigger] dst_args@[0].0.encode(s) == address(s, '.', 10, 4));
    let dst = Param::from("dst", None, None, Some(dst_args));
    assert(forall|s: Seq<char>| #[trigger] dst.encode(s) == address(s, '.', 10, 4));

    let next_proto_arg: Box<dyn Arg> = Box::new(ArgInt::<u8>::new());
    proof {
        crate::cmdline::arg::arg_int::lemma_one_byte_order();
    }
    assert(forall|s: Seq<char>| #[trigger] next_proto_arg.encode(s) == int_field(s, 1, 0xff, true));
    let next_proto_args = vec![(next_proto_arg, layout.next_proto_offset)];
    assert(forall|s: Seq<char>| #[trigger]
        next_proto_args@[0].0.encode(s) == int_field(s, 1, 0xff, true));
    let next_proto = Param::from("next_proto", None, None, Some(next_proto_args));
    assert(forall|s: Seq<char>| #[trigger] next_proto.encode(s) == int_field(s, 1, 0xff, true));

    let ipv4 = Param::from("ipv4", Some(layout.item_type), Some(layout.item_size), None);

    let fields = vec![src, dst, next_proto];
    let item = Item::from(ItemNode::Param(ipv4), Some(fields));
    proof {
        reveal_strlit("src");
        reveal_strlit("dst");
        reveal_strlit("next_proto");
        assert("src"@ != "dst"@) by {
            assert("src"@[0] != "dst"@[0]);
        }
        assert("src"@ != "next_proto"@) by {
            assert("src"@[0] != "next_proto"@[0]);
        }
        assert("dst"@ != "next_proto"@) by {
            assert("dst"@[0] != "next_proto"@[0]);
        }
        crate::cmdline::flow::items::lemma_field_map3(fields@);
    }
    items_db.register(item);
}

} // verus!
