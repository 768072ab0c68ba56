//! The Ethernet item of the pattern grammar.

use vstd::prelude::*;
use crate::cmdline::arg::arg_int::{int_field, ArgInt, ByteOrder};
use crate::cmdline::arg::arg_net::{address, EthAddrArg};
use crate::cmdline::arg::Arg;
use crate::cmdline::flow::items::{FlowItems, Item, ItemNode};
use crate::cmdline::param::Param;

verus! {

/// Where the Ethernet item and its fields lie in the descriptors of the
/// target: the type of the item, the size of its payload, and the offsets
/// of the source address, the destination address and the protocol type in
/// the frame header.
#[derive(Clone, Copy, Debug)]
pub struct EthLayout {
    pub item_type: isize,
    pub item_size: usize,
    pub src_offset: usize,
    pub dst_offset: usize,
    pub type_offset: usize,
}

/// The level `item` is the Ethernet item for `layout`: the terminal
/// selector `eth`, with the hardware addresses `src` and `dst` and the
/// 16-bit field `type`, which is laid out in the order of the wire.
pub open spec fn is_eth_item(item: Item, layout: EthLayout) -> bool {
    &&& item.selects("eth"@, layout.item_type, layout.item_size)
    &&& item.fields() matches Some(fields) && fields.dom() =~= set!["src"@, "dst"@, "type"@]
    &&& item.has_field("src"@, layout.src_offset, |s: Seq<char>| address(s, ':', 16, 6))
    &&& item.has_field("dst"@, layout.dst_offset, |s: Seq<char>| address(s, ':', 16, 6))
    &&& item.has_field("type"@, layout.type_offset, |s: Seq<char>| int_field(s, 2, 0xffff, true))
}

/// Registers the Ethernet item for `layout` under `eth`.
pub fn flow_item_create_eth(items_db: &mut FlowItems, layout: &EthLayout)
    ensures
        final(items_db).state() == old(items_db).state(),
        final(items_db).grammar().contains_key("eth"@),
        final(items_db).grammar() == old(items_db).grammar().insert(
            "eth"@,
            final(items_db).grammar()["eth"@],
        ),
        is_eth_item(final(items_db).grammar()["eth"@], *layout),
{
    let src_arg: Box<dyn Arg> = Box::new(EthAddrArg::new());
    assert(forall|s: Seq<char>| #[trigger] src_arg.encode(s) == address(s, ':', 16, 6));
    let src_args = vec![(src_arg, layout.src_offset)];
    assert(forall|s: Seq<char>| #[trigger] src_args@[0].0.encode(s) == address(s, ':', 16, 6));
    let src = Param::from("src", None, None, Some(src_args));
    assert(forall|s: Seq<char>| #[trigger] src.encode(s) == address(s, ':', 16, 6));

    let dst_arg: Box<dyn Arg> = Box::new(EthAddrArg::new());
    assert(forall|s: Seq<char>| #[trigger] dst_arg.encode(s) == address(s, ':', 16, 6));
    let dst_args = vec![(dst_arg, layout.dst_offset)];
    assert(forall|s: Seq<char>| #[trigger] dst_args@[0].0.encode(s) == address(s, ':', 16, 6));
    let dst = Param::from("dst", None, None, Some(dst_args));
    assert(forall|s: Seq<char>| #[trigger] dst.encode(s) == address(s, ':', 16, 6));

    let type_arg: Box<dyn Arg> = Box::new(ArgInt::<u16>::new_with_order(ByteOrder::BigEndian));
    assert(forall|s: Seq<char>| #[trigger] type_arg.encode(s) == int_field(s, 2, 0xffff, true));
    let eth_type_args = vec![(type_arg, layout.type_offset)];
    assert(forall|s: Seq<char>| #[trigger] eth_type_args@[0].0.encode(s) == int_field(s, 2, 0xffff, true));
    let eth_type = Param::from("type", None, None, Some(eth_type_args));
    assert(forall|s: Seq<char>| #[trigger] eth_type.encode(s) == int_field(s, 2, 0xffff, true));

    let eth = Param::from("eth", Some(layout.item_type), Some(layout.item_size), None);

    let fields = vec![src, dst, eth_type];
    let item = Item::from(ItemNode::Param(eth), Some(fields));
    proof {
        reveal_strlit("src");
        reveal_strlit("dst");
        reveal_strlit("type");
        assert("src"@ != "dst"@) by {
            assert("src"@[0] != "dst"@[0]);
        }
        assert("src"@ != "type"@) by {
            assert("src"@[0] != "type"@[0]);
        }
        assert("dst"@ != "type"@) by {
            assert("dst"@[0] != "type"@[0]);
        }
        crate::cmdline::flow::items::lemma_field_map3(fields@);
    }
    items_db.register(item);
}

} // verus!
