//! The pattern of a flow rule: match items, each a descriptor type with a
//! value to match, a mask that says which bits count, and the upper bound
//! of a range.

use vstd::prelude::*;
use crate::cmdline::arg::{ArgData, ArgModel, ARG_DATA_SIZE};
use crate::cmdline::error::FlowError;
use crate::cmdline::node_map::{drop_tokens, str_eq, tokens, NodeMap};
use crate::cmdline::param::Param;

pub mod l2net;
pub mod l3net;

verus! {

/// The type of the entry that ends a pattern.
pub const ITEM_TYPE_END: u32 = 0;

/// `len` bytes with every bit set.
pub open spec fn ones(len: nat) -> Seq<u8> {
    Seq::new(len, |i: int| 0xffu8)
}

/// What the three buffers of a match item hold.
pub struct ItemDataModel {
    pub spec: ArgModel,
    pub mask: ArgModel,
    pub last: ArgModel,
}

impl ItemDataModel {
    /// Three buffers of zero bytes with the logical size `size`.
    pub open spec fn zero(size: nat) -> ItemDataModel {
        ItemDataModel {
            spec: ArgModel::zero(size),
            mask: ArgModel::zero(size),
            last: ArgModel::zero(size),
        }
    }

    /// `src` OR-ed into the value at `offset`.
    pub open spec fn spec_mod(self, src: Seq<u8>, offset: nat) -> ItemDataModel {
        ItemDataModel { spec: self.spec.or_merge(src, offset), ..self }
    }

    /// `src` OR-ed into the mask at `offset`.
    pub open spec fn mask_mod(self, src: Seq<u8>, offset: nat) -> ItemDataModel {
        ItemDataModel { mask: self.mask.or_merge(src, offset), ..self }
    }

    /// `src` OR-ed into the upper bound at `offset`.
    pub open spec fn last_mod(self, src: Seq<u8>, offset: nat) -> ItemDataModel {
        ItemDataModel { last: self.last.or_merge(src, offset), ..self }
    }

    /// `src` OR-ed into the value at `offset`, and as many bytes of ones
    /// OR-ed into the mask there: an exact match.
    pub open spec fn is_mod(self, src: Seq<u8>, offset: nat) -> ItemDataModel {
        self.spec_mod(src, offset).mask_mod(ones(src.len()), offset)
    }

    /// The buffers after the modifier `modifier` was applied with `src` at
    /// `offset`: no known modifier is `UnknownKeyword`, a write beyond the
    /// capacity is `OutOfBounds`.
    pub open spec fn modify(self, modifier: Seq<char>, src: Seq<u8>, offset: nat) -> Result<
        ItemDataModel,
        FlowError,
    > {
        if !(modifier == "is"@ || modifier == "spec"@ || modifier == "mask"@ || modifier
            == "last"@) {
            Err(FlowError::UnknownKeyword)
        } else if !ArgModel::fits(src.len(), offset) {
            Err(FlowError::OutOfBounds)
        } else if modifier == "is"@ {
            Ok(self.is_mod(src, offset))
        } else if modifier == "spec"@ {
            Ok(self.spec_mod(src, offset))
        } else if modifier == "mask"@ {
            Ok(self.mask_mod(src, offset))
        } else {
            Ok(self.last_mod(src, offset))
        }
    }
}

/// The three buffers of a match item.
#[derive(Clone, Copy, Debug)]
pub struct ItemData {
    pub spec: ArgData,
    pub mask: ArgData,
    pub last: ArgData,
}

impl View for ItemData {
    type V = ItemDataModel;

    open spec fn view(&self) -> ItemDataModel {
        ItemDataModel { spec: self.spec@, mask: self.mask@, last: self.last@ }
    }
}

impl ItemData {
    /// Three empty buffers.
    pub fn new() -> (r: Self)
        ensures
            r@ == ItemDataModel::zero(0),
    {
        ItemData { spec: ArgData::new(), mask: ArgData::new(), last: ArgData::new() }
    }

    /// Three buffers of zero bytes with the logical size `size`.
    pub fn new_from_size(size: usize) -> (r: Self)
        requires
            size <= ARG_DATA_SIZE,
        ensures
            r@ == ItemDataModel::zero(size as nat),
    {
        ItemData {
            spec: ArgData::new_from_size(size),
            mask: ArgData::new_from_size(size),
            last: ArgData::new_from_size(size),
        }
    }

    /// ORs `src` into the value at `offset`.
    pub fn spec_mod(&mut self, src: &[u8], offset: usize) -> (r: Result<(), FlowError>)
        ensures
            match r {
                Ok(()) => ArgModel::fits(src@.len(), offset as nat) && final(self)@ == old(
                    self,
                )@.spec_mod(src@, offset as nat),
                Err(e) => e == FlowError::OutOfBounds && !ArgModel::fits(
                    src@.len(),
                    offset as nat,
                ) && final(self)@ == old(self)@,
            },
    {
        self.spec.or_from_slice(src, offset)
    }

    /// ORs `src` into the mask at `offset`.
    pub fn mask_mod(&mut self, src: &[u8], offset: usize) -> (r: Result<(), FlowError>)
        ensures
            match r {
                Ok(()) => ArgModel::fits(src@.len(), offset as nat) && final(self)@ == old(
                    self,
                )@.mask_mod(src@, offset as nat),
                Err(e) => e == FlowError::OutOfBounds && !ArgModel::fits(
                    src@.len(),
                    offset as nat,
                ) && final(self)@ == old(self)@,
            },
    {
        self.mask.or_from_slice(src, offset)
    }

    /// ORs `src` into the upper bound at `offset`.
    pub fn last_mod(&mut self, src: &[u8], offset: usize) -> (r: Result<(), FlowError>)
        ensures
            match r {
                Ok(()) => ArgModel::fits(src@.len(), offset as nat) && final(self)@ == old(
                    self,
                )@.last_mod(src@, offset as nat),
                Err(e) => e == FlowError::OutOfBounds && !ArgModel::fits(
                    src@.len(),
                    offset as nat,
                ) && final(self)@ == old(self)@,
            },
    {
        self.last.or_from_slice(src, offset)
    }

    /// ORs `src` into the value at `offset`, and as many bytes of ones into
    /// the mask there.
    pub fn is_mod(&mut self, src: &[u8], offset: usize) -> (r: Result<(), FlowError>)
        ensures
            match r {
                Ok(()) => ArgModel::fits(src@.len(), offset as nat) && final(self)@ == old(
                    self,
                )@.is_mod(src@, offset as nat),
                Err(e) => e == FlowError::OutOfBounds && !ArgModel::fits(
                    src@.len(),
                    offset as nat,
                ) && final(self)@ == old(self)@,
            },
    {
        self.spec_mod(src, offset)?;
        let full = ArgData::default_mask();
        let mask = vstd::slice::slice_subrange(full.as_slice(), 0, src.len());
        assert(mask@ =~= ones(src@.len()));
        self.mask_mod(mask, offset)
    }

    /// Applies the modifier `modifier` with `src` at `offset`.
    pub fn modify(&mut self, modifier: &str, src: &[u8], offset: usize) -> (r: Result<
        (),
        FlowError,
    >)
        ensures
            match r {
                Ok(()) => old(self)@.modify(modifier@, src@, offset as nat) == Ok::<
                    ItemDataModel,
                    FlowError,
                >(final(self)@),
                Err(e) => old(self)@.modify(modifier@, src@, offset as nat) == Err::<
                    ItemDataModel,
                    FlowError,
                >(e) && final(self)@ == old(self)@,
            },
    {
        if str_eq(modifier, "is") {
            self.is_mod(src, offset)
        } else if str_eq(modifier, "spec") {
            self.spec_mod(src, offset)
        } else if str_eq(modifier, "mask") {
            self.mask_mod(src, offset)
        } else if str_eq(modifier, "last") {
            self.last_mod(src, offset)
        } else {
            Err(FlowError::UnknownKeyword)
        }
    }
}

/// What a finished match item holds: its type, and its buffers if a field
/// of it was ever set.
pub struct ItemEntry {
    pub itype: u32,
    pub data: Option<ItemDataModel>,
}

/// A finished match item.
#[derive(Clone, Copy, Debug)]
pub struct DpdkItem {
    pub itype: u32,
    pub data: Option<ItemData>,
}

impl View for DpdkItem {
    type V = ItemEntry;

    open spec fn view(&self) -> ItemEntry {
        ItemEntry {
            itype: self.itype,
            data: match self.data {
                Some(d) => Some(d@),
                None => None,
            },
        }
    }
}

impl DpdkItem {
    /// The item of the type `t` with the buffers `data`.
    pub fn from(t: u32, data: Option<ItemData>) -> (r: Self)
        ensures
            r.itype == t,
            r.data == data,
    {
        DpdkItem { itype: t, data }
    }
}

/// What one entry of the pattern array holds: the type, and the three
/// buffers that its pointers lead to, where `None` is the null pointer.
pub struct RawEntry {
    pub type_: u32,
    pub spec: Option<ArgModel>,
    pub mask: Option<ArgModel>,
    pub last: Option<ArgModel>,
}

/// One entry of the pattern array.
#[derive(Clone, Copy, Debug)]
pub struct RawItem {
    pub type_: u32,
    pub spec: Option<ArgData>,
    pub mask: Option<ArgData>,
    pub last: Option<ArgData>,
}

impl View for RawItem {
    type V = RawEntry;

    open spec fn view(&self) -> RawEntry {
        RawEntry {
            type_: self.type_,
            spec: match self.spec {
                Some(a) => Some(a@),
                None => None,
            },
            mask: match self.mask {
                Some(a) => Some(a@),
                None => None,
            },
            last: match self.last {
                Some(a) => Some(a@),
                None => None,
            },
        }
    }
}

/// The entry of the pattern array for a finished item: the buffers of an
/// item of which a field was set, and null pointers for one of which none was.
pub open spec fn raw_of(entry: ItemEntry) -> RawEntry {
    match entry.data {
        Some(d) => RawEntry {
            type_: entry.itype,
            spec: Some(d.spec),
            mask: Some(d.mask),
            last: Some(d.last),
        },
        None => RawEntry { type_: entry.itype, spec: None, mask: None, last: None },
    }
}

/// The number of bytes that count in the buffers which an entry leads to.
pub open spec fn payload_of(entry: RawEntry) -> nat {
    (match entry.spec {
        Some(a) => a.size,
        None => 0,
    }) + (match entry.mask {
        Some(a) => a.size,
        None => 0,
    }) + (match entry.last {
        Some(a) => a.size,
        None => 0,
    })
}

/// The number of bytes that count in all the buffers of a pattern array.
pub open spec fn total_payload(raw: Seq<RawEntry>) -> nat
    decreases raw.len(),
{
    if raw.len() == 0 {
        0
    } else {
        total_payload(raw.drop_last()) + payload_of(raw.last())
    }
}

/// The state of a pattern under construction.
pub struct ItemsModel {
    /// The type of the item that is being built.
    pub id: u32,
    /// The size of the payload of that type.
    pub size: nat,
    /// The buffers of that item.
    pub data: Option<ItemDataModel>,
    /// Whether a field of that item was set.
    pub touched: bool,
    /// The finished items, in order.
    pub items: Seq<ItemEntry>,
    /// The pattern array.
    pub raw: Seq<RawEntry>,
}

impl ItemsModel {
    /// The state before the first token.
    pub open spec fn fresh() -> ItemsModel {
        ItemsModel {
            id: ITEM_TYPE_END,
            size: 0,
            data: None,
            touched: false,
            items: Seq::empty(),
            raw: Seq::empty(),
        }
    }

    /// A terminal selector was read: an item of the type `id` is begun,
    /// with three buffers of zero bytes that have the size `size` of its
    /// payload. A payload that no buffer holds is out of bounds.
    pub open spec fn select(self, id: u32, size: nat) -> Result<ItemsModel, FlowError> {
        if size <= ARG_DATA_SIZE {
            Ok(
                ItemsModel {
                    id,
                    size,
                    data: Some(ItemDataModel::zero(size)),
                    touched: false,
                    ..self
                },
            )
        } else {
            Err(FlowError::OutOfBounds)
        }
    }

    /// A field was read: `modifier` is applied with `src` at `offset` to the
    /// buffers of the item. Where no item was begun, the buffers start as
    /// zero bytes of the size that the state holds.
    pub open spec fn field(self, modifier: Seq<char>, src: Seq<u8>, offset: nat) -> Result<
        ItemsModel,
        FlowError,
    > {
        if self.data is None && self.size > ARG_DATA_SIZE {
            Err(FlowError::OutOfBounds)
        } else {
            let start = match self.data {
                Some(d) => d,
                None => ItemDataModel::zero(self.size),
            };
            match start.modify(modifier, src, offset) {
                Ok(d) => Ok(ItemsModel { data: Some(d), touched: true, ..self }),
                Err(e) => Err(e),
            }
        }
    }

    /// The item as it is finished: with its buffers if a field of it was
    /// set, and without any if none was, which matches on the type alone.
    pub open spec fn finished(self) -> ItemEntry {
        ItemEntry {
            itype: self.id,
            data: if self.touched {
                self.data
            } else {
                None
            },
        }
    }

    /// The separator was read: the item that is being built is finished.
    pub open spec fn separate(self) -> ItemsModel {
        ItemsModel {
            id: ITEM_TYPE_END,
            data: None,
            touched: false,
            items: self.items.push(self.finished()),
            ..self
        }
    }

    /// The terminator was read: the end marker is appended, and the pattern
    /// array gets one entry for each finished item.
    pub open spec fn terminate(self) -> ItemsModel {
        let items = self.items.push(ItemEntry { itype: ITEM_TYPE_END, data: None });
        ItemsModel {
            id: ITEM_TYPE_END,
            data: None,
            touched: false,
            items,
            raw: self.raw + items.map_values(|e: ItemEntry| raw_of(e)),
            ..self
        }
    }
}

/// The state of a pattern under construction: one for each command.
pub struct ItemsParserContext {
    pub(crate) id: u32,
    pub(crate) size: usize,
    pub(crate) data: Option<ItemData>,
    pub(crate) touched: bool,
    pub(crate) items: Vec<DpdkItem>,
    pub(crate) raw: Vec<RawItem>,
}

impl View for ItemsParserContext {
    type V = ItemsModel;

    closed spec fn view(&self) -> ItemsModel {
        ItemsModel {
            id: self.id,
            size: self.size as nat,
            data: match self.data {
                Some(d) => Some(d@),
                None => None,
            },
            touched: self.touched,
            items: self.items@.map_values(|e: DpdkItem| e@),
            raw: self.raw@.map_values(|e: RawItem| e@),
        }
    }
}

impl ItemsParserContext {
    /// The state before the first token.
    pub fn new() -> (r: Self)
        ensures
            r@ == ItemsModel::fresh(),
    {
        let r = ItemsParserContext {
            id: ITEM_TYPE_END,
            size: 0,
            data: None,
            touched: false,
            items: Vec::new(),
            raw: Vec::new(),
        };
        assert(r@.items =~= Seq::<ItemEntry>::empty());
        assert(r@.raw =~= Seq::<RawEntry>::empty());
        r
    }

    /// The type of the item that is being built.
    pub fn id(&self) -> (r: u32)
        ensures
            r == self@.id,
    {
        self.id
    }

    /// The size of the payload of the item that is being built.
    pub fn size(&self) -> (r: usize)
        ensures
            r == self@.size,
    {
        self.size
    }

    /// Whether a field of the item that is being built was set.
    pub fn touched(&self) -> (r: bool)
        ensures
            r == self@.touched,
    {
        self.touched
    }

    /// The buffers of the item that is being built.
    pub fn data(&self) -> (r: &Option<ItemData>)
        ensures
            match *r {
                Some(d) => self@.data == Some(d@),
                None => self@.data is None,
            },
    {
        &self.data
    }

    /// The finished items.
    pub fn items(&self) -> (r: &Vec<DpdkItem>)
        ensures
            r@.map_values(|e: DpdkItem| e@) == self@.items,
    {
        &self.items
    }

    /// The pattern array.
    pub fn raw(&self) -> (r: &Vec<RawItem>)
        ensures
            r@.map_values(|e: RawItem| e@) == self@.raw,
    {
        &self.raw
    }

    /// The pattern array, taken out of the state.
    pub fn into_raw(self) -> (r: Vec<RawItem>)
        ensures
            r@.map_values(|e: RawItem| e@) == self@.raw,
    {
        self.raw
    }

    /// Forgets the item that is being built.
    fn flush(&mut self)
        ensures
            final(self)@ == (ItemsModel {
                id: ITEM_TYPE_END,
                data: None,
                touched: false,
                ..old(self)@
            }),
    {
        self.id = ITEM_TYPE_END;
        self.data = None;
        self.touched = false;
    }

    /// Gives the pattern array one entry for each finished item.
    fn build_raw_pattern(&mut self)
        ensures
            final(self)@ == (ItemsModel {
                raw: old(self)@.raw + old(self)@.items.map_values(|e: ItemEntry| raw_of(e)),
                ..old(self)@
            }),
    {
        let n = self.items.len();
        let mut i: usize = 0;
        while i < n
            invariant
                i <= n,
                n == self.items.len(),
                self.id == old(self).id,
                self.size == old(self).size,
                self.data == old(self).data,
                self.touched == old(self).touched,
                self.items == old(self).items,
                self.raw@.map_values(|e: RawItem| e@) == old(self)@.raw + old(
                    self,
                )@.items.take(i as int).map_values(|e: ItemEntry| raw_of(e)),
            decreases n - i,
        {
            let item = self.items[i];
            let entry = match item.data {
                Some(d) => RawItem {
                    type_: item.itype,
                    spec: Some(d.spec),
                    mask: Some(d.mask),
                    last: Some(d.last),
                },
                None => RawItem { type_: item.itype, spec: None, mask: None, last: None },
            };
            assert(entry@ == raw_of(item@));
            let ghost before = self.raw@;
            self.raw.push(entry);
            proof {
                let all = old(self)@.items;
                let made = all.take(i as int).map_values(|e: ItemEntry| raw_of(e));
                let next = all.take(i + 1).map_values(|e: ItemEntry| raw_of(e));
                assert(all[i as int] == item@);
                assert(all.take(i + 1) =~= all.take(i as int).push(all[i as int]));
                assert(next =~= made.push(raw_of(item@)));
                assert(self.raw@ == before.push(entry));
                assert(self.raw@.map_values(|e: RawItem| e@) =~= before.map_values(
                    |e: RawItem| e@,
                ).push(entry@));
                assert((old(self)@.raw + made).push(entry@) =~= old(self)@.raw + next);
            }
            i += 1;
        }
        proof {
            assert(old(self)@.items.take(n as int) =~= old(self)@.items);
        }
    }

    /// Takes a terminal selector into the state.
    pub fn select(&mut self, id: u32, size: usize) -> (r: Result<(), FlowError>)
        ensures
            match r {
                Ok(()) => old(self)@.select(id, size as nat) == Ok::<ItemsModel, FlowError>(
                    final(self)@,
                ),
                Err(e) => old(self)@.select(id, size as nat) == Err::<ItemsModel, FlowError>(e)
                    && final(self)@ == old(self)@,
            },
    {
        if size > ARG_DATA_SIZE {
            return Err(FlowError::OutOfBounds);
        }
        self.id = id;
        self.size = size;
        self.data = Some(ItemData::new_from_size(size));
        self.touched = false;
        Ok(())
    }

    /// Takes a field into the state.
    pub fn field(&mut self, modifier: &str, src: &[u8], offset: usize) -> (r: Result<
        (),
        FlowError,
    >)
        ensures
            match r {
                Ok(()) => old(self)@.field(modifier@, src@, offset as nat) == Ok::<
                    ItemsModel,
                    FlowError,
                >(final(self)@),
                Err(e) => old(self)@.field(modifier@, src@, offset as nat) == Err::<
                    ItemsModel,
                    FlowError,
                >(e) && final(self)@ == old(self)@,
            },
    {
        let mut data = match self.data {
            Some(d) => d,
            None => {
                if self.size > ARG_DATA_SIZE {
                    return Err(FlowError::OutOfBounds);
                }
                ItemData::new_from_size(self.size)
            },
        };
        data.modify(modifier, src, offset)?;
        self.data = Some(data);
        self.touched = true;
        Ok(())
    }

    /// Finishes the item that is being built.
    pub fn separate(&mut self)
        ensures
            final(self)@ == old(self)@.separate(),
    {
        let item = if self.touched {
            DpdkItem::from(self.id, self.data)
        } else {
            DpdkItem::from(self.id, None)
        };
        self.items.push(item);
        self.flush();
        assert(self@.items =~= old(self)@.separate().items);
    }

    /// Appends the end marker and fills the pattern array.
    pub fn terminate(&mut self)
        ensures
            final(self)@ == old(self)@.terminate(),
    {
        self.items.push(DpdkItem::from(ITEM_TYPE_END, None));
        assert(self@.items =~= old(self)@.terminate().items);
        self.build_raw_pattern();
        self.flush();
    }
}

/// What reading tokens made of a state: whether it went well, the tokens
/// that are left, and the state.
pub struct ItemsRun {
    pub result: Result<(), FlowError>,
    pub rest: Seq<Seq<char>>,
    pub ctx: ItemsModel,
}

/// What one node makes of the tokens `input`, of which the first is its
/// keyword: it takes the keyword and its operands and changes the state, or
/// it fails and takes and changes nothing. Tokens that end before the last
/// operand are an invalid argument.
pub open spec fn item_step<T: ItemOps>(node: T, input: Seq<Seq<char>>, ctx: ItemsModel) -> ItemsRun {
    if input.len() < 1 + node.operands() {
        ItemsRun { result: Err(FlowError::InvalidArgument), rest: input, ctx }
    } else {
        match node.apply(input.subrange(1, 1 + node.operands() as int), ctx) {
            Ok(next) => ItemsRun {
                result: Ok(()),
                rest: input.skip(1 + node.operands() as int),
                ctx: next,
            },
            Err(e) => ItemsRun { result: Err(e), rest: input, ctx },
        }
    }
}

/// A node of the pattern grammar.
pub trait ItemOps: Send + Sync {
    /// The keyword under which the node is registered.
    spec fn keyword(&self) -> Seq<char>;

    /// The number of tokens that the node reads behind its keyword.
    spec fn operands(&self) -> nat;

    /// The state after the node has read `operands` in the state `ctx`.
    spec fn apply(&self, operands: Seq<Seq<char>>, ctx: ItemsModel) -> Result<
        ItemsModel,
        FlowError,
    >;

    /// The keyword under which the node is registered.
    fn name(&self) -> (r: &str)
        ensures
            r@ == self.keyword(),
    ;

    /// Reads the keyword at the front of `input` and the operands behind it,
    /// and takes them from `input`.
    fn parse_item(&self, input: &mut Vec<String>, context: &mut ItemsParserContext) -> (r: Result<
        (),
        FlowError,
    >)
        ensures
            ({
                let given = tokens(old(input)@);
                let count = 1 + self.operands() as int;
                if given.len() < count {
                    &&& r == Err::<(), FlowError>(FlowError::InvalidArgument)
                    &&& final(input)@ == old(input)@
                    &&& final(context)@ == old(context)@
                } else {
                    match self.apply(given.subrange(1, count), old(context)@) {
                        Ok(next) => {
                            &&& r == Ok::<(), FlowError>(())
                            &&& final(input)@ == old(input)@.skip(count)
                            &&& final(context)@ == next
                        },
                        Err(e) => {
                            &&& r == Err::<(), FlowError>(e)
                            &&& final(input)@ == old(input)@
                            &&& final(context)@ == old(context)@
                        },
                    }
                }
            }),
    ;
}

impl ItemOps for Param {
    open spec fn keyword(&self) -> Seq<char> {
        self.label()
    }

    open spec fn operands(&self) -> nat {
        if self.is_terminal() {
            0
        } else {
            2
        }
    }

    open spec fn apply(&self, operands: Seq<Seq<char>>, ctx: ItemsModel) -> Result<
        ItemsModel,
        FlowError,
    > {
        if self.is_terminal() {
            ctx.select(self.type_id() as u32, self.payload_size() as nat)
        } else {
            match self.encode(operands[1]) {
                Ok(a) => ctx.field(operands[0], a.bytes(), self.offset() as nat),
                Err(e) => Err(e),
            }
        }
    }

    fn name(&self) -> (r: &str) {
        self.keyword()
    }

    fn parse_item(&self, input: &mut Vec<String>, context: &mut ItemsParserContext) -> (r: Result<
        (),
        FlowError,
    >) {
        match self.terminal() {
            Some((id, size)) => {
                if input.len() < 1 {
                    return Err(FlowError::InvalidArgument);
                }
                context.select(id as u32, size)?;
                drop_tokens(input, 1);
                Ok(())
            },
            None => {
                if input.len() < 3 {
                    return Err(FlowError::InvalidArgument);
                }
                let offset = match self.field_offset() {
                    Some(offset) => offset,
                    None => 0,
                };
                let arg = self.serialize(input[2].as_str())?;
                context.field(input[1].as_str(), arg.bytes(), offset)?;
                drop_tokens(input, 3);
                Ok(())
            },
        }
    }
}

/// The separator: it finishes the item that is being built.
pub struct ItemSeparator;

impl ItemSeparator {
    /// The separator of the pattern grammar.
    pub fn new() -> (r: ItemSeparator)
        ensures
            r == ItemSeparator,
    {
        ItemSeparator {  }
    }
}

impl ItemOps for ItemSeparator {
    open spec fn keyword(&self) -> Seq<char> {
        "/"@
    }

    open spec fn operands(&self) -> nat {
        0
    }

    open spec fn apply(&self, operands: Seq<Seq<char>>, ctx: ItemsModel) -> Result<
        ItemsModel,
        FlowError,
    > {
        Ok(ctx.separate())
    }

    fn name(&self) -> (r: &str) {
        "/"
    }

    fn parse_item(&self, input: &mut Vec<String>, context: &mut ItemsParserContext) -> (r: Result<
        (),
        FlowError,
    >) {
        if input.len() < 1 {
            return Err(FlowError::InvalidArgument);
        }
        context.separate();
        drop_tokens(input, 1);
        Ok(())
    }
}

/// The terminator: it appends the end marker and fills the pattern array.
pub struct ItemEnd;

impl ItemEnd {
    /// The terminator of the pattern grammar.
    pub fn new() -> (r: ItemEnd)
        ensures
            r == ItemEnd,
    {
        ItemEnd {  }
    }
}

impl ItemOps for ItemEnd {
    open spec fn keyword(&self) -> Seq<char> {
        "end"@
    }

    open spec fn operands(&self) -> nat {
        0
    }

    open spec fn apply(&self, operands: Seq<Seq<char>>, ctx: ItemsModel) -> Result<
        ItemsModel,
        FlowError,
    > {
        Ok(ctx.terminate())
    }

    fn name(&self) -> (r: &str) {
        "end"
    }

    fn parse_item(&self, input: &mut Vec<String>, context: &mut ItemsParserContext) -> (r: Result<
        (),
        FlowError,
    >) {
        if input.len() < 1 {
            return Err(FlowError::InvalidArgument);
        }
        context.terminate();
        drop_tokens(input, 1);
        Ok(())
    }
}

/// A node that opens a level of the pattern grammar.
pub enum ItemNode {
    /// The separator.
    Separator(ItemSeparator),
    /// The terminator.
    End(ItemEnd),
    /// A terminal selector or a field leaf.
    Param(Param),
}

impl ItemOps for ItemNode {
    open spec fn keyword(&self) -> Seq<char> {
        match self {
            ItemNode::Separator(n) => n.keyword(),
            ItemNode::End(n) => n.keyword(),
            ItemNode::Param(n) => ItemOps::keyword(n),
        }
    }

    open spec fn operands(&self) -> nat {
        match self {
            ItemNode::Separator(n) => n.operands(),
            ItemNode::End(n) => n.operands(),
            ItemNode::Param(n) => n.operands(),
        }
    }

    open spec fn apply(&self, operands: Seq<Seq<char>>, ctx: ItemsModel) -> Result<
        ItemsModel,
        FlowError,
    > {
        match self {
            ItemNode::Separator(n) => n.apply(operands, ctx),
            ItemNode::End(n) => n.apply(operands, ctx),
            ItemNode::Param(n) => n.apply(operands, ctx),
        }
    }

    fn name(&self) -> (r: &str) {
        match self {
            ItemNode::Separator(n) => n.name(),
            ItemNode::End(n) => n.name(),
            ItemNode::Param(n) => n.name(),
        }
    }

    fn parse_item(&self, input: &mut Vec<String>, context: &mut ItemsParserContext) -> (r: Result<
        (),
        FlowError,
    >) {
        match self {
            ItemNode::Separator(n) => n.parse_item(input, context),
            ItemNode::End(n) => n.parse_item(input, context),
            ItemNode::Param(n) => n.parse_item(input, context),
        }
    }
}

/// A node that reads well takes its keyword at least, and what a node
/// leaves is an end of the tokens that it was given: tokens are taken from
/// the front, one time each.
pub proof fn lemma_step_consumes<T: ItemOps>(node: T, input: Seq<Seq<char>>, ctx: ItemsModel)
    ensures
        item_step(node, input, ctx).result is Ok ==> item_step(node, input, ctx).rest.len()
            < input.len(),
        item_step(node, input, ctx).rest.len() <= input.len(),
        item_step(node, input, ctx).rest == input.skip(
            input.len() - item_step(node, input, ctx).rest.len(),
        ),
{
    let rest = item_step(node, input, ctx).rest;
    assert(rest =~= input.skip(input.len() - rest.len()));
}

/// What the field leaves `fields` make of the tokens `input`: they are
/// read one behind the other until the tokens end, a token is no keyword
/// of theirs, or one of them fails.
pub open spec fn fields_run(fields: Map<Seq<char>, Param>, input: Seq<Seq<char>>, ctx: ItemsModel) -> ItemsRun
    decreases input.len(),
{
    if input.len() == 0 || !fields.contains_key(input[0]) {
        ItemsRun { result: Ok(()), rest: input, ctx }
    } else {
        let step = item_step(fields[input[0]], input, ctx);
        if step.result is Err {
            step
        } else {
            proof {
                lemma_step_consumes(fields[input[0]], input, ctx);
            }
            fields_run(fields, step.rest, step.ctx)
        }
    }
}

/// What the field leaves leave is an end of the tokens that they were
/// given.
pub proof fn lemma_fields_run_consumes(
    fields: Map<Seq<char>, Param>,
    input: Seq<Seq<char>>,
    ctx: ItemsModel,
)
    ensures
        fields_run(fields, input, ctx).rest.len() <= input.len(),
        fields_run(fields, input, ctx).rest == input.skip(
            input.len() - fields_run(fields, input, ctx).rest.len(),
        ),
    decreases input.len(),
{
    let rest = fields_run(fields, input, ctx).rest;
    if !(input.len() == 0 || !fields.contains_key(input[0])) {
        let step = item_step(fields[input[0]], input, ctx);
        lemma_step_consumes(fields[input[0]], input, ctx);
        if step.result is Ok {
            lemma_fields_run_consumes(fields, step.rest, step.ctx);
        }
    }
    assert(rest =~= input.skip(input.len() - rest.len()));
}

/// The map that the nodes `nodes` make, each under its keyword. Of two
/// nodes with one keyword the later stays.
pub open spec fn field_map(nodes: Seq<Param>) -> Map<Seq<char>, Param>
    decreases nodes.len(),
{
    if nodes.len() == 0 {
        Map::empty()
    } else {
        field_map(nodes.drop_last()).insert(nodes.last().label(), nodes.last())
    }
}

/// Three nodes with three keywords make a map of three.
pub proof fn lemma_field_map3(nodes: Seq<Param>)
    requires
        nodes.len() == 3,
        nodes[0].label() != nodes[1].label(),
        nodes[0].label() != nodes[2].label(),
        nodes[1].label() != nodes[2].label(),
    ensures
        field_map(nodes).dom() =~= set![nodes[0].label(), nodes[1].label(), nodes[2].label()],
        field_map(nodes)[nodes[0].label()] == nodes[0],
        field_map(nodes)[nodes[1].label()] == nodes[1],
        field_map(nodes)[nodes[2].label()] == nodes[2],
{
    let two = nodes.drop_last();
    let one = two.drop_last();
    assert(one.drop_last() =~= Seq::<Param>::empty());
    assert(field_map(one.drop_last()) =~= Map::<Seq<char>, Param>::empty());
    assert(field_map(one) == Map::<Seq<char>, Param>::empty().insert(nodes[0].label(), nodes[0]));
    assert(field_map(two) == field_map(one).insert(nodes[1].label(), nodes[1]));
    assert(field_map(nodes) == field_map(two).insert(nodes[2].label(), nodes[2]));
}

/// One level of the pattern grammar: a node, and the field leaves that may
/// follow it.
pub struct Item {
    pub(crate) cmd: ItemNode,
    pub(crate) param: Option<NodeMap<Param>>,
}

impl Item {
    /// The node that opens the level.
    pub closed spec fn head(&self) -> ItemNode {
        self.cmd
    }

    /// The field leaves of the level, each under its keyword.
    pub closed spec fn fields(&self) -> Option<Map<Seq<char>, Param>> {
        match self.param {
            Some(m) => Some(m@),
            None => None,
        }
    }

    /// The keyword of the level: that of its node.
    pub open spec fn keyword(&self) -> Seq<char> {
        self.head().keyword()
    }

    /// What the level makes of the tokens `input`: its node reads, and then
    /// its field leaves read as long as they find their keywords.
    pub open spec fn run(&self, input: Seq<Seq<char>>, ctx: ItemsModel) -> ItemsRun {
        let first = item_step(self.head(), input, ctx);
        match self.fields() {
            Some(fields) => if first.result is Err {
                first
            } else {
                fields_run(fields, first.rest, first.ctx)
            },
            None => first,
        }
    }

    /// The level is opened by the terminal selector `name` of the type `id`
    /// with a payload of `size` bytes.
    pub open spec fn selects(&self, name: Seq<char>, id: isize, size: usize) -> bool {
        &&& self.head() matches ItemNode::Param(p)
        &&& p.label() == name
        &&& p.is_terminal()
        &&& p.type_id() == id
        &&& p.payload_size() == size
    }

    /// The level has the field leaf `name` at `offset`, which serializes as
    /// `encode` says.
    pub open spec fn has_field(
        &self,
        name: Seq<char>,
        offset: usize,
        encode: spec_fn(Seq<char>) -> Result<ArgModel, FlowError>,
    ) -> bool {
        &&& self.fields() matches Some(fields)
        &&& fields.contains_key(name)
        &&& fields[name].label() == name
        &&& !fields[name].is_terminal()
        &&& fields[name].offset() == offset
        &&& forall|sample: Seq<char>| #[trigger] fields[name].encode(sample) == encode(sample)
    }

    /// A level that reads well takes its keyword at least, and what a
    /// level leaves is an end of the tokens that it was given.
    pub proof fn lemma_run_consumes(&self, input: Seq<Seq<char>>, ctx: ItemsModel)
        ensures
            self.run(input, ctx).result is Ok ==> self.run(input, ctx).rest.len() < input.len(),
            self.run(input, ctx).rest.len() <= input.len(),
            self.run(input, ctx).rest == input.skip(input.len() - self.run(input, ctx).rest.len()),
    {
        let first = item_step(self.head(), input, ctx);
        let rest = self.run(input, ctx).rest;
        lemma_step_consumes(self.head(), input, ctx);
        lemma_fields_run_consumes(self.fields().unwrap(), first.rest, first.ctx);
        assert(rest =~= input.skip(input.len() - rest.len()));
    }

    /// The level of the node `cmd` with the field leaves `param`.
    pub fn from(cmd: ItemNode, param: Option<Vec<Param>>) -> (r: Self)
        ensures
            r.head() == cmd,
            r.fields() == match param {
                Some(nodes) => Some(field_map(nodes@)),
                None => None,
            },
    {
        match param {
            None => Item { cmd, param: None },
            Some(nodes) => {
                let mut nodes = nodes;
                let ghost all = nodes@;
                let mut pdb: NodeMap<Param> = NodeMap::new();
                let ghost mut done: int = 0;
                while nodes.len() > 0
                    invariant
                        0 <= done <= all.len(),
                        nodes@ == all.skip(done),
                        pdb@ == field_map(all.take(done)),
                    decreases nodes.len(),
                {
                    let op = nodes.remove(0);
                    let name = op.keyword().to_owned();
                    pdb.insert(name, op);
                    proof {
                        assert(all.take(done + 1).drop_last() =~= all.take(done));
                        assert(all.take(done + 1).last() == all[done]);
                        done = done + 1;
                        assert(nodes@ =~= all.skip(done));
                    }
                }
                proof {
                    assert(all.take(done) =~= all);
                }
                Item { cmd, param: Some(pdb) }
            },
        }
    }

    /// The keyword of the level.
    pub fn name(&self) -> (r: &str)
        ensures
            r@ == self.keyword(),
    {
        self.cmd.name()
    }

    /// Reads the level at the front of `input`.
    pub fn parse(&self, input: &mut Vec<String>, context: &mut ItemsParserContext) -> (r: Result<
        (),
        FlowError,
    >)
        ensures
            self.run(tokens(old(input)@), old(context)@) == (ItemsRun {
                result: r,
                rest: tokens(final(input)@),
                ctx: final(context)@,
            }),
    {
        proof {
            let count = 1 + self.cmd.operands() as int;
            if tokens(old(input)@).len() >= count {
                assert(tokens(old(input)@.skip(count)) =~= tokens(old(input)@).skip(count));
            }
        }
        self.cmd.parse_item(input, context)?;
        match &self.param {
            None => Ok(()),
            Some(pdb) => {
                let ghost goal = fields_run(pdb@, tokens(input@), context@);
                loop
                    invariant
                        fields_run(pdb@, tokens(input@), context@) == goal,
                        goal == self.run(tokens(old(input)@), old(context)@),
                    ensures
                        goal == (ItemsRun {
                            result: Ok(()),
                            rest: tokens(input@),
                            ctx: context@,
                        }),
                    decreases input.len(),
                {
                    if input.len() == 0 {
                        break ;
                    }
                    match pdb.get(input[0].as_str()) {
                        None => {
                            break ;
                        },
                        Some(op) => {
                            proof {
                                let count = 1 + op.operands() as int;
                                if tokens(input@).len() >= count {
                                    assert(tokens(input@.skip(count)) =~= tokens(input@).skip(
                                        count,
                                    ));
                                }
                            }
                            op.parse_item(input, context)?;
                        },
                    }
                }
                Ok(())
            },
        }
    }
}

/// What the levels `grammar` make of the tokens `input`: they are read one
/// behind the other until the tokens end, a token is no keyword of theirs,
/// or one of them fails.
pub open spec fn pattern_run(grammar: Map<Seq<char>, Item>, input: Seq<Seq<char>>, ctx: ItemsModel) -> ItemsRun
    decreases input.len(),
{
    if input.len() == 0 || !grammar.contains_key(input[0]) {
        ItemsRun { result: Ok(()), rest: input, ctx }
    } else {
        let run = grammar[input[0]].run(input, ctx);
        if run.result is Err {
            run
        } else {
            proof {
                grammar[input[0]].lemma_run_consumes(input, ctx);
            }
            pattern_run(grammar, run.rest, run.ctx)
        }
    }
}

/// What the levels leave is an end of the tokens that they were given.
pub proof fn lemma_pattern_run_consumes(
    grammar: Map<Seq<char>, Item>,
    input: Seq<Seq<char>>,
    ctx: ItemsModel,
)
    ensures
        pattern_run(grammar, input, ctx).rest.len() <= input.len(),
        pattern_run(grammar, input, ctx).rest == input.skip(
            input.len() - pattern_run(grammar, input, ctx).rest.len(),
        ),
    decreases input.len(),
{
    let rest = pattern_run(grammar, input, ctx).rest;
    if !(input.len() == 0 || !grammar.contains_key(input[0])) {
        let run = grammar[input[0]].run(input, ctx);
        grammar[input[0]].lemma_run_consumes(input, ctx);
        if run.result is Ok {
            lemma_pattern_run_consumes(grammar, run.rest, run.ctx);
        }
    }
    assert(rest =~= input.skip(input.len() - rest.len()));
}

/// Where the items of the pattern grammar lie in the descriptors of the
/// target.
#[derive(Clone, Copy, Debug)]
pub struct ItemLayouts {
    pub eth: l2net::EthLayout,
    pub ipv4: l3net::Ipv4Layout,
}

/// `grammar` is the pattern grammar for `layouts`: the terminator `end`,
/// the separator `/`, and the items `eth` and `ipv4`.
pub open spec fn is_item_grammar(grammar: Map<Seq<char>, Item>, layouts: ItemLayouts) -> bool {
    &&& grammar.dom() =~= set!["end"@, "/"@, "eth"@, "ipv4"@]
    &&& grammar["end"@].head() == ItemNode::End(ItemEnd)
    &&& grammar["end"@].fields() is None
    &&& grammar["/"@].head() == ItemNode::Separator(ItemSeparator)
    &&& grammar["/"@].fields() is None
    &&& l2net::is_eth_item(grammar["eth"@], layouts.eth)
    &&& l3net::is_ipv4_item(grammar["ipv4"@], layouts.ipv4)
}

/// The registry of the pattern grammar, with the state of the pattern that
/// it builds.
pub struct FlowItems {
    pub(crate) map: NodeMap<Item>,
    pub(crate) context: ItemsParserContext,
}

impl FlowItems {
    /// The levels of the grammar, each under its keyword.
    pub closed spec fn grammar(&self) -> Map<Seq<char>, Item> {
        self.map@
    }

    /// The registry of the terminator, the separator and the items of
    /// `layouts`, with the state before the first token.
    pub fn new(layouts: &ItemLayouts) -> (r: Self)
        ensures
            r.state() == ItemsModel::fresh(),
            is_item_grammar(r.grammar(), *layouts),
    {
        let mut map = FlowItems { map: NodeMap::new(), context: ItemsParserContext::new() };
        proof {
            reveal_strlit("end");
            reveal_strlit("/");
            reveal_strlit("eth");
            reveal_strlit("ipv4");
            assert("end"@ != "/"@) by {
                assert("end"@[0] != "/"@[0]);
            }
            assert("end"@ != "eth"@) by {
                assert("end"@[1] != "eth"@[1]);
            }
            assert("end"@ != "ipv4"@) by {
                assert("end"@[0] != "ipv4"@[0]);
            }
            assert("/"@ != "eth"@) by {
                assert("/"@[0] != "eth"@[0]);
            }
            assert("/"@ != "ipv4"@) by {
                assert("/"@[0] != "ipv4"@[0]);
            }
            assert("eth"@ != "ipv4"@) by {
                assert("eth"@[0] != "ipv4"@[0]);
            }
        }
        map.register(Item::from(ItemNode::End(ItemEnd::new()), None));
        map.register(Item::from(ItemNode::Separator(ItemSeparator::new()), None));
        l2net::flow_item_create_eth(&mut map, &layouts.eth);
        l3net::flow_item_create_ipv4(&mut map, &layouts.ipv4);
        map
    }

    /// The state of the pattern that the registry builds.
    pub closed spec fn state(&self) -> ItemsModel {
        self.context@
    }

    /// The state of the pattern that the registry builds.
    pub fn context(&self) -> (r: &ItemsParserContext)
        ensures
            r@ == self.state(),
    {
        &self.context
    }

    /// Registers the level `item` under its keyword. A level that was
    /// registered under that keyword is replaced.
    pub fn register(&mut self, item: Item)
        ensures
            final(self).grammar() == old(self).grammar().insert(item.keyword(), item),
            final(self).state() == old(self).state(),
    {
        let name = item.name().to_owned();
        self.map.insert(name, item);
    }

    /// The level that is registered under `name`.
    pub fn lookup(&self, name: &str) -> (r: Option<&Item>)
        ensures
            match r {
                Some(item) => self.grammar().contains_key(name@) && *item == self.grammar()[name@],
                None => !self.grammar().contains_key(name@),
            },
    {
        self.map.get(name)
    }

    /// Reads a pattern from the front of `input` into `context`, and takes
    /// from `input` what was read.
    pub fn parse_into(&self, input: &mut Vec<String>, context: &mut ItemsParserContext) -> (r:
        Result<(), FlowError>)
        ensures
            pattern_run(self.grammar(), tokens(old(input)@), old(context)@) == (ItemsRun {
                result: r,
                rest: tokens(final(input)@),
                ctx: final(context)@,
            }),
    {
        let ghost goal = pattern_run(self.grammar(), tokens(input@), context@);
        loop
            invariant
                pattern_run(self.grammar(), tokens(input@), context@) == goal,
                goal == pattern_run(self.grammar(), tokens(old(input)@), old(context)@),
            ensures
                goal == (ItemsRun { result: Ok(()), rest: tokens(input@), ctx: context@ }),
            decreases input.len(),
        {
            if input.len() == 0 {
                break ;
            }
            match self.map.get(input[0].as_str()) {
                None => {
                    break ;
                },
                Some(item) => {
                    proof {
                        item.lemma_run_consumes(tokens(input@), context@);
                    }
                    item.parse(input, context)?;
                },
            }
        }
        Ok(())
    }

    /// Reads a pattern from the front of `input` into the state of the
    /// registry, and takes from `input` what was read.
    pub fn parse_pattern(&mut self, input: &mut Vec<String>) -> (r: Result<(), FlowError>)
        ensures
            final(self).grammar() == old(self).grammar(),
            pattern_run(old(self).grammar(), tokens(old(input)@), old(self).state()) == (ItemsRun {
                result: r,
                rest: tokens(final(input)@),
                ctx: final(self).state(),
            }),
    {
        let mut context = ItemsParserContext::new();
        std::mem::swap(&mut self.context, &mut context);
        let r = self.parse_into(input, &mut context);
        self.context = context;
        r
    }

    /// The pattern array.
    pub fn get_raw_pattern(&self) -> (r: &Vec<RawItem>)
        ensures
            r@.map_values(|e: RawItem| e@) == self.state().raw,
    {
        self.context.raw()
    }
}

/// Two modifiers applied one behind the other at one offset.
pub open spec fn modify_twice(
    data: ItemDataModel,
    first: Seq<char>,
    first_src: Seq<u8>,
    second: Seq<char>,
    second_src: Seq<u8>,
    offset: nat,
) -> Result<ItemDataModel, FlowError> {
    match data.modify(first, first_src, offset) {
        Ok(next) => next.modify(second, second_src, offset),
        Err(e) => Err(e),
    }
}

/// An exact match on a field whose value bytes are still zero sets the
/// value there to `src` and the mask there to ones, and leaves every other
/// byte of the value and of the mask, and the upper bound, as they were.
pub proof fn lemma_is_sets_value_and_mask(data: ItemDataModel, src: Seq<u8>, offset: nat)
    requires
        data.spec.wf(),
        data.mask.wf(),
        ArgModel::fits(src.len(), offset),
        forall|i: int| offset <= i < offset + src.len() ==> data.spec.data[i] == 0,
    ensures
        data.modify("is"@, src, offset) == Ok::<ItemDataModel, FlowError>(
            data.is_mod(src, offset),
        ),
        data.is_mod(src, offset).spec.data.subrange(offset as int, offset + src.len() as int) == src,
        data.is_mod(src, offset).mask.data.subrange(offset as int, offset + src.len() as int) == ones(
            src.len(),
        ),
        forall|i: int|
            0 <= i < ARG_DATA_SIZE && !(offset <= i < offset + src.len()) ==> data.is_mod(
                src,
                offset,
            ).spec.data[i] == data.spec.data[i] && data.is_mod(src, offset).mask.data[i]
                == data.mask.data[i],
        data.is_mod(src, offset).last == data.last,
{
    let after = data.is_mod(src, offset);
    assert forall|j: int| offset <= j < offset + src.len() implies #[trigger] after.spec.data[j]
        == src[j - offset] by {
        let b = src[j - offset];
        assert(0u8 | b == b) by (bit_vector);
    }
    assert forall|j: int| offset <= j < offset + src.len() implies #[trigger] after.mask.data[j]
        == 0xffu8 by {
        let b = data.mask.data[j];
        assert(b | 0xffu8 == 0xffu8) by (bit_vector);
    }
    assert(after.spec.data.subrange(offset as int, offset + src.len() as int) =~= src);
    assert(after.mask.data.subrange(offset as int, offset + src.len() as int) =~= ones(src.len()));
}

/// A value and a mask that are set at one offset give the same buffers in
/// either order, and the same failure where one of them does not fit. On
/// buffers of zero bytes the value is then `value` and the mask `mask`.
pub proof fn lemma_spec_mask_commute(
    data: ItemDataModel,
    value: Seq<u8>,
    mask: Seq<u8>,
    offset: nat,
    size: nat,
)
    requires
        size <= ARG_DATA_SIZE,
    ensures
        modify_twice(data, "spec"@, value, "mask"@, mask, offset) == modify_twice(
            data,
            "mask"@,
            mask,
            "spec"@,
            value,
            offset,
        ),
        ArgModel::fits(value.len(), offset) && ArgModel::fits(mask.len(), offset) ==> {
            let both = modify_twice(
                ItemDataModel::zero(size),
                "spec"@,
                value,
                "mask"@,
                mask,
                offset,
            );
            &&& both is Ok
            &&& both->Ok_0.spec.data.subrange(offset as int, offset + value.len() as int) == value
            &&& both->Ok_0.mask.data.subrange(offset as int, offset + mask.len() as int) == mask
        },
{
    reveal_strlit("is");
    reveal_strlit("spec");
    reveal_strlit("mask");
    reveal_strlit("last");
    assert("spec"@ != "is"@ && "spec"@ != "mask"@ && "mask"@ != "is"@) by {
        assert("spec"@[0] != "is"@[0]);
        assert("spec"@[0] != "mask"@[0]);
        assert("mask"@[0] != "is"@[0]);
    }
    if ArgModel::fits(value.len(), offset) && ArgModel::fits(mask.len(), offset) {
        let zero = ItemDataModel::zero(size);
        let both = zero.spec_mod(value, offset).mask_mod(mask, offset);
        assert forall|j: int| offset <= j < offset + value.len() implies #[trigger] both.spec.data[j]
            == value[j - offset] by {
            let b = value[j - offset];
            assert(0u8 | b == b) by (bit_vector);
        }
        assert forall|j: int| offset <= j < offset + mask.len() implies #[trigger] both.mask.data[j]
            == mask[j - offset] by {
            let b = mask[j - offset];
            assert(0u8 | b == b) by (bit_vector);
        }
        assert(both.spec.data.subrange(offset as int, offset + value.len() as int) =~= value);
        assert(both.mask.data.subrange(offset as int, offset + mask.len() as int) =~= mask);
    }
}

/// The terminator leaves a pattern array that ends with the end marker.
pub proof fn lemma_terminated_pattern(ctx: ItemsModel)
    ensures
        ctx.terminate().raw.len() > 0,
        ctx.terminate().raw.last() == (RawEntry {
            type_: ITEM_TYPE_END,
            spec: None,
            mask: None,
            last: None,
        }),
{
}

/// A pattern of the terminator alone is the end marker alone: one entry
/// with null pointers, and no byte of payload.
pub proof fn lemma_terminator_alone(grammar: Map<Seq<char>, Item>)
    requires
        grammar.contains_key("end"@),
        grammar["end"@].head() == ItemNode::End(ItemEnd),
        grammar["end"@].fields() is None,
    ensures
        ({
            let run = pattern_run(grammar, seq!["end"@], ItemsModel::fresh());
            &&& run.result is Ok
            &&& run.rest.len() == 0
            &&& run.ctx.raw == seq![
                RawEntry { type_: ITEM_TYPE_END, spec: None, mask: None, last: None },
            ]
            &&& total_payload(run.ctx.raw) == 0
        }),
{
    let input = seq!["end"@];
    let fresh = ItemsModel::fresh();
    let item = grammar["end"@];
    let first = item.run(input, fresh);
    assert(input.subrange(1, 1) =~= Seq::<Seq<char>>::empty());
    assert(input.skip(1) =~= Seq::<Seq<char>>::empty());
    assert(first.result is Ok);
    assert(first.rest.len() == 0);
    let end = ItemEntry { itype: ITEM_TYPE_END, data: None };
    assert(fresh.items.push(end) =~= seq![end]);
    let raw = seq![RawEntry { type_: ITEM_TYPE_END, spec: None, mask: None, last: None }];
    assert(first.ctx.raw =~= raw);
    assert(pattern_run(grammar, input, fresh) == pattern_run(grammar, first.rest, first.ctx));
    assert(raw.drop_last() =~= Seq::<RawEntry>::empty());
    assert(total_payload(raw) == 0) by {
        reveal_with_fuel(total_payload, 2);
    }
}

/// Of two levels that are registered under one keyword the second stays:
/// the registry is as if the first had never been registered.
pub proof fn lemma_last_registration_wins(
    grammar: Map<Seq<char>, Item>,
    first: Item,
    second: Item,
)
    requires
        first.keyword() == second.keyword(),
    ensures
        grammar.insert(first.keyword(), first).insert(second.keyword(), second) == grammar.insert(
            second.keyword(),
            second,
        ),
        grammar.insert(first.keyword(), first).insert(second.keyword(), second)[first.keyword()]
            == second,
{
    assert(grammar.insert(first.keyword(), first).insert(second.keyword(), second)
        =~= grammar.insert(second.keyword(), second));
}

/// Of two field leaves that are given to a level under one keyword the
/// second stays.
pub proof fn lemma_last_field_wins(nodes: Seq<Param>, first: Param, second: Param)
    requires
        first.label() == second.label(),
    ensures
        field_map(nodes.push(first).push(second)) == field_map(nodes.push(second)),
        field_map(nodes.push(first).push(second))[first.label()] == second,
{
    let all = nodes.push(first).push(second);
    assert(all.drop_last() =~= nodes.push(first));
    assert(nodes.push(first).drop_last() =~= nodes);
    assert(nodes.push(second).drop_last() =~= nodes);
    assert(field_map(all) == field_map(nodes.push(first)).insert(second.label(), second));
    assert(field_map(nodes.push(first)) == field_map(nodes).insert(first.label(), first));
    assert(field_map(nodes.push(second)) == field_map(nodes).insert(second.label(), second));
    assert(field_map(all) =~= field_map(nodes.push(second)));
}

} // verus!
