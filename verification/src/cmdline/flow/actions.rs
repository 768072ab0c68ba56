//! The actions of a flow rule: what the device does with a packet that the
//! pattern matches. An action has one buffer for its configuration.

use vstd::prelude::*;
use crate::cmdline::arg::arg_int::{int_field, ArgInt};
use crate::cmdline::arg::{Arg, ArgData, ArgModel, ARG_DATA_SIZE};
use crate::cmdline::error::FlowError;
use crate::cmdline::node_map::{drop_tokens, tokens, NodeMap};
use crate::cmdline::param::Param;

verus! {

/// The type of the entry that ends a list of actions.
pub const ACTION_TYPE_END: u32 = 0;

/// What a finished action holds: its type, and its configuration if it has
/// one.
pub struct ActionEntry {
    pub id: u32,
    pub data: Option<ArgModel>,
}

/// A finished action.
#[derive(Clone, Copy, Debug)]
pub struct DpdkAction {
    pub id: u32,
    pub data: Option<ArgData>,
}

impl View for DpdkAction {
    type V = ActionEntry;

    open spec fn view(&self) -> ActionEntry {
        ActionEntry {
            id: self.id,
            data: match self.data {
                Some(d) => Some(d@),
                None => None,
            },
        }
    }
}

impl DpdkAction {
    /// The action of the type `id` with the configuration `data`.
    pub fn from(id: u32, data: Option<ArgData>) -> (r: Self)
        ensures
            r.id == id,
            r.data == data,
    {
        DpdkAction { id, data }
    }
}

/// One entry of the action array: the type, and the buffer that its
/// pointer leads to, where `None` is the null pointer.
#[derive(Clone, Copy, Debug)]
pub struct RawAction {
    pub type_: u32,
    pub conf: Option<ArgData>,
}

impl View for RawAction {
    type V = ActionEntry;

    open spec fn view(&self) -> ActionEntry {
        ActionEntry {
            id: self.type_,
            data: match self.conf {
                Some(d) => Some(d@),
                None => None,
            },
        }
    }
}

/// The state of a list of actions under construction.
pub struct ActionsModel {
    /// The type of the action that is being built.
    pub id: u32,
    /// The size of the configuration of that type.
    pub size: nat,
    /// The configuration of that action.
    pub data: Option<ArgModel>,
    /// The finished actions, in order.
    pub actions: Seq<ActionEntry>,
    /// The action array.
    pub raw: Seq<ActionEntry>,
}

impl ActionsModel {
    /// The state before the first token.
    pub open spec fn fresh() -> ActionsModel {
        ActionsModel {
            id: ACTION_TYPE_END,
            size: 0,
            data: None,
            actions: Seq::empty(),
            raw: Seq::empty(),
        }
    }

    /// A terminal selector was read: an action of the type `id` is begun,
    /// with a buffer of zero bytes that has the size `size` of its
    /// configuration. A configuration that no buffer holds is out of bounds.
    pub open spec fn select(self, id: u32, size: nat) -> Result<ActionsModel, FlowError> {
        if size <= ARG_DATA_SIZE {
            Ok(ActionsModel { id, size, data: Some(ArgModel::zero(size)), ..self })
        } else {
            Err(FlowError::OutOfBounds)
        }
    }

    /// A field was read: `src` is OR-ed at `offset` into the configuration
    /// of the action. Where no action was begun, the configuration starts
    /// as zero bytes of the size that the state holds.
    pub open spec fn field(self, src: Seq<u8>, offset: nat) -> Result<ActionsModel, FlowError> {
        if self.data is None && self.size > ARG_DATA_SIZE {
            Err(FlowError::OutOfBounds)
        } else if !ArgModel::fits(src.len(), offset) {
            Err(FlowError::OutOfBounds)
        } else {
            let start = match self.data {
                Some(d) => d,
                None => ArgModel::zero(self.size),
            };
            Ok(ActionsModel { data: Some(start.or_merge(src, offset)), ..self })
        }
    }

    /// An action without configuration was read: it is finished at once.
    pub open spec fn push(self, id: u32) -> ActionsModel {
        ActionsModel { actions: self.actions.push(ActionEntry { id, data: None }), ..self }
    }

    /// The terminator was read: the end marker is appended, and the action
    /// array gets one entry for each finished action.
    pub open spec fn terminate(self) -> ActionsModel {
        let actions = self.actions.push(ActionEntry { id: ACTION_TYPE_END, data: None });
        ActionsModel { actions, raw: self.raw + actions, ..self }
    }
}

/// The state of a list of actions under construction: one for each command.
pub struct ActionsParserContext {
    pub(crate) id: u32,
    pub(crate) size: usize,
    pub(crate) data: Option<ArgData>,
    pub(crate) actions: Vec<DpdkAction>,
    pub(crate) raw_actions: Vec<RawAction>,
}

impl View for ActionsParserContext {
    type V = ActionsModel;

    closed spec fn view(&self) -> ActionsModel {
        ActionsModel {
            id: self.id,
            size: self.size as nat,
            data: match self.data {
                Some(d) => Some(d@),
                None => None,
            },
            actions: self.actions@.map_values(|e: DpdkAction| e@),
            raw: self.raw_actions@.map_values(|e: RawAction| e@),
        }
    }
}

impl ActionsParserContext {
    /// The state before the first token.
    pub fn new() -> (r: Self)
        ensures
            r@ == ActionsModel::fresh(),
    {
        let r = ActionsParserContext {
            id: ACTION_TYPE_END,
            size: 0,
            data: None,
            actions: Vec::new(),
            raw_actions: Vec::new(),
        };
        assert(r@.actions =~= Seq::<ActionEntry>::empty());
        assert(r@.raw =~= Seq::<ActionEntry>::empty());
        r
    }

    /// The type of the action that is being built.
    pub fn id(&self) -> (r: u32)
        ensures
            r == self@.id,
    {
        self.id
    }

    /// The configuration of the action that is being built.
    pub fn data(&self) -> (r: &Option<ArgData>)
        ensures
            match *r {
                Some(d) => self@.data == Some(d@),
                None => self@.data is None,
            },
    {
        &self.data
    }

    /// The finished actions.
    pub fn actions(&self) -> (r: &Vec<DpdkAction>)
        ensures
            r@.map_values(|e: DpdkAction| e@) == self@.actions,
    {
        &self.actions
    }

    /// The action array.
    pub fn raw_actions(&self) -> (r: &Vec<RawAction>)
        ensures
            r@.map_values(|e: RawAction| e@) == self@.raw,
    {
        &self.raw_actions
    }

    /// The action array, taken out of the state.
    pub fn into_raw(self) -> (r: Vec<RawAction>)
        ensures
            r@.map_values(|e: RawAction| e@) == self@.raw,
    {
        self.raw_actions
    }

    /// Gives the action array one entry for each finished action.
    pub fn build_raw_actions(&mut self)
        ensures
            final(self)@ == (ActionsModel {
                raw: old(self)@.raw + old(self)@.actions,
                ..old(self)@
            }),
    {
        let n = self.actions.len();
        let mut i: usize = 0;
        while i < n
            invariant
                i <= n,
                n == self.actions.len(),
                self.id == old(self).id,
                self.size == old(self).size,
                self.data == old(self).data,
                self.actions == old(self).actions,
                self.raw_actions@.map_values(|e: RawAction| e@) == old(self)@.raw + old(
                    self,
                )@.actions.take(i as int),
            decreases n - i,
        {
            let action = self.actions[i];
            let entry = RawAction { type_: action.id, conf: action.data };
            assert(entry@ == action@);
            let ghost before = self.raw_actions@;
            self.raw_actions.push(entry);
            proof {
                let all = old(self)@.actions;
                assert(all[i as int] == action@);
                assert(all.take(i + 1) =~= all.take(i as int).push(all[i as int]));
                assert(self.raw_actions@ == before.push(entry));
                assert(self.raw_actions@.map_values(|e: RawAction| e@) =~= before.map_values(
                    |e: RawAction| e@,
                ).push(entry@));
                assert((old(self)@.raw + all.take(i as int)).push(entry@) =~= old(self)@.raw
                    + all.take(i + 1));
            }
            i += 1;
        }
        proof {
            assert(old(self)@.actions.take(n as int) =~= old(self)@.actions);
        }
    }

    /// Takes a terminal selector into the state.
    pub fn select(&mut self, id: u32, size: usize) -> (r: Result<(), FlowError>)
        ensures
            match r {
                Ok(()) => old(self)@.select(id, size as nat) == Ok::<ActionsModel, FlowError>(
                    final(self)@,
                ),
                Err(e) => old(self)@.select(id, size as nat) == Err::<ActionsModel, FlowError>(e)
                    && final(self)@ == old(self)@,
            },
    {
        if size > ARG_DATA_SIZE {
            return Err(FlowError::OutOfBounds);
        }
        self.id = id;
        self.size = size;
        self.data = Some(ArgData::new_from_size(size));
        Ok(())
    }

    /// Takes a field into the state.
    pub fn field(&mut self, src: &[u8], offset: usize) -> (r: Result<(), FlowError>)
        ensures
            match r {
                Ok(()) => old(self)@.field(src@, offset as nat) == Ok::<ActionsModel, FlowError>(
                    final(self)@,
                ),
                Err(e) => old(self)@.field(src@, offset as nat) == Err::<ActionsModel, FlowError>(
                    e,
                ) && final(self)@ == old(self)@,
            },
    {
        let mut data = match self.data {
            Some(d) => d,
            None => {
                if self.size > ARG_DATA_SIZE {
                    return Err(FlowError::OutOfBounds);
                }
                ArgData::new_from_size(self.size)
            },
        };
        data.or_from_slice(src, offset)?;
        self.data = Some(data);
        Ok(())
    }

    /// Finishes an action of the type `id` without configuration.
    pub fn push(&mut self, id: u32)
        ensures
            final(self)@ == old(self)@.push(id),
    {
        self.actions.push(DpdkAction::from(id, None));
        assert(self@.actions =~= old(self)@.push(id).actions);
    }

    /// Appends the end marker and fills the action array.
    pub fn terminate(&mut self)
        ensures
            final(self)@ == old(self)@.terminate(),
    {
        self.actions.push(DpdkAction::from(ACTION_TYPE_END, None));
        assert(self@.actions =~= old(self)@.terminate().actions);
        self.build_raw_actions();
    }
}

/// What reading tokens made of a state: whether it went well, the tokens
/// that are left, and the state.
pub struct ActionsRun {
    pub result: Result<(), FlowError>,
    pub rest: Seq<Seq<char>>,
    pub ctx: ActionsModel,
}

/// What one node makes of the tokens `input`, of which the first is its
/// keyword: it takes the keyword and its operands and changes the state, or
/// it fails and takes and changes nothing. Tokens that end before the last
/// operand are an invalid argument.
pub open spec fn action_step<T: ActionOps>(node: T, input: Seq<Seq<char>>, ctx: ActionsModel) -> ActionsRun {
    if input.len() < 1 + node.operands() {
        ActionsRun { result: Err(FlowError::InvalidArgument), rest: input, ctx }
    } else {
        match node.apply(input.subrange(1, 1 + node.operands() as int), ctx) {
            Ok(next) => ActionsRun {
                result: Ok(()),
                rest: input.skip(1 + node.operands() as int),
                ctx: next,
            },
            Err(e) => ActionsRun { result: Err(e), rest: input, ctx },
        }
    }
}

/// A node of the action grammar.
pub trait ActionOps: Send + Sync {
    /// The keyword under which the node is registered.
    spec fn keyword(&self) -> Seq<char>;

    /// The number of tokens that the node reads behind its keyword.
    spec fn operands(&self) -> nat;

    /// The state after the node has read `operands` in the state `ctx`.
    spec fn apply(&self, operands: Seq<Seq<char>>, ctx: ActionsModel) -> Result<
        ActionsModel,
        FlowError,
    >;

    /// The keyword under which the node is registered.
    fn name(&self) -> (r: &str)
        ensures
            r@ == self.keyword(),
    ;

    /// Reads the keyword at the front of `input` and the operands behind it,
    /// and takes them from `input`.
    fn parse_action(&self, input: &mut Vec<String>, context: &mut ActionsParserContext) -> (r:
        Result<(), FlowError>)
        ensures
            ({
                let given = tokens(old(input)@);
                let count = 1 + self.operands() as int;
                if given.len() < count {
                    &&& r == Err::<(), FlowError>(FlowError::InvalidArgument)
                    &&& final(input)@ == old(input)@
                    &&& final(context)@ == old(context)@
                } else {
                    match self.apply(given.subrange(1, count), old(context)@) {
                        Ok(next) => {
                            &&& r == Ok::<(), FlowError>(())
                            &&& final(input)@ == old(input)@.skip(count)
                            &&& final(context)@ == next
                        },
                        Err(e) => {
                            &&& r == Err::<(), FlowError>(e)
                            &&& final(input)@ == old(input)@
                            &&& final(context)@ == old(context)@
                        },
                    }
                }
            }),
    ;
}

impl ActionOps for Param {
    open spec fn keyword(&self) -> Seq<char> {
        self.label()
    }

    open spec fn operands(&self) -> nat {
        if self.is_terminal() {
            0
        } else {
            1
        }
    }

    open spec fn apply(&self, operands: Seq<Seq<char>>, ctx: ActionsModel) -> Result<
        ActionsModel,
        FlowError,
    > {
        if self.is_terminal() {
            ctx.select(self.type_id() as u32, self.payload_size() as nat)
        } else {
            match self.encode(operands[0]) {
                Ok(a) => ctx.field(a.bytes(), self.offset() as nat),
                Err(e) => Err(e),
            }
        }
    }

    fn name(&self) -> (r: &str) {
        self.keyword()
    }

    fn parse_action(&self, input: &mut Vec<String>, context: &mut ActionsParserContext) -> (r:
        Result<(), FlowError>) {
        match self.terminal() {
            Some((id, size)) => {
                if input.len() < 1 {
                    return Err(FlowError::InvalidArgument);
                }
                context.select(id as u32, size)?;
                drop_tokens(input, 1);
                Ok(())
            },
            None => {
                if input.len() < 2 {
                    return Err(FlowError::InvalidArgument);
                }
                let offset = match self.field_offset() {
                    Some(offset) => offset,
                    None => 0,
                };
                let arg = self.serialize(input[1].as_str())?;
                context.field(arg.bytes(), offset)?;
                drop_tokens(input, 2);
                Ok(())
            },
        }
    }
}

/// The separator: between actions it stands for symmetry with patterns,
/// and changes nothing.
pub struct ActionSeparator;

impl ActionSeparator {
    /// The separator of the action grammar.
    pub fn new() -> (r: ActionSeparator)
        ensures
            r == ActionSeparator,
    {
        ActionSeparator {  }
    }
}

impl ActionOps for ActionSeparator {
    open spec fn keyword(&self) -> Seq<char> {
        "/"@
    }

    open spec fn operands(&self) -> nat {
        0
    }

    open spec fn apply(&self, operands: Seq<Seq<char>>, ctx: ActionsModel) -> Result<
        ActionsModel,
        FlowError,
    > {
        Ok(ctx)
    }

    fn name(&self) -> (r: &str) {
        "/"
    }

    fn parse_action(&self, input: &mut Vec<String>, context: &mut ActionsParserContext) -> (r:
        Result<(), FlowError>) {
        if input.len() < 1 {
            return Err(FlowError::InvalidArgument);
        }
        drop_tokens(input, 1);
        Ok(())
    }
}

/// The terminator: it appends the end marker and fills the action array.
pub struct ActionEnd;

impl ActionEnd {
    /// The terminator of the action grammar.
    pub fn new() -> (r: ActionEnd)
        ensures
            r == ActionEnd,
    {
        ActionEnd {  }
    }
}

impl ActionOps for ActionEnd {
    open spec fn keyword(&self) -> Seq<char> {
        "end"@
    }

    open spec fn operands(&self) -> nat {
        0
    }

    open spec fn apply(&self, operands: Seq<Seq<char>>, ctx: ActionsModel) -> Result<
        ActionsModel,
        FlowError,
    > {
        Ok(ctx.terminate())
    }

    fn name(&self) -> (r: &str) {
        "end"
    }

    fn parse_action(&self, input: &mut Vec<String>, context: &mut ActionsParserContext) -> (r:
        Result<(), FlowError>) {
        if input.len() < 1 {
            return Err(FlowError::InvalidArgument);
        }
        context.terminate();
        drop_tokens(input, 1);
        Ok(())
    }
}

/// The action that drops the packet. It has no configuration and is
/// finished as soon as it is read.
pub struct ActionDrop {
    pub type_id: u32,
}

impl ActionDrop {
    /// The drop action, which the target knows as the type `type_id`.
    pub fn new(type_id: u32) -> (r: ActionDrop)
        ensures
            r.type_id == type_id,
    {
        ActionDrop { type_id }
    }
}

impl ActionOps for ActionDrop {
    open spec fn keyword(&self) -> Seq<char> {
        "drop"@
    }

    open spec fn operands(&self) -> nat {
        0
    }

    open spec fn apply(&self, operands: Seq<Seq<char>>, ctx: ActionsModel) -> Result<
        ActionsModel,
        FlowError,
    > {
        Ok(ctx.push(self.type_id))
    }

    fn name(&self) -> (r: &str) {
        "drop"
    }

    fn parse_action(&self, input: &mut Vec<String>, context: &mut ActionsParserContext) -> (r:
        Result<(), FlowError>) {
        if input.len() < 1 {
            return Err(FlowError::InvalidArgument);
        }
        context.push(self.type_id);
        drop_tokens(input, 1);
        Ok(())
    }
}

/// A node that opens a level of the action grammar.
pub enum ActionNode {
    /// The separator.
    Separator(ActionSeparator),
    /// The terminator.
    End(ActionEnd),
    /// The drop action.
    Drop(ActionDrop),
    /// A terminal selector or a field leaf.
    Param(Param),
}

impl ActionOps for ActionNode {
    open spec fn keyword(&self) -> Seq<char> {
        match self {
            ActionNode::Separator(n) => n.keyword(),
            ActionNode::End(n) => n.keyword(),
            ActionNode::Drop(n) => n.keyword(),
            ActionNode::Param(n) => ActionOps::keyword(n),
        }
    }

    open spec fn operands(&self) -> nat {
        match self {
            ActionNode::Separator(n) => n.operands(),
            ActionNode::End(n) => n.operands(),
            ActionNode::Drop(n) => n.operands(),
            ActionNode::Param(n) => n.operands(),
        }
    }

    open spec fn apply(&self, operands: Seq<Seq<char>>, ctx: ActionsModel) -> Result<
        ActionsModel,
        FlowError,
    > {
        match self {
            ActionNode::Separator(n) => n.apply(operands, ctx),
            ActionNode::End(n) => n.apply(operands, ctx),
            ActionNode::Drop(n) => n.apply(operands, ctx),
            ActionNode::Param(n) => n.apply(operands, ctx),
        }
    }

    fn name(&self) -> (r: &str) {
        match self {
            ActionNode::Separator(n) => n.name(),
            ActionNode::End(n) => n.name(),
            ActionNode::Drop(n) => n.name(),
            ActionNode::Param(n) => n.name(),
        }
    }

    fn parse_action(&self, input: &mut Vec<String>, context: &mut ActionsParserContext) -> (r:
        Result<(), FlowError>) {
        match self {
            ActionNode::Separator(n) => n.parse_action(input, context),
            ActionNode::End(n) => n.parse_action(input, context),
            ActionNode::Drop(n) => n.parse_action(input, context),
            ActionNode::Param(n) => n.parse_action(input, context),
        }
    }
}

/// A node that reads well takes its keyword at least, and what a node
/// leaves is an end of the tokens that it was given: tokens are taken from
/// the front, one time each.
pub proof fn lemma_step_consumes<T: ActionOps>(node: T, input: Seq<Seq<char>>, ctx: ActionsModel)
    ensures
        action_step(node, input, ctx).result is Ok ==> action_step(node, input, ctx).rest.len()
            < input.len(),
        action_step(node, input, ctx).rest.len() <= input.len(),
        action_step(node, input, ctx).rest == input.skip(
            input.len() - action_step(node, input, ctx).rest.len(),
        ),
{
    let rest = action_step(node, input, ctx).rest;
    assert(rest =~= input.skip(input.len() - rest.len()));
}

/// What the field leaves `fields` make of the tokens `input`: they are
/// read one behind the other until the tokens end, a token is no keyword
/// of theirs, or one of them fails.
pub open spec fn fields_run(fields: Map<Seq<char>, Param>, input: Seq<Seq<char>>, ctx: ActionsModel) -> ActionsRun
    decreases input.len(),
{
    if input.len() == 0 || !fields.contains_key(input[0]) {
        ActionsRun { result: Ok(()), rest: input, ctx }
    } else {
        let step = action_step(fields[input[0]], input, ctx);
        if step.result is Err {
            step
        } else {
            proof {
                lemma_step_consumes(fields[input[0]], input, ctx);
            }
            fields_run(fields, step.rest, step.ctx)
        }
    }
}

/// What the field leaves leave is an end of the tokens that they were
/// given.
pub proof fn lemma_fields_run_consumes(
    fields: Map<Seq<char>, Param>,
    input: Seq<Seq<char>>,
    ctx: ActionsModel,
)
    ensures
        fields_run(fields, input, ctx).rest.len() <= input.len(),
        fields_run(fields, input, ctx).rest == input.skip(
            input.len() - fields_run(fields, input, ctx).rest.len(),
        ),
    decreases input.len(),
{
    let rest = fields_run(fields, input, ctx).rest;
    if !(input.len() == 0 || !fields.contains_key(input[0])) {
        let step = action_step(fields[input[0]], input, ctx);
        lemma_step_consumes(fields[input[0]], input, ctx);
        if step.result is Ok {
            lemma_fields_run_consumes(fields, step.rest, step.ctx);
        }
    }
    assert(rest =~= input.skip(input.len() - rest.len()));
}

/// The map that the nodes `nodes` make, each under its keyword. Of two
/// nodes with one keyword the later stays.
pub open spec fn field_map(nodes: Seq<Param>) -> Map<Seq<char>, Param>
    decreases nodes.len(),
{
    if nodes.len() == 0 {
        Map::empty()
    } else {
        field_map(nodes.drop_last()).insert(nodes.last().label(), nodes.last())
    }
}

/// One level of the action grammar: a node, and the field leaves that may
/// follow it.
pub struct Action {
    pub(crate) cmd: ActionNode,
    pub(crate) param: Option<NodeMap<Param>>,
}

impl Action {
    /// The node that opens the level.
    pub closed spec fn head(&self) -> ActionNode {
        self.cmd
    }

    /// The field leaves of the level, each under its keyword.
    pub closed spec fn fields(&self) -> Option<Map<Seq<char>, Param>> {
        match self.param {
            Some(m) => Some(m@),
            None => None,
        }
    }

    /// The keyword of the level: that of its node.
    pub open spec fn keyword(&self) -> Seq<char> {
        self.head().keyword()
    }

    /// What the level makes of the tokens `input`: its node reads, and then
    /// its field leaves read as long as they find their keywords.
    pub open spec fn run(&self, input: Seq<Seq<char>>, ctx: ActionsModel) -> ActionsRun {
        let first = action_step(self.head(), input, ctx);
        match self.fields() {
            Some(fields) => if first.result is Err {
                first
            } else {
                fields_run(fields, first.rest, first.ctx)
            },
            None => first,
        }
    }

    /// The level is opened by the terminal selector `name` of the type `id`
    /// with a configuration of `size` bytes.
    pub open spec fn selects(&self, name: Seq<char>, id: isize, size: usize) -> bool {
        &&& self.head() matches ActionNode::Param(p)
        &&& p.label() == name
        &&& p.is_terminal()
        &&& p.type_id() == id
        &&& p.payload_size() == size
    }

    /// The level has the field leaf `name` at `offset`, which serializes as
    /// `encode` says.
    pub open spec fn has_field(
        &self,
        name: Seq<char>,
        offset: usize,
        encode: spec_fn(Seq<char>) -> Result<ArgModel, FlowError>,
    ) -> bool {
        &&& self.fields() matches Some(fields)
        &&& fields.contains_key(name)
        &&& fields[name].label() == name
        &&& !fields[name].is_terminal()
        &&& fields[name].offset() == offset
        &&& forall|sample: Seq<char>| #[trigger] fields[name].encode(sample) == encode(sample)
    }

    /// A level that reads well takes its keyword at least, and what a
    /// level leaves is an end of the tokens that it was given.
    pub proof fn lemma_run_consumes(&self, input: Seq<Seq<char>>, ctx: ActionsModel)
        ensures
            self.run(input, ctx).result is Ok ==> self.run(input, ctx).rest.len() < input.len(),
            self.run(input, ctx).rest.len() <= input.len(),
            self.run(input, ctx).rest == input.skip(input.len() - self.run(input, ctx).rest.len()),
    {
        let first = action_step(self.head(), input, ctx);
        let rest = self.run(input, ctx).rest;
        lemma_step_consumes(self.head(), input, ctx);
        lemma_fields_run_consumes(self.fields().unwrap(), first.rest, first.ctx);
        assert(rest =~= input.skip(input.len() - rest.len()));
    }

    /// The level of the node `cmd` with the field leaves `param`.
    pub fn from(cmd: ActionNode, param: Option<Vec<Param>>) -> (r: Self)
        ensures
            r.head() == cmd,
            r.fields() == match param {
                Some(nodes) => Some(field_map(nodes@)),
                None => None,
            },
    {
        match param {
            None => Action { cmd, param: None },
            Some(nodes) => {
                let mut nodes = nodes;
                let ghost all = nodes@;
                let mut pdb: NodeMap<Param> = NodeMap::new();
                let ghost mut done: int = 0;
                while nodes.len() > 0
                    invariant
                        0 <= done <= all.len(),
                        nodes@ == all.skip(done),
                        pdb@ == field_map(all.take(done)),
                    decreases nodes.len(),
                {
                    let op = nodes.remove(0);
                    let name = op.keyword().to_owned();
                    pdb.insert(name, op);
                    proof {
                        assert(all.take(done + 1).drop_last() =~= all.take(done));
                        assert(all.take(done + 1).last() == all[done]);
                        done = done + 1;
                        assert(nodes@ =~= all.skip(done));
                    }
                }
                proof {
                    assert(all.take(done) =~= all);
                }
                Action { cmd, param: Some(pdb) }
            },
        }
    }

    /// The keyword of the level.
    pub fn name(&self) -> (r: &str)
        ensures
            r@ == self.keyword(),
    {
        self.cmd.name()
    }

    /// Reads the level at the front of `input`.
    pub fn parse(&self, input: &mut Vec<String>, context: &mut ActionsParserContext) -> (r: Result<
        (),
        FlowError,
    >)
        ensures
            self.run(tokens(old(input)@), old(context)@) == (ActionsRun {
                result: r,
                rest: tokens(final(input)@),
                ctx: final(context)@,
            }),
    {
        proof {
            let count = 1 + self.cmd.operands() as int;
            if tokens(old(input)@).len() >= count {
                assert(tokens(old(input)@.skip(count)) =~= tokens(old(input)@).skip(count));
            }
        }
        self.cmd.parse_action(input, context)?;
        match &self.param {
            None => Ok(()),
            Some(pdb) => {
                let ghost goal = fields_run(pdb@, tokens(input@), context@);
                loop
                    invariant
                        fields_run(pdb@, tokens(input@), context@) == goal,
                        goal == self.run(tokens(old(input)@), old(context)@),
                    ensures
                        goal == (ActionsRun {
                            result: Ok(()),
                            rest: tokens(input@),
                            ctx: context@,
                        }),
                    decreases input.len(),
                {
                    if input.len() == 0 {
                        break ;
                    }
                    match pdb.get(input[0].as_str()) {
                        None => {
                            break ;
                        },
                        Some(op) => {
                            proof {
                                let count = 1 + op.operands() as int;
                                if tokens(input@).len() >= count {
                                    assert(tokens(input@.skip(count)) =~= tokens(input@).skip(
                                        count,
                                    ));
                                }
                            }
                            op.parse_action(input, context)?;
                        },
                    }
                }
                Ok(())
            },
        }
    }
}

/// What the levels `grammar` make of the tokens `input`: they are read one
/// behind the other until the tokens end, a token is no keyword of theirs,
/// or one of them fails.
pub open spec fn actions_run(
    grammar: Map<Seq<char>, Action>,
    input: Seq<Seq<char>>,
    ctx: ActionsModel,
) -> ActionsRun
    decreases input.len(),
{
    if input.len() == 0 || !grammar.contains_key(input[0]) {
        ActionsRun { result: Ok(()), rest: input, ctx }
    } else {
        let run = grammar[input[0]].run(input, ctx);
        if run.result is Err {
            run
        } else {
            proof {
                grammar[input[0]].lemma_run_consumes(input, ctx);
            }
            actions_run(grammar, run.rest, run.ctx)
        }
    }
}

/// What the levels leave is an end of the tokens that they were given.
pub proof fn lemma_actions_run_consumes(
    grammar: Map<Seq<char>, Action>,
    input: Seq<Seq<char>>,
    ctx: ActionsModel,
)
    ensures
        actions_run(grammar, input, ctx).rest.len() <= input.len(),
        actions_run(grammar, input, ctx).rest == input.skip(
            input.len() - actions_run(grammar, input, ctx).rest.len(),
        ),
    decreases input.len(),
{
    let rest = actions_run(grammar, input, ctx).rest;
    if !(input.len() == 0 || !grammar.contains_key(input[0])) {
        let run = grammar[input[0]].run(input, ctx);
        grammar[input[0]].lemma_run_consumes(input, ctx);
        if run.result is Ok {
            lemma_actions_run_consumes(grammar, run.rest, run.ctx);
        }
    }
    assert(rest =~= input.skip(input.len() - rest.len()));
}

/// The terminator leaves an action array that ends with the end marker.
pub proof fn lemma_terminated_actions(ctx: ActionsModel)
    ensures
        ctx.terminate().raw.len() > 0,
        ctx.terminate().raw.last() == (ActionEntry { id: ACTION_TYPE_END, data: None }),
{
}

/// The types under which the target knows the actions of the grammar.
#[derive(Clone, Copy, Debug)]
pub struct ActionLayouts {
    pub drop_type: u32,
}

/// `grammar` is the action grammar for `layouts`: the terminator `end`,
/// the action `drop`, and the separator `/`.
pub open spec fn is_action_grammar(grammar: Map<Seq<char>, Action>, layouts: ActionLayouts) -> bool {
    &&& grammar.dom() =~= set!["end"@, "drop"@, "/"@]
    &&& grammar["end"@].head() == ActionNode::End(ActionEnd)
    &&& grammar["end"@].fields() is None
    &&& grammar["drop"@].head() == ActionNode::Drop(ActionDrop { type_id: layouts.drop_type })
    &&& grammar["drop"@].fields() is None
    &&& grammar["/"@].head() == ActionNode::Separator(ActionSeparator)
    &&& grammar["/"@].fields() is None
}

/// The registry of the action grammar, with the state of the list of
/// actions that it builds.
pub struct FlowActions {
    pub(crate) map: NodeMap<Action>,
    pub(crate) context: ActionsParserContext,
}

impl FlowActions {
    /// The levels of the grammar, each under its keyword.
    pub closed spec fn grammar(&self) -> Map<Seq<char>, Action> {
        self.map@
    }

    /// The state of the list of actions that the registry builds.
    pub closed spec fn state(&self) -> ActionsModel {
        self.context@
    }

    /// The registry of the terminator, the drop action of `layouts` and the
    /// separator, with the state before the first token.
    pub fn new(layouts: &ActionLayouts) -> (r: FlowActions)
        ensures
            r.state() == ActionsModel::fresh(),
            is_action_grammar(r.grammar(), *layouts),
    {
        let mut adb = FlowActions { map: NodeMap::new(), context: ActionsParserContext::new() };
        proof {
            reveal_strlit("end");
            reveal_strlit("drop");
            reveal_strlit("/");
            assert("end"@ != "drop"@) by {
                assert("end"@[0] != "drop"@[0]);
            }
            assert("end"@ != "/"@) by {
                assert("end"@[0] != "/"@[0]);
            }
            assert("drop"@ != "/"@) by {
                assert("drop"@[0] != "/"@[0]);
            }
        }
        adb.register(Action::from(ActionNode::End(ActionEnd::new()), None));
        adb.register(Action::from(ActionNode::Drop(ActionDrop::new(layouts.drop_type)), None));
        adb.register(Action::from(ActionNode::Separator(ActionSeparator::new()), None));
        adb
    }

    /// The state of the list of actions that the registry builds.
    pub fn context(&self) -> (r: &ActionsParserContext)
        ensures
            r@ == self.state(),
    {
        &self.context
    }

    /// Registers the level `action` under its keyword. A level that was
    /// registered under that keyword is replaced.
    pub fn register(&mut self, action: Action)
        ensures
            final(self).grammar() == old(self).grammar().insert(action.keyword(), action),
            final(self).state() == old(self).state(),
    {
        let name = action.name().to_owned();
        self.map.insert(name, action);
    }

    /// The level that is registered under `name`.
    pub fn lookup(&self, name: &str) -> (r: Option<&Action>)
        ensures
            match r {
                Some(action) => self.grammar().contains_key(name@) && *action
                    == self.grammar()[name@],
                None => !self.grammar().contains_key(name@),
            },
    {
        self.map.get(name)
    }

    /// Reads actions from the front of `input` into `context`, and takes
    /// from `input` what was read.
    pub fn parse_into(&self, input: &mut Vec<String>, context: &mut ActionsParserContext) -> (r:
        Result<(), FlowError>)
        ensures
            actions_run(self.grammar(), tokens(old(input)@), old(context)@) == (ActionsRun {
                result: r,
                rest: tokens(final(input)@),
                ctx: final(context)@,
            }),
    {
        let ghost goal = actions_run(self.grammar(), tokens(input@), context@);
        loop
            invariant
                actions_run(self.grammar(), tokens(input@), context@) == goal,
                goal == actions_run(self.grammar(), tokens(old(input)@), old(context)@),
            ensures
                goal == (ActionsRun { result: Ok(()), rest: tokens(input@), ctx: context@ }),
            decreases input.len(),
        {
            if input.len() == 0 {
                break ;
            }
            match self.map.get(input[0].as_str()) {
                None => {
                    break ;
                },
                Some(action) => {
                    proof {
                        action.lemma_run_consumes(tokens(input@), context@);
                    }
                    action.parse(input, context)?;
                },
            }
        }
        Ok(())
    }

    /// Reads actions from the front of `input` into the state of the
    /// registry, and takes from `input` what was read.
    pub fn parse_actions(&mut self, input: &mut Vec<String>) -> (r: Result<(), FlowError>)
        ensures
            final(self).grammar() == old(self).grammar(),
            actions_run(old(self).grammar(), tokens(old(input)@), old(self).state()) == (ActionsRun {
                result: r,
                rest: tokens(final(input)@),
                ctx: final(self).state(),
            }),
    {
        let mut context = ActionsParserContext::new();
        std::mem::swap(&mut self.context, &mut context);
        let r = self.parse_into(input, &mut context);
        self.context = context;
        r
    }

    /// The action array.
    pub fn get_raw_actions(&self) -> (r: &Vec<RawAction>)
        ensures
            r@.map_values(|e: RawAction| e@) == self.state().raw,
    {
        self.context.raw_actions()
    }
}

/// Where the action that sends a packet to a represented port lies in the
/// descriptors of the target: the type of the action, the size of its
/// configuration, and the offset of the port number in it.
#[derive(Clone, Copy, Debug)]
pub struct RepresentedPortLayout {
    pub action_type: isize,
    pub action_size: usize,
    pub port_id_offset: usize,
}

/// The level `action` is the represented-port action for `layout`: the
/// terminal selector `represented_port` with the 16-bit field
/// `ethdev_port_id`, which is laid out in one of the two byte orders.
pub open spec fn is_represented_port(action: Action, layout: RepresentedPortLayout) -> bool {
    &&& action.selects("represented_port"@, layout.action_type, layout.action_size)
    &&& action.fields() matches Some(fields) && fields.dom() =~= set!["ethdev_port_id"@]
    &&& {
        ||| action.has_field(
            "ethdev_port_id"@,
            layout.port_id_offset,
            |s: Seq<char>| int_field(s, 2, 0xffff, false),
        )
        ||| action.has_field(
            "ethdev_port_id"@,
            layout.port_id_offset,
            |s: Seq<char>| int_field(s, 2, 0xffff, true),
        )
    }
}

/// Registers the represented-port action for `layout` under
/// `represented_port`.
pub fn flow_action_create_represented_port(
    actions_db: &mut FlowActions,
    layout: &RepresentedPortLayout,
)
    ensures
        final(actions_db).state() == old(actions_db).state(),
        final(actions_db).grammar().contains_key("represented_port"@),
        final(actions_db).grammar() == old(actions_db).grammar().insert(
            "represented_port"@,
            final(actions_db).grammar()["represented_port"@],
        ),
        is_represented_port(final(actions_db).grammar()["represented_port"@], *layout),
{
    let port_int = ArgInt::<u16>::new();
    let ghost big_endian = port_int.big_endian();
    let port_arg: Box<dyn Arg> = Box::new(port_int);
    assert(forall|s: Seq<char>| #[trigger]
        port_arg.encode(s) == int_field(s, 2, 0xffff, big_endian));
    let port_args = vec![(port_arg, layout.port_id_offset)];
    assert(forall|s: Seq<char>| #[trigger]
        port_args@[0].0.encode(s) == int_field(s, 2, 0xffff, big_endian));
    let port_param = Param::from("ethdev_port_id", None, None, Some(port_args));
    assert(forall|s: Seq<char>| #[trigger]
        port_param.encode(s) == int_field(s, 2, 0xffff, big_endian));

    let port = Param::from(
        "represented_port",
        Some(layout.action_type),
        Some(layout.action_size),
        None,
    );
    let fields = vec![port_param];
    let action = Action::from(ActionNode::Param(port), Some(fields));
    proof {
        let nodes = fields@;
        assert(nodes.len() == 1 && nodes.last() == nodes[0]);
        assert(nodes.drop_last() =~= Seq::<Param>::empty());
        assert(field_map(nodes.drop_last()) =~= Map::<Seq<char>, Param>::empty());
        assert(field_map(nodes) == Map::<Seq<char>, Param>::empty().insert(
            nodes[0].label(),
            nodes[0],
        ));
        if big_endian {
            assert(action.has_field(
                "ethdev_port_id"@,
                layout.port_id_offset,
                |s: Seq<char>| int_field(s, 2, 0xffff, true),
            ));
        } else {
            assert(action.has_field(
                "ethdev_port_id"@,
                layout.port_id_offset,
                |s: Seq<char>| int_field(s, 2, 0xffff, false),
            ));
        }
    }
    actions_db.register(action);
}

} // verus!
