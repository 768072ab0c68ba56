//! The attributes of a flow rule: its group, its priority, and the domain
//! of traffic that it applies to.

use vstd::prelude::*;
use crate::cmdline::arg::arg_int::{literal_value, ArgInt, ByteOrder};
use crate::cmdline::arg::Arg;
use crate::cmdline::error::FlowError;
use crate::cmdline::node_map::{drop_tokens, str_eq, tokens, NodeMap};
use crate::cmdline::param::Param;

verus! {

/// The domain of traffic that a rule applies to.
#[derive(Clone, Copy, Debug, PartialEq, Eq, Structural)]
pub enum Domain {
    Ingress,
    Egress,
    Transfer,
}

/// The attribute record in the layout of the target: two numbers and one
/// flag for each domain.
#[derive(Clone, Copy, Debug, PartialEq, Eq, Structural)]
pub struct RawAttr {
    pub group: u32,
    pub priority: u32,
    pub ingress: bool,
    pub egress: bool,
    pub transfer: bool,
}

impl RawAttr {
    /// The record of zeros, with no flag set.
    pub open spec fn zero() -> RawAttr {
        RawAttr { group: 0, priority: 0, ingress: false, egress: false, transfer: false }
    }
}

/// The state of the attributes under construction.
pub struct AttrModel {
    pub group: Option<u32>,
    pub priority: Option<u32>,
    pub domain: Option<Domain>,
    pub raw: RawAttr,
}

impl AttrModel {
    /// The state before the first token.
    pub open spec fn fresh() -> AttrModel {
        AttrModel { group: None, priority: None, domain: None, raw: RawAttr::zero() }
    }

    /// The record after the attributes that were read are written into it:
    /// the group and the priority if they were given, and the flag of the
    /// domain that was given last.
    pub open spec fn finish(self) -> AttrModel {
        let numbered = RawAttr {
            group: match self.group {
                Some(v) => v,
                None => self.raw.group,
            },
            priority: match self.priority {
                Some(v) => v,
                None => self.raw.priority,
            },
            ..self.raw
        };
        AttrModel {
            raw: match self.domain {
                Some(Domain::Ingress) => RawAttr { ingress: true, ..numbered },
                Some(Domain::Egress) => RawAttr { egress: true, ..numbered },
                Some(Domain::Transfer) => RawAttr { transfer: true, ..numbered },
                None => numbered,
            },
            ..self
        }
    }

    /// The state after the attribute `name` was given the literal `value`:
    /// a literal that writes no 32-bit number is an invalid argument, and a
    /// name other than `group` and `priority` is an unknown keyword.
    pub open spec fn number(self, name: Seq<char>, value: Seq<char>) -> Result<
        AttrModel,
        FlowError,
    > {
        match literal_value(value, 0xffff_ffff) {
            None => Err(FlowError::InvalidArgument),
            Some(v) => if name == "group"@ {
                Ok(AttrModel { group: Some(v as u32), ..self })
            } else if name == "priority"@ {
                Ok(AttrModel { priority: Some(v as u32), ..self })
            } else {
                Err(FlowError::UnknownKeyword)
            },
        }
    }
}

/// The state of the attributes under construction: one for each command.
pub struct AttrContext {
    pub(crate) group: Option<u32>,
    pub(crate) priority: Option<u32>,
    pub(crate) domain: Option<Domain>,
    pub(crate) raw_attr: RawAttr,
}

impl View for AttrContext {
    type V = AttrModel;

    closed spec fn view(&self) -> AttrModel {
        AttrModel {
            group: self.group,
            priority: self.priority,
            domain: self.domain,
            raw: self.raw_attr,
        }
    }
}

impl AttrContext {
    /// The state before the first token.
    pub fn new() -> (r: AttrContext)
        ensures
            r@ == AttrModel::fresh(),
    {
        AttrContext {
            group: None,
            priority: None,
            domain: None,
            raw_attr: RawAttr {
                group: 0,
                priority: 0,
                ingress: false,
                egress: false,
                transfer: false,
            },
        }
    }

    /// The group that was given.
    pub fn group(&self) -> (r: Option<u32>)
        ensures
            r == self@.group,
    {
        self.group
    }

    /// The priority that was given.
    pub fn priority(&self) -> (r: Option<u32>)
        ensures
            r == self@.priority,
    {
        self.priority
    }

    /// The domain that was given last.
    pub fn domain(&self) -> (r: Option<Domain>)
        ensures
            r == self@.domain,
    {
        self.domain
    }

    /// The attribute record.
    pub fn raw_attr(&self) -> (r: &RawAttr)
        ensures
            *r == self@.raw,
    {
        &self.raw_attr
    }

    /// Writes the attributes that were read into the attribute record.
    pub fn build_raw_attr(&mut self)
        ensures
            final(self)@ == old(self)@.finish(),
    {
        match self.group {
            Some(v) => {
                self.raw_attr.group = v;
            },
            None => {},
        }
        match self.priority {
            Some(v) => {
                self.raw_attr.priority = v;
            },
            None => {},
        }
        match self.domain {
            Some(Domain::Ingress) => {
                self.raw_attr.ingress = true;
            },
            Some(Domain::Egress) => {
                self.raw_attr.egress = true;
            },
            Some(Domain::Transfer) => {
                self.raw_attr.transfer = true;
            },
            None => {},
        }
    }
}

/// What reading tokens made of a state: whether it went well, the tokens
/// that are left, and the state.
pub struct AttrRun {
    pub result: Result<(), FlowError>,
    pub rest: Seq<Seq<char>>,
    pub ctx: AttrModel,
}

/// What one node makes of the tokens `input`, of which the first is its
/// keyword: it takes the keyword and its operands and changes the state, or
/// it fails and takes and changes nothing. Tokens that end before the last
/// operand are an invalid argument.
pub open spec fn attr_step<T: AttrOps>(node: T, input: Seq<Seq<char>>, ctx: AttrModel) -> AttrRun {
    if input.len() < 1 + node.operands() {
        AttrRun { result: Err(FlowError::InvalidArgument), rest: input, ctx }
    } else {
        match node.apply(input.subrange(1, 1 + node.operands() as int), ctx) {
            Ok(next) => AttrRun {
                result: Ok(()),
                rest: input.skip(1 + node.operands() as int),
                ctx: next,
            },
            Err(e) => AttrRun { result: Err(e), rest: input, ctx },
        }
    }
}

/// A node of the attribute grammar.
pub trait AttrOps: Send + Sync {
    /// The keyword under which the node is registered.
    spec fn keyword(&self) -> Seq<char>;

    /// The number of tokens that the node reads behind its keyword.
    spec fn operands(&self) -> nat;

    /// The state after the node has read `operands` in the state `ctx`.
    spec fn apply(&self, operands: Seq<Seq<char>>, ctx: AttrModel) -> Result<AttrModel, FlowError>;

    /// The keyword under which the node is registered.
    fn name(&self) -> (r: &str)
        ensures
            r@ == self.keyword(),
    ;

    /// Reads the keyword at the front of `input` and the operands behind it,
    /// and takes them from `input`.
    fn parse_attr(&self, input: &mut Vec<String>, context: &mut AttrContext) -> (r: Result<
        (),
        FlowError,
    >)
        ensures
            ({
                let given = tokens(old(input)@);
                let count = 1 + self.operands() as int;
                if given.len() < count {
                    &&& r == Err::<(), FlowError>(FlowError::InvalidArgument)
                    &&& final(input)@ == old(input)@
                    &&& final(context)@ == old(context)@
                } else {
                    match self.apply(given.subrange(1, count), old(context)@) {
                        Ok(next) => {
                            &&& r == Ok::<(), FlowError>(())
                            &&& final(input)@ == old(input)@.skip(count)
                            &&& final(context)@ == next
                        },
                        Err(e) => {
                            &&& r == Err::<(), FlowError>(e)
                            &&& final(input)@ == old(input)@
                            &&& final(context)@ == old(context)@
                        },
                    }
                }
            }),
    ;
}

impl AttrOps for Param {
    open spec fn keyword(&self) -> Seq<char> {
        self.label()
    }

    open spec fn operands(&self) -> nat {
        1
    }

    open spec fn apply(&self, operands: Seq<Seq<char>>, ctx: AttrModel) -> Result<
        AttrModel,
        FlowError,
    > {
        ctx.number(self.label(), operands[0])
    }

    fn name(&self) -> (r: &str) {
        self.keyword()
    }

    fn parse_attr(&self, input: &mut Vec<String>, context: &mut AttrContext) -> (r: Result<
        (),
        FlowError,
    >) {
        if input.len() < 2 {
            return Err(FlowError::InvalidArgument);
        }
        let reader = ArgInt::<u32>::new_with_order(ByteOrder::LittleEndian);
        let arg = reader.strton(input[1].as_str())?;
        if str_eq(self.keyword(), "group") {
            context.group = Some(arg);
        } else if str_eq(self.keyword(), "priority") {
            context.priority = Some(arg);
        } else {
            return Err(FlowError::UnknownKeyword);
        }
        drop_tokens(input, 2);
        Ok(())
    }
}

/// The attribute that applies a rule to the traffic that comes in.
pub struct Ingress;

impl Ingress {
    /// The attribute `ingress`.
    pub fn new() -> (r: Ingress)
        ensures
            r == Ingress,
    {
        Ingress {  }
    }
}

impl AttrOps for Ingress {
    open spec fn keyword(&self) -> Seq<char> {
        "ingress"@
    }

    open spec fn operands(&self) -> nat {
        0
    }

    open spec fn apply(&self, operands: Seq<Seq<char>>, ctx: AttrModel) -> Result<
        AttrModel,
        FlowError,
    > {
        Ok(AttrModel { domain: Some(Domain::Ingress), ..ctx })
    }

    fn name(&self) -> (r: &str) {
        "ingress"
    }

    fn parse_attr(&self, input: &mut Vec<String>, context: &mut AttrContext) -> (r: Result<
        (),
        FlowError,
    >) {
        if input.len() < 1 {
            return Err(FlowError::InvalidArgument);
        }
        context.domain = Some(Domain::Ingress);
        drop_tokens(input, 1);
        Ok(())
    }
}

/// The attribute that applies a rule to the traffic that goes out.
pub struct Egress;

impl Egress {
    /// The attribute `egress`.
    pub fn new() -> (r: Egress)
        ensures
            r == Egress,
    {
        Egress {  }
    }
}

impl AttrOps for Egress {
    open spec fn keyword(&self) -> Seq<char> {
        "egress"@
    }

    open spec fn operands(&self) -> nat {
        0
    }

    open spec fn apply(&self, operands: Seq<Seq<char>>, ctx: AttrModel) -> Result<
        AttrModel,
        FlowError,
    > {
        Ok(AttrModel { domain: Some(Domain::Egress), ..ctx })
    }

    fn name(&self) -> (r: &str) {
        "egress"
    }

    fn parse_attr(&self, input: &mut Vec<String>, context: &mut AttrContext) -> (r: Result<
        (),
        FlowError,
    >) {
        if input.len() < 1 {
            return Err(FlowError::InvalidArgument);
        }
        context.domain = Some(Domain::Egress);
        drop_tokens(input, 1);
        Ok(())
    }
}

/// The attribute that applies a rule to the traffic between ports.
pub struct Transfer;

impl Transfer {
    /// The attribute `transfer`.
    pub fn new() -> (r: Transfer)
        ensures
            r == Transfer,
    {
        Transfer {  }
    }
}

impl AttrOps for Transfer {
    open spec fn keyword(&self) -> Seq<char> {
        "transfer"@
    }

    open spec fn operands(&self) -> nat {
        0
    }

    open spec fn apply(&self, operands: Seq<Seq<char>>, ctx: AttrModel) -> Result<
        AttrModel,
        FlowError,
    > {
        Ok(AttrModel { domain: Some(Domain::Transfer), ..ctx })
    }

    fn name(&self) -> (r: &str) {
        "transfer"
    }

    fn parse_attr(&self, input: &mut Vec<String>, context: &mut AttrContext) -> (r: Result<
        (),
        FlowError,
    >) {
        if input.len() < 1 {
            return Err(FlowError::InvalidArgument);
        }
        context.domain = Some(Domain::Transfer);
        drop_tokens(input, 1);
        Ok(())
    }
}

/// A node of the attribute grammar.
pub enum AttrNode {
    Ingress(Ingress),
    Egress(Egress),
    Transfer(Transfer),
    /// An attribute with a number.
    Param(Param),
}

impl AttrOps for AttrNode {
    open spec fn keyword(&self) -> Seq<char> {
        match self {
            AttrNode::Ingress(n) => n.keyword(),
            AttrNode::Egress(n) => n.keyword(),
            AttrNode::Transfer(n) => n.keyword(),
            AttrNode::Param(n) => AttrOps::keyword(n),
        }
    }

    open spec fn operands(&self) -> nat {
        match self {
            AttrNode::Ingress(n) => n.operands(),
            AttrNode::Egress(n) => n.operands(),
            AttrNode::Transfer(n) => n.operands(),
            AttrNode::Param(n) => n.operands(),
        }
    }

    open spec fn apply(&self, operands: Seq<Seq<char>>, ctx: AttrModel) -> Result<
        AttrModel,
        FlowError,
    > {
        match self {
            AttrNode::Ingress(n) => n.apply(operands, ctx),
            AttrNode::Egress(n) => n.apply(operands, ctx),
            AttrNode::Transfer(n) => n.apply(operands, ctx),
            AttrNode::Param(n) => n.apply(operands, ctx),
        }
    }

    fn name(&self) -> (r: &str) {
        match self {
            AttrNode::Ingress(n) => n.name(),
            AttrNode::Egress(n) => n.name(),
            AttrNode::Transfer(n) => n.name(),
            AttrNode::Param(n) => n.name(),
        }
    }

    fn parse_attr(&self, input: &mut Vec<String>, context: &mut AttrContext) -> (r: Result<
        (),
        FlowError,
    >) {
        match self {
            AttrNode::Ingress(n) => n.parse_attr(input, context),
            AttrNode::Egress(n) => n.parse_attr(input, context),
            AttrNode::Transfer(n) => n.parse_attr(input, context),
            AttrNode::Param(n) => n.parse_attr(input, context),
        }
    }
}

/// A node that reads well takes its keyword at least, and what a node
/// leaves is an end of the tokens that it was given: tokens are taken from
/// the front, one time each.
pub proof fn lemma_step_consumes<T: AttrOps>(node: T, input: Seq<Seq<char>>, ctx: AttrModel)
    ensures
        attr_step(node, input, ctx).result is Ok ==> attr_step(node, input, ctx).rest.len()
            < input.len(),
        attr_step(node, input, ctx).rest.len() <= input.len(),
        attr_step(node, input, ctx).rest == input.skip(
            input.len() - attr_step(node, input, ctx).rest.len(),
        ),
{
    let rest = attr_step(node, input, ctx).rest;
    assert(rest =~= input.skip(input.len() - rest.len()));
}

/// What the nodes `grammar` make of the tokens `input`: they are read one
/// behind the other until one of them fails, or until the tokens end or a
/// token is no keyword of theirs. That token is left where it is, and the
/// attributes that were read are written into the attribute record.
pub open spec fn attr_run(grammar: Map<Seq<char>, AttrNode>, input: Seq<Seq<char>>, ctx: AttrModel) -> AttrRun
    decreases input.len(),
{
    if input.len() == 0 || !grammar.contains_key(input[0]) {
        AttrRun { result: Ok(()), rest: input, ctx: ctx.finish() }
    } else {
        let step = attr_step(grammar[input[0]], input, ctx);
        if step.result is Err {
            step
        } else {
            proof {
                lemma_step_consumes(grammar[input[0]], input, ctx);
            }
            attr_run(grammar, step.rest, step.ctx)
        }
    }
}

/// What the nodes leave is an end of the tokens that they were given.
pub proof fn lemma_attr_run_consumes(
    grammar: Map<Seq<char>, AttrNode>,
    input: Seq<Seq<char>>,
    ctx: AttrModel,
)
    ensures
        attr_run(grammar, input, ctx).rest.len() <= input.len(),
        attr_run(grammar, input, ctx).rest == input.skip(
            input.len() - attr_run(grammar, input, ctx).rest.len(),
        ),
    decreases input.len(),
{
    let rest = attr_run(grammar, input, ctx).rest;
    if !(input.len() == 0 || !grammar.contains_key(input[0])) {
        let step = attr_step(grammar[input[0]], input, ctx);
        lemma_step_consumes(grammar[input[0]], input, ctx);
        if step.result is Ok {
            lemma_attr_run_consumes(grammar, step.rest, step.ctx);
        }
    }
    assert(rest =~= input.skip(input.len() - rest.len()));
}

/// The node `node` is the attribute `name` with a number.
pub open spec fn is_number(node: AttrNode, name: Seq<char>) -> bool {
    node matches AttrNode::Param(p) && p.label() == name
}

/// Registers the numbered attribute `attr_name`.
fn create_attribute(attr_name: &str, map: &mut NodeMap<AttrNode>)
    ensures
        final(map)@.contains_key(attr_name@),
        final(map)@ == old(map)@.insert(attr_name@, final(map)@[attr_name@]),
        is_number(final(map)@[attr_name@], attr_name@),
{
    let arg: Box<dyn Arg> = Box::new(ArgInt::<u32>::new());
    let op = Param::from(attr_name, None, None, Some(vec![(arg, 0)]));
    map.insert(attr_name.to_owned(), AttrNode::Param(op));
}

/// `grammar` is the attribute grammar: the three domains, and the numbered
/// attributes `group` and `priority`.
pub open spec fn is_attr_grammar(grammar: Map<Seq<char>, AttrNode>) -> bool {
    &&& grammar.dom() =~= set!["ingress"@, "egress"@, "transfer"@, "group"@, "priority"@]
    &&& grammar["ingress"@] == AttrNode::Ingress(Ingress)
    &&& grammar["egress"@] == AttrNode::Egress(Egress)
    &&& grammar["transfer"@] == AttrNode::Transfer(Transfer)
    &&& is_number(grammar["group"@], "group"@)
    &&& is_number(grammar["priority"@], "priority"@)
}

/// The registry of the attribute grammar, with the state of the attributes
/// that it builds.
pub struct FlowAttributes {
    pub(crate) map: NodeMap<AttrNode>,
    pub(crate) context: AttrContext,
}

impl FlowAttributes {
    /// The nodes of the grammar, each under its keyword.
    pub closed spec fn grammar(&self) -> Map<Seq<char>, AttrNode> {
        self.map@
    }

    /// The state of the attributes that the registry builds.
    pub closed spec fn state(&self) -> AttrModel {
        self.context@
    }

    /// The registry of the three domains and the two numbered attributes,
    /// with the state before the first token.
    pub fn new() -> (r: FlowAttributes)
        ensures
            r.state() == AttrModel::fresh(),
            is_attr_grammar(r.grammar()),
    {
        let mut attr = FlowAttributes { map: NodeMap::new(), context: AttrContext::new() };
        proof {
            reveal_strlit("ingress");
            reveal_strlit("egress");
            reveal_strlit("transfer");
            reveal_strlit("group");
            reveal_strlit("priority");
            assert("ingress"@[0] != "egress"@[0]);
            assert("ingress"@[0] != "transfer"@[0]);
            assert("ingress"@[0] != "group"@[0]);
            assert("ingress"@[0] != "priority"@[0]);
            assert("egress"@[0] != "transfer"@[0]);
            assert("egress"@[0] != "group"@[0]);
            assert("egress"@[0] != "priority"@[0]);
            assert("transfer"@[0] != "group"@[0]);
            assert("transfer"@[0] != "priority"@[0]);
            assert("group"@[0] != "priority"@[0]);
        }
        let mut map: NodeMap<AttrNode> = NodeMap::new();
        map.insert("ingress".to_owned(), AttrNode::Ingress(Ingress::new()));
        map.insert("egress".to_owned(), AttrNode::Egress(Egress::new()));
        map.insert("transfer".to_owned(), AttrNode::Transfer(Transfer::new()));
        create_attribute("group", &mut map);
        create_attribute("priority", &mut map);
        attr.map = map;
        attr
    }

    /// The state of the attributes that the registry builds.
    pub fn context(&self) -> (r: &AttrContext)
        ensures
            r@ == self.state(),
    {
        &self.context
    }

    /// Reads attributes from the front of `input` into `context`, takes
    /// from `input` what was read, and writes the attribute record.
    pub fn parse_into(&self, input: &mut Vec<String>, context: &mut AttrContext) -> (r: Result<
        (),
        FlowError,
    >)
        ensures
            attr_run(self.grammar(), tokens(old(input)@), old(context)@) == (AttrRun {
                result: r,
                rest: tokens(final(input)@),
                ctx: final(context)@,
            }),
    {
        let ghost goal = attr_run(self.grammar(), tokens(input@), context@);
        loop
            invariant
                attr_run(self.grammar(), tokens(input@), context@) == goal,
                goal == attr_run(self.grammar(), tokens(old(input)@), old(context)@),
            ensures
                goal == (AttrRun {
                    result: Ok(()),
                    rest: tokens(input@),
                    ctx: context@.finish(),
                }),
            decreases input.len(),
        {
            if input.len() == 0 {
                break ;
            }
            match self.map.get(input[0].as_str()) {
                None => {
                    break ;
                },
                Some(op) => {
                    proof {
                        let count = 1 + op.operands() as int;
                        if tokens(input@).len() >= count {
                            assert(tokens(input@.skip(count)) =~= tokens(input@).skip(count));
                        }
                    }
                    op.parse_attr(input, context)?;
                },
            }
        }
        context.build_raw_attr();
        Ok(())
    }

    /// Reads attributes from the front of `input` into the state of the
    /// registry, takes from `input` what was read, and writes the attribute
    /// record.
    pub fn parse_attr(&mut self, input: &mut Vec<String>) -> (r: Result<(), FlowError>)
        ensures
            final(self).grammar() == old(self).grammar(),
            attr_run(old(self).grammar(), tokens(old(input)@), old(self).state()) == (AttrRun {
                result: r,
                rest: tokens(final(input)@),
                ctx: final(self).state(),
            }),
    {
        let mut context = AttrContext::new();
        std::mem::swap(&mut self.context, &mut context);
        let r = self.parse_into(input, &mut context);
        self.context = context;
        r
    }

    /// The attribute record.
    pub fn get_raw_attr(&self) -> (r: &RawAttr)
        ensures
            *r == self.state().raw,
    {
        self.context.raw_attr()
    }
}

/// The nodes of the grammar write nothing into the attribute record before
/// the run ends, so that a fresh state gives a record with the flag of one
/// domain at most.
pub proof fn lemma_one_domain_flag(
    grammar: Map<Seq<char>, AttrNode>,
    input: Seq<Seq<char>>,
    ctx: AttrModel,
)
    requires
        ctx.raw == RawAttr::zero(),
    ensures
        ({
            let raw = attr_run(grammar, input, ctx).ctx.raw;
            &&& !(raw.ingress && raw.egress)
            &&& !(raw.ingress && raw.transfer)
            &&& !(raw.egress && raw.transfer)
        }),
    decreases input.len(),
{
    if !(input.len() == 0 || !grammar.contains_key(input[0])) {
        let step = attr_step(grammar[input[0]], input, ctx);
        lemma_step_consumes(grammar[input[0]], input, ctx);
        if step.result is Ok {
            lemma_one_domain_flag(grammar, step.rest, step.ctx);
        }
    }
}

/// Attributes that start with no keyword of the grammar, or with no token
/// at all, leave the tokens where they are and give the record of zeros
/// with no flag set.
pub proof fn lemma_no_attribute(grammar: Map<Seq<char>, AttrNode>, input: Seq<Seq<char>>)
    requires
        input.len() == 0 || !grammar.contains_key(input[0]),
    ensures
        attr_run(grammar, input, AttrModel::fresh()) == (AttrRun {
            result: Ok(()),
            rest: input,
            ctx: AttrModel::fresh(),
        }),
        attr_run(grammar, input, AttrModel::fresh()).ctx.raw == RawAttr::zero(),
{
}

} // verus!
