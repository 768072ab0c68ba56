//! The flow command: the three registries of its grammar, and the
//! dispatcher that leads the tokens of a command through them.

use vstd::prelude::*;
use crate::cmdline::arg::arg_int::{from_str_radix, radix_value};
use crate::cmdline::error::FlowError;
use crate::cmdline::node_map::{drop_tokens, tokens, NodeMap};
use crate::cmdline::{requests_view, ModuleOps, ModuleRun, Request, RequestModel};

pub mod actions;
pub mod attr;
pub mod items;

use actions::{
    actions_run, is_action_grammar, lemma_actions_run_consumes, Action, ActionEntry,
    ActionLayouts, ActionsModel, ActionsParserContext, FlowActions, RawAction, ACTION_TYPE_END,
};
use attr::{
    attr_run, is_attr_grammar, lemma_attr_run_consumes, AttrContext, AttrModel, AttrNode,
    FlowAttributes, RawAttr,
};
use items::{
    is_item_grammar, lemma_pattern_run_consumes, pattern_run, FlowItems, Item, ItemLayouts,
    ItemsModel, ItemsParserContext, RawEntry, RawItem, ITEM_TYPE_END,
};

verus! {

/// Where the items and the actions of the grammar lie in the descriptors of
/// the target.
#[derive(Clone, Copy, Debug)]
pub struct FlowLayouts {
    pub items: ItemLayouts,
    pub actions: ActionLayouts,
}

/// What a compiled rule holds.
pub struct FlowRuleModel {
    pub port: u16,
    pub attr: RawAttr,
    pub pattern: Seq<RawEntry>,
    pub actions: Seq<ActionEntry>,
}

impl FlowRuleModel {
    /// The pattern and the actions each end with their end marker, as the
    /// hardware expects of the arrays that it is handed.
    pub open spec fn terminated(self) -> bool {
        &&& self.pattern.len() > 0
        &&& self.pattern.last().type_ == ITEM_TYPE_END
        &&& self.actions.len() > 0
        &&& self.actions.last().id == ACTION_TYPE_END
    }
}

/// A compiled rule: the port that it is for, and the three artifacts that
/// the hardware takes.
#[derive(Debug)]
pub struct FlowRule {
    pub port: u16,
    pub attr: RawAttr,
    pub pattern: Vec<RawItem>,
    pub actions: Vec<RawAction>,
}

impl View for FlowRule {
    type V = FlowRuleModel;

    open spec fn view(&self) -> FlowRuleModel {
        FlowRuleModel {
            port: self.port,
            attr: self.attr,
            pattern: self.pattern@.map_values(|e: RawItem| e@),
            actions: self.actions@.map_values(|e: RawAction| e@),
        }
    }
}

impl FlowRule {
    /// Whether the pattern and the actions each end with their end marker.
    /// A rule of which a run ended before its terminator does not.
    pub fn terminated(&self) -> (r: bool)
        ensures
            r == self@.terminated(),
    {
        let items = self.pattern.len();
        let actions = self.actions.len();
        items > 0 && self.pattern[items - 1].type_ == ITEM_TYPE_END && actions > 0
            && self.actions[actions - 1].type_ == ACTION_TYPE_END
    }
}

/// What compiling one command made of the tokens: the rule or the failure,
/// and the tokens that are left.
pub struct CmdRun {
    pub result: Result<FlowRuleModel, FlowError>,
    pub rest: Seq<Seq<char>>,
}

/// A command of the flow module.
pub trait CmdOps: Send + Sync {
    /// The keyword of the command.
    spec fn keyword(&self) -> Seq<char>;

    /// What the command makes of the tokens `input`, of which the first is
    /// its keyword.
    spec fn compile(&self, input: Seq<Seq<char>>) -> CmdRun;

    /// A command that compiles takes its keyword at least.
    proof fn lemma_compile_consumes(&self, input: Seq<Seq<char>>)
        ensures
            self.compile(input).result is Ok ==> self.compile(input).rest.len() < input.len(),
    ;

    /// The keyword of the command.
    fn name(&self) -> (r: &str)
        ensures
            r@ == self.keyword(),
    ;

    /// Compiles the command at the front of `input`, and takes from `input`
    /// what was read.
    fn parse(&self, input: &mut Vec<String>) -> (r: Result<FlowRule, FlowError>)
        ensures
            tokens(final(input)@) == self.compile(tokens(old(input)@)).rest,
            match r {
                Ok(rule) => self.compile(tokens(old(input)@)).result == Ok::<
                    FlowRuleModel,
                    FlowError,
                >(rule@),
                Err(e) => self.compile(tokens(old(input)@)).result == Err::<
                    FlowRuleModel,
                    FlowError,
                >(e),
            },
    ;
}

/// The command that creates a rule: `create`, the number of a port,
/// attributes, a separator, a pattern up to its terminator, a separator,
/// and actions up to their terminator.
pub struct CreateCmd {
    pub(crate) attrs: FlowAttributes,
    pub(crate) items: FlowItems,
    pub(crate) actions: FlowActions,
}

/// What `create` makes of the tokens `input` with the three grammars: the
/// port is a decimal 16-bit number; the attributes are read up to the
/// first token that is none; that token and the token behind the pattern
/// are taken as the separators, whatever they are; and every registry
/// starts on a fresh state. Tokens that end before the port are an invalid
/// argument, and tokens that end where a separator is due are an unknown
/// keyword.
pub open spec fn create_run(
    attrs: Map<Seq<char>, AttrNode>,
    items: Map<Seq<char>, Item>,
    actions: Map<Seq<char>, Action>,
    input: Seq<Seq<char>>,
) -> CmdRun {
    if input.len() < 2 {
        CmdRun { result: Err(FlowError::InvalidArgument), rest: input }
    } else {
        match radix_value(input[1], 10, 0xffff) {
            None => CmdRun { result: Err(FlowError::InvalidArgument), rest: input },
            Some(port) => {
                let a = attr_run(attrs, input.skip(2), AttrModel::fresh());
                if a.result is Err {
                    CmdRun { result: Err(a.result->Err_0), rest: a.rest }
                } else if a.rest.len() == 0 {
                    CmdRun { result: Err(FlowError::UnknownKeyword), rest: a.rest }
                } else {
                    let p = pattern_run(items, a.rest.skip(1), ItemsModel::fresh());
                    if p.result is Err {
                        CmdRun { result: Err(p.result->Err_0), rest: p.rest }
                    } else if p.rest.len() == 0 {
                        CmdRun { result: Err(FlowError::UnknownKeyword), rest: p.rest }
                    } else {
                        let c = actions_run(actions, p.rest.skip(1), ActionsModel::fresh());
                        if c.result is Err {
                            CmdRun { result: Err(c.result->Err_0), rest: c.rest }
                        } else {
                            CmdRun {
                                result: Ok(
                                    FlowRuleModel {
                                        port: port as u16,
                                        attr: a.ctx.raw,
                                        pattern: p.ctx.raw,
                                        actions: c.ctx.raw,
                                    },
                                ),
                                rest: c.rest,
                            }
                        }
                    }
                }
            },
        }
    }
}

impl CreateCmd {
    /// The attribute grammar of the command.
    pub closed spec fn attrs(&self) -> Map<Seq<char>, AttrNode> {
        self.attrs.grammar()
    }

    /// The pattern grammar of the command.
    pub closed spec fn items(&self) -> Map<Seq<char>, Item> {
        self.items.grammar()
    }

    /// The action grammar of the command.
    pub closed spec fn actions(&self) -> Map<Seq<char>, Action> {
        self.actions.grammar()
    }

    /// The command with the grammars of the three registries for `layouts`.
    pub fn new(layouts: &FlowLayouts) -> (r: CreateCmd)
        ensures
            is_attr_grammar(r.attrs()),
            is_item_grammar(r.items(), layouts.items),
            is_action_grammar(r.actions(), layouts.actions),
    {
        CreateCmd {
            attrs: FlowAttributes::new(),
            items: FlowItems::new(&layouts.items),
            actions: FlowActions::new(&layouts.actions),
        }
    }

    /// Registers the level `item` in the pattern grammar of the command. A
    /// level that was registered under its keyword is replaced.
    pub fn register_item(&mut self, item: Item)
        ensures
            final(self).items() == old(self).items().insert(item.keyword(), item),
            final(self).attrs() == old(self).attrs(),
            final(self).actions() == old(self).actions(),
    {
        self.items.register(item);
    }

    /// Registers the level `action` in the action grammar of the command.
    /// A level that was registered under its keyword is replaced.
    pub fn register_action(&mut self, action: Action)
        ensures
            final(self).actions() == old(self).actions().insert(action.keyword(), action),
            final(self).attrs() == old(self).attrs(),
            final(self).items() == old(self).items(),
    {
        self.actions.register(action);
    }
}

impl CmdOps for CreateCmd {
    open spec fn keyword(&self) -> Seq<char> {
        "create"@
    }

    open spec fn compile(&self, input: Seq<Seq<char>>) -> CmdRun {
        create_run(self.attrs(), self.items(), self.actions(), input)
    }

    proof fn lemma_compile_consumes(&self, input: Seq<Seq<char>>) {
        if input.len() >= 2 {
            let a = attr_run(self.attrs(), input.skip(2), AttrModel::fresh());
            lemma_attr_run_consumes(self.attrs(), input.skip(2), AttrModel::fresh());
            if a.rest.len() > 0 {
                let p = pattern_run(self.items(), a.rest.skip(1), ItemsModel::fresh());
                lemma_pattern_run_consumes(self.items(), a.rest.skip(1), ItemsModel::fresh());
                if p.rest.len() > 0 {
                    lemma_actions_run_consumes(
                        self.actions(),
                        p.rest.skip(1),
                        ActionsModel::fresh(),
                    );
                }
            }
        }
    }

    fn name(&self) -> (r: &str) {
        "create"
    }

    fn parse(&self, input: &mut Vec<String>) -> (r: Result<FlowRule, FlowError>) {
        if input.len() < 2 {
            return Err(FlowError::InvalidArgument);
        }
        let port = match from_str_radix::<u16>(input[1].as_str(), 10) {
            Some(port) => port,
            None => {
                return Err(FlowError::InvalidArgument);
            },
        };
        drop_tokens(input, 2);

        let mut attr = AttrContext::new();
        self.attrs.parse_into(input, &mut attr)?;
        if input.len() == 0 {
            return Err(FlowError::UnknownKeyword);
        }
        drop_tokens(input, 1);

        let mut items = ItemsParserContext::new();
        self.items.parse_into(input, &mut items)?;
        if input.len() == 0 {
            return Err(FlowError::UnknownKeyword);
        }
        drop_tokens(input, 1);

        let mut actions = ActionsParserContext::new();
        self.actions.parse_into(input, &mut actions)?;

        Ok(
            FlowRule {
                port,
                attr: *attr.raw_attr(),
                pattern: items.into_raw(),
                actions: actions.into_raw(),
            },
        )
    }
}

/// A command of the flow module.
pub enum Command {
    Create(CreateCmd),
}

impl CmdOps for Command {
    open spec fn keyword(&self) -> Seq<char> {
        match self {
            Command::Create(c) => c.keyword(),
        }
    }

    open spec fn compile(&self, input: Seq<Seq<char>>) -> CmdRun {
        match self {
            Command::Create(c) => c.compile(input),
        }
    }

    proof fn lemma_compile_consumes(&self, input: Seq<Seq<char>>) {
        match self {
            Command::Create(c) => c.lemma_compile_consumes(input),
        }
    }

    fn name(&self) -> (r: &str) {
        match self {
            Command::Create(c) => c.name(),
        }
    }

    fn parse(&self, input: &mut Vec<String>) -> (r: Result<FlowRule, FlowError>) {
        match self {
            Command::Create(c) => c.parse(input),
        }
    }
}

/// What the commands `commands` make of the tokens `input` behind the
/// requests `done`: they are read one behind the other until the tokens
/// end, a token is no keyword of theirs, or one of them fails.
pub open spec fn flow_run(
    commands: Map<Seq<char>, Command>,
    input: Seq<Seq<char>>,
    done: Seq<RequestModel>,
) -> ModuleRun
    decreases input.len(),
{
    if input.len() == 0 || !commands.contains_key(input[0]) {
        ModuleRun { result: Ok(done), rest: input }
    } else {
        let run = commands[input[0]].compile(input);
        match run.result {
            Err(e) => ModuleRun { result: Err(e), rest: run.rest },
            Ok(rule) => {
                proof {
                    commands[input[0]].lemma_compile_consumes(input);
                }
                flow_run(commands, run.rest, done.push(RequestModel::CreateFlow(rule)))
            },
        }
    }
}

/// The flow module: the commands behind `flow`.
pub struct FlowCmd {
    pub(crate) commands: NodeMap<Command>,
}

impl FlowCmd {
    /// The commands of the module, each under its keyword.
    pub closed spec fn commands(&self) -> Map<Seq<char>, Command> {
        self.commands@
    }

    /// The module with the command `create` for `layouts`.
    pub fn new(layouts: &FlowLayouts) -> (r: FlowCmd)
        ensures
            r.commands().dom() =~= set!["create"@],
            r.commands()["create"@] matches Command::Create(c) && is_attr_grammar(c.attrs())
                && is_item_grammar(c.items(), layouts.items) && is_action_grammar(
                c.actions(),
                layouts.actions,
            ),
    {
        let mut commands: NodeMap<Command> = NodeMap::new();
        commands.insert("create".to_owned(), Command::Create(CreateCmd::new(layouts)));
        FlowCmd { commands }
    }
}

impl ModuleOps for FlowCmd {
    open spec fn run(&self, input: Seq<Seq<char>>) -> ModuleRun {
        if input.len() == 0 {
            ModuleRun { result: Ok(Seq::empty()), rest: input }
        } else {
            flow_run(self.commands(), input.skip(1), Seq::empty())
        }
    }

    fn parse_cmd(&self, input: &mut Vec<String>) -> (r: Result<Vec<Request>, FlowError>) {
        let mut requests: Vec<Request> = Vec::new();
        assert(requests_view(requests@) =~= Seq::<RequestModel>::empty());
        if input.len() == 0 {
            return Ok(requests);
        }
        drop_tokens(input, 1);
        let ghost goal = flow_run(self.commands(), tokens(input@), requests_view(requests@));
        loop
            invariant
                flow_run(self.commands(), tokens(input@), requests_view(requests@)) == goal,
                goal == self.run(tokens(old(input)@)),
            ensures
                goal == (ModuleRun {
                    result: Ok(requests_view(requests@)),
                    rest: tokens(input@),
                }),
            decreases input.len(),
        {
            if input.len() == 0 {
                break ;
            }
            match self.commands.get(input[0].as_str()) {
                None => {
                    break ;
                },
                Some(op) => {
                    proof {
                        op.lemma_compile_consumes(tokens(input@));
                    }
                    let ghost before = requests_view(requests@);
                    let rule = op.parse(input)?;
                    let ghost model = rule@;
                    requests.push(Request::CreateFlow(rule));
                    assert(requests_view(requests@) =~= before.push(
                        RequestModel::CreateFlow(model),
                    ));
                },
            }
        }
        Ok(requests)
    }
}

/// What the answer of the hardware to a compiled rule means: a rule that
/// it accepted is created, and one that it refused is rejected.
pub fn offload_outcome(accepted: bool) -> (r: Result<(), FlowError>)
    ensures
        r == if accepted {
            Ok::<(), FlowError>(())
        } else {
            Err::<(), FlowError>(FlowError::HardwareRejected)
        },
{
    if accepted {
        Ok(())
    } else {
        Err(FlowError::HardwareRejected)
    }
}

/// What the operator is told of a command: that the flow was created, or
/// that it failed, and no more.
pub fn outcome_text(outcome: &Result<(), FlowError>) -> (r: &'static str)
    ensures
        r@ == if outcome is Ok {
            "Flow created"@
        } else {
            "Flow failed"@
        },
{
    match outcome {
        Ok(()) => "Flow created",
        Err(_) => "Flow failed",
    }
}

} // verus!
