//! The port command: `port`, then `set` or `show`, then `all` or the number
//! of a port, then commands such as `promisc on`.

use vstd::prelude::*;
use crate::cmdline::arg::arg_int::{
    decimal_text, from_str_radix, int_field, lemma_digits_text, lemma_literal_roundtrip,
    ordered_bytes, radix_value, ArgInt, ByteOrder,
};
use crate::cmdline::arg::{Arg, ArgData, ArgModel};
use crate::cmdline::error::FlowError;
use crate::cmdline::flow::items::ones;
use crate::cmdline::node_map::{drop_tokens, str_eq, tokens, NodeMap};
use crate::cmdline::{requests_view, ModuleOps, ModuleRun, Request, RequestModel};

verus! {

/// The serializer of a port field: a 16-bit number, or `all` for every
/// port.
pub struct PortArg {
    number: ArgInt<u16>,
}

impl PortArg {
    /// Whether the port number is laid out most significant byte first.
    pub closed spec fn big_endian(&self) -> bool {
        self.number.big_endian()
    }

    /// A port field in host order.
    pub fn new() -> (r: PortArg)
        ensures
            r.wf(),
            r.order() == ByteOrder::HostOrder,
    {
        PortArg { number: ArgInt::new() }
    }

    /// The serializer of the port number is well formed.
    pub closed spec fn wf(&self) -> bool {
        self.number.wf()
    }

    /// The byte order that the port number was declared with.
    pub closed spec fn order(&self) -> ByteOrder {
        self.number.order()
    }

    /// A port field serializes the decimal literal of a port number to the
    /// two bytes of that number in the field's byte order, and `all` to
    /// two bytes of ones.
    pub proof fn lemma_serialize_roundtrip(&self, port: u16)
        ensures
            self.encode(decimal_text(port as nat)) == Ok::<ArgModel, FlowError>(
                ArgModel::from_bytes(ordered_bytes(port as nat, 2, self.big_endian())),
            ),
            self.encode("all"@) == Ok::<ArgModel, FlowError>(ArgModel::from_bytes(ones(2))),
    {
        reveal_strlit("all");
        lemma_digits_text(port as nat, 10);
        lemma_literal_roundtrip(port as nat, 0xffff);
        assert(decimal_text(port as nat)[0] != "all"@[0]);
    }
}

impl Arg for PortArg {
    /// `all` is the wildcard: as many bytes of ones as the field is wide.
    open spec fn encode(&self, sample: Seq<char>) -> Result<ArgModel, FlowError> {
        if sample == "all"@ {
            Ok(ArgModel::from_bytes(ones(2)))
        } else {
            int_field(sample, 2, 0xffff, self.big_endian())
        }
    }

    fn serialize(&self, sample: &str) -> (r: Result<ArgData, FlowError>) {
        if str_eq(sample, "all") {
            let full = ArgData::default_mask();
            let wild = vstd::slice::slice_subrange(full.as_slice(), 0, 2);
            assert(wild@ =~= ones(2));
            Ok(ArgData::new_from_slice(wild))
        } else {
            self.number.serialize(sample)
        }
    }
}

/// The ports that a port command is for.
#[derive(Clone, Copy, Debug, PartialEq, Eq, Structural)]
pub enum PortType {
    Unknown,
    AllPorts,
    SinglePort(u16),
}

/// What a port command does.
#[derive(Clone, Copy, Debug, PartialEq, Eq, Structural)]
pub enum PortCmdType {
    Unknown,
    Configure,
    Show,
}

/// What the head of a port command said: what to do, and for which ports.
#[derive(Clone, Copy, Debug, PartialEq, Eq, Structural)]
pub struct PortParserContext {
    pub port_type: PortType,
    pub cmd_type: PortCmdType,
}

impl PortParserContext {
    /// The state before the first token.
    pub fn new() -> (r: Self)
        ensures
            r == (PortParserContext { port_type: PortType::Unknown, cmd_type: PortCmdType::Unknown }),
    {
        PortParserContext { port_type: PortType::Unknown, cmd_type: PortCmdType::Unknown }
    }
}

/// What `on`, `1`, `off` and `0` say of a switch.
pub open spec fn switch_value(token: Seq<char>) -> Option<bool> {
    if token == "on"@ || token == "1"@ {
        Some(true)
    } else if token == "off"@ || token == "0"@ {
        Some(false)
    } else {
        None
    }
}

/// What one port command made of the tokens: what it asks of the hardware,
/// if anything, or the failure; and the tokens that are left.
pub struct PortStep {
    pub result: Result<Option<RequestModel>, FlowError>,
    pub rest: Seq<Seq<char>>,
}

/// A command behind the head of a port command.
pub trait PortOps: Send + Sync {
    /// The keyword of the command.
    spec fn keyword(&self) -> Seq<char>;

    /// What the command makes of the tokens `input`, of which the first is
    /// its keyword, behind the head `ctx`.
    spec fn step(&self, input: Seq<Seq<char>>, ctx: PortParserContext) -> PortStep;

    /// A command that reads well takes its keyword at least.
    proof fn lemma_step_consumes(&self, input: Seq<Seq<char>>, ctx: PortParserContext)
        ensures
            self.step(input, ctx).result is Ok ==> self.step(input, ctx).rest.len() < input.len(),
    ;

    /// The keyword of the command.
    fn name(&self) -> (r: &str)
        ensures
            r@ == self.keyword(),
    ;

    /// Reads the command at the front of `input`, and takes from `input`
    /// what was read.
    fn parse_port_cmd(&self, input: &mut Vec<String>, context: &mut PortParserContext) -> (r:
        Result<Option<Request>, FlowError>)
        ensures
            *final(context) == *old(context),
            tokens(final(input)@) == self.step(tokens(old(input)@), *old(context)).rest,
            match r {
                Ok(Some(request)) => self.step(tokens(old(input)@), *old(context)).result == Ok::<
                    Option<RequestModel>,
                    FlowError,
                >(Some(request@)),
                Ok(None) => self.step(tokens(old(input)@), *old(context)).result == Ok::<
                    Option<RequestModel>,
                    FlowError,
                >(None),
                Err(e) => self.step(tokens(old(input)@), *old(context)).result == Err::<
                    Option<RequestModel>,
                    FlowError,
                >(e),
            },
    ;
}

/// The command `promisc`: it switches the promiscuous mode. Only `set` for
/// one port asks anything of the hardware.
pub struct PortCmdPromisc;

impl PortCmdPromisc {
    /// The command `promisc`.
    pub fn new() -> (r: PortCmdPromisc)
        ensures
            r == PortCmdPromisc,
    {
        PortCmdPromisc {  }
    }
}

impl PortOps for PortCmdPromisc {
    open spec fn keyword(&self) -> Seq<char> {
        "promisc"@
    }

    open spec fn step(&self, input: Seq<Seq<char>>, ctx: PortParserContext) -> PortStep {
        if input.len() < 2 {
            PortStep { result: Err(FlowError::InvalidArgument), rest: input }
        } else {
            match switch_value(input[1]) {
                None => PortStep { result: Err(FlowError::InvalidArgument), rest: input },
                Some(enable) => PortStep {
                    result: Ok(
                        match (ctx.cmd_type, ctx.port_type) {
                            (PortCmdType::Configure, PortType::SinglePort(port)) => Some(
                                RequestModel::Promiscuous { port, enable },
                            ),
                            _ => None,
                        },
                    ),
                    rest: input.skip(2),
                },
            }
        }
    }

    proof fn lemma_step_consumes(&self, input: Seq<Seq<char>>, ctx: PortParserContext) {
    }

    fn name(&self) -> (r: &str) {
        "promisc"
    }

    fn parse_port_cmd(&self, input: &mut Vec<String>, context: &mut PortParserContext) -> (r:
        Result<Option<Request>, FlowError>) {
        if input.len() < 2 {
            return Err(FlowError::InvalidArgument);
        }
        let word = input[1].as_str();
        let activate = if str_eq(word, "on") || str_eq(word, "1") {
            true
        } else if str_eq(word, "off") || str_eq(word, "0") {
            false
        } else {
            return Err(FlowError::InvalidArgument);
        };
        drop_tokens(input, 2);
        match (context.cmd_type, context.port_type) {
            (PortCmdType::Configure, PortType::SinglePort(port)) => Ok(
                Some(Request::Promiscuous { port, enable: activate }),
            ),
            _ => Ok(None),
        }
    }
}

/// A command behind the head of a port command.
pub enum PortCommand {
    Promisc(PortCmdPromisc),
}

impl PortOps for PortCommand {
    open spec fn keyword(&self) -> Seq<char> {
        match self {
            PortCommand::Promisc(c) => c.keyword(),
        }
    }

    open spec fn step(&self, input: Seq<Seq<char>>, ctx: PortParserContext) -> PortStep {
        match self {
            PortCommand::Promisc(c) => c.step(input, ctx),
        }
    }

    proof fn lemma_step_consumes(&self, input: Seq<Seq<char>>, ctx: PortParserContext) {
        match self {
            PortCommand::Promisc(c) => c.lemma_step_consumes(input, ctx),
        }
    }

    fn name(&self) -> (r: &str) {
        match self {
            PortCommand::Promisc(c) => c.name(),
        }
    }

    fn parse_port_cmd(&self, input: &mut Vec<String>, context: &mut PortParserContext) -> (r:
        Result<Option<Request>, FlowError>) {
        match self {
            PortCommand::Promisc(c) => c.parse_port_cmd(input, context),
        }
    }
}

/// `done` with the request of a command behind it, if the command has one.
pub open spec fn with_request(done: Seq<RequestModel>, request: Option<RequestModel>) -> Seq<
    RequestModel,
> {
    match request {
        Some(q) => done.push(q),
        None => done,
    }
}

/// What the commands `commands` make of the tokens `input` behind the head
/// `ctx` and the requests `done`: they are read one behind the other until
/// the tokens end, a token is no keyword of theirs, or one of them fails.
pub open spec fn port_run(
    commands: Map<Seq<char>, PortCommand>,
    input: Seq<Seq<char>>,
    ctx: PortParserContext,
    done: Seq<RequestModel>,
) -> ModuleRun
    decreases input.len(),
{
    if input.len() == 0 || !commands.contains_key(input[0]) {
        ModuleRun { result: Ok(done), rest: input }
    } else {
        let step = commands[input[0]].step(input, ctx);
        match step.result {
            Err(e) => ModuleRun { result: Err(e), rest: step.rest },
            Ok(request) => {
                proof {
                    commands[input[0]].lemma_step_consumes(input, ctx);
                }
                port_run(commands, step.rest, ctx, with_request(done, request))
            },
        }
    }
}

/// What the head of a port command says: `set` or `show`, then `all` or
/// the decimal number of a port. Another first word says nothing, and a
/// second word that is neither is an invalid argument, as is a head that
/// ends early.
pub open spec fn port_head(input: Seq<Seq<char>>) -> Result<Option<PortParserContext>, FlowError> {
    if input.len() < 1 {
        Err(FlowError::InvalidArgument)
    } else if !(input[0] == "set"@ || input[0] == "show"@) {
        Ok(None)
    } else if input.len() < 2 {
        Err(FlowError::InvalidArgument)
    } else {
        let cmd_type = if input[0] == "set"@ {
            PortCmdType::Configure
        } else {
            PortCmdType::Show
        };
        if input[1] == "all"@ {
            Ok(Some(PortParserContext { port_type: PortType::AllPorts, cmd_type }))
        } else {
            match radix_value(input[1], 10, 0xffff) {
                Some(port) => Ok(
                    Some(
                        PortParserContext { port_type: PortType::SinglePort(port as u16), cmd_type },
                    ),
                ),
                None => Err(FlowError::InvalidArgument),
            }
        }
    }
}

/// The port module: the commands behind `port`.
pub struct PortModule {
    pub(crate) commands: NodeMap<PortCommand>,
}

impl PortModule {
    /// The commands of the module, each under its keyword.
    pub closed spec fn commands(&self) -> Map<Seq<char>, PortCommand> {
        self.commands@
    }

    /// The module with the command `promisc`.
    pub fn new() -> (r: Self)
        ensures
            r.commands() == Map::<Seq<char>, PortCommand>::empty().insert(
                "promisc"@,
                PortCommand::Promisc(PortCmdPromisc),
            ),
    {
        let mut commands: NodeMap<PortCommand> = NodeMap::new();
        let promisc_cmd = PortCommand::Promisc(PortCmdPromisc::new());
        let name = promisc_cmd.name().to_owned();
        commands.insert(name, promisc_cmd);
        PortModule { commands }
    }

    /// Reads the head of a port command at the front of `input`, and takes
    /// it from `input` if it says something.
    fn parse_head(input: &mut Vec<String>) -> (r: Result<Option<PortParserContext>, FlowError>)
        ensures
            r == port_head(tokens(old(input)@)),
            final(input)@ == if r matches Ok(Some(_)) {
                old(input)@.skip(2)
            } else {
                old(input)@
            },
    {
        let mut context = PortParserContext::new();
        if input.len() < 1 {
            return Err(FlowError::InvalidArgument);
        }
        if str_eq(input[0].as_str(), "set") {
            context.cmd_type = PortCmdType::Configure;
        } else if str_eq(input[0].as_str(), "show") {
            context.cmd_type = PortCmdType::Show;
        } else {
            return Ok(None);
        }
        if input.len() < 2 {
            return Err(FlowError::InvalidArgument);
        }
        if str_eq(input[1].as_str(), "all") {
            context.port_type = PortType::AllPorts;
        } else {
            match from_str_radix::<u16>(input[1].as_str(), 10) {
                Some(port) => {
                    context.port_type = PortType::SinglePort(port);
                },
                None => {
                    return Err(FlowError::InvalidArgument);
                },
            }
        }
        drop_tokens(input, 2);
        Ok(Some(context))
    }
}

impl ModuleOps for PortModule {
    open spec fn run(&self, input: Seq<Seq<char>>) -> ModuleRun {
        if input.len() == 0 {
            ModuleRun { result: Ok(Seq::empty()), rest: input }
        } else {
            match port_head(input.skip(1)) {
                Err(e) => ModuleRun { result: Err(e), rest: input.skip(1) },
                Ok(None) => ModuleRun { result: Ok(Seq::empty()), rest: input.skip(1) },
                Ok(Some(ctx)) => port_run(self.commands(), input.skip(3), ctx, Seq::empty()),
            }
        }
    }

    fn parse_cmd(&self, input: &mut Vec<String>) -> (r: Result<Vec<Request>, FlowError>) {
        let mut requests: Vec<Request> = Vec::new();
        assert(requests_view(requests@) =~= Seq::<RequestModel>::empty());
        if input.len() == 0 {
            return Ok(requests);
        }
        drop_tokens(input, 1);
        let mut context = match Self::parse_head(input)? {
            Some(context) => context,
            None => {
                return Ok(requests);
            },
        };
        proof {
            assert(tokens(old(input)@).skip(1).skip(2) =~= tokens(old(input)@).skip(3));
            assert(tokens(input@) =~= tokens(old(input)@).skip(3));
        }
        let ghost goal = port_run(
            self.commands(),
            tokens(input@),
            context,
            requests_view(requests@),
        );
        let ghost head = context;
        loop
            invariant
                context == head,
                port_run(self.commands(), tokens(input@), context, requests_view(requests@))
                    == goal,
                goal == self.run(tokens(old(input)@)),
            ensures
                goal == (ModuleRun {
                    result: Ok(requests_view(requests@)),
                    rest: tokens(input@),
                }),
            decreases input.len(),
        {
            if input.len() == 0 {
                break ;
            }
            match self.commands.get(input[0].as_str()) {
                None => {
                    break ;
                },
                Some(op) => {
                    proof {
                        op.lemma_step_consumes(tokens(input@), context);
                    }
                    let ghost before = requests_view(requests@);
                    match op.parse_port_cmd(input, &mut context)? {
                        Some(request) => {
                            let ghost model = request@;
                            requests.push(request);
                            assert(requests_view(requests@) =~= before.push(model));
                        },
                        None => {},
                    }
                },
            }
        }
        Ok(requests)
    }
}

} // verus!
