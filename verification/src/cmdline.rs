//! The command line: argument serializers, grammar nodes, the registries
//! that drive them, and the modules that turn a line of tokens into
//! requests to the hardware.

use vstd::prelude::*;
use crate::cmdline::error::FlowError;
use crate::cmdline::flow::{FlowRule, FlowRuleModel};
use crate::cmdline::node_map::tokens;

pub mod arg;
pub mod error;
pub mod flow;
pub mod node_map;
pub mod param;
pub mod port;

verus! {

/// What a request to the hardware holds.
pub enum RequestModel {
    CreateFlow(FlowRuleModel),
    Promiscuous { port: u16, enable: bool },
}

/// What a command asks of the hardware. The caller carries it out.
#[derive(Debug)]
pub enum Request {
    /// Offload the compiled rule.
    CreateFlow(FlowRule),
    /// Switch the promiscuous mode of a port on or off.
    Promiscuous { port: u16, enable: bool },
}

impl View for Request {
    type V = RequestModel;

    open spec fn view(&self) -> RequestModel {
        match self {
            Request::CreateFlow(rule) => RequestModel::CreateFlow(rule@),
            Request::Promiscuous { port, enable } => RequestModel::Promiscuous {
                port: *port,
                enable: *enable,
            },
        }
    }
}

/// What the requests `requests` hold.
pub open spec fn requests_view(requests: Seq<Request>) -> Seq<RequestModel> {
    requests.map_values(|q: Request| q@)
}

/// What a module made of the tokens of a line: the requests or the
/// failure, and the tokens that are left.
pub struct ModuleRun {
    pub result: Result<Seq<RequestModel>, FlowError>,
    pub rest: Seq<Seq<char>>,
}

/// A module of the command line. It can be handed to the thread that reads
/// the commands, and referred to from any thread.
pub trait ModuleOps: Send + Sync {
    /// What the module makes of the tokens `input`, of which the first is
    /// the name of the module.
    spec fn run(&self, input: Seq<Seq<char>>) -> ModuleRun;

    /// Reads a line of tokens, takes from `input` what was read, and says
    /// what the line asks of the hardware.
    fn parse_cmd(&self, input: &mut Vec<String>) -> (r: Result<Vec<Request>, FlowError>)
        ensures
            tokens(final(input)@) == self.run(tokens(old(input)@)).rest,
            match r {
                Ok(requests) => self.run(tokens(old(input)@)).result == Ok::<
                    Seq<RequestModel>,
                    FlowError,
                >(requests_view(requests@)),
                Err(e) => self.run(tokens(old(input)@)).result == Err::<
                    Seq<RequestModel>,
                    FlowError,
                >(e),
            },
    ;
}

} // verus!
