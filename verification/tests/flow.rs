use rdpdk::cmdline::error::FlowError;
use rdpdk::cmdline::flow::actions::{
    flow_action_create_represented_port, ActionLayouts, FlowActions, RepresentedPortLayout,
    ACTION_TYPE_END,
};
use rdpdk::cmdline::flow::attr::{FlowAttributes, RawAttr};
use rdpdk::cmdline::flow::items::l2net::EthLayout;
use rdpdk::cmdline::flow::items::l3net::Ipv4Layout;
use rdpdk::cmdline::flow::items::{FlowItems, Item, ItemLayouts, ItemNode, ITEM_TYPE_END};
use rdpdk::cmdline::flow::{
    offload_outcome, outcome_text, CmdOps, Command, CreateCmd, FlowCmd, FlowLayouts,
};
use rdpdk::cmdline::param::Param;
use rdpdk::cmdline::port::{PortArg, PortModule};
use rdpdk::cmdline::{ModuleOps, Request};

fn layouts() -> FlowLayouts {
    FlowLayouts {
        items: ItemLayouts {
            eth: EthLayout {
                item_type: 9,
                item_size: 14,
                src_offset: 6,
                dst_offset: 0,
                type_offset: 12,
            },
            ipv4: Ipv4Layout {
                item_type: 11,
                item_size: 20,
                src_offset: 12,
                dst_offset: 16,
                next_proto_offset: 9,
            },
        },
        actions: ActionLayouts { drop_type: 7 },
    }
}

fn words(line: &str) -> Vec<String> {
    line.split_ascii_whitespace().map(|x| x.to_string()).collect()
}

fn rules(line: &str) -> (Result<Vec<Request>, FlowError>, Vec<String>) {
    let flow = FlowCmd::new(&layouts());
    let mut input = words(line);
    let result = flow.parse_cmd(&mut input);
    (result, input)
}

#[test]
fn create_command_compiles_three_artifacts() {
    let (result, rest) = rules(
        "flow create 3 ingress group 0 pattern eth / ipv4 dst is 10.0.0.1 / end actions drop / end",
    );
    assert!(rest.is_empty());
    let requests = result.unwrap();
    assert_eq!(requests.len(), 1);
    let rule = match &requests[0] {
        Request::CreateFlow(rule) => rule,
        other => panic!("{:?}", other),
    };
    assert_eq!(rule.port, 3);
    assert_eq!(
        rule.attr,
        RawAttr { group: 0, priority: 0, ingress: true, egress: false, transfer: false }
    );
    assert_eq!(rule.pattern.len(), 3);
    assert_eq!(rule.pattern[0].type_, 9);
    assert!(rule.pattern[0].spec.is_none());
    assert_eq!(rule.pattern[1].type_, 11);
    assert_eq!(&rule.pattern[1].spec.unwrap().data()[16..20], &[10, 0, 0, 1]);
    assert_eq!(&rule.pattern[1].mask.unwrap().data()[16..20], &[255, 255, 255, 255]);
    assert_eq!(rule.pattern[2].type_, ITEM_TYPE_END);
    assert_eq!(rule.actions.len(), 2);
    assert_eq!(rule.actions[0].type_, 7);
    assert_eq!(rule.actions[1].type_, ACTION_TYPE_END);
}

#[test]
fn unknown_action_leaves_its_tokens() {
    let (result, rest) = rules(
        "flow create 0 ingress group 0 pattern eth / ipv4 dst is 10.0.0.1 / end \
         actions queue index 1 / end",
    );
    assert_eq!(rest, words("queue index 1 / end"));
    let requests = result.unwrap();
    assert_eq!(requests.len(), 1);
    match &requests[0] {
        Request::CreateFlow(rule) => {
            assert_eq!(rule.pattern.len(), 3);
            assert!(rule.actions.is_empty());
        }
        other => panic!("{:?}", other),
    }
}

#[test]
fn every_command_starts_on_a_fresh_state() {
    let (result, rest) = rules(
        "flow create 1 egress pattern eth / end actions drop / end \
         create 2 pattern end actions end",
    );
    assert!(rest.is_empty());
    let requests = result.unwrap();
    assert_eq!(requests.len(), 2);
    match (&requests[0], &requests[1]) {
        (Request::CreateFlow(first), Request::CreateFlow(second)) => {
            assert_eq!(first.port, 1);
            assert!(first.attr.egress);
            assert_eq!(first.pattern.len(), 2);
            assert_eq!(first.actions.len(), 2);
            assert_eq!(second.port, 2);
            assert_eq!(
                second.attr,
                RawAttr { group: 0, priority: 0, ingress: false, egress: false, transfer: false }
            );
            assert_eq!(second.pattern.len(), 1);
            assert_eq!(second.pattern[0].type_, ITEM_TYPE_END);
            assert_eq!(second.actions.len(), 1);
        }
        other => panic!("{:?}", other),
    }
}

#[test]
fn separators_are_taken_as_they_come() {
    let (result, rest) = rules("flow create 0 match end do drop / end");
    assert!(rest.is_empty());
    let requests = result.unwrap();
    match &requests[0] {
        Request::CreateFlow(rule) => {
            assert_eq!(rule.pattern.len(), 1);
            assert_eq!(rule.actions.len(), 2);
        }
        other => panic!("{:?}", other),
    }
}

#[test]
fn flow_without_a_known_command_asks_nothing() {
    let (result, rest) = rules("flow");
    assert_eq!(result.unwrap().len(), 0);
    assert!(rest.is_empty());
    let (result, rest) = rules("flow destroy 0 rule 1");
    assert_eq!(result.unwrap().len(), 0);
    assert_eq!(rest, words("destroy 0 rule 1"));
    let (result, rest) = rules("");
    assert_eq!(result.unwrap().len(), 0);
    assert!(rest.is_empty());
}

#[test]
fn create_command_errors() {
    for (line, error) in [
        ("flow create", FlowError::InvalidArgument),
        ("flow create port0 pattern end actions end", FlowError::InvalidArgument),
        ("flow create 65536 pattern end actions end", FlowError::InvalidArgument),
        ("flow create 0x10 pattern end actions end", FlowError::InvalidArgument),
        ("flow create 0", FlowError::UnknownKeyword),
        ("flow create 0 ingress", FlowError::UnknownKeyword),
        ("flow create 0 pattern eth / end", FlowError::UnknownKeyword),
        ("flow create 0 group pattern end actions end", FlowError::InvalidArgument),
        ("flow create 0 pattern ipv4 src is 1.2.3 / end actions end", FlowError::InvalidArgument),
        ("flow create 0 pattern ipv4 src was 1.2.3.4 / end actions end", FlowError::UnknownKeyword),
    ] {
        let (result, _) = rules(line);
        assert_eq!(result.err(), Some(error), "{}", line);
    }
}

#[test]
fn create_command_reads_through_its_trait() {
    let create = CreateCmd::new(&layouts());
    assert_eq!(create.name(), "create");
    let mut input = words("create 9 transfer pattern end actions end create");
    let rule = create.parse(&mut input).unwrap();
    assert_eq!(input, words("create"));
    assert_eq!(rule.port, 9);
    assert!(rule.attr.transfer);
    assert_eq!(create.parse(&mut input).err(), Some(FlowError::InvalidArgument));
    assert_eq!(input, words("create"));
    let command = Command::Create(create);
    assert_eq!(command.name(), "create");
}

#[test]
fn hardware_answer_is_created_or_rejected() {
    assert_eq!(offload_outcome(true), Ok(()));
    assert_eq!(offload_outcome(false), Err(FlowError::HardwareRejected));
    assert_eq!(outcome_text(&offload_outcome(true)), "Flow created");
    assert_eq!(outcome_text(&offload_outcome(false)), "Flow failed");
    assert_eq!(outcome_text(&Err(FlowError::InvalidArgument)), "Flow failed");
}

fn transferable<T: Send + Sync>() {}

#[test]
fn registries_can_go_to_any_thread() {
    transferable::<FlowCmd>();
    transferable::<CreateCmd>();
    transferable::<FlowAttributes>();
    transferable::<FlowItems>();
    transferable::<FlowActions>();
    transferable::<PortModule>();
    transferable::<PortArg>();
    transferable::<Box<dyn ModuleOps>>();
}

#[test]
fn port_module_switches_promiscuous_mode() {
    let port = PortModule::new();
    let mut input = words("port set 3 promisc on promisc off promisc 1 promisc 0");
    let requests = port.parse_cmd(&mut input).unwrap();
    assert!(input.is_empty());
    let asked: Vec<(u16, bool)> = requests
        .iter()
        .map(|q| match q {
            Request::Promiscuous { port, enable } => (*port, *enable),
            other => panic!("{:?}", other),
        })
        .collect();
    assert_eq!(asked, vec![(3, true), (3, false), (3, true), (3, false)]);
}

#[test]
fn port_module_asks_nothing_for_all_ports_or_show() {
    let port = PortModule::new();
    for line in ["port set all promisc on", "port show 3 promisc on", "port show all promisc off"] {
        let mut input = words(line);
        assert_eq!(port.parse_cmd(&mut input).unwrap().len(), 0, "{}", line);
        assert!(input.is_empty());
    }
    let mut input = words("port reset 3");
    assert_eq!(port.parse_cmd(&mut input).unwrap().len(), 0);
    assert_eq!(input, words("reset 3"));
    let mut input = words("port set 3 mtu 1500");
    assert_eq!(port.parse_cmd(&mut input).unwrap().len(), 0);
    assert_eq!(input, words("mtu 1500"));
    let mut input: Vec<String> = Vec::new();
    assert_eq!(port.parse_cmd(&mut input).unwrap().len(), 0);
}

#[test]
fn port_module_errors() {
    let port = PortModule::new();
    for line in [
        "port",
        "port set",
        "port set three promisc on",
        "port set 65536 promisc on",
        "port set 3 promisc",
        "port set 3 promisc maybe",
        "port set 3 promisc ON",
    ] {
        let mut input = words(line);
        assert_eq!(port.parse_cmd(&mut input).err(), Some(FlowError::InvalidArgument), "{}", line);
    }
}

#[test]
fn create_command_takes_more_levels() {
    let mut create = CreateCmd::new(&layouts());
    let udp = Param::from("udp", Some(14), Some(8), None);
    create.register_item(Item::from(ItemNode::Param(udp), None));
    let mut actions = FlowActions::new(&layouts().actions);
    let layout = RepresentedPortLayout { action_type: 55, action_size: 2, port_id_offset: 0 };
    flow_action_create_represented_port(&mut actions, &layout);
    let mut input = words("create 4 pattern eth / udp / end actions drop / end");
    let rule = create.parse(&mut input).unwrap();
    assert_eq!(rule.pattern.iter().map(|e| e.type_).collect::<Vec<u32>>(), vec![9, 14, 0]);
}

#[test]
fn errors_say_what_went_wrong() {
    assert_eq!(FlowError::InvalidArgument.message(), "invalid argument");
    assert_eq!(FlowError::OutOfBounds.message(), "out of bounds");
    assert_eq!(FlowError::UnknownKeyword.message(), "unknown keyword");
    assert_eq!(FlowError::HardwareRejected.message(), "rejected by the hardware");
}

#[test]
fn rule_is_terminated_when_both_runs_reached_their_end() {
    let (result, _) = rules("flow create 0 pattern eth / end actions drop / end");
    match &result.unwrap()[0] {
        Request::CreateFlow(rule) => assert!(rule.terminated()),
        other => panic!("{:?}", other),
    }
    for line in [
        "flow create 0 pattern eth / end actions queue index 1 / end",
        "flow create 0 pattern vlan / end actions drop / end",
        "flow create 0 pattern eth / actions drop / end",
        "flow create 0 pattern eth / end actions drop /",
    ] {
        let (result, _) = rules(line);
        match result.unwrap().first() {
            Some(Request::CreateFlow(rule)) => assert!(!rule.terminated(), "{}", line),
            other => panic!("{:?}", other),
        }
    }
}
