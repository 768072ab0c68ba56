use rdpdk::cmdline::error::FlowError;
use rdpdk::cmdline::flow::actions::{
    flow_action_create_represented_port, Action, ActionDrop, ActionEnd, ActionLayouts, ActionNode,
    ActionOps, ActionSeparator, ActionsParserContext, FlowActions, RepresentedPortLayout,
    ACTION_TYPE_END,
};
use rdpdk::cmdline::param::Param;

const DROP: u32 = 7;

fn layouts() -> ActionLayouts {
    ActionLayouts { drop_type: DROP }
}

fn words(line: &str) -> Vec<String> {
    line.split_ascii_whitespace().map(|x| x.to_string()).collect()
}

#[test]
fn drop_and_end_make_two_entries() {
    let mut actions = FlowActions::new(&layouts());
    let mut input = words("drop / end");
    assert_eq!(actions.parse_actions(&mut input), Ok(()));
    assert!(input.is_empty());
    let raw = actions.get_raw_actions();
    assert_eq!(raw.len(), 2);
    assert_eq!(raw[0].type_, DROP);
    assert!(raw[0].conf.is_none());
    assert_eq!(raw[1].type_, ACTION_TYPE_END);
    assert!(raw[1].conf.is_none());
    assert_eq!(actions.context().actions().len(), 2);
}

#[test]
fn end_alone_is_the_end_marker() {
    let mut actions = FlowActions::new(&layouts());
    let mut input = words("end flow");
    assert_eq!(actions.parse_actions(&mut input), Ok(()));
    assert_eq!(input, words("flow"));
    let raw = actions.get_raw_actions();
    assert_eq!(raw.len(), 1);
    assert_eq!(raw[0].type_, ACTION_TYPE_END);
}

#[test]
fn separator_between_actions_changes_nothing() {
    let mut actions = FlowActions::new(&layouts());
    let mut input = words("/ / drop / / drop end");
    assert_eq!(actions.parse_actions(&mut input), Ok(()));
    let raw = actions.get_raw_actions();
    assert_eq!(raw.iter().map(|a| a.type_).collect::<Vec<u32>>(), vec![DROP, DROP, ACTION_TYPE_END]);
}

#[test]
fn unknown_action_ends_the_run() {
    let mut actions = FlowActions::new(&layouts());
    let mut input = words("queue index 1 / end");
    assert_eq!(actions.parse_actions(&mut input), Ok(()));
    assert_eq!(input, words("queue index 1 / end"));
    assert!(actions.get_raw_actions().is_empty());
}

#[test]
fn represented_port_fills_its_buffer() {
    let mut actions = FlowActions::new(&layouts());
    assert!(actions.lookup("represented_port").is_none());
    let layout = RepresentedPortLayout { action_type: 55, action_size: 2, port_id_offset: 0 };
    flow_action_create_represented_port(&mut actions, &layout);
    assert_eq!(actions.lookup("represented_port").unwrap().name(), "represented_port");
    let mut input = words("represented_port ethdev_port_id 0x0102 / end");
    assert_eq!(actions.parse_actions(&mut input), Ok(()));
    assert!(input.is_empty());
    assert_eq!(actions.context().id(), 55);
    let conf = actions.context().data().expect("the configuration of the action");
    assert_eq!(conf.bytes(), &0x0102u16.to_ne_bytes());
    let raw = actions.get_raw_actions();
    assert_eq!(raw.len(), 1);
    assert_eq!(raw[0].type_, ACTION_TYPE_END);
}

#[test]
fn action_field_errors() {
    let layout = RepresentedPortLayout { action_type: 55, action_size: 2, port_id_offset: 63 };
    let mut actions = FlowActions::new(&layouts());
    flow_action_create_represented_port(&mut actions, &layout);
    let mut input = words("represented_port ethdev_port_id 1 / end");
    assert_eq!(actions.parse_actions(&mut input), Err(FlowError::OutOfBounds));
    assert_eq!(input, words("ethdev_port_id 1 / end"));
    let mut input = words("represented_port ethdev_port_id 65536 / end");
    assert_eq!(actions.parse_actions(&mut input), Err(FlowError::InvalidArgument));
    let mut input = words("represented_port ethdev_port_id");
    assert_eq!(actions.parse_actions(&mut input), Err(FlowError::InvalidArgument));
    let big = Param::from("big", Some(56), Some(65), None);
    actions.register(Action::from(ActionNode::Param(big), None));
    let mut input = words("big / end");
    assert_eq!(actions.parse_actions(&mut input), Err(FlowError::OutOfBounds));
}

#[test]
fn action_nodes_read_through_their_trait() {
    let mut context = ActionsParserContext::new();
    let mut input = words("drop / end rest");
    let drop = ActionDrop::new(DROP);
    assert_eq!(drop.name(), "drop");
    assert_eq!(drop.parse_action(&mut input, &mut context), Ok(()));
    let separator = ActionSeparator::new();
    assert_eq!(separator.name(), "/");
    assert_eq!(separator.parse_action(&mut input, &mut context), Ok(()));
    assert!(context.raw_actions().is_empty());
    let end = ActionEnd::new();
    assert_eq!(end.name(), "end");
    assert_eq!(end.parse_action(&mut input, &mut context), Ok(()));
    assert_eq!(input, words("rest"));
    assert_eq!(context.raw_actions().len(), 2);
    context.build_raw_actions();
    assert_eq!(context.raw_actions().len(), 4);
    let mut none: Vec<String> = Vec::new();
    assert_eq!(drop.parse_action(&mut none, &mut context), Err(FlowError::InvalidArgument));
    assert_eq!(context.into_raw().len(), 4);
}
