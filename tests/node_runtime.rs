use proc_flow::catalogue::Catalogue;
use proc_flow::graph::{GraphRef, PinInfo, PinRef};
use proc_flow::node::{
    Effect, LogLevel, Named, NodeCommand, NodeInstanceInfo, NodeMessage, NodeReport,
    NodeResponse, OtherMessage,
};
use proc_flow::nodes::canvas::{CANVAS_EDIT_RECEIVER, CanvasMessage, NodeMetaCanvasV1};
use proc_flow::nodes::graph::NodeMetaGraphV1;
use proc_flow::nodes::log::{
    LOG_ERROR_INPUT, LOG_ERROR_OUTPUT, LOG_INFO_INPUT, LOG_INFO_OUTPUT, LOG_WARN_INPUT,
    LOG_WARN_OUTPUT, NodeUtilLogV1,
};
use proc_flow::nodes::BuiltinNode;
use proc_flow::node::Node;
use proc_flow::pin::{Pin, PinLink, PROGRESS_SCALE};
use proc_flow::value::Value;
use proc_flow::engine::ControllerCommand;

const CONTROLLER: u128 = 1;
const OWN: u128 = 2;
const PEER: u128 = 3;
const INSTANCE: u128 = 10;

fn catalogue() -> Catalogue {
    let mut c = Catalogue::new();
    c.load_default_libraries(Vec::new());
    c
}

fn log_node(c: &Catalogue) -> Node<BuiltinNode> {
    NodeUtilLogV1::new(CONTROLLER, c, INSTANCE)
}

fn text(s: &str) -> Value {
    Value::Text(s.to_owned())
}

fn cmd(c: NodeCommand) -> NodeMessage {
    NodeMessage::Command(c)
}

fn output_value(effects: &[Effect]) -> Option<Option<Value>> {
    match effects.last() {
        Some(Effect::Respond(_, NodeResponse::OutputPinValue(_, _, v))) => Some(v.clone()),
        _ => None,
    }
}

#[test]
fn log_node_round_trip() {
    let c = catalogue();
    let mut node = log_node(&c);
    let effects = node.handle(
        &c,
        OWN,
        cmd(NodeCommand::InputValue(
            CONTROLLER,
            LOG_INFO_INPUT,
            "string".to_owned(),
            Some(text("testing log actor")),
        )),
    );
    assert_eq!(effects.len(), 1);
    assert!(matches!(effects[0], Effect::Respond(CONTROLLER, NodeResponse::InputPinSet)));
    let effects =
        node.handle(&c, OWN, cmd(NodeCommand::ComputeOutput(CONTROLLER, LOG_INFO_OUTPUT, None)));
    assert_eq!(effects.len(), 2);
    match &effects[0] {
        Effect::Log(level, line) => {
            assert_eq!(*level, LogLevel::Info);
            assert_eq!(line, "testing log actor");
        }
        _ => panic!("expected a log line"),
    }
    match &effects[1] {
        Effect::Respond(to, NodeResponse::OutputPinValue(from, pin, value)) => {
            assert_eq!(*to, CONTROLLER);
            assert_eq!(*from, OWN);
            assert_eq!(*pin, LOG_INFO_OUTPUT);
            assert_eq!(*value, Some(text("testing log actor")));
        }
        _ => panic!("expected the output value"),
    }
}

#[test]
fn log_levels_follow_outputs() {
    let c = catalogue();
    let mut node = log_node(&c);
    node.handle(&c, OWN, cmd(NodeCommand::InputValue(PEER, LOG_WARN_INPUT, "string".to_owned(), Some(text("w")))));
    node.handle(&c, OWN, cmd(NodeCommand::InputValue(PEER, LOG_ERROR_INPUT, "string".to_owned(), Some(text("e")))));
    let w = node.handle(&c, OWN, cmd(NodeCommand::ComputeOutput(PEER, LOG_WARN_OUTPUT, None)));
    assert!(matches!(&w[0], Effect::Log(LogLevel::Warn, s) if s == "w"));
    let e = node.handle(&c, OWN, cmd(NodeCommand::ComputeOutput(PEER, LOG_ERROR_OUTPUT, None)));
    assert!(matches!(&e[0], Effect::Log(LogLevel::Error, s) if s == "e"));
    assert_eq!(output_value(&e), Some(Some(text("e"))));
}

#[test]
fn input_set_by_a_peer_is_not_acknowledged() {
    let c = catalogue();
    let mut node = log_node(&c);
    let effects = node.handle(
        &c,
        OWN,
        cmd(NodeCommand::InputValue(PEER, LOG_INFO_INPUT, "string".to_owned(), Some(text("x")))),
    );
    assert!(effects.is_empty());
    let effects = node.handle(&c, OWN, cmd(NodeCommand::ComputeOutput(PEER, LOG_INFO_OUTPUT, None)));
    assert_eq!(output_value(&effects), Some(Some(text("x"))));
}

#[test]
fn cached_output_is_returned_again() {
    let c = catalogue();
    let mut node = log_node(&c);
    node.handle(&c, OWN, cmd(NodeCommand::InputValue(CONTROLLER, LOG_INFO_INPUT, "string".to_owned(), Some(text("first")))));
    let first = node.handle(&c, OWN, cmd(NodeCommand::ComputeOutput(CONTROLLER, LOG_INFO_OUTPUT, None)));
    assert_eq!(output_value(&first), Some(Some(text("first"))));
    // A new input value does not reach an output that holds a cached value.
    node.handle(&c, OWN, cmd(NodeCommand::InputValue(CONTROLLER, LOG_INFO_INPUT, "string".to_owned(), Some(text("second")))));
    let second = node.handle(&c, OWN, cmd(NodeCommand::ComputeOutput(CONTROLLER, LOG_INFO_OUTPUT, None)));
    assert_eq!(second.len(), 1);
    assert_eq!(output_value(&second), Some(Some(text("first"))));
}

#[test]
fn cache_avoids_second_compute() {
    // The Log node writes a line each time it computes an output.
    let c = catalogue();
    let mut node = log_node(&c);
    node.handle(&c, OWN, cmd(NodeCommand::InputValue(CONTROLLER, LOG_INFO_INPUT, "string".to_owned(), Some(text("testing log actor")))));
    let a = node.handle(&c, OWN, cmd(NodeCommand::ComputeOutput(CONTROLLER, LOG_INFO_OUTPUT, None)));
    let b = node.handle(&c, OWN, cmd(NodeCommand::ComputeOutput(CONTROLLER, LOG_INFO_OUTPUT, None)));
    assert_eq!(output_value(&a), Some(Some(text("testing log actor"))));
    assert_eq!(output_value(&b), Some(Some(text("testing log actor"))));
    let computed = a.iter().chain(b.iter()).filter(|e| matches!(e, Effect::Log(..))).count();
    assert_eq!(computed, 1);
}

#[test]
fn empty_output_is_cached() {
    let c = catalogue();
    let mut node = log_node(&c);
    let a = node.handle(&c, OWN, cmd(NodeCommand::ComputeOutput(CONTROLLER, LOG_INFO_OUTPUT, None)));
    assert_eq!(output_value(&a), Some(None));
    assert!(node.state.outputs.get(LOG_INFO_OUTPUT).unwrap().computed);
    node.handle(&c, OWN, cmd(NodeCommand::InputValue(CONTROLLER, LOG_INFO_INPUT, "string".to_owned(), Some(text("later")))));
    let b = node.handle(&c, OWN, cmd(NodeCommand::ComputeOutput(CONTROLLER, LOG_INFO_OUTPUT, None)));
    assert_eq!(b.len(), 1);
    assert_eq!(output_value(&b), Some(None));
}

#[test]
fn datatype_mismatch_leaves_input_alone() {
    let c = catalogue();
    let mut node = log_node(&c);
    let effects = node.handle(
        &c,
        OWN,
        cmd(NodeCommand::InputValue(CONTROLLER, LOG_INFO_INPUT, "int".to_owned(), Some(Value::Int(42)))),
    );
    assert_eq!(effects.len(), 1);
    assert!(matches!(effects[0], Effect::Report(NodeReport::InputDatatypeMismatch(LOG_INFO_INPUT))));
    assert_eq!(node.state.inputs.get(LOG_INFO_INPUT).unwrap().value, None);
    let out = node.handle(&c, OWN, cmd(NodeCommand::ComputeOutput(CONTROLLER, LOG_INFO_OUTPUT, None)));
    assert_eq!(output_value(&out), Some(None));
}

#[test]
fn missing_pins_are_reported() {
    let c = catalogue();
    let mut node = log_node(&c);
    let e = node.handle(&c, OWN, cmd(NodeCommand::InputValue(CONTROLLER, 999, "string".to_owned(), None)));
    assert!(matches!(e[..], [Effect::Report(NodeReport::MissingInputPin(999))]));
    let e = node.handle(&c, OWN, cmd(NodeCommand::ComputeOutput(CONTROLLER, 999, None)));
    assert!(matches!(e[..], [Effect::Report(NodeReport::MissingOutputPin(999))]));
    let e = node.handle(&c, OWN, cmd(NodeCommand::ComputeOutputToInput(PEER, 5, 999, "string".to_owned(), None)));
    assert!(matches!(e[..], [Effect::Report(NodeReport::MissingOutputPin(999))]));
}

#[test]
fn output_sent_to_a_peer_input() {
    let c = catalogue();
    let mut node = log_node(&c);
    node.handle(&c, OWN, cmd(NodeCommand::InputValue(CONTROLLER, LOG_INFO_INPUT, "string".to_owned(), Some(text("v")))));
    let e = node.handle(&c, OWN, cmd(NodeCommand::ComputeOutputToInput(PEER, 55, LOG_INFO_OUTPUT, "int".to_owned(), None)));
    assert!(matches!(e[..], [Effect::Report(NodeReport::OutputDatatypeMismatch(LOG_INFO_OUTPUT))]));
    let e = node.handle(&c, OWN, cmd(NodeCommand::ComputeOutputToInput(PEER, 55, LOG_INFO_OUTPUT, "string".to_owned(), None)));
    match e.last() {
        Some(Effect::Command(PEER, NodeCommand::InputValue(from, input, datatype, value))) => {
            assert_eq!(*from, OWN);
            assert_eq!(*input, 55);
            assert_eq!(datatype, "string");
            assert_eq!(*value, Some(text("v")));
        }
        _ => panic!("expected an input value for the peer"),
    }
}

fn linked_input(a: u128, b: u128) -> Pin {
    let mut pin = Pin::new_io_basic(PinInfo::new_basic("Linked".to_owned(), 77, "string".to_owned()));
    pin.links.push(PinLink { pin: a, node: PEER, value: None, progress: 0 });
    pin.links.push(PinLink { pin: b, node: PEER, value: None, progress: 0 });
    pin
}

fn pin_ref(pin: u128) -> PinRef {
    PinRef { node: 4, pin: Some(pin), property: None, cache: None, value: None }
}

#[test]
fn progress_is_mean_of_links() {
    let c = catalogue();
    let mut node = log_node(&c);
    node.state.inputs.insert(linked_input(501, 502));
    let e = node.handle(&c, OWN, cmd(NodeCommand::UpdateProgress(PEER, pin_ref(501), 250_000)));
    assert!(e.is_empty());
    assert_eq!(node.state.inputs.get(77).unwrap().progress, 125_000);
    node.handle(&c, OWN, cmd(NodeCommand::UpdateProgress(PEER, pin_ref(502), 750_000)));
    let pin = node.state.inputs.get(77).unwrap();
    assert_eq!(pin.progress, 500_000);
    assert_eq!(pin.links[0].progress, 250_000);
    assert_eq!(pin.links[1].progress, 750_000);
}

#[test]
fn progress_beyond_scale_counts_as_done() {
    let c = catalogue();
    let mut node = log_node(&c);
    node.state.inputs.insert(linked_input(501, 502));
    node.handle(&c, OWN, cmd(NodeCommand::UpdateProgress(PEER, pin_ref(501), 3_000_000)));
    node.handle(&c, OWN, cmd(NodeCommand::UpdateProgress(PEER, pin_ref(502), PROGRESS_SCALE)));
    assert_eq!(node.state.inputs.get(77).unwrap().progress, PROGRESS_SCALE);
    // A pin that no input links to changes nothing.
    node.handle(&c, OWN, cmd(NodeCommand::UpdateProgress(PEER, pin_ref(503), 0)));
    assert_eq!(node.state.inputs.get(77).unwrap().progress, PROGRESS_SCALE);
    let e = node.handle(&c, OWN, cmd(NodeCommand::UpdateProgress(PEER, PinRef { node: 4, pin: None, property: None, cache: None, value: None }, 0)));
    assert!(matches!(e[..], [Effect::Report(NodeReport::MissingProgressPin)]));
}

#[test]
fn progress_is_reported_on_request() {
    let c = catalogue();
    let mut node = log_node(&c);
    let e = node.handle(&c, OWN, cmd(NodeCommand::RequestProgress(PEER, pin_ref(LOG_INFO_OUTPUT))));
    match &e[..] {
        [Effect::Command(PEER, NodeCommand::UpdateProgress(from, r, p))] => {
            assert_eq!(*from, OWN);
            assert_eq!(r.pin, Some(LOG_INFO_OUTPUT));
            assert_eq!(*p, 0);
        }
        _ => panic!("expected a progress update"),
    }
    let e = node.handle(&c, OWN, cmd(NodeCommand::RequestProgress(PEER, pin_ref(12345))));
    assert!(matches!(e[..], [Effect::Report(NodeReport::MissingOutputPin(12345))]));
}

#[test]
fn refresh_discards_cached_values() {
    let c = catalogue();
    let mut node = log_node(&c);
    node.handle(&c, OWN, cmd(NodeCommand::InputValue(CONTROLLER, LOG_INFO_INPUT, "string".to_owned(), Some(text("a")))));
    node.handle(&c, OWN, cmd(NodeCommand::ComputeOutput(CONTROLLER, LOG_INFO_OUTPUT, None)));
    node.state.inputs.insert(linked_input(501, 502));
    assert_eq!(node.state.outputs.get(LOG_INFO_OUTPUT).unwrap().value, Some(text("a")));
    let e = node.handle(&c, OWN, cmd(NodeCommand::RefreshPins(PEER)));
    assert!(matches!(e[..], [Effect::Respond(PEER, NodeResponse::PinsRefreshed)]));
    assert!(node.state.inputs.get(77).is_none());
    assert_eq!(node.state.inputs.pins.len(), 3);
    assert_eq!(node.state.outputs.pins.len(), 3);
    assert_eq!(node.state.receives.pins.len(), 4);
    assert_eq!(node.state.sends.pins.len(), 3);
    for table in [&node.state.inputs, &node.state.outputs, &node.state.receives, &node.state.sends] {
        for pin in &table.pins {
            assert_eq!(pin.value, None);
            assert!(pin.links.is_empty());
        }
    }
    let out = node.handle(&c, OWN, cmd(NodeCommand::ComputeOutput(CONTROLLER, LOG_INFO_OUTPUT, None)));
    assert_eq!(output_value(&out), Some(None));
}

#[test]
fn data_are_updated_and_removed() {
    let c = catalogue();
    let mut node = log_node(&c);
    let e = node.handle(&c, OWN, cmd(NodeCommand::UpdateDatum(PEER, "k".to_owned(), Value::UInt(1))));
    assert!(matches!(e[..], [Effect::Respond(PEER, NodeResponse::DatumUpdated)]));
    node.handle(&c, OWN, cmd(NodeCommand::UpdateDatum(PEER, "k".to_owned(), Value::UInt(2))));
    node.handle(&c, OWN, cmd(NodeCommand::UpdateDatum(PEER, "j".to_owned(), Value::Bool(true))));
    assert_eq!(node.state.info.data.len(), 2);
    assert_eq!(node.state.info.data[0].value, Value::UInt(2));
    let e = node.handle(&c, OWN, cmd(NodeCommand::RemoveDatum(PEER, "k".to_owned())));
    assert!(matches!(e[..], [Effect::Respond(PEER, NodeResponse::DatumRemoved)]));
    assert_eq!(node.state.info.data.len(), 1);
    assert_eq!(node.state.info.data[0].name, "j");
    node.handle(&c, OWN, cmd(NodeCommand::RemoveDatum(PEER, "absent".to_owned())));
    assert_eq!(node.state.info.data.len(), 1);
}

#[test]
fn receive_is_acknowledged_first() {
    let c = catalogue();
    let mut node = NodeMetaCanvasV1::new(CONTROLLER, &c, INSTANCE);
    let e = node.handle(&c, OWN, cmd(NodeCommand::ReceiverMessage(PEER, CANVAS_EDIT_RECEIVER, None)));
    assert!(matches!(e[..], [Effect::Respond(PEER, NodeResponse::Received), Effect::OpenEditor]));
    assert!(matches!(&node.process, BuiltinNode::Canvas(canvas) if canvas.editor_open));
    let e = node.handle(&c, OWN, cmd(NodeCommand::ReceiverMessage(PEER, 4242, None)));
    assert!(matches!(e[..], [Effect::Respond(PEER, NodeResponse::Received)]));
}

#[test]
fn canvas_exit_stops_waiting() {
    let c = catalogue();
    let mut node = NodeMetaCanvasV1::new(CONTROLLER, &c, INSTANCE);
    let e = node.handle(&c, OWN, NodeMessage::Other(OtherMessage::Canvas(CanvasMessage::Exit)));
    assert!(matches!(e[..], [Effect::Control(ControllerCommand::StopWaitingForNewMessages)]));
    let e = node.handle(&c, OWN, NodeMessage::Other(OtherMessage::Payload(text("other"))));
    assert!(e.is_empty());
    let e = node.handle(&c, OWN, cmd(NodeCommand::ComputeOutput(PEER, proc_flow::nodes::canvas::CANVAS_PATH_OUTPUT, None)));
    assert_eq!(output_value(&e), Some(None));
}

#[test]
fn stop_waiting_goes_to_controller() {
    let c = catalogue();
    let mut node = log_node(&c);
    let e = node.handle(&c, OWN, cmd(NodeCommand::StopWaitingForNewMessages));
    assert!(matches!(e[..], [Effect::Control(ControllerCommand::StopWaitingForNewMessages)]));
    let e = node.handle(&c, OWN, NodeMessage::Response(NodeResponse::InputPinSet));
    assert!(matches!(e[..], [Effect::Report(NodeReport::ResponseIgnored)]));
}

#[test]
fn graph_node_fails_to_compute() {
    let c = catalogue();
    let mut node = NodeMetaGraphV1::new(CONTROLLER, &c, INSTANCE);
    assert_eq!(node.state.inputs.pins.len(), 0);
    assert_eq!(node.state.outputs.pins.len(), 0);
    if let BuiltinNode::Graph(g) = &mut node.process {
        let mut out = PinInfo::new_basic("Out".to_owned(), 300, "int".to_owned());
        out.valuable = Some(true);
        g.instance = Some(proc_flow::graph::VersionInfo {
            format: 1,
            receives: Vec::new(),
            sends: Vec::new(),
            inputs: vec![PinInfo::new_basic("In".to_owned(), 301, "int".to_owned())],
            outputs: vec![out],
            nodes: Vec::new(),
            connections: Vec::new(),
        });
    }
    node.handle(&c, OWN, cmd(NodeCommand::RefreshPins(PEER)));
    assert_eq!(node.state.inputs.pins.len(), 1);
    assert_eq!(node.state.outputs.get(300).unwrap().info.valuable, Some(true));
    let e = node.handle(&c, OWN, cmd(NodeCommand::ComputeOutput(PEER, 300, None)));
    assert!(matches!(&e[..], [Effect::Report(NodeReport::ComputeFailed(300, _))]));
    assert_eq!(node.state.outputs.get(300).unwrap().value, None);
}

#[test]
fn names_come_from_descriptors() {
    let c = catalogue();
    let node = log_node(&c);
    assert_eq!(node.get_name(), "Log");
    assert_eq!(node.state.inputs.get(LOG_INFO_INPUT).unwrap().get_name(), "Info");
    let info = PinInfo::new_extended("P".to_owned(), 9, "u8".to_owned(), Some(true), Some(2), None);
    assert_eq!(info.dimensions, Some(2));
    let basic = PinInfo::new_basic("P".to_owned(), 9, "u8".to_owned());
    assert_eq!(basic.valuable, None);
    assert!(Pin::new_io_basic(basic.clone()).cache);
    assert!(!Pin::new_rs_basic(basic).cache);
}

#[test]
fn instance_info_from_node_info() {
    let graph = GraphRef { name: "G".to_owned(), uuid: 5, library: Some(6), version: 3 };
    let info = proc_flow::graph::NodeInfo {
        uuid: 11,
        data: Some(vec![
            proc_flow::graph::Datum { name: "a".to_owned(), value: Value::Int(-1) },
            proc_flow::graph::Datum { name: "b".to_owned(), value: Value::Int(2) },
            proc_flow::graph::Datum { name: "a".to_owned(), value: Value::Int(3) },
        ]),
        graph,
    };
    let inst = NodeInstanceInfo::from_info(&info);
    assert_eq!(inst.uuid, 11);
    assert_eq!(inst.graph.version, 3);
    assert_eq!(inst.data.len(), 2);
    assert_eq!(inst.data[0].name, "a");
    assert_eq!(inst.data[0].value, Value::Int(3));
}

#[test]
fn log_node_without_the_matching_input_fails() {
    let c = catalogue();
    let mut node = log_node(&c);
    node.state.inputs = proc_flow::pin::PinMap::new();
    let e = node.handle(&c, OWN, cmd(NodeCommand::ComputeOutput(CONTROLLER, LOG_INFO_OUTPUT, None)));
    assert!(matches!(&e[..], [Effect::Report(NodeReport::ComputeFailed(LOG_INFO_OUTPUT, _))]));
    node.state.outputs.insert(Pin::new_io_basic(PinInfo::new_basic("Extra".to_owned(), 4040, "string".to_owned())));
    let e = node.handle(&c, OWN, cmd(NodeCommand::ComputeOutput(CONTROLLER, 4040, None)));
    assert!(matches!(&e[..], [Effect::Report(NodeReport::ComputeFailed(4040, _))]));
    assert_eq!(node.state.outputs.get(4040).unwrap().value, None);
}

#[test]
fn input_reaches_output_after_other_messages() {
    let c = catalogue();
    let mut node = log_node(&c);
    node.handle(&c, OWN, cmd(NodeCommand::InputValue(CONTROLLER, LOG_INFO_INPUT, "string".to_owned(), Some(text("kept")))));
    node.handle(&c, OWN, cmd(NodeCommand::UpdateDatum(PEER, "k".to_owned(), Value::Int(1))));
    node.handle(&c, OWN, cmd(NodeCommand::InputValue(CONTROLLER, LOG_WARN_INPUT, "string".to_owned(), Some(text("other")))));
    node.handle(&c, OWN, cmd(NodeCommand::ComputeOutput(CONTROLLER, LOG_WARN_OUTPUT, None)));
    node.handle(&c, OWN, cmd(NodeCommand::RequestProgress(PEER, pin_ref(LOG_INFO_OUTPUT))));
    node.handle(&c, OWN, NodeMessage::Other(OtherMessage::Payload(Value::Bool(true))));
    let e = node.handle(&c, OWN, cmd(NodeCommand::ComputeOutput(CONTROLLER, LOG_INFO_OUTPUT, None)));
    assert_eq!(output_value(&e), Some(Some(text("kept"))));
}
