use holter_bridge::codec::Msg;
use holter_bridge::parser::OperationStatus;
use holter_bridge::parser::RegisterValue;
use holter_bridge::web::commands_parse;

fn strings(items: &[&str]) -> Vec<String> {
    items.iter().map(|s| s.to_string()).collect()
}

#[test]
fn known_command_becomes_a_read_request() {
    let commands = strings(&["/ctrl/vis", "/survey/surname", "/hr"]);
    assert_eq!(
        commands_parse(strings(&["ctrl", "vis"]), commands.clone()),
        Msg(OperationStatus::Read, "/ctrl/vis".to_string(), RegisterValue::UNIT)
    );
    assert_eq!(
        commands_parse(strings(&["hr"]), commands),
        Msg(OperationStatus::Read, "/hr".to_string(), RegisterValue::UNIT)
    );
}

#[test]
fn unknown_command_is_marked() {
    let commands = strings(&["/ctrl/vis"]);
    let wrong = Msg(OperationStatus::Read, "Wrong command".to_string(), RegisterValue::UNIT);
    assert_eq!(commands_parse(strings(&["ctrl"]), commands.clone()), wrong);
    assert_eq!(commands_parse(strings(&["ctrl", "vis", "x"]), commands.clone()), wrong);
    assert_eq!(commands_parse(strings(&[]), commands), wrong);
    assert_eq!(commands_parse(strings(&["a"]), Vec::new()), wrong);
}

#[test]
fn empty_path_is_a_command_if_listed() {
    let commands = strings(&[""]);
    assert_eq!(
        commands_parse(Vec::new(), commands),
        Msg(OperationStatus::Read, String::new(), RegisterValue::UNIT)
    );
}
