use apyee::command::{
    Command, CommandResponse, CommandResponseError, CommandResult, Frame, NotificationResult,
    RawCommand,
};
use apyee::device::Device;
use apyee::json::Json;
use apyee::method::{Effect, Method};
use apyee::property::Property;

fn text(bytes: Vec<u8>) -> String {
    String::from_utf8(bytes).unwrap()
}

fn parse_response(data: &str) -> Option<CommandResponse> {
    CommandResponse::from_json(&Json::from_bytes(data.as_bytes())?)
}

#[test]
fn it_works() {
    let command = Command::new(0, Method::SetPower(true, Some(Effect::Smooth), Some(500)));
    let json = text(command.to_bytes());
    println!("{}", json);
}

#[test]
fn command_serialization() {
    let command = Command::new(
        0,
        Method::SetRgb(Device::get_rgb_color(255, 0, 0), Some(Effect::Smooth), Some(500)),
    );
    let json = text(command.to_bytes());
    assert_eq!(json, r#"{"id":0,"method":"set_rgb","params":[16711680,"smooth",500]}"#);
}

#[test]
fn command_get_prop_serialization() {
    let command = Command::new(
        0,
        Method::GetProps(vec![Property::Power, Property::Rgb, Property::BgRgb]),
    );
    let json = text(command.to_bytes());
    assert_eq!(json, r#"{"id":0,"method":"get_prop","params":["power","rgb","bg_rgb"]}"#);
}

#[test]
fn test_response_parsing() {
    let data = "{\"id\":1, \"result\":[\"ok\"]}";
    let response: CommandResponse = parse_response(data).unwrap();
    assert_eq!(response.id, 1);
    assert_eq!(response.result.len(), 1);
    assert_eq!(response.result[0], CommandResult::Okay);
}

#[test]
fn power_is_sent_as_a_word_and_missing_tuning_takes_no_place() {
    let on = Command::new(1, Method::SetPower(true, Some(Effect::Smooth), Some(500)));
    assert_eq!(text(on.to_bytes()), r#"{"id":1,"method":"set_power","params":["on","smooth",500]}"#);
    let off = Command::new(2, Method::BgSetPower(false, None, None));
    assert_eq!(text(off.to_bytes()), r#"{"id":2,"method":"bg_set_power","params":["off"]}"#);
    let only_duration = Command::new(3, Method::SetBright(40, None, Some(250)));
    assert_eq!(text(only_duration.to_bytes()), r#"{"id":3,"method":"set_bright","params":[40,250]}"#);
    let sudden = Command::new(4, Method::SetCtAbx(3500, Some(Effect::Sudden), None));
    assert_eq!(text(sudden.to_bytes()), r#"{"id":4,"method":"set_ct_abx","params":[3500,"sudden"]}"#);
}

#[test]
fn every_method_has_its_wire_name_and_parameters() {
    let cases: Vec<(Method, &str, &str)> = vec![
        (Method::GetProp(Property::Bright), "get_prop", r#"["bright"]"#),
        (Method::GetProps(vec![]), "get_prop", "[]"),
        (Method::Toggle, "toggle", "[]"),
        (Method::SetPower(false, None, None), "set_power", r#"["off"]"#),
        (Method::SetRgb(255, None, None), "set_rgb", "[255]"),
        (Method::SetHsv(359, 100, Some(Effect::Smooth), Some(30)), "set_hsv", r#"[359,100,"smooth",30]"#),
        (Method::SetBright(1, None, None), "set_bright", "[1]"),
        (Method::SetDefault, "set_default", "[]"),
        (Method::BgSetRgb(-1, None, None), "bg_set_rgb", "[-1]"),
        (Method::BgSetHsv(0, 0, None, None), "bg_set_hsv", "[0,0]"),
        (Method::BgSetDefault, "bg_set_default", "[]"),
        (Method::BgSetPower(true, None, None), "bg_set_power", r#"["on"]"#),
        (Method::BgSetBright(100, None, None), "bg_set_bright", "[100]"),
        (Method::SetCtAbx(1700, None, None), "set_ct_abx", "[1700]"),
        (Method::BgSetCtAbx(6500, None, Some(2147483647)), "bg_set_ct_abx", "[6500,2147483647]"),
    ];
    for (method, name, params) in cases {
        assert_eq!(method.name(), name);
        assert_eq!(text(Json::Array(method.get_params()).to_bytes()), params);
        let command = Command::new(-5, method);
        assert_eq!(
            text(command.to_bytes()),
            format!(r#"{{"id":-5,"method":"{}","params":{}}}"#, name, params)
        );
    }
}

#[test]
fn command_new_keeps_identifier_and_method() {
    let command = Command::new(i32::MIN, Method::GetProp(Property::NlBr));
    assert_eq!(command.id, i32::MIN);
    assert_eq!(command.method, Method::GetProp(Property::NlBr));
    assert_eq!(command.params, vec![Json::Str("nl_br".to_string())]);
    assert_eq!(
        text(command.to_bytes()),
        r#"{"id":-2147483648,"method":"get_prop","params":["nl_br"]}"#
    );
}

#[test]
fn a_request_reads_back_as_what_went_in() {
    let command = Command::new(
        1234,
        Method::SetHsv(120, 50, Some(Effect::Sudden), Some(0)),
    );
    let emitted = command.to_bytes();
    let parsed = Json::from_bytes(&emitted).unwrap();
    let raw = RawCommand::from_json(&parsed).unwrap();
    assert_eq!(raw.id, 1234);
    assert_eq!(raw.method, "set_hsv");
    assert_eq!(raw.params, command.params);
    assert_eq!(
        raw.params,
        vec![Json::Int(120), Json::Int(50), Json::Str("sudden".to_string()), Json::Int(0)]
    );
    assert_eq!(parsed, command.to_json());
}

#[test]
fn a_request_reads_back_without_going_through_text() {
    let command = Command::new(7, Method::GetProps(vec![Property::Ct, Property::ActiveMode]));
    let raw = RawCommand::from_json(&command.to_json()).unwrap();
    assert_eq!(raw.id, 7);
    assert_eq!(raw.method, "get_prop");
    assert_eq!(raw.params, vec![Json::Str("ct".to_string()), Json::Str("active_mode".to_string())]);
}

#[test]
fn requests_are_read_only_from_objects_of_the_right_shape() {
    let read = |data: &str| RawCommand::from_json(&Json::from_bytes(data.as_bytes()).unwrap());
    assert!(read(r#"{"id":1,"method":"toggle","params":[]}"#).is_some());
    assert!(read(r#"{"id":1,"method":"toggle","params":[],"more":true}"#).is_some());
    assert!(read(r#"{"method":"toggle","params":[]}"#).is_none());
    assert!(read(r#"{"id":1,"params":[]}"#).is_none());
    assert!(read(r#"{"id":1,"method":"toggle"}"#).is_none());
    assert!(read(r#"{"id":"1","method":"toggle","params":[]}"#).is_none());
    assert!(read(r#"{"id":1,"method":5,"params":[]}"#).is_none());
    assert!(read(r#"{"id":1,"method":"toggle","params":{}}"#).is_none());
    assert!(read(r#"[1,"toggle",[]]"#).is_none());
}

#[test]
fn a_successful_response_is_read() {
    let response = parse_response(r#"{"id":7,"result":["ok"],"error":null}"#).unwrap();
    assert_eq!(
        response,
        CommandResponse { id: 7, result: vec![CommandResult::Okay], error: None }
    );
}

#[test]
fn a_failed_response_is_read() {
    let response = parse_response(
        r#"{"id":-3,"result":[],"error":{"code":-1,"message":"unsupported method"}}"#,
    )
    .unwrap();
    assert_eq!(
        response,
        CommandResponse {
            id: -3,
            result: vec![],
            error: Some(CommandResponseError {
                code: -1,
                message: "unsupported method".to_string()
            }),
        }
    );
}

#[test]
fn every_result_marker_is_read() {
    let response = parse_response(r#"{"id":1,"result":["on","off","ok"]}"#).unwrap();
    assert_eq!(
        response.result,
        vec![CommandResult::On, CommandResult::Off, CommandResult::Okay]
    );
    for (word, marker) in [
        ("ok", CommandResult::Okay),
        ("off", CommandResult::Off),
        ("on", CommandResult::On),
    ] {
        assert_eq!(CommandResult::from_json(&Json::Str(word.to_string())), Some(marker));
    }
    assert_eq!(CommandResult::from_json(&Json::Str("OK".to_string())), None);
    assert_eq!(CommandResult::from_json(&Json::Str("".to_string())), None);
    assert_eq!(CommandResult::from_json(&Json::Int(1)), None);
    assert_eq!(CommandResult::from_json(&Json::Null), None);
}

#[test]
fn responses_of_another_shape_are_not_read() {
    assert!(parse_response(r#"{"result":["ok"]}"#).is_none());
    assert!(parse_response(r#"{"id":1}"#).is_none());
    assert!(parse_response(r#"{"id":1.5,"result":["ok"]}"#).is_none());
    assert!(parse_response(r#"{"id":2147483648,"result":["ok"]}"#).is_none());
    assert!(parse_response(r#"{"id":-2147483649,"result":["ok"]}"#).is_none());
    assert!(parse_response(r#"{"id":"1","result":["ok"]}"#).is_none());
    assert!(parse_response(r#"{"id":1,"result":"ok"}"#).is_none());
    assert!(parse_response(r#"{"id":1,"result":["ok","what"]}"#).is_none());
    assert!(parse_response(r#"{"id":1,"result":[100]}"#).is_none());
    assert!(parse_response(r#"{"id":1,"result":[],"error":"broken"}"#).is_none());
    assert!(parse_response(r#"{"id":1,"result":[],"error":{"code":-1}}"#).is_none());
    assert!(parse_response(r#"{"id":1,"result":[],"error":{"message":"m"}}"#).is_none());
    assert!(parse_response(r#"{"id":1,"result":[],"error":{"code":"-1","message":"m"}}"#).is_none());
    assert!(parse_response(r#"[1,["ok"],null]"#).is_none());
    assert!(parse_response(r#"{"id":1,"result":["ok"]"#).is_none());
    assert!(parse_response("").is_none());
}

#[test]
fn the_bounds_of_the_identifier_are_read() {
    assert_eq!(parse_response(r#"{"id":2147483647,"result":[]}"#).unwrap().id, i32::MAX);
    assert_eq!(parse_response(r#"{"id":-2147483648,"result":[]}"#).unwrap().id, i32::MIN);
}

#[test]
fn members_that_are_not_known_are_passed_over() {
    let response = parse_response(r#"{"extra":{"a":[1,2.5,null]},"id":4,"result":["ok"]}"#).unwrap();
    assert_eq!(response.id, 4);
}

#[test]
fn a_notification_is_read() {
    let json = Json::from_bytes(br#"{"method":"props","params":{"power":"on","bright":10}}"#).unwrap();
    let notification = NotificationResult::from_json(&json).unwrap();
    assert_eq!(notification.method, "props");
    assert_eq!(notification.params.len(), 2);
    assert!(notification.params.contains(&(Property::Power, Json::Str("on".to_string()))));
    assert!(notification.params.contains(&(Property::Bright, Json::Int(10))));
}

#[test]
fn a_notification_with_an_unknown_key_is_not_read() {
    let read = |data: &str| NotificationResult::from_json(&Json::from_bytes(data.as_bytes()).unwrap());
    assert!(read(r#"{"method":"props","params":{"volume":11}}"#).is_none());
    assert!(read(r#"{"method":"props","params":["power"]}"#).is_none());
    assert!(read(r#"{"method":"props"}"#).is_none());
    assert!(read(r#"{"params":{"power":"on"}}"#).is_none());
    assert!(read(r#"{"method":1,"params":{"power":"on"}}"#).is_none());
    assert!(read(r#"{"method":"props","params":{}}"#).is_some());
}

#[test]
fn a_frame_is_a_response_or_a_notification_or_neither() {
    match Frame::of_bytes(br#"{"id":7,"result":["ok"],"error":null}"#) {
        Frame::Response(response) => assert_eq!(response.id, 7),
        other => panic!("not a response: {:?}", other),
    }
    match Frame::of_bytes(br#"{"method":"props","params":{"ct":4000}}"#) {
        Frame::Notification(notification) => {
            assert_eq!(notification.params, vec![(Property::Ct, Json::Int(4000))])
        }
        other => panic!("not a notification: {:?}", other),
    }
    assert_eq!(Frame::of_bytes(br#"{"id":7"#), Frame::Malformed);
    assert_eq!(Frame::of_bytes(b"garbage"), Frame::Malformed);
    assert_eq!(Frame::of_bytes(b""), Frame::Malformed);
    assert_eq!(Frame::of_bytes(&[0xff, 0xfe]), Frame::Malformed);
    assert_eq!(Frame::of_bytes(br#"{"id":1,"method":"toggle","params":[]}"#), Frame::Malformed);
    assert_eq!(Frame::of_json(None), Frame::Malformed);
    assert_eq!(Frame::of_json(Some(&Json::Null)), Frame::Malformed);
}

#[test]
fn a_frame_that_could_be_both_counts_as_a_response_only() {
    let both = br#"{"id":9,"result":["on"],"method":"props","params":{"power":"on"}}"#;
    match Frame::of_bytes(both) {
        Frame::Response(response) => {
            assert_eq!(response.id, 9);
            assert_eq!(response.result, vec![CommandResult::On]);
        }
        other => panic!("not a response: {:?}", other),
    }
}

#[test]
fn rgb_colors_are_packed() {
    assert_eq!(Device::get_rgb_color(255, 0, 0), 16711680);
    assert_eq!(Device::get_rgb_color(0, 255, 0), 65280);
    assert_eq!(Device::get_rgb_color(0, 0, 255), 255);
    assert_eq!(Device::get_rgb_color(0, 0, 0), 0);
    assert_eq!(Device::get_rgb_color(255, 255, 255), 16777215);
    assert_eq!(Device::get_rgb_color(1, 2, 3), 66051);
}

#[test]
fn properties_and_effects_are_found_by_their_names() {
    for property in Property::all() {
        assert_eq!(Property::from_name(property.name()), Some(property));
    }
    assert_eq!(Property::all().len(), 23);
    assert_eq!(Property::from_name("bg_lmode"), Some(Property::BgLmode));
    assert_eq!(Property::from_name("color_mode"), Some(Property::ColorMode));
    assert_eq!(Property::from_name("Power"), None);
    assert_eq!(Property::from_name(""), None);
    assert_eq!(Effect::from_name("smooth"), Some(Effect::Smooth));
    assert_eq!(Effect::from_name("sudden"), Some(Effect::Sudden));
    assert_eq!(Effect::from_name("slow"), None);
    assert_eq!(Effect::Smooth.name(), "smooth");
    assert_eq!(Effect::Sudden.name(), "sudden");
}

#[test]
fn a_method_is_read_back_from_its_wire_form() {
    let methods = vec![
        Method::GetProps(vec![Property::Power, Property::BgHue]),
        Method::GetProps(vec![]),
        Method::Toggle,
        Method::SetPower(true, None, None),
        Method::SetPower(false, Some(Effect::Sudden), None),
        Method::SetRgb(16711680, Some(Effect::Smooth), Some(500)),
        Method::SetHsv(1, 2, None, Some(3)),
        Method::SetBright(50, None, None),
        Method::SetDefault,
        Method::BgSetRgb(0, None, Some(-1)),
        Method::BgSetHsv(359, 100, Some(Effect::Smooth), Some(1000)),
        Method::BgSetDefault,
        Method::BgSetPower(true, Some(Effect::Smooth), Some(30)),
        Method::BgSetBright(i32::MAX, None, None),
        Method::SetCtAbx(i32::MIN, None, None),
        Method::BgSetCtAbx(4000, Some(Effect::Sudden), Some(0)),
    ];
    for method in methods {
        assert_eq!(Method::from_wire(method.name(), &method.get_params()), Some(method));
    }
    assert_eq!(
        Method::from_wire("get_prop", &Method::GetProp(Property::Sat).get_params()),
        Some(Method::GetProps(vec![Property::Sat]))
    );
}

#[test]
fn what_no_method_is_sent_as_is_not_read_back() {
    let none = |name: &str, params: Vec<Json>| assert_eq!(Method::from_wire(name, &params), None);
    let word = |text: &str| Json::Str(text.to_string());
    none("get_props", vec![]);
    none("", vec![]);
    none("Toggle", vec![]);
    none("toggle", vec![Json::Null]);
    none("set_default", vec![Json::Int(1)]);
    none("bg_set_default", vec![word("on")]);
    none("get_prop", vec![word("power"), word("volume")]);
    none("get_prop", vec![Json::Int(1)]);
    none("set_power", vec![]);
    none("set_power", vec![Json::Bool(true)]);
    none("set_power", vec![word("ON")]);
    none("set_power", vec![word("on"), word("slow")]);
    none("set_power", vec![word("on"), Json::Int(1), word("smooth")]);
    none("set_power", vec![word("on"), word("smooth"), Json::Int(1), Json::Int(2)]);
    none("set_rgb", vec![]);
    none("set_rgb", vec![word("red")]);
    none("set_rgb", vec![Json::Int(2147483648)]);
    none("set_rgb", vec![Json::Int(1), Json::Int(2), Json::Int(3)]);
    none("set_rgb", vec![Json::Int(1), word("smooth"), word("smooth")]);
    none("set_hsv", vec![Json::Int(1)]);
    none("set_hsv", vec![Json::Int(1), word("smooth")]);
    none("bg_set_hsv", vec![Json::Int(1), Json::Int(2), Json::Null]);
}

#[test]
fn a_command_is_made_from_the_request_it_was_sent_as() {
    let command = Command::new(41, Method::BgSetBright(70, Some(Effect::Smooth), Some(300)));
    let emitted = command.to_bytes();
    let raw = RawCommand::from_json(&Json::from_bytes(&emitted).unwrap()).unwrap();
    assert_eq!(Command::from_raw(raw), Some(command));
    let unknown = RawCommand { id: 1, method: "start_cf".to_string(), params: vec![] };
    assert_eq!(Command::from_raw(unknown), None);
}
