use urd::lifecycle::{needs_power_on, overall_healthy, text_contains, RobotState};
use urd::config::{get_zenoh_config, CommandConfig, DaemonConfig, DaemonRobotConfig, InterpreterConfig, PublishingConfig};
use urd::error::URError;
use urd::events::{
    buffer_clear_completed, buffer_clear_requested, command_completed, command_error, command_failed,
    command_rejected, command_sent, safety_violation, BufferEventType, CommandStatus,
};
use urd::monitor::{
    basic_variables, enhanced_variables, get_robot_mode_name, get_runtime_state_name, get_safety_mode_name,
    MonitorGate,
};
use urd::rtde::{
    decode_frame, decode_header, encode_data_package, encode_fields, encode_frame, parse_data_package,
    parse_setup_reply, read_data_package, setup_outputs_request, start_accepted, version_accepted,
    version_request, FieldValue, RTDEMessage,
};
use urd::telemetry::ConsoleTelemetry;

fn strings(v: &[&str]) -> Vec<String> {
    v.iter().map(|s| s.to_string()).collect()
}

fn vec6_body(recipe: u8, values: [f64; 6]) -> Vec<u8> {
    let mut body = vec![recipe];
    for v in values {
        body.extend_from_slice(&v.to_be_bytes());
    }
    body
}

#[test]
fn rtde_decode_vector6d() {
    let body = vec6_body(0x01, [1.0, 2.0, 3.0, 4.0, 5.0, 6.0]);
    let names = strings(&["actual_q"]);
    let tags = strings(&["VECTOR6D"]);
    let out = read_data_package(RTDEMessage::DataPackage, &body, &names, &tags).unwrap();
    assert_eq!(out.len(), 1);
    assert_eq!(out[0].0, "actual_q");
    match out[0].1 {
        FieldValue::Vector6d(bits) => {
            let vals: Vec<f64> = bits.iter().map(|b| f64::from_bits(*b)).collect();
            assert_eq!(vals, vec![1.0, 2.0, 3.0, 4.0, 5.0, 6.0]);
        }
        other => panic!("{:?}", other),
    }
}

#[test]
fn rtde_round_trip_all_types() {
    let values = vec![
        FieldValue::Vector6d([
            0.5f64.to_bits(),
            (-1.25f64).to_bits(),
            f64::MAX.to_bits(),
            f64::MIN_POSITIVE.to_bits(),
            0.0f64.to_bits(),
            (-0.0f64).to_bits(),
        ]),
        FieldValue::Double(1234.5678f64.to_bits()),
        FieldValue::Int32(-7),
        FieldValue::Uint32(4_000_000_000),
    ];
    let names = strings(&["actual_TCP_pose", "timestamp", "robot_mode", "count"]);
    let tags = strings(&["VECTOR6D", "DOUBLE", "INT32", "UINT32"]);
    let frame = encode_data_package(9, &values).unwrap();
    assert_eq!(frame.len(), 3 + 1 + 48 + 8 + 4 + 4);
    assert_eq!(&frame[0..3], &[0, 68, 85]);
    let (m, body) = decode_frame(&frame).unwrap();
    assert_eq!(m, RTDEMessage::DataPackage);
    assert_eq!(body[0], 9);
    let out = read_data_package(m, &body, &names, &tags).unwrap();
    let decoded: Vec<FieldValue> = out.iter().map(|(_, v)| *v).collect();
    assert_eq!(decoded, values);
    assert_eq!(encode_fields(&vec![FieldValue::Int32(-2)]), vec![0xff, 0xff, 0xff, 0xfe]);
}

#[test]
fn rtde_decode_errors() {
    let names = strings(&["a", "b"]);
    let err = |r: Result<Vec<(String, FieldValue)>, URError>| match r {
        Err(URError::Protocol(m)) => m,
        other => panic!("{:?}", other),
    };
    assert_eq!(
        err(parse_data_package(&names, &strings(&["DOUBLE"]), &[0u8; 7])),
        "Insufficient data for DOUBLE"
    );
    assert_eq!(
        err(parse_data_package(&names, &strings(&["BOOL"]), &[0u8; 8])),
        "Unsupported variable type: BOOL"
    );
    assert_eq!(
        err(parse_data_package(&names, &strings(&["INT32", "INT32", "INT32"]), &[0u8; 12])),
        "Variable name missing"
    );
    assert_eq!(err(read_data_package(RTDEMessage::DataPackage, &[], &names, &strings(&[]))), "Empty data package");
    assert_eq!(err(read_data_package(RTDEMessage::TextMessage, &[1], &names, &strings(&[]))), "Expected data package");
    assert!(parse_data_package(&names, &strings(&["UINT32"]), &[0, 0, 1, 0]).is_ok());
}

#[test]
fn rtde_framing() {
    let f = encode_frame(RTDEMessage::RequestProtocolVersion, &version_request(2)).unwrap();
    assert_eq!(f, vec![0, 5, 86, 0, 2]);
    assert_eq!(encode_frame(RTDEMessage::ControlPackageStart, &[]).unwrap(), vec![0, 3, 83]);
    assert!(encode_frame(RTDEMessage::TextMessage, &vec![0u8; 65533]).is_err());
    assert!(encode_frame(RTDEMessage::TextMessage, &vec![0u8; 65532]).is_ok());
    assert_eq!(decode_header(0, 4, 77).unwrap(), (RTDEMessage::TextMessage, 1));
    assert!(matches!(decode_header(0, 2, 77), Err(URError::Protocol(_))));
    match decode_header(0, 3, 1) {
        Err(URError::Protocol(m)) => assert_eq!(m, "Unknown message type: 1"),
        other => panic!("{:?}", other),
    }
    assert!(decode_frame(&[0, 5, 86, 0]).is_err());
    assert!(version_accepted(RTDEMessage::RequestProtocolVersion, &[1]));
    assert!(!version_accepted(RTDEMessage::RequestProtocolVersion, &[0]));
    assert!(!version_accepted(RTDEMessage::ControlPackageStart, &[1]));
    assert!(start_accepted(RTDEMessage::ControlPackageStart, &[1]));
    assert!(!start_accepted(RTDEMessage::ControlPackageStart, &[]));
    assert_eq!(RTDEMessage::from_byte(79), Some(RTDEMessage::ControlPackageSetupOutputs));
    assert_eq!(RTDEMessage::ControlPackagePause.to_byte(), 84);
}

#[test]
fn rtde_recipe_setup() {
    let body = setup_outputs_request(125.0f64.to_bits(), &strings(&["timestamp", "actual_q"]));
    let mut expected = 125.0f64.to_be_bytes().to_vec();
    expected.extend_from_slice(b"timestamp,actual_q");
    assert_eq!(body, expected);
    let mut reply = vec![3u8];
    reply.extend_from_slice(b"DOUBLE,VECTOR6D");
    let recipe = parse_setup_reply(RTDEMessage::ControlPackageSetupOutputs, &reply, strings(&["timestamp", "actual_q"])).unwrap();
    assert_eq!(recipe.recipe_id, 3);
    assert_eq!(recipe.types, strings(&["DOUBLE", "VECTOR6D"]));
    assert_eq!(recipe.variables, strings(&["timestamp", "actual_q"]));
    assert!(parse_setup_reply(RTDEMessage::ControlPackageSetupOutputs, &[], vec![]).is_err());
    assert!(parse_setup_reply(RTDEMessage::DataPackage, &reply, vec![]).is_err());
    assert_eq!(enhanced_variables().len(), 6);
    assert_eq!(basic_variables(), strings(&["timestamp", "actual_q", "actual_TCP_pose"]));
}

fn changed(a: &[f64; 6], b: &[f64; 6]) -> bool {
    a.iter().zip(b.iter()).any(|(x, y)| (x - y).abs() > 0.001)
}

#[test]
fn dynamic_gate_suppression() {
    let mut gate = MonitorGate::new(10, true, 4);
    let pose = [0.1, 0.2, 0.3, 0.0, 3.14, 0.0];
    let mut emitted = 0;
    if gate.should_output_position(1_000, true) {
        emitted += 1;
    }
    if gate.should_output_position(1_200, changed(&pose, &pose)) {
        emitted += 1;
    }
    let mut moved = pose;
    moved[0] += 0.0005;
    if gate.should_output_position(1_400, changed(&pose, &moved)) {
        emitted += 1;
    }
    assert_eq!(emitted, 1);
}

#[test]
fn pose_gate_rate_limit() {
    let mut gate = MonitorGate::new(10, false, 4);
    assert!(gate.should_output_position(0, false));
    assert!(!gate.should_output_position(99, false));
    assert!(gate.should_output_position(100, false));
    let mut dynamic = MonitorGate::new(10, true, 4);
    assert!(dynamic.should_output_position(0, false));
    assert!(dynamic.should_output_position(150, true));
}

#[test]
fn state_gate() {
    let mut gate = MonitorGate::new(10, true, 4);
    assert!(gate.should_output_robot_state(7, 1, 2));
    assert!(!gate.should_output_robot_state(7, 1, 2));
    assert!(gate.should_output_robot_state(7, 3, 2));
    let mut every = MonitorGate::new(10, false, 4);
    assert!(every.should_output_robot_state(7, 1, 2));
    assert!(every.should_output_robot_state(7, 1, 2));
}

#[test]
fn mode_names() {
    assert_eq!(get_robot_mode_name(7), "RUNNING");
    assert_eq!(get_robot_mode_name(-1), "NO_CONTROLLER");
    assert_eq!(get_robot_mode_name(42), "UNKNOWN(42)");
    assert_eq!(get_robot_mode_name(-5), "UNKNOWN(-5)");
    assert_eq!(get_robot_mode_name(i32::MIN), "UNKNOWN(-2147483648)");
    assert_eq!(get_safety_mode_name(1), "NORMAL");
    assert_eq!(get_safety_mode_name(11), "STOPPED_DUE_TO_SAFETY");
    assert_eq!(get_safety_mode_name(0), "UNKNOWN(0)");
    assert_eq!(get_runtime_state_name(2), "PLAYING");
    assert_eq!(get_runtime_state_name(6), "UNKNOWN(6)");
}

#[test]
fn configuration_defaults() {
    let empty = InterpreterConfig {
        clear_buffer_limit: None,
        execution_timeout_seconds: None,
        enable_monitoring: None,
        max_concurrent_commands: None,
        initialization_timeout_seconds: None,
    };
    assert_eq!(empty.clear_buffer_limit(), 500);
    assert_eq!(empty.execution_timeout(), 30);
    assert!(empty.monitoring_enabled());
    assert_eq!(empty.max_concurrent(), 10);
    assert_eq!(empty.initialization_timeout(), 30);
    let set = InterpreterConfig { clear_buffer_limit: Some(20), ..empty };
    assert_eq!(set.clear_buffer_limit(), 20);
    let daemon = DaemonConfig {
        robot: DaemonRobotConfig { config_path: "ur10e.yaml".to_string() },
        publishing: PublishingConfig { pub_rate_hz: 10, decimal_places: None },
        command: CommandConfig { monitor_execution: true, stream_robot_state: "dynamic".to_string() },
        interpreter: None,
    };
    assert_eq!(daemon.interpreter(), InterpreterConfig::default());
    assert_eq!(daemon.interpreter().clear_buffer_limit, Some(500));
    assert_eq!(daemon.publishing.decimal_places(), 4);
    assert!(daemon.command.dynamic_mode());
    let steady = CommandConfig { monitor_execution: false, stream_robot_state: "always".to_string() };
    assert!(!steady.dynamic_mode());
    assert_eq!(get_zenoh_config().unwrap().topic_prefix, "urd/robot");
    assert!(!ConsoleTelemetry::new().pretty_print);
    assert!(ConsoleTelemetry::pretty().pretty_print);
}

#[test]
fn events() {
    let e = command_sent(5, "movej(q)");
    assert_eq!(e.event_type, "command_status");
    assert_eq!(e.status, CommandStatus::Sent);
    assert_eq!(e.message, "Command sent to interpreter");
    assert_eq!(e.command.as_deref(), Some("movej(q)"));
    assert_eq!(command_completed(5).message, "Command execution finished");
    assert_eq!(command_failed(5, "boom").message, "boom");
    let r = command_rejected("x", "discard:");
    assert_eq!(r.command_id, 0);
    assert_eq!(r.message, "Command rejected: discard:");
    assert_eq!(safety_violation("stop").event_type, "safety_violation");
    assert_eq!(command_error(3, "bad").command_id, Some(3));
    assert_eq!(buffer_clear_requested(500).event, BufferEventType::ClearRequested);
    assert_eq!(buffer_clear_completed(500, 77).clear_id, Some(77));
}

#[test]
fn lifecycle_decisions() {
    assert!(needs_power_on("Robotmode: POWER_OFF"));
    assert!(needs_power_on("Robotmode: DISCONNECTED"));
    assert!(!needs_power_on("Robotmode: IDLE"));
    assert!(text_contains("Robotmode: RUNNING", "RUNNING"));
    assert!(text_contains("abc", ""));
    assert!(!text_contains("RUN", "RUNNING"));
    assert!(RobotState::Running.is_ready(true));
    assert!(!RobotState::Running.is_ready(false));
    assert!(!RobotState::Idle.is_ready(true));
    assert!(!RobotState::Error("Emergency halted".to_string()).cleanup_on_drop());
    assert!(RobotState::Running.cleanup_on_drop());
    assert!(overall_healthy(true, true, 0));
    assert!(!overall_healthy(true, true, -1));
    assert!(!overall_healthy(false, true, 7));
}
