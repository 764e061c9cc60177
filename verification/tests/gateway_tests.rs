use motarem::axis::{Axis, AxisState, AxisStateInfo, LimitSwitches, MovementParams, Num};
use motarem::manager::{Command, ControllerManager, ManagerConfig};
use motarem::motor_controller::{AxisControl, MotorController};
use motarem::protocol::serialize_response;
use motarem::session::{process_command, ActiveConnections};
use motarem::sim::SimAxis;

fn sim_controller(name: &str) -> AxisControl<SimAxis> {
    AxisControl::new(
        name.to_string(),
        vec![
            SimAxis::new("X".to_string(), true),
            SimAxis::new("Y".to_string(), true),
            SimAxis::new("Z".to_string(), false),
        ],
    )
}

fn make_manager() -> ControllerManager<AxisControl<SimAxis>> {
    let mut manager = ControllerManager::new(ManagerConfig { default_ttl: 5, cache_capacity: 1000 });
    manager.register_controller("c1".to_string(), sim_controller("c1"));
    manager
}

fn roundtrip(manager: &mut ControllerManager<AxisControl<SimAxis>>, line: &str) -> String {
    let response = process_command(line, manager);
    serialize_response(&response).unwrap()
}

#[test]
fn scenario_move_acknowledges_target() {
    let mut manager = make_manager();
    let out = roundtrip(
        &mut manager,
        "{\"type\":\"move\",\"controller\":\"c1\",\"axis\":\"X\",\"target\":100.0,\"id\":\"1\"}",
    );
    assert_eq!(
        out,
        "{\"status\":\"success\",\"id\":\"1\",\"data\":{\"status\":\"ok\",\"action\":\"move\",\"target\":100.0}}"
    );
}

#[test]
fn scenario_unsupported_acceleration_is_rejected() {
    let mut manager = make_manager();
    let out = roundtrip(
        &mut manager,
        "{\"type\":\"move\",\"controller\":\"c1\",\"axis\":\"Z\",\"target\":10.0,\"params\":{\"acceleration\":500.0},\"id\":\"2\"}",
    );
    assert_eq!(
        out,
        "{\"status\":\"error\",\"id\":\"2\",\"message\":\"Axis Z does not support acceleration parameter\"}"
    );
}

#[test]
fn scenario_unknown_attribute_is_rejected() {
    let mut manager = make_manager();
    let out = roundtrip(
        &mut manager,
        "{\"type\":\"get_attribute\",\"controller\":\"c1\",\"axis\":\"X\",\"attribute\":\"bogus\",\"id\":\"3\"}",
    );
    assert_eq!(
        out,
        "{\"status\":\"error\",\"id\":\"3\",\"message\":\"Attribute not supported: bogus\"}"
    );
}

#[test]
fn scenario_ping_answers_pong_with_timestamp() {
    let mut manager = make_manager();
    let out = roundtrip(&mut manager, "{\"type\":\"ping\",\"id\":\"p1\"}");
    assert!(out.starts_with(
        "{\"status\":\"success\",\"id\":\"p1\",\"data\":{\"message\":\"pong\",\"timestamp\":\""
    ));
    assert!(out.contains("pong"));
    assert!(out.contains("timestamp"));
}

#[test]
fn scenario_list_axes_of_unknown_controller_fails() {
    let mut manager = make_manager();
    let out = roundtrip(&mut manager, "{\"type\":\"list_axes\",\"controller\":\"unknown\"}");
    assert_eq!(out, "{\"status\":\"error\",\"message\":\"Controller not found: unknown\"}");
}

#[test]
fn list_axes_names_all_axes() {
    let mut manager = make_manager();
    let out = roundtrip(&mut manager, "{\"type\":\"list_axes\",\"controller\":\"c1\"}");
    assert_eq!(
        out,
        "{\"status\":\"success\",\"data\":{\"controller\":\"c1\",\"axes\":[\"X\",\"Y\",\"Z\"]}}"
    );
}

#[test]
fn list_controllers_names_registered_controllers() {
    let mut manager = make_manager();
    manager.register_controller("c2".to_string(), sim_controller("c2"));
    let out = roundtrip(&mut manager, "{\"type\":\"list_controllers\"}");
    assert_eq!(out, "{\"status\":\"success\",\"data\":{\"controllers\":[\"c1\",\"c2\"]}}");
}

#[test]
fn get_position_reads_and_caches() {
    let mut manager = make_manager();
    let first = roundtrip(
        &mut manager,
        "{\"type\":\"get_position\",\"controller\":\"c1\",\"axis\":\"X\"}",
    );
    assert_eq!(
        first,
        "{\"status\":\"success\",\"data\":{\"controller\":\"c1\",\"axis\":\"X\",\"position\":0.0}}"
    );
    // a second read is served from the cache and must not change the answer
    let second = roundtrip(
        &mut manager,
        "{\"type\":\"get_position\",\"controller\":\"c1\",\"axis\":\"X\"}",
    );
    assert_eq!(first, second);
}

#[test]
fn move_invalidates_cached_position() {
    let mut manager = make_manager();
    // warm the cache with the starting position
    let before = roundtrip(
        &mut manager,
        "{\"type\":\"get_position\",\"controller\":\"c1\",\"axis\":\"X\"}",
    );
    assert!(before.contains("\"position\":0.0"));
    // a successful move invalidates the pair's position entry
    let ack = roundtrip(
        &mut manager,
        "{\"type\":\"move\",\"controller\":\"c1\",\"axis\":\"X\",\"target\":100.0}",
    );
    assert!(ack.contains("\"status\":\"success\""));
    // the very next read must see the new position, never the stale entry
    let after = roundtrip(
        &mut manager,
        "{\"type\":\"get_position\",\"controller\":\"c1\",\"axis\":\"X\"}",
    );
    assert!(after.contains("\"position\":100.0"));
    assert!(!after.contains("\"position\":0.0"));
}

#[test]
fn capability_queries_are_idempotent() {
    let mut manager = make_manager();
    let a1 = roundtrip(
        &mut manager,
        "{\"type\":\"get_available_params\",\"controller\":\"c1\",\"axis\":\"X\"}",
    );
    let a2 = roundtrip(
        &mut manager,
        "{\"type\":\"get_available_params\",\"controller\":\"c1\",\"axis\":\"X\"}",
    );
    assert_eq!(a1, a2);
    assert!(a1.contains("\"available_params\":[\"velocity\",\"max_position\",\"min_position\",\"position\",\"supports_acceleration\",\"acceleration\"]"));
    let s1 = roundtrip(
        &mut manager,
        "{\"type\":\"get_supported_movement_params\",\"controller\":\"c1\",\"axis\":\"Z\"}",
    );
    let s2 = roundtrip(
        &mut manager,
        "{\"type\":\"get_supported_movement_params\",\"controller\":\"c1\",\"axis\":\"Z\"}",
    );
    assert_eq!(s1, s2);
    assert!(s1.contains("\"supported_movement_params\":[\"velocity\"]"));
}

#[test]
fn get_state_reports_snapshot() {
    let mut manager = make_manager();
    let out = roundtrip(
        &mut manager,
        "{\"type\":\"get_state\",\"controller\":\"c1\",\"axis\":\"Y\"}",
    );
    assert_eq!(
        out,
        "{\"status\":\"success\",\"data\":{\"controller\":\"c1\",\"axis\":\"Y\",\"status\":{\"state\":\"On\",\"message\":null,\"limit_switches\":\"None\"}}}"
    );
}

#[test]
fn stop_acknowledges() {
    let mut manager = make_manager();
    let out = roundtrip(
        &mut manager,
        "{\"type\":\"stop\",\"controller\":\"c1\",\"axis\":\"X\",\"id\":\"s\"}",
    );
    assert_eq!(
        out,
        "{\"status\":\"success\",\"id\":\"s\",\"data\":{\"status\":\"ok\",\"action\":\"stop\"}}"
    );
}

#[test]
fn malformed_line_gets_error_without_id() {
    let mut manager = make_manager();
    let out = roundtrip(&mut manager, "{{{");
    assert!(out.starts_with("{\"status\":\"error\",\"message\":\"Failed to parse command: Invalid JSON: "));
    assert!(!out.contains("\"id\""));
}

#[test]
fn commands_complete_in_submission_order() {
    let mut manager = make_manager();
    manager.register_controller("c2".to_string(), sim_controller("c2"));
    let cmds = vec![
        Command::Move {
            controller: "c1".to_string(),
            axis: "X".to_string(),
            target: Num::new("50.0".to_string()),
            params: None,
        },
        Command::Move {
            controller: "c2".to_string(),
            axis: "X".to_string(),
            target: Num::new("60.0".to_string()),
            params: None,
        },
        Command::GetPos { controller: "c1".to_string(), axis: "X".to_string() },
    ];
    let rs = manager.dispatch_all(cmds);
    assert_eq!(rs.len(), 3);
    assert_eq!(
        rs[0].as_ref().unwrap().as_str(),
        "{\"status\":\"ok\",\"action\":\"move\",\"target\":50.0}"
    );
    assert_eq!(
        rs[1].as_ref().unwrap().as_str(),
        "{\"status\":\"ok\",\"action\":\"move\",\"target\":60.0}"
    );
    // the read issued after the first move observes that move's effect
    assert!(rs[2].as_ref().unwrap().contains("\"position\":50.0"));
}

#[test]
fn unregister_is_noop_for_unknown_and_removes_known() {
    let mut manager = make_manager();
    assert!(manager.unregister_controller("ghost").is_ok());
    assert!(manager.unregister_controller("c1").is_ok());
    let out = roundtrip(&mut manager, "{\"type\":\"list_controllers\"}");
    assert_eq!(out, "{\"status\":\"success\",\"data\":{\"controllers\":[]}}");
}

#[test]
fn admission_control_enforces_ceiling() {
    let mut gauge = ActiveConnections::new(2);
    assert!(gauge.try_admit());
    assert!(gauge.try_admit());
    // at the ceiling, a new connection attempt is refused
    assert!(!gauge.try_admit());
    // after one connection closes, a new one is accepted
    gauge.release();
    assert!(gauge.try_admit());
}

#[test]
fn limit_switches_queries() {
    assert!(LimitSwitches::Upper.has_upper());
    assert!(LimitSwitches::Both.has_upper());
    assert!(LimitSwitches::Both.has_lower());
    assert!(!LimitSwitches::Lower.has_upper());
    assert!(LimitSwitches::Clear.is_clear());
    assert!(!LimitSwitches::Clear.any_active());
    assert!(LimitSwitches::Lower.any_active());
}

#[test]
fn axis_state_info_queries() {
    let info = AxisStateInfo::new(AxisState::Moving);
    assert!(info.is_moving());
    assert!(!info.is_faulted());
    assert!(!info.is_ready());
    let ready = AxisStateInfo::new(AxisState::On);
    assert!(ready.is_ready());
    let blocked = AxisStateInfo::new(AxisState::On).with_limit_switches(LimitSwitches::Upper);
    assert!(!blocked.is_ready());
    let faulted = AxisStateInfo::new(AxisState::Alarm).with_message("overheat".to_string());
    assert!(faulted.is_faulted());
    assert_eq!(faulted.message.as_deref(), Some("overheat"));
}

#[test]
fn movement_params_builders() {
    let p = MovementParams::new()
        .with_velocity(Num::new("10.0".to_string()))
        .with_acceleration(Num::new("20.0".to_string()))
        .with_deceleration(Num::new("30.0".to_string()))
        .with_custom_param("torque".to_string(), Num::new("1.5".to_string()));
    assert_eq!(p.velocity.as_ref().unwrap().text(), "10.0");
    assert_eq!(p.acceleration.as_ref().unwrap().text(), "20.0");
    assert_eq!(p.deceleration.as_ref().unwrap().text(), "30.0");
    assert_eq!(p.custom.len(), 1);
    assert_eq!(p.custom[0].0, "torque");
    let d = MovementParams::default();
    assert!(d.velocity.is_none() && d.acceleration.is_none() && d.deceleration.is_none());
    assert!(d.custom.is_empty());
}

#[test]
fn sim_axis_models_motion() {
    let mut ax = SimAxis::new("A".to_string(), true);
    assert_eq!(ax.get_state().unwrap().state, AxisState::On);
    ax.start(&Num::new("42.0".to_string()), None).unwrap();
    assert_eq!(ax.get_state().unwrap().state, AxisState::Moving);
    ax.settle();
    assert_eq!(ax.get_state().unwrap().state, AxisState::On);
    assert_eq!(ax.get_attribute("position").unwrap().text(), "42.0");
    assert_eq!(ax.get_attribute("velocity").unwrap().text(), "100.0");
    let unknown = ax.get_attribute("bogus").unwrap_err();
    assert_eq!(unknown.message, "Unknown parameter: bogus");
}

#[test]
fn controller_reports_missing_axis_and_shuts_down() {
    let mut c = sim_controller("cx");
    let err = c.stop("W").unwrap_err();
    assert_eq!(err.message, "Axis not found: W in controller cx");
    let names = c.axis_names();
    assert_eq!(names, vec!["X", "Y", "Z"]);
    assert!(c.shutdown().is_ok());
}
