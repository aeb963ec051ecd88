//! Robot-state names, output recipes, and the gates that decide which
//! monitoring samples are published.
use vstd::prelude::*;
use crate::text::{push_signed_decimal, signed_decimal};

verus! {

/// The name of a code missing from a table: `UNKNOWN(<code>)`.
pub open spec fn unknown_name(code: i32) -> Seq<char> {
    "UNKNOWN("@ + signed_decimal(code as int) + ")"@
}

fn unknown_text(code: i32) -> (r: String)
    ensures
        r@ == unknown_name(code),
{
    let mut r = String::from_str("UNKNOWN(");
    push_signed_decimal(&mut r, code as i64);
    r.append(")");
    r
}
/// The name of a robot mode code.
pub open spec fn robot_mode_name(code: i32) -> Seq<char> {
    if code == -1 {
        "NO_CONTROLLER"@
    } else if code == 0 {
        "DISCONNECTED"@
    } else if code == 1 {
        "CONFIRM_SAFETY"@
    } else if code == 2 {
        "BOOTING"@
    } else if code == 3 {
        "POWER_OFF"@
    } else if code == 4 {
        "POWER_ON"@
    } else if code == 5 {
        "IDLE"@
    } else if code == 6 {
        "BACKDRIVE"@
    } else if code == 7 {
        "RUNNING"@
    } else if code == 8 {
        "UPDATING_FIRMWARE"@
    } else {
        unknown_name(code)
    }
}

pub fn get_robot_mode_name(code: i32) -> (r: String)
    ensures
        r@ == robot_mode_name(code),
{
    if code == -1 {
        String::from_str("NO_CONTROLLER")
    } else if code == 0 {
        String::from_str("DISCONNECTED")
    } else if code == 1 {
        String::from_str("CONFIRM_SAFETY")
    } else if code == 2 {
        String::from_str("BOOTING")
    } else if code == 3 {
        String::from_str("POWER_OFF")
    } else if code == 4 {
        String::from_str("POWER_ON")
    } else if code == 5 {
        String::from_str("IDLE")
    } else if code == 6 {
        String::from_str("BACKDRIVE")
    } else if code == 7 {
        String::from_str("RUNNING")
    } else if code == 8 {
        String::from_str("UPDATING_FIRMWARE")
    } else {
        unknown_text(code)
    }
}

/// The name of a safety mode code.
pub open spec fn safety_mode_name(code: i32) -> Seq<char> {
    if code == 1 {
        "NORMAL"@
    } else if code == 2 {
        "REDUCED"@
    } else if code == 3 {
        "PROTECTIVE_STOP"@
    } else if code == 4 {
        "RECOVERY"@
    } else if code == 5 {
        "SAFEGUARD_STOP"@
    } else if code == 6 {
        "SYSTEM_EMERGENCY_STOP"@
    } else if code == 7 {
        "ROBOT_EMERGENCY_STOP"@
    } else if code == 8 {
        "EMERGENCY_STOP"@
    } else if code == 9 {
        "VIOLATION"@
    } else if code == 10 {
        "FAULT"@
    } else if code == 11 {
        "STOPPED_DUE_TO_SAFETY"@
    } else {
        unknown_name(code)
    }
}

pub fn get_safety_mode_name(code: i32) -> (r: String)
    ensures
        r@ == safety_mode_name(code),
{
    if code == 1 {
        String::from_str("NORMAL")
    } else if code == 2 {
        String::from_str("REDUCED")
    } else if code == 3 {
        String::from_str("PROTECTIVE_STOP")
    } else if code == 4 {
        String::from_str("RECOVERY")
    } else if code == 5 {
        String::from_str("SAFEGUARD_STOP")
    } else if code == 6 {
        String::from_str("SYSTEM_EMERGENCY_STOP")
    } else if code == 7 {
        String::from_str("ROBOT_EMERGENCY_STOP")
    } else if code == 8 {
        String::from_str("EMERGENCY_STOP")
    } else if code == 9 {
        String::from_str("VIOLATION")
    } else if code == 10 {
        String::from_str("FAULT")
    } else if code == 11 {
        String::from_str("STOPPED_DUE_TO_SAFETY")
    } else {
        unknown_text(code)
    }
}

/// The name of a runtime state code.
pub open spec fn runtime_state_name(code: i32) -> Seq<char> {
    if code == 0 {
        "STOPPING"@
    } else if code == 1 {
        "STOPPED"@
    } else if code == 2 {
        "PLAYING"@
    } else if code == 3 {
        "PAUSING"@
    } else if code == 4 {
        "PAUSED"@
    } else if code == 5 {
        "RESUMING"@
    } else {
        unknown_name(code)
    }
}

pub fn get_runtime_state_name(code: i32) -> (r: String)
    ensures
        r@ == runtime_state_name(code),
{
    if code == 0 {
        String::from_str("STOPPING")
    } else if code == 1 {
        String::from_str("STOPPED")
    } else if code == 2 {
        String::from_str("PLAYING")
    } else if code == 3 {
        String::from_str("PAUSING")
    } else if code == 4 {
        String::from_str("PAUSED")
    } else if code == 5 {
        String::from_str("RESUMING")
    } else {
        unknown_text(code)
    }
}

/// The variables of the enhanced recipe, tried first.
pub fn enhanced_variables() -> (r: Vec<String>)
    ensures
        r@.len() == 6,
        r@[0]@ == "timestamp"@,
        r@[1]@ == "actual_q"@,
        r@[2]@ == "actual_TCP_pose"@,
        r@[3]@ == "robot_mode"@,
        r@[4]@ == "safety_mode"@,
        r@[5]@ == "runtime_state"@,
{
    let mut r: Vec<String> = Vec::new();
    r.push(String::from_str("timestamp"));
    r.push(String::from_str("actual_q"));
    r.push(String::from_str("actual_TCP_pose"));
    r.push(String::from_str("robot_mode"));
    r.push(String::from_str("safety_mode"));
    r.push(String::from_str("runtime_state"));
    r
}

/// The variables of the basic recipe, for controllers that refuse the enhanced one.
pub fn basic_variables() -> (r: Vec<String>)
    ensures
        r@.len() == 3,
        r@[0]@ == "timestamp"@,
        r@[1]@ == "actual_q"@,
        r@[2]@ == "actual_TCP_pose"@,
{
    let mut r: Vec<String> = Vec::new();
    r.push(String::from_str("timestamp"));
    r.push(String::from_str("actual_q"));
    r.push(String::from_str("actual_TCP_pose"));
    r
}

/// Shortest time between two pose emissions, in milliseconds.
pub open spec fn min_interval_ms(pub_rate_hz: u32) -> int {
    1000int / (pub_rate_hz as int)
}

/// Whether a pose sample is emitted: the rate limit has passed since the
/// last emission (if any), and in dynamic mode the pose changed since the
/// last emitted one (if any).
pub open spec fn pose_due(
    last_emit_ms: Option<u64>,
    has_last_pose: bool,
    pub_rate_hz: u32,
    dynamic_mode: bool,
    now_ms: u64,
    changed: bool,
) -> bool {
    &&& match last_emit_ms {
        Some(t) => now_ms >= t && now_ms - t >= min_interval_ms(pub_rate_hz),
        None => true,
    }
    &&& (dynamic_mode && has_last_pose ==> changed)
}

/// Whether a robot-state sample is emitted: always, or in dynamic mode only
/// when it differs from the last emitted one.
pub open spec fn state_due(last: Option<(i32, i32, i32)>, dynamic_mode: bool, s: (i32, i32, i32)) -> bool {
    !(dynamic_mode && last == Some(s))
}

/// The publication gate of the monitor.
#[derive(Debug, Clone)]
pub struct MonitorGate {
    pub last_position_output_ms: Option<u64>,
    pub has_last_position: bool,
    pub last_robot_state: Option<(i32, i32, i32)>,
    pub pub_rate_hz: u32,
    pub dynamic_mode: bool,
    pub decimal_places: u32,
}

impl MonitorGate {
    pub open spec fn wf(&self) -> bool {
        self.pub_rate_hz > 0
    }

    pub fn new(pub_rate_hz: u32, dynamic_mode: bool, decimal_places: u32) -> (g: MonitorGate)
        requires
            pub_rate_hz > 0,
        ensures
            g.wf(),
            g.last_position_output_ms is None,
            !g.has_last_position,
            g.last_robot_state is None,
            g.pub_rate_hz == pub_rate_hz,
            g.dynamic_mode == dynamic_mode,
            g.decimal_places == decimal_places,
    {
        MonitorGate {
            last_position_output_ms: None,
            has_last_position: false,
            last_robot_state: None,
            pub_rate_hz,
            dynamic_mode,
            decimal_places,
        }
    }

    /// Decides on a pose sample taken at `now_ms`; `changed` says whether it
    /// differs from the last emitted pose by more than the threshold. An
    /// emitted sample becomes the last one.
    pub fn should_output_position(&mut self, now_ms: u64, changed: bool) -> (emit: bool)
        requires
            old(self).wf(),
        ensures
            final(self).wf(),
            emit == pose_due(
                old(self).last_position_output_ms,
                old(self).has_last_position,
                old(self).pub_rate_hz,
                old(self).dynamic_mode,
                now_ms,
                changed,
            ),
            emit ==> final(self).last_position_output_ms == Some(now_ms) && final(self).has_last_position,
            !emit ==> final(self).last_position_output_ms == old(self).last_position_output_ms
                && final(self).has_last_position == old(self).has_last_position,
            final(self).last_robot_state == old(self).last_robot_state,
            final(self).pub_rate_hz == old(self).pub_rate_hz,
            final(self).dynamic_mode == old(self).dynamic_mode,
            final(self).decimal_places == old(self).decimal_places,
    {
        if let Some(t) = self.last_position_output_ms {
            let min_interval = 1000 / (self.pub_rate_hz as u64);
            if now_ms < t || now_ms - t < min_interval {
                return false;
            }
        }
        if self.dynamic_mode && self.has_last_position && !changed {
            return false;
        }
        self.last_position_output_ms = Some(now_ms);
        self.has_last_position = true;
        true
    }

    /// Decides on a robot-state sample; an emitted one becomes the last one.
    pub fn should_output_robot_state(&mut self, robot_mode: i32, safety_mode: i32, runtime_state: i32) -> (emit: bool)
        requires
            old(self).wf(),
        ensures
            final(self).wf(),
            emit == state_due(
                old(self).last_robot_state,
                old(self).dynamic_mode,
                (robot_mode, safety_mode, runtime_state),
            ),
            final(self).last_robot_state == if emit {
                Some((robot_mode, safety_mode, runtime_state))
            } else {
                old(self).last_robot_state
            },
            final(self).last_position_output_ms == old(self).last_position_output_ms,
            final(self).has_last_position == old(self).has_last_position,
            final(self).pub_rate_hz == old(self).pub_rate_hz,
            final(self).dynamic_mode == old(self).dynamic_mode,
            final(self).decimal_places == old(self).decimal_places,
    {
        if self.dynamic_mode {
            if let Some((m, s, r)) = self.last_robot_state {
                if m == robot_mode && s == safety_mode && r == runtime_state {
                    return false;
                }
            }
        }
        self.last_robot_state = Some((robot_mode, safety_mode, runtime_state));
        true
    }
}

} // verus!
