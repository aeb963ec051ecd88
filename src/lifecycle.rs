//! Connection lifecycle decisions: robot states, dashboard replies, health.
use vstd::prelude::*;

verus! {

/// Port of the primary interface.
pub const UR_PRIMARY_PORT: u16 = 30001;

/// Port of the dashboard server.
pub const UR_DASHBOARD_PORT: u16 = 29999;

#[derive(Debug, Clone, PartialEq, Eq)]
pub enum RobotState {
    Disconnected,
    PowerOff,
    Idle,
    Running,
    Error(String),
}

/// `needle` occurs in `hay`.
pub open spec fn occurs(hay: Seq<char>, needle: Seq<char>) -> bool {
    exists|i: int| 0 <= i && i + needle.len() <= hay.len() && #[trigger] hay.subrange(i, i + needle.len()) == needle
}

/// Whether `needle` occurs in `hay`.
pub fn text_contains(hay: &str, needle: &str) -> (r: bool)
    ensures
        r == occurs(hay@, needle@),
{
    let n = hay.unicode_len();
    let m = needle.unicode_len();
    if m > n {
        proof {
            assert forall|i: int| 0 <= i && i + needle@.len() <= hay@.len() implies #[trigger] hay@.subrange(i, i + needle@.len()) != needle@ by {}
        }
        return false;
    }
    let mut i: usize = 0;
    while i <= n - m
        invariant
            n == hay@.len(),
            m == needle@.len(),
            m <= n,
            i <= n - m + 1,
            forall|k: int| 0 <= k < i ==> #[trigger] hay@.subrange(k, k + m) != needle@,
        decreases n - m + 1 - i,
    {
        let mut j: usize = 0;
        let mut same = true;
        while j < m
            invariant
                n == hay@.len(),
                m == needle@.len(),
                i + m <= n,
                j <= m,
                same <==> forall|t: int| 0 <= t < j ==> hay@[i + t] == needle@[t],
            decreases m - j,
        {
            if hay.get_char(i + j) != needle.get_char(j) {
                same = false;
            }
            j = j + 1;
        }
        if same {
            proof {
                assert(hay@.subrange(i as int, i + m) =~= needle@);
            }
            return true;
        }
        proof {
            let t = choose|t: int| 0 <= t < m && hay@[i + t] != needle@[t];
            assert(hay@.subrange(i as int, i + m)[t] == hay@[i + t]);
        }
        i = i + 1;
    }
    false
}

/// The dashboard reports the arm off: it must be powered on.
pub fn needs_power_on(robot_mode_reply: &str) -> (r: bool)
    ensures
        r == (occurs(robot_mode_reply@, "POWER_OFF"@) || occurs(robot_mode_reply@, "DISCONNECTED"@)),
{
    text_contains(robot_mode_reply, "POWER_OFF") || text_contains(robot_mode_reply, "DISCONNECTED")
}

impl RobotState {
    /// Ready for commands: running, with an interpreter connection.
    pub fn is_ready(&self, interpreter_connected: bool) -> (r: bool)
        ensures
            r == (*self == RobotState::Running && interpreter_connected),
    {
        match self {
            RobotState::Running => interpreter_connected,
            _ => false,
        }
    }

    /// On teardown the interpreter is stopped and cleared, unless an
    /// emergency halt left it unresponsive.
    pub fn cleanup_on_drop(&self) -> (r: bool)
        ensures
            r == !(self is Error),
    {
        match self {
            RobotState::Error(_) => false,
            _ => true,
        }
    }
}

/// Overall health: interpreter and primary connected, and a robot mode known.
pub fn overall_healthy(interpreter: bool, primary: bool, robot_mode: i32) -> (r: bool)
    ensures
        r == (interpreter && primary && robot_mode >= 0),
{
    interpreter && primary && robot_mode >= 0
}

} // verus!
