//! The axis capability model: state and limit-switch enumerations, state
//! snapshots, movement tuning parameters, and the polymorphic contract that
//! every hardware axis backend must satisfy.
//!
//! Numeric values (positions, velocities, targets) travel through the gateway
//! untouched: the library carries each one as its wire token, the exact text
//! of the number as it appeared in the client's request or as the backend
//! reported it. The dispatcher never computes with them, so the token is the
//! whole value.

use vstd::prelude::*;

use crate::errors::DeviceError;

verus! {

/// A numeric value carried as its decimal wire token (e.g. `100.0`).
#[derive(Debug, Clone)]
pub struct Num {
    pub text: String,
}

impl View for Num {
    type V = Seq<char>;

    open spec fn view(&self) -> Seq<char> {
        self.text@
    }
}

impl Num {
    /// Wraps a number token.
    pub fn new(text: String) -> (r: Num)
        ensures
            r@ == text@,
    {
        Num { text }
    }

    /// The token text.
    pub fn text(&self) -> (r: &str)
        ensures
            r@ == self@,
    {
        self.text.as_str()
    }
}

/// Which limit switches of an axis are currently engaged.
/// `Clear` means neither switch is active.
#[derive(Debug, Clone, Copy, PartialEq, Eq, Structural)]
pub enum LimitSwitches {
    Clear,
    Upper,
    Lower,
    Both,
}

impl LimitSwitches {
    /// True when the upper switch is engaged (alone or together with the lower).
    pub fn has_upper(&self) -> (r: bool)
        ensures
            r == (self is Upper || self is Both),
    {
        matches!(self, LimitSwitches::Upper | LimitSwitches::Both)
    }

    /// True when the lower switch is engaged (alone or together with the upper).
    pub fn has_lower(&self) -> (r: bool)
        ensures
            r == (self is Lower || self is Both),
    {
        matches!(self, LimitSwitches::Lower | LimitSwitches::Both)
    }

    /// True when no switch is engaged.
    pub fn is_clear(&self) -> (r: bool)
        ensures
            r == (self is Clear),
    {
        matches!(self, LimitSwitches::Clear)
    }

    /// True when at least one switch is engaged.
    pub fn any_active(&self) -> (r: bool)
        ensures
            r == !(self is Clear),
    {
        !self.is_clear()
    }
}

/// The reported condition of an axis. `On`, `Alarm` and `Fault` are stable;
/// `Moving` is transient; `Unknown` stands for an unreported read.
#[derive(Debug, Clone, Copy, PartialEq, Eq, Structural)]
pub enum AxisState {
    On,
    Moving,
    Alarm,
    Fault,
    Unknown,
}

/// The state transitions an axis is allowed to make: an axis enters `Moving`
/// only from `On`, leaves `Moving` only to `On`, `Alarm` or `Fault`, and a
/// stable or unknown state can only be forced back to `On` (by a stop).
pub open spec fn axis_edge_ok(pre: AxisState, post: AxisState) -> bool {
    ||| post == pre
    ||| (pre is On && post is Moving)
    ||| (pre is Moving && (post is On || post is Alarm || post is Fault))
    ||| ((pre is Alarm || pre is Fault || pre is Unknown) && post is On)
}

/// An axis only ever becomes `Moving` from `On`. Together with `axis_edge_ok`
/// holding of every transition, this means no two `Moving` transitions happen
/// without an intervening non-moving state.
pub proof fn lemma_moving_entered_only_from_on(pre: AxisState, post: AxisState)
    requires
        axis_edge_ok(pre, post),
        post is Moving,
        post != pre,
    ensures
        pre is On,
{
}

/// A snapshot of an axis, produced fresh on every state query.
#[derive(Debug, Clone)]
pub struct AxisStateInfo {
    pub state: AxisState,
    pub message: Option<String>,
    pub limit_switches: LimitSwitches,
}

impl AxisStateInfo {
    /// A snapshot with no message and no engaged switches.
    pub fn new(state: AxisState) -> (r: AxisStateInfo)
        ensures
            r.state == state,
            r.message is None,
            r.limit_switches is Clear,
    {
        AxisStateInfo { state, message: None, limit_switches: LimitSwitches::Clear }
    }

    /// The same snapshot with a human-readable message attached.
    pub fn with_message(self, message: String) -> (r: AxisStateInfo)
        ensures
            r.state == self.state,
            r.message matches Some(m) && m@ == message@,
            r.limit_switches == self.limit_switches,
    {
        AxisStateInfo { message: Some(message), ..self }
    }

    /// The same snapshot with the given limit-switch status.
    pub fn with_limit_switches(self, limit_switches: LimitSwitches) -> (r: AxisStateInfo)
        ensures
            r.state == self.state,
            r.message == self.message,
            r.limit_switches == limit_switches,
    {
        AxisStateInfo { limit_switches, ..self }
    }

    /// True while motion is in progress.
    pub fn is_moving(&self) -> (r: bool)
        ensures
            r == (self.state is Moving),
    {
        self.state == AxisState::Moving
    }

    /// True in either fault condition.
    pub fn is_faulted(&self) -> (r: bool)
        ensures
            r == (self.state is Alarm || self.state is Fault),
    {
        matches!(self.state, AxisState::Alarm | AxisState::Fault)
    }

    /// True when the axis is on and no limit switch is engaged.
    pub fn is_ready(&self) -> (r: bool)
        ensures
            r == (self.state is On && self.limit_switches is Clear),
    {
        self.state == AxisState::On && !self.limit_switches.any_active()
    }
}

/// Optional per-move tuning. Each named value is optional; a backend decides
/// defaults. `custom` is an open list of backend-specific named values.
#[derive(Debug, Clone)]
pub struct MovementParams {
    pub velocity: Option<Num>,
    pub acceleration: Option<Num>,
    pub deceleration: Option<Num>,
    pub custom: Vec<(String, Num)>,
}

impl MovementParams {
    /// The names of the movement parameters this request actually carries.
    /// A backend must reject a move whose requested set it does not support.
    pub open spec fn spec_requested(&self) -> Set<Seq<char>> {
        Set::new(
            |n: Seq<char>|
                {
                    ||| (self.velocity is Some && n == "velocity"@)
                    ||| (self.acceleration is Some && n == "acceleration"@)
                    ||| (self.deceleration is Some && n == "deceleration"@)
                    ||| exists|i: int| 0 <= i < self.custom@.len() && #[trigger] self.custom@[i].0@ == n
                },
        )
    }

    /// An empty parameter set: the backend uses its defaults for everything.
    pub fn new() -> (r: MovementParams)
        ensures
            r.velocity is None,
            r.acceleration is None,
            r.deceleration is None,
            r.custom@.len() == 0,
    {
        MovementParams { velocity: None, acceleration: None, deceleration: None, custom: Vec::new() }
    }

    /// The same parameters with the velocity set.
    pub fn with_velocity(self, velocity: Num) -> (r: MovementParams)
        ensures
            r.velocity matches Some(v) && v@ == velocity@,
            r.acceleration == self.acceleration,
            r.deceleration == self.deceleration,
            r.custom == self.custom,
    {
        MovementParams { velocity: Some(velocity), ..self }
    }

    /// The same parameters with the acceleration set.
    pub fn with_acceleration(self, acceleration: Num) -> (r: MovementParams)
        ensures
            r.acceleration matches Some(v) && v@ == acceleration@,
            r.velocity == self.velocity,
            r.deceleration == self.deceleration,
            r.custom == self.custom,
    {
        MovementParams { acceleration: Some(acceleration), ..self }
    }

    /// The same parameters with the deceleration set.
    pub fn with_deceleration(self, deceleration: Num) -> (r: MovementParams)
        ensures
            r.deceleration matches Some(v) && v@ == deceleration@,
            r.velocity == self.velocity,
            r.acceleration == self.acceleration,
            r.custom == self.custom,
    {
        MovementParams { deceleration: Some(deceleration), ..self }
    }

    /// The same parameters with one more custom named value.
    pub fn with_custom_param(self, name: String, value: Num) -> (r: MovementParams)
        ensures
            r.velocity == self.velocity,
            r.acceleration == self.acceleration,
            r.deceleration == self.deceleration,
            r.custom@ == self.custom@.push((name, value)),
    {
        let mut p = self;
        p.custom.push((name, value));
        p
    }
}

impl Default for MovementParams {
    /// Same as `MovementParams::new`.
    fn default() -> (r: MovementParams)
        ensures
            r.velocity is None,
            r.acceleration is None,
            r.deceleration is None,
            r.custom@.len() == 0,
    {
        MovementParams::new()
    }
}

/// The contract every hardware axis backend satisfies.
///
/// The spec members describe the backend's fixed identity and capability
/// sets; motion commands may change the reported state but never the
/// capabilities, and every state change follows `axis_edge_ok`.
pub trait Axis: Sized {
    /// The axis's name.
    spec fn spec_name(&self) -> Seq<char>;

    /// The state the axis would currently report.
    spec fn spec_state(&self) -> AxisState;

    /// The attribute names the axis answers `get_attribute` for.
    spec fn spec_available_params(&self) -> Seq<Seq<char>>;

    /// The movement parameter names the axis accepts in a move.
    spec fn spec_supported_movement_params(&self) -> Seq<Seq<char>>;

    /// The axis's name.
    fn name(&self) -> (r: String)
        ensures
            r@ == self.spec_name(),
    ;

    /// Initiates motion toward `target`. Rejects the move if it requests a
    /// movement parameter the axis does not support. Capabilities are
    /// unchanged and the state moves along an allowed edge.
    fn start(&mut self, target: &Num, params: Option<&MovementParams>) -> (r: Result<
        (),
        DeviceError,
    >)
        ensures
            final(self).spec_name() == old(self).spec_name(),
            final(self).spec_available_params() == old(self).spec_available_params(),
            final(self).spec_supported_movement_params() == old(
                self,
            ).spec_supported_movement_params(),
            axis_edge_ok(old(self).spec_state(), final(self).spec_state()),
            (params matches Some(p) && exists|n: Seq<char>|
                #[trigger] p.spec_requested().contains(n) && !old(
                    self,
                ).spec_supported_movement_params().contains(n)) ==> r is Err,
            r is Err ==> final(self).spec_state() == old(self).spec_state(),
    ;

    /// Forces the axis back to `On`, whatever it was doing.
    fn stop(&mut self) -> (r: Result<(), DeviceError>)
        ensures
            final(self).spec_name() == old(self).spec_name(),
            final(self).spec_available_params() == old(self).spec_available_params(),
            final(self).spec_supported_movement_params() == old(
                self,
            ).spec_supported_movement_params(),
            axis_edge_ok(old(self).spec_state(), final(self).spec_state()),
            r is Ok ==> final(self).spec_state() is On,
    ;

    /// A fresh snapshot of the axis.
    fn get_state(&self) -> (r: Result<AxisStateInfo, DeviceError>)
        ensures
            r matches Ok(info) ==> info.state == self.spec_state(),
    ;

    /// The current value of a named attribute; fails for names outside the
    /// axis's available set.
    fn get_attribute(&self, name: &str) -> (r: Result<Num, DeviceError>)
        ensures
            !self.spec_available_params().contains(name@) ==> r is Err,
    ;

    /// The axis's position, read as the `position` attribute.
    fn get_position(&self) -> (r: Result<Num, DeviceError>)
        ensures
            !self.spec_available_params().contains("position"@) ==> r is Err,
    {
        self.get_attribute("position")
    }

    /// The attribute names this axis answers for.
    fn get_available_params(&self) -> (r: Result<Vec<String>, DeviceError>)
        ensures
            r matches Ok(v) ==> v.deep_view() == self.spec_available_params(),
    ;

    /// The movement parameter names this axis accepts.
    fn get_supported_movement_params(&self) -> (r: Result<Vec<String>, DeviceError>)
        ensures
            r matches Ok(v) ==> v.deep_view() == self.spec_supported_movement_params(),
    ;
}

} // verus!
