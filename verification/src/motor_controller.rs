//! The controller capability model: the contract a hardware backend satisfies
//! for a named aggregate of axes, and `AxisControl`, the canonical controller
//! built only from the `Axis` contract. A concrete backend may implement
//! `MotorController` directly to add its own validation or batching;
//! `AxisControl` supplies the default behavior: linear axis lookup by name,
//! stop-all shutdown propagating the first failure, and the controller-level
//! attribute double-check.

use vstd::prelude::*;

use crate::axis::{axis_edge_ok, Axis, AxisState, AxisStateInfo, MovementParams, Num};
use crate::errors::DeviceError;
use crate::strings::{contains_str, str_eq};
use vstd::string::*;

verus! {

/// The names of a sequence of axes, in order.
pub open spec fn axis_names_of<A: Axis>(axes: Seq<A>) -> Seq<Seq<char>> {
    axes.map_values(|a: A| a.spec_name())
}

/// The index of the first axis called `name`, or -1 when there is none.
/// Lookup by name always takes the first match, as a linear search does.
pub open spec fn first_axis_index<A: Axis>(axes: Seq<A>, name: Seq<char>) -> int
    decreases axes.len(),
{
    if axes.len() == 0 {
        -1
    } else if axes[0].spec_name() == name {
        0
    } else {
        let rest = first_axis_index(axes.drop_first(), name);
        if rest < 0 {
            -1
        } else {
            rest + 1
        }
    }
}

/// The attribute names of the first axis called `name`, empty when absent.
pub open spec fn seq_axis_available<A: Axis>(axes: Seq<A>, name: Seq<char>) -> Seq<Seq<char>> {
    if first_axis_index(axes, name) >= 0 {
        axes[first_axis_index(axes, name)].spec_available_params()
    } else {
        Seq::empty()
    }
}

/// The supported movement parameter names of the first axis called `name`.
pub open spec fn seq_axis_supported<A: Axis>(axes: Seq<A>, name: Seq<char>) -> Seq<Seq<char>> {
    if first_axis_index(axes, name) >= 0 {
        axes[first_axis_index(axes, name)].spec_supported_movement_params()
    } else {
        Seq::empty()
    }
}

/// The state of the first axis called `name`, `Unknown` when absent.
pub open spec fn seq_axis_state<A: Axis>(axes: Seq<A>, name: Seq<char>) -> AxisState {
    if first_axis_index(axes, name) >= 0 {
        axes[first_axis_index(axes, name)].spec_state()
    } else {
        AxisState::Unknown
    }
}

/// Two axis sequences agree on every capability the controller layer reads:
/// names, attribute sets, supported movement parameters.
pub open spec fn caps_eq<A: Axis>(x: Seq<A>, y: Seq<A>) -> bool {
    &&& x.len() == y.len()
    &&& forall|i: int|
        0 <= i < x.len() ==> {
            &&& (#[trigger] x[i]).spec_name() == y[i].spec_name()
            &&& x[i].spec_available_params() == y[i].spec_available_params()
            &&& x[i].spec_supported_movement_params() == y[i].spec_supported_movement_params()
        }
}

/// What `first_axis_index` finds: an in-range first match when the name is
/// present, -1 exactly when it is absent.
pub proof fn lemma_first_axis_index<A: Axis>(axes: Seq<A>, name: Seq<char>)
    ensures
        (first_axis_index(axes, name) >= 0) == axis_names_of(axes).contains(name),
        first_axis_index(axes, name) >= 0 ==> {
            &&& first_axis_index(axes, name) < axes.len()
            &&& axes[first_axis_index(axes, name)].spec_name() == name
            &&& forall|j: int|
                0 <= j < first_axis_index(axes, name) ==> (#[trigger] axes[j]).spec_name() != name
        },
    decreases axes.len(),
{
    if axes.len() == 0 {
        assert(axis_names_of(axes).len() == 0);
    } else if axes[0].spec_name() == name {
        assert(axis_names_of(axes)[0] == name);
        assert(axis_names_of(axes).contains(name));
    } else {
        lemma_first_axis_index(axes.drop_first(), name);
        assert(axis_names_of(axes.drop_first()) =~= axis_names_of(axes).drop_first());
        let rest = first_axis_index(axes.drop_first(), name);
        if rest >= 0 {
            assert(axes.drop_first()[rest] == axes[rest + 1]);
            assert(axis_names_of(axes).contains(name)) by {
                assert(axis_names_of(axes)[rest + 1] == name);
            }
            assert forall|j: int| 0 <= j < rest + 1 implies (#[trigger] axes[j]).spec_name()
                != name by {
                if j > 0 {
                    assert(axes.drop_first()[j - 1] == axes[j]);
                }
            }
        } else {
            if axis_names_of(axes).contains(name) {
                let w = choose|w: int|
                    0 <= w < axis_names_of(axes).len() && axis_names_of(axes)[w] == name;
                assert(axes[w].spec_name() == name);
                assert(w > 0);
                assert(axis_names_of(axes.drop_first())[w - 1] == name);
                assert(axis_names_of(axes.drop_first()).contains(name));
            }
        }
    }
}

/// If an in-range `j` names a match and nothing before it does, `j` is the
/// first match.
pub proof fn lemma_first_axis_index_of<A: Axis>(axes: Seq<A>, name: Seq<char>, j: int)
    requires
        0 <= j < axes.len(),
        axes[j].spec_name() == name,
        forall|k: int| 0 <= k < j ==> (#[trigger] axes[k]).spec_name() != name,
    ensures
        first_axis_index(axes, name) == j,
    decreases axes.len(),
{
    if j == 0 {
    } else {
        assert(axes.drop_first()[j - 1] == axes[j]);
        assert forall|k: int| 0 <= k < j - 1 implies (#[trigger] axes.drop_first()[k]).spec_name()
            != name by {
            assert(axes.drop_first()[k] == axes[k + 1]);
        }
        lemma_first_axis_index_of(axes.drop_first(), name, j - 1);
    }
}

/// Capability-equal axis sequences give the same lookup result everywhere.
pub proof fn lemma_caps_eq_index<A: Axis>(x: Seq<A>, y: Seq<A>, name: Seq<char>)
    requires
        caps_eq(x, y),
    ensures
        first_axis_index(x, name) == first_axis_index(y, name),
    decreases x.len(),
{
    if x.len() > 0 {
        assert(caps_eq(x.drop_first(), y.drop_first())) by {
            assert forall|i: int| 0 <= i < x.drop_first().len() implies {
                &&& (#[trigger] x.drop_first()[i]).spec_name() == y.drop_first()[i].spec_name()
                &&& x.drop_first()[i].spec_available_params()
                    == y.drop_first()[i].spec_available_params()
                &&& x.drop_first()[i].spec_supported_movement_params()
                    == y.drop_first()[i].spec_supported_movement_params()
            } by {
                assert(x.drop_first()[i] == x[i + 1]);
                assert(y.drop_first()[i] == y[i + 1]);
                assert(x[i + 1].spec_name() == y[i + 1].spec_name());
            }
        }
        lemma_caps_eq_index(x.drop_first(), y.drop_first(), name);
    }
}

/// Capability-equal axis sequences carry the same names and the same
/// per-axis capability views.
pub proof fn lemma_caps_eq_views<A: Axis>(x: Seq<A>, y: Seq<A>, a: Seq<char>)
    requires
        caps_eq(x, y),
    ensures
        axis_names_of(x) == axis_names_of(y),
        seq_axis_available(x, a) == seq_axis_available(y, a),
        seq_axis_supported(x, a) == seq_axis_supported(y, a),
{
    assert(axis_names_of(x) =~= axis_names_of(y));
    lemma_caps_eq_index(x, y, a);
    let idx = first_axis_index(x, a);
    if idx >= 0 {
        lemma_first_axis_index(x, a);
        assert(x[idx].spec_name() == y[idx].spec_name());
    }
}

/// If every axis's state moved along an allowed edge, so did the state that
/// any name resolves to.
pub proof fn lemma_state_edge_views<A: Axis>(x: Seq<A>, y: Seq<A>, a: Seq<char>)
    requires
        caps_eq(x, y),
        forall|k: int|
            0 <= k < x.len() ==> axis_edge_ok(x[k].spec_state(), (#[trigger] y[k]).spec_state()),
    ensures
        axis_edge_ok(seq_axis_state(x, a), seq_axis_state(y, a)),
{
    lemma_caps_eq_index(x, y, a);
    let idx = first_axis_index(x, a);
    if idx >= 0 {
        lemma_first_axis_index(x, a);
        assert(axis_edge_ok(x[idx].spec_state(), y[idx].spec_state()));
    }
}

/// Everything the trait's preservation clauses need, quantified over every
/// axis name, for a step from `x` to `y` that keeps capabilities and moves
/// each state along an allowed edge.
pub proof fn lemma_caps_eq_all_views<A: Axis>(x: Seq<A>, y: Seq<A>)
    requires
        caps_eq(x, y),
        forall|k: int|
            0 <= k < x.len() ==> axis_edge_ok(x[k].spec_state(), (#[trigger] y[k]).spec_state()),
    ensures
        axis_names_of(x) == axis_names_of(y),
        forall|a: Seq<char>| (#[trigger] seq_axis_available(y, a)) == seq_axis_available(x, a),
        forall|a: Seq<char>| (#[trigger] seq_axis_supported(y, a)) == seq_axis_supported(x, a),
        forall|a: Seq<char>| axis_edge_ok(seq_axis_state(x, a), #[trigger] seq_axis_state(y, a)),
{
    assert(axis_names_of(x) =~= axis_names_of(y));
    assert forall|a: Seq<char>| (#[trigger] seq_axis_available(y, a)) == seq_axis_available(
        x,
        a,
    ) by {
        lemma_caps_eq_views(x, y, a);
    }
    assert forall|a: Seq<char>| (#[trigger] seq_axis_supported(y, a)) == seq_axis_supported(
        x,
        a,
    ) by {
        lemma_caps_eq_views(x, y, a);
    }
    assert forall|a: Seq<char>| axis_edge_ok(
        seq_axis_state(x, a),
        #[trigger] seq_axis_state(y, a),
    ) by {
        lemma_state_edge_views(x, y, a);
    }
}

/// The message for a lookup of an axis the controller does not have.
pub open spec fn axis_not_found_msg(axis: Seq<char>, controller: Seq<char>) -> Seq<char> {
    "Axis not found: "@ + axis + " in controller "@ + controller
}

/// The contract every controller backend satisfies.
///
/// The spec members give the backend's identity, its axis list and each
/// axis's capability sets and reported state. Motion commands may change
/// states, only along `axis_edge_ok` edges, and never change capabilities.
pub trait MotorController: Sized {
    /// The controller's registered display name.
    spec fn spec_name(&self) -> Seq<char>;

    /// The names of the axes this controller owns, in order.
    spec fn spec_axis_names(&self) -> Seq<Seq<char>>;

    /// The attribute names the controller allows on the named axis
    /// (empty for an unknown axis).
    spec fn spec_axis_available(&self, axis: Seq<char>) -> Seq<Seq<char>>;

    /// The movement parameter names the named axis accepts.
    spec fn spec_axis_supported_movement(&self, axis: Seq<char>) -> Seq<Seq<char>>;

    /// The state the named axis would currently report.
    spec fn spec_axis_state(&self, axis: Seq<char>) -> AxisState;

    /// The controller's name.
    fn name(&self) -> (r: String)
        ensures
            r@ == self.spec_name(),
    ;

    /// The names of the controller's axes.
    fn axis_names(&self) -> (r: Vec<String>)
        ensures
            r.deep_view() == self.spec_axis_names(),
    ;

    /// Starts motion on the named axis. Fails for an unknown axis and for a
    /// move that requests a movement parameter the axis does not support.
    fn start(&mut self, axis: &str, target: &Num, params: Option<&MovementParams>) -> (r: Result<
        (),
        DeviceError,
    >)
        ensures
            final(self).spec_name() == old(self).spec_name(),
            final(self).spec_axis_names() == old(self).spec_axis_names(),
            forall|a: Seq<char>|
                (#[trigger] final(self).spec_axis_available(a)) == old(self).spec_axis_available(a),
            forall|a: Seq<char>|
                (#[trigger] final(self).spec_axis_supported_movement(a)) == old(
                    self,
                ).spec_axis_supported_movement(a),
            forall|a: Seq<char>|
                axis_edge_ok(
                    old(self).spec_axis_state(a),
                    #[trigger] final(self).spec_axis_state(a),
                ),
            !old(self).spec_axis_names().contains(axis@) ==> r is Err,
            (params matches Some(p) && exists|n: Seq<char>|
                #[trigger] p.spec_requested().contains(n) && !old(
                    self,
                ).spec_axis_supported_movement(axis@).contains(n)) ==> r is Err,
    ;

    /// Stops the named axis, forcing it back to `On`.
    fn stop(&mut self, axis: &str) -> (r: Result<(), DeviceError>)
        ensures
            final(self).spec_name() == old(self).spec_name(),
            final(self).spec_axis_names() == old(self).spec_axis_names(),
            forall|a: Seq<char>|
                (#[trigger] final(self).spec_axis_available(a)) == old(self).spec_axis_available(a),
            forall|a: Seq<char>|
                (#[trigger] final(self).spec_axis_supported_movement(a)) == old(
                    self,
                ).spec_axis_supported_movement(a),
            forall|a: Seq<char>|
                axis_edge_ok(
                    old(self).spec_axis_state(a),
                    #[trigger] final(self).spec_axis_state(a),
                ),
            !old(self).spec_axis_names().contains(axis@) ==> r is Err,
            r is Ok ==> final(self).spec_axis_state(axis@) is On,
    ;

    /// A fresh state snapshot of the named axis.
    fn state(&self, axis: &str) -> (r: Result<AxisStateInfo, DeviceError>)
        ensures
            !self.spec_axis_names().contains(axis@) ==> r is Err,
            r matches Ok(info) ==> info.state == self.spec_axis_state(axis@),
    ;

    /// Reads a named attribute of the named axis; fails for an unknown axis
    /// and for an attribute outside the controller's allowed set.
    fn get_attribute(&self, axis: &str, attribute: &str) -> (r: Result<Num, DeviceError>)
        ensures
            !self.spec_axis_names().contains(axis@) ==> r is Err,
            !self.spec_axis_available(axis@).contains(attribute@) ==> r is Err,
    ;

    /// Reads the named axis's position directly from the axis, without the
    /// controller-level attribute check.
    fn position(&self, axis: &str) -> (r: Result<Num, DeviceError>)
        ensures
            !self.spec_axis_names().contains(axis@) ==> r is Err,
    ;

    /// The attribute names the controller allows on the named axis.
    fn get_available_attributes(&self, axis: &str) -> (r: Result<Vec<String>, DeviceError>)
        ensures
            !self.spec_axis_names().contains(axis@) ==> r is Err,
            r matches Ok(v) ==> v.deep_view() == self.spec_axis_available(axis@),
    ;

    /// The movement parameter names the named axis accepts.
    fn get_supported_movement_params(&self, axis: &str) -> (r: Result<Vec<String>, DeviceError>)
        ensures
            !self.spec_axis_names().contains(axis@) ==> r is Err,
            r matches Ok(v) ==> v.deep_view() == self.spec_axis_supported_movement(axis@),
    ;

    /// Releases the backend: stops every axis, propagating the first failure.
    fn shutdown(&mut self) -> (r: Result<(), DeviceError>)
        ensures
            final(self).spec_name() == old(self).spec_name(),
            final(self).spec_axis_names() == old(self).spec_axis_names(),
            forall|a: Seq<char>|
                (#[trigger] final(self).spec_axis_available(a)) == old(self).spec_axis_available(a),
            forall|a: Seq<char>|
                (#[trigger] final(self).spec_axis_supported_movement(a)) == old(
                    self,
                ).spec_axis_supported_movement(a),
            forall|a: Seq<char>|
                axis_edge_ok(
                    old(self).spec_axis_state(a),
                    #[trigger] final(self).spec_axis_state(a),
                ),
    ;
}

/// A controller assembled from owned axes, with the default behavior built
/// only from the `Axis` contract.
pub struct AxisControl<A> {
    pub name: String,
    pub axes: Vec<A>,
}

impl<A: Axis> AxisControl<A> {
    /// A controller named `name` owning `axes`.
    pub fn new(name: String, axes: Vec<A>) -> (r: AxisControl<A>)
        ensures
            r.name@ == name@,
            r.axes@ == axes@,
    {
        AxisControl { name, axes }
    }

    /// Finds the first axis with the given name, or reports "axis not found".
    pub fn get_axis_index(&self, axis: &str) -> (r: Result<usize, DeviceError>)
        ensures
            r matches Ok(i) ==> i < self.axes@.len() && i == first_axis_index(self.axes@, axis@),
            (r is Err) == !axis_names_of(self.axes@).contains(axis@),
            r matches Err(e) ==> e.message@ == axis_not_found_msg(axis@, self.name@),
    {
        let n = self.axes.len();
        let mut i: usize = 0;
        while i < n
            invariant
                n == self.axes@.len(),
                i <= n,
                forall|k: int| 0 <= k < i ==> (#[trigger] self.axes@[k]).spec_name() != axis@,
            decreases n - i,
        {
            let nm = self.axes[i].name();
            if str_eq(nm.as_str(), axis) {
                proof {
                    lemma_first_axis_index_of(self.axes@, axis@, i as int);
                    assert(axis_names_of(self.axes@)[i as int] == axis@);
                    assert(axis_names_of(self.axes@).contains(axis@));
                }
                return Ok(i);
            }
            i += 1;
        }
        proof {
            if axis_names_of(self.axes@).contains(axis@) {
                let w = choose|w: int|
                    0 <= w < axis_names_of(self.axes@).len() && axis_names_of(self.axes@)[w]
                        == axis@;
                assert(self.axes@[w].spec_name() == axis@);
            }
        }
        Err(
            DeviceError::new(
                String::from_str("Axis not found: ").concat(axis).concat(
                    " in controller ",
                ).concat(self.name.as_str()),
            ),
        )
    }
}

impl<A: Axis> MotorController for AxisControl<A> {
    open spec fn spec_name(&self) -> Seq<char> {
        self.name@
    }

    open spec fn spec_axis_names(&self) -> Seq<Seq<char>> {
        axis_names_of(self.axes@)
    }

    open spec fn spec_axis_available(&self, axis: Seq<char>) -> Seq<Seq<char>> {
        seq_axis_available(self.axes@, axis)
    }

    open spec fn spec_axis_supported_movement(&self, axis: Seq<char>) -> Seq<Seq<char>> {
        seq_axis_supported(self.axes@, axis)
    }

    open spec fn spec_axis_state(&self, axis: Seq<char>) -> AxisState {
        seq_axis_state(self.axes@, axis)
    }

    fn name(&self) -> (r: String) {
        self.name.clone()
    }

    fn axis_names(&self) -> (r: Vec<String>) {
        let n = self.axes.len();
        let mut out: Vec<String> = Vec::new();
        let mut i: usize = 0;
        while i < n
            invariant
                n == self.axes@.len(),
                i <= n,
                out@.len() == i,
                forall|k: int| 0 <= k < i ==> (#[trigger] out@[k])@ == self.axes@[k].spec_name(),
            decreases n - i,
        {
            out.push(self.axes[i].name());
            i += 1;
        }
        proof {
            assert forall|k: int| 0 <= k < out@.len() implies #[trigger] out.deep_view()[k]
                == axis_names_of(self.axes@)[k] by {
                assert(out.deep_view()[k] == out@[k]@);
            }
            assert(out.deep_view() =~= axis_names_of(self.axes@));
        }
        out
    }

    fn start(&mut self, axis: &str, target: &Num, params: Option<&MovementParams>) -> (r: Result<
        (),
        DeviceError,
    >) {
        let i = match self.get_axis_index(axis) {
            Ok(i) => i,
            Err(e) => {
                return Err(e);
            },
        };
        proof {
            lemma_first_axis_index(self.axes@, axis@);
        }
        let r = self.axes[i].start(target, params);
        proof {
            assert(caps_eq(old(self).axes@, self.axes@));
            assert forall|k: int| 0 <= k < old(self).axes@.len() implies axis_edge_ok(
                old(self).axes@[k].spec_state(),
                (#[trigger] self.axes@[k]).spec_state(),
            ) by {
                if k != i as int {
                    assert(self.axes@[k] == old(self).axes@[k]);
                }
            }
            lemma_caps_eq_all_views(old(self).axes@, self.axes@);
            lemma_caps_eq_views(old(self).axes@, self.axes@, axis@);
        }
        r
    }

    fn stop(&mut self, axis: &str) -> (r: Result<(), DeviceError>) {
        let i = match self.get_axis_index(axis) {
            Ok(i) => i,
            Err(e) => {
                return Err(e);
            },
        };
        proof {
            lemma_first_axis_index(self.axes@, axis@);
        }
        let r = self.axes[i].stop();
        proof {
            assert(caps_eq(old(self).axes@, self.axes@));
            assert forall|k: int| 0 <= k < old(self).axes@.len() implies axis_edge_ok(
                old(self).axes@[k].spec_state(),
                (#[trigger] self.axes@[k]).spec_state(),
            ) by {
                if k != i as int {
                    assert(self.axes@[k] == old(self).axes@[k]);
                }
            }
            lemma_caps_eq_all_views(old(self).axes@, self.axes@);
            lemma_caps_eq_views(old(self).axes@, self.axes@, axis@);
            lemma_caps_eq_index(old(self).axes@, self.axes@, axis@);
        }
        r
    }

    fn state(&self, axis: &str) -> (r: Result<AxisStateInfo, DeviceError>) {
        let i = match self.get_axis_index(axis) {
            Ok(i) => i,
            Err(e) => {
                return Err(e);
            },
        };
        proof {
            lemma_first_axis_index(self.axes@, axis@);
        }
        self.axes[i].get_state()
    }

    fn get_attribute(&self, axis: &str, attribute: &str) -> (r: Result<Num, DeviceError>) {
        let available = match self.get_available_attributes(axis) {
            Ok(v) => v,
            Err(e) => {
                proof {
                    lemma_first_axis_index(self.axes@, axis@);
                }
                return Err(e);
            },
        };
        if !contains_str(&available, attribute) {
            return Err(
                DeviceError::new(String::from_str("Attribute not supported: ").concat(attribute)),
            );
        }
        let i = match self.get_axis_index(axis) {
            Ok(i) => i,
            Err(e) => {
                return Err(e);
            },
        };
        proof {
            lemma_first_axis_index(self.axes@, axis@);
        }
        self.axes[i].get_attribute(attribute)
    }

    fn position(&self, axis: &str) -> (r: Result<Num, DeviceError>) {
        let i = match self.get_axis_index(axis) {
            Ok(i) => i,
            Err(e) => {
                proof {
                    lemma_first_axis_index(self.axes@, axis@);
                }
                return Err(e);
            },
        };
        proof {
            lemma_first_axis_index(self.axes@, axis@);
        }
        self.axes[i].get_position()
    }

    fn get_available_attributes(&self, axis: &str) -> (r: Result<Vec<String>, DeviceError>) {
        let i = match self.get_axis_index(axis) {
            Ok(i) => i,
            Err(e) => {
                return Err(e);
            },
        };
        proof {
            lemma_first_axis_index(self.axes@, axis@);
        }
        self.axes[i].get_available_params()
    }

    fn get_supported_movement_params(&self, axis: &str) -> (r: Result<Vec<String>, DeviceError>) {
        let i = match self.get_axis_index(axis) {
            Ok(i) => i,
            Err(e) => {
                return Err(e);
            },
        };
        proof {
            lemma_first_axis_index(self.axes@, axis@);
        }
        self.axes[i].get_supported_movement_params()
    }

    fn shutdown(&mut self) -> (r: Result<(), DeviceError>) {
        let n = self.axes.len();
        let mut i: usize = 0;
        while i < n
            invariant
                n == self.axes@.len(),
                i <= n,
                self.name == old(self).name,
                caps_eq(old(self).axes@, self.axes@),
                forall|k: int| i <= k < n ==> (#[trigger] self.axes@[k]) == old(self).axes@[k],
                forall|k: int|
                    0 <= k < self.axes@.len() ==> axis_edge_ok(
                        old(self).axes@[k].spec_state(),
                        (#[trigger] self.axes@[k]).spec_state(),
                    ),
            decreases n - i,
        {
            let ghost pre = self.axes@;
            let r = self.axes[i].stop();
            proof {
                assert forall|k: int| 0 <= k < self.axes@.len() implies axis_edge_ok(
                    old(self).axes@[k].spec_state(),
                    (#[trigger] self.axes@[k]).spec_state(),
                ) by {
                    if k != i as int {
                        assert(self.axes@[k] == pre[k]);
                    } else {
                        assert(pre[k] == old(self).axes@[k]);
                        assert(axis_edge_ok(pre[k].spec_state(), self.axes@[k].spec_state()));
                    }
                }
            }
            if let Err(e) = r {
                proof {
                    lemma_caps_eq_all_views(old(self).axes@, self.axes@);
                }
                return Err(e);
            }
            i += 1;
        }
        proof {
            lemma_caps_eq_all_views(old(self).axes@, self.axes@);
        }
        Ok(())
    }
}

} // verus!
