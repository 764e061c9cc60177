//! The command bus: the controller registry, the attribute cache, and the
//! dispatcher that executes every command of the gateway, one at a time.
//!
//! Each command kind has a post-state predicate that is the dispatcher's
//! whole contract: when a command fails and with which message, what the
//! answer's exact text is, and what the command did to the cache. The
//! dispatch loop that drains the command queue executes commands strictly in
//! arrival order, each to completion; `dispatch_all` is that drain order over
//! a batch, and the surrounding process feeds it from a FIFO channel.

use vstd::prelude::*;

use crate::axis::{axis_edge_ok, MovementParams, Num};
use crate::cache::{cache_contents, AttrCache};
use crate::errors::DeviceError;
use crate::motor_controller::MotorController;
use crate::protocol::{
    attr_response_json, available_response_json, axes_response_json, controllers_response_json,
    move_ack_json, pos_response_json, render_attr_response, render_available_response,
    render_axes_response, render_controllers_response, render_move_ack, render_pos_response,
    render_state_response, render_status_fragment, render_stop_ack, render_supported_response,
    state_name, state_name_of, state_response_json, status_fragment_json, stop_ack_json,
    supported_response_json, switches_name, switches_name_of,
};
use crate::strings::str_eq;
use crate::wire::opt_view;
use vstd::string::*;

verus! {

/// Configuration the manager consumes when it builds its cache: the default
/// time-to-live of a cache entry, in seconds, and the cache's capacity.
#[derive(Debug, Clone, Copy, PartialEq, Eq, Structural)]
pub struct ManagerConfig {
    pub default_ttl: u64,
    pub cache_capacity: u64,
}

/// One request to the command bus, as the dispatcher sees it. The response
/// destination that travels with a command on the queue is the transport's
/// affair; the dispatcher itself turns one command into one result.
#[derive(Debug, Clone)]
pub enum Command {
    Move { controller: String, axis: String, target: Num, params: Option<MovementParams> },
    Stop { controller: String, axis: String },
    GetState { controller: String, axis: String },
    GetPos { controller: String, axis: String },
    GetAttr { controller: String, axis: String, attr: String },
    GetAvailableParams { controller: String, axis: String },
    GetSupportedMovementParams { controller: String, axis: String },
    ListControllers,
    ListAxes { controller: String },
}

/// The registry's keys, in registration order.
pub open spec fn entry_keys<C: MotorController>(s: Seq<(String, C)>) -> Seq<Seq<char>> {
    s.map_values(|e: (String, C)| e.0@)
}

/// The index of the first entry under `name`, or -1 when there is none.
pub open spec fn first_entry_index<C: MotorController>(s: Seq<(String, C)>, name: Seq<char>) -> int
    decreases s.len(),
{
    if s.len() == 0 {
        -1
    } else if s[0].0@ == name {
        0
    } else {
        let rest = first_entry_index(s.drop_first(), name);
        if rest < 0 {
            -1
        } else {
            rest + 1
        }
    }
}

/// Whether some entry is registered under `name`.
pub open spec fn has_entry<C: MotorController>(s: Seq<(String, C)>, name: Seq<char>) -> bool {
    first_entry_index(s, name) >= 0
}

/// The controller registered under `name`.
pub open spec fn entry_at<C: MotorController>(s: Seq<(String, C)>, name: Seq<char>) -> C {
    s[first_entry_index(s, name)].1
}

/// No two entries share a key.
pub open spec fn keys_unique<C: MotorController>(s: Seq<(String, C)>) -> bool {
    forall|i: int, j: int|
        #![trigger s[i], s[j]]
        0 <= i < j < s.len() ==> s[i].0@ != s[j].0@
}

/// What `first_entry_index` finds.
pub proof fn lemma_first_entry_index<C: MotorController>(s: Seq<(String, C)>, name: Seq<char>)
    ensures
        (first_entry_index(s, name) >= 0) == entry_keys(s).contains(name),
        first_entry_index(s, name) >= 0 ==> {
            &&& first_entry_index(s, name) < s.len()
            &&& s[first_entry_index(s, name)].0@ == name
            &&& forall|j: int|
                0 <= j < first_entry_index(s, name) ==> (#[trigger] s[j]).0@ != name
        },
    decreases s.len(),
{
    if s.len() == 0 {
        assert(entry_keys(s).len() == 0);
    } else if s[0].0@ == name {
        assert(entry_keys(s)[0] == name);
        assert(entry_keys(s).contains(name));
    } else {
        lemma_first_entry_index(s.drop_first(), name);
        assert(entry_keys(s.drop_first()) =~= entry_keys(s).drop_first());
        let rest = first_entry_index(s.drop_first(), name);
        if rest >= 0 {
            assert(s.drop_first()[rest] == s[rest + 1]);
            assert(entry_keys(s).contains(name)) by {
                assert(entry_keys(s)[rest + 1] == name);
            }
            assert forall|j: int| 0 <= j < rest + 1 implies (#[trigger] s[j]).0@ != name by {
                if j > 0 {
                    assert(s.drop_first()[j - 1] == s[j]);
                }
            }
        } else {
            if entry_keys(s).contains(name) {
                let w = choose|w: int| 0 <= w < entry_keys(s).len() && entry_keys(s)[w] == name;
                assert(s[w].0@ == name);
                assert(w > 0);
                assert(entry_keys(s.drop_first())[w - 1] == name);
                assert(entry_keys(s.drop_first()).contains(name));
            }
        }
    }
}

/// If an in-range `j` holds the key and nothing before it does, `j` is the
/// first match.
pub proof fn lemma_first_entry_index_of<C: MotorController>(
    s: Seq<(String, C)>,
    name: Seq<char>,
    j: int,
)
    requires
        0 <= j < s.len(),
        s[j].0@ == name,
        forall|k: int| 0 <= k < j ==> (#[trigger] s[k]).0@ != name,
    ensures
        first_entry_index(s, name) == j,
    decreases s.len(),
{
    if j == 0 {
    } else {
        assert(s.drop_first()[j - 1] == s[j]);
        assert forall|k: int| 0 <= k < j - 1 implies (#[trigger] s.drop_first()[k]).0@ != name by {
            assert(s.drop_first()[k] == s[k + 1]);
        }
        lemma_first_entry_index_of(s.drop_first(), name, j - 1);
    }
}

/// Sequences with pointwise equal keys give the same lookup index everywhere.
pub proof fn lemma_keys_eq_index<C: MotorController>(
    x: Seq<(String, C)>,
    y: Seq<(String, C)>,
    name: Seq<char>,
)
    requires
        x.len() == y.len(),
        forall|i: int| 0 <= i < x.len() ==> (#[trigger] x[i]).0@ == y[i].0@,
    ensures
        first_entry_index(x, name) == first_entry_index(y, name),
    decreases x.len(),
{
    if x.len() > 0 {
        assert(x[0].0@ == y[0].0@);
        assert forall|i: int| 0 <= i < x.drop_first().len() implies (#[trigger] x.drop_first()[i]).0@
            == y.drop_first()[i].0@ by {
            assert(x.drop_first()[i] == x[i + 1]);
            assert(y.drop_first()[i] == y[i + 1]);
            assert(x[i + 1].0@ == y[i + 1].0@);
        }
        lemma_keys_eq_index(x.drop_first(), y.drop_first(), name);
    }
}

/// Removing the unique entry under one key leaves every other lookup as it
/// was and makes that key absent.
pub proof fn lemma_remove_entry<C: MotorController>(s: Seq<(String, C)>, i: int, name: Seq<char>)
    requires
        keys_unique(s),
        0 <= i < s.len(),
    ensures
        keys_unique(s.remove(i)),
        name == s[i].0@ ==> !has_entry(s.remove(i), name),
        name != s[i].0@ ==> has_entry(s.remove(i), name) == has_entry(s, name),
        name != s[i].0@ && has_entry(s, name) ==> entry_at(s.remove(i), name) == entry_at(s, name),
{
    let t = s.remove(i);
    assert(forall|k: int| 0 <= k < i ==> t[k] == s[k]);
    assert(forall|k: int| i <= k < t.len() ==> t[k] == s[k + 1]);
    assert(keys_unique(t)) by {
        assert forall|p: int, q: int|
            #![trigger t[p], t[q]]
            0 <= p < q < t.len() implies t[p].0@ != t[q].0@ by {
            let p2 = if p < i {
                p
            } else {
                p + 1
            };
            let q2 = if q < i {
                q
            } else {
                q + 1
            };
            assert(t[p] == s[p2] && t[q] == s[q2]);
            assert(s[p2].0@ != s[q2].0@);
        }
    }
    lemma_first_entry_index(s, name);
    lemma_first_entry_index(t, name);
    if name == s[i].0@ {
        if has_entry(t, name) {
            let k = first_entry_index(t, name);
            let k2 = if k < i {
                k
            } else {
                k + 1
            };
            assert(t[k] == s[k2]);
            assert(s[k2].0@ == name);
            assert(k2 != i ==> s[k2].0@ != s[i].0@);
        }
    } else {
        if has_entry(s, name) {
            let j = first_entry_index(s, name);
            assert(s[j].0@ == name);
            assert(j != i);
            let jt = if j < i {
                j
            } else {
                j - 1
            };
            assert(t[jt] == s[j]);
            assert(entry_keys(t)[jt] == name);
            assert(entry_keys(t).contains(name));
            let k = first_entry_index(t, name);
            let k2 = if k < i {
                k
            } else {
                k + 1
            };
            assert(t[k] == s[k2]);
            assert(s[k2].0@ == name);
            assert(k2 == j) by {
                if k2 != j {
                    assert(s[k2].0@ != s[j].0@);
                }
            }
        }
        if has_entry(t, name) {
            let k = first_entry_index(t, name);
            let k2 = if k < i {
                k
            } else {
                k + 1
            };
            assert(t[k] == s[k2]);
            assert(entry_keys(s)[k2] == name);
            assert(entry_keys(s).contains(name));
        }
    }
}

/// The composite key the cache files a query result under.
pub open spec fn cache_key_of(c: Seq<char>, a: Seq<char>, kind: Seq<char>) -> Seq<char> {
    c + "::"@ + a + "::"@ + kind
}

/// Builds the composite cache key.
pub fn build_cache_key(c: &str, a: &str, kind: &str) -> (r: String)
    ensures
        r@ == cache_key_of(c@, a@, kind@),
{
    c.to_owned().concat("::").concat(a).concat("::").concat(kind)
}

/// The message for a command naming an unregistered controller.
pub open spec fn controller_not_found_msg(name: Seq<char>) -> Seq<char> {
    "Controller not found: "@ + name
}

/// An optional borrowed tuning request, as an owned value.
pub open spec fn opt_deref(p: Option<&MovementParams>) -> Option<MovementParams> {
    match p {
        Some(x) => Some(*x),
        None => None,
    }
}

/// The command bus: registry, cache and configuration. All commands of the
/// process run through one value of this type, one at a time.
pub struct ControllerManager<C> {
    pub controllers: Vec<(String, C)>,
    pub cache: AttrCache,
    pub config: ManagerConfig,
}

impl<C: MotorController> ControllerManager<C> {
    /// The registry holds at most one controller per name.
    pub open spec fn wf(&self) -> bool {
        keys_unique(self.controllers@)
    }

    /// Whether a controller is registered under `name`.
    pub open spec fn spec_has(&self, name: Seq<char>) -> bool {
        has_entry(self.controllers@, name)
    }

    /// The controller registered under `name`.
    pub open spec fn spec_controller(&self, name: Seq<char>) -> C {
        entry_at(self.controllers@, name)
    }

    /// A manager with an empty registry and an empty cache. The time-to-live
    /// bound keeps the cache builder from panicking.
    pub fn new(config: ManagerConfig) -> (r: ControllerManager<C>)
        requires
            config.default_ttl <= 30_000_000_000,
        ensures
            r.wf(),
            r.controllers@.len() == 0,
            forall|k: Seq<char>| !cache_contents(r.cache).contains_key(k),
            r.config == config,
    {
        let cache = AttrCache::new(config.cache_capacity, config.default_ttl);
        ControllerManager { controllers: Vec::new(), cache, config }
    }

    /// The manager's cache.
    pub fn cache(&self) -> (r: &AttrCache)
        ensures
            *r == self.cache,
    {
        &self.cache
    }

    /// The manager's configuration.
    pub fn config(&self) -> (r: &ManagerConfig)
        ensures
            *r == self.config,
    {
        &self.config
    }

    /// The first registry index holding `name`.
    fn find(&self, name: &str) -> (r: Option<usize>)
        ensures
            r matches Some(i) ==> i < self.controllers@.len() && i == first_entry_index(
                self.controllers@,
                name@,
            ),
            (r is None) == !self.spec_has(name@),
    {
        let n = self.controllers.len();
        let mut i: usize = 0;
        while i < n
            invariant
                n == self.controllers@.len(),
                i <= n,
                forall|k: int| 0 <= k < i ==> (#[trigger] self.controllers@[k]).0@ != name@,
            decreases n - i,
        {
            if str_eq(self.controllers[i].0.as_str(), name) {
                proof {
                    lemma_first_entry_index_of(self.controllers@, name@, i as int);
                }
                return Some(i);
            }
            i += 1;
        }
        proof {
            lemma_first_entry_index(self.controllers@, name@);
            if entry_keys(self.controllers@).contains(name@) {
                let w = choose|w: int|
                    0 <= w < entry_keys(self.controllers@).len() && entry_keys(self.controllers@)[w]
                        == name@;
                assert(self.controllers@[w].0@ == name@);
            }
        }
        None
    }

    /// Registers `controller` under `name`, replacing any previous holder of
    /// the name. The cache is untouched.
    pub fn register_controller(&mut self, name: String, controller: C)
        requires
            old(self).wf(),
        ensures
            final(self).wf(),
            final(self).config == old(self).config,
            final(self).cache == old(self).cache,
            final(self).spec_has(name@),
            final(self).spec_controller(name@) == controller,
            forall|n: Seq<char>|
                n != name@ ==> (#[trigger] final(self).spec_has(n)) == old(self).spec_has(n),
            forall|n: Seq<char>|
                n != name@ && old(self).spec_has(n) ==> (#[trigger] final(self).spec_controller(n))
                    == old(self).spec_controller(n),
    {
        match self.find(name.as_str()) {
            Some(i) => {
                proof {
                    lemma_first_entry_index(self.controllers@, name@);
                }
                let slot = &mut self.controllers[i];
                *slot = (name, controller);
                proof {
                    assert forall|k: int| 0 <= k < self.controllers@.len() implies (
                    #[trigger] self.controllers@[k]).0@ == old(self).controllers@[k].0@ by {
                        if k != i as int {
                            assert(self.controllers@[k] == old(self).controllers@[k]);
                        }
                    }
                    assert(self.wf()) by {
                        assert forall|p: int, q: int|
                            #![trigger self.controllers@[p], self.controllers@[q]]
                            0 <= p < q < self.controllers@.len() implies self.controllers@[p].0@
                            != self.controllers@[q].0@ by {
                            assert(old(self).controllers@[p].0@ != old(self).controllers@[q].0@);
                        }
                    }
                    assert forall|n: Seq<char>| true implies #[trigger] first_entry_index(
                        self.controllers@,
                        n,
                    ) == first_entry_index(old(self).controllers@, n) by {
                        lemma_keys_eq_index(self.controllers@, old(self).controllers@, n);
                    }
                    assert forall|n: Seq<char>|
                        n != name@ && old(self).spec_has(n) implies (
                    #[trigger] self.spec_controller(n)) == old(self).spec_controller(n) by {
                        lemma_first_entry_index(old(self).controllers@, n);
                        assert(first_entry_index(old(self).controllers@, n) != i as int);
                    }
                }
            },
            None => {
                proof {
                    lemma_first_entry_index(self.controllers@, name@);
                }
                let ghost pre = self.controllers@;
                self.controllers.push((name, controller));
                proof {
                    assert(self.controllers@ =~= pre.push((name, controller)));
                    assert(self.wf()) by {
                        assert forall|p: int, q: int|
                            #![trigger self.controllers@[p], self.controllers@[q]]
                            0 <= p < q < self.controllers@.len() implies self.controllers@[p].0@
                            != self.controllers@[q].0@ by {
                            if q < pre.len() {
                                assert(pre[p].0@ != pre[q].0@);
                            } else {
                                assert(self.controllers@[q] == (name, controller));
                                assert(entry_keys(pre)[p] == pre[p].0@);
                                if pre[p].0@ == name@ {
                                    assert(entry_keys(pre).contains(name@));
                                }
                            }
                        }
                    }
                    lemma_first_entry_index_of(
                        self.controllers@,
                        name@,
                        pre.len() as int,
                    );
                    assert forall|n: Seq<char>| n != name@ implies (
                    #[trigger] self.spec_has(n)) == old(self).spec_has(n) by {
                        lemma_first_entry_index(pre, n);
                        lemma_first_entry_index(self.controllers@, n);
                        if has_entry(pre, n) {
                            let j = first_entry_index(pre, n);
                            assert(self.controllers@[j] == pre[j]);
                            assert(entry_keys(self.controllers@)[j] == n);
                            assert(entry_keys(self.controllers@).contains(n));
                        } else {
                            if has_entry(self.controllers@, n) {
                                let k = first_entry_index(self.controllers@, n);
                                assert(self.controllers@[k].0@ == n);
                                assert(k < pre.len()) by {
                                    if k == pre.len() {
                                        assert(self.controllers@[k] == (name, controller));
                                    }
                                }
                                assert(pre[k] == self.controllers@[k]);
                                assert(entry_keys(pre)[k] == n);
                                assert(entry_keys(pre).contains(n));
                            }
                        }
                    }
                    assert forall|n: Seq<char>|
                        n != name@ && old(self).spec_has(n) implies (
                    #[trigger] self.spec_controller(n)) == old(self).spec_controller(n) by {
                        lemma_first_entry_index(pre, n);
                        let j = first_entry_index(pre, n);
                        assert(self.controllers@[j] == pre[j]);
                        assert forall|k: int| 0 <= k < j implies (
                        #[trigger] self.controllers@[k]).0@ != n by {
                            assert(self.controllers@[k] == pre[k]);
                        }
                        lemma_first_entry_index_of(self.controllers@, n, j);
                    }
                }
            },
        }
    }

    /// Removes the controller under `name` and drives its shutdown. An
    /// unknown name is a successful no-op; a shutdown failure is reported
    /// after the entry is already gone.
    pub fn unregister_controller(&mut self, name: &str) -> (r: Result<(), DeviceError>)
        requires
            old(self).wf(),
        ensures
            final(self).wf(),
            final(self).config == old(self).config,
            final(self).cache == old(self).cache,
            !final(self).spec_has(name@),
            !old(self).spec_has(name@) ==> r is Ok && *final(self) == *old(self),
            forall|n: Seq<char>|
                n != name@ ==> (#[trigger] final(self).spec_has(n)) == old(self).spec_has(n),
    {
        match self.find(name) {
            None => Ok(()),
            Some(i) => {
                proof {
                    lemma_first_entry_index(self.controllers@, name@);
                    assert forall|n: Seq<char>| true implies {
                        &&& keys_unique(self.controllers@.remove(i as int))
                        &&& (n == name@ ==> !has_entry(self.controllers@.remove(i as int), n))
                        &&& (n != name@ ==> has_entry(self.controllers@.remove(i as int), n)
                            == has_entry(self.controllers@, n))
                    } by {
                        lemma_remove_entry(self.controllers@, i as int, n);
                    }
                }
                let entry = self.controllers.remove(i);
                let (_key, mut ctrl) = entry;
                ctrl.shutdown()
            },
        }
    }

    /// What a move command does: an unknown controller or axis or an
    /// unsupported movement parameter fails; an accepted move acknowledges
    /// the target and synchronously invalidates the pair's cached position.
    pub open spec fn move_post(
        pre: ControllerManager<C>,
        post: ControllerManager<C>,
        c: Seq<char>,
        a: Seq<char>,
        t: Seq<char>,
        params: Option<MovementParams>,
        r: Result<String, DeviceError>,
    ) -> bool {
        &&& post.wf()
        &&& post.config == pre.config
        &&& entry_keys(post.controllers@) == entry_keys(pre.controllers@)
        &&& (!pre.spec_has(c) ==> (r matches Err(e) && e.message@ == controller_not_found_msg(c))
            && post.cache == pre.cache && post.controllers == pre.controllers)
        &&& (forall|n: Seq<char>, ax: Seq<char>|
            pre.spec_has(n) ==> axis_edge_ok(
                pre.spec_controller(n).spec_axis_state(ax),
                #[trigger] post.spec_controller(n).spec_axis_state(ax),
            ))
        &&& (pre.spec_has(c) && !pre.spec_controller(c).spec_axis_names().contains(a) ==> r is Err)
        &&& (pre.spec_has(c) && (params matches Some(p) && exists|n: Seq<char>|
            #[trigger] p.spec_requested().contains(n) && !pre.spec_controller(
                c,
            ).spec_axis_supported_movement(a).contains(n)) ==> r is Err)
        &&& (r is Err ==> post.cache == pre.cache)
        &&& (r matches Ok(data) ==> {
            &&& data@ == move_ack_json(t)
            &&& !cache_contents(post.cache).contains_key(cache_key_of(c, a, "position"@))
            &&& cache_contents(post.cache).submap_of(
                cache_contents(pre.cache).remove(cache_key_of(c, a, "position"@)),
            )
        })
    }

    /// Starts a move on one axis of one controller.
    pub fn handle_move(
        &mut self,
        controller: &str,
        axis: &str,
        target: &Num,
        params: Option<&MovementParams>,
    ) -> (r: Result<String, DeviceError>)
        requires
            old(self).wf(),
        ensures
            Self::move_post(
                *old(self),
                *final(self),
                controller@,
                axis@,
                target@,
                opt_deref(params),
                r,
            ),
    {
        let i = match self.find(controller) {
            Some(i) => i,
            None => {
                return Err(
                    DeviceError::new(
                        String::from_str("Controller not found: ").concat(controller),
                    ),
                );
            },
        };
        let res = self.controllers[i].1.start(axis, target, params);
        proof {
            assert forall|k: int| 0 <= k < self.controllers@.len() implies (
            #[trigger] self.controllers@[k]).0@ == old(self).controllers@[k].0@ by {
                if k != i as int {
                    assert(self.controllers@[k] == old(self).controllers@[k]);
                }
            }
            assert(entry_keys(self.controllers@) =~= entry_keys(old(self).controllers@));
            assert(self.wf()) by {
                assert forall|p: int, q: int|
                    #![trigger self.controllers@[p], self.controllers@[q]]
                    0 <= p < q < self.controllers@.len() implies self.controllers@[p].0@
                    != self.controllers@[q].0@ by {
                    assert(old(self).controllers@[p].0@ != old(self).controllers@[q].0@);
                }
            }
        }
        let out = match res {
            Ok(()) => {
                let key = build_cache_key(controller, axis, "position");
                self.cache.invalidate(key.as_str());
                Ok(render_move_ack(target))
            },
            Err(e) => Err(e),
        };
        proof {
            assert forall|n: Seq<char>, ax: Seq<char>| old(self).spec_has(n) implies axis_edge_ok(
                old(self).spec_controller(n).spec_axis_state(ax),
                #[trigger] self.spec_controller(n).spec_axis_state(ax),
            ) by {
                lemma_keys_eq_index(old(self).controllers@, self.controllers@, n);
                lemma_first_entry_index(old(self).controllers@, n);
                let j = first_entry_index(old(self).controllers@, n);
                if j != i as int {
                    assert(self.controllers@[j] == old(self).controllers@[j]);
                }
            }
        }
        out
    }

    /// What a stop command does: like a move, it resolves the controller,
    /// and a successful stop acknowledges and invalidates the pair's cached
    /// position.
    pub open spec fn stop_post(
        pre: ControllerManager<C>,
        post: ControllerManager<C>,
        c: Seq<char>,
        a: Seq<char>,
        r: Result<String, DeviceError>,
    ) -> bool {
        &&& post.wf()
        &&& post.config == pre.config
        &&& entry_keys(post.controllers@) == entry_keys(pre.controllers@)
        &&& (!pre.spec_has(c) ==> (r matches Err(e) && e.message@ == controller_not_found_msg(c))
            && post.cache == pre.cache && post.controllers == pre.controllers)
        &&& (forall|n: Seq<char>, ax: Seq<char>|
            pre.spec_has(n) ==> axis_edge_ok(
                pre.spec_controller(n).spec_axis_state(ax),
                #[trigger] post.spec_controller(n).spec_axis_state(ax),
            ))
        &&& (pre.spec_has(c) && !pre.spec_controller(c).spec_axis_names().contains(a) ==> r is Err)
        &&& (r is Err ==> post.cache == pre.cache)
        &&& (r matches Ok(data) ==> {
            &&& data@ == stop_ack_json()
            &&& pre.spec_has(c) && post.spec_has(c) && post.spec_controller(c).spec_axis_state(a)
                is On
            &&& !cache_contents(post.cache).contains_key(cache_key_of(c, a, "position"@))
            &&& cache_contents(post.cache).submap_of(
                cache_contents(pre.cache).remove(cache_key_of(c, a, "position"@)),
            )
        })
    }

    /// Stops one axis of one controller, forcing it back to `On`.
    pub fn handle_stop(&mut self, controller: &str, axis: &str) -> (r: Result<String, DeviceError>)
        requires
            old(self).wf(),
        ensures
            Self::stop_post(*old(self), *final(self), controller@, axis@, r),
    {
        let i = match self.find(controller) {
            Some(i) => i,
            None => {
                return Err(
                    DeviceError::new(
                        String::from_str("Controller not found: ").concat(controller),
                    ),
                );
            },
        };
        let res = self.controllers[i].1.stop(axis);
        proof {
            assert forall|k: int| 0 <= k < self.controllers@.len() implies (
            #[trigger] self.controllers@[k]).0@ == old(self).controllers@[k].0@ by {
                if k != i as int {
                    assert(self.controllers@[k] == old(self).controllers@[k]);
                }
            }
            assert(entry_keys(self.controllers@) =~= entry_keys(old(self).controllers@));
            assert(self.wf()) by {
                assert forall|p: int, q: int|
                    #![trigger self.controllers@[p], self.controllers@[q]]
                    0 <= p < q < self.controllers@.len() implies self.controllers@[p].0@
                    != self.controllers@[q].0@ by {
                    assert(old(self).controllers@[p].0@ != old(self).controllers@[q].0@);
                }
            }
            lemma_keys_eq_index(old(self).controllers@, self.controllers@, controller@);
        }
        let out = match res {
            Ok(()) => {
                let key = build_cache_key(controller, axis, "position");
                self.cache.invalidate(key.as_str());
                Ok(render_stop_ack())
            },
            Err(e) => Err(e),
        };
        proof {
            assert forall|n: Seq<char>, ax: Seq<char>| old(self).spec_has(n) implies axis_edge_ok(
                old(self).spec_controller(n).spec_axis_state(ax),
                #[trigger] self.spec_controller(n).spec_axis_state(ax),
            ) by {
                lemma_keys_eq_index(old(self).controllers@, self.controllers@, n);
                lemma_first_entry_index(old(self).controllers@, n);
                let j = first_entry_index(old(self).controllers@, n);
                if j != i as int {
                    assert(self.controllers@[j] == old(self).controllers@[j]);
                }
            }
        }
        out
    }

    /// What a position query does: a live cache entry answers directly, even
    /// without the controller; otherwise the backend is read and the fresh
    /// token is filed under the pair's position key.
    pub open spec fn get_pos_post(
        pre: ControllerManager<C>,
        post: ControllerManager<C>,
        c: Seq<char>,
        a: Seq<char>,
        r: Result<String, DeviceError>,
    ) -> bool {
        let key = cache_key_of(c, a, "position"@);
        &&& post.wf()
        &&& post.config == pre.config
        &&& post.controllers == pre.controllers
        &&& (!cache_contents(pre.cache).contains_key(key) && !pre.spec_has(c) ==> (r matches Err(e)
            && e.message@ == controller_not_found_msg(c)))
        &&& (!cache_contents(pre.cache).contains_key(key) && pre.spec_has(c)
            && !pre.spec_controller(c).spec_axis_names().contains(a) ==> r is Err)
        &&& (r is Err ==> cache_contents(post.cache).submap_of(cache_contents(pre.cache)))
        &&& (r matches Ok(data) ==> exists|tok: Seq<char>|
            {
                &&& #[trigger] data@ == pos_response_json(c, a, tok)
                &&& {
                    ||| (cache_contents(pre.cache).contains_key(key) && cache_contents(pre.cache)[key]
                        == tok)
                    ||| (pre.spec_has(c) && cache_contents(post.cache).submap_of(
                        cache_contents(pre.cache).insert(key, tok),
                    ))
                }
            })
    }

    /// Answers a position query, through the cache.
    pub fn handle_get_pos(&mut self, controller: &str, axis: &str) -> (r: Result<
        String,
        DeviceError,
    >)
        requires
            old(self).wf(),
        ensures
            Self::get_pos_post(*old(self), *final(self), controller@, axis@, r),
    {
        let key = build_cache_key(controller, axis, "position");
        let hit = self.cache.get(key.as_str());
        if let Some(tok) = hit {
            return Ok(render_pos_response(controller, axis, tok.as_str()));
        }
        let i = match self.find(controller) {
            Some(i) => i,
            None => {
                return Err(
                    DeviceError::new(
                        String::from_str("Controller not found: ").concat(controller),
                    ),
                );
            },
        };
        match self.controllers[i].1.position(axis) {
            Err(e) => Err(e),
            Ok(num) => {
                let ghost mid = cache_contents(self.cache);
                self.cache.insert(key, num.text().to_owned());
                proof {
                    lemma_submap_insert(
                        mid,
                        cache_contents(old(self).cache),
                        key@,
                        num@,
                    );
                    vstd::map_lib::lemma_submap_of_trans(
                        cache_contents(self.cache),
                        mid.insert(key@, num@),
                        cache_contents(old(self).cache).insert(key@, num@),
                    );
                }
                Ok(render_pos_response(controller, axis, num.text()))
            },
        }
    }

    /// What a state query does: the same cache pattern under the pair's
    /// status key; a fresh snapshot reflects the state the backend reports.
    pub open spec fn get_state_post(
        pre: ControllerManager<C>,
        post: ControllerManager<C>,
        c: Seq<char>,
        a: Seq<char>,
        r: Result<String, DeviceError>,
    ) -> bool {
        let key = cache_key_of(c, a, "status"@);
        &&& post.wf()
        &&& post.config == pre.config
        &&& post.controllers == pre.controllers
        &&& (!cache_contents(pre.cache).contains_key(key) && !pre.spec_has(c) ==> (r matches Err(e)
            && e.message@ == controller_not_found_msg(c)))
        &&& (!cache_contents(pre.cache).contains_key(key) && pre.spec_has(c)
            && !pre.spec_controller(c).spec_axis_names().contains(a) ==> r is Err)
        &&& (r is Err ==> cache_contents(post.cache).submap_of(cache_contents(pre.cache)))
        &&& (r matches Ok(data) ==> exists|frag: Seq<char>|
            {
                &&& #[trigger] data@ == state_response_json(c, a, frag)
                &&& {
                    ||| (cache_contents(pre.cache).contains_key(key) && cache_contents(pre.cache)[key]
                        == frag)
                    ||| (pre.spec_has(c) && (exists|m: Option<Seq<char>>, sw: Seq<char>|
                        frag == status_fragment_json(
                            state_name_of(pre.spec_controller(c).spec_axis_state(a)),
                            m,
                            sw,
                        )) && cache_contents(post.cache).submap_of(
                        cache_contents(pre.cache).insert(key, frag),
                    ))
                }
            })
    }

    /// Answers a state query, through the cache.
    pub fn handle_get_state(&mut self, controller: &str, axis: &str) -> (r: Result<
        String,
        DeviceError,
    >)
        requires
            old(self).wf(),
        ensures
            Self::get_state_post(*old(self), *final(self), controller@, axis@, r),
    {
        let key = build_cache_key(controller, axis, "status");
        let hit = self.cache.get(key.as_str());
        if let Some(frag) = hit {
            return Ok(render_state_response(controller, axis, frag.as_str()));
        }
        let i = match self.find(controller) {
            Some(i) => i,
            None => {
                return Err(
                    DeviceError::new(
                        String::from_str("Controller not found: ").concat(controller),
                    ),
                );
            },
        };
        match self.controllers[i].1.state(axis) {
            Err(e) => Err(e),
            Ok(info) => {
                let frag = render_status_fragment(
                    state_name(info.state),
                    &info.message,
                    switches_name(info.limit_switches),
                );
                proof {
                    assert(frag@ == status_fragment_json(
                        state_name_of(
                            old(self).spec_controller(controller@).spec_axis_state(axis@),
                        ),
                        opt_view(info.message),
                        switches_name_of(info.limit_switches),
                    ));
                }
                let ghost mid = cache_contents(self.cache);
                self.cache.insert(key, frag.clone());
                proof {
                    lemma_submap_insert(
                        mid,
                        cache_contents(old(self).cache),
                        key@,
                        frag@,
                    );
                    vstd::map_lib::lemma_submap_of_trans(
                        cache_contents(self.cache),
                        mid.insert(key@, frag@),
                        cache_contents(old(self).cache).insert(key@, frag@),
                    );
                }
                Ok(render_state_response(controller, axis, frag.as_str()))
            },
        }
    }

    /// What an attribute query does: the same cache pattern under the
    /// attribute's own key, with the controller-level attribute check on the
    /// fresh path.
    pub open spec fn get_attr_post(
        pre: ControllerManager<C>,
        post: ControllerManager<C>,
        c: Seq<char>,
        a: Seq<char>,
        attr: Seq<char>,
        r: Result<String, DeviceError>,
    ) -> bool {
        let key = cache_key_of(c, a, attr);
        &&& post.wf()
        &&& post.config == pre.config
        &&& post.controllers == pre.controllers
        &&& (!cache_contents(pre.cache).contains_key(key) && !pre.spec_has(c) ==> (r matches Err(e)
            && e.message@ == controller_not_found_msg(c)))
        &&& (!cache_contents(pre.cache).contains_key(key) && pre.spec_has(c)
            && !pre.spec_controller(c).spec_axis_names().contains(a) ==> r is Err)
        &&& (!cache_contents(pre.cache).contains_key(key) && pre.spec_has(c)
            && !pre.spec_controller(c).spec_axis_available(a).contains(attr) ==> r is Err)
        &&& (r is Err ==> cache_contents(post.cache).submap_of(cache_contents(pre.cache)))
        &&& (r matches Ok(data) ==> exists|tok: Seq<char>|
            {
                &&& #[trigger] data@ == attr_response_json(c, a, attr, tok)
                &&& {
                    ||| (cache_contents(pre.cache).contains_key(key) && cache_contents(pre.cache)[key]
                        == tok)
                    ||| (pre.spec_has(c) && cache_contents(post.cache).submap_of(
                        cache_contents(pre.cache).insert(key, tok),
                    ))
                }
            })
    }

    /// Answers an attribute query, through the cache.
    pub fn handle_get_attr(&mut self, controller: &str, axis: &str, attr: &str) -> (r: Result<
        String,
        DeviceError,
    >)
        requires
            old(self).wf(),
        ensures
            Self::get_attr_post(*old(self), *final(self), controller@, axis@, attr@, r),
    {
        let key = build_cache_key(controller, axis, attr);
        let hit = self.cache.get(key.as_str());
        if let Some(tok) = hit {
            return Ok(render_attr_response(controller, axis, attr, tok.as_str()));
        }
        let i = match self.find(controller) {
            Some(i) => i,
            None => {
                return Err(
                    DeviceError::new(
                        String::from_str("Controller not found: ").concat(controller),
                    ),
                );
            },
        };
        match self.controllers[i].1.get_attribute(axis, attr) {
            Err(e) => Err(e),
            Ok(num) => {
                let ghost mid = cache_contents(self.cache);
                self.cache.insert(key, num.text().to_owned());
                proof {
                    lemma_submap_insert(
                        mid,
                        cache_contents(old(self).cache),
                        key@,
                        num@,
                    );
                    vstd::map_lib::lemma_submap_of_trans(
                        cache_contents(self.cache),
                        mid.insert(key@, num@),
                        cache_contents(old(self).cache).insert(key@, num@),
                    );
                }
                Ok(render_attr_response(controller, axis, attr, num.text()))
            },
        }
    }

    /// What an available-parameters query answers: never cached, and pinned
    /// to the controller's capability view, so repeating it cannot change
    /// the answer.
    pub open spec fn available_post(
        m: ControllerManager<C>,
        c: Seq<char>,
        a: Seq<char>,
        r: Result<String, DeviceError>,
    ) -> bool {
        &&& (!m.spec_has(c) ==> (r matches Err(e) && e.message@ == controller_not_found_msg(c)))
        &&& (m.spec_has(c) && !m.spec_controller(c).spec_axis_names().contains(a) ==> r is Err)
        &&& (r matches Ok(data) ==> m.spec_has(c) && data@ == available_response_json(
            c,
            a,
            m.spec_controller(c).spec_axis_available(a),
        ))
    }

    /// Answers an available-parameters query; never cached.
    pub fn handle_get_available_params(&self, controller: &str, axis: &str) -> (r: Result<
        String,
        DeviceError,
    >)
        ensures
            Self::available_post(*self, controller@, axis@, r),
    {
        let i = match self.find(controller) {
            Some(i) => i,
            None => {
                return Err(
                    DeviceError::new(
                        String::from_str("Controller not found: ").concat(controller),
                    ),
                );
            },
        };
        match self.controllers[i].1.get_available_attributes(axis) {
            Err(e) => Err(e),
            Ok(items) => Ok(render_available_response(controller, axis, &items)),
        }
    }

    /// What a supported-movement-parameters query answers, like
    /// `available_post`.
    pub open spec fn supported_post(
        m: ControllerManager<C>,
        c: Seq<char>,
        a: Seq<char>,
        r: Result<String, DeviceError>,
    ) -> bool {
        &&& (!m.spec_has(c) ==> (r matches Err(e) && e.message@ == controller_not_found_msg(c)))
        &&& (m.spec_has(c) && !m.spec_controller(c).spec_axis_names().contains(a) ==> r is Err)
        &&& (r matches Ok(data) ==> m.spec_has(c) && data@ == supported_response_json(
            c,
            a,
            m.spec_controller(c).spec_axis_supported_movement(a),
        ))
    }

    /// Answers a supported-movement-parameters query; never cached.
    pub fn handle_get_supported_movement_params(&self, controller: &str, axis: &str) -> (r: Result<
        String,
        DeviceError,
    >)
        ensures
            Self::supported_post(*self, controller@, axis@, r),
    {
        let i = match self.find(controller) {
            Some(i) => i,
            None => {
                return Err(
                    DeviceError::new(
                        String::from_str("Controller not found: ").concat(controller),
                    ),
                );
            },
        };
        match self.controllers[i].1.get_supported_movement_params(axis) {
            Err(e) => Err(e),
            Ok(items) => Ok(render_supported_response(controller, axis, &items)),
        }
    }

    /// Answers a controller listing: all registered names, in registration
    /// order.
    pub fn handle_list_controllers(&self) -> (r: Result<String, DeviceError>)
        ensures
            r matches Ok(data) && data@ == controllers_response_json(
                entry_keys(self.controllers@),
            ),
    {
        let n = self.controllers.len();
        let mut names: Vec<String> = Vec::new();
        let mut i: usize = 0;
        while i < n
            invariant
                n == self.controllers@.len(),
                i <= n,
                names@.len() == i,
                forall|k: int|
                    0 <= k < i ==> (#[trigger] names@[k])@ == self.controllers@[k].0@,
            decreases n - i,
        {
            names.push(self.controllers[i].0.clone());
            i += 1;
        }
        proof {
            assert forall|k: int| 0 <= k < names@.len() implies #[trigger] names.deep_view()[k]
                == entry_keys(self.controllers@)[k] by {
                assert(names.deep_view()[k] == names@[k]@);
            }
            assert(names.deep_view() =~= entry_keys(self.controllers@));
        }
        Ok(render_controllers_response(&names))
    }

    /// What an axis listing answers.
    pub open spec fn list_axes_post(
        m: ControllerManager<C>,
        c: Seq<char>,
        r: Result<String, DeviceError>,
    ) -> bool {
        &&& (!m.spec_has(c) ==> (r matches Err(e) && e.message@ == controller_not_found_msg(c)))
        &&& (r matches Ok(data) ==> m.spec_has(c) && data@ == axes_response_json(
            c,
            m.spec_controller(c).spec_axis_names(),
        ))
    }

    /// Answers an axis listing for one controller.
    pub fn handle_list_axes(&self, controller: &str) -> (r: Result<String, DeviceError>)
        ensures
            Self::list_axes_post(*self, controller@, r),
    {
        let i = match self.find(controller) {
            Some(i) => i,
            None => {
                return Err(
                    DeviceError::new(
                        String::from_str("Controller not found: ").concat(controller),
                    ),
                );
            },
        };
        let names = self.controllers[i].1.axis_names();
        Ok(render_axes_response(controller, &names))
    }

    /// What one command does, by kind: the dispatcher's whole contract.
    pub open spec fn dispatch_post(
        pre: ControllerManager<C>,
        post: ControllerManager<C>,
        cmd: Command,
        r: Result<String, DeviceError>,
    ) -> bool {
        match cmd {
            Command::Move { controller, axis, target, params } => Self::move_post(
                pre,
                post,
                controller@,
                axis@,
                target@,
                params,
                r,
            ),
            Command::Stop { controller, axis } => Self::stop_post(pre, post, controller@, axis@, r),
            Command::GetState { controller, axis } => Self::get_state_post(
                pre,
                post,
                controller@,
                axis@,
                r,
            ),
            Command::GetPos { controller, axis } => Self::get_pos_post(
                pre,
                post,
                controller@,
                axis@,
                r,
            ),
            Command::GetAttr { controller, axis, attr } => Self::get_attr_post(
                pre,
                post,
                controller@,
                axis@,
                attr@,
                r,
            ),
            Command::GetAvailableParams { controller, axis } => post == pre
                && Self::available_post(pre, controller@, axis@, r),
            Command::GetSupportedMovementParams { controller, axis } => post == pre
                && Self::supported_post(pre, controller@, axis@, r),
            Command::ListControllers => post == pre && (r matches Ok(data) && data@
                == controllers_response_json(entry_keys(pre.controllers@))),
            Command::ListAxes { controller } => post == pre && Self::list_axes_post(
                pre,
                controller@,
                r,
            ),
        }
    }

    /// Executes one command to completion against the registry and cache.
    pub fn dispatch(&mut self, cmd: Command) -> (r: Result<String, DeviceError>)
        requires
            old(self).wf(),
        ensures
            final(self).wf(),
            Self::dispatch_post(*old(self), *final(self), cmd, r),
    {
        match cmd {
            Command::Move { controller, axis, target, params } => {
                let r = self.handle_move(
                    controller.as_str(),
                    axis.as_str(),
                    &target,
                    params.as_ref(),
                );
                r
            },
            Command::Stop { controller, axis } => self.handle_stop(
                controller.as_str(),
                axis.as_str(),
            ),
            Command::GetState { controller, axis } => self.handle_get_state(
                controller.as_str(),
                axis.as_str(),
            ),
            Command::GetPos { controller, axis } => self.handle_get_pos(
                controller.as_str(),
                axis.as_str(),
            ),
            Command::GetAttr { controller, axis, attr } => self.handle_get_attr(
                controller.as_str(),
                axis.as_str(),
                attr.as_str(),
            ),
            Command::GetAvailableParams { controller, axis } => self.handle_get_available_params(
                controller.as_str(),
                axis.as_str(),
            ),
            Command::GetSupportedMovementParams { controller, axis } => self
                .handle_get_supported_movement_params(controller.as_str(), axis.as_str()),
            Command::ListControllers => self.handle_list_controllers(),
            Command::ListAxes { controller } => self.handle_list_axes(controller.as_str()),
        }
    }

    /// A batch ran in submission order: the first command took the manager
    /// from `pre` to some intermediate state and produced the first result,
    /// and the rest ran after it, one at a time, nothing interleaved.
    pub open spec fn dispatch_seq_post(
        pre: ControllerManager<C>,
        post: ControllerManager<C>,
        cmds: Seq<Command>,
        rs: Seq<Result<String, DeviceError>>,
    ) -> bool
        decreases cmds.len(),
    {
        if cmds.len() == 0 {
            post == pre && rs.len() == 0
        } else {
            rs.len() == cmds.len() && exists|mid: ControllerManager<C>|
                #[trigger] Self::dispatch_post(pre, mid, cmds[0], rs[0])
                    && Self::dispatch_seq_post(mid, post, cmds.drop_first(), rs.drop_first())
        }
    }

    /// Running one more command after a batch extends the batch.
    proof fn lemma_dispatch_seq_snoc(
        pre: ControllerManager<C>,
        mid: ControllerManager<C>,
        post: ControllerManager<C>,
        cmds: Seq<Command>,
        rs: Seq<Result<String, DeviceError>>,
        cmd: Command,
        r: Result<String, DeviceError>,
    )
        requires
            Self::dispatch_seq_post(pre, mid, cmds, rs),
            Self::dispatch_post(mid, post, cmd, r),
        ensures
            Self::dispatch_seq_post(pre, post, cmds.push(cmd), rs.push(r)),
        decreases cmds.len(),
    {
        if cmds.len() == 0 {
            assert(cmds.push(cmd)[0] == cmd);
            assert(rs.push(r)[0] == r);
            assert(cmds.push(cmd).drop_first() =~= Seq::<Command>::empty());
            assert(rs.push(r).drop_first() =~= Seq::<Result<String, DeviceError>>::empty());
            assert(Self::dispatch_post(pre, post, cmds.push(cmd)[0], rs.push(r)[0]));
            assert(Self::dispatch_seq_post(
                post,
                post,
                cmds.push(cmd).drop_first(),
                rs.push(r).drop_first(),
            ));
        } else {
            let m0 = choose|m0: ControllerManager<C>|
                #[trigger] Self::dispatch_post(pre, m0, cmds[0], rs[0])
                    && Self::dispatch_seq_post(m0, mid, cmds.drop_first(), rs.drop_first());
            Self::lemma_dispatch_seq_snoc(
                m0,
                mid,
                post,
                cmds.drop_first(),
                rs.drop_first(),
                cmd,
                r,
            );
            assert(cmds.push(cmd)[0] == cmds[0]);
            assert(rs.push(r)[0] == rs[0]);
            assert(cmds.push(cmd).drop_first() =~= cmds.drop_first().push(cmd));
            assert(rs.push(r).drop_first() =~= rs.drop_first().push(r));
            assert(Self::dispatch_post(pre, m0, cmds.push(cmd)[0], rs.push(r)[0]));
        }
    }

    /// Drains a batch of commands exactly as the dispatch loop drains its
    /// queue: strictly in order, each command run to completion before the
    /// next begins, and every command answered exactly once.
    pub fn dispatch_all(&mut self, cmds: Vec<Command>) -> (rs: Vec<Result<String, DeviceError>>)
        requires
            old(self).wf(),
        ensures
            final(self).wf(),
            rs@.len() == cmds@.len(),
            Self::dispatch_seq_post(*old(self), *final(self), cmds@, rs@),
    {
        let ghost all = cmds@;
        let mut rs: Vec<Result<String, DeviceError>> = Vec::new();
        let mut rest = cmds;
        while rest.len() > 0
            invariant
                self.wf(),
                rs@.len() + rest@.len() == all.len(),
                all =~= all.subrange(0, rs@.len() as int) + rest@,
                Self::dispatch_seq_post(
                    *old(self),
                    *self,
                    all.subrange(0, rs@.len() as int),
                    rs@,
                ),
            decreases rest@.len(),
        {
            let ghost pre_loop = *self;
            let ghost done = all.subrange(0, rs@.len() as int);
            let cmd = rest.remove(0);
            let ghost cmd_g = cmd;
            let r = self.dispatch(cmd);
            proof {
                Self::lemma_dispatch_seq_snoc(
                    *old(self),
                    pre_loop,
                    *self,
                    done,
                    rs@,
                    cmd_g,
                    r,
                );
            }
            rs.push(r);
            proof {
                assert(all.subrange(0, rs@.len() as int) =~= done.push(cmd_g));
            }
        }
        proof {
            assert(all.subrange(0, rs@.len() as int) =~= all);
        }
        rs
    }
}

/// The data of a successful answer.
pub open spec fn ok_data(r: Result<String, DeviceError>) -> Seq<char> {
    match r {
        Ok(d) => d@,
        Err(_) => Seq::empty(),
    }
}

/// Idempotence of the capability queries: they are never cached and their
/// answers are functions of the registry alone, so with no reconfiguration
/// in between, two successful answers for the same axis are the same text.
pub proof fn lemma_capability_queries_idempotent<C: MotorController>(
    m: ControllerManager<C>,
    c: Seq<char>,
    a: Seq<char>,
    r1: Result<String, DeviceError>,
    r2: Result<String, DeviceError>,
    s1: Result<String, DeviceError>,
    s2: Result<String, DeviceError>,
)
    requires
        ControllerManager::available_post(m, c, a, r1),
        ControllerManager::available_post(m, c, a, r2),
        ControllerManager::supported_post(m, c, a, s1),
        ControllerManager::supported_post(m, c, a, s2),
    ensures
        r1 is Ok && r2 is Ok ==> ok_data(r1) == ok_data(r2),
        s1 is Ok && s2 is Ok ==> ok_data(s1) == ok_data(s2),
{
}

/// Cache coherency: a successful move removes the pair's cached position at
/// once, so a position query served right after cannot answer from a value
/// cached before the move: it either reads the backend afresh or fails.
pub proof fn lemma_move_invalidates_position<C: MotorController>(
    pre: ControllerManager<C>,
    mid: ControllerManager<C>,
    post: ControllerManager<C>,
    c: Seq<char>,
    a: Seq<char>,
    t: Seq<char>,
    params: Option<MovementParams>,
    ack: String,
    data: String,
)
    requires
        ControllerManager::move_post(pre, mid, c, a, t, params, Ok(ack)),
        ControllerManager::get_pos_post(mid, post, c, a, Ok(data)),
    ensures
        !cache_contents(mid.cache).contains_key(cache_key_of(c, a, "position"@)),
        exists|tok: Seq<char>|
            data@ == pos_response_json(c, a, tok) && mid.spec_has(c) && cache_contents(
                post.cache,
            ).submap_of(cache_contents(mid.cache).insert(cache_key_of(c, a, "position"@), tok)),
{
    let key = cache_key_of(c, a, "position"@);
    let tok = choose|tok: Seq<char>|
        {
            &&& #[trigger] data@ == pos_response_json(c, a, tok)
            &&& {
                ||| (cache_contents(mid.cache).contains_key(key) && cache_contents(mid.cache)[key]
                    == tok)
                ||| (mid.spec_has(c) && cache_contents(post.cache).submap_of(
                    cache_contents(mid.cache).insert(key, tok),
                ))
            }
        };
    assert(!cache_contents(mid.cache).contains_key(key));
    assert(data@ == pos_response_json(c, a, tok) && mid.spec_has(c) && cache_contents(
        post.cache,
    ).submap_of(cache_contents(mid.cache).insert(key, tok)));
}

/// A submap stays a submap when both sides gain the same entry.
pub proof fn lemma_submap_insert(
    m1: Map<Seq<char>, Seq<char>>,
    m2: Map<Seq<char>, Seq<char>>,
    k: Seq<char>,
    v: Seq<char>,
)
    requires
        m1.submap_of(m2),
    ensures
        m1.insert(k, v).submap_of(m2.insert(k, v)),
{
    assert forall|x: Seq<char>| #[trigger] m1.insert(k, v).dom().contains(x) implies m2.insert(
        k,
        v,
    ).dom().contains(x) && m1.insert(k, v)[x] == m2.insert(k, v)[x] by {
        if x != k {
            assert(m1.dom().contains(x));
        }
    }
}

} // verus!
