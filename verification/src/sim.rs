//! A simulated axis backend, verified against the `Axis` contract. It keeps
//! its position and state in memory and models motion as: a move validates
//! its parameters, records the target and reports `Moving`; `settle` stands
//! for the motion completing and returns the axis to `On`.
//!
//! Combined with `AxisControl` this gives a complete in-memory controller a
//! gateway can register, and the backend the test scenarios run against.

use vstd::prelude::*;

use crate::axis::{Axis, AxisState, AxisStateInfo, MovementParams, Num};
use crate::errors::DeviceError;
use crate::strings::str_eq;
use vstd::string::*;

verus! {

/// The message a simulated axis reports for a movement parameter it does not
/// support.
pub open spec fn unsupported_movement_msg(axis: Seq<char>, param: Seq<char>) -> Seq<char> {
    "Axis "@ + axis + " does not support "@ + param + " parameter"@
}

/// The message for an attribute name the axis does not know at all.
pub open spec fn unknown_parameter_msg(name: Seq<char>) -> Seq<char> {
    "Unknown parameter: "@ + name
}

/// The movement parameter names an optional tuning request carries.
pub open spec fn requested_of(params: Option<&MovementParams>) -> Set<Seq<char>> {
    match params {
        Some(p) => p.spec_requested(),
        None => Set::empty(),
    }
}

/// A single simulated axis.
pub struct SimAxis {
    pub name: String,
    pub position: Num,
    pub state: AxisState,
    pub supports_acceleration: bool,
    pub velocity: Num,
    pub acceleration: Num,
    pub max_position: Num,
    pub min_position: Num,
}

impl SimAxis {
    /// An axis at rest at position 0, with the stock attribute values.
    pub fn new(name: String, supports_acceleration: bool) -> (r: SimAxis)
        ensures
            r.name@ == name@,
            r.position@ == "0.0"@,
            r.state is On,
            r.supports_acceleration == supports_acceleration,
            r.velocity@ == "100.0"@,
            r.acceleration@ == "1000.0"@,
            r.max_position@ == "1000.0"@,
            r.min_position@ == "-1000.0"@,
    {
        SimAxis {
            name,
            position: Num::new(String::from_str("0.0")),
            state: AxisState::On,
            supports_acceleration,
            velocity: Num::new(String::from_str("100.0")),
            acceleration: Num::new(String::from_str("1000.0")),
            max_position: Num::new(String::from_str("1000.0")),
            min_position: Num::new(String::from_str("-1000.0")),
        }
    }

    /// The value the axis reports for each attribute it knows.
    pub open spec fn spec_attr(&self, name: Seq<char>) -> Seq<char> {
        if name == "velocity"@ {
            self.velocity@
        } else if name == "acceleration"@ {
            self.acceleration@
        } else if name == "max_position"@ {
            self.max_position@
        } else if name == "min_position"@ {
            self.min_position@
        } else if name == "position"@ {
            self.position@
        } else if name == "supports_acceleration"@ {
            if self.supports_acceleration {
                "1.0"@
            } else {
                "0.0"@
            }
        } else {
            Seq::empty()
        }
    }

    /// When a move is accepted: the axis is not faulted and every requested
    /// movement parameter is supported.
    pub open spec fn start_accepted(&self, params: Option<&MovementParams>) -> bool {
        &&& (self.state is On || self.state is Moving)
        &&& (params matches Some(p) ==> forall|n: Seq<char>|
            #[trigger] p.spec_requested().contains(n)
                ==> self.spec_supported_movement_params().contains(n))
    }

    /// Models the completion of any motion in progress: a moving axis comes
    /// to rest at its recorded position; everything else is untouched.
    pub fn settle(&mut self)
        ensures
            *final(self) == (SimAxis {
                state: if old(self).state is Moving {
                    AxisState::On
                } else {
                    old(self).state
                },
                ..*old(self)
            }),
    {
        if matches!(self.state, AxisState::Moving) {
            self.state = AxisState::On;
        }
    }
}

impl Axis for SimAxis {
    open spec fn spec_name(&self) -> Seq<char> {
        self.name@
    }

    open spec fn spec_state(&self) -> AxisState {
        self.state
    }

    open spec fn spec_available_params(&self) -> Seq<Seq<char>> {
        if self.supports_acceleration {
            seq![
                "velocity"@,
                "max_position"@,
                "min_position"@,
                "position"@,
                "supports_acceleration"@,
                "acceleration"@,
            ]
        } else {
            seq![
                "velocity"@,
                "max_position"@,
                "min_position"@,
                "position"@,
                "supports_acceleration"@,
            ]
        }
    }

    open spec fn spec_supported_movement_params(&self) -> Seq<Seq<char>> {
        if self.supports_acceleration {
            seq!["velocity"@, "acceleration"@, "deceleration"@]
        } else {
            seq!["velocity"@]
        }
    }

    fn name(&self) -> (r: String) {
        self.name.clone()
    }

    fn start(&mut self, target: &Num, params: Option<&MovementParams>) -> (r: Result<
        (),
        DeviceError,
    >)
        ensures
            (r is Ok) == old(self).start_accepted(params),
            r is Ok ==> final(self).position@ == target@ && final(self).state is Moving,
            r is Err ==> *final(self) == *old(self),
            r matches Err(e) ==> (e.message@ == "Axis "@ + old(self).name@
                + " is not ready to move"@ || exists|n: Seq<char>|
                (#[trigger] requested_of(params).contains(n) && !old(
                    self,
                ).spec_supported_movement_params().contains(n) && e.message@
                    == unsupported_movement_msg(old(self).name@, n))),
    {
        proof {
            reveal_strlit("velocity");
            reveal_strlit("acceleration");
            reveal_strlit("deceleration");
        }
        if !(matches!(self.state, AxisState::On) || matches!(self.state, AxisState::Moving)) {
            return Err(
                DeviceError::new(
                    String::from_str("Axis ").concat(self.name.as_str()).concat(
                        " is not ready to move",
                    ),
                ),
            );
        }
        if let Some(p) = params {
            if p.acceleration.is_some() && !self.supports_acceleration {
                let e = DeviceError::new(
                    String::from_str("Axis ").concat(self.name.as_str()).concat(
                        " does not support ",
                    ).concat("acceleration").concat(" parameter"),
                );
                proof {
                    assert(requested_of(params).contains("acceleration"@));
                    assert(!old(self).spec_supported_movement_params().contains("acceleration"@));
                    assert(e.message@ == unsupported_movement_msg(old(self).name@, "acceleration"@));
                }
                return Err(e);
            }
            if p.deceleration.is_some() && !self.supports_acceleration {
                let e = DeviceError::new(
                    String::from_str("Axis ").concat(self.name.as_str()).concat(
                        " does not support ",
                    ).concat("deceleration").concat(" parameter"),
                );
                proof {
                    assert(requested_of(params).contains("deceleration"@));
                    assert(!old(self).spec_supported_movement_params().contains("deceleration"@));
                    assert(e.message@ == unsupported_movement_msg(old(self).name@, "deceleration"@));
                }
                return Err(e);
            }
            let m = p.custom.len();
            let mut j: usize = 0;
            while j < m
                invariant
                    m == p.custom@.len(),
                    j <= m,
                    params == Some(p),
                    forall|k: int|
                        0 <= k < j ==> self.spec_supported_movement_params().contains(
                            (#[trigger] p.custom@[k]).0@,
                        ),
                    self == old(self),
                    old(self).state is On || old(self).state is Moving,
                decreases m - j,
            {
                let n = p.custom[j].0.as_str();
                let allowed = str_eq(n, "velocity") || (self.supports_acceleration && (str_eq(
                    n,
                    "acceleration",
                ) || str_eq(n, "deceleration")));
                if !allowed {
                    let e = DeviceError::new(
                        String::from_str("Axis ").concat(self.name.as_str()).concat(
                            " does not support ",
                        ).concat(n).concat(" parameter"),
                    );
                    proof {
                        assert(p.spec_requested().contains(p.custom@[j as int].0@));
                        assert(requested_of(params).contains(p.custom@[j as int].0@));
                        assert(!old(self).spec_supported_movement_params().contains(
                            p.custom@[j as int].0@,
                        ));
                        assert(e.message@ == unsupported_movement_msg(
                            old(self).name@,
                            p.custom@[j as int].0@,
                        ));
                    }
                    return Err(e);
                }
                proof {
                    assert(self.spec_supported_movement_params().contains(
                        p.custom@[j as int].0@,
                    )) by {
                        if n@ == "velocity"@ {
                            assert(self.spec_supported_movement_params()[0] == "velocity"@);
                        } else if self.supports_acceleration && n@ == "acceleration"@ {
                            assert(self.spec_supported_movement_params()[1] == "acceleration"@);
                        } else {
                            assert(self.spec_supported_movement_params()[2] == "deceleration"@);
                        }
                    }
                }
                j += 1;
            }
            proof {
                assert forall|n: Seq<char>| #[trigger] p.spec_requested().contains(n) implies old(
                    self,
                ).spec_supported_movement_params().contains(n) by {
                    if n == "velocity"@ {
                        assert(old(self).spec_supported_movement_params()[0] == "velocity"@);
                    } else if self.supports_acceleration && (n == "acceleration"@ || n
                        == "deceleration"@) {
                        assert(old(self).spec_supported_movement_params()[1] == "acceleration"@);
                        assert(old(self).spec_supported_movement_params()[2] == "deceleration"@);
                    } else {
                        let k = choose|k: int|
                            0 <= k < p.custom@.len() && (#[trigger] p.custom@[k]).0@ == n;
                        assert(self.spec_supported_movement_params().contains(p.custom@[k].0@));
                    }
                }
            }
        } else {
            proof {
                assert(old(self).start_accepted(params));
            }
        }
        self.position = Num::new(target.text().to_owned());
        self.state = AxisState::Moving;
        Ok(())
    }

    fn stop(&mut self) -> (r: Result<(), DeviceError>)
        ensures
            r is Ok,
            *final(self) == (SimAxis { state: AxisState::On, ..*old(self) }),
    {
        self.state = AxisState::On;
        Ok(())
    }

    fn get_state(&self) -> (r: Result<AxisStateInfo, DeviceError>)
        ensures
            r matches Ok(info) && info.state == self.state && info.message is None
                && info.limit_switches is Clear,
    {
        Ok(AxisStateInfo::new(self.state))
    }

    fn get_attribute(&self, name: &str) -> (r: Result<Num, DeviceError>)
        ensures
            (r is Ok) == self.spec_available_params().contains(name@),
            r matches Ok(v) ==> v@ == self.spec_attr(name@),
            r matches Err(e) ==> (e.message@ == unknown_parameter_msg(name@) || e.message@
                == "Parameter '"@ + name@ + "' not supported by axis "@ + self.name@),
    {
        proof {
            reveal_strlit("velocity");
            reveal_strlit("acceleration");
            reveal_strlit("max_position");
            reveal_strlit("min_position");
            reveal_strlit("position");
            reveal_strlit("supports_acceleration");
        }
        if str_eq(name, "velocity") {
            proof {
                assert(self.spec_available_params()[0] == "velocity"@);
            }
            Ok(Num::new(self.velocity.text().to_owned()))
        } else if str_eq(name, "acceleration") {
            if self.supports_acceleration {
                proof {
                    assert(self.spec_available_params()[5] == "acceleration"@);
                }
                Ok(Num::new(self.acceleration.text().to_owned()))
            } else {
                proof {
                    let s = self.spec_available_params();
                    assert(s.len() == 5);
                    assert(s[0] == "velocity"@ && s[1] == "max_position"@ && s[2]
                        == "min_position"@ && s[3] == "position"@ && s[4]
                        == "supports_acceleration"@);
                    assert("velocity"@ != "acceleration"@) by {
                        assert("velocity"@.len() == 8 && "acceleration"@.len() == 12);
                    }
                    assert("max_position"@ != "acceleration"@) by {
                        assert("max_position"@[0] == 'm' && "acceleration"@[0] == 'a');
                    }
                    assert("min_position"@ != "acceleration"@) by {
                        assert("min_position"@[0] == 'm' && "acceleration"@[0] == 'a');
                    }
                    assert("position"@ != "acceleration"@) by {
                        assert("position"@.len() == 8);
                    }
                    assert("supports_acceleration"@ != "acceleration"@) by {
                        assert("supports_acceleration"@.len() == 21);
                    }
                    assert(!s.contains(name@)) by {
                        if s.contains(name@) {
                            let w = choose|w: int| 0 <= w < s.len() && s[w] == name@;
                        }
                    }
                }
                Err(
                    DeviceError::new(
                        String::from_str("Parameter '").concat(name).concat(
                            "' not supported by axis ",
                        ).concat(self.name.as_str()),
                    ),
                )
            }
        } else if str_eq(name, "max_position") {
            proof {
                assert(self.spec_available_params()[1] == "max_position"@);
            }
            Ok(Num::new(self.max_position.text().to_owned()))
        } else if str_eq(name, "min_position") {
            proof {
                assert(self.spec_available_params()[2] == "min_position"@);
            }
            Ok(Num::new(self.min_position.text().to_owned()))
        } else if str_eq(name, "position") {
            proof {
                assert(self.spec_available_params()[3] == "position"@);
            }
            Ok(Num::new(self.position.text().to_owned()))
        } else if str_eq(name, "supports_acceleration") {
            proof {
                assert(self.spec_available_params()[4] == "supports_acceleration"@);
            }
            if self.supports_acceleration {
                Ok(Num::new(String::from_str("1.0")))
            } else {
                Ok(Num::new(String::from_str("0.0")))
            }
        } else {
            proof {
                assert(!self.spec_available_params().contains(name@)) by {
                    if self.spec_available_params().contains(name@) {
                        let w = choose|w: int|
                            0 <= w < self.spec_available_params().len()
                                && self.spec_available_params()[w] == name@;
                    }
                }
            }
            Err(DeviceError::new(String::from_str("Unknown parameter: ").concat(name)))
        }
    }

    fn get_available_params(&self) -> (r: Result<Vec<String>, DeviceError>) {
        let mut v: Vec<String> = Vec::new();
        v.push(String::from_str("velocity"));
        v.push(String::from_str("max_position"));
        v.push(String::from_str("min_position"));
        v.push(String::from_str("position"));
        v.push(String::from_str("supports_acceleration"));
        if self.supports_acceleration {
            v.push(String::from_str("acceleration"));
        }
        proof {
            assert(v.deep_view() =~= self.spec_available_params());
        }
        Ok(v)
    }

    fn get_supported_movement_params(&self) -> (r: Result<Vec<String>, DeviceError>) {
        let mut v: Vec<String> = Vec::new();
        v.push(String::from_str("velocity"));
        if self.supports_acceleration {
            v.push(String::from_str("acceleration"));
            v.push(String::from_str("deceleration"));
        }
        proof {
            assert(v.deep_view() =~= self.spec_supported_movement_params());
        }
        Ok(v)
    }
}

} // verus!
