//! The session layer's decisions: admission control for new connections,
//! and the processing of one request line into one response line. The socket
//! front end around this module only reads lines, calls in here, and writes
//! the answer back.

use vstd::prelude::*;

use crate::errors::DeviceError;
use crate::manager::{Command, ControllerManager};
use crate::motor_controller::MotorController;
use crate::protocol::{
    parse_command, parse_outcome, ping_json, render_ping_response, serialize_response,
    ClientCommand, ProtocolError, ServerResponse,
};
use vstd::string::*;

verus! {

/// The socket front end's configuration: where to listen, how many
/// connections may be live at once, and the per-connection buffer size.
#[derive(Debug, Clone)]
pub struct SocketServerConfig {
    pub socket_path: String,
    pub max_connections: usize,
    pub buffer_size: usize,
}

impl Default for SocketServerConfig {
    /// The stock configuration.
    fn default() -> (r: SocketServerConfig)
        ensures
            r.socket_path@ == "/tmp/motarem.sock"@,
            r.max_connections == 100,
            r.buffer_size == 8192,
    {
        SocketServerConfig {
            socket_path: String::from_str("/tmp/motarem.sock"),
            max_connections: 100,
            buffer_size: 8192,
        }
    }
}

/// The shared connection gauge behind admission control: how many
/// connections are live, against the configured ceiling.
#[derive(Debug, Clone, Copy, PartialEq, Eq, Structural)]
pub struct ActiveConnections {
    pub active: usize,
    pub max: usize,
}

impl ActiveConnections {
    /// A new connection is admitted only below the ceiling.
    pub open spec fn spec_can_admit(&self) -> bool {
        self.active < self.max
    }

    /// A gauge with no live connections.
    pub fn new(max: usize) -> (r: ActiveConnections)
        ensures
            r.active == 0,
            r.max == max,
    {
        ActiveConnections { active: 0, max }
    }

    /// Decides one connection attempt: admitted exactly when the count is
    /// below the ceiling, and then counted at once.
    pub fn try_admit(&mut self) -> (admitted: bool)
        ensures
            admitted == old(self).spec_can_admit(),
            final(self).max == old(self).max,
            final(self).active == if admitted {
                old(self).active + 1
            } else {
                old(self).active as int
            },
    {
        if self.active < self.max {
            self.active = self.active + 1;
            true
        } else {
            false
        }
    }

    /// Counts one connection's end, however it terminated.
    pub fn release(&mut self)
        requires
            old(self).active > 0,
        ensures
            final(self).max == old(self).max,
            final(self).active == old(self).active - 1,
    {
        self.active = self.active - 1;
    }
}

/// Admission control: once the live connections equal the ceiling, a new
/// attempt is refused; as soon as one connection ends, an attempt is
/// admitted again.
pub proof fn lemma_admission_control(g: ActiveConnections)
    requires
        g.active == g.max,
    ensures
        !g.spec_can_admit(),
        g.max > 0 ==> (ActiveConnections {
            active: (g.active - 1) as usize,
            ..g
        }).spec_can_admit(),
{
}

/// Relies on chrono's UTC clock and its RFC 3339 formatting. The value
/// depends on the moment of the call, so nothing is promised of it.
#[verifier::external_body]
fn now_rfc3339() -> String {
    chrono::Utc::now().to_rfc3339()
}

/// The queue command a request becomes; a ping is answered in the session
/// and never reaches the queue.
pub open spec fn spec_to_command(cmd: ClientCommand) -> Option<Command> {
    match cmd {
        ClientCommand::Move { controller, axis, target, params, .. } => Some(
            Command::Move { controller, axis, target, params },
        ),
        ClientCommand::Stop { controller, axis, .. } => Some(Command::Stop { controller, axis }),
        ClientCommand::GetState { controller, axis, .. } => Some(
            Command::GetState { controller, axis },
        ),
        ClientCommand::GetPosition { controller, axis, .. } => Some(
            Command::GetPos { controller, axis },
        ),
        ClientCommand::GetAttribute { controller, axis, attribute, .. } => Some(
            Command::GetAttr { controller, axis, attr: attribute },
        ),
        ClientCommand::GetAvailableParams { controller, axis, .. } => Some(
            Command::GetAvailableParams { controller, axis },
        ),
        ClientCommand::GetSupportedMovementParams { controller, axis, .. } => Some(
            Command::GetSupportedMovementParams { controller, axis },
        ),
        ClientCommand::ListControllers { .. } => Some(Command::ListControllers),
        ClientCommand::ListAxes { controller, .. } => Some(Command::ListAxes { controller }),
        ClientCommand::Ping { .. } => None,
    }
}

/// Runs one decoded request against the manager: a ping is answered
/// directly, everything else becomes a queue command and is dispatched.
pub fn execute_command<C: MotorController>(
    command: ClientCommand,
    manager: &mut ControllerManager<C>,
) -> (r: Result<String, DeviceError>)
    requires
        old(manager).wf(),
    ensures
        final(manager).wf(),
        match spec_to_command(command) {
            Some(c) => ControllerManager::dispatch_post(*old(manager), *final(manager), c, r),
            None => *final(manager) == *old(manager) && (r matches Ok(data) && exists|
                ts: Seq<char>,
            |
                data@ == ping_json(ts)),
        },
{
    match command {
        ClientCommand::Move { controller, axis, target, params, .. } => manager.dispatch(
            Command::Move { controller, axis, target, params },
        ),
        ClientCommand::Stop { controller, axis, .. } => manager.dispatch(
            Command::Stop { controller, axis },
        ),
        ClientCommand::GetState { controller, axis, .. } => manager.dispatch(
            Command::GetState { controller, axis },
        ),
        ClientCommand::GetPosition { controller, axis, .. } => manager.dispatch(
            Command::GetPos { controller, axis },
        ),
        ClientCommand::GetAttribute { controller, axis, attribute, .. } => manager.dispatch(
            Command::GetAttr { controller, axis, attr: attribute },
        ),
        ClientCommand::GetAvailableParams { controller, axis, .. } => manager.dispatch(
            Command::GetAvailableParams { controller, axis },
        ),
        ClientCommand::GetSupportedMovementParams { controller, axis, .. } => manager.dispatch(
            Command::GetSupportedMovementParams { controller, axis },
        ),
        ClientCommand::ListControllers { .. } => manager.dispatch(Command::ListControllers),
        ClientCommand::ListAxes { controller, .. } => manager.dispatch(
            Command::ListAxes { controller },
        ),
        ClientCommand::Ping { .. } => {
            let ts = now_rfc3339();
            let data = render_ping_response(ts.as_str());
            Ok(data)
        },
    }
}

/// What processing one line does: the parse outcome decides everything, and
/// a dispatched command's result is wrapped under the request's id.
pub open spec fn process_post<C: MotorController>(
    line: Seq<char>,
    pre: ControllerManager<C>,
    post: ControllerManager<C>,
    r: ServerResponse,
) -> bool {
    exists|pr: Result<ClientCommand, ProtocolError>|
        #[trigger] parse_outcome(line, pr) && (match pr {
            Err(e) => post == pre && (r matches ServerResponse::Error { id, message, code } && id
                is None && message@ == "Failed to parse command: "@ + e.spec_text() && code
                is None),
            Ok(cmd) => match spec_to_command(cmd) {
                None => post == pre && (r matches ServerResponse::Success { id, data } && id
                    == cmd.spec_id() && exists|ts: Seq<char>| data@ == ping_json(ts)),
                Some(c) => exists|dr: Result<String, DeviceError>|
                    #[trigger] ControllerManager::dispatch_post(pre, post, c, dr) && (match dr {
                        Ok(data) => r matches ServerResponse::Success { id, data: d } && id
                            == cmd.spec_id() && d == data,
                        Err(e) => r matches ServerResponse::Error { id, message, code } && id
                            == cmd.spec_id() && message@ == e.message@ && code is None,
                    }),
            },
        })
}

/// Decodes one line, runs it, and produces exactly one response value. A
/// decode failure is answered on the spot, without an id; everything else is
/// answered under the request's id, success or error.
pub fn process_command<C: MotorController>(line: &str, manager: &mut ControllerManager<C>) -> (r:
    ServerResponse)
    requires
        old(manager).wf(),
    ensures
        final(manager).wf(),
        process_post(line@, *old(manager), *final(manager), r),
{
    let parsed = parse_command(line);
    let ghost pr = parsed;
    match parsed {
        Err(e) => {
            let resp = ServerResponse::error(
                None,
                String::from_str("Failed to parse command: ").concat(e.text().as_str()),
            );
            proof {
                assert(parse_outcome(line@, pr));
            }
            resp
        },
        Ok(command) => {
            let command_id = match command.id() {
                Some(s) => Some(s.clone()),
                None => None,
            };
            let result = execute_command(command, manager);
            match result {
                Ok(data) => {
                    let resp = ServerResponse::success(command_id, data);
                    proof {
                        assert(parse_outcome(line@, pr));
                    }
                    resp
                },
                Err(e) => {
                    let resp = ServerResponse::error(command_id, e.text());
                    proof {
                        assert(parse_outcome(line@, pr));
                    }
                    resp
                },
            }
        },
    }
}

/// Serializes one response as the line the session writes back.
pub fn render_response_line(response: &ServerResponse) -> (r: String)
    ensures
        r@ == crate::protocol::spec_serialized(*response),
{
    match serialize_response(response) {
        Ok(s) => s,
        Err(_) => String::new(),
    }
}

} // verus!
