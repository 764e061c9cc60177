//! The line protocol: request commands, response values, their exact wire
//! text, and the parser from a request line to a command.
//!
//! Responses are rendered by verified string building; the spec functions
//! here are the authoritative description of every byte the gateway sends.
//! Parsing reads the request's fields through the named accessors of `wire`,
//! and the parser's contract pins the outcome for every line.

use vstd::prelude::*;

use crate::axis::{AxisState, LimitSwitches, MovementParams, Num};
use crate::jsontext::{append_quoted, append_string_array, json_quoted, json_string_array};
use crate::strings::str_eq;
use crate::wire::{
    json_custom_number_field, json_custom_number_field_of, json_nested_number_field,
    json_nested_number_field_of, json_nested_object_keys, json_nested_object_keys_of,
    json_number_field, json_number_field_of, json_parse_error, json_parse_error_of,
    json_text_field, json_text_field_of, opt_view,
};
use vstd::string::*;

verus! {

/// A failure of the protocol layer itself: a line that is not valid JSON, a
/// command kind the gateway does not know, or a request missing a field.
#[derive(Debug, Clone)]
pub enum ProtocolError {
    InvalidJson(String),
    UnsupportedCommand(String),
    MissingField(String),
    IoError(String),
}

impl ProtocolError {
    /// The message shown to clients for each failure.
    pub open spec fn spec_text(&self) -> Seq<char> {
        match self {
            ProtocolError::InvalidJson(m) => "Invalid JSON: "@ + m@,
            ProtocolError::UnsupportedCommand(c) => "Unsupported command: "@ + c@,
            ProtocolError::MissingField(f) => "Missing required field: "@ + f@,
            ProtocolError::IoError(e) => "IO error: "@ + e@,
        }
    }

    /// Renders the failure for clients.
    pub fn text(&self) -> (r: String)
        ensures
            r@ == self.spec_text(),
    {
        match self {
            ProtocolError::InvalidJson(m) => String::from_str("Invalid JSON: ").concat(m.as_str()),
            ProtocolError::UnsupportedCommand(c) => String::from_str(
                "Unsupported command: ",
            ).concat(c.as_str()),
            ProtocolError::MissingField(f) => String::from_str(
                "Missing required field: ",
            ).concat(f.as_str()),
            ProtocolError::IoError(e) => String::from_str("IO error: ").concat(e.as_str()),
        }
    }
}

/// One decoded client request.
#[derive(Debug, Clone)]
pub enum ClientCommand {
    Move {
        controller: String,
        axis: String,
        target: Num,
        params: Option<MovementParams>,
        id: Option<String>,
    },
    Stop { controller: String, axis: String, id: Option<String> },
    GetState { controller: String, axis: String, id: Option<String> },
    GetPosition { controller: String, axis: String, id: Option<String> },
    GetAttribute { controller: String, axis: String, attribute: String, id: Option<String> },
    GetAvailableParams { controller: String, axis: String, id: Option<String> },
    GetSupportedMovementParams { controller: String, axis: String, id: Option<String> },
    ListControllers { id: Option<String> },
    ListAxes { controller: String, id: Option<String> },
    Ping { id: Option<String> },
}

impl ClientCommand {
    /// The request's correlation id, if the client sent one.
    pub open spec fn spec_id(&self) -> Option<String> {
        match self {
            ClientCommand::Move { id, .. } => *id,
            ClientCommand::Stop { id, .. } => *id,
            ClientCommand::GetState { id, .. } => *id,
            ClientCommand::GetPosition { id, .. } => *id,
            ClientCommand::GetAttribute { id, .. } => *id,
            ClientCommand::GetAvailableParams { id, .. } => *id,
            ClientCommand::GetSupportedMovementParams { id, .. } => *id,
            ClientCommand::ListControllers { id, .. } => *id,
            ClientCommand::ListAxes { id, .. } => *id,
            ClientCommand::Ping { id, .. } => *id,
        }
    }

    /// The request's correlation id, if the client sent one.
    pub fn id(&self) -> (r: Option<&String>)
        ensures
            (r is Some) == (self.spec_id() is Some),
            r matches Some(s) ==> self.spec_id() == Some(*s),
    {
        match self {
            ClientCommand::Move { id, .. } => id.as_ref(),
            ClientCommand::Stop { id, .. } => id.as_ref(),
            ClientCommand::GetState { id, .. } => id.as_ref(),
            ClientCommand::GetPosition { id, .. } => id.as_ref(),
            ClientCommand::GetAttribute { id, .. } => id.as_ref(),
            ClientCommand::GetAvailableParams { id, .. } => id.as_ref(),
            ClientCommand::GetSupportedMovementParams { id, .. } => id.as_ref(),
            ClientCommand::ListControllers { id, .. } => id.as_ref(),
            ClientCommand::ListAxes { id, .. } => id.as_ref(),
            ClientCommand::Ping { id, .. } => id.as_ref(),
        }
    }
}

/// One response line's value: a success carrying a rendered JSON fragment as
/// its data, or an error carrying a message and an optional code.
#[derive(Debug, Clone)]
pub enum ServerResponse {
    Success { id: Option<String>, data: String },
    Error { id: Option<String>, message: String, code: Option<String> },
}

impl ServerResponse {
    /// A success response.
    pub fn success(id: Option<String>, data: String) -> (r: ServerResponse)
        ensures
            r == (ServerResponse::Success { id, data }),
    {
        ServerResponse::Success { id, data }
    }

    /// An error response without a code.
    pub fn error(id: Option<String>, message: String) -> (r: ServerResponse)
        ensures
            r == (ServerResponse::Error { id, message, code: None }),
    {
        ServerResponse::Error { id, message, code: None }
    }

    /// An error response with a code.
    pub fn error_with_code(id: Option<String>, message: String, code: String) -> (r: ServerResponse)
        ensures
            r == (ServerResponse::Error { id, message, code: Some(code) }),
    {
        ServerResponse::Error { id, message, code: Some(code) }
    }
}

/// The optional `"id"` member of a response, with its leading comma.
pub open spec fn id_part(id: Option<String>) -> Seq<char> {
    match id {
        Some(s) => ",\"id\":"@ + json_quoted(s@),
        None => Seq::empty(),
    }
}

/// The optional `"code"` member of an error response.
pub open spec fn code_part(code: Option<String>) -> Seq<char> {
    match code {
        Some(s) => ",\"code\":"@ + json_quoted(s@),
        None => Seq::empty(),
    }
}

/// The exact wire text of a response.
pub open spec fn spec_serialized(r: ServerResponse) -> Seq<char> {
    match r {
        ServerResponse::Success { id, data } => "{\"status\":\"success\""@ + id_part(id)
            + ",\"data\":"@ + data@ + "}"@,
        ServerResponse::Error { id, message, code } => "{\"status\":\"error\""@ + id_part(id)
            + ",\"message\":"@ + json_quoted(message@) + code_part(code) + "}"@,
    }
}

/// Renders a response as one line of wire text.
pub fn serialize_response(response: &ServerResponse) -> (r: Result<String, ProtocolError>)
    ensures
        r matches Ok(s) && s@ == spec_serialized(*response),
{
    match response {
        ServerResponse::Success { id, data } => {
            let mut out = String::from_str("{\"status\":\"success\"");
            if let Some(s) = id {
                out.append(",\"id\":");
                append_quoted(&mut out, s.as_str());
            }
            out.append(",\"data\":");
            out.append(data.as_str());
            out.append("}");
            Ok(out)
        },
        ServerResponse::Error { id, message, code } => {
            let mut out = String::from_str("{\"status\":\"error\"");
            if let Some(s) = id {
                out.append(",\"id\":");
                append_quoted(&mut out, s.as_str());
            }
            out.append(",\"message\":");
            append_quoted(&mut out, message.as_str());
            if let Some(s) = code {
                out.append(",\"code\":");
                append_quoted(&mut out, s.as_str());
            }
            out.append("}");
            Ok(out)
        },
    }
}

// ---------------------------------------------------------------------------
// The data fragments the dispatcher answers with.
// ---------------------------------------------------------------------------

/// The display name of an axis state on the wire.
pub open spec fn state_name_of(s: AxisState) -> Seq<char> {
    match s {
        AxisState::On => "On"@,
        AxisState::Moving => "Moving"@,
        AxisState::Alarm => "Alarm"@,
        AxisState::Fault => "Fault"@,
        AxisState::Unknown => "Unknown"@,
    }
}

/// The display name of a limit-switch status on the wire. A clear status is
/// written `None`.
pub open spec fn switches_name_of(s: LimitSwitches) -> Seq<char> {
    match s {
        LimitSwitches::Clear => "None"@,
        LimitSwitches::Upper => "Upper"@,
        LimitSwitches::Lower => "Lower"@,
        LimitSwitches::Both => "Both"@,
    }
}

/// The display name of an axis state.
pub fn state_name(s: AxisState) -> (r: String)
    ensures
        r@ == state_name_of(s),
{
    match s {
        AxisState::On => String::from_str("On"),
        AxisState::Moving => String::from_str("Moving"),
        AxisState::Alarm => String::from_str("Alarm"),
        AxisState::Fault => String::from_str("Fault"),
        AxisState::Unknown => String::from_str("Unknown"),
    }
}

/// The display name of a limit-switch status.
pub fn switches_name(s: LimitSwitches) -> (r: String)
    ensures
        r@ == switches_name_of(s),
{
    match s {
        LimitSwitches::Clear => String::from_str("None"),
        LimitSwitches::Upper => String::from_str("Upper"),
        LimitSwitches::Lower => String::from_str("Lower"),
        LimitSwitches::Both => String::from_str("Both"),
    }
}

/// The acknowledgement for an accepted move, echoing the target.
pub open spec fn move_ack_json(target: Seq<char>) -> Seq<char> {
    "{\"status\":\"ok\",\"action\":\"move\",\"target\":"@ + target + "}"@
}

/// The acknowledgement for a stop.
pub open spec fn stop_ack_json() -> Seq<char> {
    "{\"status\":\"ok\",\"action\":\"stop\"}"@
}

/// The answer to a position query.
pub open spec fn pos_response_json(c: Seq<char>, a: Seq<char>, token: Seq<char>) -> Seq<char> {
    "{\"controller\":"@ + json_quoted(c) + ",\"axis\":"@ + json_quoted(a) + ",\"position\":"@
        + token + "}"@
}

/// The snapshot fragment a state query answers with (and caches).
pub open spec fn status_fragment_json(
    state: Seq<char>,
    message: Option<Seq<char>>,
    switches: Seq<char>,
) -> Seq<char> {
    "{\"state\":"@ + json_quoted(state) + ",\"message\":"@ + (match message {
        Some(m) => json_quoted(m),
        None => "null"@,
    }) + ",\"limit_switches\":"@ + json_quoted(switches) + "}"@
}

/// The answer to a state query.
pub open spec fn state_response_json(c: Seq<char>, a: Seq<char>, fragment: Seq<char>) -> Seq<char> {
    "{\"controller\":"@ + json_quoted(c) + ",\"axis\":"@ + json_quoted(a) + ",\"status\":"@
        + fragment + "}"@
}

/// The answer to an attribute query.
pub open spec fn attr_response_json(
    c: Seq<char>,
    a: Seq<char>,
    attribute: Seq<char>,
    token: Seq<char>,
) -> Seq<char> {
    "{\"controller\":"@ + json_quoted(c) + ",\"axis\":"@ + json_quoted(a) + ",\"attribute\":"@
        + json_quoted(attribute) + ",\"value\":"@ + token + "}"@
}

/// The answer to an available-parameters query.
pub open spec fn available_response_json(c: Seq<char>, a: Seq<char>, items: Seq<Seq<char>>) -> Seq<
    char,
> {
    "{\"controller\":"@ + json_quoted(c) + ",\"axis\":"@ + json_quoted(a) + ",\"available_params\":"@
        + json_string_array(items) + "}"@
}

/// The answer to a supported-movement-parameters query.
pub open spec fn supported_response_json(c: Seq<char>, a: Seq<char>, items: Seq<Seq<char>>) -> Seq<
    char,
> {
    "{\"controller\":"@ + json_quoted(c) + ",\"axis\":"@ + json_quoted(a)
        + ",\"supported_movement_params\":"@ + json_string_array(items) + "}"@
}

/// The answer to a controller listing.
pub open spec fn controllers_response_json(items: Seq<Seq<char>>) -> Seq<char> {
    "{\"controllers\":"@ + json_string_array(items) + "}"@
}

/// The answer to an axis listing.
pub open spec fn axes_response_json(c: Seq<char>, items: Seq<Seq<char>>) -> Seq<char> {
    "{\"controller\":"@ + json_quoted(c) + ",\"axes\":"@ + json_string_array(items) + "}"@
}

/// The answer to a ping, carrying a timestamp.
pub open spec fn ping_json(timestamp: Seq<char>) -> Seq<char> {
    "{\"message\":\"pong\",\"timestamp\":"@ + json_quoted(timestamp) + "}"@
}

/// Renders the move acknowledgement.
pub fn render_move_ack(target: &Num) -> (r: String)
    ensures
        r@ == move_ack_json(target@),
{
    String::from_str("{\"status\":\"ok\",\"action\":\"move\",\"target\":").concat(
        target.text(),
    ).concat("}")
}

/// Renders the stop acknowledgement.
pub fn render_stop_ack() -> (r: String)
    ensures
        r@ == stop_ack_json(),
{
    String::from_str("{\"status\":\"ok\",\"action\":\"stop\"}")
}

/// Renders the answer to a position query.
pub fn render_pos_response(c: &str, a: &str, token: &str) -> (r: String)
    ensures
        r@ == pos_response_json(c@, a@, token@),
{
    let mut out = String::from_str("{\"controller\":");
    append_quoted(&mut out, c);
    out.append(",\"axis\":");
    append_quoted(&mut out, a);
    out.append(",\"position\":");
    out.append(token);
    out.append("}");
    out
}

/// Renders the snapshot fragment of a state query.
pub fn render_status_fragment(state: String, message: &Option<String>, switches: String) -> (r:
    String)
    ensures
        r@ == status_fragment_json(state@, opt_view(*message), switches@),
{
    let mut out = String::from_str("{\"state\":");
    append_quoted(&mut out, state.as_str());
    out.append(",\"message\":");
    match message {
        Some(m) => append_quoted(&mut out, m.as_str()),
        None => out.append("null"),
    }
    out.append(",\"limit_switches\":");
    append_quoted(&mut out, switches.as_str());
    out.append("}");
    out
}

/// Renders the answer to a state query.
pub fn render_state_response(c: &str, a: &str, fragment: &str) -> (r: String)
    ensures
        r@ == state_response_json(c@, a@, fragment@),
{
    let mut out = String::from_str("{\"controller\":");
    append_quoted(&mut out, c);
    out.append(",\"axis\":");
    append_quoted(&mut out, a);
    out.append(",\"status\":");
    out.append(fragment);
    out.append("}");
    out
}

/// Renders the answer to an attribute query.
pub fn render_attr_response(c: &str, a: &str, attribute: &str, token: &str) -> (r: String)
    ensures
        r@ == attr_response_json(c@, a@, attribute@, token@),
{
    let mut out = String::from_str("{\"controller\":");
    append_quoted(&mut out, c);
    out.append(",\"axis\":");
    append_quoted(&mut out, a);
    out.append(",\"attribute\":");
    append_quoted(&mut out, attribute);
    out.append(",\"value\":");
    out.append(token);
    out.append("}");
    out
}

/// Renders the answer to an available-parameters query.
pub fn render_available_response(c: &str, a: &str, items: &Vec<String>) -> (r: String)
    ensures
        r@ == available_response_json(c@, a@, items.deep_view()),
{
    let mut out = String::from_str("{\"controller\":");
    append_quoted(&mut out, c);
    out.append(",\"axis\":");
    append_quoted(&mut out, a);
    out.append(",\"available_params\":");
    append_string_array(&mut out, items);
    out.append("}");
    out
}

/// Renders the answer to a supported-movement-parameters query.
pub fn render_supported_response(c: &str, a: &str, items: &Vec<String>) -> (r: String)
    ensures
        r@ == supported_response_json(c@, a@, items.deep_view()),
{
    let mut out = String::from_str("{\"controller\":");
    append_quoted(&mut out, c);
    out.append(",\"axis\":");
    append_quoted(&mut out, a);
    out.append(",\"supported_movement_params\":");
    append_string_array(&mut out, items);
    out.append("}");
    out
}

/// Renders the answer to a controller listing.
pub fn render_controllers_response(items: &Vec<String>) -> (r: String)
    ensures
        r@ == controllers_response_json(items.deep_view()),
{
    let mut out = String::from_str("{\"controllers\":");
    append_string_array(&mut out, items);
    out.append("}");
    out
}

/// Renders the answer to an axis listing.
pub fn render_axes_response(c: &str, items: &Vec<String>) -> (r: String)
    ensures
        r@ == axes_response_json(c@, items.deep_view()),
{
    let mut out = String::from_str("{\"controller\":");
    append_quoted(&mut out, c);
    out.append(",\"axes\":");
    append_string_array(&mut out, items);
    out.append("}");
    out
}

/// Renders the answer to a ping.
pub fn render_ping_response(timestamp: &str) -> (r: String)
    ensures
        r@ == ping_json(timestamp@),
{
    let mut out = String::from_str("{\"message\":\"pong\",\"timestamp\":");
    append_quoted(&mut out, timestamp);
    out.append("}");
    out
}

// ---------------------------------------------------------------------------
// Parsing a request line.
// ---------------------------------------------------------------------------

/// An `Option<Num>` as an optional token sequence.
pub open spec fn num_opt_view(o: Option<Num>) -> Option<Seq<char>> {
    match o {
        Some(n) => Some(n@),
        None => None,
    }
}

/// The custom parameter pairs as token sequences.
pub open spec fn custom_view(v: Seq<(String, Num)>) -> Seq<(Seq<char>, Seq<char>)> {
    v.map_values(|p: (String, Num)| (p.0@, p.1@))
}

/// Whether the line carries a `params` member with any content the protocol
/// reads.
pub open spec fn params_present(line: Seq<char>) -> bool {
    ||| json_nested_number_field_of(line, "params"@, "velocity"@) is Some
    ||| json_nested_number_field_of(line, "params"@, "acceleration"@) is Some
    ||| json_nested_number_field_of(line, "params"@, "deceleration"@) is Some
    ||| json_nested_object_keys_of(line, "params"@, "custom"@) is Some
}

/// The custom parameters the line carries under the given member names, in
/// order, keeping only numeric members.
pub open spec fn custom_from(line: Seq<char>, keys: Seq<Seq<char>>) -> Seq<(Seq<char>, Seq<char>)>
    decreases keys.len(),
{
    if keys.len() == 0 {
        Seq::empty()
    } else {
        let rest = custom_from(line, keys.drop_first());
        match json_custom_number_field_of(line, "params"@, "custom"@, keys[0]) {
            Some(token) => seq![(keys[0], token)] + rest,
            None => rest,
        }
    }
}

/// The custom parameters the line carries.
pub open spec fn custom_of(line: Seq<char>) -> Seq<(Seq<char>, Seq<char>)> {
    match json_nested_object_keys_of(line, "params"@, "custom"@) {
        Some(ks) => custom_from(line, ks),
        None => Seq::empty(),
    }
}

/// `p` is exactly the movement tuning the line carries.
pub open spec fn params_match(line: Seq<char>, p: MovementParams) -> bool {
    &&& num_opt_view(p.velocity) == json_nested_number_field_of(line, "params"@, "velocity"@)
    &&& num_opt_view(p.acceleration) == json_nested_number_field_of(
        line,
        "params"@,
        "acceleration"@,
    )
    &&& num_opt_view(p.deceleration) == json_nested_number_field_of(
        line,
        "params"@,
        "deceleration"@,
    )
    &&& custom_view(p.custom@) == custom_of(line)
}

/// The optional movement tuning decoded from the line.
pub open spec fn opt_params_match(line: Seq<char>, op: Option<MovementParams>) -> bool {
    match op {
        None => !params_present(line),
        Some(p) => params_present(line) && params_match(line, p),
    }
}

/// Growing the key list on the right appends at most one pair on the right.
proof fn lemma_custom_from_push(line: Seq<char>, keys: Seq<Seq<char>>, k: Seq<char>)
    ensures
        custom_from(line, keys.push(k)) == custom_from(line, keys) + (match
            json_custom_number_field_of(line, "params"@, "custom"@, k) {
            Some(token) => seq![(k, token)],
            None => Seq::<(Seq<char>, Seq<char>)>::empty(),
        }),
    decreases keys.len(),
{
    let tail = (match json_custom_number_field_of(line, "params"@, "custom"@, k) {
        Some(token) => seq![(k, token)],
        None => Seq::<(Seq<char>, Seq<char>)>::empty(),
    });
    if keys.len() == 0 {
        assert(keys.push(k)[0] == k);
        assert(keys.push(k).drop_first() =~= Seq::<Seq<char>>::empty());
        assert(custom_from(line, Seq::<Seq<char>>::empty()).len() == 0);
        assert(custom_from(line, keys) + tail =~~= tail);
        assert(custom_from(line, keys.push(k)) =~~= tail);
    } else {
        assert(keys.push(k)[0] == keys[0]);
        assert(keys.push(k).drop_first() =~= keys.drop_first().push(k));
        lemma_custom_from_push(line, keys.drop_first(), k);
        match json_custom_number_field_of(line, "params"@, "custom"@, keys[0]) {
            Some(token) => {
                assert(custom_from(line, keys.push(k)) =~~= custom_from(line, keys) + tail);
            },
            None => {
                assert(custom_from(line, keys.push(k)) =~~= custom_from(line, keys) + tail);
            },
        }
    }
}

/// Decodes the optional movement tuning of a move request.
pub fn parse_params(line: &str) -> (r: Option<MovementParams>)
    ensures
        opt_params_match(line@, r),
{
    let velocity = json_nested_number_field(line, "params", "velocity");
    let acceleration = json_nested_number_field(line, "params", "acceleration");
    let deceleration = json_nested_number_field(line, "params", "deceleration");
    let keys = json_nested_object_keys(line, "params", "custom");
    if velocity.is_none() && acceleration.is_none() && deceleration.is_none() && keys.is_none() {
        return None;
    }
    let mut custom: Vec<(String, Num)> = Vec::new();
    if let Some(ks) = keys {
        let n = ks.len();
        let mut i: usize = 0;
        while i < n
            invariant
                n == ks@.len(),
                custom_view(custom@) == custom_from(line@, ks.deep_view().subrange(0, i as int)),
                i <= n,
            decreases n - i,
        {
            let ghost prefix = ks.deep_view().subrange(0, i as int);
            match json_custom_number_field(line, "params", "custom", ks[i].as_str()) {
                Some(token) => {
                    custom.push((ks[i].clone(), Num::new(token)));
                },
                None => {},
            }
            proof {
                assert(ks.deep_view()[i as int] == ks@[i as int]@);
                assert(ks.deep_view().subrange(0, i + 1 as int) =~= prefix.push(
                    ks.deep_view()[i as int],
                ));
                lemma_custom_from_push(line@, prefix, ks.deep_view()[i as int]);
                assert(custom_view(custom@) =~~= custom_from(
                    line@,
                    ks.deep_view().subrange(0, i + 1 as int),
                ));
            }
            i += 1;
        }
        proof {
            assert(ks.deep_view().subrange(0, n as int) =~= ks.deep_view());
            assert(custom_view(custom@) == custom_of(line@));
        }
    } else {
        proof {
            assert(custom_view(custom@) =~~= custom_of(line@));
        }
    }
    let p = MovementParams {
        velocity: match velocity {
            Some(t) => Some(Num::new(t)),
            None => None,
        },
        acceleration: match acceleration {
            Some(t) => Some(Num::new(t)),
            None => None,
        },
        deceleration: match deceleration {
            Some(t) => Some(Num::new(t)),
            None => None,
        },
        custom,
    };
    Some(p)
}

/// The outcome of a missing required field.
pub open spec fn missing_field(r: Result<ClientCommand, ProtocolError>, f: Seq<char>) -> bool {
    r matches Err(ProtocolError::MissingField(s)) && s@ == f
}

/// The id the line carries, if any.
pub open spec fn id_of(line: Seq<char>) -> Option<Seq<char>> {
    json_text_field_of(line, "id"@)
}

/// The outcome of a move request.
pub open spec fn move_outcome(line: Seq<char>, r: Result<ClientCommand, ProtocolError>) -> bool {
    match json_text_field_of(line, "controller"@) {
        None => missing_field(r, "controller"@),
        Some(c) => match json_text_field_of(line, "axis"@) {
            None => missing_field(r, "axis"@),
            Some(a) => match json_number_field_of(line, "target"@) {
                None => missing_field(r, "target"@),
                Some(t) => r matches Ok(
                    ClientCommand::Move { controller, axis, target, params, id },
                ) && controller@ == c && axis@ == a && target@ == t && opt_params_match(line, params)
                    && opt_view(id) == id_of(line),
            },
        },
    }
}

/// The outcome of a request carrying controller and axis.
pub open spec fn stop_outcome(line: Seq<char>, r: Result<ClientCommand, ProtocolError>) -> bool {
    match json_text_field_of(line, "controller"@) {
        None => missing_field(r, "controller"@),
        Some(c) => match json_text_field_of(line, "axis"@) {
            None => missing_field(r, "axis"@),
            Some(a) => r matches Ok(ClientCommand::Stop { controller, axis, id }) && controller@
                == c && axis@ == a && opt_view(id) == id_of(line),
        },
    }
}

/// The outcome of a state request.
pub open spec fn get_state_outcome(line: Seq<char>, r: Result<ClientCommand, ProtocolError>) -> bool {
    match json_text_field_of(line, "controller"@) {
        None => missing_field(r, "controller"@),
        Some(c) => match json_text_field_of(line, "axis"@) {
            None => missing_field(r, "axis"@),
            Some(a) => r matches Ok(ClientCommand::GetState { controller, axis, id }) && controller@
                == c && axis@ == a && opt_view(id) == id_of(line),
        },
    }
}

/// The outcome of a position request.
pub open spec fn get_position_outcome(
    line: Seq<char>,
    r: Result<ClientCommand, ProtocolError>,
) -> bool {
    match json_text_field_of(line, "controller"@) {
        None => missing_field(r, "controller"@),
        Some(c) => match json_text_field_of(line, "axis"@) {
            None => missing_field(r, "axis"@),
            Some(a) => r matches Ok(ClientCommand::GetPosition { controller, axis, id })
                && controller@ == c && axis@ == a && opt_view(id) == id_of(line),
        },
    }
}

/// The outcome of an attribute request.
pub open spec fn get_attribute_outcome(
    line: Seq<char>,
    r: Result<ClientCommand, ProtocolError>,
) -> bool {
    match json_text_field_of(line, "controller"@) {
        None => missing_field(r, "controller"@),
        Some(c) => match json_text_field_of(line, "axis"@) {
            None => missing_field(r, "axis"@),
            Some(a) => match json_text_field_of(line, "attribute"@) {
                None => missing_field(r, "attribute"@),
                Some(at) => r matches Ok(
                    ClientCommand::GetAttribute { controller, axis, attribute, id },
                ) && controller@ == c && axis@ == a && attribute@ == at && opt_view(id) == id_of(
                    line,
                ),
            },
        },
    }
}

/// The outcome of an available-parameters request.
pub open spec fn get_available_outcome(
    line: Seq<char>,
    r: Result<ClientCommand, ProtocolError>,
) -> bool {
    match json_text_field_of(line, "controller"@) {
        None => missing_field(r, "controller"@),
        Some(c) => match json_text_field_of(line, "axis"@) {
            None => missing_field(r, "axis"@),
            Some(a) => r matches Ok(ClientCommand::GetAvailableParams { controller, axis, id })
                && controller@ == c && axis@ == a && opt_view(id) == id_of(line),
        },
    }
}

/// The outcome of a supported-movement-parameters request.
pub open spec fn get_supported_outcome(
    line: Seq<char>,
    r: Result<ClientCommand, ProtocolError>,
) -> bool {
    match json_text_field_of(line, "controller"@) {
        None => missing_field(r, "controller"@),
        Some(c) => match json_text_field_of(line, "axis"@) {
            None => missing_field(r, "axis"@),
            Some(a) => r matches Ok(
                ClientCommand::GetSupportedMovementParams { controller, axis, id },
            ) && controller@ == c && axis@ == a && opt_view(id) == id_of(line),
        },
    }
}

/// The outcome of an axis listing request.
pub open spec fn list_axes_outcome(line: Seq<char>, r: Result<ClientCommand, ProtocolError>) -> bool {
    match json_text_field_of(line, "controller"@) {
        None => missing_field(r, "controller"@),
        Some(c) => r matches Ok(ClientCommand::ListAxes { controller, id }) && controller@ == c
            && opt_view(id) == id_of(line),
    }
}

/// What `parse_command` returns for every line: the parser's whole contract.
pub open spec fn parse_outcome(line: Seq<char>, r: Result<ClientCommand, ProtocolError>) -> bool {
    match json_parse_error_of(line) {
        Some(m) => r matches Err(ProtocolError::InvalidJson(s)) && s@ == m,
        None => match json_text_field_of(line, "type"@) {
            None => missing_field(r, "type"@),
            Some(ty) => if ty == "move"@ {
                move_outcome(line, r)
            } else if ty == "stop"@ {
                stop_outcome(line, r)
            } else if ty == "get_state"@ {
                get_state_outcome(line, r)
            } else if ty == "get_position"@ {
                get_position_outcome(line, r)
            } else if ty == "get_attribute"@ {
                get_attribute_outcome(line, r)
            } else if ty == "get_available_params"@ {
                get_available_outcome(line, r)
            } else if ty == "get_supported_movement_params"@ {
                get_supported_outcome(line, r)
            } else if ty == "list_controllers"@ {
                r matches Ok(ClientCommand::ListControllers { id }) && opt_view(id) == id_of(line)
            } else if ty == "list_axes"@ {
                list_axes_outcome(line, r)
            } else if ty == "ping"@ {
                r matches Ok(ClientCommand::Ping { id }) && opt_view(id) == id_of(line)
            } else {
                r matches Err(ProtocolError::UnsupportedCommand(s)) && s@ == ty
            },
        },
    }
}

/// Reads the required string field or reports it missing.
fn need_text_field(line: &str, key: &str) -> (r: Result<String, ProtocolError>)
    ensures
        match json_text_field_of(line@, key@) {
            Some(s) => r matches Ok(v) && v@ == s,
            None => r matches Err(ProtocolError::MissingField(f)) && f@ == key@,
        },
{
    match json_text_field(line, key) {
        Some(v) => Ok(v),
        None => Err(ProtocolError::MissingField(key.to_owned())),
    }
}

/// Decodes one request line into a command.
pub fn parse_command(line: &str) -> (r: Result<ClientCommand, ProtocolError>)
    ensures
        parse_outcome(line@, r),
{
    if let Some(m) = json_parse_error(line) {
        return Err(ProtocolError::InvalidJson(m));
    }
    let ty = match json_text_field(line, "type") {
        Some(t) => t,
        None => {
            return Err(ProtocolError::MissingField(String::from_str("type")));
        },
    };
    let id = json_text_field(line, "id");
    if str_eq(ty.as_str(), "move") {
        let controller = match need_text_field(line, "controller") {
            Ok(v) => v,
            Err(e) => {
                return Err(e);
            },
        };
        let axis = match need_text_field(line, "axis") {
            Ok(v) => v,
            Err(e) => {
                return Err(e);
            },
        };
        let target = match json_number_field(line, "target") {
            Some(t) => Num::new(t),
            None => {
                return Err(ProtocolError::MissingField(String::from_str("target")));
            },
        };
        let params = parse_params(line);
        Ok(ClientCommand::Move { controller, axis, target, params, id })
    } else if str_eq(ty.as_str(), "stop") {
        let controller = match need_text_field(line, "controller") {
            Ok(v) => v,
            Err(e) => {
                return Err(e);
            },
        };
        let axis = match need_text_field(line, "axis") {
            Ok(v) => v,
            Err(e) => {
                return Err(e);
            },
        };
        Ok(ClientCommand::Stop { controller, axis, id })
    } else if str_eq(ty.as_str(), "get_state") {
        let controller = match need_text_field(line, "controller") {
            Ok(v) => v,
            Err(e) => {
                return Err(e);
            },
        };
        let axis = match need_text_field(line, "axis") {
            Ok(v) => v,
            Err(e) => {
                return Err(e);
            },
        };
        Ok(ClientCommand::GetState { controller, axis, id })
    } else if str_eq(ty.as_str(), "get_position") {
        let controller = match need_text_field(line, "controller") {
            Ok(v) => v,
            Err(e) => {
                return Err(e);
            },
        };
        let axis = match need_text_field(line, "axis") {
            Ok(v) => v,
            Err(e) => {
                return Err(e);
            },
        };
        Ok(ClientCommand::GetPosition { controller, axis, id })
    } else if str_eq(ty.as_str(), "get_attribute") {
        let controller = match need_text_field(line, "controller") {
            Ok(v) => v,
            Err(e) => {
                return Err(e);
            },
        };
        let axis = match need_text_field(line, "axis") {
            Ok(v) => v,
            Err(e) => {
                return Err(e);
            },
        };
        let attribute = match need_text_field(line, "attribute") {
            Ok(v) => v,
            Err(e) => {
                return Err(e);
            },
        };
        Ok(ClientCommand::GetAttribute { controller, axis, attribute, id })
    } else if str_eq(ty.as_str(), "get_available_params") {
        let controller = match need_text_field(line, "controller") {
            Ok(v) => v,
            Err(e) => {
                return Err(e);
            },
        };
        let axis = match need_text_field(line, "axis") {
            Ok(v) => v,
            Err(e) => {
                return Err(e);
            },
        };
        Ok(ClientCommand::GetAvailableParams { controller, axis, id })
    } else if str_eq(ty.as_str(), "get_supported_movement_params") {
        let controller = match need_text_field(line, "controller") {
            Ok(v) => v,
            Err(e) => {
                return Err(e);
            },
        };
        let axis = match need_text_field(line, "axis") {
            Ok(v) => v,
            Err(e) => {
                return Err(e);
            },
        };
        Ok(ClientCommand::GetSupportedMovementParams { controller, axis, id })
    } else if str_eq(ty.as_str(), "list_controllers") {
        Ok(ClientCommand::ListControllers { id })
    } else if str_eq(ty.as_str(), "list_axes") {
        let controller = match need_text_field(line, "controller") {
            Ok(v) => v,
            Err(e) => {
                return Err(e);
            },
        };
        Ok(ClientCommand::ListAxes { controller, id })
    } else if str_eq(ty.as_str(), "ping") {
        Ok(ClientCommand::Ping { id })
    } else {
        Err(ProtocolError::UnsupportedCommand(ty))
    }
}

} // verus!
