//! The application protocol: the closed set of message types, the
//! message-level errors, and the reply frames the server writes.

use vstd::prelude::*;

use crate::client::EAInfo;
use crate::client::EAInfoModel;
use crate::clock::iso_utc_of;
use crate::clock::rfc3339_utc_millis;
use crate::json::JsonModel;
use crate::json::JsonValue;
use crate::json::members_model;
use crate::json::spec_get;
use crate::json::spec_ser;

verus! {

/// A message-level failure: logged and counted, never fatal to a session.
pub enum ProtocolError {
    /// The text is not a JSON document.
    InvalidJson,
    /// The document has no string field `type`.
    MissingType,
    /// The `type` is none of the recognized ones.
    UnknownType(String),
    /// An `AUTH` message without a string `token`.
    MissingToken,
    /// The token does not match the configured one.
    InvalidToken,
    /// An event message from a client that has not authenticated.
    NotAuthenticated,
    /// The session's client record is gone.
    ClientNotFound,
}

/// Mathematical model of `ProtocolError`.
pub enum ProtocolErrorModel {
    InvalidJson,
    MissingType,
    UnknownType(Seq<char>),
    MissingToken,
    InvalidToken,
    NotAuthenticated,
    ClientNotFound,
}

impl View for ProtocolError {
    type V = ProtocolErrorModel;

    open spec fn view(&self) -> ProtocolErrorModel {
        match self {
            ProtocolError::InvalidJson => ProtocolErrorModel::InvalidJson,
            ProtocolError::MissingType => ProtocolErrorModel::MissingType,
            ProtocolError::UnknownType(t) => ProtocolErrorModel::UnknownType(t@),
            ProtocolError::MissingToken => ProtocolErrorModel::MissingToken,
            ProtocolError::InvalidToken => ProtocolErrorModel::InvalidToken,
            ProtocolError::NotAuthenticated => ProtocolErrorModel::NotAuthenticated,
            ProtocolError::ClientNotFound => ProtocolErrorModel::ClientNotFound,
        }
    }
}

/// The text of each message-level failure.
pub open spec fn spec_error_text(e: &ProtocolError) -> Seq<char> {
    match e {
        ProtocolError::InvalidJson => "Invalid JSON"@,
        ProtocolError::MissingType => "Missing message type"@,
        ProtocolError::UnknownType(t) => "Unknown message type: "@ + t@,
        ProtocolError::MissingToken => "Missing auth token"@,
        ProtocolError::InvalidToken => "Invalid auth token"@,
        ProtocolError::NotAuthenticated => "Client not authenticated"@,
        ProtocolError::ClientNotFound => "Client not found"@,
    }
}

impl ProtocolError {
    /// The error as the host UI and the log see it.
    pub fn message(&self) -> (r: String)
        ensures
            r@ == spec_error_text(self),
    {
        match self {
            ProtocolError::InvalidJson => String::from_str("Invalid JSON"),
            ProtocolError::MissingType => String::from_str("Missing message type"),
            ProtocolError::UnknownType(t) => String::from_str("Unknown message type: ").concat(
                t.as_str(),
            ),
            ProtocolError::MissingToken => String::from_str("Missing auth token"),
            ProtocolError::InvalidToken => String::from_str("Invalid auth token"),
            ProtocolError::NotAuthenticated => String::from_str("Client not authenticated"),
            ProtocolError::ClientNotFound => String::from_str("Client not found"),
        }
    }
}

/// The `type` field of a message, when it is a string.
pub open spec fn spec_msg_type(j: JsonModel) -> Option<Seq<char>> {
    match spec_get(j, "type"@) {
        Option::Some(JsonModel::Str(t)) => Option::Some(t),
        _ => Option::None,
    }
}

/// The event types a client may send once authenticated; their payloads
/// are handed upward, not interpreted here.
pub open spec fn spec_is_event_type(t: Seq<char>) -> bool {
    ||| t == "OPENED"@
    ||| t == "CLOSED"@
    ||| t == "ERROR"@
    ||| t == "PRICE"@
    ||| t == "PONG"@
    ||| t == "INFO"@
}

/// Whether this type names a client event.
pub fn is_event_type(t: &String) -> (r: bool)
    ensures
        r == spec_is_event_type(t@),
{
    t.eq(&String::from_str("OPENED")) || t.eq(&String::from_str("CLOSED")) || t.eq(
        &String::from_str("ERROR"),
    ) || t.eq(&String::from_str("PRICE")) || t.eq(&String::from_str("PONG")) || t.eq(
        &String::from_str("INFO"),
    )
}

/// The string field `key` of a message, when it is a string.
pub open spec fn spec_opt_str(j: JsonModel, key: Seq<char>) -> Option<Seq<char>> {
    match spec_get(j, key) {
        Option::Some(JsonModel::Str(s)) => Option::Some(s),
        _ => Option::None,
    }
}

/// The string field `key` of a message, or `unknown` when absent or not a
/// string.
pub open spec fn spec_str_or_unknown(j: JsonModel, key: Seq<char>) -> Seq<char> {
    match spec_opt_str(j, key) {
        Option::Some(s) => s,
        Option::None => "unknown"@,
    }
}

/// What an `AUTH` message reports about the client, read from its
/// `eaInfo` field if that field is there.
pub open spec fn spec_ea_info_of(j: JsonModel) -> Option<EAInfoModel> {
    match spec_get(j, "eaInfo"@) {
        Option::Some(info) => Option::Some(
            EAInfoModel {
                version: spec_str_or_unknown(info, "version"@),
                platform: spec_str_or_unknown(info, "platform"@),
                account: spec_str_or_unknown(info, "account"@),
                server_name: spec_opt_str(info, "serverName"@),
                company_name: spec_opt_str(info, "companyName"@),
            },
        ),
        Option::None => Option::None,
    }
}

/// The reply to a successful `AUTH`.
pub open spec fn spec_auth_success_doc(now_ms: u64, client_id: Seq<char>) -> JsonModel {
    JsonModel::Obj(
        seq![
            ("type"@, JsonModel::Str("AUTH_SUCCESS"@)),
            ("timestamp"@, JsonModel::Str(iso_utc_of(now_ms))),
            ("clientId"@, JsonModel::Str(client_id)),
        ],
    )
}

/// The reply to a `HEARTBEAT`.
pub open spec fn spec_heartbeat_ack_doc(now_ms: u64) -> JsonModel {
    JsonModel::Obj(
        seq![
            ("type"@, JsonModel::Str("HEARTBEAT_ACK"@)),
            ("timestamp"@, JsonModel::Str(iso_utc_of(now_ms))),
        ],
    )
}

/// The liveness frame the server broadcasts on each reaper tick.
pub open spec fn spec_heartbeat_doc(now_ms: u64) -> JsonModel {
    JsonModel::Obj(
        seq![
            ("type"@, JsonModel::Str("HEARTBEAT"@)),
            ("timestamp"@, JsonModel::Str(iso_utc_of(now_ms))),
            ("server"@, JsonModel::Str("hedge-system-ws"@)),
        ],
    )
}

/// Build the reply to a successful `AUTH`.
pub fn auth_success_reply(client_id: &String, now_ms: u64) -> (r: String)
    ensures
        r@ == spec_ser(spec_auth_success_doc(now_ms, client_id@)),
{
    let mut pairs: Vec<(String, JsonValue)> = Vec::new();
    pairs.push((String::from_str("type"), JsonValue::Str(String::from_str("AUTH_SUCCESS"))));
    pairs.push((String::from_str("timestamp"), JsonValue::Str(rfc3339_utc_millis(now_ms))));
    pairs.push((String::from_str("clientId"), JsonValue::Str(client_id.clone())));
    let doc = JsonValue::Obj(pairs);
    proof {
        reveal_with_fuel(members_model, 4);
        assert(doc@ == spec_auth_success_doc(now_ms, client_id@)) by {
            assert(members_model(doc->Obj_0@) =~= spec_auth_success_doc(now_ms, client_id@)->Obj_0);
        }
    }
    doc.to_json_string()
}

/// Build the reply to a `HEARTBEAT`.
pub fn heartbeat_ack_reply(now_ms: u64) -> (r: String)
    ensures
        r@ == spec_ser(spec_heartbeat_ack_doc(now_ms)),
{
    let mut pairs: Vec<(String, JsonValue)> = Vec::new();
    pairs.push((String::from_str("type"), JsonValue::Str(String::from_str("HEARTBEAT_ACK"))));
    pairs.push((String::from_str("timestamp"), JsonValue::Str(rfc3339_utc_millis(now_ms))));
    let doc = JsonValue::Obj(pairs);
    proof {
        reveal_with_fuel(members_model, 3);
        assert(doc@ == spec_heartbeat_ack_doc(now_ms)) by {
            assert(members_model(doc->Obj_0@) =~= spec_heartbeat_ack_doc(now_ms)->Obj_0);
        }
    }
    doc.to_json_string()
}

/// Build the liveness frame the server broadcasts.
pub fn heartbeat_frame(now_ms: u64) -> (r: String)
    ensures
        r@ == spec_ser(spec_heartbeat_doc(now_ms)),
{
    let mut pairs: Vec<(String, JsonValue)> = Vec::new();
    pairs.push((String::from_str("type"), JsonValue::Str(String::from_str("HEARTBEAT"))));
    pairs.push((String::from_str("timestamp"), JsonValue::Str(rfc3339_utc_millis(now_ms))));
    pairs.push((String::from_str("server"), JsonValue::Str(String::from_str("hedge-system-ws"))));
    let doc = JsonValue::Obj(pairs);
    proof {
        reveal_with_fuel(members_model, 4);
        assert(doc@ == spec_heartbeat_doc(now_ms)) by {
            assert(members_model(doc->Obj_0@) =~= spec_heartbeat_doc(now_ms)->Obj_0);
        }
    }
    doc.to_json_string()
}

/// The string field `key` of a message, when it is a string.
pub fn get_str_field<'a>(v: &'a JsonValue, key: &String) -> (r: Option<&'a String>)
    ensures
        match r {
            Option::Some(s) => spec_opt_str(v@, key@) == Option::Some(s@),
            Option::None => spec_opt_str(v@, key@) is None,
        },
{
    match v.get(key) {
        Option::Some(f) => f.as_str(),
        Option::None => Option::None,
    }
}

/// The string field `key` of a message, or `unknown`.
fn str_field_or_unknown(v: &JsonValue, key: &String) -> (r: String)
    ensures
        r@ == spec_str_or_unknown(v@, key@),
{
    match get_str_field(v, key) {
        Option::Some(s) => s.clone(),
        Option::None => String::from_str("unknown"),
    }
}

/// What an `AUTH` message reports about the client.
pub fn extract_ea_info(v: &JsonValue) -> (r: Option<EAInfo>)
    ensures
        match r {
            Option::Some(e) => spec_ea_info_of(v@) == Option::Some(e@),
            Option::None => spec_ea_info_of(v@) is None,
        },
{
    match v.get(&String::from_str("eaInfo")) {
        Option::Some(info) => Option::Some(
            EAInfo {
                version: str_field_or_unknown(info, &String::from_str("version")),
                platform: str_field_or_unknown(info, &String::from_str("platform")),
                account: str_field_or_unknown(info, &String::from_str("account")),
                server_name: match get_str_field(info, &String::from_str("serverName")) {
                    Option::Some(s) => Option::Some(s.clone()),
                    Option::None => Option::None,
                },
                company_name: match get_str_field(info, &String::from_str("companyName")) {
                    Option::Some(s) => Option::Some(s.clone()),
                    Option::None => Option::None,
                },
            },
        ),
        Option::None => Option::None,
    }
}

} // verus!
