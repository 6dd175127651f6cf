//! MCP protocol messages and their JSON form.

use vstd::prelude::*;
use crate::json::{Json, JsonValue, Num, jget, ji64, jstr, lemma_members_view, members_view};

verus! {

/// MCP request.
pub struct McpRequest {
    pub jsonrpc: String,
    pub id: Option<i64>,
    pub method: String,
    pub params: Option<JsonValue>,
}

/// MCP response.
pub struct McpResponse {
    pub jsonrpc: String,
    pub id: i64,
    pub result: Option<JsonValue>,
    pub error: Option<McpError>,
}

/// MCP error.
pub struct McpError {
    pub code: i64,
    pub message: String,
    pub data: Option<JsonValue>,
}

/// MCP tool definition.
pub struct McpToolDefinition {
    pub name: String,
    pub description: String,
    pub input_schema: JsonValue,
}

/// An optional field as derived deserialization reads it: absent or `null`
/// gives `None`.
pub open spec fn optional_member(v: Json, key: Seq<char>) -> Option<Json> {
    match jget(v, key) {
        None => None,
        Some(Json::Null) => None,
        Some(x) => Some(x),
    }
}

/// The request a JSON value decodes to, as the derived deserializer reads it
/// from an object (unknown members ignored) or from an array of exactly the four
/// fields in order: `jsonrpc` and `method` must be strings, `id` an integer in
/// `i64` range or absent/null, `params` anything or absent/null.
pub open spec fn decodes_to(v: Json, jsonrpc: Seq<char>, id: Option<i64>, method: Seq<char>, params: Option<Json>) -> bool {
    match v {
        Json::Object(_) => {
            &&& jget(v, "jsonrpc"@) matches Some(j) && jstr(j) == Some(jsonrpc)
            &&& jget(v, "method"@) matches Some(m) && jstr(m) == Some(method)
            &&& match optional_member(v, "id"@) {
                None => id is None,
                Some(x) => ji64(x) is Some && id == ji64(x),
            }
            &&& params == optional_member(v, "params"@)
        },
        Json::Array(a) => {
            &&& a.len() == 4
            &&& jstr(a[0]) == Some(jsonrpc)
            &&& (if a[1] == Json::Null { id is None } else { ji64(a[1]) is Some && id == ji64(a[1]) })
            &&& jstr(a[2]) == Some(method)
            &&& params == (if a[3] == Json::Null { None } else { Some(a[3]) })
        },
        _ => false,
    }
}

/// The value decodes to some request.
pub open spec fn decodable(v: Json) -> bool {
    exists|j: Seq<char>, i: Option<i64>, m: Seq<char>, p: Option<Json>| decodes_to(v, j, i, m, p)
}

/// The form of optional parameters.
pub open spec fn opt_view(o: Option<JsonValue>) -> Option<Json> {
    match o {
        Some(v) => Some(v@),
        None => None,
    }
}

/// The JSON form of an error: `code`, `message`, and `data` when present.
pub open spec fn error_json(e: McpError) -> Json {
    Json::Object(seq![("code"@, int_json(e.code)), ("message"@, Json::Str(e.message@))]
        + match e.data { Some(d) => seq![("data"@, d@)], None => Seq::empty() })
}

/// An integer as serde_json holds it.
pub open spec fn int_json(n: i64) -> Json {
    if n >= 0 { Json::Number(Num::PosInt(n as u64)) } else { Json::Number(Num::NegInt(n)) }
}

/// The JSON form of a response: `jsonrpc`, `id`, then `result` and `error` when present.
pub open spec fn response_json(r: McpResponse) -> Json {
    Json::Object(seq![("jsonrpc"@, Json::Str(r.jsonrpc@)), ("id"@, int_json(r.id))]
        + match r.result { Some(v) => seq![("result"@, v@)], None => Seq::empty() }
        + match r.error { Some(e) => seq![("error"@, error_json(e))], None => Seq::empty() })
}

/// The optional `id` as derived deserialization reads it.
fn read_id(v: Option<&JsonValue>) -> (r: Result<Option<i64>, ()>)
    ensures
        match v {
            None => r == Ok::<Option<i64>, ()>(None),
            Some(x) => if x@ == Json::Null { r == Ok::<Option<i64>, ()>(None) } else {
                match r {
                    Ok(i) => ji64(x@) is Some && i == ji64(x@),
                    Err(_) => ji64(x@) is None,
                }
            },
        },
{
    match v {
        None => Ok(None),
        Some(x) => {
            if let JsonValue::Null = x {
                return Ok(None);
            }
            match x.as_i64() {
                Some(i) => Ok(Some(i)),
                None => Err(()),
            }
        },
    }
}

impl McpRequest {
    /// Decode a request from JSON as the derived deserializer does; `None` when
    /// the value is not a request.
    pub fn from_json(v: &JsonValue) -> (r: Option<McpRequest>)
        ensures
            match r {
                Some(req) => decodes_to(v@, req.jsonrpc@, req.id, req.method@, opt_view(req.params)),
                None => !decodable(v@),
            },
    {
        match v {
            JsonValue::Object(_) => {
                let jsonrpc = match v.get("jsonrpc") {
                    Some(j) => match j.as_str() {
                        Some(s) => String::from_str(s),
                        None => return None,
                    },
                    None => return None,
                };
                let method = match v.get("method") {
                    Some(m) => match m.as_str() {
                        Some(s) => String::from_str(s),
                        None => return None,
                    },
                    None => return None,
                };
                let id = match read_id(v.get("id")) {
                    Ok(i) => i,
                    Err(_) => return None,
                };
                let params = match v.get("params") {
                    None => None,
                    Some(p) => if let JsonValue::Null = p { None } else { Some(p.deep_clone()) },
                };
                Some(McpRequest { jsonrpc, id, method, params })
            },
            JsonValue::Array(a) => {
                proof { crate::json::lemma_elems_view(a@); }
                if a.len() != 4 {
                    return None;
                }
                let jsonrpc = match a[0].as_str() {
                    Some(s) => String::from_str(s),
                    None => return None,
                };
                let id = match read_id(Some(&a[1])) {
                    Ok(i) => i,
                    Err(_) => return None,
                };
                let method = match a[2].as_str() {
                    Some(s) => String::from_str(s),
                    None => return None,
                };
                let params = if let JsonValue::Null = &a[3] { None } else { Some(a[3].deep_clone()) };
                Some(McpRequest { jsonrpc, id, method, params })
            },
            _ => None,
        }
    }
}

impl McpError {
    /// The JSON form of this error.
    pub fn to_json(&self) -> (r: JsonValue)
        ensures
            r@ == error_json(*self),
    {
        let mut m: Vec<(String, JsonValue)> = Vec::new();
        m.push((String::from_str("code"), JsonValue::integer(self.code)));
        m.push((String::from_str("message"), JsonValue::Str(self.message.clone())));
        match &self.data {
            Some(d) => m.push((String::from_str("data"), d.deep_clone())),
            None => {},
        }
        proof {
            lemma_members_view(m@);
            assert(members_view(m@) =~= seq![("code"@, int_json(self.code)), ("message"@, Json::Str(self.message@))]
                + match self.data { Some(d) => seq![("data"@, d@)], None => Seq::empty() });
        }
        JsonValue::object(m)
    }
}

impl McpResponse {
    /// The JSON form of this response (absent `result` and `error` are left out).
    pub fn to_json(&self) -> (r: JsonValue)
        ensures
            r@ == response_json(*self),
    {
        let mut m: Vec<(String, JsonValue)> = Vec::new();
        m.push((String::from_str("jsonrpc"), JsonValue::Str(self.jsonrpc.clone())));
        m.push((String::from_str("id"), JsonValue::integer(self.id)));
        match &self.result {
            Some(v) => m.push((String::from_str("result"), v.deep_clone())),
            None => {},
        }
        match &self.error {
            Some(e) => m.push((String::from_str("error"), e.to_json())),
            None => {},
        }
        proof {
            lemma_members_view(m@);
            assert(members_view(m@) =~= seq![("jsonrpc"@, Json::Str(self.jsonrpc@)), ("id"@, int_json(self.id))]
                + match self.result { Some(v) => seq![("result"@, v@)], None => Seq::empty() }
                + match self.error { Some(e) => seq![("error"@, error_json(e))], None => Seq::empty() });
        }
        JsonValue::object(m)
    }
}

} // verus!
