//! The cloud client's decisions: where to post, under which key, and how an
//! attempt's outcome is judged.
//!
//! The HTTP transport is an external collaborator. What the logic fixes —
//! the endpoint strings, the API key fallback, the gateway identity, the
//! payload rows, and the reading of an outcome into a log status — is here.

use vstd::prelude::*;

use crate::store::{LogStatus, Measurement as StoredMeasurement};

verus! {

/// What one post attempt came back with: whether the status code was a
/// success, and the response body.
#[derive(Debug, Clone, PartialEq, Eq)]
pub struct Response {
    pub success: bool,
    pub text: String,
}

/// One measurement row as the cloud receives it.
#[derive(Debug, Clone, PartialEq, Eq)]
pub struct Measurement {
    pub device_id: String,
    pub timestamp_ms: i64,
    pub data: String,
}

/// One health sample as the cloud receives it.
#[derive(Debug, Clone, PartialEq, Eq)]
pub struct Health {
    pub device_id: String,
    pub timestamp_ms: i64,
    pub data: String,
}

/// The scheme of the cloud endpoints.
pub open spec fn scheme_text(ssl: bool) -> Seq<char> {
    if ssl {
        "https"@
    } else {
        "http"@
    }
}

/// The push endpoint: `scheme://domain/push/id`.
pub open spec fn push_endpoint_text(domain: Seq<char>, ssl: bool, id: Seq<char>) -> Seq<char> {
    scheme_text(ssl) + "://"@ + domain + "/push/"@ + id
}

/// The update endpoint: `scheme://domain/update/id`.
pub open spec fn update_endpoint_text(domain: Seq<char>, ssl: bool, id: Seq<char>) -> Seq<char> {
    scheme_text(ssl) + "://"@ + domain + "/update/"@ + id
}

/// Build the two endpoint strings for a gateway.
pub fn endpoints(domain: &String, ssl: bool, id: &String) -> (r: (String, String))
    ensures
        r.0@ == push_endpoint_text(domain@, ssl, id@),
        r.1@ == update_endpoint_text(domain@, ssl, id@),
{
    let scheme = if ssl {
        "https"
    } else {
        "http"
    };
    let mut push = scheme.to_owned();
    push.append("://");
    push.append(domain.as_str());
    push.append("/push/");
    push.append(id.as_str());
    let mut update = scheme.to_owned();
    update.append("://");
    update.append(domain.as_str());
    update.append("/update/");
    update.append(id.as_str());
    (push, update)
}

/// The key presented in the request header: the configured one, or the
/// gateway id with the fixed suffix.
pub open spec fn api_key_text(api_key: Option<Seq<char>>, id: Seq<char>) -> Seq<char> {
    match api_key {
        Some(key) => key,
        None => id + "-oil-rulz-5000"@,
    }
}

/// Pick the API key value.
pub fn api_key_value(api_key: Option<String>, id: &String) -> (r: String)
    ensures
        r@ == api_key_text(
            match api_key {
                Some(key) => Some(key@),
                None => None,
            },
            id@,
        ),
{
    match api_key {
        Some(key) => key,
        None => {
            let mut r = id.clone();
            r.append("-oil-rulz-5000");
            r
        },
    }
}

/// The gateway identity: the configured one, or the default prefix followed
/// by the host's hardware serial.
pub open spec fn gateway_id_text(configured: Option<Seq<char>>, serial: Seq<char>) -> Seq<char> {
    match configured {
        Some(id) => id,
        None => "pidgeon-"@ + serial,
    }
}

/// Pick the gateway identity.
pub fn gateway_id(configured: Option<String>, serial: &String) -> (r: String)
    ensures
        r@ == gateway_id_text(
            match configured {
                Some(id) => Some(id@),
                None => None,
            },
            serial@,
        ),
{
    match configured {
        Some(id) => id,
        None => {
            let mut r = ("pidgeon-").to_owned();
            r.append(serial.as_str());
            r
        },
    }
}

/// What a log row records of one post outcome: success exactly when the
/// response came back with a success status, the response body as the text,
/// and the fixed text when the transport failed before any response.
pub open spec fn outcome_status(outcome: Option<Response>) -> LogStatus {
    match outcome {
        Some(r) => if r.success {
            LogStatus::Success
        } else {
            LogStatus::Failure
        },
        None => LogStatus::Failure,
    }
}

pub open spec fn outcome_text(outcome: Option<Response>) -> Seq<char> {
    match outcome {
        Some(r) => r.text@,
        None => "connection error"@,
    }
}

/// Judge one post outcome; the transport's failure (no response at all) is
/// passed as `None`.
pub fn classify_outcome(outcome: Option<Response>) -> (r: (LogStatus, String))
    ensures
        r.0 == outcome_status(outcome),
        r.1@ == outcome_text(outcome),
{
    match outcome {
        Some(response) => if response.success {
            (LogStatus::Success, response.text)
        } else {
            (LogStatus::Failure, response.text)
        },
        None => (LogStatus::Failure, ("connection error").to_owned()),
    }
}

/// Shape stored measurement rows into the cloud's payload rows, in order.
pub fn to_cloud_measurements(rows: &Vec<StoredMeasurement>) -> (r: Vec<Measurement>)
    ensures
        r@.len() == rows@.len(),
        forall|i: int|
            0 <= i < rows@.len() ==> (#[trigger] r@[i]).device_id@ == rows@[i].source@
                && r@[i].timestamp_ms == rows@[i].timestamp_ms && r@[i].data@ == rows@[i].data@,
{
    let mut r: Vec<Measurement> = Vec::new();
    let mut i: usize = 0;
    while i < rows.len()
        invariant
            i <= rows@.len(),
            r@.len() == i,
            forall|k: int|
                0 <= k < i ==> (#[trigger] r@[k]).device_id@ == rows@[k].source@
                    && r@[k].timestamp_ms == rows@[k].timestamp_ms && r@[k].data@ == rows@[k].data@,
        decreases rows@.len() - i,
    {
        let row = &rows[i];
        r.push(
            Measurement {
                device_id: row.source.clone(),
                timestamp_ms: row.timestamp_ms,
                data: row.data.clone(),
            },
        );
        i = i + 1;
    }
    r
}

} // verus!
