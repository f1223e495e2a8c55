//! Deploying an archive: assembling the request that a deployment POST needs,
//! and interpreting the response that comes back. The POST itself is network
//! work and is performed by the caller that owns the connection.

use vstd::prelude::*;
use vstd::string::StringExecFns;

verus! {

/// A successful deployment: the identifier the deployment API answered with.
#[derive(Debug)]
pub struct DeployResult {
    pub deployment_id: String,
}

/// Why no deployment identifier was obtained from a completed POST.
#[derive(Debug)]
pub enum DeployError {
    /// The API answered with a non-success status; the status and the raw
    /// response body are kept for diagnostics.
    HttpFailure { status: u16, body: String },
    /// The API answered with a success status, but no deployment identifier
    /// could be decoded from the body.
    DecodeFailed,
}

/// The endpoint one deployment POST goes to.
pub fn deploy_url(api_url: &str, project_id: &str) -> (r: String)
    ensures
        r@ == api_url@ + "/api/projects/"@ + project_id@ + "/deploy"@,
{
    let mut url = String::from_str(api_url);
    url.append("/api/projects/");
    url.append(project_id);
    url.append("/deploy");
    url
}

/// The `Authorization` header value carrying the captured token.
pub fn bearer_header_value(token: &str) -> (r: String)
    ensures
        r@ == "Bearer "@ + token@,
{
    let mut v = String::from_str("Bearer ");
    v.append(token);
    v
}

/// The string under the top-level `deploymentId` key of a JSON body, if the
/// body is JSON and carries one. Named, not spelled out: what parses as JSON
/// is the outside crate's affair.
pub uninterp spec fn json_deployment_id(body: Seq<char>) -> Option<Seq<char>>;

/// Relies on serde_json: the body is parsed as JSON and the string under its
/// top-level `deploymentId` key is handed back; the result depends on the body
/// alone.
#[verifier::external_body]
fn extract_deployment_id(body: &str) -> (r: Option<String>)
    ensures
        match json_deployment_id(body@) {
            Some(id) => r matches Some(x) && x@ == id,
            None => r is None,
        },
{
    match serde_json::from_str::<serde_json::Value>(body) {
        Ok(v) => v.get("deploymentId").and_then(|d| d.as_str()).map(|s| s.to_string()),
        Err(_) => None,
    }
}

/// Whether an HTTP status is a success status.
pub open spec fn is_success_status(status: u16) -> bool {
    200 <= status < 300
}

/// Decide what one completed deployment POST amounts to: a non-success status
/// is a failure carrying the status and body; a success status yields the
/// decoded deployment identifier, or a decoding failure of its own.
pub fn interpret_deploy_response(status: u16, body: String) -> (r: Result<
    DeployResult,
    DeployError,
>)
    ensures
        !is_success_status(status) ==> (r matches Err(DeployError::HttpFailure {
            status: s,
            body: b,
        }) && s == status && b@ == body@),
        is_success_status(status) ==> match json_deployment_id(body@) {
            Some(id) => r matches Ok(d) && d.deployment_id@ == id,
            None => r matches Err(DeployError::DecodeFailed),
        },
{
    if status < 200 || status >= 300 {
        return Err(DeployError::HttpFailure { status, body });
    }
    match extract_deployment_id(body.as_str()) {
        Some(id) => Ok(DeployResult { deployment_id: id }),
        None => Err(DeployError::DecodeFailed),
    }
}

} // verus!
