//! Calls of the block builder.
use vstd::prelude::*;
use vstd::string::StringExecFns;
use crate::chance::random_index;

verus! {

/// Where the block builder answers.
pub const JITO_ENDPOINTS: [&'static str; 4] = [
    "https://mainnet.block-engine.jito.wtf",
    "https://amsterdam.mainnet.block-engine.jito.wtf",
    "https://ny.mainnet.block-engine.jito.wtf",
    "https://tokyo.mainnet.block-engine.jito.wtf",
];

/// A JSON-RPC request whose only parameter is a list of strings.
#[derive(Clone, Debug, PartialEq, Eq)]
pub struct RpcRequest {
    pub jsonrpc: String,
    pub id: u64,
    pub method: String,
    pub params: Vec<Vec<String>>,
}

/// A request, where to post it and how long to wait for the reply.
#[derive(Clone, Debug, PartialEq, Eq)]
pub struct RpcCall {
    pub url: String,
    pub timeout_secs: u64,
    pub request: RpcRequest,
}

/// A reply with a status other than success.
#[derive(Clone, Debug, PartialEq, Eq)]
pub struct Rejection {
    pub status: u16,
    pub text: String,
}

impl Rejection {
    /// The text that reports the reply; the status is spelled out by the caller, as in
    /// `429 Too Many Requests`.
    pub fn message(&self, status_line: &str) -> (m: String)
        ensures
            m@ == "Status code: "@ + status_line@ + ", response: "@ + self.text@,
    {
        "Status code: ".to_owned().concat(status_line).concat(", response: ").concat(self.text.as_str())
    }
}

/// What is known of a bundle.
#[derive(Clone, Debug, PartialEq, Eq)]
pub struct BundleStatus {
    pub bundle_id: String,
    pub confirmation_status: String,
}

/// The address of the bundle service of an endpoint.
pub open spec fn bundle_url(endpoint: int) -> Seq<char> {
    JITO_ENDPOINTS@[endpoint]@ + "/api/v1/bundles"@
}

/// The request calls `method` with the one parameter `param`.
pub open spec fn is_request(request: RpcRequest, method: Seq<char>, param: Seq<String>) -> bool {
    &&& request.jsonrpc@ == "2.0"@
    &&& request.id == 1
    &&& request.method@ == method
    &&& request.params@.len() == 1
    &&& request.params@[0]@ == param
}

/// The address of the bundle service of an endpoint.
pub fn endpoint_url(endpoint: usize) -> (url: String)
    requires
        endpoint < 4,
    ensures
        url@ == bundle_url(endpoint as int),
        url@ == JITO_ENDPOINTS@[endpoint as int]@ + "/api/v1/bundles"@,
{
    let endpoints = JITO_ENDPOINTS;
    endpoints[endpoint].to_owned().concat("/api/v1/bundles")
}

/// Builds a request.
fn request(method: &str, param: Vec<String>) -> (request: RpcRequest)
    ensures
        is_request(request, method@, param@),
{
    let mut params: Vec<Vec<String>> = Vec::new();
    params.push(param);
    RpcRequest { jsonrpc: "2.0".to_owned(), id: 1, method: method.to_owned(), params }
}

/// The call that submits a bundle of encoded transactions to the given endpoint.
pub fn send_bundle_at(endpoint: usize, bundle: Vec<String>) -> (call: RpcCall)
    requires
        endpoint < 4,
    ensures
        call.url@ == bundle_url(endpoint as int),
        call.timeout_secs == 5,
        is_request(call.request, "sendBundle"@, bundle@),
        call.request.jsonrpc@ == "2.0"@,
        call.request.id == 1,
        call.request.params@.len() == 1,
        call.request.method@ == "sendBundle"@,
        call.request.params@[0]@ == bundle@,
        call.url@ == JITO_ENDPOINTS@[endpoint as int]@ + "/api/v1/bundles"@,
{
    RpcCall { url: endpoint_url(endpoint), timeout_secs: 5, request: request("sendBundle", bundle) }
}

/// The call that submits a bundle of encoded transactions to an endpoint picked at random.
pub fn send_jito_bundle(bundle: Vec<String>) -> (call: RpcCall)
    ensures
        exists|i: int| 0 <= i < 4 && call.url@ == #[trigger] bundle_url(i),
        call.timeout_secs == 5,
        is_request(call.request, "sendBundle"@, bundle@),
        call.request.jsonrpc@ == "2.0"@,
        call.request.id == 1,
        call.request.params@.len() == 1,
        call.request.method@ == "sendBundle"@,
        call.request.params@[0]@ == bundle@,
        exists|i: int| 0 <= i < 4 && call.url@ == (#[trigger] JITO_ENDPOINTS@[i])@ + "/api/v1/bundles"@,
{
    let endpoint: usize = random_index(4);
    let call = send_bundle_at(endpoint, bundle);
    assert(call.url@ == bundle_url(endpoint as int));
    assert(call.url@ == JITO_ENDPOINTS@[endpoint as int]@ + "/api/v1/bundles"@);
    call
}

/// The call that asks the given endpoint what became of a bundle.
pub fn bundle_statuses_at(endpoint: usize, bundle_id: String) -> (call: RpcCall)
    requires
        endpoint < 4,
    ensures
        call.url@ == bundle_url(endpoint as int),
        call.timeout_secs == 3,
        is_request(call.request, "getBundleStatuses"@, seq![bundle_id]),
        call.request.jsonrpc@ == "2.0"@,
        call.request.id == 1,
        call.request.params@.len() == 1,
        call.request.method@ == "getBundleStatuses"@,
        call.request.params@[0]@ == seq![bundle_id],
        call.url@ == JITO_ENDPOINTS@[endpoint as int]@ + "/api/v1/bundles"@,
{
    let mut ids: Vec<String> = Vec::new();
    ids.push(bundle_id);
    assert(ids@ =~= seq![bundle_id]);
    RpcCall {
        url: endpoint_url(endpoint),
        timeout_secs: 3,
        request: request("getBundleStatuses", ids),
    }
}

/// The call that asks an endpoint picked at random what became of a bundle.
pub fn get_bundle_statuses(bundle_id: String) -> (call: RpcCall)
    ensures
        exists|i: int| 0 <= i < 4 && call.url@ == #[trigger] bundle_url(i),
        call.timeout_secs == 3,
        is_request(call.request, "getBundleStatuses"@, seq![bundle_id]),
        call.request.jsonrpc@ == "2.0"@,
        call.request.id == 1,
        call.request.params@.len() == 1,
        call.request.method@ == "getBundleStatuses"@,
        call.request.params@[0]@ == seq![bundle_id],
        exists|i: int| 0 <= i < 4 && call.url@ == (#[trigger] JITO_ENDPOINTS@[i])@ + "/api/v1/bundles"@,
{
    let endpoint: usize = random_index(4);
    let call = bundle_statuses_at(endpoint, bundle_id);
    assert(call.url@ == bundle_url(endpoint as int));
    assert(call.url@ == JITO_ENDPOINTS@[endpoint as int]@ + "/api/v1/bundles"@);
    call
}

/// Passes the text of a successful reply on and turns any other reply down.
pub fn accept_reply(status: u16, text: String) -> (body: Result<String, Rejection>)
    ensures
        body == (if 200 <= status < 300 {
            Ok::<String, Rejection>(text)
        } else {
            Err(Rejection { status, text })
        }),
{
    if 200 <= status && status < 300 {
        Ok(text)
    } else {
        Err(Rejection { status, text })
    }
}

/// The text of a successful reply, or the text that reports any other one, whatever its body holds.
pub fn read_reply(status: u16, status_line: &str, text: String) -> (body: Result<String, String>)
    ensures
        match body {
            Ok(b) => 200 <= status < 300 && b == text,
            Err(m) => {
                &&& !(200 <= status < 300)
                &&& m@ == "Status code: "@ + status_line@ + ", response: "@ + text@
            },
        },
{
    match accept_reply(status, text) {
        Ok(text) => Ok(text),
        Err(rejection) => Err(rejection.message(status_line)),
    }
}

/// The text that reports a request that could not be sent.
pub fn send_failure(err: &str) -> (m: String)
    ensures
        m@ == "Failed to send request: "@ + err@,
{
    "Failed to send request: ".to_owned().concat(err)
}

/// The text that reports a reply that could not be read to its end.
pub fn read_failure(err: &str) -> (m: String)
    ensures
        m@ == "Failed to read response content: "@ + err@,
{
    "Failed to read response content: ".to_owned().concat(err)
}

/// The text that reports a successful reply whose body does not parse.
pub fn parse_failure(err: &str, text: &str, status_line: &str) -> (m: String)
    ensures
        m@ == "Failed to deserialize response: "@ + err@ + ", response: "@ + text@ + ", status: "@
            + status_line@,
{
    "Failed to deserialize response: ".to_owned().concat(err).concat(", response: ").concat(text).concat(
        ", status: ",
    ).concat(status_line)
}

/// A bundle has landed when the first status of the reply says so.
pub open spec fn landed(statuses: Seq<BundleStatus>) -> bool {
    statuses.len() > 0 && statuses[0].confirmation_status@ == "confirmed"@
}

/// Tells whether a bundle has landed.
pub fn is_confirmed(statuses: &Vec<BundleStatus>) -> (confirmed: bool)
    ensures
        confirmed == landed(statuses@),
        confirmed <==> statuses@.len() > 0 && statuses@[0].confirmation_status@ == "confirmed"@,
{
    statuses.len() > 0 && statuses[0].confirmation_status == "confirmed".to_owned()
}

/// Only the first status counts: a bundle has landed if and only if there is one that says
/// `confirmed`, whatever the others say.
pub proof fn first_status_tells_of_landing(first: BundleStatus, others: Seq<BundleStatus>)
    ensures
        landed(seq![first] + others) <==> first.confirmation_status@ == "confirmed"@,
        !landed(Seq::<BundleStatus>::empty()),
{
    assert((seq![first] + others)[0] == first);
}

/// A request holds the method and its one parameter, and nothing of another request: two requests
/// for the same call say the same.
pub proof fn request_says_what_is_called(request: RpcRequest, method: Seq<char>, param: Seq<String>)
    requires
        is_request(request, method, param),
    ensures
        request.jsonrpc@ == "2.0"@,
        request.id == 1,
        request.method@ == method,
        request.params@.len() == 1,
        request.params@[0]@ == param,
{
}

} // verus!
