//! The EthProofs API: its endpoints, the request bodies, and the retry policy
//! of its requests. The HTTP exchanges themselves are made by the caller.

use vstd::prelude::*;
use vstd::string::*;

verus! {

/// `reqwest::Client`, carried through without looking inside.
#[verifier::external_type_specification]
#[verifier::external_body]
pub struct ExClient(reqwest::Client);

/// `url::Url`, carried through without looking inside.
#[verifier::external_type_specification]
#[verifier::external_body]
pub struct ExUrl(url::Url);

/// `url::ParseError`, carried through without looking inside.
#[verifier::external_type_specification]
#[verifier::external_body]
pub struct ExUrlParseError(url::ParseError);

/// `reqwest::Client::new`: a client with the default configuration. Nothing
/// is said of it.
pub assume_specification[ reqwest::Client::new ]() -> reqwest::Client;

/// `<reqwest::Client as Clone>::clone`: another handle to the same client.
/// Nothing is said of it.
pub assume_specification[ <reqwest::Client as Clone>::clone ](c: &reqwest::Client) -> reqwest::Client;

/// Whether `url::Url::parse` accepts `input` as an absolute URL.
pub uninterp spec fn url_parses(input: Seq<char>) -> bool;

/// The URL that `url::Url::parse` makes of `input`, where it accepts it.
pub uninterp spec fn parsed_url(input: Seq<char>) -> url::Url;

/// `url::Url::parse`: it succeeds exactly when `url_parses` holds of the input,
/// and then gives the URL that `parsed_url` names; what that URL holds is not
/// described.
#[verifier::external_body]
fn parse_url(input: &str) -> (r: Result<url::Url, url::ParseError>)
    ensures
        (r is Ok) == url_parses(input@),
        r matches Ok(u) ==> u == parsed_url(input@),
{
    url::Url::parse(input)
}

/// Attempts made for one request before it is given up.
pub const MAX_RETRIES: u64 = 3;

/// The wait after a failed attempt, in milliseconds, is this times the attempt number.
pub const RETRY_DELAY_MS: u64 = 500;

/// The calls of the EthProofs API.
#[derive(PartialEq, Eq, Structural, Debug, Clone, Copy)]
pub enum ApiCall {
    GetClusters,
    AddCluster,
    AddSingleMachine,
    ProofQueued,
    ProofProving,
    ProofProved,
}

/// The HTTP method of a call.
#[derive(PartialEq, Eq, Structural, Debug, Clone, Copy)]
pub enum HttpMethod {
    Get,
    Post,
}

/// The path of a call below the API's base URL.
pub open spec fn spec_call_path(call: ApiCall) -> Seq<char> {
    match call {
        ApiCall::GetClusters => "clusters"@,
        ApiCall::AddCluster => "clusters"@,
        ApiCall::AddSingleMachine => "single-machine"@,
        ApiCall::ProofQueued => "proofs/queued"@,
        ApiCall::ProofProving => "proofs/proving"@,
        ApiCall::ProofProved => "proofs/proved"@,
    }
}

/// The path of a call below the API's base URL.
pub fn call_path(call: ApiCall) -> (p: &'static str)
    ensures
        p@ == spec_call_path(call),
{
    match call {
        ApiCall::GetClusters => "clusters",
        ApiCall::AddCluster => "clusters",
        ApiCall::AddSingleMachine => "single-machine",
        ApiCall::ProofQueued => "proofs/queued",
        ApiCall::ProofProving => "proofs/proving",
        ApiCall::ProofProved => "proofs/proved",
    }
}

/// Listing the clusters is a `GET`; every other call is a `POST`.
pub fn call_method(call: ApiCall) -> (m: HttpMethod)
    ensures
        m == (if call == ApiCall::GetClusters {
            HttpMethod::Get
        } else {
            HttpMethod::Post
        }),
{
    match call {
        ApiCall::GetClusters => HttpMethod::Get,
        _ => HttpMethod::Post,
    }
}

/// A client of the EthProofs API at a base URL, authenticated by a bearer token.
#[derive(Clone, Debug)]
pub struct EthProofsApi {
    client: reqwest::Client,
    url: String,
    token: String,
}

impl EthProofsApi {
    /// The base URL.
    pub closed spec fn spec_url(&self) -> Seq<char> {
        self.url@
    }

    /// The bearer token.
    pub closed spec fn spec_token(&self) -> Seq<char> {
        self.token@
    }

    /// The HTTP client the requests are sent with.
    pub closed spec fn spec_client(&self) -> reqwest::Client {
        self.client
    }

    /// A client of the API at `url` that authenticates with `token`.
    pub fn new(url: String, token: String) -> (api: Self)
        ensures
            api.spec_url() == url@,
            api.spec_token() == token@,
    {
        EthProofsApi { client: reqwest::Client::new(), url, token }
    }

    /// The base URL.
    pub fn url(&self) -> (u: &str)
        ensures
            u@ == self.spec_url(),
    {
        self.url.as_str()
    }

    /// The bearer token.
    pub fn token(&self) -> (t: &str)
        ensures
            t@ == self.spec_token(),
    {
        self.token.as_str()
    }

    /// The HTTP client.
    pub fn client(&self) -> (c: &reqwest::Client)
        ensures
            *c == self.spec_client(),
    {
        &self.client
    }

    /// The address of a call: the base URL, `/`, and the call's path.
    pub open spec fn spec_endpoint(&self, call: ApiCall) -> Seq<char> {
        self.spec_url() + "/"@ + spec_call_path(call)
    }

    /// The address of a call, as text.
    pub fn endpoint(&self, call: ApiCall) -> (s: String)
        ensures
            s@ == self.spec_endpoint(call),
    {
        let mut s = self.url.clone();
        s.append("/");
        s.append(call_path(call));
        s
    }

    /// The address of a call, parsed; it fails when the base URL does not make
    /// an absolute URL with the call's path.
    pub fn endpoint_url(&self, call: ApiCall) -> (r: Result<url::Url, url::ParseError>)
        ensures
            (r is Ok) == url_parses(self.spec_endpoint(call)),
            r matches Ok(u) ==> u == parsed_url(self.spec_endpoint(call)),
    {
        let s = self.endpoint(call);
        parse_url(s.as_str())
    }
}

/// Whether an HTTP status code means success (200 to 299).
pub fn is_success_status(code: u16) -> (r: bool)
    ensures
        r == (200 <= code <= 299),
{
    200 <= code && code <= 299
}

/// What one attempt of a request came to.
pub enum AttemptOutcome {
    /// A response with this status code.
    Status(u16),
    /// No response; the network error's description.
    NetworkError(String),
}

/// Why an attempt failed.
#[derive(Debug)]
pub enum RequestFailure {
    /// The response had this status code, which is not a success.
    Status(u16),
    /// The request did not get a response.
    Network(String),
}

/// What follows an attempt.
pub enum RetryStep {
    /// The response is handed to the caller.
    Deliver,
    /// Wait, then make the next attempt.
    Retry { delay_ms: u64, failure: RequestFailure },
    /// Wait, then report the failure: no attempt is left.
    GiveUp { delay_ms: u64, failure: RequestFailure },
}

/// What follows attempt number `attempt` (counted from 1) of a request: a
/// success is delivered; after a failure the caller waits 500 ms times the
/// attempt number, then tries again or, after the last attempt, gives up with
/// that failure.
pub open spec fn spec_retry_step(attempt: u64, outcome: AttemptOutcome) -> RetryStep {
    let delay_ms = (RETRY_DELAY_MS * attempt) as u64;
    let failure = match outcome {
        AttemptOutcome::Status(code) => RequestFailure::Status(code),
        AttemptOutcome::NetworkError(e) => RequestFailure::Network(e),
    };
    if outcome matches AttemptOutcome::Status(code) && 200 <= code <= 299 {
        RetryStep::Deliver
    } else if attempt < MAX_RETRIES {
        RetryStep::Retry { delay_ms, failure }
    } else {
        RetryStep::GiveUp { delay_ms, failure }
    }
}

/// Decides what follows attempt number `attempt` of a request.
pub fn retry_step(attempt: u64, outcome: AttemptOutcome) -> (r: RetryStep)
    requires
        1 <= attempt <= MAX_RETRIES,
    ensures
        r == spec_retry_step(attempt, outcome),
{
    let failure = match outcome {
        AttemptOutcome::Status(code) => {
            if is_success_status(code) {
                return RetryStep::Deliver;
            }
            RequestFailure::Status(code)
        },
        AttemptOutcome::NetworkError(e) => RequestFailure::Network(e),
    };
    let delay_ms = RETRY_DELAY_MS * attempt;
    if attempt < MAX_RETRIES {
        RetryStep::Retry { delay_ms, failure }
    } else {
        RetryStep::GiveUp { delay_ms, failure }
    }
}

/// After each attempt, for every attempt number and outcome: a response with a
/// status from 200 to 299 is delivered; any other status or a network error
/// is followed by a wait of 500 ms times the attempt number, and then by
/// another attempt if fewer than three were made, or else by giving up with
/// that status or error.
pub proof fn law_retry_policy(attempt: u64, code: u16, e: String)
    requires
        1 <= attempt <= 3,
    ensures
        200 <= code <= 299 ==> spec_retry_step(attempt, AttemptOutcome::Status(code)) is Deliver,
        !(200 <= code <= 299) && attempt < 3 ==> spec_retry_step(
            attempt,
            AttemptOutcome::Status(code),
        ) == (RetryStep::Retry {
            delay_ms: (500 * attempt) as u64,
            failure: RequestFailure::Status(code),
        }),
        !(200 <= code <= 299) && attempt == 3 ==> spec_retry_step(
            attempt,
            AttemptOutcome::Status(code),
        ) == (RetryStep::GiveUp { delay_ms: 1500, failure: RequestFailure::Status(code) }),
        attempt < 3 ==> spec_retry_step(attempt, AttemptOutcome::NetworkError(e)) == (
        RetryStep::Retry { delay_ms: (500 * attempt) as u64, failure: RequestFailure::Network(e) }),
        attempt == 3 ==> spec_retry_step(attempt, AttemptOutcome::NetworkError(e)) == (
        RetryStep::GiveUp { delay_ms: 1500, failure: RequestFailure::Network(e) }),
{
}

/// How a request ends when its attempts, from attempt number `attempt` on,
/// come to `outcomes` in turn: delivered at some attempt, failed, or (when the
/// outcomes run out first) not ended.
pub open spec fn spec_request(outcomes: Seq<AttemptOutcome>, attempt: u64) -> Option<
    Result<u64, RequestFailure>,
>
    decreases outcomes.len(),
{
    if outcomes.len() == 0 || attempt < 1 || attempt > MAX_RETRIES {
        None
    } else {
        match spec_retry_step(attempt, outcomes[0]) {
            RetryStep::Deliver => Some(Ok(attempt)),
            RetryStep::Retry { .. } => spec_request(outcomes.drop_first(), (attempt + 1) as u64),
            RetryStep::GiveUp { failure, .. } => Some(Err(failure)),
        }
    }
}

/// Whether an attempt got a successful response.
pub open spec fn succeeded(outcome: AttemptOutcome) -> bool {
    outcome matches AttemptOutcome::Status(code) && 200 <= code <= 299
}

/// A request ends within its first three attempts: it is delivered at the
/// first successful one, and if none of them succeeds it fails with the third
/// attempt's failure.
pub proof fn law_request_ends(outcomes: Seq<AttemptOutcome>)
    requires
        outcomes.len() >= MAX_RETRIES,
    ensures
        spec_request(outcomes, 1) is Some,
        forall|k: int|
            0 <= k < MAX_RETRIES && succeeded(#[trigger] outcomes[k]) && (forall|j: int|
                0 <= j < k ==> !succeeded(outcomes[j])) ==> spec_request(outcomes, 1) == Some(
                Ok::<u64, RequestFailure>((k + 1) as u64),
            ),
        (forall|j: int| 0 <= j < MAX_RETRIES ==> !succeeded(#[trigger] outcomes[j]))
            ==> spec_request(outcomes, 1) == Some(
            Err::<u64, RequestFailure>(
                match outcomes[2] {
                    AttemptOutcome::Status(code) => RequestFailure::Status(code),
                    AttemptOutcome::NetworkError(e) => RequestFailure::Network(e),
                },
            ),
        ),
{
    let o1 = outcomes.drop_first();
    let o2 = o1.drop_first();
    assert(o1[0] == outcomes[1]);
    assert(o2[0] == outcomes[2]);
    assert(spec_request(outcomes, 1) == match spec_retry_step(1, outcomes[0]) {
        RetryStep::Deliver => Some(Ok(1u64)),
        RetryStep::Retry { .. } => spec_request(o1, 2),
        RetryStep::GiveUp { failure, .. } => Some(Err(failure)),
    });
    assert(spec_request(o1, 2) == match spec_retry_step(2, o1[0]) {
        RetryStep::Deliver => Some(Ok(2u64)),
        RetryStep::Retry { .. } => spec_request(o2, 3),
        RetryStep::GiveUp { failure, .. } => Some(Err(failure)),
    });
    assert(spec_request(o2, 3) == match spec_retry_step(3, o2[0]) {
        RetryStep::Deliver => Some(Ok(3u64)),
        RetryStep::Retry { .. } => spec_request(o2.drop_first(), 4),
        RetryStep::GiveUp { failure, .. } => Some(Err(failure)),
    });
    assert forall|k: int|
        0 <= k < MAX_RETRIES && succeeded(#[trigger] outcomes[k]) && (forall|j: int|
            0 <= j < k ==> !succeeded(outcomes[j])) implies spec_request(outcomes, 1) == Some(
        Ok::<u64, RequestFailure>((k + 1) as u64),
    ) by {
        if k >= 1 {
            assert(!succeeded(outcomes[0]));
        }
        if k >= 2 {
            assert(!succeeded(outcomes[1]));
        }
    }
}

/// A single machine to register: its description and instance type.
#[derive(Debug, Clone)]
pub struct SingleMachine {
    pub nickname: String,
    pub description: String,
    pub hardware: String,
    pub cycle_type: String,
    pub proof_type: String,
    pub instance_type: String,
}

/// Body of the report that a block's proof is queued.
#[derive(PartialEq, Eq, Structural, Debug, Clone, Copy)]
pub struct ProofQueued {
    pub cluster_id: u32,
    pub block_number: u64,
}

/// Body of the report that a block's proof is being generated.
#[derive(PartialEq, Eq, Structural, Debug, Clone, Copy)]
pub struct ProofProving {
    pub cluster_id: u32,
    pub block_number: u64,
}

/// Body of the submission of a block's proof.
#[derive(Debug, Clone)]
pub struct ProofProved {
    pub block_number: u64,
    pub cluster_id: u32,
    pub proving_time: u128,
    pub proving_cycles: u64,
    pub proof: String,
    pub verifier_id: String,
}

/// The identifier that the API gives back for a proof report.
#[derive(PartialEq, Eq, Structural, Debug, Clone, Copy)]
pub struct ProofId {
    pub proof_id: u64,
}

impl ProofQueued {
    /// The report for `block_number` on `cluster_id`.
    pub fn new(cluster_id: u32, block_number: u64) -> (b: Self)
        ensures
            b.cluster_id == cluster_id,
            b.block_number == block_number,
    {
        ProofQueued { cluster_id, block_number }
    }
}

impl ProofProving {
    /// The report for `block_number` on `cluster_id`.
    pub fn new(cluster_id: u32, block_number: u64) -> (b: Self)
        ensures
            b.cluster_id == cluster_id,
            b.block_number == block_number,
    {
        ProofProving { cluster_id, block_number }
    }
}

impl ProofProved {
    /// The submission of `proof` for `block_number` on `cluster_id`, proved in
    /// `time` milliseconds and `cycles` cycles, for the verifier `verifier_id`.
    pub fn new(
        cluster_id: u32,
        block_number: u64,
        time: u128,
        cycles: u64,
        proof: String,
        verifier_id: String,
    ) -> (b: Self)
        ensures
            b.block_number == block_number,
            b.cluster_id == cluster_id,
            b.proving_time == time,
            b.proving_cycles == cycles,
            b.proof == proof,
            b.verifier_id == verifier_id,
    {
        ProofProved {
            block_number,
            cluster_id,
            proving_time: time,
            proving_cycles: cycles,
            proof,
            verifier_id,
        }
    }
}


/// Every call is sent below the API's base URL, at its own path: listing and
/// adding clusters at `clusters`, a single machine at `single-machine`, and
/// the three proof reports at `proofs/queued`, `proofs/proving` and
/// `proofs/proved`; calls at different paths never share an endpoint.
pub proof fn law_endpoints(api: EthProofsApi, c1: ApiCall, c2: ApiCall)
    ensures
        api.spec_endpoint(ApiCall::GetClusters) == api.spec_url() + "/clusters"@,
        api.spec_endpoint(ApiCall::AddCluster) == api.spec_url() + "/clusters"@,
        api.spec_endpoint(ApiCall::AddSingleMachine) == api.spec_url() + "/single-machine"@,
        api.spec_endpoint(ApiCall::ProofQueued) == api.spec_url() + "/proofs/queued"@,
        api.spec_endpoint(ApiCall::ProofProving) == api.spec_url() + "/proofs/proving"@,
        api.spec_endpoint(ApiCall::ProofProved) == api.spec_url() + "/proofs/proved"@,
        (api.spec_endpoint(c1) == api.spec_endpoint(c2)) <==> (c1 == c2 || (
        c1 == ApiCall::GetClusters && c2 == ApiCall::AddCluster) || (c1 == ApiCall::AddCluster
            && c2 == ApiCall::GetClusters)),
{
    reveal_strlit("/");
    reveal_strlit("clusters");
    reveal_strlit("single-machine");
    reveal_strlit("proofs/queued");
    reveal_strlit("proofs/proving");
    reveal_strlit("proofs/proved");
    reveal_strlit("/clusters");
    reveal_strlit("/single-machine");
    reveal_strlit("/proofs/queued");
    reveal_strlit("/proofs/proving");
    reveal_strlit("/proofs/proved");
    let u = api.spec_url();
    assert(api.spec_endpoint(ApiCall::GetClusters) =~= u + "/clusters"@);
    assert(api.spec_endpoint(ApiCall::AddCluster) =~= u + "/clusters"@);
    assert(api.spec_endpoint(ApiCall::AddSingleMachine) =~= u + "/single-machine"@);
    assert(api.spec_endpoint(ApiCall::ProofQueued) =~= u + "/proofs/queued"@);
    assert(api.spec_endpoint(ApiCall::ProofProving) =~= u + "/proofs/proving"@);
    assert(api.spec_endpoint(ApiCall::ProofProved) =~= u + "/proofs/proved"@);
    let e1 = api.spec_endpoint(c1);
    let e2 = api.spec_endpoint(c2);
    if e1 == e2 && !(c1 == c2 || (c1 == ApiCall::GetClusters && c2 == ApiCall::AddCluster) || (
    c1 == ApiCall::AddCluster && c2 == ApiCall::GetClusters)) {
        let k = u.len() as int;
        assert(e1.skip(k) == e2.skip(k));
        assert(e1.skip(k) =~= "/"@ + spec_call_path(c1));
        assert(e2.skip(k) =~= "/"@ + spec_call_path(c2));
        let p1 = "/"@ + spec_call_path(c1);
        let p2 = "/"@ + spec_call_path(c2);
        assert(p1.len() == p2.len());
        assert(p1[8] == p2[8]);
        assert(p1[2] == p2[2]);
        assert(p1[9] == p2[9]);
        assert(p1[10] == p2[10]);
    }
}

} // verus!
