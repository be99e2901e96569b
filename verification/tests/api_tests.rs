use ethproofs_client::api::{
    call_method, call_path, is_success_status, retry_step, ApiCall, AttemptOutcome,
    EthProofsApi, HttpMethod, ProofProved, ProofQueued, RequestFailure, RetryStep,
};

#[test]
fn endpoints() {
    let api = EthProofsApi::new("https://example.org/api/v0".to_string(), "tok".to_string());
    assert_eq!(api.url(), "https://example.org/api/v0");
    assert_eq!(api.token(), "tok");
    assert_eq!(api.endpoint(ApiCall::GetClusters), "https://example.org/api/v0/clusters");
    assert_eq!(
        api.endpoint(ApiCall::AddSingleMachine),
        "https://example.org/api/v0/single-machine"
    );
    assert_eq!(
        api.endpoint(ApiCall::ProofProved),
        "https://example.org/api/v0/proofs/proved"
    );
    let url = api.endpoint_url(ApiCall::ProofQueued).unwrap();
    assert_eq!(url.as_str(), "https://example.org/api/v0/proofs/queued");
}

#[test]
fn relative_base_url_is_refused() {
    let api = EthProofsApi::new("not a url".to_string(), String::new());
    assert!(api.endpoint_url(ApiCall::GetClusters).is_err());
}

#[test]
fn calls_paths_and_methods() {
    assert_eq!(call_path(ApiCall::AddCluster), "clusters");
    assert_eq!(call_path(ApiCall::ProofProving), "proofs/proving");
    assert_eq!(call_method(ApiCall::GetClusters), HttpMethod::Get);
    assert_eq!(call_method(ApiCall::AddCluster), HttpMethod::Post);
    assert_eq!(call_method(ApiCall::ProofProved), HttpMethod::Post);
}

#[test]
fn success_statuses() {
    assert!(is_success_status(200));
    assert!(is_success_status(204));
    assert!(is_success_status(299));
    assert!(!is_success_status(199));
    assert!(!is_success_status(300));
    assert!(!is_success_status(500));
}

#[test]
fn retry_policy() {
    assert!(matches!(retry_step(1, AttemptOutcome::Status(200)), RetryStep::Deliver));
    assert!(matches!(retry_step(3, AttemptOutcome::Status(201)), RetryStep::Deliver));
    match retry_step(1, AttemptOutcome::Status(503)) {
        RetryStep::Retry { delay_ms, failure: RequestFailure::Status(503) } => {
            assert_eq!(delay_ms, 500)
        }
        _ => panic!("expected a retry"),
    }
    match retry_step(2, AttemptOutcome::NetworkError("refused".to_string())) {
        RetryStep::Retry { delay_ms, failure: RequestFailure::Network(e) } => {
            assert_eq!(delay_ms, 1000);
            assert_eq!(e, "refused");
        }
        _ => panic!("expected a retry"),
    }
    match retry_step(3, AttemptOutcome::Status(404)) {
        RetryStep::GiveUp { delay_ms, failure: RequestFailure::Status(404) } => {
            assert_eq!(delay_ms, 1500)
        }
        _ => panic!("expected to give up"),
    }
}

#[test]
fn request_bodies() {
    let q = ProofQueued::new(7, 21);
    assert_eq!((q.cluster_id, q.block_number), (7, 21));
    let p = ProofProved::new(7, 21, 1000, 55, "cHJvb2Y=".to_string(), "v1".to_string());
    assert_eq!(p.block_number, 21);
    assert_eq!(p.cluster_id, 7);
    assert_eq!(p.proving_time, 1000);
    assert_eq!(p.proving_cycles, 55);
    assert_eq!(p.proof, "cHJvb2Y=");
    assert_eq!(p.verifier_id, "v1");
}

#[test]
fn api_and_bodies_clone() {
    let api = EthProofsApi::new("https://x.io/api/v0".to_string(), "tk".to_string());
    let copy = api.clone();
    assert_eq!(copy.url(), "https://x.io/api/v0");
    assert_eq!(copy.token(), "tk");
    assert_eq!(
        copy.endpoint_url(ApiCall::ProofProved).unwrap().as_str(),
        "https://x.io/api/v0/proofs/proved"
    );
    let p = ProofProved::new(3, 100, 5000, 7, "AAEC".to_string(), "v1".to_string());
    let q = p.clone();
    assert_eq!((q.block_number, q.cluster_id, q.proving_time), (100, 3, 5000));
    assert_eq!((q.proving_cycles, q.proof.as_str(), q.verifier_id.as_str()), (7, "AAEC", "v1"));
}
