use cloudflare_ddns::config::{normalize_config, Config, Subdomain};
use cloudflare_ddns::errors::DdnsError;
use cloudflare_ddns::ip::resolve_current_ip;
use cloudflare_ddns::matching::{match_records, DnsRecord};
use cloudflare_ddns::update::{
    judge_envelope, judge_list_status, judge_update_status, plan_updates, ApiEnvelope, ApiError,
    UpdateStep,
};

fn record(id: &str, name: &str) -> DnsRecord {
    DnsRecord {
        id: id.to_string(),
        name: name.to_string(),
        content: "198.51.100.7".to_string(),
        ttl: 120,
        proxied: false,
    }
}

fn two_subdomain_config() -> Config {
    Config {
        api_token: "test-token".to_string(),
        zone_id: "zone123".to_string(),
        subdomains: vec![
            Subdomain { name: "".to_string(), proxied: true, id: None },
            Subdomain { name: "api".to_string(), proxied: false, id: None },
        ],
        ttl: 60,
    }
}

#[test]
fn plan_patches_matched_subdomains() {
    let config = Config {
        api_token: "test-token".to_string(),
        zone_id: "zone123".to_string(),
        subdomains: vec![Subdomain {
            name: "www".to_string(),
            proxied: true,
            id: Some("rec-www".to_string()),
        }],
        ttl: 300,
    };
    let plan = plan_updates("203.0.113.5", &config);
    assert_eq!(plan.len(), 1);
    match &plan[0] {
        UpdateStep::Patch { record_id, body } => {
            assert_eq!(record_id, "rec-www");
            assert_eq!(body.ty, "A");
            assert_eq!(body.name, "www");
            assert_eq!(body.content, "203.0.113.5");
            assert_eq!(body.ttl, 300);
            assert!(body.proxied);
        }
        UpdateStep::Skip { .. } => panic!("matched subdomain must be patched"),
    }
}

#[test]
fn plan_skips_unmatched_subdomains() {
    let config = Config {
        api_token: "test-token".to_string(),
        zone_id: "zone123".to_string(),
        subdomains: vec![
            Subdomain { name: "ghost".to_string(), proxied: false, id: None },
            Subdomain { name: "api".to_string(), proxied: false, id: Some("rec-api".to_string()) },
        ],
        ttl: 60,
    };
    let plan = plan_updates("203.0.113.5", &config);
    assert_eq!(plan.len(), 2);
    assert!(matches!(&plan[0], UpdateStep::Skip { name } if name == "ghost"));
    assert!(matches!(&plan[1], UpdateStep::Patch { .. }));
}

#[test]
fn listing_status_judged() {
    assert!(judge_list_status(200).is_ok());
    assert!(judge_list_status(204).is_ok());
    let err = judge_list_status(403).unwrap_err();
    assert!(matches!(err, DdnsError::ApiFailure { status: 403 }));
    let err = judge_list_status(500).unwrap_err();
    assert!(matches!(err, DdnsError::ApiFailure { status: 500 }));
}

#[test]
fn update_status_judged_per_subdomain() {
    assert!(judge_update_status("www", 200).is_ok());
    let err = judge_update_status("www", 400).unwrap_err();
    match err {
        DdnsError::UpdateFailed { subdomain, http_status } => {
            assert_eq!(subdomain, "www");
            assert_eq!(http_status, Some(400));
        }
        other => panic!("unexpected error: {:?}", other),
    }
}

#[test]
fn envelope_failure_names_the_subdomain() {
    let env = ApiEnvelope {
        success: false,
        errors: vec![ApiError { code: 1004, message: "Record already exists".to_string() }],
    };
    let err = judge_envelope("api", &env).unwrap_err();
    match err {
        DdnsError::UpdateFailed { subdomain, http_status } => {
            assert_eq!(subdomain, "api");
            assert_eq!(http_status, None);
        }
        other => panic!("unexpected error: {:?}", other),
    }
    assert_eq!(env.errors[0].code, 1004);
    assert_eq!(env.errors[0].message, "Record already exists");
}

#[test]
fn envelope_success_passes() {
    let env = ApiEnvelope { success: true, errors: vec![] };
    assert!(judge_envelope("api", &env).is_ok());
}

#[test]
fn full_cycle_updates_both_subdomains() {
    // Config has two subdomains: the apex (configured as "") and "api".
    let config = normalize_config(two_subdomain_config());

    let body = "fl=123\nip=203.0.113.5\nts=1\n";
    let ip = resolve_current_ip(body).unwrap();
    assert_eq!(ip, "203.0.113.5");

    let records = vec![record("rec1", "example.com"), record("rec2", "api.example.com")];
    let config = match_records(config, &records);
    assert_eq!(config.subdomains[0].id.as_deref(), Some("rec1"));
    assert_eq!(config.subdomains[1].id.as_deref(), Some("rec2"));

    let plan = plan_updates(&ip, &config);
    assert_eq!(plan.len(), 2);

    // Both updates answer with a success envelope: the run succeeds with
    // one confirmation per subdomain, each naming the applied address.
    let mut confirmations: Vec<String> = Vec::new();
    for step in &plan {
        match step {
            UpdateStep::Patch { record_id: _, body } => {
                assert_eq!(body.content, "203.0.113.5");
                let env = ApiEnvelope { success: true, errors: vec![] };
                judge_update_status(&body.name, 200).unwrap();
                judge_envelope(&body.name, &env).unwrap();
                confirmations.push(format!("Setting IP of {} to {}", body.name, body.content));
            }
            UpdateStep::Skip { .. } => panic!("both subdomains are matched"),
        }
    }
    assert_eq!(confirmations.len(), 2);
    assert!(confirmations[0].contains("203.0.113.5"));
    assert!(confirmations[1].contains("203.0.113.5"));
    assert!(confirmations[0].contains('@'));
    assert!(confirmations[1].contains("api"));
}

#[test]
fn failed_second_update_stops_the_run() {
    let config = normalize_config(two_subdomain_config());
    let records = vec![record("rec1", "example.com"), record("rec2", "api.example.com")];
    let config = match_records(config, &records);
    let plan = plan_updates("203.0.113.5", &config);
    assert_eq!(plan.len(), 2);

    // The first update succeeds and stays applied; the second answers
    // success=false with a structured error. The run reports that error,
    // fails naming the second subdomain, and attempts nothing further —
    // and does not roll the first update back.
    let envelopes = vec![
        ApiEnvelope { success: true, errors: vec![] },
        ApiEnvelope {
            success: false,
            errors: vec![ApiError { code: 1004, message: "Record already exists".to_string() }],
        },
    ];
    let mut applied: Vec<String> = Vec::new();
    let mut diagnostics: Vec<String> = Vec::new();
    let mut outcome: Result<(), DdnsError> = Ok(());
    let mut attempted: usize = 0;
    for (step, env) in plan.iter().zip(envelopes.iter()) {
        match step {
            UpdateStep::Patch { record_id: _, body } => {
                attempted += 1;
                match judge_envelope(&body.name, env) {
                    Ok(()) => applied.push(body.name.clone()),
                    Err(e) => {
                        for api_error in &env.errors {
                            diagnostics
                                .push(format!("Error {}: {}", api_error.code, api_error.message));
                        }
                        outcome = Err(e);
                        break;
                    }
                }
            }
            UpdateStep::Skip { .. } => panic!("both subdomains are matched"),
        }
    }
    assert_eq!(attempted, 2);
    assert_eq!(applied, vec!["@".to_string()]);
    assert_eq!(diagnostics, vec!["Error 1004: Record already exists".to_string()]);
    match outcome.unwrap_err() {
        DdnsError::UpdateFailed { subdomain, http_status } => {
            assert_eq!(subdomain, "api");
            assert_eq!(http_status, None);
        }
        other => panic!("unexpected error: {:?}", other),
    }
}

#[test]
fn second_cycle_with_unchanged_ip_writes_the_same_state() {
    // Logical idempotence: two full cycles with an unchanged address plan
    // the same writes, so the record state after the second cycle is the
    // state after the first — even though every write is issued again.
    let records = vec![record("rec1", "example.com"), record("rec2", "api.example.com")];

    let first = {
        let config = match_records(normalize_config(two_subdomain_config()), &records);
        plan_updates("203.0.113.5", &config)
    };
    let second = {
        let config = match_records(normalize_config(two_subdomain_config()), &records);
        plan_updates("203.0.113.5", &config)
    };

    assert_eq!(first.len(), second.len());
    for (a, b) in first.iter().zip(second.iter()) {
        match (a, b) {
            (
                UpdateStep::Patch { record_id: ra, body: ba },
                UpdateStep::Patch { record_id: rb, body: bb },
            ) => {
                assert_eq!(ra, rb);
                assert_eq!(ba.ty, bb.ty);
                assert_eq!(ba.name, bb.name);
                assert_eq!(ba.content, bb.content);
                assert_eq!(ba.ttl, bb.ttl);
                assert_eq!(ba.proxied, bb.proxied);
            }
            (UpdateStep::Skip { name: na }, UpdateStep::Skip { name: nb }) => {
                assert_eq!(na, nb);
            }
            _ => panic!("the two cycles must plan the same steps"),
        }
    }
}
