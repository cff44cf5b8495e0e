use traffic_chronicle::api::{
    bearer_header, classify_status, endpoint_url, AuthToken, EndpointKind, FetchError, RetryDecision,
    RetryPolicy,
};

#[test]
fn every_endpoint_has_its_address() {
    let author = "octocat".to_string();
    let repository = "hello-world".to_string();
    let expected = [
        (EndpointKind::HourlyViews, "https://api.github.com/repos/octocat/hello-world/traffic/views?per=day"),
        (EndpointKind::WeeklyViews, "https://api.github.com/repos/octocat/hello-world/traffic/views?per=week"),
        (EndpointKind::HourlyClones, "https://api.github.com/repos/octocat/hello-world/traffic/clones?per=day"),
        (EndpointKind::WeeklyClones, "https://api.github.com/repos/octocat/hello-world/traffic/clones?per=week"),
        (EndpointKind::Referrers, "https://api.github.com/repos/octocat/hello-world/traffic/popular/referrers"),
        (EndpointKind::PopularPaths, "https://api.github.com/repos/octocat/hello-world/traffic/popular/paths"),
    ];
    for (kind, address) in expected {
        assert_eq!(endpoint_url(kind, &author, &repository), address);
    }
}

#[test]
fn the_credential_is_presented_as_a_bearer_token() {
    assert_eq!(bearer_header(&AuthToken("s3".to_string())), "Bearer s3");
    assert_eq!(bearer_header(&AuthToken(String::new())), "Bearer ");
}

#[test]
fn only_the_transport_is_tried_again() {
    assert!(FetchError::Network.transient());
    assert!(FetchError::RateLimited.transient());
    assert!(!FetchError::Unauthorized.transient());
    assert!(!FetchError::Malformed.transient());
    let policy = RetryPolicy { max_retries: 3, base_delay_ms: 100, max_delay_ms: 10_000 };
    assert_eq!(policy.decide(FetchError::Unauthorized, 1), RetryDecision::GiveUp);
    assert_eq!(policy.decide(FetchError::Malformed, 1), RetryDecision::GiveUp);
    assert_eq!(policy.decide(FetchError::Network, 1), RetryDecision::RetryAfter { delay_ms: 100 });
    assert_eq!(policy.decide(FetchError::RateLimited, 1), RetryDecision::RetryAfter { delay_ms: 100 });
}

#[test]
fn the_delay_doubles_up_to_the_ceiling_and_retries_are_bounded() {
    let policy = RetryPolicy { max_retries: 6, base_delay_ms: 100, max_delay_ms: 1_000 };
    let delays: Vec<RetryDecision> = (0..=7).map(|n| policy.decide(FetchError::Network, n)).collect();
    assert_eq!(
        delays,
        vec![
            RetryDecision::GiveUp,
            RetryDecision::RetryAfter { delay_ms: 100 },
            RetryDecision::RetryAfter { delay_ms: 200 },
            RetryDecision::RetryAfter { delay_ms: 400 },
            RetryDecision::RetryAfter { delay_ms: 800 },
            RetryDecision::RetryAfter { delay_ms: 1_000 },
            RetryDecision::RetryAfter { delay_ms: 1_000 },
            RetryDecision::GiveUp,
        ]
    );
}

#[test]
fn a_base_delay_above_the_ceiling_is_cut_to_the_ceiling() {
    let policy = RetryPolicy { max_retries: 2, base_delay_ms: 5_000, max_delay_ms: 1_000 };
    assert_eq!(policy.decide(FetchError::Network, 1), RetryDecision::RetryAfter { delay_ms: 1_000 });
    assert_eq!(policy.decide(FetchError::Network, 2), RetryDecision::RetryAfter { delay_ms: 1_000 });
    let never = RetryPolicy { max_retries: 0, base_delay_ms: 1, max_delay_ms: 1 };
    assert_eq!(never.decide(FetchError::Network, 1), RetryDecision::GiveUp);
}

#[test]
fn doubling_does_not_overflow() {
    let policy = RetryPolicy { max_retries: 200, base_delay_ms: 1, max_delay_ms: u64::MAX };
    assert_eq!(policy.decide(FetchError::Network, 64), RetryDecision::RetryAfter { delay_ms: 1u64 << 63 });
    assert_eq!(policy.decide(FetchError::Network, 65), RetryDecision::RetryAfter { delay_ms: u64::MAX });
    assert_eq!(policy.decide(FetchError::Network, 200), RetryDecision::RetryAfter { delay_ms: u64::MAX });
}

#[test]
fn a_status_says_how_the_fetch_went() {
    assert_eq!(classify_status(200), None);
    assert_eq!(classify_status(401), Some(FetchError::Unauthorized));
    assert_eq!(classify_status(403), Some(FetchError::RateLimited));
    assert_eq!(classify_status(429), Some(FetchError::RateLimited));
    for status in [0, 199, 201, 204, 301, 400, 404, 500, 503, -1, i32::MAX] {
        assert_eq!(classify_status(status), Some(FetchError::Network));
    }
}
