use uls_exporter::assemble::{assemble, AssemblyError};
use uls_exporter::model::{EntitlementContext, License, StatusReport};
use uls_exporter::registry::{Metric, Registry, ScalarGauge};
use uls_exporter::respond::{index_reply, metrics_reply, on_leases, on_status, ScrapeStep};
use uls_exporter::text::{i64_text, u64_text};
use uls_exporter::upstream::{lease_url, status_url, UpstreamError};

fn status(server_status: &str, uptime: i64) -> StatusReport {
    StatusReport {
        server_status: server_status.to_string(),
        server_up_time_ms: uptime,
    }
}

fn license(id: i32, user: &str, host: &str, domain: &str, revoked: bool) -> License {
    License {
        floating_lease_id: id,
        client_entitlement_context: EntitlementContext {
            environment_domain: domain.to_string(),
            environment_hostname: host.to_string(),
            environment_user: user.to_string(),
        },
        is_revoked: revoked,
    }
}

const HEALTH_BLOCK_1: &str =
    "# HELP uls_health Health of the ULS\n# TYPE uls_health gauge\nuls_health 1\n";
const HEALTH_BLOCK_0: &str =
    "# HELP uls_health Health of the ULS\n# TYPE uls_health gauge\nuls_health 0\n";
const LEASE_HEADER: &str =
    "# HELP uls_license_leased Currently leased ULS License\n# TYPE uls_license_leased gauge\n";

fn uptime_block(v: i64) -> String {
    format!(
        "# HELP uls_uptime_ms Uptime of the ULS in ms\n# TYPE uls_uptime_ms gauge\nuls_uptime_ms {}\n",
        v
    )
}

#[test]
fn healthy_single_lease_scrape() {
    let st = status("Healthy", 123456);
    let leases = vec![license(7, "alice", "host1", "corp", false)];
    let text = assemble(&st, Some(&leases)).unwrap();
    let expected = format!(
        "{}{}{}uls_license_leased{{lease_id=\"7\",lease_user=\"alice\",lease_hostname=\"host1\",lease_domain=\"corp\"}} 1\n",
        HEALTH_BLOCK_1,
        uptime_block(123456),
        LEASE_HEADER
    );
    assert_eq!(text, expected);
}

#[test]
fn down_scrape_has_no_lease_family() {
    let st = status("Down", 0);
    let text = assemble(&st, None).unwrap();
    let expected = format!("{}{}", HEALTH_BLOCK_0, uptime_block(0));
    assert_eq!(text, expected);
    assert!(!text.contains("uls_license_leased"));
}

#[test]
fn unhealthy_status_skips_lease_fetch() {
    let step = on_status(Ok(status("Degraded", 5)));
    match step {
        ScrapeStep::Respond(r) => {
            assert_eq!(r.status_code, 200);
            assert!(r.body.contains("uls_health 0\n"));
            assert!(r.body.contains("uls_uptime_ms 5\n"));
            assert!(!r.body.contains("uls_license_leased"));
        }
        ScrapeStep::FetchLeases(_) => panic!("unhealthy status must not fetch leases"),
    }
}

#[test]
fn healthy_status_asks_for_lease_fetch() {
    let step = on_status(Ok(status("Healthy", 42)));
    match step {
        ScrapeStep::FetchLeases(st) => {
            assert_eq!(st.server_status, "Healthy");
            assert_eq!(st.server_up_time_ms, 42);
        }
        ScrapeStep::Respond(_) => panic!("healthy status must fetch leases"),
    }
}

#[test]
fn distinct_tuples_one_sample_each() {
    let st = status("Healthy", 1);
    let leases = vec![
        license(1, "alice", "h1", "corp", false),
        license(2, "bob", "h2", "corp", true),
        license(3, "carol", "h3", "lab", false),
    ];
    let text = assemble(&st, Some(&leases)).unwrap();
    assert_eq!(text.matches("uls_license_leased{").count(), 3);
    assert!(text.contains(
        "uls_license_leased{lease_id=\"1\",lease_user=\"alice\",lease_hostname=\"h1\",lease_domain=\"corp\"} 1\n"
    ));
    assert!(text.contains(
        "uls_license_leased{lease_id=\"2\",lease_user=\"bob\",lease_hostname=\"h2\",lease_domain=\"corp\"} 0\n"
    ));
    assert!(text.contains(
        "uls_license_leased{lease_id=\"3\",lease_user=\"carol\",lease_hostname=\"h3\",lease_domain=\"lab\"} 1\n"
    ));
}

#[test]
fn duplicate_tuple_keeps_last_value() {
    let st = status("Healthy", 1);
    let leases = vec![
        license(9, "dora", "h9", "corp", false),
        license(9, "dora", "h9", "corp", true),
    ];
    let text = assemble(&st, Some(&leases)).unwrap();
    assert_eq!(text.matches("uls_license_leased{").count(), 1);
    assert!(text.contains(
        "uls_license_leased{lease_id=\"9\",lease_user=\"dora\",lease_hostname=\"h9\",lease_domain=\"corp\"} 0\n"
    ));
}

#[test]
fn status_fetch_failure_returns_503() {
    let step = on_status(Err(UpstreamError::Transport("connection refused".to_string())));
    match step {
        ScrapeStep::Respond(r) => {
            assert_eq!(r.status_code, 503);
            assert_eq!(
                r.body,
                "# An error occured while trying to contact the license server: \n# connection refused"
            );
        }
        ScrapeStep::FetchLeases(_) => panic!("a failed status fetch must not fetch leases"),
    }
}

#[test]
fn lease_fetch_failure_returns_503_without_partial_metrics() {
    let st = status("Healthy", 77);
    let r = on_leases(st, Err(UpstreamError::Decode("unexpected end of input".to_string())));
    assert_eq!(r.status_code, 503);
    assert!(r.body.starts_with(
        "# An error occured while trying to contact the license server: \n# "
    ));
    assert!(!r.body.contains("uls_health"));
    assert!(!r.body.contains("uls_uptime_ms"));
}

#[test]
fn repeated_scrapes_are_byte_identical() {
    let leases = vec![
        license(4, "eve", "h4", "corp", true),
        license(5, "mallory", "h5", "corp", false),
    ];
    let first = assemble(&status("Healthy", 900), Some(&leases)).unwrap();
    let second = assemble(&status("Healthy", 900), Some(&leases)).unwrap();
    assert_eq!(first, second);
}

#[test]
fn multiline_error_stays_commented() {
    let e = AssemblyError::Upstream(UpstreamError::Decode("first\nsecond\nthird".to_string()));
    let r = metrics_reply(Err(e));
    assert_eq!(r.status_code, 503);
    assert_eq!(
        r.body,
        "# An error occured while trying to contact the license server: \n# first\n# second\n# third"
    );
}

#[test]
fn duplicate_registration_is_rejected() {
    let mut reg = Registry::new();
    let first = ScalarGauge {
        name: "x".to_string(),
        help: "an x".to_string(),
        value: 1,
    };
    let second = ScalarGauge {
        name: "x".to_string(),
        help: "another x".to_string(),
        value: 2,
    };
    assert!(reg.register(Metric::Scalar(first)).is_ok());
    let err = reg.register(Metric::Scalar(second)).unwrap_err();
    assert_eq!(err.name, "x");
    assert_eq!(err.describe(), "duplicate metric name x");
}

#[test]
fn negative_and_extreme_uptime_values() {
    let text = assemble(&status("Down", -5), None).unwrap();
    assert!(text.contains("uls_uptime_ms -5\n"));
    let text = assemble(&status("Down", i64::MIN), None).unwrap();
    assert!(text.contains("uls_uptime_ms -9223372036854775808\n"));
    let text = assemble(&status("Down", i64::MAX), None).unwrap();
    assert!(text.contains("uls_uptime_ms 9223372036854775807\n"));
}

#[test]
fn label_values_are_escaped() {
    let st = status("Healthy", 3);
    let leases = vec![license(1, "a\"b\\c\nd", "h", "d", false)];
    let text = assemble(&st, Some(&leases)).unwrap();
    assert!(text.contains("lease_user=\"a\\\"b\\\\c\\nd\""));
}

#[test]
fn decimal_rendering_is_exact() {
    assert_eq!(u64_text(0), "0");
    assert_eq!(u64_text(10), "10");
    assert_eq!(u64_text(90210), "90210");
    assert_eq!(i64_text(-1), "-1");
    assert_eq!(i64_text(0), "0");
    assert_eq!(i64_text(i64::MAX), "9223372036854775807");
    assert_eq!(i64_text(i64::MIN), "-9223372036854775808");
}

#[test]
fn endpoint_urls_use_fixed_paths() {
    assert_eq!(
        status_url("http://uls.example:8080"),
        "http://uls.example:8080/v1/admin/status"
    );
    assert_eq!(
        lease_url("http://uls.example:8080"),
        "http://uls.example:8080/v1/admin/lease"
    );
}

#[test]
fn liveness_route_serves_banner() {
    let r = index_reply();
    assert_eq!(r.status_code, 200);
    assert_eq!(
        r.body,
        "Unity License Server Exporter \n Metrics exported on /metrics"
    );
}

#[test]
fn upstream_error_description_passes_through() {
    assert_eq!(
        UpstreamError::Transport("no route to host".to_string()).describe(),
        "no route to host"
    );
    assert_eq!(
        UpstreamError::Decode("bad json".to_string()).describe(),
        "bad json"
    );
}

#[test]
fn healthy_empty_lease_list_has_header_and_no_samples() {
    let st = status("Healthy", 8);
    let leases: Vec<License> = Vec::new();
    let text = assemble(&st, Some(&leases)).unwrap();
    let expected = format!("{}{}{}", HEALTH_BLOCK_1, uptime_block(8), LEASE_HEADER);
    assert_eq!(text, expected);
}

#[test]
fn success_reply_carries_metrics_text() {
    let r = metrics_reply(Ok("uls_health 1\n".to_string()));
    assert_eq!(r.status_code, 200);
    assert_eq!(r.body, "uls_health 1\n");
}
