use realconsole::health::{
    HealthCheckBuilder, HealthCheckResult, HealthReport, HealthStatus, HealthSystem, HealthSystemConfig,
    LlmHealthCheck, ProbeResult, ProbeType, StorageHealthCheck,
};
use std::time::Duration;

#[test]
fn test_health_system_config_default() {
    let config = HealthSystemConfig::default();
    assert_eq!(config.check_interval_secs, 30);
    assert_eq!(config.check_timeout_ms, 5000);
    assert_eq!(config.failure_threshold, 3);
}

#[test]
fn test_probe_result() {
    let success = ProbeResult::success(ProbeType::Liveness, 10);
    assert!(success.success);
    assert_eq!(success.status_code, 200);

    let failure = ProbeResult::failure(ProbeType::Readiness, "not ready".to_string());
    assert!(!failure.success);
    assert_eq!(failure.status_code, 503);
}

#[test]
fn test_health_report() {
    let report = HealthReport {
        status: HealthStatus::Healthy,
        components: vec![],
        uptime_secs: 3600,
        is_ready: true,
        timestamp_ms: 0,
    };

    assert!(report.is_healthy());
    assert!(report.is_available());
    assert_eq!(report.http_status_code(), 200);
}

#[test]
fn test_health_check_builder() {
    let builder = HealthCheckBuilder::new("test".to_string())
        .priority(10)
        .depends_on("storage".to_string())
        .required_for_readiness(true)
        .required_for_liveness(false)
        .timeout(Duration::from_secs(5));

    assert_eq!(builder.name(), "test");
    assert_eq!(builder.get_priority(), 10);
    assert!(builder.is_required_for_readiness());
    assert!(!builder.is_required_for_liveness());
}

#[test]
fn health_system_lifecycle() {
    let mut system = HealthSystem::new(HealthSystemConfig::default());
    let none: Vec<Option<HealthStatus>> = Vec::new();

    let liveness = system.liveness_probe(&none, 1);
    assert!(!liveness.success);
    assert_eq!(liveness.message, "System not started");

    system.mark_started();
    let liveness = system.liveness_probe(&none, 1);
    assert!(liveness.success);

    let readiness = system.readiness_probe(&none, 1);
    assert!(!readiness.success);
    assert_eq!(readiness.message, "System not ready");

    system.mark_ready();
    let readiness = system.readiness_probe(&none, 1);
    assert!(readiness.success);

    let stats = system.stats();
    assert_eq!(stats.liveness_checks, 2);
    assert_eq!(stats.readiness_checks, 2);
    assert_eq!(stats.failures, 0);
    assert!(stats.is_started);
    assert!(stats.is_ready);
}

#[test]
fn health_probe_names_unhealthy_component() {
    let mut system = HealthSystem::new(HealthSystemConfig::default());
    system.mark_started();
    system.mark_ready();
    system.register_extended("db".to_string(), true, true);
    system.register_extended("cache".to_string(), true, false);
    assert_eq!(system.registered_checks().len(), 2);

    let outcomes = vec![Some(HealthStatus::Healthy), Some(HealthStatus::Unhealthy)];
    let live = system.liveness_probe(&outcomes, 3);
    assert!(live.success);
    let ready = system.readiness_probe(&outcomes, 3);
    assert!(!ready.success);
    assert_eq!(ready.message, "Component cache is not ready");
    assert_eq!(ready.status_code, 503);

    let down = vec![Some(HealthStatus::Unhealthy), None];
    let live = system.liveness_probe(&down, 3);
    assert_eq!(live.message, "Component db is unhealthy");
    assert_eq!(system.stats().failures, 2);
}

#[test]
fn health_register_replaces_same_name() {
    let mut system = HealthSystem::new(HealthSystemConfig::default());
    system.register_extended("db".to_string(), true, false);
    system.register_extended("db".to_string(), false, true);
    let checks = system.registered_checks();
    assert_eq!(checks.len(), 1);
    assert!(checks[0].required_for_liveness);
    assert!(!checks[0].required_for_readiness);
}

#[test]
fn health_startup_probe() {
    let mut system = HealthSystem::new(HealthSystemConfig::default());
    let r = system.startup_probe(2);
    assert!(!r.success);
    assert_eq!(r.message, "System still starting");
    system.mark_started();
    let r = system.startup_probe(2);
    assert!(r.success);
    assert_eq!(r.duration_ms, 2);
}

#[test]
fn health_check_counts_and_reports() {
    let mut system = HealthSystem::new(HealthSystemConfig::default());
    system.mark_ready();
    let comp = HealthCheckResult {
        component: "memory".to_string(),
        status: HealthStatus::Healthy,
        latency_ms: 0,
        message: None,
    };
    let report = system.health_check(HealthStatus::Degraded, vec![comp]);
    assert!(report.is_available());
    assert!(!report.is_healthy());
    assert_eq!(report.http_status_code(), 200);
    assert_eq!(report.components.len(), 1);
    assert!(report.is_ready);
    assert_eq!(system.stats().health_checks, 1);
}

#[test]
fn health_status_codes() {
    for (s, code) in [
        (HealthStatus::Healthy, 200u16),
        (HealthStatus::Degraded, 200),
        (HealthStatus::Unhealthy, 503),
        (HealthStatus::Unknown, 503),
    ] {
        let r = HealthReport { status: s, components: vec![], uptime_secs: 0, is_ready: false, timestamp_ms: 0 };
        assert_eq!(r.http_status_code(), code);
    }
}

#[test]
fn llm_health_check_states() {
    let mut check = LlmHealthCheck::new("deepseek".to_string());
    let r = check.check(7);
    assert_eq!(r.status, HealthStatus::Degraded);
    assert_eq!(r.message.as_deref(), Some("LLM service not configured"));
    assert_eq!(r.latency_ms, 0);
    check.set_configured(true);
    let r = check.check(7);
    assert_eq!(r.status, HealthStatus::Healthy);
    assert_eq!(r.latency_ms, 7);
    assert_eq!(check.name(), "deepseek");
}

#[test]
fn storage_health_check_states() {
    let mut check = StorageHealthCheck::new("file_storage".to_string());
    assert_eq!(check.check(1).status, HealthStatus::Healthy);
    check.set_available(false);
    let r = check.check(1);
    assert_eq!(r.status, HealthStatus::Unhealthy);
    assert_eq!(r.message.as_deref(), Some("Storage unavailable"));
    check.record_write();
    assert!(check.last_write > 0);
}

use realconsole::health::{HealthResponse, ResponseData};

#[test]
fn test_health_response() {
    let healthy = HealthResponse::healthy();
    assert_eq!(healthy.code, 200);

    let unhealthy = HealthResponse::unhealthy("test error");
    assert_eq!(unhealthy.code, 503);

    let probe_result = ProbeResult::success(ProbeType::Liveness, 5);
    let from_probe = HealthResponse::from_probe(&probe_result);
    assert_eq!(from_probe.code, 200);
}

#[test]
fn health_responses_carry_their_data() {
    assert_eq!(HealthResponse::healthy().status, "healthy");
    assert!(HealthResponse::healthy().data.is_none());
    match HealthResponse::unhealthy("disk full").data {
        Some(ResponseData::Reason(r)) => assert_eq!(r, "disk full"),
        _ => panic!("an unhealthy answer carries its reason"),
    }
    let failed = ProbeResult::failure(ProbeType::Readiness, "not ready".to_string());
    let r = HealthResponse::from_probe(&failed);
    assert_eq!(r.status, "fail");
    assert_eq!(r.code, 503);
    assert_eq!(r.timestamp_ms, failed.timestamp_ms);
    match r.data {
        Some(ResponseData::Probe { message, duration_ms }) => {
            assert_eq!(message, "not ready");
            assert_eq!(duration_ms, 0);
        }
        _ => panic!("a probe answer carries the probe"),
    }
    let report = HealthReport {
        status: HealthStatus::Degraded,
        components: vec![],
        uptime_secs: 7,
        is_ready: true,
        timestamp_ms: 42,
    };
    let r = HealthResponse::from_report(&report);
    assert_eq!(r.status, "degraded");
    assert_eq!(r.code, 200);
    assert_eq!(r.timestamp_ms, 42);
    match r.data {
        Some(ResponseData::Report { uptime_secs, is_ready, components }) => {
            assert_eq!((uptime_secs, is_ready, components), (7, true, 0));
        }
        _ => panic!("a report answer carries the report"),
    }
}
