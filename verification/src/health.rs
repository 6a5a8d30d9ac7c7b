use vstd::prelude::*;

verus! {

/// The three read-only endpoints the health sub-server exposes.
#[derive(Clone, Copy, Debug, PartialEq, Eq)]
pub enum HealthEndpoint {
    /// The process is running.
    Liveness,
    /// The main listener has begun serving.
    Readiness,
    /// The current metrics snapshot.
    Metrics,
}

/// Body of the liveness endpoint: always reports success, whatever the
/// main server is doing.
pub fn healthz_body() -> (r: &'static str)
    ensures
        r@ == "ok"@,
{
    "ok"
}

/// Body of the readiness endpoint: reflects the readiness flag and
/// nothing else.
pub fn ready_body(ready: bool) -> (r: &'static str)
    ensures
        ready ==> r@ == "ok"@,
        !ready ==> r@ == "starting"@,
{
    if ready {
        "ok"
    } else {
        "starting"
    }
}

/// Which health endpoint a request path reaches, if any.
pub fn route_health(path: &String) -> (r: Option<HealthEndpoint>)
    ensures
        path@ == "/healthz"@ ==> r == Some(HealthEndpoint::Liveness),
        path@ == "/ready"@ ==> r == Some(HealthEndpoint::Readiness),
        path@ == "/metrics"@ ==> r == Some(HealthEndpoint::Metrics),
        path@ != "/healthz"@ && path@ != "/ready"@ && path@ != "/metrics"@ ==> r is None,
{
    proof {
        reveal_strlit("/healthz");
        reveal_strlit("/ready");
        reveal_strlit("/metrics");
        assert(("/healthz"@).len() == 8);
        assert(("/ready"@).len() == 6);
        assert(("/metrics"@).len() == 8);
        assert(("/healthz"@) != ("/metrics"@)) by {
            assert(("/healthz"@)[1] == 'h' && ("/metrics"@)[1] == 'm');
        }
    }
    let healthz = "/healthz".to_owned();
    let ready = "/ready".to_owned();
    let metrics = "/metrics".to_owned();
    if *path == healthz {
        Some(HealthEndpoint::Liveness)
    } else if *path == ready {
        Some(HealthEndpoint::Readiness)
    } else if *path == metrics {
        Some(HealthEndpoint::Metrics)
    } else {
        None
    }
}

} // verus!
