//! The records decoded from the license server's administrative API:
//! the health snapshot and the per-lease records.

use vstd::prelude::*;
use vstd::string::*;

verus! {

/// The identifying attributes of the client holding a lease.
pub struct EntitlementContext {
    pub environment_domain: String,
    pub environment_hostname: String,
    pub environment_user: String,
}

pub ghost struct EntitlementContextView {
    pub environment_domain: Seq<char>,
    pub environment_hostname: Seq<char>,
    pub environment_user: Seq<char>,
}

impl View for EntitlementContext {
    type V = EntitlementContextView;

    open spec fn view(&self) -> EntitlementContextView {
        EntitlementContextView {
            environment_domain: self.environment_domain@,
            environment_hostname: self.environment_hostname@,
            environment_user: self.environment_user@,
        }
    }
}

impl DeepView for EntitlementContext {
    type V = EntitlementContextView;

    open spec fn deep_view(&self) -> EntitlementContextView {
        self.view()
    }
}

/// One leased-license record from the lease endpoint.
pub struct License {
    pub floating_lease_id: i32,
    pub client_entitlement_context: EntitlementContext,
    pub is_revoked: bool,
}

pub ghost struct LicenseView {
    pub floating_lease_id: int,
    pub client_entitlement_context: EntitlementContextView,
    pub is_revoked: bool,
}

impl View for License {
    type V = LicenseView;

    open spec fn view(&self) -> LicenseView {
        LicenseView {
            floating_lease_id: self.floating_lease_id as int,
            client_entitlement_context: self.client_entitlement_context@,
            is_revoked: self.is_revoked,
        }
    }
}

impl DeepView for License {
    type V = LicenseView;

    open spec fn deep_view(&self) -> LicenseView {
        self.view()
    }
}

/// The health snapshot from the status endpoint.
pub struct StatusReport {
    pub server_status: String,
    pub server_up_time_ms: i64,
}

pub ghost struct StatusReportView {
    pub server_status: Seq<char>,
    pub server_up_time_ms: int,
}

impl View for StatusReport {
    type V = StatusReportView;

    open spec fn view(&self) -> StatusReportView {
        StatusReportView {
            server_status: self.server_status@,
            server_up_time_ms: self.server_up_time_ms as int,
        }
    }
}

/// The server counts as healthy exactly when its status string is the
/// literal "Healthy"; any other string is opaque and means unhealthy.
pub open spec fn healthy(s: StatusReportView) -> bool {
    s.server_status == "Healthy"@
}

impl StatusReport {
    /// Exact-match health test against "Healthy".
    pub fn is_healthy(&self) -> (r: bool)
        ensures
            r == healthy(self@),
    {
        let expected = String::from_str("Healthy");
        self.server_status == expected
    }
}

} // verus!
