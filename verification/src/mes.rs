//! The MES (maintenance execution system) connection: its settings and the
//! answers recorded when pushing to it is disabled.

use vstd::prelude::*;
use crate::models::MesResponse;

verus! {

/// The HTTP client of `reqwest`, carried as is.
#[verifier::external_type_specification]
#[verifier::external_body]
pub struct ExReqwestClient(reqwest::Client);

/// Connection to the MES: the HTTP client, the endpoint, the bearer token,
/// and whether pushing is enabled.
pub struct MesPusher {
    pub client: reqwest::Client,
    api_url: String,
    api_token: String,
    enabled: bool,
}

/// Message recorded when pushing to the MES is disabled.
pub open spec fn disabled_text() -> Seq<char> {
    "MES推送已禁用，本地记录成功"@
}

impl MesPusher {
    pub closed spec fn api_url_view(&self) -> Seq<char> {
        self.api_url@
    }

    pub closed spec fn api_token_view(&self) -> Seq<char> {
        self.api_token@
    }

    pub closed spec fn enabled_view(&self) -> bool {
        self.enabled
    }

    /// A connection from its parts.
    pub fn from_parts(client: reqwest::Client, api_url: String, api_token: String, enabled: bool) -> (r: Self)
        ensures
            r.api_url_view() == api_url@,
            r.api_token_view() == api_token@,
            r.enabled_view() == enabled,
    {
        MesPusher { client, api_url, api_token, enabled }
    }

    /// Whether pushing is enabled.
    pub fn is_enabled(&self) -> (r: bool)
        ensures
            r == self.enabled_view(),
    {
        self.enabled
    }

    /// The MES endpoint.
    pub fn get_api_url(&self) -> (r: &str)
        ensures
            r@ == self.api_url_view(),
    {
        self.api_url.as_str()
    }

    /// Value of the `Authorization` header: `Bearer ` and the token.
    pub fn authorization(&self) -> (r: String)
        ensures
            r@ == "Bearer "@ + self.api_token_view(),
    {
        let mut h = String::from_str("Bearer ");
        h.append(self.api_token.as_str());
        h
    }
}

impl MesResponse {
    /// The answer recorded for an alarm when pushing is disabled: success,
    /// with reference `LOCAL-<alarm id>`.
    pub fn disabled_for_alarm(alarm_id: &str) -> (r: MesResponse)
        ensures
            r.success,
            r.message@ == disabled_text(),
            r.mes_reference_id matches Some(id) && id@ == "LOCAL-"@ + alarm_id@,
    {
        let mut id = String::from_str("LOCAL-");
        id.append(alarm_id);
        MesResponse {
            success: true,
            message: String::from_str("MES推送已禁用，本地记录成功"),
            mes_reference_id: Some(id),
        }
    }

    /// The answer recorded for a damage report when pushing is disabled:
    /// success, with reference `LOCAL-DMG-<turbine>-<blade>`.
    pub fn disabled_for_damage_report(turbine_id: &str, blade_id: &str) -> (r: MesResponse)
        ensures
            r.success,
            r.message@ == disabled_text(),
            r.mes_reference_id matches Some(id) && id@ == "LOCAL-DMG-"@ + turbine_id@ + "-"@
                + blade_id@,
    {
        let mut id = String::from_str("LOCAL-DMG-");
        id.append(turbine_id);
        id.append("-");
        id.append(blade_id);
        MesResponse {
            success: true,
            message: String::from_str("MES推送已禁用，本地记录成功"),
            mes_reference_id: Some(id),
        }
    }

    /// The answer recorded for a maintenance task when pushing is
    /// disabled: success, with reference `LOCAL-MAINT-<turbine>-<blade>`.
    pub fn disabled_for_maintenance_task(turbine_id: &str, blade_id: &str) -> (r: MesResponse)
        ensures
            r.success,
            r.message@ == disabled_text(),
            r.mes_reference_id matches Some(id) && id@ == "LOCAL-MAINT-"@ + turbine_id@ + "-"@
                + blade_id@,
    {
        let mut id = String::from_str("LOCAL-MAINT-");
        id.append(turbine_id);
        id.append("-");
        id.append(blade_id);
        MesResponse {
            success: true,
            message: String::from_str("MES推送已禁用，本地记录成功"),
            mes_reference_id: Some(id),
        }
    }

    /// The answer assumed when the MES accepted a push but its reply could
    /// not be read.
    pub fn accepted_without_reply() -> (r: MesResponse)
        ensures
            r.success,
            r.message@ == "推送成功"@,
            r.mes_reference_id is None,
    {
        MesResponse { success: true, message: String::from_str("推送成功"), mes_reference_id: None }
    }
}

} // verus!
