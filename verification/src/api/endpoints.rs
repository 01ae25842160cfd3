//! The endpoints of the control API, and who may use them.
use vstd::prelude::*;
use vstd::string::*;
use crate::api::auth::{bearer_header, header_text, law_bearer_of_valid_token, presents, valid_token};
use crate::api::routes::{handle_dashboard, require_auth, Refusal};
use crate::api::routes::{not_found, unauthorized};

verus! {

/// What can be asked of the API, and the pages of the dashboard.
#[derive(Debug, Clone, Copy, PartialEq, Eq, Structural)]
pub enum Endpoint {
    Status,
    QueriesRecent,
    StatsSummary,
    StatsHistory,
    StatsTop,
    Snooze,
    Resume,
    Allow,
    Unallow,
    Allowlist,
    Lists,
    ListsRefresh,
    Takeover,
    Restore,
    Clients,
    ConfigReload,
    Profiles,
    ProfileShow,
    DashboardRoot,
    DashboardIndex,
    DashboardStyle,
    DashboardScript,
}

/// How an endpoint is asked.
#[derive(Debug, Clone, Copy, PartialEq, Eq, Structural)]
pub enum Method {
    Get,
    Post,
}

impl Endpoint {
    /// The path of the endpoint.
    pub open spec fn path_text(self) -> Seq<char> {
        match self {
            Endpoint::Status => "/v0/status"@,
            Endpoint::QueriesRecent => "/v0/queries/recent"@,
            Endpoint::StatsSummary => "/v0/stats/summary"@,
            Endpoint::StatsHistory => "/v0/stats/history"@,
            Endpoint::StatsTop => "/v0/stats/top"@,
            Endpoint::Snooze => "/v0/snooze"@,
            Endpoint::Resume => "/v0/resume"@,
            Endpoint::Allow => "/v0/allow"@,
            Endpoint::Unallow => "/v0/unallow"@,
            Endpoint::Allowlist => "/v0/allowlist"@,
            Endpoint::Lists => "/v0/lists"@,
            Endpoint::ListsRefresh => "/v0/lists/refresh"@,
            Endpoint::Takeover => "/v0/takeover"@,
            Endpoint::Restore => "/v0/restore"@,
            Endpoint::Clients => "/v0/clients"@,
            Endpoint::ConfigReload => "/v0/config/reload"@,
            Endpoint::Profiles => "/v0/profiles"@,
            Endpoint::ProfileShow => "/v0/profiles/{name}"@,
            Endpoint::DashboardRoot => "/dashboard/"@,
            Endpoint::DashboardIndex => "/dashboard/index.html"@,
            Endpoint::DashboardStyle => "/dashboard/style.css"@,
            Endpoint::DashboardScript => "/dashboard/app.js"@,
        }
    }

    /// The path of the endpoint; `{name}` stands for the name of a profile.
    pub fn path(&self) -> (r: &'static str)
        ensures
            r@ == self.path_text(),
    {
        match self {
            Endpoint::Status => "/v0/status",
            Endpoint::QueriesRecent => "/v0/queries/recent",
            Endpoint::StatsSummary => "/v0/stats/summary",
            Endpoint::StatsHistory => "/v0/stats/history",
            Endpoint::StatsTop => "/v0/stats/top",
            Endpoint::Snooze => "/v0/snooze",
            Endpoint::Resume => "/v0/resume",
            Endpoint::Allow => "/v0/allow",
            Endpoint::Unallow => "/v0/unallow",
            Endpoint::Allowlist => "/v0/allowlist",
            Endpoint::Lists => "/v0/lists",
            Endpoint::ListsRefresh => "/v0/lists/refresh",
            Endpoint::Takeover => "/v0/takeover",
            Endpoint::Restore => "/v0/restore",
            Endpoint::Clients => "/v0/clients",
            Endpoint::ConfigReload => "/v0/config/reload",
            Endpoint::Profiles => "/v0/profiles",
            Endpoint::ProfileShow => "/v0/profiles/{name}",
            Endpoint::DashboardRoot => "/dashboard/",
            Endpoint::DashboardIndex => "/dashboard/index.html",
            Endpoint::DashboardStyle => "/dashboard/style.css",
            Endpoint::DashboardScript => "/dashboard/app.js",
        }
    }

    /// The endpoint changes something.
    pub open spec fn acts(self) -> bool {
        match self {
            Endpoint::Snooze => true,
            Endpoint::Resume => true,
            Endpoint::Allow => true,
            Endpoint::Unallow => true,
            Endpoint::ListsRefresh => true,
            Endpoint::Takeover => true,
            Endpoint::Restore => true,
            Endpoint::ConfigReload => true,
            _ => false,
        }
    }

    /// How the endpoint is asked: what changes something is posted.
    pub fn method(&self) -> (r: Method)
        ensures
            r == if self.acts() {
                Method::Post
            } else {
                Method::Get
            },
    {
        match self {
            Endpoint::Snooze => Method::Post,
            Endpoint::Resume => Method::Post,
            Endpoint::Allow => Method::Post,
            Endpoint::Unallow => Method::Post,
            Endpoint::ListsRefresh => Method::Post,
            Endpoint::Takeover => Method::Post,
            Endpoint::Restore => Method::Post,
            Endpoint::ConfigReload => Method::Post,
            _ => Method::Get,
        }
    }

    /// The endpoint is a page of the dashboard.  The pages hold no secrets.
    pub open spec fn is_page(self) -> bool {
        match self {
            Endpoint::DashboardRoot => true,
            Endpoint::DashboardIndex => true,
            Endpoint::DashboardStyle => true,
            Endpoint::DashboardScript => true,
            _ => false,
        }
    }
}

/// A request is let in: a page of the dashboard is served where the dashboard is on, anything
/// else to those who present the token.
pub open spec fn is_let_in(
    endpoint: Endpoint,
    header: Option<Seq<char>>,
    token: Seq<char>,
    dashboard: bool,
) -> bool {
    if endpoint.is_page() {
        dashboard
    } else {
        presents(header, token)
    }
}

/// Lets a request in, or says how it is refused.
pub fn let_in(endpoint: Endpoint, header: Option<&str>, token: &str, dashboard: bool) -> (r: Result<
    (),
    Refusal,
>)
    ensures
        r is Ok <==> is_let_in(endpoint, header_text(header), token@, dashboard),
        r matches Err(e) ==> e@ == if endpoint.is_page() {
            not_found()
        } else {
            unauthorized()
        },
{
    match endpoint {
        Endpoint::DashboardRoot => handle_dashboard(dashboard),
        Endpoint::DashboardIndex => handle_dashboard(dashboard),
        Endpoint::DashboardStyle => handle_dashboard(dashboard),
        Endpoint::DashboardScript => handle_dashboard(dashboard),
        _ => require_auth(header, token),
    }
}

/// Whoever is let in to change something, or to read anything but a page of the dashboard, has
/// presented the token.
pub proof fn law_the_api_is_closed(
    endpoint: Endpoint,
    header: Option<Seq<char>>,
    token: Seq<char>,
    dashboard: bool,
)
    requires
        valid_token(token),
        endpoint.acts() || !endpoint.is_page(),
        is_let_in(endpoint, header, token, dashboard),
    ensures
        header == Some(bearer_header(token)),
{
    law_bearer_of_valid_token(token, header);
}

/// A page of the dashboard is served to anyone where the dashboard is on, and is not found
/// otherwise; every other endpoint is open to those alone who present the token, and the others
/// are refused as unauthorized.
pub proof fn law_who_is_let_in(
    endpoint: Endpoint,
    header: Option<&str>,
    token: &str,
    dashboard: bool,
    r: Result<(), Refusal>,
)
    requires
        valid_token(token@),
        call_ensures(let_in, (endpoint, header, token, dashboard), r),
    ensures
        ({
            let page = endpoint == Endpoint::DashboardRoot || endpoint == Endpoint::DashboardIndex
                || endpoint == Endpoint::DashboardStyle || endpoint == Endpoint::DashboardScript;
            let known = header is Some && header->0@ == "Bearer "@ + token@;
            &&& page ==> (r is Ok <==> dashboard)
            &&& !page ==> (r is Ok <==> known)
            &&& page && !dashboard ==> (r matches Err(e) && e.status == 404 && e.body.error@
                == "not_found"@ && e.body.detail is None)
            &&& !page && !known ==> (r matches Err(e) && e.status == 401 && e.body.error@
                == "unauthorized"@ && e.body.detail is None)
        }),
{
    law_bearer_of_valid_token(token@, header_text(header));
}

/// Exactly what changes something has to be posted.
pub proof fn law_what_changes_something_is_posted(endpoint: Endpoint, r: Method)
    requires
        call_ensures(Endpoint::method, (&endpoint,), r),
    ensures
        r == Method::Post <==> endpoint == Endpoint::Snooze || endpoint == Endpoint::Resume || endpoint
            == Endpoint::Allow || endpoint == Endpoint::Unallow || endpoint == Endpoint::ListsRefresh
            || endpoint == Endpoint::Takeover || endpoint == Endpoint::Restore || endpoint
            == Endpoint::ConfigReload,
{
}

/// Where each endpoint is found.
pub proof fn law_where_endpoints_are_found(endpoint: Endpoint, r: &'static str)
    requires
        call_ensures(Endpoint::path, (&endpoint,), r),
    ensures
        endpoint == Endpoint::Status ==> r@ == "/v0/status"@,
        endpoint == Endpoint::QueriesRecent ==> r@ == "/v0/queries/recent"@,
        endpoint == Endpoint::StatsSummary ==> r@ == "/v0/stats/summary"@,
        endpoint == Endpoint::StatsHistory ==> r@ == "/v0/stats/history"@,
        endpoint == Endpoint::StatsTop ==> r@ == "/v0/stats/top"@,
        endpoint == Endpoint::Snooze ==> r@ == "/v0/snooze"@,
        endpoint == Endpoint::Resume ==> r@ == "/v0/resume"@,
        endpoint == Endpoint::Allow ==> r@ == "/v0/allow"@,
        endpoint == Endpoint::Unallow ==> r@ == "/v0/unallow"@,
        endpoint == Endpoint::Allowlist ==> r@ == "/v0/allowlist"@,
        endpoint == Endpoint::Lists ==> r@ == "/v0/lists"@,
        endpoint == Endpoint::ListsRefresh ==> r@ == "/v0/lists/refresh"@,
        endpoint == Endpoint::Takeover ==> r@ == "/v0/takeover"@,
        endpoint == Endpoint::Restore ==> r@ == "/v0/restore"@,
        endpoint == Endpoint::Clients ==> r@ == "/v0/clients"@,
        endpoint == Endpoint::ConfigReload ==> r@ == "/v0/config/reload"@,
        endpoint == Endpoint::Profiles ==> r@ == "/v0/profiles"@,
        endpoint == Endpoint::ProfileShow ==> r@ == "/v0/profiles/{name}"@,
        endpoint == Endpoint::DashboardRoot ==> r@ == "/dashboard/"@,
        endpoint == Endpoint::DashboardIndex ==> r@ == "/dashboard/index.html"@,
        endpoint == Endpoint::DashboardStyle ==> r@ == "/dashboard/style.css"@,
        endpoint == Endpoint::DashboardScript ==> r@ == "/dashboard/app.js"@,
{
}

}
