//! The routes that the application serves.
use vstd::prelude::*;

verus! {

/// The HTTP method of a route.
#[derive(Clone, Copy, Debug, PartialEq, Eq, Structural)]
pub enum Method {
    Get,
    Post,
}

/// What answers the requests of a route.
#[derive(Clone, Copy, Debug, PartialEq, Eq, Structural)]
pub enum Handler {
    /// Liveness.
    Health,
    /// Readiness.
    Ready,
    /// The catalog of errors.
    ErrorCatalog,
    /// Settlements.
    ListSettlements,
    /// One settlement.
    GetSettlement,
    /// A callback of a payment anchor.
    Callback,
    /// An incoming webhook.
    HandleWebhook,
    /// One transaction.
    GetTransaction,
    /// A GraphQL query.
    Graphql,
    /// An export of transactions.
    ExportTransactions,
    /// Transactions by status.
    StatusCounts,
    /// Totals by day.
    DailyTotals,
    /// Totals by asset.
    AssetStats,
    /// How the query cache does.
    CacheMetrics,
}

/// What checks a request before its handler sees it.
#[derive(Clone, Copy, Debug, PartialEq, Eq, Structural)]
pub enum Validation {
    /// The checks on callbacks.
    Callback,
    /// The checks on webhooks.
    Webhook,
}

/// A route. A segment of its path that begins with a colon stands for any one segment.
#[derive(Debug)]
pub struct Route {
    pub method: Method,
    pub path: &'static str,
    pub handler: Handler,
    pub validation: Option<Validation>,
}

/// A route with its path as a sequence of characters.
pub struct RouteSpec {
    pub method: Method,
    pub path: Seq<char>,
    pub handler: Handler,
    pub validation: Option<Validation>,
}

impl View for Route {
    type V = RouteSpec;

    open spec fn view(&self) -> RouteSpec {
        RouteSpec {
            method: self.method,
            path: self.path@,
            handler: self.handler,
            validation: self.validation,
        }
    }
}

/// A route whose requests go to the handler as they come.
pub open spec fn plain(method: Method, path: Seq<char>, handler: Handler) -> RouteSpec {
    RouteSpec { method, path, handler, validation: None }
}

/// A route whose requests are checked first.
pub open spec fn checked(path: Seq<char>, handler: Handler, validation: Validation) -> RouteSpec {
    RouteSpec { method: Method::Post, path, handler, validation: Some(validation) }
}

/// The routes.
pub open spec fn route_table() -> Seq<RouteSpec> {
    seq![
        plain(Method::Get, "/health"@, Handler::Health),
        plain(Method::Get, "/ready"@, Handler::Ready),
        plain(Method::Get, "/errors"@, Handler::ErrorCatalog),
        plain(Method::Get, "/settlements"@, Handler::ListSettlements),
        plain(Method::Get, "/settlements/:id"@, Handler::GetSettlement),
        checked("/callback"@, Handler::Callback, Validation::Callback),
        checked("/callback/transaction"@, Handler::Callback, Validation::Callback),
        checked("/webhook"@, Handler::HandleWebhook, Validation::Webhook),
        plain(Method::Get, "/transactions/:id"@, Handler::GetTransaction),
        plain(Method::Post, "/graphql"@, Handler::Graphql),
        plain(Method::Get, "/export"@, Handler::ExportTransactions),
        plain(Method::Get, "/stats/status"@, Handler::StatusCounts),
        plain(Method::Get, "/stats/daily"@, Handler::DailyTotals),
        plain(Method::Get, "/stats/assets"@, Handler::AssetStats),
        plain(Method::Get, "/cache/metrics"@, Handler::CacheMetrics),
    ]
}

fn route(method: Method, path: &'static str, handler: Handler) -> (r: Route)
    ensures
        r@ == plain(method, path@, handler),
{
    Route { method, path, handler, validation: None }
}

fn validated_route(path: &'static str, handler: Handler, validation: Validation) -> (r: Route)
    ensures
        r@ == checked(path@, handler, validation),
{
    Route { method: Method::Post, path, handler, validation: Some(validation) }
}

/// The routes of the application.
pub fn create_app() -> (r: Vec<Route>)
    ensures
        r@.map_values(|route: Route| route@) == route_table(),
{
    let mut r: Vec<Route> = Vec::new();
    r.push(route(Method::Get, "/health", Handler::Health));
    r.push(route(Method::Get, "/ready", Handler::Ready));
    r.push(route(Method::Get, "/errors", Handler::ErrorCatalog));
    r.push(route(Method::Get, "/settlements", Handler::ListSettlements));
    r.push(route(Method::Get, "/settlements/:id", Handler::GetSettlement));
    r.push(validated_route("/callback", Handler::Callback, Validation::Callback));
    r.push(validated_route("/callback/transaction", Handler::Callback, Validation::Callback));
    r.push(validated_route("/webhook", Handler::HandleWebhook, Validation::Webhook));
    r.push(route(Method::Get, "/transactions/:id", Handler::GetTransaction));
    r.push(route(Method::Post, "/graphql", Handler::Graphql));
    r.push(route(Method::Get, "/export", Handler::ExportTransactions));
    r.push(route(Method::Get, "/stats/status", Handler::StatusCounts));
    r.push(route(Method::Get, "/stats/daily", Handler::DailyTotals));
    r.push(route(Method::Get, "/stats/assets", Handler::AssetStats));
    r.push(route(Method::Get, "/cache/metrics", Handler::CacheMetrics));
    assert(r@.map_values(|route: Route| route@) =~= route_table());
    r
}

/// The position of a path in the table, told by its length and, where that is not enough,
/// by one of its characters.
spec fn position_of(path: Seq<char>) -> int {
    if path.len() == 6 {
        1
    } else if path.len() == 7 {
        if path[1] == 'h' {
            0
        } else if path[2] == 'r' {
            2
        } else {
            10
        }
    } else if path.len() == 8 {
        if path[1] == 'w' {
            7
        } else {
            9
        }
    } else if path.len() == 9 {
        5
    } else if path.len() == 12 {
        if path[2] == 'e' {
            3
        } else {
            12
        }
    } else if path.len() == 13 {
        if path[7] == 's' {
            11
        } else {
            13
        }
    } else if path.len() == 14 {
        14
    } else if path.len() == 16 {
        4
    } else if path.len() == 17 {
        8
    } else if path.len() == 21 {
        6
    } else {
        -1
    }
}

/// No path is routed twice.
pub proof fn law_paths_are_distinct(i: int, j: int)
    requires
        0 <= i < j < route_table().len(),
    ensures
        route_table()[i].path != route_table()[j].path,
{
    reveal_strlit("/health");
    reveal_strlit("/ready");
    reveal_strlit("/errors");
    reveal_strlit("/settlements");
    reveal_strlit("/settlements/:id");
    reveal_strlit("/callback");
    reveal_strlit("/callback/transaction");
    reveal_strlit("/webhook");
    reveal_strlit("/transactions/:id");
    reveal_strlit("/graphql");
    reveal_strlit("/export");
    reveal_strlit("/stats/status");
    reveal_strlit("/stats/daily");
    reveal_strlit("/stats/assets");
    reveal_strlit("/cache/metrics");
    // Where lengths agree, a character tells the paths apart.
    assert(position_of("/health"@) == 0);
    assert(position_of("/ready"@) == 1);
    assert(position_of("/errors"@) == 2);
    assert(position_of("/settlements"@) == 3);
    assert(position_of("/settlements/:id"@) == 4);
    assert(position_of("/callback"@) == 5);
    assert(position_of("/callback/transaction"@) == 6);
    assert(position_of("/webhook"@) == 7);
    assert(position_of("/transactions/:id"@) == 8);
    assert(position_of("/graphql"@) == 9);
    assert(position_of("/export"@) == 10);
    assert(position_of("/stats/status"@) == 11);
    assert(position_of("/stats/daily"@) == 12);
    assert(position_of("/stats/assets"@) == 13);
    assert(position_of("/cache/metrics"@) == 14);
    assert(position_of(route_table()[i].path) == i);
    assert(position_of(route_table()[j].path) == j);
}

/// Callbacks and webhooks, and nothing else, are checked before they are handled, each by
/// its own checks.
pub proof fn law_callbacks_and_webhooks_are_checked(i: int)
    requires
        0 <= i < route_table().len(),
    ensures
        route_table()[i].validation == match route_table()[i].handler {
            Handler::Callback => Some(Validation::Callback),
            Handler::HandleWebhook => Some(Validation::Webhook),
            _ => None,
        },
{
}

} // verus!
