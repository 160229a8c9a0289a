//! The routes.
use std::collections::HashSet;
use synapse_core::create_app;
use synapse_core::routes::{Handler, Method, Validation};

#[test]
fn table() {
    let served: Vec<(Method, &str, Handler)> =
        create_app().iter().map(|r| (r.method, r.path, r.handler)).collect();
    assert_eq!(
        served,
        vec![
            (Method::Get, "/health", Handler::Health),
            (Method::Get, "/ready", Handler::Ready),
            (Method::Get, "/errors", Handler::ErrorCatalog),
            (Method::Get, "/settlements", Handler::ListSettlements),
            (Method::Get, "/settlements/:id", Handler::GetSettlement),
            (Method::Post, "/callback", Handler::Callback),
            (Method::Post, "/callback/transaction", Handler::Callback),
            (Method::Post, "/webhook", Handler::HandleWebhook),
            (Method::Get, "/transactions/:id", Handler::GetTransaction),
            (Method::Post, "/graphql", Handler::Graphql),
            (Method::Get, "/export", Handler::ExportTransactions),
            (Method::Get, "/stats/status", Handler::StatusCounts),
            (Method::Get, "/stats/daily", Handler::DailyTotals),
            (Method::Get, "/stats/assets", Handler::AssetStats),
            (Method::Get, "/cache/metrics", Handler::CacheMetrics),
        ]
    );
}

#[test]
fn callbacks_and_webhooks_are_checked() {
    for route in create_app() {
        let expected = match route.path {
            "/callback" | "/callback/transaction" => Some(Validation::Callback),
            "/webhook" => Some(Validation::Webhook),
            _ => None,
        };
        assert_eq!(route.validation, expected);
    }
}

#[test]
fn no_path_twice() {
    let routes = create_app();
    let paths: HashSet<&str> = routes.iter().map(|r| r.path).collect();
    assert_eq!(paths.len(), routes.len());
}
