use pmp_iq::trends::{portfolio, LatestMetric};

fn metric(app: u128, key: &str, value: f64) -> LatestMetric<f64> {
    LatestMetric { application_id: app, metric_key: key.into(), value }
}

#[test]
fn portfolio_groups_latest_metrics_by_application() {
    let latest = vec![
        metric(5, "coverage_pct", 80.0),
        metric(2, "loc", 1200.0),
        metric(5, "complexity_avg", 3.5),
        metric(5, "deploys", 9.0),
        metric(9, "uptime", 99.9),
        metric(5, "coverage_pct", 82.5),
    ];
    let names = vec![(5u128, "Shop".to_string()), (2u128, "Auth".to_string())];
    let apps = portfolio(&latest, &names);
    let ids: Vec<u128> = apps.iter().map(|a| a.id).collect();
    assert_eq!(ids, vec![2, 5, 9]);
    assert_eq!(apps[0].name, "Auth");
    assert_eq!(apps[0].loc, Some(1200.0));
    assert_eq!(apps[0].coverage_pct, None);
    assert_eq!(apps[1].href, "/platform/applications/00000000-0000-0000-0000-000000000005");
    assert_eq!(apps[1].coverage_pct, Some(82.5));
    assert_eq!(apps[1].complexity_avg, Some(3.5));
    assert_eq!(apps[1].loc, None);
    assert_eq!(apps[2].name, "");
    assert_eq!((apps[2].coverage_pct, apps[2].complexity_avg, apps[2].loc), (None, None, None));
}

#[test]
fn portfolio_of_nothing_is_empty() {
    let apps = portfolio::<f64>(&vec![], &vec![(1u128, "A".to_string())]);
    assert!(apps.is_empty());
}
