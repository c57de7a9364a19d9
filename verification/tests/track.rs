use chela::codec::Codec;
use chela::store::{ClientContext, LinkStore, VisitRecord};
use chela::track::report_for;

fn visit(id: &str, ip: Option<&str>, referrer: Option<&str>, user_agent: Option<&str>) -> VisitRecord {
    VisitRecord {
        timestamp: 0,
        id: id.to_string(),
        ip: ip.map(|s| s.to_string()),
        referrer: referrer.map(|s| s.to_string()),
        user_agent: user_agent.map(|s| s.to_string()),
    }
}

fn count_of(table: &[(String, usize)], key: &str) -> Option<usize> {
    table.iter().find(|(k, _)| k == key).map(|(_, c)| *c)
}

#[test]
fn aggregation_of_three_records() {
    let records = vec![
        visit("a", Some("1.1.1.1"), None, None),
        visit("a", Some("1.1.1.1"), None, None),
        visit("a", Some("2.2.2.2"), None, None),
    ];
    let r = report_for(&records);
    assert_eq!(r.total_visits, 3);
    assert_eq!(r.by_ip.len(), 2);
    assert_eq!(count_of(&r.by_ip, "1.1.1.1"), Some(2));
    assert_eq!(count_of(&r.by_ip, "2.2.2.2"), Some(1));
    // every record lacks a referrer, so nothing is grouped there
    assert!(r.by_referrer.is_empty());
    assert!(r.by_user_agent.is_empty());
}

#[test]
fn records_without_a_value_still_count_in_the_total() {
    let records = vec![
        visit("a", Some("1.1.1.1"), Some("https://r.example/"), Some("agent-1")),
        visit("a", Some("1.1.1.1"), Some("https://r.example/"), None),
        visit("a", Some("2.2.2.2"), None, Some("agent-1")),
        visit("a", None, None, None),
    ];
    let r = report_for(&records);
    assert_eq!(r.total_visits, 4);
    assert_eq!(count_of(&r.by_ip, "1.1.1.1"), Some(2));
    assert_eq!(count_of(&r.by_ip, "2.2.2.2"), Some(1));
    assert_eq!(r.by_ip.len(), 2);
    assert_eq!(count_of(&r.by_referrer, "https://r.example/"), Some(2));
    assert_eq!(r.by_referrer.len(), 1);
    assert_eq!(count_of(&r.by_user_agent, "agent-1"), Some(2));
    assert_eq!(r.by_user_agent.len(), 1);
}

#[test]
fn empty_log_gives_an_empty_report() {
    let r = report_for(&Vec::new());
    assert_eq!(r.total_visits, 0);
    assert!(r.by_ip.is_empty());
    assert!(r.by_referrer.is_empty());
    assert!(r.by_user_agent.is_empty());
}

#[test]
fn store_report_covers_one_identifier_only() {
    let c = Codec::new(
        "abcdefghijklmnopqrstuvwxyz".chars().collect(),
        Vec::new(),
    )
    .unwrap();
    let mut s = LinkStore::new();
    let id_a = "one".to_string();
    let id_b = "two".to_string();
    s.allocate(&c, &id_a, &"https://example.com/1".to_string()).unwrap();
    s.allocate(&c, &id_b, &"https://example.com/2".to_string()).unwrap();

    let ip1 = ClientContext {
        ip: Some("9.9.9.9".to_string()),
        referrer: None,
        user_agent: Some("agent-a".to_string()),
    };
    s.resolve(&"one".to_string(), &ip1, 1);
    s.resolve(&"one".to_string(), &ip1, 2);
    s.resolve(&"two".to_string(), &ip1, 3);
    // a preview adds nothing
    s.resolve(&"one+".to_string(), &ip1, 4);

    let r = report_for(&s.visits_for(&id_a));
    assert_eq!(r.total_visits, 2);
    assert_eq!(count_of(&r.by_ip, "9.9.9.9"), Some(2));
    assert_eq!(r.by_referrer.len(), 0);
    assert_eq!(count_of(&r.by_user_agent, "agent-a"), Some(2));

    let rb = s.report(&id_b);
    assert_eq!(rb.total_visits, 1);
    assert_eq!(count_of(&rb.by_ip, "9.9.9.9"), Some(1));
}
