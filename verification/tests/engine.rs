use chela::allocator::{AllocError, AllocationResult};
use chela::codec::Codec;
use chela::resolver::{client_ip, strip_preview, ResolveOutcome, REDIRECT_CACHE_SECONDS};
use chela::store::{ClientContext, LinkStore};

fn letters() -> Vec<char> {
    "abcdefghijklmnopqrstuvwxyzABCDEFGHIJKLMNOPQRSTUVWXYZ".chars().collect()
}

fn codec() -> Codec {
    Codec::new(letters(), vec!["create".to_string()]).unwrap()
}

fn ctx() -> ClientContext {
    ClientContext {
        ip: Some("1.1.1.1".to_string()),
        referrer: Some("https://a.example/".to_string()),
        user_agent: Some("agent".to_string()),
    }
}

fn created(r: Result<AllocationResult, AllocError>) -> String {
    match r {
        Ok(AllocationResult::Created(id)) => id,
        other => panic!("expected Created, got {other:?}"),
    }
}

fn reused(r: Result<AllocationResult, AllocError>) -> String {
    match r {
        Ok(AllocationResult::Reused(id)) => id,
        other => panic!("expected Reused, got {other:?}"),
    }
}

#[test]
fn dedup_idempotence() {
    let c = codec();
    let mut s = LinkStore::new();
    let auto = String::new();
    let url = "https://example.com/a".to_string();
    let id1 = created(s.allocate(&c, &auto, &url));
    assert_eq!(s.link_count(), 1);
    let id2 = reused(s.allocate(&c, &auto, &url));
    assert_eq!(id1, id2);
    assert_eq!(s.link_count(), 1);
}

#[test]
fn distinct_urls_get_distinct_identifiers() {
    let c = codec();
    let mut s = LinkStore::new();
    let auto = String::new();
    let id1 = created(s.allocate(&c, &auto, &"https://example.com/a".to_string()));
    let id2 = created(s.allocate(&c, &auto, &"https://example.com/b".to_string()));
    assert_ne!(id1, id2);
    assert_eq!(s.link_count(), 2);
}

#[test]
fn custom_idempotence() {
    let c = codec();
    let mut s = LinkStore::new();
    let id = "abc".to_string();
    let url = "https://example.com/u".to_string();
    assert_eq!(created(s.allocate(&c, &id, &url)), "abc");
    assert_eq!(s.link_count(), 1);
    assert_eq!(reused(s.allocate(&c, &id, &url)), "abc");
    assert_eq!(s.link_count(), 1);
}

#[test]
fn custom_conflict_keeps_the_first_url() {
    let c = codec();
    let mut s = LinkStore::new();
    let id = "abc".to_string();
    let url1 = "https://example.com/1".to_string();
    let url2 = "https://example.com/2".to_string();
    assert_eq!(created(s.allocate(&c, &id, &url1)), "abc");
    match s.allocate(&c, &id, &url2) {
        Err(AllocError::IdentifierTaken(taken)) => assert_eq!(taken, "abc"),
        other => panic!("expected IdentifierTaken, got {other:?}"),
    }
    assert_eq!(s.link_count(), 1);
    let stored = s.lookup_id(&id).expect("the link stays");
    assert_eq!(stored.url, url1);
    assert!(stored.is_custom);
}

#[test]
fn auto_identifier_colliding_with_custom_is_taken() {
    let c = codec();
    // the custom creation consumes index 1, so the auto path draws index 2:
    // claim the identifier that draw will encode
    let colliding = c.encode(2).unwrap();
    let mut s = LinkStore::new();
    let url1 = "https://example.com/taken".to_string();
    created(s.allocate(&c, &colliding, &url1));
    let auto = String::new();
    match s.allocate(&c, &auto, &"https://example.com/other".to_string()) {
        Err(AllocError::IdentifierTaken(taken)) => assert_eq!(taken, colliding),
        other => panic!("expected IdentifierTaken, got {other:?}"),
    }
    assert_eq!(s.link_count(), 1);
    // the drawn index stays consumed: the next auto allocation encodes 3
    let id2 = created(s.allocate(&c, &auto, &"https://example.com/other".to_string()));
    assert_eq!(id2, c.encode(3).unwrap());
}

#[test]
fn exhausted_blocklist_fails_encoding() {
    // block every identifier the scheme can produce for one number
    let mut blocklist: Vec<String> = Vec::new();
    let n = {
        let free = Codec::new("abc".chars().collect(), Vec::new()).unwrap();
        (0u64..10000).find(|&n| free.encode(n).unwrap().len() >= 3).unwrap()
    };
    let mut exhausted = false;
    for _ in 0..8 {
        let c = Codec::new("abc".chars().collect(), blocklist.clone()).unwrap();
        match c.encode(n) {
            Some(id) => blocklist.push(id),
            None => {
                exhausted = true;
                break;
            }
        }
    }
    assert!(exhausted, "blocking every candidate must exhaust the scheme");
    // the store maps that to EncodingFailed on the auto path, consuming the index
    let c = Codec::new("abc".chars().collect(), blocklist).unwrap();
    let mut s = LinkStore::new();
    let auto = String::new();
    let url = "https://example.com/x".to_string();
    for k in 1..n {
        // draw indices until the blocked number is next; every auto request
        // for a fresh URL consumes exactly one index, succeed or fail
        let _ = s.allocate(&c, &auto, &format!("https://example.com/{k}"));
    }
    let before = s.link_count();
    match s.allocate(&c, &auto, &url) {
        Err(AllocError::EncodingFailed) => {}
        other => panic!("expected EncodingFailed, got {other:?}"),
    }
    assert_eq!(s.link_count(), before);
}

#[test]
fn preview_records_no_visit_and_redirect_records_one() {
    let c = codec();
    let mut s = LinkStore::new();
    let id = "abc".to_string();
    let url = "https://example.com/dest".to_string();
    created(s.allocate(&c, &id, &url));

    match s.resolve(&"abc+".to_string(), &ctx(), 10) {
        ResolveOutcome::Preview(pid, purl) => {
            assert_eq!(pid, "abc");
            assert_eq!(purl, url);
        }
        other => panic!("expected Preview, got {other:?}"),
    }
    assert_eq!(s.visit_count(), 0);

    match s.resolve(&"abc".to_string(), &ctx(), 11) {
        ResolveOutcome::Redirect(to) => assert_eq!(to, url),
        other => panic!("expected Redirect, got {other:?}"),
    }
    assert_eq!(s.visit_count(), 1);
}

#[test]
fn missing_and_malformed_resolve_alike() {
    let c = codec();
    let mut s = LinkStore::new();
    let id = "bad".to_string();
    // stored without validation; the URL is checked at resolution time
    created(s.allocate(&c, &id, &"not an absolute url".to_string()));

    let malformed = s.resolve(&"bad".to_string(), &ctx(), 1);
    let missing = s.resolve(&"gone".to_string(), &ctx(), 2);
    assert_eq!(malformed, ResolveOutcome::NotFound);
    assert_eq!(missing, ResolveOutcome::NotFound);
    // neither resolution recorded a visit
    assert_eq!(s.visit_count(), 0);
}

#[test]
fn strip_preview_handles_edges() {
    assert_eq!(strip_preview(&"abc+".to_string()), ("abc".to_string(), true));
    assert_eq!(strip_preview(&"abc".to_string()), ("abc".to_string(), false));
    assert_eq!(strip_preview(&"+".to_string()), (String::new(), true));
    assert_eq!(strip_preview(&String::new()), (String::new(), false));
    // only one trailing marker is stripped
    assert_eq!(strip_preview(&"ab++".to_string()), ("ab+".to_string(), true));
}

#[test]
fn redirect_cache_lifetime_is_fixed() {
    assert_eq!(REDIRECT_CACHE_SECONDS, 90);
}

#[test]
fn client_ip_trusts_the_proxy_header_only_behind_a_proxy() {
    let fwd = Some("7.7.7.7".to_string());
    let sock = Some("10.0.0.1".to_string());
    assert_eq!(client_ip(true, fwd.clone(), sock.clone()), fwd);
    assert_eq!(client_ip(true, None, sock.clone()), None);
    assert_eq!(client_ip(false, fwd, sock.clone()), sock);
}
