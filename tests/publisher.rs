use datacenter::publisher::MAX_MESSAGE_SIZE;
use datacenter::publisher::{plan_delivery, plan_publication, whole_body, Delivery, Payload, PublishError};

fn text(b: &[u8]) -> String {
    String::from_utf8(b.to_vec()).unwrap()
}

fn items(n: usize, width: usize) -> Vec<Vec<u8>> {
    (0..n).map(|i| format!("\"{}{}\"", i % 10, "x".repeat(width)).into_bytes()).collect()
}

#[test]
fn whole_text_of_an_array() {
    let p = Payload::Array(vec![b"1".to_vec(), b"{\"a\":2}".to_vec()]);
    assert_eq!(text(&whole_body(&p)), "[1,{\"a\":2}]");
    assert_eq!(text(&whole_body(&Payload::Array(Vec::new()))), "[]");
    assert_eq!(text(&whole_body(&Payload::Single(b"{\"k\":1}".to_vec()))), "{\"k\":1}");
}

#[test]
fn small_payload_is_sent_whole() {
    let p = Payload::Array(vec![b"1".to_vec(), b"2".to_vec()]);
    match plan_publication("rust/response/c1/all", &p, 5, &b"rid".to_vec()) {
        Ok(Delivery::Whole(m)) => {
            assert_eq!(m.topic, "rust/response/c1/all");
            assert_eq!(text(&m.body), "[1,2]");
        }
        _ => panic!("expected one message"),
    }
}

#[test]
fn large_payload_is_paged_and_reassembles() {
    let its = items(50, 30);
    let p = Payload::Array(its.clone());
    let budget = 400;
    let whole_len = whole_body(&p).len();
    let rid = b"11111111-2222-3333-4444-555555555555".to_vec();
    match plan_publication("t", &p, budget, &rid) {
        Ok(Delivery::Paged { pages, summary }) => {
            assert!(!pages.is_empty());
            let mut back: Vec<Vec<u8>> = Vec::new();
            let mut next = 0;
            for (k, page) in pages.iter().enumerate() {
                assert_eq!(page.start, next);
                assert!(page.end > page.start);
                next = page.end;
                assert!(page.message.body.len() <= budget);
                assert_eq!(page.message.topic, format!("t/page/{}", k + 1));
                let body = text(&page.message.body);
                assert!(body.starts_with(&format!(
                    "{{\"type\":\"paginated\",\"request_id\":\"{}\",\"page\":{},",
                    text(&rid),
                    k + 1
                )));
                back.extend_from_slice(&its[page.start..page.end]);
                let data: Vec<String> = its[page.start..page.end].iter().map(|b| text(b)).collect();
                assert!(body.ends_with(&format!("\"data\":[{}]}}", data.join(","))));
            }
            assert_eq!(next, its.len());
            assert_eq!(back, its);
            assert_eq!(summary.topic, "t/summary");
            assert_eq!(
                text(&summary.body),
                format!(
                    "{{\"type\":\"summary\",\"request_id\":\"{}\",\"total_items\":50,\"total_pages\":{},\"original_size\":{},\"topic_base\":\"t\"}}",
                    text(&rid),
                    pages.len(),
                    whole_len
                )
            );
        }
        _ => panic!("expected pages"),
    }
}

#[test]
fn pages_are_filled_greedily() {
    let its = items(10, 8);
    let p = Payload::Array(its.clone());
    let rid = b"r".to_vec();
    let head = "{\"type\":\"paginated\",\"request_id\":\"r\",\"page\":10,\"total_pages\":10,\"data\":[".len() + 2;
    let room = 3 * 11 + 2;
    match plan_publication("t", &p, head + room, &rid) {
        Ok(Delivery::Paged { pages, .. }) => {
            let sizes: Vec<usize> = pages.iter().map(|pg| pg.end - pg.start).collect();
            assert_eq!(sizes, vec![3, 3, 3, 1]);
        }
        _ => panic!("expected pages"),
    }
}

#[test]
fn single_value_too_large_to_send_whole_is_refused() {
    let big = format!("\"{}\"", "y".repeat(200)).into_bytes();
    let p = Payload::Single(big.clone());
    assert!(matches!(plan_publication("t", &p, 202, &b"r".to_vec()), Ok(Delivery::Whole(_))));
    match plan_publication("t", &p, 150, &b"r".to_vec()) {
        Err(PublishError::OversizedItem { index, size }) => {
            assert_eq!(index, 0);
            assert_eq!(size, 202);
        }
        _ => panic!("expected an oversized item"),
    }
}

#[test]
fn oversized_item_sends_nothing() {
    let mut its = items(5, 10);
    its[3] = format!("\"{}\"", "z".repeat(500)).into_bytes();
    let p = Payload::Array(its);
    match plan_publication("t", &p, 300, &b"r".to_vec()) {
        Err(PublishError::OversizedItem { index, size }) => {
            assert_eq!(index, 3);
            assert_eq!(size, 502);
        }
        _ => panic!("expected an oversized item"),
    }
}

#[test]
fn budget_too_small_for_any_page() {
    let p = Payload::Array(items(3, 5));
    assert_eq!(plan_publication("t", &p, 20, &b"r".to_vec()).err(), Some(PublishError::BudgetTooSmall));
    assert_eq!(plan_publication("t", &Payload::Array(Vec::new()), 1, &b"r".to_vec()).err(), Some(PublishError::BudgetTooSmall));
}

#[test]
fn delivery_with_a_fresh_request_id() {
    let p = Payload::Array(items(40, 20));
    match plan_delivery("t", &p, 300) {
        Ok(Delivery::Paged { pages, summary }) => {
            let body = text(&summary.body);
            let rid = &body["{\"type\":\"summary\",\"request_id\":\"".len()..][..36];
            assert_eq!(rid.len(), 36);
            assert_eq!(rid.chars().filter(|c| *c == '-').count(), 4);
            for page in &pages {
                assert!(text(&page.message.body).contains(rid));
            }
        }
        _ => panic!("expected pages"),
    }
    assert!(matches!(plan_delivery("t", &Payload::Single(b"1".to_vec()), 300), Ok(Delivery::Whole(_))));
}

#[test]
fn summary_escapes_the_topic() {
    let p = Payload::Array(items(20, 20));
    match plan_publication("a\"b", &p, 300, &b"r".to_vec()) {
        Ok(Delivery::Paged { summary, .. }) => {
            assert!(text(&summary.body).ends_with(",\"topic_base\":\"a\\\"b\"}"));
        }
        _ => panic!("expected pages"),
    }
}

#[test]
fn broker_budget_pages_a_large_array() {
    let its = items(400, 60);
    let p = Payload::Array(its.clone());
    match plan_delivery("rust/response/c/all", &p, MAX_MESSAGE_SIZE) {
        Ok(Delivery::Paged { pages, summary }) => {
            assert!(pages.len() >= 2);
            let mut back = Vec::new();
            for (k, page) in pages.iter().enumerate() {
                assert!(page.message.body.len() <= MAX_MESSAGE_SIZE);
                assert_eq!(page.message.topic, format!("rust/response/c/all/page/{}", k + 1));
                back.extend_from_slice(&its[page.start..page.end]);
            }
            assert_eq!(back, its);
            assert_eq!(summary.topic, "rust/response/c/all/summary");
        }
        _ => panic!("expected pages"),
    }
}

#[test]
fn broker_budget_refuses_an_oversized_item() {
    let mut its = items(3, 10);
    its[1] = format!("\"{}\"", "q".repeat(MAX_MESSAGE_SIZE)).into_bytes();
    match plan_delivery("t", &Payload::Array(its), MAX_MESSAGE_SIZE) {
        Err(PublishError::OversizedItem { index, .. }) => assert_eq!(index, 1),
        _ => panic!("expected an oversized item"),
    }
}

#[test]
fn request_id_is_a_hyphenated_lowercase_uuid() {
    match plan_delivery("t", &Payload::Array(items(40, 20)), 300) {
        Ok(Delivery::Paged { summary, .. }) => {
            let body = text(&summary.body);
            let rid = &body["{\"type\":\"summary\",\"request_id\":\"".len()..][..36];
            for (i, c) in rid.chars().enumerate() {
                if [8, 13, 18, 23].contains(&i) {
                    assert_eq!(c, '-');
                } else {
                    assert!(c.is_ascii_digit() || ('a'..='f').contains(&c));
                }
            }
        }
        _ => panic!("expected pages"),
    }
}
