use sea_lantern::element_bridge::{plan_element_request, poll_step, PollDecision, PollEvent};

#[test]
fn a_reply_resolves_to_its_value() {
    let d = poll_step(0, PollEvent::Received(String::from("text")));
    assert!(matches!(d, PollDecision::Resolve(Some(v)) if v == "text"));
}

#[test]
fn a_dropped_sender_resolves_to_nothing() {
    assert!(matches!(poll_step(0, PollEvent::Disconnected), PollDecision::Resolve(None)));
}

#[test]
fn silence_waits_until_the_timeout() {
    assert!(matches!(poll_step(0, PollEvent::Empty), PollDecision::Wait));
    assert!(matches!(poll_step(500, PollEvent::Empty), PollDecision::Wait));
    assert!(matches!(poll_step(501, PollEvent::Empty), PollDecision::Resolve(None)));
}

#[test]
fn a_query_that_never_gets_a_reply_resolves_within_fifty_one_polls() {
    let mut elapsed: u64 = 0;
    let mut polls = 0;
    loop {
        match poll_step(elapsed, PollEvent::Empty) {
            PollDecision::Resolve(out) => {
                assert_eq!(out, None);
                break;
            }
            PollDecision::Wait => {
                elapsed += 10;
                polls += 1;
                assert!(polls <= 51, "the poll loop must not run past its bound");
            }
        }
    }
    assert!(elapsed <= 600);
}

#[test]
fn element_requests_carry_their_correlation_id() {
    let req = plan_element_request("element_get_text", "#title", None, 7);
    assert_eq!(req.kind, "element_get_text");
    assert_eq!(req.selector, "#title");
    assert_eq!(String::from_utf8(req.payload).unwrap(), "{\"request_id\":7}");

    let req = plan_element_request("element_get_attribute", "#title", Some("href"), 8);
    assert_eq!(
        String::from_utf8(req.payload).unwrap(),
        "{\"attr\":\"href\",\"request_id\":8}"
    );
}
