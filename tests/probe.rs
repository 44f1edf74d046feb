use bsz::probe::{counters_from, jsonp_payload, probe_counters, ProbeError};

#[test]
fn jsonp_answer() {
    let text = "try{cb({\"site_uv\":123,\"page_pv\":456,\"site_pv\":789,\"version\":2.4});}catch(e){}";
    assert_eq!(jsonp_payload(text).unwrap(), "{\"site_uv\":123,\"page_pv\":456,\"site_pv\":789,\"version\":2.4}");
    assert_eq!(probe_counters(text), Ok((789, 123, 456)));
}

#[test]
fn probe_refusals() {
    assert_eq!(probe_counters("<!DOCTYPE html><p>busy</p>"), Err(ProbeError::RateLimited));
    assert_eq!(probe_counters("<html>busy</html>"), Err(ProbeError::RateLimited));
    assert_eq!(probe_counters("nothing here"), Err(ProbeError::InvalidJsonp));
    assert_eq!(probe_counters(");cb("), Err(ProbeError::InvalidJsonp));
    assert_eq!(probe_counters("cb(not json);"), Err(ProbeError::InvalidJson));
    assert_eq!(probe_counters("cb({\"site_pv\":5});"), Ok((5, 0, 0)));
    assert_eq!(counters_from(Some((Some(1), None, Some(3)))), Ok((1, 0, 3)));
    assert_eq!(counters_from(None), Err(ProbeError::InvalidJson));
}
