use zkp_verifier::polling::{first_matching, worker_step};
use zkp_verifier::protocol::KafkaAuthResponse;

#[test]
fn test_worker_step_offsets_and_waits() {
    assert_eq!(worker_step(7, None), (7, 1000));
    assert_eq!(worker_step(7, Some((vec![], 7))), (7, 50));
    assert_eq!(worker_step(7, Some((vec![], 9))), (7, 0));
    assert_eq!(worker_step(7, Some((vec![7, 8], 9))), (9, 50));
    assert_eq!(worker_step(7, Some((vec![7, 8], 20))), (9, 0));
}

#[test]
fn test_first_matching_response() {
    let r = |id: &str| KafkaAuthResponse::new(id, "u", true, "m");
    let rs = vec![r("a"), r("b"), r("b")];
    assert_eq!(first_matching(&rs, "b"), Some(1));
    assert_eq!(first_matching(&rs, "a"), Some(0));
    assert_eq!(first_matching(&rs, "c"), None);
    assert_eq!(first_matching(&vec![], "a"), None);
}
