use mnemo::services::semantic_benchmark::fixture;

#[test]
fn fixture_has_balanced_labels() {
    let pairs = fixture();
    assert_eq!(pairs.len(), 50);
    assert_eq!(pairs.iter().filter(|pair| pair.related).count(), 25);
    assert!(pairs
        .iter()
        .all(|pair| !pair.query.is_empty() && !pair.candidate.is_empty()));
}

#[test]
fn fixture_pairs_each_query_twice() {
    let pairs = fixture();
    for i in 0..25 {
        assert_eq!(pairs[i].query, pairs[i + 25].query);
        assert!(pairs[i].related);
        assert!(!pairs[i + 25].related);
    }
    assert_eq!(pairs[0].query, "docker networking");
}

#[test]
fn fixture_keeps_each_candidate_with_its_query_and_label() {
    let pairs = fixture();
    assert_eq!(pairs[0].query, "docker networking");
    assert_eq!(pairs[0].candidate, "Docker bridge and host networking configuration");
    assert!(pairs[0].related);
    assert_eq!(pairs[25].query, "docker networking");
    assert_eq!(pairs[25].candidate, "family recipe for roasted vegetables");
    assert!(!pairs[25].related);
    assert_eq!(pairs[49].query, "embedding quality");
    assert_eq!(pairs[49].candidate, "how to polish wooden furniture");
}

#[test]
fn fixture_pairs_are_distinct() {
    let pairs = fixture();
    for i in 0..pairs.len() {
        for j in (i + 1)..pairs.len() {
            assert_ne!(
                (pairs[i].query, pairs[i].candidate),
                (pairs[j].query, pairs[j].candidate)
            );
            assert_ne!(pairs[i].candidate, pairs[j].candidate);
        }
    }
}
