use dune_codex::resolver::{normalize_components, PathPart};

fn name(s: &str) -> PathPart {
    PathPart::Normal(s.to_string())
}

#[test]
fn dots_fold_away() {
    let parts = vec![
        PathPart::Root,
        name("books"),
        PathPart::Current,
        name("dune"),
        PathPart::Parent,
        name("Dune.pdf"),
    ];
    assert_eq!(
        normalize_components(parts),
        vec![PathPart::Root, name("books"), name("Dune.pdf")]
    );
}

#[test]
fn parent_of_the_root_or_of_nothing_is_dropped() {
    assert_eq!(
        normalize_components(vec![PathPart::Root, PathPart::Parent, name("a")]),
        vec![PathPart::Root, name("a")]
    );
    assert_eq!(
        normalize_components(vec![PathPart::Parent, PathPart::Parent, name("a")]),
        vec![name("a")]
    );
    assert_eq!(normalize_components(vec![]), vec![]);
}

#[test]
fn normalizing_twice_changes_nothing() {
    let parts = vec![name("a"), PathPart::Parent, PathPart::Parent, name("b"), PathPart::Current];
    let once = normalize_components(parts);
    assert_eq!(once, vec![name("b")]);
    assert_eq!(normalize_components(once.clone()), once);
}
