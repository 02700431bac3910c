use harbor_rs::tag::{select, Tag};
use harbor_rs::timestamp::{parse_time, Timestamp};

fn tag(name: &str, push_time: &str) -> Tag {
    Tag {
        name: name.to_string(),
        author: String::new(),
        docker_version: String::new(),
        created: String::new(),
        architecture: String::new(),
        os: String::new(),
        digest: String::new(),
        size: 0,
        signature: None,
        labels: vec![],
        push_time: push_time.to_string(),
        pull_time: String::new(),
        os_version: None,
    }
}

fn names(tags: &[Tag]) -> Vec<String> {
    tags.iter().map(|t| t.name.clone()).collect()
}

#[test]
fn select_keeps_exactly_the_stale_tags_in_order() {
    let cutoff: Timestamp = parse_time("2021-12-31T00:00:00Z").unwrap();
    let tags = vec![
        tag("old-1", "2021-11-01T10:00:00Z"),
        tag("fresh", "2022-01-05T10:00:00Z"),
        tag("old-2", "2021-12-30T23:59:59.999999999Z"),
        tag("fresh-2", "2021-12-31T00:00:00.000000001Z"),
    ];
    let kept = select(tags, &cutoff).unwrap();
    assert_eq!(names(&kept), vec!["old-1".to_string(), "old-2".to_string()]);
}

#[test]
fn select_includes_the_cutoff_boundary() {
    // A tag pushed exactly at the cutoff instant is deleted.
    let cutoff: Timestamp = parse_time("2021-12-31T00:00:00Z").unwrap();
    let tags = vec![tag("boundary", "2021-12-31T00:00:00Z")];
    let kept = select(tags, &cutoff).unwrap();
    assert_eq!(names(&kept), vec!["boundary".to_string()]);
}

#[test]
fn select_of_nothing_is_nothing() {
    let cutoff: Timestamp = parse_time("2021-12-31T00:00:00Z").unwrap();
    let kept = select(Vec::new(), &cutoff).unwrap();
    assert!(kept.is_empty());
}

#[test]
fn select_fails_fatally_on_an_unparsable_push_time() {
    let cutoff: Timestamp = parse_time("2021-12-31T00:00:00Z").unwrap();
    let tags = vec![
        tag("ok", "2021-11-01T10:00:00Z"),
        tag("broken", "yesterday-ish"),
        tag("later", "2021-11-02T10:00:00Z"),
    ];
    let err = select(tags, &cutoff).unwrap_err();
    assert_eq!(err.index, 1);
    assert_eq!(err.tag_name, "broken");
}
