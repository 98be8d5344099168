use jsonschema::parse_pointer;
use jsonschema::InstancePath;
use jsonschema::PathChunk;

#[test]
fn empty_path_renders_empty() {
    let p = InstancePath::new();
    assert_eq!(p.to_pointer(), "");
    assert_eq!(p.segment_strings(), Vec::<String>::new());
}

#[test]
fn pointer_escapes_and_indexes() {
    let p = InstancePath::new()
        .extended(PathChunk::Property("a/b".to_string()))
        .extended(PathChunk::Index(0))
        .extended(PathChunk::Property("x~y".to_string()));
    assert_eq!(p.to_pointer(), "/a~1b/0/x~0y");
    assert_eq!(
        p.segment_strings(),
        vec!["a/b".to_string(), "0".to_string(), "x~y".to_string()]
    );
}

#[test]
fn indexes_render_in_decimal() {
    let p = InstancePath::new().extended(PathChunk::Index(1234567890));
    assert_eq!(p.to_pointer(), "/1234567890");
}

#[test]
fn path_copies_are_independent() {
    let base = InstancePath::new().extended(PathChunk::Property("a".to_string()));
    let longer = base.extended(PathChunk::Index(3));
    assert_eq!(base.to_pointer(), "/a");
    assert_eq!(longer.to_pointer(), "/a/3");
    assert_eq!(base.len(), 1);
    assert_eq!(longer.len(), 2);
}

#[test]
fn pointer_round_trip() {
    let p = InstancePath::new()
        .extended(PathChunk::Property("a/b".to_string()))
        .extended(PathChunk::Index(7))
        .extended(PathChunk::Property("~".to_string()))
        .extended(PathChunk::Property("".to_string()));
    let rendered = p.to_pointer();
    assert_eq!(rendered, "/a~1b/7/~0/");
    let parsed = parse_pointer(&rendered).unwrap();
    assert_eq!(parsed, p.segment_strings());
}

#[test]
fn pointer_parsing_cases() {
    assert_eq!(parse_pointer(""), Some(Vec::new()));
    assert_eq!(parse_pointer("x"), None);
    assert_eq!(parse_pointer("/~2"), None);
    assert_eq!(parse_pointer("/a~"), None);
    assert_eq!(
        parse_pointer("/a//b"),
        Some(vec!["a".to_string(), "".to_string(), "b".to_string()])
    );
    assert_eq!(
        parse_pointer("/~0~1"),
        Some(vec!["~/".to_string()])
    );
}
