use stochasticsampling::path::OutputPath;
use stochasticsampling::version;

#[test]
fn test_with_extension() {
    let s = "prefix.with.dots".to_string();
    let root = "/foo/bar";
    let op = OutputPath::new(&root, &s);
    let id = op.get_id().to_string();
    assert_eq!(
        op.with_extension("ext"),
        format!("{}/{}/{}.ext", root, id, id)
    );
}

#[test]
fn test_version() {
    assert_eq!(version(), "0.1.0");
}

#[test]
fn test_output_id_shape() {
    let op = OutputPath::new("out", "run");
    let id = op.get_id();
    // prefix, then "-", a stamp of date and time, then the underscored version
    assert!(id.starts_with("run-"));
    assert!(id.ends_with("_v0_1_0"));
    // "run-" + "yyyy-mm-dd_HHMMSS" + "_v0_1_0"
    assert_eq!(id.len(), 4 + 17 + 7);
    let stamp = &id[4..21];
    assert_eq!(stamp.as_bytes()[4], b'-');
    assert_eq!(stamp.as_bytes()[7], b'-');
    assert_eq!(stamp.as_bytes()[10], b'_');
}

#[test]
fn test_with_extension_swaps_only_placeholder() {
    let op = OutputPath::new("/data", "a.b");
    let id = op.get_id().to_string();
    assert_eq!(
        op.with_extension("toml"),
        format!("/data/{}/{}.toml", id, id)
    );
    assert_eq!(
        op.with_extension("msgpack"),
        format!("/data/{}/{}.msgpack", id, id)
    );
}
