use tf_provider::connection::{ConnectionLocalConfig, ConnectionSshConfig};
use tf_provider::diagnostics::{Diagnostic, Diagnostics};
use tf_provider::file::codec::to_hex;
use tf_provider::file::{
    check_fingerprints, deletion_failed, ensure_id, file_mode, fingerprints, read_open_failed,
    read_output, report_file_failure, FileFailure,
    record_fingerprints, write_content, CmdFileDataSource, CmdFileResource, Content,
    DataSourceState, ResourceState,
};
use tf_provider::schema::AttributeConstraint;
use tf_provider::value::Value;

fn text(s: &str) -> Value<String> {
    Value::Value(s.to_string())
}

fn detail_is(d: &Diagnostic, expected: &str) -> bool {
    d.detail == expected || d.detail.starts_with(&format!("{expected}\n"))
}

fn file(path: Value<String>) -> ResourceState<ConnectionLocalConfig> {
    ResourceState {
        id: Value::Null,
        path,
        content: Value::Null,
        content_base64: Value::Null,
        content_source: Value::Null,
        mode: Value::Null,
        overwrite: Value::Null,
        keep: Value::Null,
        md5: Value::Null,
        sha1: Value::Null,
        sha256: Value::Null,
        sha512: Value::Null,
        sha256_base64: Value::Null,
        sha512_base64: Value::Null,
        connect: Value::Null,
    }
}

fn data_source() -> DataSourceState<ConnectionLocalConfig> {
    DataSourceState {
        path: text("/tmp/f"),
        connect: Value::Null,
        content: Value::Null,
        content_base64: Value::Null,
        md5: Value::Null,
        sha1: Value::Null,
        sha256: Value::Null,
        sha512: Value::Null,
        sha256_base64: Value::Null,
        sha512_base64: Value::Null,
    }
}

#[test]
fn digests_of_known_texts() {
    let empty = fingerprints(b"");
    assert_eq!(empty.md5, "d41d8cd98f00b204e9800998ecf8427e");
    assert_eq!(empty.sha1, "da39a3ee5e6b4b0d3255bfef95601890afd80709");
    assert_eq!(
        empty.sha256,
        "e3b0c44298fc1c149afbf4c8996fb92427ae41e4649b934ca495991b7852b855"
    );
    assert_eq!(empty.sha512.len(), 128);
    let abc = fingerprints(b"abc");
    assert_eq!(
        abc.sha256,
        "ba7816bf8f01cfea414140de5dae2223b00361a396177a9cb410ff61f20015ad"
    );
    assert_eq!(&abc.sha512[..16], "ddaf35a193617aba");
}

#[test]
fn hex_has_two_lower_case_digits_per_byte() {
    assert_eq!(to_hex(&[0x00, 0x0f, 0xa0, 0xff]), "000fa0ff");
    assert_eq!(to_hex(&[]), "");
}

#[test]
fn base64_round_trip() {
    // encoding, through what a data source reads
    let out = read_output(data_source(), b"hello");
    assert_eq!(out.content_base64, text("aGVsbG8="));
    // decoding, through what a file resource writes
    let mut diags = Diagnostics::default();
    let mut s = file(text("/tmp/f"));
    s.content_base64 = text("aGVsbG8=");
    assert!(matches!(write_content(&mut diags, &s), Some(Content::Bytes(b)) if b == b"hello".to_vec()));
    s.content_base64 = text("not base64!");
    assert!(write_content(&mut diags, &s).is_none());
}

#[test]
fn lossy_text_replaces_invalid_bytes() {
    assert_eq!(read_output(data_source(), b"abc").content, text("abc"));
    assert_eq!(read_output(data_source(), &[0x61, 0xff]).content, text("a\u{fffd}"));
}

#[test]
fn octal_modes() {
    assert_eq!(file_mode(&text("0600")), 0o600);
    assert_eq!(file_mode(&text("755")), 0o755);
    assert_eq!(file_mode(&text("bad")), 0o666);
    assert_eq!(file_mode(&Value::Null), 0o666);
    let r = CmdFileResource::new(false, ConnectionLocalConfig {});
    let mut s = file(text("/tmp/f"));
    s.content = text("x");
    s.mode = text("0644");
    assert!(r.validate(&mut Diagnostics::default(), &s).is_some());
    s.mode = text("9");
    let mut diags = Diagnostics::default();
    assert!(r.validate(&mut diags, &s).is_none());
    assert!(diags.errors[0].detail.len() > "Mode should be an octal number between 0000 and 7777, but is 9\n".len());
}

#[test]
fn random_ids_are_alphanumeric() {
    let mut s = file(text("/tmp/f"));
    ensure_id(&mut s);
    let id = match &s.id {
        Value::Value(i) => i.clone(),
        _ => panic!("the id should be known"),
    };
    assert_eq!(id.chars().count(), 30);
    assert!(id.chars().all(|c| c.is_ascii_alphanumeric()));
    let mut t = file(text("/tmp/f"));
    t.id = text("mine");
    ensure_id(&mut t);
    assert_eq!(t.id, text("mine"));
}

#[test]
fn fingerprints_of_a_content() {
    let fp = fingerprints(b"abc");
    assert_eq!(fp.md5, "900150983cd24fb0d6963f7d28e17f72");
    assert_eq!(fp.sha1, "a9993e364706816aba3e25717850c26c9cd0d89d");
    assert_eq!(fp.sha256_base64, "ungWv48Bz+pBQUDeXa4iI7ADYaOWF3qctBD/YfIAFa0=");
}

#[test]
fn reading_back_what_was_written_keeps_the_fingerprints() {
    let mut s = file(text("/tmp/f"));
    s.content = text("hello");
    record_fingerprints(&mut s, fingerprints(b"hello"));
    let before = format!("{:?}", s);
    check_fingerprints(&mut s, &fingerprints(b"hello"));
    assert_eq!(format!("{:?}", s), before);
    assert!(s.md5.is_value());
    // a file changed outside loses its fingerprints
    check_fingerprints(&mut s, &fingerprints(b"changed"));
    assert!(s.md5.is_null() && s.sha1.is_null() && s.sha256.is_null());
    assert!(s.sha512.is_null() && s.sha256_base64.is_null() && s.sha512_base64.is_null());
    assert_eq!(s.content, text("hello"));
}

#[test]
fn the_content_to_write() {
    let mut diags = Diagnostics::default();
    let mut s = file(text("/tmp/f"));
    s.content = text("raw");
    s.content_base64 = text("aGVsbG8=");
    assert!(matches!(write_content(&mut diags, &s), Some(Content::Bytes(b)) if b == b"raw".to_vec()));
    s.content = Value::Null;
    assert!(matches!(write_content(&mut diags, &s), Some(Content::Bytes(b)) if b == b"hello".to_vec()));
    s.content_base64 = Value::Null;
    s.content_source = text("local.txt");
    assert!(matches!(write_content(&mut diags, &s), Some(Content::Source(f)) if f == "local.txt"));
    assert!(diags.errors.is_empty());
}

#[test]
fn invalid_content_is_an_error() {
    let mut diags = Diagnostics::default();
    let mut s = file(text("/tmp/f"));
    s.content_base64 = text("@@@");
    assert!(write_content(&mut diags, &s).is_none());
    assert_eq!(diags.errors.len(), 1);
    assert_eq!(diags.errors[0].summary, "Invalid base64");
    assert_eq!(diags.errors[0].attribute.to_string(), "content_base64");
    let mut diags = Diagnostics::default();
    let empty = file(text("/tmp/f"));
    assert!(write_content(&mut diags, &empty).is_none());
    assert_eq!(diags.errors[0].summary, "No content provided");
}

#[test]
fn deletion_failures() {
    let mut diags = Diagnostics::default();
    assert!(deletion_failed(&mut diags, true, "gone").is_some());
    assert_eq!(diags.warnings[0].summary, "File has already been deleted");
    assert!(detail_is(&diags.warnings[0], "gone"));
    assert!(deletion_failed(&mut diags, false, "denied").is_none());
    assert_eq!(diags.warnings[1].summary, "Could not delete file");
    assert!(diags.errors.is_empty());
}

#[test]
fn validation_of_a_file() {
    let r = CmdFileResource::new(false, ConnectionLocalConfig {});
    let mut diags = Diagnostics::default();
    let mut s = file(text(""));
    s.mode = text("9999");
    assert!(r.validate(&mut diags, &s).is_none());
    let summaries: Vec<&str> = diags.errors.iter().map(|d| d.summary.as_str()).collect();
    assert_eq!(summaries, vec!["`path` should not be empty", "Invalid content specification", "Invalid `mode`"]);
    assert!(diags.errors[2].detail.starts_with("Mode should be an octal number between 0000 and 7777, but is 9999\n"));

    let mut diags = Diagnostics::default();
    let mut ok = file(text("/tmp/f"));
    ok.content = text("x");
    ok.mode = text("17777");
    assert!(r.validate(&mut diags, &ok).is_none());
    assert!(detail_is(&diags.errors[0], "Mode should be an octal number between 0000 and 7777, but is 17777"));

    let mut diags = Diagnostics::default();
    ok.mode = text("0644");
    assert!(r.validate(&mut diags, &ok).is_some());

    let mut diags = Diagnostics::default();
    let mut ds = data_source();
    ds.path = Value::Null;
    assert!(CmdFileDataSource::new(false, ConnectionLocalConfig {}).validate(&mut diags, &ds).is_none());
    assert_eq!(diags.errors[0].summary, "`path` should not be null");
}

#[test]
fn normalization_and_plans() {
    let sensitive = CmdFileResource::new(true, ConnectionLocalConfig {});
    let mut s = file(text("/tmp/f"));
    sensitive.normalize(&mut s);
    assert!(s.id.is_unknown() && s.md5.is_unknown());
    assert_eq!(s.mode, text("0600"));
    assert_eq!(s.overwrite, Value::Value(false));
    assert_eq!(s.keep, Value::Value(false));
    let once = format!("{:?}", s);
    sensitive.normalize(&mut s);
    assert_eq!(format!("{:?}", s), once);
    let plain = CmdFileResource::new(false, ConnectionLocalConfig {});
    let planned = plain.plan_create(file(text("/tmp/f")));
    assert_eq!(planned.mode, text("0666"));

    // the content changes: fingerprints become unknown
    let mut prior = file(text("/tmp/f"));
    prior.content = text("a");
    prior.md5 = text("known");
    let mut proposed = file(text("/tmp/f"));
    proposed.content = text("b");
    proposed.md5 = text("known");
    let mut config = file(text("/tmp/f"));
    config.content = text("b");
    let planned = plain.plan_update(&prior, proposed, &config);
    assert!(planned.md5.is_unknown());

    // the content stays: fingerprints are kept
    let mut proposed = file(text("/tmp/f"));
    proposed.content = text("a");
    proposed.md5 = text("known");
    config.content = text("a");
    let planned = plain.plan_update(&prior, proposed, &config);
    assert_eq!(planned.md5, text("known"));

    // a content that the configuration leaves null is null
    let mut planned_state = file(text("/tmp/f"));
    planned_state.content_base64 = text("eA==");
    let updated = plain.prepare_update(planned_state, &file(text("/tmp/f")));
    assert!(updated.content_base64.is_null());
}

#[test]
fn data_source_output() {
    let out = read_output(data_source(), b"hi\n");
    assert_eq!(out.content, text("hi\n"));
    assert_eq!(out.content_base64, text("aGkK"));
    assert_eq!(out.md5, text(&fingerprints(b"hi\n").md5));
    assert_eq!(out.path, text("/tmp/f"));
}

#[test]
fn file_schemas() {
    let r = CmdFileResource::new(true, ConnectionLocalConfig {});
    let schema = r.schema(vec![]);
    assert_eq!(schema.block.attributes.len(), 14);
    assert_eq!(schema.block.attributes[2].0, "content");
    assert!(schema.block.attributes[2].1.sensitive);
    assert!(matches!(schema.block.attributes[1].1.constraint, AttributeConstraint::Required));
    assert_eq!(schema.block.blocks[0].0, "connect");
    let d = CmdFileDataSource::new(false, ConnectionLocalConfig {});
    let schema = d.schema(vec![]);
    assert_eq!(schema.block.attributes.len(), 9);
    assert!(!schema.block.attributes[1].1.sensitive);
}

#[test]
fn failures_on_files() {
    let mut diags = Diagnostics::default();
    report_file_failure(&mut diags, FileFailure::OpenSource, "missing");
    assert_eq!(diags.errors[0].summary, "Could not open file");
    assert_eq!(diags.errors[0].attribute.to_string(), "content_source");
    report_file_failure(&mut diags, FileFailure::Write, "full");
    assert_eq!(diags.errors[1].summary, "Could not write to file");
    assert!(read_open_failed(&mut diags, true, "gone").is_none());
    assert_eq!(diags.errors.len(), 2);
    assert!(read_open_failed(&mut diags, false, "denied").is_some());
    assert_eq!(diags.errors[2].summary, "Could not open file for reading");
    assert!(detail_is(&diags.errors[2], "denied"));
}

#[test]
fn the_connection_of_a_file_is_validated_first() {
    let r = CmdFileResource::new(false, ConnectionSshConfig::default());
    let s = ResourceState {
        id: Value::Null,
        path: text("/tmp/f"),
        content: text("x"),
        content_base64: Value::Null,
        content_source: Value::Null,
        mode: Value::Null,
        overwrite: Value::Null,
        keep: Value::Null,
        md5: Value::Null,
        sha1: Value::Null,
        sha256: Value::Null,
        sha512: Value::Null,
        sha256_base64: Value::Null,
        sha512_base64: Value::Null,
        connect: Value::Value(ConnectionSshConfig { host: text(""), ..ConnectionSshConfig::default() }),
    };
    let mut diags = Diagnostics::default();
    assert!(r.validate(&mut diags, &s).is_none());
    assert_eq!(diags.errors.len(), 1);
    assert_eq!(diags.errors[0].summary, "`hostname` cannot be empty");
    assert_eq!(diags.errors[0].attribute.to_string(), "connect[0].host");

    let d = CmdFileDataSource::new(false, ConnectionSshConfig::default());
    let ds = DataSourceState {
        path: Value::Null,
        connect: Value::Value(ConnectionSshConfig::default()),
        content: Value::Null,
        content_base64: Value::Null,
        md5: Value::Null,
        sha1: Value::Null,
        sha256: Value::Null,
        sha512: Value::Null,
        sha256_base64: Value::Null,
        sha512_base64: Value::Null,
    };
    let mut diags = Diagnostics::default();
    assert!(d.validate(&mut diags, &ds).is_none());
    assert_eq!(diags.errors[0].summary, "`hostname` cannot be null");
    assert_eq!(diags.errors[0].attribute.to_string(), "connect[0].host");
    assert_eq!(diags.errors[1].summary, "`path` should not be null");
}

#[test]
fn random_identifiers_have_the_asked_length() {
    let mut s = file(text("/tmp/f"));
    ensure_id(&mut s);
    let first = s.id.clone();
    s.id = Value::Null;
    ensure_id(&mut s);
    assert_ne!(first, s.id);
}

#[test]
fn contents_are_given_in_standard_base64() {
    assert_eq!(read_output(data_source(), b"").content_base64, text(""));
    assert_eq!(read_output(data_source(), b"a").content_base64, text("YQ=="));
    assert_eq!(read_output(data_source(), b"ab").content_base64, text("YWI="));
    assert_eq!(read_output(data_source(), b"abc").content_base64, text("YWJj"));
    assert_eq!(read_output(data_source(), &[0xff, 0xfe, 0xfd, 0x00]).content_base64, text("//79AA=="));
    assert_eq!(read_output(data_source(), &[0xfb, 0xef, 0xbe]).content_base64, text("++++"));
}
