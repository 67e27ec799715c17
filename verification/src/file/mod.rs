//! Remote files managed as resources or read as data sources: their states, validation,
//! planning, and what writing or reading a file gives.

use vstd::prelude::*;

pub mod codec;

use crate::attribute_path::{AttributePath, StepView};
use crate::connection::{connect_reports, validate_connect, ConnectionConfig};
use crate::diagnostics::{
    error_report, lemma_reported_chain, lemma_reported_error, lemma_reported_none,
    lemma_reported_warning, one_more_error, one_more_warning, reported, Diagnostics, Report,
};
use crate::named_map::{str_value_eq, str_value_view};
use crate::schema::{
    plain_attribute, plain_block, plain_block_of, plain_entry, Attribute, AttributeConstraint,
    AttributeType, NestedBlock, Schema,
};
use crate::value::{value_str_view, Value};
use codec::{
    base64_decode, base64_decoded, base64_encode, base64_encoded, from_utf8_lossy, hex, md5,
    md5_digest, octal_digits, octal_isize, octal_u32, octal_value, parse_octal_isize,
    parse_octal_u32, random_alphanumeric, sha1, sha1_digest, sha256, sha256_digest, sha512, sha512_digest,
    to_hex, utf8_lossy,
};

verus! {

/// Fingerprints of the content of a file
#[derive(Debug)]
pub struct Fingerprints {
    /// MD5 (hex)
    pub md5: String,
    /// SHA1 (hex)
    pub sha1: String,
    /// SHA256 (hex)
    pub sha256: String,
    /// SHA512 (hex)
    pub sha512: String,
    /// SHA256 (base64)
    pub sha256_base64: String,
    /// SHA512 (base64)
    pub sha512_base64: String,
}

/// The fingerprints of `content`
pub open spec fn fingerprints_of(f: Fingerprints, content: Seq<u8>) -> bool {
    &&& f.md5@ == hex(md5_digest(content))
    &&& f.sha1@ == hex(sha1_digest(content))
    &&& f.sha256@ == hex(sha256_digest(content))
    &&& f.sha512@ == hex(sha512_digest(content))
    &&& f.sha256_base64@ == base64_encoded(sha256_digest(content))
    &&& f.sha512_base64@ == base64_encoded(sha512_digest(content))
}

/// Compute the fingerprints of a content: MD5, SHA1, SHA256 and SHA512 in hexadecimal,
/// SHA256 and SHA512 in base64
pub fn fingerprints(content: &[u8]) -> (r: Fingerprints)
    ensures
        fingerprints_of(r, content@),
{
    let sha256_bytes = sha256(content);
    let sha512_bytes = sha512(content);
    Fingerprints {
        md5: to_hex(md5(content).as_slice()),
        sha1: to_hex(sha1(content).as_slice()),
        sha256: to_hex(sha256_bytes.as_slice()),
        sha512: to_hex(sha512_bytes.as_slice()),
        sha256_base64: base64_encode(sha256_bytes.as_slice()),
        sha512_base64: base64_encode(sha512_bytes.as_slice()),
    }
}

/// State of a remote file resource
#[derive(Debug)]
pub struct ResourceState<C> {
    pub id: Value<String>,
    pub path: Value<String>,
    pub content: Value<String>,
    pub content_base64: Value<String>,
    pub content_source: Value<String>,
    pub mode: Value<String>,
    pub overwrite: Value<bool>,
    pub keep: Value<bool>,
    pub md5: Value<String>,
    pub sha1: Value<String>,
    pub sha256: Value<String>,
    pub sha512: Value<String>,
    pub sha256_base64: Value<String>,
    pub sha512_base64: Value<String>,
    pub connect: Value<C>,
}

/// State of a remote file data source
#[derive(Debug)]
pub struct DataSourceState<C> {
    pub path: Value<String>,
    pub connect: Value<C>,
    pub content: Value<String>,
    pub content_base64: Value<String>,
    pub md5: Value<String>,
    pub sha1: Value<String>,
    pub sha256: Value<String>,
    pub sha512: Value<String>,
    pub sha256_base64: Value<String>,
    pub sha512_base64: Value<String>,
}

/// Resource managing a remote file
#[derive(Debug, Default)]
pub struct CmdFileResource<C> {
    pub sensitive: bool,
    pub connect: C,
}

/// Data source reading a remote file
#[derive(Debug, Default)]
pub struct CmdFileDataSource<C> {
    pub sensitive: bool,
    pub connect: C,
}

impl<C> CmdFileResource<C> {
    /// A file resource, whose content is sensitive or not
    pub fn new(sensitive: bool, connect: C) -> (r: Self)
        ensures
            r.sensitive == sensitive,
            r.connect == connect,
    {
        Self { sensitive, connect }
    }
}

impl<C> CmdFileDataSource<C> {
    /// A file data source, whose content is sensitive or not
    pub fn new(sensitive: bool, connect: C) -> (r: Self)
        ensures
            r.sensitive == sensitive,
            r.connect == connect,
    {
        Self { sensitive, connect }
    }
}

/// What the validation of the path of a file reports: an empty or null path is an error
pub open spec fn path_reports(path: Value<String>) -> Seq<Report> {
    match path {
        Value::Value(p) => if p@.len() == 0 {
            seq![error_report("`path` should not be empty"@, Seq::empty(), seq![StepView::Attribute("path"@)])]
        } else {
            Seq::empty()
        },
        Value::Null => seq![error_report("`path` should not be null"@, Seq::empty(), seq![StepView::Attribute("path"@)])],
        Value::Unknown => Seq::empty(),
    }
}

/// Validate the path of a file
fn validate_path(diags: &mut Diagnostics, path: &Value<String>)
    ensures
        reported(old(diags)@, final(diags)@, path_reports(*path)),
{
    let ghost start = diags@;
    match path {
        Value::Value(p) => {
            if p.as_str().is_empty() {
                let at = AttributePath::new("path");
                assert(at@ =~= seq![StepView::Attribute("path"@)]);
                diags.error_short("`path` should not be empty", at);
                proof {
                    lemma_reported_error(start, diags@, "`path` should not be empty"@, Seq::empty(), seq![StepView::Attribute("path"@)]);
                }
            } else {
                proof {
                    lemma_reported_none(start);
                }
            }
        },
        Value::Null => {
            let at = AttributePath::new("path");
            assert(at@ =~= seq![StepView::Attribute("path"@)]);
            diags.error_short("`path` should not be null", at);
            proof {
                lemma_reported_error(start, diags@, "`path` should not be null"@, Seq::empty(), seq![StepView::Attribute("path"@)]);
            }
        },
        Value::Unknown => {
            proof {
                lemma_reported_none(start);
            }
        },
    }
}

/// Exactly one of the contents is given, or none is given and at least one is unknown
pub open spec fn content_specified<C>(s: ResourceState<C>) -> bool {
    let given = (if s.content is Value { 1int } else { 0int }) + (if s.content_base64 is Value {
        1int
    } else {
        0int
    }) + (if s.content_source is Value { 1int } else { 0int });
    let unknown = (if s.content is Unknown { 1int } else { 0int }) + (if s.content_base64 is Unknown {
        1int
    } else {
        0int
    }) + (if s.content_source is Unknown { 1int } else { 0int });
    given == 1 || (given == 0 && unknown >= 1)
}

/// The text "Mode should be an octal number between 0000 and 7777, but is <mode>"
pub open spec fn mode_message(mode: Seq<char>) -> Seq<char> {
    "Mode should be an octal number between 0000 and 7777, but is "@ + mode
}

/// What the validation of the mode reports: a mode that is not an octal number between 0 and
/// 7777 is an error, with the parse error when it is not a number
pub open spec fn mode_reports(mode: Value<String>) -> Seq<Report> {
    match mode {
        Value::Value(m) => match octal_isize(m@) {
            Ok(v) => if 0 <= v <= 4095 {
                Seq::empty()
            } else {
                seq![error_report("Invalid `mode`"@, mode_message(m@), seq![StepView::Attribute("mode"@)])]
            },
            Err(e) => seq![
                error_report(
                    "Invalid `mode`"@,
                    mode_message(m@) + seq!['\n'] + e,
                    seq![StepView::Attribute("mode"@)],
                ),
            ],
        },
        _ => Seq::empty(),
    }
}

/// What the validation of a file resource reports: its path, the choice of its content, then
/// its mode
pub open spec fn resource_reports<C>(s: ResourceState<C>) -> Seq<Report> {
    path_reports(s.path) + if content_specified(s) {
        Seq::empty()
    } else {
        seq![
            error_report(
                "Invalid content specification"@,
                "Exactly one of `content`, `content_base64`, and `content_source` must be given. The others must be null."@,
                Seq::empty(),
            ),
        ]
    } + mode_reports(s.mode)
}

impl<C: ConnectionConfig> CmdFileResource<C> {
    /// Validate the configuration of a file resource: its connection at `connect[0]`, then
    /// its path, its content and its mode. Returns `Some` iff no error is reported at the end.
    pub fn validate(&self, diags: &mut Diagnostics, config: &ResourceState<C>) -> (r: Option<()>)
        ensures
            reported(old(diags)@, final(diags)@, connect_reports(config.connect) + resource_reports(*config)),
            r is Some <==> final(diags)@.errors.len() == 0,
    {
        let ghost origin = diags@;
        validate_connect(diags, &config.connect);
        let ghost start = diags@;
        validate_path(diags, &config.path);
        let ghost mid1 = diags@;
        let given = (config.content.is_value() as u8) + (config.content_base64.is_value() as u8)
            + (config.content_source.is_value() as u8);
        let unknown = (config.content.is_unknown() as u8) + (config.content_base64.is_unknown()
            as u8) + (config.content_source.is_unknown() as u8);
        if !(given == 1 || (given == 0 && unknown >= 1)) {
            diags.root_error(
                "Invalid content specification",
                "Exactly one of `content`, `content_base64`, and `content_source` must be given. The others must be null.",
            );
            proof {
                lemma_reported_error(
                    mid1,
                    diags@,
                    "Invalid content specification"@,
                    "Exactly one of `content`, `content_base64`, and `content_source` must be given. The others must be null."@,
                    Seq::empty(),
                );
            }
        } else {
            proof {
                lemma_reported_none(mid1);
            }
        }
        let ghost mid2 = diags@;
        if let Value::Value(mode) = &config.mode {
            let at = AttributePath::new("mode");
            assert(at@ =~= seq![StepView::Attribute("mode"@)]);
            match parse_octal_isize(mode.as_str()) {
                Ok(v) => {
                    if 0 <= v && v <= 4095 {
                        proof {
                            lemma_reported_none(mid2);
                        }
                    } else {
                        let message = String::from_str(
                            "Mode should be an octal number between 0000 and 7777, but is ",
                        ).concat(mode.as_str());
                        diags.error("Invalid `mode`", message.as_str(), at);
                        proof {
                            lemma_reported_error(mid2, diags@, "Invalid `mode`"@, message@, at@);
                        }
                        assert(reported(mid2, diags@, mode_reports(config.mode)));
                    }
                },
                Err(err) => {
                    proof {
                        reveal_strlit("\n");
                    }
                    let message = String::from_str(
                        "Mode should be an octal number between 0000 and 7777, but is ",
                    ).concat(mode.as_str()).concat("\n").concat(err.as_str());
                    diags.error("Invalid `mode`", message.as_str(), at);
                    proof {
                        lemma_reported_error(mid2, diags@, "Invalid `mode`"@, message@, at@);
                    }
                    assert(message@ == mode_message(mode@) + seq!['\n'] + err@);
                    assert(reported(mid2, diags@, mode_reports(config.mode)));
                },
            }
        } else {
            proof {
                lemma_reported_none(mid2);
            }
        }
        proof {
            lemma_reported_chain(start, mid1, mid2, path_reports(config.path), if content_specified(*config) {
                Seq::<Report>::empty()
            } else {
                seq![
                    error_report(
                        "Invalid content specification"@,
                        "Exactly one of `content`, `content_base64`, and `content_source` must be given. The others must be null."@,
                        Seq::empty(),
                    ),
                ]
            });
            lemma_reported_chain(start, mid2, diags@, path_reports(config.path) + if content_specified(*config) {
                Seq::<Report>::empty()
            } else {
                seq![
                    error_report(
                        "Invalid content specification"@,
                        "Exactly one of `content`, `content_base64`, and `content_source` must be given. The others must be null."@,
                        Seq::empty(),
                    ),
                ]
            }, mode_reports(config.mode));
            lemma_reported_chain(origin, start, diags@, connect_reports(config.connect), resource_reports(*config));
        }
        if diags.errors.len() == 0 {
            Some(())
        } else {
            None
        }
    }
}

impl<C: ConnectionConfig> CmdFileDataSource<C> {
    /// Validate the configuration of a file data source: its connection at `connect[0]`, then
    /// its path. Returns `Some` iff no error is reported at the end.
    pub fn validate(&self, diags: &mut Diagnostics, config: &DataSourceState<C>) -> (r: Option<()>)
        ensures
            reported(old(diags)@, final(diags)@, connect_reports(config.connect) + path_reports(config.path)),
            r is Some <==> final(diags)@.errors.len() == 0,
    {
        let ghost origin = diags@;
        validate_connect(diags, &config.connect);
        let ghost start = diags@;
        validate_path(diags, &config.path);
        proof {
            lemma_reported_chain(origin, start, diags@, connect_reports(config.connect), path_reports(config.path));
        }
        if diags.errors.len() == 0 {
            Some(())
        } else {
            None
        }
    }
}

/// `v` when it is null, becomes unknown
pub open spec fn null_to_unknown(v: Value<String>) -> Value<String> {
    if v is Null {
        Value::Unknown
    } else {
        v
    }
}

fn make_unknown_if_null(v: &mut Value<String>)
    ensures
        *final(v) == null_to_unknown(*old(v)),
{
    if v.is_null() {
        *v = Value::Unknown;
    }
}

/// The state once normalized by a resource whose content is `sensitive` or not
pub open spec fn normalized<C>(before: ResourceState<C>, after: ResourceState<C>, sensitive: bool) -> bool {
    &&& after.id == null_to_unknown(before.id)
    &&& after.md5 == null_to_unknown(before.md5)
    &&& after.sha1 == null_to_unknown(before.sha1)
    &&& after.sha256 == null_to_unknown(before.sha256)
    &&& after.sha512 == null_to_unknown(before.sha512)
    &&& after.sha256_base64 == null_to_unknown(before.sha256_base64)
    &&& after.sha512_base64 == null_to_unknown(before.sha512_base64)
    &&& if before.mode is Value {
        after.mode == before.mode
    } else {
        after.mode matches Value::Value(m) && m@ == if sensitive {
            "0600"@
        } else {
            "0666"@
        }
    }
    &&& after.overwrite == if before.overwrite is Value {
        before.overwrite
    } else {
        Value::Value(false)
    }
    &&& after.keep == if before.keep is Value {
        before.keep
    } else {
        Value::Value(false)
    }
    &&& after.path == before.path
    &&& after.content == before.content
    &&& after.content_base64 == before.content_base64
    &&& after.content_source == before.content_source
    &&& after.connect == before.connect
}

/// Make the six fingerprints unknown
pub open spec fn fingerprints_unknown<C>(s: ResourceState<C>) -> bool {
    s.md5 is Unknown && s.sha1 is Unknown && s.sha256 is Unknown && s.sha512 is Unknown
        && s.sha256_base64 is Unknown && s.sha512_base64 is Unknown
}

impl<C> CmdFileResource<C> {
    /// Fill what the practitioner left out: null id and fingerprints become unknown, the mode
    /// defaults to `0600` for a sensitive file and `0666` otherwise, `overwrite` and `keep`
    /// default to `false`
    pub fn normalize(&self, state: &mut ResourceState<C>)
        ensures
            normalized(*old(state), *final(state), self.sensitive),
    {
        make_unknown_if_null(&mut state.id);
        make_unknown_if_null(&mut state.md5);
        make_unknown_if_null(&mut state.sha1);
        make_unknown_if_null(&mut state.sha256);
        make_unknown_if_null(&mut state.sha512);
        make_unknown_if_null(&mut state.sha256_base64);
        make_unknown_if_null(&mut state.sha512_base64);
        if !state.mode.is_value() {
            proof {
                reveal_strlit("0600");
                reveal_strlit("0666");
            }
            let mode = if self.sensitive {
                "0600"
            } else {
                "0666"
            };
            state.mode = Value::Value(mode.to_owned());
        }
        if !state.overwrite.is_value() {
            state.overwrite = Value::Value(false);
        }
        if !state.keep.is_value() {
            state.keep = Value::Value(false);
        }
    }

    /// Plan the creation of a file: the proposed state, normalized
    pub fn plan_create(&self, proposed_state: ResourceState<C>) -> (r: ResourceState<C>)
        ensures
            normalized(proposed_state, r, self.sensitive),
    {
        let mut state = proposed_state;
        self.normalize(&mut state);
        state
    }

    /// Plan the update of a file: the contents that the configuration leaves null are null;
    /// when a content changed from the prior state, the fingerprints become unknown; then the
    /// state is normalized
    pub fn plan_update(
        &self,
        prior_state: &ResourceState<C>,
        proposed_state: ResourceState<C>,
        config_state: &ResourceState<C>,
    ) -> (r: ResourceState<C>)
        ensures
            exists|mid: ResourceState<C>|
                {
                    &&& mid.content == if config_state.content is Null {
                        Value::<String>::Null
                    } else {
                        proposed_state.content
                    }
                    &&& mid.content_base64 == if config_state.content_base64 is Null {
                        Value::<String>::Null
                    } else {
                        proposed_state.content_base64
                    }
                    &&& mid.content_source == if config_state.content_source is Null {
                        Value::<String>::Null
                    } else {
                        proposed_state.content_source
                    }
                    &&& if str_value_view(mid.content) != str_value_view(prior_state.content)
                        || str_value_view(mid.content_base64) != str_value_view(
                        prior_state.content_base64,
                    ) || str_value_view(mid.content_source) != str_value_view(
                        prior_state.content_source,
                    ) {
                        fingerprints_unknown(mid)
                    } else {
                        mid.md5 == proposed_state.md5 && mid.sha1 == proposed_state.sha1
                            && mid.sha256 == proposed_state.sha256 && mid.sha512
                            == proposed_state.sha512 && mid.sha256_base64
                            == proposed_state.sha256_base64 && mid.sha512_base64
                            == proposed_state.sha512_base64
                    }
                    &&& mid.id == proposed_state.id
                    &&& mid.mode == proposed_state.mode
                    &&& mid.overwrite == proposed_state.overwrite
                    &&& mid.keep == proposed_state.keep
                    &&& mid.path == proposed_state.path
                    &&& mid.connect == proposed_state.connect
                    &&& normalized(mid, r, self.sensitive)
                },
    {
        let mut state = proposed_state;
        if config_state.content.is_null() {
            state.content = Value::Null;
        }
        if config_state.content_base64.is_null() {
            state.content_base64 = Value::Null;
        }
        if config_state.content_source.is_null() {
            state.content_source = Value::Null;
        }
        if !str_value_eq(&state.content, &prior_state.content) || !str_value_eq(
            &state.content_base64,
            &prior_state.content_base64,
        ) || !str_value_eq(&state.content_source, &prior_state.content_source) {
            state.md5 = Value::Unknown;
            state.sha1 = Value::Unknown;
            state.sha256 = Value::Unknown;
            state.sha512 = Value::Unknown;
            state.sha256_base64 = Value::Unknown;
            state.sha512_base64 = Value::Unknown;
        }
        let ghost mid = state;
        self.normalize(&mut state);
        state
    }
}

impl<C> CmdFileResource<C> {
    /// The state with which a file is updated: the contents that the configuration leaves
    /// null are null, then the state is normalized
    pub fn prepare_update(&self, planned_state: ResourceState<C>, config_state: &ResourceState<C>) -> (r:
        ResourceState<C>)
        ensures
            exists|mid: ResourceState<C>|
                {
                    &&& mid.content == if config_state.content is Null {
                        Value::<String>::Null
                    } else {
                        planned_state.content
                    }
                    &&& mid.content_base64 == if config_state.content_base64 is Null {
                        Value::<String>::Null
                    } else {
                        planned_state.content_base64
                    }
                    &&& mid.content_source == if config_state.content_source is Null {
                        Value::<String>::Null
                    } else {
                        planned_state.content_source
                    }
                    &&& mid.id == planned_state.id
                    &&& mid.mode == planned_state.mode
                    &&& mid.overwrite == planned_state.overwrite
                    &&& mid.keep == planned_state.keep
                    &&& mid.path == planned_state.path
                    &&& mid.connect == planned_state.connect
                    &&& mid.md5 == planned_state.md5
                    &&& mid.sha1 == planned_state.sha1
                    &&& mid.sha256 == planned_state.sha256
                    &&& mid.sha512 == planned_state.sha512
                    &&& mid.sha256_base64 == planned_state.sha256_base64
                    &&& mid.sha512_base64 == planned_state.sha512_base64
                    &&& normalized(mid, r, self.sensitive)
                },
    {
        let mut state = planned_state;
        if config_state.content.is_null() {
            state.content = Value::Null;
        }
        if config_state.content_base64.is_null() {
            state.content_base64 = Value::Null;
        }
        if config_state.content_source.is_null() {
            state.content_source = Value::Null;
        }
        let ghost mid = state;
        self.normalize(&mut state);
        state
    }
}

/// Give the file a random identifier of 30 ASCII letters and digits when its identifier is
/// not known
pub fn ensure_id<C>(state: &mut ResourceState<C>)
    ensures
        old(state).id is Value ==> final(state).id == old(state).id,
        !(old(state).id is Value) ==> (final(state).id matches Value::Value(id) && id@.len() == 30
            && forall|i: int| 0 <= i < 30 ==> codec::is_alphanumeric(#[trigger] id@[i])),
        final(state).path == old(state).path,
        final(state).content == old(state).content,
        final(state).content_base64 == old(state).content_base64,
        final(state).content_source == old(state).content_source,
        final(state).mode == old(state).mode,
        final(state).overwrite == old(state).overwrite,
        final(state).keep == old(state).keep,
        final(state).md5 == old(state).md5,
        final(state).sha1 == old(state).sha1,
        final(state).sha256 == old(state).sha256,
        final(state).sha512 == old(state).sha512,
        final(state).sha256_base64 == old(state).sha256_base64,
        final(state).sha512_base64 == old(state).sha512_base64,
        final(state).connect == old(state).connect,
{
    if !state.id.is_value() {
        state.id = Value::Value(random_alphanumeric(30));
    }
}

/// The permissions with which a file is written: its mode read as an octal number, `0o666`
/// when it is not one
pub fn file_mode(mode: &Value<String>) -> (r: u32)
    ensures
        r == match octal_u32(crate::value::value_str_view(*mode)) {
            Some(v) => v,
            None => 0o666u32,
        },
{
    match parse_octal_u32(mode.as_str()) {
        Some(v) => v,
        None => 0o666,
    }
}

/// What a file resource writes
#[derive(Debug)]
pub enum Content {
    /// These bytes (given in `content`, or decoded from `content_base64`)
    Bytes(Vec<u8>),
    /// The content of the local file of this name (`content_source`)
    Source(String),
}

/// Choose what to write: `content` when it is a value, else the decoding of `content_base64`
/// when it is a value (an invalid encoding is an error at `content_base64`), else the local
/// file named by `content_source` when it is a value; with none of them, the error
/// "No content provided"
pub fn write_content<C>(diags: &mut Diagnostics, state: &ResourceState<C>) -> (r: Option<Content>)
    ensures
        match (state.content, state.content_base64, state.content_source) {
            (Value::Value(c), _, _) => r matches Some(Content::Bytes(b)) && b@
                == vstd::utf8::encode_utf8(c@) && final(diags)@ == old(diags)@,
            (_, Value::Value(e), _) => match base64_decoded(vstd::utf8::encode_utf8(e@)) {
                Ok(d) => r matches Some(Content::Bytes(b)) && b@ == d && final(diags)@ == old(
                    diags,
                )@,
                Err(m) => r is None && reported(
                    old(diags)@,
                    final(diags)@,
                    seq![
                        error_report(
                            "Invalid base64"@,
                            m,
                            seq![StepView::Attribute("content_base64"@)],
                        ),
                    ],
                ),
            },
            (_, _, Value::Value(f)) => r matches Some(Content::Source(g)) && g@ == f@
                && final(diags)@ == old(diags)@,
            _ => r is None && reported(
                old(diags)@,
                final(diags)@,
                seq![error_report("No content provided"@, Seq::empty(), Seq::empty())],
            ),
        },
{
    if let Value::Value(content) = &state.content {
        Some(Content::Bytes(vstd::slice::slice_to_vec(content.as_str().as_bytes())))
    } else if let Value::Value(encoded) = &state.content_base64 {
        match base64_decode(encoded.as_str().as_bytes()) {
            Ok(decoded) => Some(Content::Bytes(decoded)),
            Err(err) => {
                let ghost start = diags@;
                let at = AttributePath::new("content_base64");
                assert(at@ =~= seq![StepView::Attribute("content_base64"@)]);
                diags.error("Invalid base64", err.as_str(), at);
                proof {
                    lemma_reported_error(start, diags@, "Invalid base64"@, err@, at@);
                }
                None
            },
        }
    } else if let Value::Value(source) = &state.content_source {
        Some(Content::Source(source.clone()))
    } else {
        let ghost start = diags@;
        diags.root_error_short("No content provided");
        proof {
            lemma_reported_error(start, diags@, "No content provided"@, Seq::empty(), Seq::empty());
        }
        None
    }
}

/// Record the fingerprints of what was written in the state
pub fn record_fingerprints<C>(state: &mut ResourceState<C>, fp: Fingerprints)
    ensures
        final(state).md5 == Value::Value(fp.md5),
        final(state).sha1 == Value::Value(fp.sha1),
        final(state).sha256 == Value::Value(fp.sha256),
        final(state).sha512 == Value::Value(fp.sha512),
        final(state).sha256_base64 == Value::Value(fp.sha256_base64),
        final(state).sha512_base64 == Value::Value(fp.sha512_base64),
        final(state).id == old(state).id,
        final(state).path == old(state).path,
        final(state).content == old(state).content,
        final(state).content_base64 == old(state).content_base64,
        final(state).content_source == old(state).content_source,
        final(state).mode == old(state).mode,
        final(state).overwrite == old(state).overwrite,
        final(state).keep == old(state).keep,
        final(state).connect == old(state).connect,
{
    state.md5 = Value::Value(fp.md5);
    state.sha1 = Value::Value(fp.sha1);
    state.sha256 = Value::Value(fp.sha256);
    state.sha512 = Value::Value(fp.sha512);
    state.sha256_base64 = Value::Value(fp.sha256_base64);
    state.sha512_base64 = Value::Value(fp.sha512_base64);
}

/// The six fingerprints of the state are those read (as text; null and unknown read as
/// empty)
pub open spec fn fingerprints_match<C>(state: ResourceState<C>, fp: Fingerprints) -> bool {
    &&& fp.md5@ == crate::value::value_str_view(state.md5)
    &&& fp.sha1@ == crate::value::value_str_view(state.sha1)
    &&& fp.sha256@ == crate::value::value_str_view(state.sha256)
    &&& fp.sha512@ == crate::value::value_str_view(state.sha512)
    &&& fp.sha256_base64@ == crate::value::value_str_view(state.sha256_base64)
    &&& fp.sha512_base64@ == crate::value::value_str_view(state.sha512_base64)
}

/// Whether two texts are the same
fn same_text(a: &str, b: &str) -> (r: bool)
    ensures
        r == (a@ == b@),
{
    match crate::order::compare_str(a, b) {
        crate::order::Order::Equal => true,
        _ => false,
    }
}

/// After reading a file: when any of its fingerprints differs from those of the state, the
/// six fingerprints of the state become null (the file changed outside of the provider)
pub fn check_fingerprints<C>(state: &mut ResourceState<C>, fp: &Fingerprints)
    ensures
        fingerprints_match(*old(state), *fp) ==> *final(state) == *old(state),
        !fingerprints_match(*old(state), *fp) ==> {
            &&& final(state).md5 is Null
            &&& final(state).sha1 is Null
            &&& final(state).sha256 is Null
            &&& final(state).sha512 is Null
            &&& final(state).sha256_base64 is Null
            &&& final(state).sha512_base64 is Null
            &&& final(state).id == old(state).id
            &&& final(state).path == old(state).path
            &&& final(state).content == old(state).content
            &&& final(state).content_base64 == old(state).content_base64
            &&& final(state).content_source == old(state).content_source
            &&& final(state).mode == old(state).mode
            &&& final(state).overwrite == old(state).overwrite
            &&& final(state).keep == old(state).keep
            &&& final(state).connect == old(state).connect
        },
{
    let same = same_text(fp.md5.as_str(), state.md5.as_str()) && same_text(
        fp.sha1.as_str(),
        state.sha1.as_str(),
    ) && same_text(fp.sha256.as_str(), state.sha256.as_str()) && same_text(
        fp.sha512.as_str(),
        state.sha512.as_str(),
    ) && same_text(fp.sha256_base64.as_str(), state.sha256_base64.as_str()) && same_text(
        fp.sha512_base64.as_str(),
        state.sha512_base64.as_str(),
    );
    if !same {
        state.md5 = Value::Null;
        state.sha1 = Value::Null;
        state.sha256 = Value::Null;
        state.sha512 = Value::Null;
        state.sha256_base64 = Value::Null;
        state.sha512_base64 = Value::Null;
    }
}

/// After a failed deletion: a file that is already gone is a warning "File has already been
/// deleted" and the deletion succeeds; any other failure is a warning "Could not delete file"
/// and the deletion fails. `message` is the text of the failure.
pub fn deletion_failed(diags: &mut Diagnostics, not_found: bool, message: &str) -> (r: Option<()>)
    ensures
        not_found ==> r is Some && reported(
            old(diags)@,
            final(diags)@,
            seq![crate::diagnostics::warning_report("File has already been deleted"@, message@, Seq::empty())],
        ),
        !not_found ==> r is None && reported(
            old(diags)@,
            final(diags)@,
            seq![crate::diagnostics::warning_report("Could not delete file"@, message@, Seq::empty())],
        ),
{
    let ghost start = diags@;
    if not_found {
        diags.root_warning("File has already been deleted", message);
        proof {
            lemma_reported_warning(start, diags@, "File has already been deleted"@, message@, Seq::empty());
        }
        Some(())
    } else {
        diags.root_warning("Could not delete file", message);
        proof {
            lemma_reported_warning(start, diags@, "Could not delete file"@, message@, Seq::empty());
        }
        None
    }
}

/// The output of a file data source once its file is read: the content as base64 and as
/// text (invalid UTF-8 replaced), and its fingerprints
pub fn read_output<C>(config: DataSourceState<C>, content: &[u8]) -> (r: DataSourceState<C>)
    ensures
        r.path == config.path,
        r.connect == config.connect,
        r.content matches Value::Value(t) && t@ == utf8_lossy(content@),
        r.content_base64 matches Value::Value(e) && e@ == base64_encoded(content@),
        r.md5 matches Value::Value(h) && h@ == hex(md5_digest(content@)),
        r.sha1 matches Value::Value(h) && h@ == hex(sha1_digest(content@)),
        r.sha256 matches Value::Value(h) && h@ == hex(sha256_digest(content@)),
        r.sha512 matches Value::Value(h) && h@ == hex(sha512_digest(content@)),
        r.sha256_base64 matches Value::Value(h) && h@ == base64_encoded(sha256_digest(content@)),
        r.sha512_base64 matches Value::Value(h) && h@ == base64_encoded(sha512_digest(content@)),
{
    let mut output = config;
    output.content_base64 = Value::Value(base64_encode(content));
    output.content = Value::Value(from_utf8_lossy(content));
    let fp = fingerprints(content);
    output.md5 = Value::Value(fp.md5);
    output.sha1 = Value::Value(fp.sha1);
    output.sha256 = Value::Value(fp.sha256);
    output.sha512 = Value::Value(fp.sha512);
    output.sha256_base64 = Value::Value(fp.sha256_base64);
    output.sha512_base64 = Value::Value(fp.sha512_base64);
    output
}

/// The six fingerprints of a file, computed, from `start` in `a`
pub open spec fn fingerprint_attributes(a: Seq<(String, Attribute)>, start: int) -> bool {
    &&& plain_attribute(a[start], "md5"@, AttributeType::String, "MD5 fingerprint of the file (hex)"@, AttributeConstraint::Computed, false)
    &&& plain_attribute(a[start + 1], "sha1"@, AttributeType::String, "SHA1 fingerprint of the file (hex)"@, AttributeConstraint::Computed, false)
    &&& plain_attribute(a[start + 2], "sha256"@, AttributeType::String, "SHA256 fingerprint of the file (hex)"@, AttributeConstraint::Computed, false)
    &&& plain_attribute(a[start + 3], "sha512"@, AttributeType::String, "SHA512 fingerprint of the file (hex)"@, AttributeConstraint::Computed, false)
    &&& plain_attribute(a[start + 4], "sha256_base64"@, AttributeType::String, "SHA256 fingerprint of the file (base64)"@, AttributeConstraint::Computed, false)
    &&& plain_attribute(a[start + 5], "sha512_base64"@, AttributeType::String, "SHA512 fingerprint of the file (base64)"@, AttributeConstraint::Computed, false)
}

/// Append the six fingerprints of a file
fn push_fingerprint_attributes(a: &mut Vec<(String, Attribute)>)
    ensures
        final(a)@.len() == old(a)@.len() + 6,
        forall|i: int| 0 <= i < old(a)@.len() ==> final(a)@[i] == old(a)@[i],
        fingerprint_attributes(final(a)@, old(a)@.len() as int),
{
    a.push(plain_entry("md5", AttributeType::String, "MD5 fingerprint of the file (hex)", AttributeConstraint::Computed, false));
    a.push(plain_entry("sha1", AttributeType::String, "SHA1 fingerprint of the file (hex)", AttributeConstraint::Computed, false));
    a.push(plain_entry("sha256", AttributeType::String, "SHA256 fingerprint of the file (hex)", AttributeConstraint::Computed, false));
    a.push(plain_entry("sha512", AttributeType::String, "SHA512 fingerprint of the file (hex)", AttributeConstraint::Computed, false));
    a.push(plain_entry("sha256_base64", AttributeType::String, "SHA256 fingerprint of the file (base64)", AttributeConstraint::Computed, false));
    a.push(plain_entry("sha512_base64", AttributeType::String, "SHA512 fingerprint of the file (base64)", AttributeConstraint::Computed, false));
}

/// The nested block `connect` of a file, with the attributes of the connection
pub open spec fn connect_block(e: (String, NestedBlock), connect_attributes: Vec<(String, Attribute)>) -> bool {
    &&& e.0@ == "connect"@
    &&& e.1 matches NestedBlock::Optional(b)
    &&& plain_block(b, "Connection configuration"@)
    &&& b.attributes == connect_attributes
    &&& b.blocks@.len() == 0
}

/// The block `connect` of a file
fn connect_blocks(connect_attributes: Vec<(String, Attribute)>) -> (r: Vec<(String, NestedBlock)>)
    ensures
        r@.len() == 1,
        connect_block(r@[0], connect_attributes),
{
    let mut blocks: Vec<(String, NestedBlock)> = Vec::new();
    let b = plain_block_of(connect_attributes, Vec::new(), "Connection configuration");
    blocks.push(("connect".to_owned(), NestedBlock::Optional(b)));
    blocks
}

impl<C> CmdFileResource<C> {
    /// The schema of a file resource: its identifier, path, contents (sensitive when the
    /// resource is), mode, `overwrite` and `keep`, and its fingerprints; the connection,
    /// whose attributes are `connect_attributes`, in an optional block `connect`
    pub fn schema(&self, connect_attributes: Vec<(String, Attribute)>) -> (r: Schema)
        ensures
            r.version == 1,
            plain_block(r.block, "Reads a remote file"@),
            r.block.attributes@.len() == 14,
            plain_attribute(r.block.attributes@[0], "id"@, AttributeType::String, "Id of the fiel resource"@, AttributeConstraint::Computed, false),
            plain_attribute(r.block.attributes@[1], "path"@, AttributeType::String, "Remote path to the file"@, AttributeConstraint::Required, false),
            plain_attribute(r.block.attributes@[2], "content"@, AttributeType::String, "Content of the remote file"@, AttributeConstraint::OptionalComputed, self.sensitive),
            plain_attribute(r.block.attributes@[3], "content_base64"@, AttributeType::String, "Content of the remote file encoded in base64"@, AttributeConstraint::OptionalComputed, self.sensitive),
            plain_attribute(r.block.attributes@[4], "content_source"@, AttributeType::String, "Content of the remote file from a local file"@, AttributeConstraint::OptionalComputed, self.sensitive),
            plain_attribute(r.block.attributes@[5], "mode"@, AttributeType::String, "Content of the remote file"@, AttributeConstraint::OptionalComputed, false),
            plain_attribute(r.block.attributes@[6], "overwrite"@, AttributeType::Bool, "Content of the remote file"@, AttributeConstraint::OptionalComputed, false),
            plain_attribute(r.block.attributes@[7], "keep"@, AttributeType::Bool, "Content of the remote file"@, AttributeConstraint::OptionalComputed, false),
            fingerprint_attributes(r.block.attributes@, 8),
            r.block.blocks@.len() == 1,
            connect_block(r.block.blocks@[0], connect_attributes),
    {
        let mut a: Vec<(String, Attribute)> = Vec::new();
        a.push(plain_entry("id", AttributeType::String, "Id of the fiel resource", AttributeConstraint::Computed, false));
        a.push(plain_entry("path", AttributeType::String, "Remote path to the file", AttributeConstraint::Required, false));
        a.push(plain_entry("content", AttributeType::String, "Content of the remote file", AttributeConstraint::OptionalComputed, self.sensitive));
        a.push(plain_entry("content_base64", AttributeType::String, "Content of the remote file encoded in base64", AttributeConstraint::OptionalComputed, self.sensitive));
        a.push(plain_entry("content_source", AttributeType::String, "Content of the remote file from a local file", AttributeConstraint::OptionalComputed, self.sensitive));
        a.push(plain_entry("mode", AttributeType::String, "Content of the remote file", AttributeConstraint::OptionalComputed, false));
        a.push(plain_entry("overwrite", AttributeType::Bool, "Content of the remote file", AttributeConstraint::OptionalComputed, false));
        a.push(plain_entry("keep", AttributeType::Bool, "Content of the remote file", AttributeConstraint::OptionalComputed, false));
        push_fingerprint_attributes(&mut a);
        let blocks = connect_blocks(connect_attributes);
        Schema { version: 1, block: plain_block_of(a, blocks, "Reads a remote file") }
    }
}

impl<C> CmdFileDataSource<C> {
    /// The schema of a file data source: its path, its content as text and in base64
    /// (sensitive when the data source is), and its fingerprints; the connection, whose
    /// attributes are `connect_attributes`, in an optional block `connect`
    pub fn schema(&self, connect_attributes: Vec<(String, Attribute)>) -> (r: Schema)
        ensures
            r.version == 1,
            plain_block(r.block, "Reads a remote file"@),
            r.block.attributes@.len() == 9,
            plain_attribute(r.block.attributes@[0], "path"@, AttributeType::String, "Remote path to the file"@, AttributeConstraint::Required, false),
            plain_attribute(r.block.attributes@[1], "content"@, AttributeType::String, "Content of the remote file"@, AttributeConstraint::Computed, self.sensitive),
            plain_attribute(r.block.attributes@[2], "content_base64"@, AttributeType::String, "Content of the remote file base64 encoded"@, AttributeConstraint::Computed, self.sensitive),
            fingerprint_attributes(r.block.attributes@, 3),
            r.block.blocks@.len() == 1,
            connect_block(r.block.blocks@[0], connect_attributes),
    {
        let mut a: Vec<(String, Attribute)> = Vec::new();
        a.push(plain_entry("path", AttributeType::String, "Remote path to the file", AttributeConstraint::Required, false));
        a.push(plain_entry("content", AttributeType::String, "Content of the remote file", AttributeConstraint::Computed, self.sensitive));
        a.push(plain_entry("content_base64", AttributeType::String, "Content of the remote file base64 encoded", AttributeConstraint::Computed, self.sensitive));
        push_fingerprint_attributes(&mut a);
        let blocks = connect_blocks(connect_attributes);
        Schema { version: 1, block: plain_block_of(a, blocks, "Reads a remote file") }
    }
}

/// A file read back with the content that was written keeps the fingerprints recorded when
/// it was written: the fingerprints of the same content are the same texts, so the state
/// recorded after the write matches those of the read
pub proof fn law_read_after_write<C>(
    written: ResourceState<C>,
    at_write: Fingerprints,
    at_read: Fingerprints,
    content: Seq<u8>,
)
    requires
        fingerprints_of(at_write, content),
        fingerprints_of(at_read, content),
        written.md5 == Value::Value(at_write.md5),
        written.sha1 == Value::Value(at_write.sha1),
        written.sha256 == Value::Value(at_write.sha256),
        written.sha512 == Value::Value(at_write.sha512),
        written.sha256_base64 == Value::Value(at_write.sha256_base64),
        written.sha512_base64 == Value::Value(at_write.sha512_base64),
    ensures
        fingerprints_match(written, at_read),
{
}

/// Normalizing a normalized state changes nothing
pub proof fn law_normalize_idempotent<C>(
    a: ResourceState<C>,
    b: ResourceState<C>,
    c: ResourceState<C>,
    sensitive: bool,
)
    requires
        normalized(a, b, sensitive),
        normalized(b, c, sensitive),
    ensures
        c == b,
{
}

/// A step of the work on a file that can fail
#[derive(Debug, Clone, Copy)]
pub enum FileFailure {
    /// Opening the remote file to write it
    OpenForWriting,
    /// Opening the local file named by `content_source`
    OpenSource,
    /// Writing the content
    Write,
    /// Opening the remote file of a resource to read it
    OpenForReading,
    /// Reading the remote file (of a resource or a data source)
    Read,
}

/// What a failure reports: an error, at `content_source` for the local file of the content,
/// at the root otherwise
pub open spec fn failure_report(failure: FileFailure, message: Seq<char>) -> Report {
    match failure {
        FileFailure::OpenForWriting => error_report("Could not open file for writing"@, message, Seq::empty()),
        FileFailure::OpenSource => error_report(
            "Could not open file"@,
            message,
            seq![StepView::Attribute("content_source"@)],
        ),
        FileFailure::Write => error_report("Could not write to file"@, message, Seq::empty()),
        FileFailure::OpenForReading => error_report("Could not open file for reading"@, message, Seq::empty()),
        FileFailure::Read => error_report("Could not read file"@, message, Seq::empty()),
    }
}

/// Report the failure of a step of the work on a file; `message` is the text of the failure
pub fn report_file_failure(diags: &mut Diagnostics, failure: FileFailure, message: &str)
    ensures
        reported(old(diags)@, final(diags)@, seq![failure_report(failure, message@)]),
{
    let ghost start = diags@;
    match failure {
        FileFailure::OpenForWriting => diags.root_error("Could not open file for writing", message),
        FileFailure::OpenSource => {
            let at = AttributePath::new("content_source");
            assert(at@ =~= seq![StepView::Attribute("content_source"@)]);
            diags.error("Could not open file", message, at);
        },
        FileFailure::Write => diags.root_error("Could not write to file", message),
        FileFailure::OpenForReading => diags.root_error("Could not open file for reading", message),
        FileFailure::Read => diags.root_error("Could not read file", message),
    }
    proof {
        let r = failure_report(failure, message@);
        lemma_reported_error(start, diags@, r.summary, r.detail, r.path);
        assert(seq![error_report(r.summary, r.detail, r.path)] == seq![r]);
    }
}

/// After a failure to open the file of a resource for reading: a file that is gone means that
/// the resource is gone (`None`), with nothing reported; any other failure is reported and the
/// resource is still there (`Some`)
pub fn read_open_failed(diags: &mut Diagnostics, not_found: bool, message: &str) -> (r: Option<()>)
    ensures
        r is None <==> not_found,
        not_found ==> final(diags)@ == old(diags)@,
        !not_found ==> reported(
            old(diags)@,
            final(diags)@,
            seq![failure_report(FileFailure::OpenForReading, message@)],
        ),
{
    if not_found {
        None
    } else {
        report_file_failure(diags, FileFailure::OpenForReading, message);
        Some(())
    }
}

/// The error of a content given in none or several ways
pub open spec fn content_report() -> Report {
    error_report(
        "Invalid content specification"@,
        "Exactly one of `content`, `content_base64`, and `content_source` must be given. The others must be null."@,
        Seq::empty(),
    )
}

/// Validating a file resource reports an invalid content specification whenever two or more
/// of `content`, `content_base64` and `content_source` are given, or when all three are null;
/// never when exactly one of them is given
pub proof fn law_one_content_given<C>(s: ResourceState<C>)
    ensures
        (s.content is Value && s.content_base64 is Value) || (s.content is Value
            && s.content_source is Value) || (s.content_base64 is Value && s.content_source is Value)
            ==> resource_reports(s).contains(content_report()),
        (s.content is Null && s.content_base64 is Null && s.content_source is Null)
            ==> resource_reports(s).contains(content_report()),
        (s.content is Value && !(s.content_base64 is Value) && !(s.content_source is Value)) || (!(
        s.content is Value) && s.content_base64 is Value && !(s.content_source is Value)) || (!(
        s.content is Value) && !(s.content_base64 is Value) && s.content_source is Value)
            ==> !resource_reports(s).contains(content_report()),
{
    let p = path_reports(s.path);
    let m = mode_reports(s.mode);
    let x = if content_specified(s) {
        Seq::<Report>::empty()
    } else {
        seq![content_report()]
    };
    assert(resource_reports(s) == p + x + m);
    if !content_specified(s) {
        assert((p + x + m)[p.len() as int] == content_report());
    } else {
        assert forall|k: int| 0 <= k < (p + x + m).len() implies (p + x + m)[k] != content_report() by {
            if k < p.len() {
                assert((p + x + m)[k] == p[k]);
                assert(p[k].path.len() == 1);
            } else {
                assert((p + x + m)[k] == m[k - p.len()]);
                assert(m[k - p.len()].path.len() == 1);
            }
        }
    }
}

} // verus!
