use tf_provider::attribute_path::AttributePath;
use tf_provider::connection::{
    channel_step, ssh_script_text, ChannelEvent, ChannelState, ChannelStep, ConnectionLocalConfig,
    ConnectionSshConfig, SshAuth,
};
use tf_provider::diagnostics::Diagnostics;
use tf_provider::protocol::{
    classify_apply, classify_plan, find_registered, function_call_outcome, planned_create,
    planned_destroy, raw_from_dynamic, raw_to_dynamic, registered_name, report_not_found,
    upgrade_step, ChangeKind, DynamicValue, PortRange, UpgradeStep,
};
use tf_provider::provider::{CmdProvider, ConnectionKind, Registered};
use tf_provider::raw::RawValue;
use tf_provider::schema::{
    cvt_attributes_tf6, cvt_nested_blocks_tf6, Attribute, AttributeConstraint,
    AttributeType, Block, Description, FunctionSchema, NestedBlock, Parameter, Schema, StringKind,
    Type,
};
use tf_provider::text::{i32_to_decimal, i64_to_decimal, u64_to_decimal};
use tf_provider::value::Value;

fn attr(t: AttributeType, c: AttributeConstraint) -> Attribute {
    Attribute { attr_type: t, description: Description::plain("d"), constraint: c, sensitive: false, deprecated: false }
}

#[test]
fn attribute_types_as_json() {
    assert_eq!(AttributeType::String.to_string(), "\"string\"");
    assert_eq!(AttributeType::Any.to_string(), "\"dynamic\"");
    assert_eq!(AttributeType::List(Box::new(AttributeType::Number)).to_string(), "[\"list\",\"number\"]");
    assert_eq!(
        AttributeType::Object(vec![("a".to_string(), AttributeType::Bool), ("b".to_string(), AttributeType::String)]).to_string(),
        "[\"object\",{\"a\":\"bool\",\"b\":\"string\"}]"
    );
    assert_eq!(
        AttributeType::Tuple(vec![AttributeType::Bool, AttributeType::Number]).to_string(),
        "[\"tuple\",[\"bool\",\"number\"]]"
    );
    assert_eq!(
        AttributeType::AttributeList(vec![("x".to_string(), attr(AttributeType::String, AttributeConstraint::Required))]).to_string(),
        "[\"list\",[\"object\",{\"x\":\"string\"}]]"
    );
    assert_eq!(Type::MapOf(Box::new(Type::String)).to_string(), "[\"map\",\"string\"]");
    assert_eq!(
        AttributeType::Object(vec![("a\"b".to_string(), AttributeType::Bool)]).to_string(),
        "[\"object\",{\"a\\\"b\":\"bool\"}]"
    );
}

#[test]
fn attributes_in_the_protocol_form() {
    let attrs = vec![
        ("c".to_string(), attr(AttributeType::String, AttributeConstraint::Computed)),
        ("o".to_string(), attr(AttributeType::Bool, AttributeConstraint::OptionalComputed)),
        (
            "n".to_string(),
            attr(
                AttributeType::AttributeSingle(vec![("x".to_string(), attr(AttributeType::Number, AttributeConstraint::Optional))]),
                AttributeConstraint::Required,
            ),
        ),
    ];
    let p = cvt_attributes_tf6(&attrs);
    assert_eq!(p.len(), 3);
    assert_eq!(p[0].name, "c");
    assert_eq!(p[0].attr_type, b"\"string\"".to_vec());
    assert!(!p[0].required && !p[0].optional && p[0].computed);
    assert!(!p[1].required && p[1].optional && p[1].computed);
    assert!(p[2].required && !p[2].optional && !p[2].computed);
    let nested = p[2].nested_type.as_ref().unwrap();
    assert_eq!(nested.nesting, 1);
    assert_eq!(nested.max_items, 1);
    assert_eq!(nested.attributes[0].name, "x");
    assert!(p[0].nested_type.is_none());
}

#[test]
fn nested_blocks_in_the_protocol_form() {
    let blocks = vec![
        ("opt".to_string(), NestedBlock::Optional(Block::default())),
        ("list".to_string(), NestedBlock::List(Block::default())),
        ("single".to_string(), NestedBlock::Single(Block::default())),
        ("map".to_string(), NestedBlock::MapOf(Block::default())),
    ];
    let p = cvt_nested_blocks_tf6(&blocks);
    assert_eq!((p[0].nesting, p[0].min_items, p[0].max_items), (2, 0, 1));
    assert_eq!((p[1].nesting, p[1].min_items, p[1].max_items), (2, 0, i64::MAX));
    assert_eq!((p[2].nesting, p[2].min_items, p[2].max_items), (1, 1, 1));
    assert_eq!((p[3].nesting, p[3].min_items, p[3].max_items), (4, 0, 0));
    assert_eq!(p[0].block_name, "opt");
    assert_eq!(p[0].block.as_ref().unwrap().description, "empty");
    let schema = Schema { version: 3, block: Block::default() };
    let ps = schema.to_proto();
    assert_eq!(ps.version, 3);
    assert_eq!(ps.block.unwrap().version, 1);
}

#[test]
fn functions_in_the_protocol_form() {
    let mut f = FunctionSchema::default();
    f.parameters.push(Parameter {
        name: "p".to_string(),
        param_type: Type::List(Box::new(Type::Number)),
        allow_null: true,
        allow_unknown: false,
        description: Description::markdown("*p*"),
    });
    f.deprecated = Some(String::new());
    let p = f.to_proto();
    assert_eq!(p.parameters[0].param_type, b"[\"list\",\"number\"]".to_vec());
    assert_eq!(p.parameters[0].description_kind, 1);
    assert!(p.parameters[0].allow_null_value && !p.parameters[0].allow_unknown_values);
    assert_eq!(p.return_type, b"\"dynamic\"".to_vec());
    assert_eq!(p.deprecation_message, "deprecated");
    f.deprecated = Some("use g".to_string());
    assert_eq!(f.to_proto().deprecation_message, "use g");
    f.deprecated = None;
    assert_eq!(f.to_proto().deprecation_message, "");
    assert!(matches!(Description::plain("x").kind, StringKind::Plain));
}

#[test]
fn defaults_of_the_schema_types() {
    let b = Block::default();
    assert_eq!(b.version, 1);
    assert_eq!(b.description.content, "empty");
    let a = Attribute::default();
    assert!(matches!(a.attr_type, AttributeType::Any));
    assert!(matches!(a.constraint, AttributeConstraint::OptionalComputed));
}

#[test]
fn changes_are_classified_by_the_null_states() {
    let null = RawValue::default();
    let value = RawValue::Json(b"{}".to_vec());
    let mut diags = Diagnostics::default();
    assert!(matches!(classify_plan(&mut diags, &value, &value, &value), ChangeKind::Update));
    assert!(matches!(classify_plan(&mut diags, &null, &value, &value), ChangeKind::Create));
    assert!(matches!(classify_plan(&mut diags, &value, &null, &null), ChangeKind::Destroy));
    assert!(diags.errors.is_empty());
    assert!(matches!(classify_plan(&mut diags, &null, &null, &null), ChangeKind::Conflict));
    assert_eq!(diags.errors[0].summary, "Resource is planned both for creation and deletion");
    assert!(matches!(classify_apply(&mut diags, &value, &null, &value), ChangeKind::Conflict));
    assert_eq!(diags.errors[1].summary, "Resource is marked both for creation and deletion");
}

#[test]
fn raw_values() {
    assert!(RawValue::default().is_null());
    assert!(RawValue::Json(b"null".to_vec()).is_null());
    assert!(RawValue::MessagePack(vec![]).is_null());
    assert!(!RawValue::Json(b"1".to_vec()).is_null());
    let r = raw_from_dynamic(DynamicValue { msgpack: vec![], json: b"1".to_vec() });
    assert!(matches!(&r, RawValue::Json(j) if j == b"1"));
    let d = raw_to_dynamic(RawValue::MessagePack(vec![1, 2]));
    assert_eq!(d.msgpack, vec![1, 2]);
    assert!(d.json.is_empty());
}

#[test]
fn function_calls_report_their_first_diagnostic() {
    let mut diags = Diagnostics::default();
    diags.function_error(2, "bad");
    diags.root_error_short("second");
    let (result, error) = function_call_outcome(Some(RawValue::default()), &diags);
    assert!(result.is_none());
    let error = error.unwrap();
    assert_eq!(error.text, "bad");
    assert_eq!(error.function_argument, Some(2));
    let (result, error) = function_call_outcome(Some(RawValue::default()), &Diagnostics::default());
    assert!(result.is_some() && error.is_none());
}

#[test]
fn upgrades_and_names() {
    let mut diags = Diagnostics::default();
    assert!(matches!(upgrade_step(&mut diags, vec![], 1, 1), UpgradeStep::Legacy));
    assert_eq!(diags.errors[0].summary, "Upgrading from a legacy state is not supported");
    let mut diags = Diagnostics::default();
    assert!(matches!(upgrade_step(&mut diags, b"{}".to_vec(), 1, 1), UpgradeStep::Keep(_)));
    assert_eq!(registered_name("generic", "cmd"), "generic_cmd");
    let mut diags = Diagnostics::default();
    report_not_found(&mut diags, "Resource", "x");
    assert_eq!(diags.errors.len(), 1);
}

#[test]
fn port_ranges_give_each_port_once() {
    let mut r = PortRange::new(5, 3);
    assert_eq!(r.next(), Some(3));
    assert_eq!(r.next(), Some(4));
    assert_eq!(r.next(), Some(5));
    assert_eq!(r.next(), None);
    assert_eq!(r.next(), None);
    let mut empty = PortRange::new(0, 0);
    assert_eq!(empty.next(), None);
}

#[test]
fn decimal_texts() {
    assert_eq!(u64_to_decimal(0), "0");
    assert_eq!(u64_to_decimal(u64::MAX), "18446744073709551615");
    assert_eq!(i64_to_decimal(i64::MIN), "-9223372036854775808");
    assert_eq!(i32_to_decimal(-42), "-42");
}

#[test]
fn ssh_configuration() {
    let mut c = ConnectionSshConfig::default();
    let mut diags = Diagnostics::default();
    assert!(c.validate(&mut diags, AttributePath::new("connect").index(0)).is_none());
    assert_eq!(diags.errors[0].summary, "`hostname` cannot be null");
    assert_eq!(diags.errors[0].attribute.to_string(), "connect[0].host");
    c.host = Value::Value("example.org".to_string());
    let plan = c.plan().unwrap();
    assert_eq!(plan.host, "example.org");
    assert_eq!(plan.port, 22);
    assert_eq!(plan.user, "root");
    assert!(matches!(plan.auth, SshAuth::NoCredential));
    c.password = Value::Value("pw".to_string());
    assert!(matches!(c.plan().unwrap().auth, SshAuth::Password(p) if p == "pw"));
    c.key = Value::Value("KEY".to_string());
    c.keyfile = Value::Value("/k".to_string());
    assert_eq!(c.plan().unwrap_err(), "Both private key and private key file were given");
    assert_eq!(ConnectionSshConfig::schema().len(), 6);
    assert!(ConnectionLocalConfig::schema().is_empty());
    let script = ssh_script_text("ls", "/tmp", &vec![("A".to_string(), "1".to_string())]);
    assert!(script.contains("ls"));
}

#[test]
fn the_provider_registers_six_kinds() {
    let p = CmdProvider::default();
    let names: Vec<String> = p.get_resources().into_iter().map(|(n, _)| n).collect();
    assert_eq!(
        names,
        vec!["local_exec", "ssh_exec", "local_file", "ssh_file", "local_sensitive_file", "ssh_sensitive_file"]
    );
    let data = p.get_data_sources();
    assert_eq!(data[5].1, Registered::File { sensitive: true, connection: ConnectionKind::Ssh });
    assert_eq!(data[0].1, Registered::Exec(ConnectionKind::Local));
    let schema = p.schema();
    assert_eq!(schema.block.description.content, "cmd");
    assert!(schema.block.attributes.is_empty());
}

#[test]
fn defaults_of_providers_and_resources() {
    let meta = tf_provider::provider::default_meta_schema();
    assert_eq!(meta.version, 1);
    assert_eq!(meta.block.description.content, "empty");
    let mut diags = Diagnostics::default();
    let r: Option<u8> = tf_provider::provider::upgrade_unsupported(&mut diags);
    assert!(r.is_none());
    assert_eq!(diags.errors[0].summary, "Upgrade is not supported");
}

#[test]
fn ssh_script_feeds_everything_as_here_documents() {
    let script = ssh_script_text("echo hi", "/tmp", &vec![("A".to_string(), "1".to_string())]);
    let expected = String::new()
        + "newline='\n'\nread_stdin() {\nvalue=\nwhile IFS= read -r line; do\nvalue=\"$value$line$newline\"\ndone\nvalue=\"$value$line\"\n}\n"
        + "read_stdin << '__!@#$END_OF_WORKDIR$#@!__'\n/tmp"
        + "\n__!@#$END_OF_WORKDIR$#@!__\nvalue=\"${value%%?}\"\n[ -z \"$value\" ] || cd \"$value\"\n"
        + "read_stdin << '__!@#$END_OF_VARIABLE$#@!__'\n1\n__!@#$END_OF_VARIABLE$#@!__\nexport A=\"${value%%?}\"\n"
        + "exec /usr/bin/env bash << '__!@#$END_OF_SCRIPT$#@!__'\necho hi\n__!@#$END_OF_SCRIPT$#@!__\n";
    assert_eq!(script, expected);
}

fn step(state: ChannelState, event: ChannelEvent) -> ChannelState {
    match channel_step(state, event) {
        ChannelStep::Continue(s) => s,
        ChannelStep::Done(r) => panic!("the command should go on, it ended with {r:?}"),
    }
}

#[test]
fn the_ssh_channel_gathers_the_result_of_a_command() {
    let mut s = ChannelState { stdout: vec![], stderr: vec![], status: None };
    s = step(s, ChannelEvent::Data(b"hel".to_vec()));
    s = step(s, ChannelEvent::Data(b"lo".to_vec()));
    s = step(s, ChannelEvent::ExtendedData(b"warn".to_vec()));
    s = step(s, ChannelEvent::Other);
    s = step(s, ChannelEvent::ExitStatus(u32::MAX));
    assert_eq!(s.status, Some(-1));
    match channel_step(s, ChannelEvent::Closed) {
        ChannelStep::Done(Ok(res)) => {
            assert_eq!(res.status, -1);
            assert_eq!(res.stdout, "hello");
            assert_eq!(res.stderr, "warn");
        }
        other => panic!("unexpected {other:?}"),
    }
    let s = ChannelState { stdout: vec![], stderr: vec![], status: None };
    match channel_step(s, ChannelEvent::Closed) {
        ChannelStep::Done(Err(e)) => assert_eq!(e, "channel closed without exit code"),
        other => panic!("unexpected {other:?}"),
    }
    let s = ChannelState { stdout: vec![0xff], stderr: vec![], status: Some(0) };
    assert!(matches!(channel_step(s, ChannelEvent::Closed), ChannelStep::Done(Err(_))));
    let s = ChannelState { stdout: vec![], stderr: vec![], status: None };
    let signal = ChannelEvent::ExitSignal { signal_name: "KILL".to_string(), error_message: "killed".to_string() };
    match channel_step(s, signal) {
        ChannelStep::Done(Err(e)) => assert_eq!(e, "Exit signal received KILL: killed"),
        other => panic!("unexpected {other:?}"),
    }
}

#[test]
fn names_in_the_json_of_types_are_escaped() {
    let name = "q\"b\\t\tn\nc\u{1}\u{1f}é\u{7f}".to_string();
    assert_eq!(
        AttributeType::Object(vec![(name, AttributeType::Bool)]).to_string(),
        "[\"object\",{\"q\\\"b\\\\t\\tn\\nc\\u0001\\u001fé\u{7f}\":\"bool\"}]"
    );
}

#[test]
fn requests_find_the_last_registration_of_their_name() {
    let registry = CmdProvider {}.get_resources();
    let mut diags = Diagnostics::default();
    assert_eq!(find_registered(&mut diags, "cmd", &registry, "resource", "cmd_ssh_file"), Some(3));
    assert!(diags.errors.is_empty());
    let twice = vec![("a".to_string(), 1), ("a".to_string(), 2)];
    assert_eq!(find_registered(&mut diags, "p", &twice, "resource", "p_a"), Some(1));
    assert_eq!(find_registered(&mut diags, "cmd", &registry, "data source", "cmd_nothing"), None);
    assert_eq!(diags.errors[0].summary, "Could not find data source `cmd_nothing` in provider");
}

#[test]
fn planned_destroys_and_creates() {
    let d = planned_destroy();
    assert!(d.state.is_null());
    assert!(d.private_state.is_empty() && d.requires_replace.is_empty());
    let c = planned_create(Some((RawValue::Json(b"{}".to_vec()), vec![1]))).unwrap();
    assert_eq!(c.private_state, vec![1]);
    assert!(c.requires_replace.is_empty());
    assert!(planned_create(None).is_none());
}
