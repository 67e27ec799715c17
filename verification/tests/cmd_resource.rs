use tf_provider::cmd::ambiguity::ensure_unambiguous_updates;
use tf_provider::cmd::apply::{create_command, create_outcome, destroy_command, report_command_result, update_command};
use tf_provider::cmd::env::{prepare_envs, with_env};
use tf_provider::cmd::plan::{find_modified, find_update};
use tf_provider::cmd::read::{apply_read_result, plan_reads, start_read_all};
use tf_provider::cmd::state::{
    DataSourceState, ResourceState, StateCmd, StateRead, StateUpdate, StringMap,
};
use tf_provider::connection::{ConnectionLocalConfig, ConnectionSshConfig, ExecutionResult};
use tf_provider::diagnostics::{Diagnostic, Diagnostics};
use tf_provider::named_map::{NameSet, NamedMap};
use tf_provider::schema::{AttributeConstraint, AttributeType, NestedBlock};
use tf_provider::value::Value;

fn text(s: &str) -> Value<String> {
    Value::Value(s.to_string())
}

/// A map of strings, the names given in increasing order
fn string_map(entries: &[(&str, &str)]) -> StringMap {
    NamedMap { entries: entries.iter().map(|(k, v)| (k.to_string(), text(v))).collect() }
}

/// A set of names, given in increasing order
fn names(items: &[&str]) -> Value<NameSet> {
    Value::Value(NameSet { items: items.iter().map(|s| text(s)).collect() })
}

fn command(cmd: &str) -> StateCmd {
    StateCmd { cmd: text(cmd), dir: Value::Null, env: Value::Null }
}

fn update(cmd: &str, triggers: &[&str], reloads: &[&str]) -> Value<StateUpdate> {
    Value::Value(StateUpdate { cmd: command(cmd), triggers: names(triggers), reloads: names(reloads) })
}

fn read(cmd: &str) -> Value<StateRead> {
    Value::Value(StateRead { cmd: command(cmd), faillible: Value::Null, strip_trailing_newline: Value::Null })
}

fn state(
    inputs: &[(&str, &str)],
    reads: Vec<(String, Value<StateRead>)>,
    updates: Vec<Value<StateUpdate>>,
) -> ResourceState<ConnectionLocalConfig> {
    ResourceState {
        id: Value::Null,
        inputs: Value::Value(string_map(inputs)),
        state: Value::Null,
        read: Value::Value(NamedMap { entries: reads }),
        create: Value::Value(command("create")),
        destroy: Value::Value(command("destroy")),
        update: Value::Value(updates),
        connect: Value::Null,
        command_concurrency: Value::Null,
    }
}

fn detail_is(d: &Diagnostic, expected: &str) -> bool {
    d.detail == expected || d.detail.starts_with(&format!("{expected}\n"))
}

#[test]
fn modified_inputs_are_the_changed_added_and_removed_names() {
    let before = Value::Value(string_map(&[("a", "1"), ("b", "2"), ("c", "3")]));
    let after = Value::Value(string_map(&[("a", "1"), ("b", "x"), ("d", "4")]));
    let mut modified = find_modified(&before, &after);
    modified.sort();
    assert_eq!(modified, vec!["b".to_string(), "c".to_string(), "d".to_string()]);
    let mut reverse = find_modified(&after, &before);
    reverse.sort();
    assert_eq!(reverse, modified);
}

#[test]
fn nothing_is_modified_between_equal_inputs() {
    let inputs = Value::Value(string_map(&[("a", "1"), ("b", "2")]));
    assert!(find_modified(&inputs, &inputs).is_empty());
    let null: Value<StringMap> = Value::Null;
    assert!(find_modified(&null, &null).is_empty());
    let mut all = find_modified(&null, &inputs);
    all.sort();
    assert_eq!(all, vec!["a".to_string(), "b".to_string()]);
}

#[test]
fn the_update_with_the_fewest_covering_triggers_is_chosen() {
    let updates = Value::Value(vec![
        update("u0", &["a", "b", "c"], &[]),
        Value::Null,
        update("u1", &["a", "b"], &[]),
        update("u2", &["b"], &[]),
        update("u3", &["a", "c"], &[]),
    ]);
    let (pos, path) = find_update(&updates, &vec!["a".to_string()]).unwrap();
    assert_eq!(pos, 2);
    assert_eq!(path.to_string(), "update[1]");
    let (pos, path) = find_update(&updates, &vec!["b".to_string()]).unwrap();
    assert_eq!(pos, 3);
    assert_eq!(path.to_string(), "update[2]");
    let (pos, _) = find_update(&updates, &vec!["a".to_string(), "b".to_string(), "c".to_string()]).unwrap();
    assert_eq!(pos, 0);
    assert!(find_update(&updates, &vec!["z".to_string()]).is_none());
}

#[test]
fn an_update_without_triggers_handles_any_change() {
    let updates = Value::Value(vec![update("u0", &["a"], &[]), update("any", &[], &[])]);
    let (pos, _) = find_update(&updates, &vec!["z".to_string()]).unwrap();
    assert_eq!(pos, 1);
    let (pos, _) = find_update(&updates, &vec!["a".to_string()]).unwrap();
    assert_eq!(pos, 0);
    let none: Value<Vec<Value<StateUpdate>>> = Value::Null;
    assert!(find_update(&none, &vec!["a".to_string()]).is_none());
}

#[test]
fn duplicate_triggers_are_reported() {
    let mut diags = Diagnostics::default();
    let updates = vec![update("u0", &["a", "b"], &[]), Value::Null, update("u1", &["a", "b"], &[])];
    ensure_unambiguous_updates(&mut diags, &updates);
    assert_eq!(diags.errors.len(), 1);
    assert_eq!(diags.errors[0].summary, "Duplicate `update`");
    assert!(detail_is(&diags.errors[0], "There is multiple `update` blocks that are triggered by [a,b]."));
    assert_eq!(diags.errors[0].attribute.to_string(), "update[1].triggers");
}

#[test]
fn overlapping_triggers_without_a_common_block_are_ambiguous() {
    let mut diags = Diagnostics::default();
    let updates = vec![update("u0", &["a", "b"], &[]), update("u1", &["b", "c"], &[])];
    ensure_unambiguous_updates(&mut diags, &updates);
    assert_eq!(diags.errors.len(), 1);
    assert_eq!(diags.errors[0].summary, "`update` ambiguity");
    assert!(detail_is(
        &diags.errors[0],
        "The update of [b] is ambiguous and would trigger the following `update` blocks: [a,b], [b,c].\nYou can disambiguate the update by adding a new `update` block with `triggers = [b]`"
    ));
    assert_eq!(diags.errors[0].attribute.to_string(), "");
}

#[test]
fn a_block_for_the_common_triggers_removes_the_ambiguity() {
    let mut diags = Diagnostics::default();
    let updates = vec![
        update("u0", &["a", "b"], &[]),
        update("u1", &["b", "c"], &[]),
        update("u2", &["b"], &[]),
    ];
    ensure_unambiguous_updates(&mut diags, &updates);
    assert!(diags.errors.is_empty());
}

#[test]
fn nested_triggers_are_not_ambiguous() {
    let mut diags = Diagnostics::default();
    let updates = vec![update("u0", &["a"], &[]), update("u1", &["a", "b"], &[]), update("u2", &[], &[])];
    ensure_unambiguous_updates(&mut diags, &updates);
    assert!(diags.errors.is_empty());
    assert!(diags.warnings.is_empty());
}

#[test]
fn ambiguities_are_reported_in_order_of_their_triggers() {
    let mut diags = Diagnostics::default();
    let updates = vec![
        update("u0", &["b", "c"], &[]),
        update("u1", &["c", "d"], &[]),
        update("u2", &["a", "b"], &[]),
    ];
    ensure_unambiguous_updates(&mut diags, &updates);
    assert_eq!(diags.errors.len(), 2);
    assert!(diags.errors[0].detail.starts_with("The update of [b] is ambiguous and would trigger the following `update` blocks: [a,b], [b,c]."));
    assert!(diags.errors[1].detail.starts_with("The update of [c] is ambiguous and would trigger the following `update` blocks: [b,c], [c,d]."));
}

#[test]
fn validation_reports_each_section() {
    let mut s = state(
        &[("a", "1")],
        vec![("empty".to_string(), read("")), ("out".to_string(), read("cat out"))],
        vec![update("u0", &["a"], &["missing", "out"])],
    );
    s.destroy = Value::Value(StateCmd { cmd: Value::Null, dir: Value::Null, env: Value::Null });
    let mut diags = Diagnostics::default();
    assert!(s.validate(&mut diags).is_none());
    let summaries: Vec<&str> = diags.errors.iter().map(|d| d.summary.as_str()).collect();
    assert_eq!(summaries, vec!["`cmd` cannot be null", "`cmd` cannot be empty", "`update.reloads` is invalid"]);
    assert_eq!(diags.errors[0].attribute.to_string(), "destroy[0].cmd");
    assert_eq!(diags.errors[1].attribute.to_string(), "read[\"empty\"].cmd");
    assert_eq!(diags.errors[2].attribute.to_string(), "update[0].reloads[\"missing\"]");
    assert!(detail_is(
        &diags.errors[2],
        "The `update` block requires to reload `missing`, but there is no `read` block with this name."
    ));
}

#[test]
fn a_valid_state_passes_validation() {
    let s = state(&[("a", "1")], vec![("out".to_string(), read("cat out"))], vec![update("u0", &["a"], &["out"])]);
    let mut diags = Diagnostics::default();
    assert!(s.validate(&mut diags).is_some());
    assert!(diags.errors.is_empty());
}

#[test]
fn unknown_blocks_are_errors_and_unknown_commands_warnings() {
    let mut s = state(&[], vec![], vec![]);
    s.read = Value::Unknown;
    s.update = Value::Unknown;
    s.create = Value::Value(StateCmd { cmd: Value::Unknown, dir: Value::Null, env: Value::Null });
    let mut diags = Diagnostics::default();
    assert!(s.validate(&mut diags).is_none());
    assert_eq!(diags.errors.len(), 2);
    assert_eq!(diags.errors[0].summary, "`read` blocks are unknown during plan.");
    assert_eq!(diags.errors[1].summary, "`update` blocks are unknown during plan.");
    assert_eq!(diags.warnings.len(), 1);
    assert_eq!(diags.warnings[0].summary, "`cmd` is not known during planning");
    assert_eq!(diags.warnings[0].attribute.to_string(), "create[0].cmd");
}

#[test]
fn update_elements_are_checked() {
    let u = StateUpdate {
        cmd: command("x"),
        triggers: Value::Value(NameSet { items: vec![text(""), Value::Null] }),
        reloads: Value::Unknown,
    };
    let mut diags = Diagnostics::default();
    u.validate(&mut diags, tf_provider::attribute_path::AttributePath::new("update").index(0));
    let summaries: Vec<&str> = diags.errors.iter().map(|d| d.summary.as_str()).collect();
    assert_eq!(
        summaries,
        vec![
            "Element of `update.triggers` is empty",
            "Element of `update.triggers` is null",
            "`update.reloads` is not known during planning",
        ]
    );
    assert_eq!(diags.errors[0].attribute.to_string(), "update[0].triggers[\"\"]");
    assert_eq!(diags.errors[2].attribute.to_string(), "update[0].reloads");
}

#[test]
fn environments_are_prefixed_and_skip_unknown_values() {
    let inputs = Value::Value(NamedMap {
        entries: vec![("a".to_string(), text("1")), ("b".to_string(), Value::Unknown)],
    });
    let st = Value::Value(string_map(&[("x", "9")]));
    let env = prepare_envs(&[(&inputs, "INPUT_"), (&st, "STATE_")]);
    assert_eq!(
        env,
        vec![("INPUT_a".to_string(), "1".to_string()), ("STATE_x".to_string(), "9".to_string())]
    );
    let extra = Value::Value(string_map(&[("E", "e")]));
    let all = with_env(&env, &extra);
    assert_eq!(all.len(), 3);
    assert_eq!(all[2], ("E".to_string(), "e".to_string()));
}

#[test]
fn reads_are_planned_for_unknown_outputs() {
    let outputs = NamedMap {
        entries: vec![
            ("a".to_string(), Value::Unknown),
            ("b".to_string(), text("kept")),
            ("c".to_string(), Value::Unknown),
        ],
    };
    let reads = Value::Value(NamedMap { entries: vec![("a".to_string(), read("cat a"))] });
    let mut diags = Diagnostics::default();
    let tasks = plan_reads(&mut diags, &outputs, &reads, &vec![]);
    assert_eq!(tasks.len(), 1);
    assert_eq!(tasks[0].output, 0);
    assert_eq!(tasks[0].cmd, "cat a");
    assert!(tasks[0].strip_trailing_newline);
    assert_eq!(diags.errors.len(), 1);
    assert_eq!(diags.errors[0].summary, "Unknown output has no `read` block associated");
    assert_eq!(diags.errors[0].attribute.to_string(), "state[\"c\"]");
}

#[test]
fn read_results_fill_the_outputs() {
    let mut outputs = NamedMap { entries: vec![("a".to_string(), Value::Unknown)] };
    let reads = Value::Value(NamedMap { entries: vec![("a".to_string(), read("cat a"))] });
    let mut diags = Diagnostics::default();
    let tasks = plan_reads(&mut diags, &outputs, &reads, &vec![]);
    let ok = ExecutionResult { status: 0, stdout: "value\n".to_string(), stderr: "careful".to_string() };
    apply_read_result(&mut diags, &mut outputs, &tasks[0], Ok(ok));
    assert_eq!(outputs.entries[0].1, text("value"));
    assert_eq!(diags.warnings.len(), 1);
    assert_eq!(diags.warnings[0].summary, "`read` succeeded but stderr was not empty");
    assert_eq!(diags.warnings[0].attribute.to_string(), "read[\"a\"].cmd");

    let mut outputs = NamedMap { entries: vec![("a".to_string(), Value::Unknown)] };
    let mut diags = Diagnostics::default();
    let failed = ExecutionResult { status: 2, stdout: String::new(), stderr: "boom".to_string() };
    apply_read_result(&mut diags, &mut outputs, &tasks[0], Ok(failed));
    assert_eq!(outputs.entries[0].1, Value::Unknown);
    assert_eq!(diags.warnings[0].summary, "`read` failed with status code: 2");
    assert!(detail_is(&diags.warnings[0], "boom"));

    let mut diags = Diagnostics::default();
    apply_read_result(&mut diags, &mut outputs, &tasks[0], Err("no shell".to_string()));
    assert_eq!(diags.warnings[0].summary, "Failed to read resource state");
}

#[test]
fn plan_update_keeps_outputs_and_asks_for_replacement() {
    let mut prior = state(&[("a", "1"), ("b", "2")], vec![("out".to_string(), read("cat out"))], vec![update("u", &["a"], &["out"])]);
    prior.state = Value::Value(string_map(&[("out", "old")]));
    prior.id = text("id");

    // inputs unchanged: the output keeps its value
    let same = state(&[("a", "1"), ("b", "2")], vec![("out".to_string(), read("cat out"))], vec![update("u", &["a"], &["out"])]);
    let (planned, replace) = ResourceState::plan_update(&prior, same);
    assert!(replace.is_empty());
    match &planned.state {
        Value::Value(m) => assert_eq!(m.entries[0].1, text("old")),
        _ => panic!("state should be known"),
    }

    // `a` changed: the update reloads `out`, which becomes unknown
    let changed_a = state(&[("a", "9"), ("b", "2")], vec![("out".to_string(), read("cat out"))], vec![update("u", &["a"], &["out"])]);
    let (planned, replace) = ResourceState::plan_update(&prior, changed_a);
    assert!(replace.is_empty());
    match &planned.state {
        Value::Value(m) => assert_eq!(m.entries[0].1, Value::Unknown),
        _ => panic!("state should be known"),
    }

    // `b` changed and no update handles it: the resource is replaced
    let changed_b = state(&[("a", "1"), ("b", "8")], vec![("out".to_string(), read("cat out"))], vec![update("u", &["a"], &["out"])]);
    let (_, replace) = ResourceState::plan_update(&prior, changed_b);
    assert_eq!(replace.len(), 1);
    assert_eq!(replace[0].to_string(), "inputs[\"b\"]");
}

#[test]
fn normalize_fills_the_missing_values_once() {
    let mut s = state(&[], vec![("out".to_string(), read("cat out"))], vec![]);
    s.inputs = Value::Null;
    s.state = Value::Unknown;
    s.normalize();
    assert!(s.id.is_unknown());
    assert!(matches!(&s.inputs, Value::Value(m) if m.entries.is_empty()));
    match &s.state {
        Value::Value(m) => {
            assert_eq!(m.entries.len(), 1);
            assert_eq!(m.entries[0].0, "out");
            assert!(m.entries[0].1.is_unknown());
        }
        _ => panic!("state should be known"),
    }
    s.normalize();
    assert!(s.id.is_unknown());
    assert!(matches!(&s.state, Value::Value(m) if m.entries.len() == 1));
}

#[test]
fn resource_schema_lists_the_blocks() {
    let schema = ResourceState::<()>::schema(vec![]);
    assert_eq!(schema.version, 1);
    let names: Vec<&str> = schema.block.attributes.iter().map(|(n, _)| n.as_str()).collect();
    assert_eq!(names, vec!["id", "inputs", "state", "command_concurrency"]);
    let blocks: Vec<&str> = schema.block.blocks.iter().map(|(n, _)| n.as_str()).collect();
    assert_eq!(blocks, vec!["read", "create", "destroy", "update", "connect"]);
    assert!(matches!(schema.block.attributes[0].1.constraint, AttributeConstraint::Computed));
    assert!(matches!(&schema.block.blocks[3].1, NestedBlock::SetOf(b) if b.attributes.len() == 5));
    let ds = DataSourceState::<()>::schema(vec![]);
    assert_eq!(ds.block.attributes.len(), 3);
    assert!(matches!(&ds.block.attributes[1].1.attr_type, AttributeType::MapOf(t) if matches!(**t, AttributeType::String)));
}

#[test]
fn commands_to_create_and_destroy() {
    let mut s = state(&[("a", "1")], vec![], vec![]);
    s.state = Value::Value(string_map(&[("o", "x")]));
    let run = create_command(&s).unwrap();
    assert_eq!(run.cmd, "create");
    assert_eq!(run.env, vec![("INPUT_a".to_string(), "1".to_string())]);
    assert_eq!(run.path.to_string(), "create[0].cmd");
    let run = destroy_command(&s).unwrap();
    assert_eq!(run.cmd, "destroy");
    assert_eq!(
        run.env,
        vec![("INPUT_a".to_string(), "1".to_string()), ("STATE_o".to_string(), "x".to_string())]
    );
    s.create = Value::Value(command(""));
    assert!(create_command(&s).is_none());
    s.destroy = Value::Null;
    assert!(destroy_command(&s).is_none());
}

#[test]
fn command_to_update() {
    let mut prior = state(&[("a", "1"), ("b", "2")], vec![], vec![]);
    prior.state = Value::Value(string_map(&[("o", "x")]));
    let planned = state(
        &[("a", "9"), ("b", "2")],
        vec![],
        vec![update("u_b", &["b"], &[]), update("u_a", &["a"], &[])],
    );
    let mut diags = Diagnostics::default();
    let run = update_command(&mut diags, &prior, &planned).unwrap().unwrap();
    assert_eq!(run.cmd, "u_a");
    assert_eq!(run.path.to_string(), "update[1].cmd");
    assert_eq!(
        run.env,
        vec![
            ("INPUT_a".to_string(), "9".to_string()),
            ("INPUT_b".to_string(), "2".to_string()),
            ("PREVIOUS_a".to_string(), "1".to_string()),
            ("PREVIOUS_b".to_string(), "2".to_string()),
            ("STATE_o".to_string(), "x".to_string()),
        ]
    );
    let empty = state(&[("a", "9"), ("b", "2")], vec![], vec![update("", &["a"], &[])]);
    assert!(update_command(&mut diags, &prior, &empty).is_err());
    assert_eq!(diags.errors[0].summary, "`update` cmd should not be null or empty");
    assert_eq!(diags.errors[0].attribute.to_string(), "update[0].cmd");
    let none = state(&[("a", "9"), ("b", "2")], vec![], vec![update("u_b", &["b"], &[])]);
    assert!(update_command(&mut diags, &prior, &none).unwrap().is_none());
}

#[test]
fn results_of_commands() {
    let path = tf_provider::attribute_path::AttributePath::new("create").index(0).attribute("cmd");
    let mut diags = Diagnostics::default();
    let res = ExecutionResult { status: 0, stdout: "out".to_string(), stderr: "err".to_string() };
    report_command_result(&mut diags, "create", "Failed to create resource", &path, Ok(res));
    assert!(diags.errors.is_empty());
    assert_eq!(diags.warnings.len(), 2);
    assert_eq!(diags.warnings[0].summary, "`create` stdout was not empty");
    assert_eq!(diags.warnings[1].summary, "`create` succeeded but stderr was not empty");
    let mut diags = Diagnostics::default();
    let res = ExecutionResult { status: 3, stdout: String::new(), stderr: "bad".to_string() };
    report_command_result(&mut diags, "update", "Failed to update resource", &path, Ok(res));
    assert_eq!(diags.errors[0].summary, "`update` failed with status code: 3");
    assert!(detail_is(&diags.errors[0], "bad"));
    let mut diags = Diagnostics::default();
    report_command_result(&mut diags, "destroy", "Failed to destroy resource", &path, Err("no shell".to_string()));
    assert_eq!(diags.errors[0].summary, "Failed to destroy resource");
    assert_eq!(diags.errors[0].attribute.to_string(), "create[0].cmd");
}

#[test]
fn identifiers_of_resources() {
    let mut s = state(&[], vec![], vec![]);
    s.id = text("kept");
    s.assign_id(false);
    assert_eq!(s.id, text("kept"));
    s.assign_id(true);
    assert!(matches!(&s.id, Value::Value(i) if i.len() == 30 && i != "kept"));
}

#[test]
fn the_planned_update_is_the_one_run() {
    let mut prior = state(&[("a", "1")], vec![("out".to_string(), read("cat out"))], vec![]);
    prior.state = Value::Value(string_map(&[("out", "old")]));
    let updates = || vec![update("reload", &["a"], &["out"]), update("other", &["a", "b"], &[])];
    let proposed = state(&[("a", "2")], vec![("out".to_string(), read("cat out"))], updates());
    let (planned, replace) = ResourceState::plan_update(&prior, proposed);
    assert!(replace.is_empty());
    assert!(matches!(&planned.state, Value::Value(m) if m.entries[0].1.is_unknown()));
    let mut diags = Diagnostics::default();
    let run = update_command(&mut diags, &prior, &planned).unwrap().unwrap();
    assert_eq!(run.cmd, "reload");
}

#[test]
fn the_chosen_update_does_not_depend_on_the_order_of_the_blocks() {
    let a = vec!["a".to_string()];
    let first = Value::Value(vec![update("any", &[], &[]), update("on_a", &["a"], &[])]);
    let (pos, _) = find_update(&first, &a).unwrap();
    assert_eq!(pos, 1);
    let second = Value::Value(vec![update("on_a", &["a"], &[]), update("any", &[], &[])]);
    let (pos, _) = find_update(&second, &a).unwrap();
    assert_eq!(pos, 0);
    let ab = vec!["a".to_string()];
    let third = Value::Value(vec![update("ac", &["a", "c"], &[]), update("ab", &["a", "b"], &[])]);
    let (pos, _) = find_update(&third, &ab).unwrap();
    assert_eq!(pos, 1);
}

#[test]
fn an_empty_read_output_gives_an_empty_value() {
    let mut outputs = NamedMap { entries: vec![("x".to_string(), Value::Unknown)] };
    let reads = Value::Value(NamedMap { entries: vec![("x".to_string(), read("true"))] });
    let mut diags = Diagnostics::default();
    let tasks = plan_reads(&mut diags, &outputs, &reads, &vec![]);
    assert!(tasks[0].strip_trailing_newline);
    let ok = ExecutionResult { status: 0, stdout: String::new(), stderr: String::new() };
    apply_read_result(&mut diags, &mut outputs, &tasks[0], Ok(ok));
    assert_eq!(outputs.entries[0].1, text(""));
    assert!(diags.errors.is_empty() && diags.warnings.is_empty());
}

#[test]
fn reading_fails_without_known_outputs() {
    let reads = Value::Value(NamedMap { entries: vec![("x".to_string(), read("true"))] });
    let mut diags = Diagnostics::default();
    assert!(start_read_all(&mut diags, &Value::Null, &reads, &vec![]).is_none());
    assert!(start_read_all(&mut diags, &Value::Unknown, &reads, &vec![]).is_none());
    assert!(diags.errors.is_empty());
    let outputs = Value::Value(NamedMap { entries: vec![("x".to_string(), Value::Unknown)] });
    let tasks = start_read_all(&mut diags, &outputs, &reads, &vec![]).unwrap();
    assert_eq!(tasks.len(), 1);
}

#[test]
fn a_create_goes_on_only_without_errors() {
    let mut diags = Diagnostics::default();
    assert!(create_outcome(&diags).is_some());
    diags.warning("careful", "", tf_provider::attribute_path::AttributePath::new("create"));
    assert!(create_outcome(&diags).is_some());
    report_command_result(
        &mut diags,
        "create",
        "Failed to create resource",
        &tf_provider::attribute_path::AttributePath::new("create").index(0).attribute("cmd"),
        Err("no shell".to_string()),
    );
    assert!(create_outcome(&diags).is_none());
}

#[test]
fn the_connection_of_a_command_resource_is_validated_first() {
    let s = ResourceState {
        id: Value::Null,
        inputs: Value::Null,
        state: Value::Null,
        read: Value::Null,
        create: Value::Value(command("create")),
        destroy: Value::Value(command("destroy")),
        update: Value::Null,
        connect: Value::Value(ConnectionSshConfig::default()),
        command_concurrency: Value::Null,
    };
    let mut diags = Diagnostics::default();
    assert!(s.validate(&mut diags).is_none());
    assert_eq!(diags.errors[0].summary, "`hostname` cannot be null");
    assert_eq!(diags.errors[0].attribute.to_string(), "connect[0].host");
}
