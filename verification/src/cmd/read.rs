//! Reading the outputs of the command resources and data sources: which `read` commands to
//! run, and what their results give.

use vstd::prelude::*;

use super::env::{env_view, known_variables, with_env};
use super::state::{reads_wf, value_map_wf, StateRead, StringMap};
use crate::attribute_path::{AttributePath, StepView};
use crate::connection::ExecutionResult;
use crate::diagnostics::{
    error_report, lemma_reported_chain, lemma_reported_error, lemma_reported_none,
    lemma_reported_warning, one_more_warning, reported, warning_report, Diagnostics, Report,
};
use crate::named_map::NamedMap;
use crate::text::{decimal, i32_to_decimal};
use crate::value::{value_str_view, Value};

verus! {

/// A `read` command to run to give a value to an unknown output
#[derive(Debug)]
pub struct ReadTask {
    /// Position of the output in the map of outputs
    pub output: usize,
    /// Name of the output (and of its `read` block)
    pub name: String,
    /// Command to run
    pub cmd: String,
    /// Working directory of the command (empty for the current one)
    pub dir: String,
    /// Variables of the command: the base ones, then those of the `read` block
    pub env: Vec<(String, String)>,
    /// Whether a trailing newline is removed from what the command prints
    pub strip_trailing_newline: bool,
}

/// The `read` block named `name`, when it is known
pub open spec fn read_block(reads: Value<NamedMap<Value<StateRead>>>, name: Seq<char>) -> Option<StateRead> {
    match reads {
        Value::Value(m) => if m.has_key(name) {
            match m.get_spec(name) {
                Value::Value(r) => Some(r),
                _ => None,
            }
        } else {
            None
        },
        _ => None,
    }
}

/// The error reported for an unknown output without a known `read` block
pub open spec fn missing_read_report(name: Seq<char>) -> Report {
    error_report(
        "Unknown output has no `read` block associated"@,
        "The output `state."@ + name + "` is unknown, and there is no known `read[\""@ + name
            + "\"]` block to give it a value."@,
        seq![StepView::Attribute("state"@), StepView::Key(name)],
    )
}

/// What planning the reads reports for the first `n` outputs: an error for each unknown output
/// that has no known `read` block
pub open spec fn missing_reads(outputs: StringMap, reads: Value<NamedMap<Value<StateRead>>>, n: int) -> Seq<
    Report,
>
    decreases n,
{
    if n <= 0 {
        Seq::empty()
    } else {
        missing_reads(outputs, reads, n - 1) + if outputs.value_at(n - 1) is Unknown && read_block(
            reads,
            outputs.key_at(n - 1),
        ) is None {
            seq![missing_read_report(outputs.key_at(n - 1))]
        } else {
            Seq::empty()
        }
    }
}

/// The task of `read` block `r` for the output at position `i` named `name`
pub open spec fn task_matches(
    t: ReadTask,
    i: int,
    name: Seq<char>,
    r: StateRead,
    base_env: Seq<(Seq<char>, Seq<char>)>,
) -> bool {
    &&& t.output == i
    &&& t.name@ == name
    &&& t.cmd@ == value_str_view(r.cmd.cmd)
    &&& t.dir@ == value_str_view(r.cmd.dir)
    &&& env_view(t.env@) == base_env + known_variables(r.cmd.env, Seq::empty())
    &&& t.strip_trailing_newline == match r.strip_trailing_newline {
        Value::Value(b) => b,
        _ => true,
    }
}

/// The `read` commands to run for `outputs`: each task is that of the known `read` block of an
/// unknown output, in the order of the outputs, and every unknown output with a known `read`
/// block has its task
pub open spec fn planned_reads(
    tasks: Seq<ReadTask>,
    outputs: StringMap,
    reads: Value<NamedMap<Value<StateRead>>>,
    base_env: Seq<(Seq<char>, Seq<char>)>,
) -> bool {
    &&& forall|j: int|
        0 <= j < tasks.len() ==> {
            let i = (#[trigger] tasks[j]).output as int;
            &&& 0 <= i < outputs.size()
            &&& outputs.value_at(i) is Unknown
            &&& read_block(reads, outputs.key_at(i)) matches Some(rb) && task_matches(
                tasks[j],
                i,
                outputs.key_at(i),
                rb,
                base_env,
            )
        }
    &&& forall|j1: int, j2: int|
        0 <= j1 < j2 < tasks.len() ==> (#[trigger] tasks[j1]).output < (#[trigger] tasks[j2]).output
    &&& forall|i: int|
        0 <= i < outputs.size() && outputs.value_at(i) is Unknown && read_block(
            reads,
            outputs.key_at(i),
        ) is Some ==> exists|j: int| 0 <= j < tasks.len() && (#[trigger] tasks[j]).output == i
}

/// Choose the `read` commands to run: one for each unknown output that has a known `read` block
/// of the same name, in the order of the outputs. An unknown output without a known `read`
/// block is an error. Known outputs are left as they are.
pub fn plan_reads(
    diags: &mut Diagnostics,
    outputs: &StringMap,
    reads: &Value<NamedMap<Value<StateRead>>>,
    base_env: &Vec<(String, String)>,
) -> (r: Vec<ReadTask>)
    requires
        outputs.wf(),
        reads_wf(*reads),
    ensures
        reported(old(diags)@, final(diags)@, missing_reads(*outputs, *reads, outputs.size())),
        planned_reads(r@, *outputs, *reads, env_view(base_env@)),
{
    let ghost start = diags@;
    proof {
        lemma_reported_none(start);
    }
    let mut tasks: Vec<ReadTask> = Vec::new();
    let n = outputs.entries.len();
    for i in 0..n
        invariant
            n == outputs.size(),
            outputs.wf(),
            reads_wf(*reads),
            reported(start, diags@, missing_reads(*outputs, *reads, i as int)),
            forall|j: int|
                0 <= j < tasks@.len() ==> {
                    let ii = (#[trigger] tasks@[j]).output as int;
                    &&& 0 <= ii < i
                    &&& outputs.value_at(ii) is Unknown
                    &&& read_block(*reads, outputs.key_at(ii)) matches Some(rb) && task_matches(
                        tasks@[j],
                        ii,
                        outputs.key_at(ii),
                        rb,
                        env_view(base_env@),
                    )
                },
            forall|j1: int, j2: int|
                0 <= j1 < j2 < tasks@.len() ==> (#[trigger] tasks@[j1]).output < (
                #[trigger] tasks@[j2]).output,
            forall|ii: int|
                0 <= ii < i && outputs.value_at(ii) is Unknown && read_block(
                    *reads,
                    outputs.key_at(ii),
                ) is Some ==> exists|j: int| 0 <= j < tasks@.len() && (#[trigger] tasks@[j]).output == ii,
    {
        let (name, value) = &outputs.entries[i];
        let ghost mid = diags@;
        let ghost before = tasks@;
        if value.is_unknown() {
            let found = match reads {
                Value::Value(m) => match m.get(name.as_str()) {
                    Some(Value::Value(read)) => Some(read),
                    _ => None,
                },
                _ => None,
            };
            match found {
                Some(read) => {
                    proof {
                        let m = reads->Value_0;
                        let k = m.index_of(name@);
                        assert(m.entries@[k].0@ == name@);
                        assert(m.value_at(k) matches Value::Value(x) ==> x.wf());
                    }
                    let task = ReadTask {
                        output: i,
                        name: name.clone(),
                        cmd: read.cmd.cmd().to_owned(),
                        dir: read.cmd.dir().to_owned(),
                        env: with_env(base_env, &read.cmd.env),
                        strip_trailing_newline: read.strip_trailing_newline(),
                    };
                    tasks.push(task);
                    proof {
                        lemma_reported_none(mid);
                        assert forall|ii: int|
                            0 <= ii < i + 1 && outputs.value_at(ii) is Unknown && read_block(
                                *reads,
                                outputs.key_at(ii),
                            ) is Some implies exists|j: int|
                            0 <= j < tasks@.len() && (#[trigger] tasks@[j]).output == ii by {
                            if ii < i {
                                let j = choose|j: int| 0 <= j < before.len() && (#[trigger] before[j]).output == ii;
                                assert(tasks@[j] == before[j]);
                            } else {
                                assert(tasks@[tasks@.len() - 1].output == ii);
                            }
                        }
                    }
                },
                None => {
                    let message = String::from_str("The output `state.").concat(name.as_str()).concat(
                        "` is unknown, and there is no known `read[\"",
                    ).concat(name.as_str()).concat("\"]` block to give it a value.");
                    let path = AttributePath::new("state").key(name.as_str());
                    assert(path@ =~= missing_read_report(name@).path);
                    diags.error(
                        "Unknown output has no `read` block associated",
                        message.as_str(),
                        path,
                    );
                    proof {
                        lemma_reported_error(
                            mid,
                            diags@,
                            missing_read_report(name@).summary,
                            missing_read_report(name@).detail,
                            missing_read_report(name@).path,
                        );
                        assert(seq![error_report(missing_read_report(name@).summary, missing_read_report(name@).detail, missing_read_report(name@).path)] == seq![missing_read_report(name@)]);
                        assert forall|ii: int|
                            0 <= ii < i + 1 && outputs.value_at(ii) is Unknown && read_block(
                                *reads,
                                outputs.key_at(ii),
                            ) is Some implies exists|j: int|
                            0 <= j < tasks@.len() && (#[trigger] tasks@[j]).output == ii by {
                            if ii == i {
                                assert(outputs.key_at(ii) == name@);
                            }
                        }
                    }
                },
            }
        } else {
            proof {
                lemma_reported_none(mid);
            }
        }
        proof {
            assert(outputs.key_at(i as int) == name@);
            lemma_reported_chain(
                start,
                mid,
                diags@,
                missing_reads(*outputs, *reads, i as int),
                if outputs.value_at(i as int) is Unknown && read_block(*reads, outputs.key_at(i as int)) is None {
                    seq![missing_read_report(outputs.key_at(i as int))]
                } else {
                    Seq::<Report>::empty()
                },
            );
        }
    }
    tasks
}

/// The path of the command of the `read` block named `name`: `read["name"].cmd`
pub open spec fn read_cmd_path(name: Seq<char>) -> Seq<StepView> {
    seq![StepView::Attribute("read"@), StepView::Key(name), StepView::Attribute("cmd"@)]
}

/// Start reading the outputs: with known outputs, the `read` commands to run (see
/// [`plan_reads`]); with null or unknown outputs there is nothing to read and the reading
/// fails (`None`), with nothing reported
pub fn start_read_all(
    diags: &mut Diagnostics,
    outputs: &Value<StringMap>,
    reads: &Value<NamedMap<Value<StateRead>>>,
    base_env: &Vec<(String, String)>,
) -> (r: Option<Vec<ReadTask>>)
    requires
        value_map_wf(*outputs),
        reads_wf(*reads),
    ensures
        match *outputs {
            Value::Value(o) => r matches Some(tasks) && reported(
                old(diags)@,
                final(diags)@,
                missing_reads(o, *reads, o.size()),
            ) && planned_reads(tasks@, o, *reads, env_view(base_env@)),
            _ => r is None && final(diags)@ == old(diags)@,
        },
{
    match outputs {
        Value::Value(o) => Some(plan_reads(diags, o, reads, base_env)),
        _ => None,
    }
}

/// What a `read` command printed, once the trailing newline is removed when asked to
pub open spec fn read_output(stdout: Seq<char>, strip: bool) -> Seq<char> {
    if strip && stdout.len() > 0 && stdout.last() == '\n' {
        stdout.drop_last()
    } else {
        stdout
    }
}

/// What the result of a `read` command reports
pub open spec fn read_result_reports(name: Seq<char>, result: Result<ExecutionResult, String>) -> Seq<Report> {
    match result {
        Ok(res) => if res.status == 0 {
            if res.stderr@.len() > 0 {
                seq![
                    warning_report(
                        "`read` succeeded but stderr was not empty"@,
                        res.stderr@,
                        read_cmd_path(name),
                    ),
                ]
            } else {
                Seq::empty()
            }
        } else {
            seq![
                warning_report(
                    "`read` failed with status code: "@ + decimal(res.status as int),
                    res.stderr@,
                    read_cmd_path(name),
                ),
            ]
        },
        Err(err) => seq![warning_report("Failed to read resource state"@, err@, read_cmd_path(name))],
    }
}

/// Take the result of the `read` command of `task`: on success, the output gets what the
/// command printed (without its trailing newline when asked to), and a non empty standard
/// error is a warning; a failure or a non-zero status is a warning and leaves the output
/// unknown. An empty output gives an empty value.
pub fn apply_read_result(
    diags: &mut Diagnostics,
    outputs: &mut StringMap,
    task: &ReadTask,
    result: Result<ExecutionResult, String>,
)
    requires
        old(outputs).wf(),
        task.output < old(outputs).size(),
    ensures
        final(outputs).wf(),
        final(outputs).size() == old(outputs).size(),
        forall|i: int| 0 <= i < old(outputs).size() ==> #[trigger] final(outputs).key_at(i) == old(outputs).key_at(i),
        forall|i: int|
            0 <= i < old(outputs).size() && i != task.output ==> #[trigger] final(outputs).value_at(i)
                == old(outputs).value_at(i),
        match result {
            Ok(res) if res.status == 0 => final(outputs).value_at(task.output as int) matches Value::Value(s)
                && s@ == read_output(res.stdout@, task.strip_trailing_newline),
            _ => final(outputs).value_at(task.output as int) == old(outputs).value_at(task.output as int),
        },
        reported(old(diags)@, final(diags)@, read_result_reports(task.name@, result)),
{
    let ghost start = diags@;
    let ghost res_view = result;
    let path = AttributePath::new("read").key(task.name.as_str()).attribute("cmd");
    assert(path@ =~= read_cmd_path(task.name@));
    match result {
        Ok(res) => {
            if res.status == 0 {
                if !res.stderr.as_str().is_empty() {
                    diags.warning("`read` succeeded but stderr was not empty", res.stderr.as_str(), path);
                    proof {
                        lemma_reported_warning(start, diags@, "`read` succeeded but stderr was not empty"@, res.stderr@, read_cmd_path(task.name@));
                    }
                } else {
                    proof {
                        lemma_reported_none(start);
                    }
                }
                let stdout = res.stdout;
                let len = stdout.as_str().unicode_len();
                let text = if task.strip_trailing_newline && len > 0 && stdout.as_str().get_char(len - 1) == '\n' {
                    stdout.as_str().substring_char(0, len - 1).to_owned()
                } else {
                    stdout
                };
                assert(text@ =~= read_output(res_view->Ok_0.stdout@, task.strip_trailing_newline));
                let key = outputs.entries[task.output].0.clone();
                let ghost before = *outputs;
                outputs.entries.set(task.output, (key, Value::Value(text)));
                proof {
                    assert forall|a: int, b: int|
                        0 <= a < outputs.size() && 0 <= b < outputs.size() && a != b implies outputs.key_at(a)
                        != outputs.key_at(b) by {
                        assert(outputs.key_at(a) == before.key_at(a));
                        assert(outputs.key_at(b) == before.key_at(b));
                    }
                }
            } else {
                let summary = String::from_str("`read` failed with status code: ").concat(
                    i32_to_decimal(res.status).as_str(),
                );
                diags.warning(summary.as_str(), res.stderr.as_str(), path);
                proof {
                    reveal_strlit("`read` failed with status code: ");
                    lemma_reported_warning(start, diags@, summary@, res.stderr@, read_cmd_path(task.name@));
                }
            }
        },
        Err(err) => {
            diags.warning("Failed to read resource state", err.as_str(), path);
            proof {
                lemma_reported_warning(start, diags@, "Failed to read resource state"@, err@, read_cmd_path(task.name@));
            }
        },
    }
}

/// What a successful `read` gives is what its command printed: exactly, when its `read`
/// block turns the removal of the trailing newline off; with the removal on (the default), the
/// printed text without its last character when that is a newline, and the printed text
/// itself otherwise
pub proof fn law_read_output(
    t: ReadTask,
    i: int,
    name: Seq<char>,
    r: StateRead,
    base_env: Seq<(Seq<char>, Seq<char>)>,
    stdout: Seq<char>,
)
    requires
        task_matches(t, i, name, r, base_env),
    ensures
        r.strip_trailing_newline == Value::Value(false) ==> read_output(stdout, t.strip_trailing_newline)
            == stdout,
        !(r.strip_trailing_newline == Value::Value(false)) ==> if stdout.len() > 0 && stdout.last()
            == '\n' {
            read_output(stdout, t.strip_trailing_newline).push('\n') == stdout
        } else {
            read_output(stdout, t.strip_trailing_newline) == stdout
        },
{
    if stdout.len() > 0 && stdout.last() == '\n' {
        assert(stdout.drop_last().push('\n') =~= stdout);
    }
}

} // verus!
