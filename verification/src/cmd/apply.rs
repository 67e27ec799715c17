//! Applying a change of a command resource: which command to run (with which variables) to
//! create, update or destroy it, and what its result reports.

use vstd::prelude::*;

use super::env::{env_view, known_variables, known_variables_all, prepare_envs, with_env};
use super::plan::{
    chosen_update, find_modified, find_update, modified_names, name_set, present_before,
    update_for_change,
};
use super::state::{value_map_wf, ResourceState, StateCmd, StateUpdate, StringMap};
use crate::attribute_path::{AttributePath, StepView};
use crate::connection::ExecutionResult;
use crate::diagnostics::{
    error_report, lemma_reported_chain, lemma_reported_error, lemma_reported_none,
    lemma_reported_warning, reported, warning_report, Diagnostics, Report,
};
use crate::text::{decimal, i32_to_decimal};
use crate::value::{value_str_view, Value};

verus! {

/// A command to run: its text, its working directory (empty for the current one), its
/// variables, and the path of its `cmd` attribute, where its result is reported
#[derive(Debug)]
pub struct CommandRun {
    pub cmd: String,
    pub dir: String,
    pub env: Vec<(String, String)>,
    pub path: AttributePath,
}

/// The text of the command of an optional block (empty when the block or its command is null
/// or unknown)
pub open spec fn block_cmd(c: Value<StateCmd>) -> Seq<char> {
    match c {
        Value::Value(c) => value_str_view(c.cmd),
        _ => Seq::empty(),
    }
}

/// `run` runs the command block `c` with the variables `base` then those of the block, and
/// reports at `path`
pub open spec fn runs_block(
    run: CommandRun,
    c: StateCmd,
    base: Seq<(Seq<char>, Seq<char>)>,
    path: Seq<StepView>,
) -> bool {
    &&& run.cmd@ == value_str_view(c.cmd)
    &&& run.dir@ == value_str_view(c.dir)
    &&& env_view(run.env@) == base + known_variables(c.env, Seq::empty())
    &&& run.path@ == path
}

/// The run of a command block with the variables `base` then those of the block
fn block_run(c: &StateCmd, base: &Vec<(String, String)>, path: AttributePath) -> (r: CommandRun)
    ensures
        runs_block(r, *c, env_view(base@), path@),
{
    CommandRun {
        cmd: c.cmd().to_owned(),
        dir: c.dir().to_owned(),
        env: with_env(base, &c.env),
        path,
    }
}

/// The variables of the `create` command and of the reads that follow it: the inputs, each
/// prefixed with `INPUT_`
pub open spec fn create_variables<C>(s: ResourceState<C>) -> Seq<(Seq<char>, Seq<char>)> {
    known_variables_all(seq![(s.inputs, "INPUT_"@)])
}

/// The variables of the `update` command and of the reads that follow it: the planned inputs
/// (`INPUT_`), the prior inputs (`PREVIOUS_`) and the prior outputs (`STATE_`)
pub open spec fn update_variables<C>(prior: ResourceState<C>, planned: ResourceState<C>) -> Seq<
    (Seq<char>, Seq<char>),
> {
    known_variables_all(
        seq![(planned.inputs, "INPUT_"@), (prior.inputs, "PREVIOUS_"@), (prior.state, "STATE_"@)],
    )
}

/// The variables of the `destroy` command: the inputs (`INPUT_`) and the outputs (`STATE_`)
pub open spec fn destroy_variables<C>(s: ResourceState<C>) -> Seq<(Seq<char>, Seq<char>)> {
    known_variables_all(seq![(s.inputs, "INPUT_"@), (s.state, "STATE_"@)])
}

/// The variables of the creation of a resource (see [`create_variables`])
pub fn create_env<C>(state: &ResourceState<C>) -> (r: Vec<(String, String)>)
    ensures
        env_view(r@) == create_variables(*state),
{
    let mut envs: Vec<(&Value<StringMap>, &str)> = Vec::new();
    envs.push((&state.inputs, "INPUT_"));
    proof {
        assert(envs@.map_values(|p: (&Value<StringMap>, &str)| (*p.0, p.1@)) =~= seq![
            (state.inputs, "INPUT_"@),
        ]);
    }
    prepare_envs(envs.as_slice())
}

/// The variables of the update of a resource (see [`update_variables`])
pub fn update_env<C>(prior_state: &ResourceState<C>, planned_state: &ResourceState<C>) -> (r: Vec<
    (String, String),
>)
    ensures
        env_view(r@) == update_variables(*prior_state, *planned_state),
{
    let mut envs: Vec<(&Value<StringMap>, &str)> = Vec::new();
    envs.push((&planned_state.inputs, "INPUT_"));
    envs.push((&prior_state.inputs, "PREVIOUS_"));
    envs.push((&prior_state.state, "STATE_"));
    proof {
        assert(envs@.map_values(|p: (&Value<StringMap>, &str)| (*p.0, p.1@)) =~= seq![
            (planned_state.inputs, "INPUT_"@),
            (prior_state.inputs, "PREVIOUS_"@),
            (prior_state.state, "STATE_"@),
        ]);
    }
    prepare_envs(envs.as_slice())
}

/// The variables of the destruction of a resource (see [`destroy_variables`])
pub fn destroy_env<C>(state: &ResourceState<C>) -> (r: Vec<(String, String)>)
    ensures
        env_view(r@) == destroy_variables(*state),
{
    let mut envs: Vec<(&Value<StringMap>, &str)> = Vec::new();
    envs.push((&state.inputs, "INPUT_"));
    envs.push((&state.state, "STATE_"));
    proof {
        assert(envs@.map_values(|p: (&Value<StringMap>, &str)| (*p.0, p.1@)) =~= seq![
            (state.inputs, "INPUT_"@),
            (state.state, "STATE_"@),
        ]);
    }
    prepare_envs(envs.as_slice())
}

/// The command that creates a resource: the `create` block run with the inputs, reported at
/// `create[0].cmd`; none when the command is empty (or the block null or unknown)
pub fn create_command<C>(state: &ResourceState<C>) -> (r: Option<CommandRun>)
    ensures
        block_cmd(state.create).len() == 0 <==> r is None,
        r matches Some(run) ==> runs_block(
            run,
            state.create->Value_0,
            create_variables(*state),
            seq![StepView::Attribute("create"@), StepView::Index(0), StepView::Attribute("cmd"@)],
        ),
{
    match &state.create {
        Value::Value(c) => {
            if c.cmd().is_empty() {
                None
            } else {
                let base = create_env(state);
                let path = AttributePath::new("create").index(0).attribute("cmd");
                assert(path@ =~= seq![
                    StepView::Attribute("create"@),
                    StepView::Index(0),
                    StepView::Attribute("cmd"@),
                ]);
                Some(block_run(c, &base, path))
            }
        },
        _ => None,
    }
}

/// The command that destroys a resource: the `destroy` block run with the inputs and the
/// outputs, reported at `destroy[0].cmd`; none when the command is empty (or the block null
/// or unknown)
pub fn destroy_command<C>(state: &ResourceState<C>) -> (r: Option<CommandRun>)
    ensures
        block_cmd(state.destroy).len() == 0 <==> r is None,
        r matches Some(run) ==> runs_block(
            run,
            state.destroy->Value_0,
            destroy_variables(*state),
            seq![StepView::Attribute("destroy"@), StepView::Index(0), StepView::Attribute("cmd"@)],
        ),
{
    match &state.destroy {
        Value::Value(c) => {
            if c.cmd().is_empty() {
                None
            } else {
                let base = destroy_env(state);
                let path = AttributePath::new("destroy").index(0).attribute("cmd");
                assert(path@ =~= seq![
                    StepView::Attribute("destroy"@),
                    StepView::Index(0),
                    StepView::Attribute("cmd"@),
                ]);
                Some(block_run(c, &base, path))
            }
        },
        _ => None,
    }
}

/// The command that updates a resource from its prior state to the planned one: the
/// `update` block chosen for the change of the inputs (see [`chosen_update`]; with no change,
/// any block qualifies), run with the planned and prior inputs and the prior outputs,
/// reported at `update[i].cmd`. With no block chosen there is nothing to run (`Ok(None)`);
/// a chosen block with an empty command is an error (`Err`).
pub fn update_command<C>(diags: &mut Diagnostics, prior_state: &ResourceState<C>, planned_state: &ResourceState<C>) -> (r:
    Result<Option<CommandRun>, ()>)
    requires
        prior_state.wf(),
        planned_state.wf(),
    ensures
        match planned_state.update {
            Value::Value(v) => match chosen_update(
                v@,
                modified_names(prior_state.inputs, planned_state.inputs),
            ) {
                Some(q) => {
                    let u = v@[q]->Value_0;
                    let path = seq![
                        StepView::Attribute("update"@),
                        StepView::Index(present_before(v@, q) as i64),
                        StepView::Attribute("cmd"@),
                    ];
                    if value_str_view(u.cmd.cmd).len() == 0 {
                        r is Err && reported(
                            old(diags)@,
                            final(diags)@,
                            seq![
                                error_report(
                                    "`update` cmd should not be null or empty"@,
                                    Seq::empty(),
                                    path,
                                ),
                            ],
                        )
                    } else {
                        final(diags)@ == old(diags)@ && (r matches Ok(Some(run)) && runs_block(
                            run,
                            u.cmd,
                            update_variables(*prior_state, *planned_state),
                            path,
                        ))
                    }
                },
                None => r matches Ok(None) && final(diags)@ == old(diags)@,
            },
            _ => r matches Ok(None) && final(diags)@ == old(diags)@,
        },
{
    let modified = find_modified(&prior_state.inputs, &planned_state.inputs);
    match find_update(&planned_state.update, &modified) {
        Some((pos, path)) => {
            let updates = match &planned_state.update {
                Value::Value(v) => v,
                _ => {
                    return Ok(None);
                },
            };
            proof {
                super::plan::law_chosen_update(
                    updates@,
                    modified_names(prior_state.inputs, planned_state.inputs),
                );
            }
            let u = match &updates[pos] {
                Value::Value(u) => u,
                _ => {
                    return Ok(None);
                },
            };
            let path = path.attribute("cmd");
            assert(path@ =~= seq![
                StepView::Attribute("update"@),
                StepView::Index(present_before(updates@, pos as int) as i64),
                StepView::Attribute("cmd"@),
            ]);
            if u.cmd.cmd().is_empty() {
                let ghost start = diags@;
                diags.error_short("`update` cmd should not be null or empty", path);
                proof {
                    lemma_reported_error(
                        start,
                        diags@,
                        "`update` cmd should not be null or empty"@,
                        Seq::empty(),
                        path@,
                    );
                }
                Err(())
            } else {
                let base = update_env(prior_state, planned_state);
                Ok(Some(block_run(&u.cmd, &base, path)))
            }
        },
        None => Ok(None),
    }
}

/// What the result of a command reports, at `path`: a non empty standard output is a warning
/// "`<op>` stdout was not empty"; then, on success, a non empty standard error is a warning
/// "`<op>` succeeded but stderr was not empty"; a non-zero status is an error "`<op>` failed
/// with status code: <status>" detailed by the standard error; a failure to run is the error
/// `failure`, detailed by its text
pub open spec fn command_reports(
    op: Seq<char>,
    failure: Seq<char>,
    path: Seq<StepView>,
    result: Result<ExecutionResult, String>,
) -> Seq<Report> {
    match result {
        Ok(res) => (if res.stdout@.len() > 0 {
            seq![warning_report("`"@ + op + "` stdout was not empty"@, res.stdout@, path)]
        } else {
            Seq::empty()
        }) + if res.status == 0 {
            if res.stderr@.len() > 0 {
                seq![
                    warning_report(
                        "`"@ + op + "` succeeded but stderr was not empty"@,
                        res.stderr@,
                        path,
                    ),
                ]
            } else {
                Seq::empty()
            }
        } else {
            seq![
                error_report(
                    "`"@ + op + "` failed with status code: "@ + decimal(res.status as int),
                    res.stderr@,
                    path,
                ),
            ]
        },
        Err(e) => seq![error_report(failure, e@, path)],
    }
}

/// Report the result of the command `op` (`create`, `update` or `destroy`) run at `path`
/// (see [`command_reports`]); `failure` is the error of a command that could not be run
pub fn report_command_result(
    diags: &mut Diagnostics,
    op: &str,
    failure: &str,
    path: &AttributePath,
    result: Result<ExecutionResult, String>,
)
    ensures
        reported(old(diags)@, final(diags)@, command_reports(op@, failure@, path@, result)),
{
    let ghost start = diags@;
    let ghost res0 = result;
    proof {
        reveal_strlit("`");
    }
    match result {
        Ok(res) => {
            let out_report = if res.stdout.as_str().is_empty() {
                proof {
                    lemma_reported_none(start);
                }
                false
            } else {
                let summary = String::from_str("`").concat(op).concat("` stdout was not empty");
                diags.warning(summary.as_str(), res.stdout.as_str(), path.clone());
                proof {
                    lemma_reported_warning(start, diags@, summary@, res.stdout@, path@);
                }
                true
            };
            let ghost mid = diags@;
            if res.status == 0 {
                if res.stderr.as_str().is_empty() {
                    proof {
                        lemma_reported_none(mid);
                    }
                } else {
                    let summary = String::from_str("`").concat(op).concat(
                        "` succeeded but stderr was not empty",
                    );
                    diags.warning(summary.as_str(), res.stderr.as_str(), path.clone());
                    proof {
                        lemma_reported_warning(mid, diags@, summary@, res.stderr@, path@);
                    }
                }
            } else {
                let summary = String::from_str("`").concat(op).concat(
                    "` failed with status code: ",
                ).concat(i32_to_decimal(res.status).as_str());
                diags.error(summary.as_str(), res.stderr.as_str(), path.clone());
                proof {
                    lemma_reported_error(mid, diags@, summary@, res.stderr@, path@);
                }
            }
            proof {
                let first = if res.stdout@.len() > 0 {
                    seq![warning_report("`"@ + op@ + "` stdout was not empty"@, res.stdout@, path@)]
                } else {
                    Seq::<Report>::empty()
                };
                let second = if res.status == 0 {
                    if res.stderr@.len() > 0 {
                        seq![
                            warning_report(
                                "`"@ + op@ + "` succeeded but stderr was not empty"@,
                                res.stderr@,
                                path@,
                            ),
                        ]
                    } else {
                        Seq::<Report>::empty()
                    }
                } else {
                    seq![
                        error_report(
                            "`"@ + op@ + "` failed with status code: "@ + decimal(res.status as int),
                            res.stderr@,
                            path@,
                        ),
                    ]
                };
                lemma_reported_chain(start, mid, diags@, first, second);
            }
        },
        Err(e) => {
            diags.error(failure, e.as_str(), path.clone());
            proof {
                lemma_reported_error(start, diags@, failure@, e@, path@);
            }
        },
    }
}

/// The identifier of a resource: 30 ASCII letters and digits
pub open spec fn fresh_id(id: Value<String>) -> bool {
    id matches Value::Value(s) && s@.len() == 30 && forall|i: int|
        0 <= i < 30 ==> crate::file::codec::is_alphanumeric(#[trigger] s@[i])
}

impl<C> ResourceState<C> {
    /// Give the resource a new random identifier (when it is created), or one when it has
    /// none known (when it is updated); the rest of the state is kept
    pub fn assign_id(&mut self, renew: bool)
        ensures
            renew || !(old(self).id is Value) ==> fresh_id(final(self).id),
            !renew && old(self).id is Value ==> final(self).id == old(self).id,
            final(self).inputs == old(self).inputs,
            final(self).state == old(self).state,
            final(self).read == old(self).read,
            final(self).create == old(self).create,
            final(self).destroy == old(self).destroy,
            final(self).update == old(self).update,
            final(self).connect == old(self).connect,
            final(self).command_concurrency == old(self).command_concurrency,
    {
        if renew || !self.id.is_value() {
            self.id = Value::Value(crate::file::codec::random_alphanumeric(30));
        }
    }
}

/// Whether a create goes on, once its command ran, to read the outputs of the resource: not
/// when an error was reported, by the command or before it (`None`)
pub fn create_outcome(diags: &Diagnostics) -> (r: Option<()>)
    ensures
        r is None <==> diags@.errors.len() > 0,
{
    if diags.errors.len() > 0 {
        None
    } else {
        Some(())
    }
}

/// When some input changed, the `update` block whose outputs the plan of the change marks
/// for reading again is the block whose command the update runs
pub proof fn law_plan_and_update_agree<C>(prior: ResourceState<C>, planned: ResourceState<C>)
    ensures
        update_for_change(prior, planned) matches Some(q) ==> (planned.update matches Value::Value(v)
            && chosen_update(v@, modified_names(prior.inputs, planned.inputs)) == Some(q)),
{
}

} // verus!
