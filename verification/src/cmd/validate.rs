//! Validation of the configuration of the command resources.

use vstd::prelude::*;

use super::ambiguity::{ambiguity_reports, ensure_unambiguous_updates};
use super::state::{reads_wf, updates_wf, ResourceState, StateCmd, StateRead, StateUpdate};
use crate::attribute_path::{AttributePath, StepView};
use crate::diagnostics::{
    error_report, lemma_reported_chain, lemma_reported_error, lemma_reported_none,
    lemma_reported_warning, reported, warning_report, Diagnostics, Report,
};
use crate::named_map::{NameSet, NamedMap};
use crate::value::{value_str_view, Value};

use crate::connection::{connect_reports, validate_connect, ConnectionConfig};

verus! {

/// What the validation of a command reports at `path`: a command that is empty or null is an
/// error, a command not known yet is a warning
pub open spec fn cmd_reports(c: StateCmd, path: Seq<StepView>) -> Seq<Report> {
    let p = path.push(StepView::Attribute("cmd"@));
    match c.cmd {
        Value::Value(s) => if s@.len() == 0 {
            seq![error_report("`cmd` cannot be empty"@, Seq::empty(), p)]
        } else {
            Seq::empty()
        },
        Value::Null => seq![error_report("`cmd` cannot be null"@, Seq::empty(), p)],
        Value::Unknown => seq![
            warning_report(
                "`cmd` is not known during planning"@,
                "It is recommended that the command does not depend on any resource, and use variables instead."@,
                p,
            ),
        ],
    }
}

/// What the validation of one element of `update.<name>` reports at `path`
/// (the path of the field): an empty, null or unknown element is an error
pub open spec fn element_reports(item: Value<String>, name: Seq<char>, path: Seq<StepView>) -> Seq<
    Report,
> {
    match item {
        Value::Value(k) => if k@.len() == 0 {
            seq![
                error_report(
                    "Element of `update."@ + name + "` is empty"@,
                    "Elements of `update."@ + name + "` cannot be empty."@,
                    path.push(StepView::Key(k@)),
                ),
            ]
        } else {
            Seq::empty()
        },
        Value::Null => seq![
            error_report(
                "Element of `update."@ + name + "` is null"@,
                "Elements of `update."@ + name + "` cannot be null."@,
                path,
            ),
        ],
        Value::Unknown => seq![
            error_report(
                "Element of `update."@ + name + "` is not known during planning"@,
                "Elements of `update."@ + name + "` cannot be unkown."@,
                path,
            ),
        ],
    }
}

/// What the validation of the elements of a set reports, element after element
pub open spec fn elements_reports(items: Seq<Value<String>>, name: Seq<char>, path: Seq<StepView>) -> Seq<
    Report,
>
    decreases items.len(),
{
    if items.len() == 0 {
        Seq::empty()
    } else {
        elements_reports(items.drop_last(), name, path) + element_reports(items.last(), name, path)
    }
}

/// What the validation of the field `update.<name>` reports, from the path of the block
pub open spec fn set_field_reports(set: Value<NameSet>, name: Seq<char>, path: Seq<StepView>) -> Seq<
    Report,
> {
    let p = path.push(StepView::Attribute(name));
    match set {
        Value::Value(s) => elements_reports(s.items@, name, p),
        Value::Null => Seq::empty(),
        Value::Unknown => seq![
            error_report(
                "`update."@ + name + "` is not known during planning"@,
                "`update."@ + name + "` cannot be unkown."@,
                p,
            ),
        ],
    }
}

/// What the validation of an `update` block reports: its command, then its triggers, then
/// what it reloads
pub open spec fn update_reports(u: StateUpdate, path: Seq<StepView>) -> Seq<Report> {
    cmd_reports(u.cmd, path) + set_field_reports(u.triggers, "triggers"@, path) + set_field_reports(
        u.reloads,
        "reloads"@,
        path,
    )
}

impl StateCmd {
    /// Validate a command block at `attr_path`
    pub fn validate(&self, diags: &mut Diagnostics, attr_path: AttributePath)
        ensures
            reported(old(diags)@, final(diags)@, cmd_reports(*self, attr_path@)),
    {
        let ghost start = diags@;
        let path = attr_path.attribute("cmd");
        match &self.cmd {
            Value::Value(cmd) => {
                if cmd.as_str().is_empty() {
                    diags.error_short("`cmd` cannot be empty", path);
                    proof {
                        lemma_reported_error(start, diags@, "`cmd` cannot be empty"@, Seq::empty(), path@);
                    }
                } else {
                    proof {
                        lemma_reported_none(start);
                    }
                }
            },
            Value::Null => {
                diags.error_short("`cmd` cannot be null", path);
                proof {
                    lemma_reported_error(start, diags@, "`cmd` cannot be null"@, Seq::empty(), path@);
                }
            },
            Value::Unknown => {
                diags.warning(
                    "`cmd` is not known during planning",
                    "It is recommended that the command does not depend on any resource, and use variables instead.",
                    path,
                );
                proof {
                    lemma_reported_warning(
                        start,
                        diags@,
                        "`cmd` is not known during planning"@,
                        "It is recommended that the command does not depend on any resource, and use variables instead."@,
                        path@,
                    );
                }
            },
        }
    }
}

/// "<prefix><name><suffix>"
fn framed(prefix: &str, name: &str, suffix: &str) -> (r: String)
    ensures
        r@ == prefix@ + name@ + suffix@,
{
    prefix.to_owned().concat(name).concat(suffix)
}

/// Validate the elements of a set of names, the set being at `path`
fn validate_elements(diags: &mut Diagnostics, items: &Vec<Value<String>>, name: &str, path: &AttributePath)
    ensures
        reported(old(diags)@, final(diags)@, elements_reports(items@, name@, path@)),
{
    let ghost start = diags@;
    proof {
        lemma_reported_none(start);
        assert(items@.take(0) =~= Seq::<Value<String>>::empty());
    }
    let n = items.len();
    for i in 0..n
        invariant
            n == items@.len(),
            reported(start, diags@, elements_reports(items@.take(i as int), name@, path@)),
    {
        let ghost mid = diags@;
        match &items[i] {
            Value::Value(k) => {
                if k.as_str().is_empty() {
                    let summary = framed("Element of `update.", name, "` is empty");
                    let detail = framed("Elements of `update.", name, "` cannot be empty.");
                    diags.error(summary.as_str(), detail.as_str(), path.clone().key(k.as_str()));
                    proof {
                        lemma_reported_error(mid, diags@, summary@, detail@, path@.push(StepView::Key(k@)));
                    }
                } else {
                    proof {
                        lemma_reported_none(mid);
                    }
                }
            },
            Value::Null => {
                let summary = framed("Element of `update.", name, "` is null");
                let detail = framed("Elements of `update.", name, "` cannot be null.");
                diags.error(summary.as_str(), detail.as_str(), path.clone());
                proof {
                    lemma_reported_error(mid, diags@, summary@, detail@, path@);
                }
            },
            Value::Unknown => {
                let summary = framed("Element of `update.", name, "` is not known during planning");
                let detail = framed("Elements of `update.", name, "` cannot be unkown.");
                diags.error(summary.as_str(), detail.as_str(), path.clone());
                proof {
                    lemma_reported_error(mid, diags@, summary@, detail@, path@);
                }
            },
        }
        proof {
            let t = items@.take(i as int + 1);
            assert(t.drop_last() =~= items@.take(i as int));
            assert(t.last() == items@[i as int]);
            lemma_reported_chain(
                start,
                mid,
                diags@,
                elements_reports(items@.take(i as int), name@, path@),
                element_reports(items@[i as int], name@, path@),
            );
        }
    }
    assert(items@.take(n as int) =~= items@);
}

/// Validate the field `update.<name>` of a block at `path`
fn validate_set_field(diags: &mut Diagnostics, set: &Value<NameSet>, name: &str, path: &AttributePath)
    ensures
        reported(old(diags)@, final(diags)@, set_field_reports(*set, name@, path@)),
{
    let ghost start = diags@;
    let field = path.clone().attribute(name);
    match set {
        Value::Value(s) => {
            validate_elements(diags, &s.items, name, &field);
        },
        Value::Null => {
            proof {
                lemma_reported_none(start);
            }
        },
        Value::Unknown => {
            let summary = framed("`update.", name, "` is not known during planning");
            let detail = framed("`update.", name, "` cannot be unkown.");
            diags.error(summary.as_str(), detail.as_str(), field);
            proof {
                lemma_reported_error(start, diags@, summary@, detail@, path@.push(StepView::Attribute(name@)));
            }
        },
    }
}

impl StateUpdate {
    /// Validate an `update` block at `attr_path`: its command, its triggers, what it reloads
    pub fn validate(&self, diags: &mut Diagnostics, attr_path: AttributePath)
        ensures
            reported(old(diags)@, final(diags)@, update_reports(*self, attr_path@)),
    {
        let ghost start = diags@;
        self.cmd.validate(diags, attr_path.clone());
        let ghost mid1 = diags@;
        validate_set_field(diags, &self.triggers, "triggers", &attr_path);
        let ghost mid2 = diags@;
        validate_set_field(diags, &self.reloads, "reloads", &attr_path);
        proof {
            lemma_reported_chain(
                start,
                mid1,
                mid2,
                cmd_reports(self.cmd, attr_path@),
                set_field_reports(self.triggers, "triggers"@, attr_path@),
            );
            lemma_reported_chain(
                start,
                mid2,
                diags@,
                cmd_reports(self.cmd, attr_path@) + set_field_reports(
                    self.triggers,
                    "triggers"@,
                    attr_path@,
                ),
                set_field_reports(self.reloads, "reloads"@, attr_path@),
            );
        }
    }
}

/// What the validation of the `read` blocks reports: the command of each block that is a
/// value, in the order of their names
pub open spec fn reads_reports(entries: Seq<(String, Value<StateRead>)>) -> Seq<Report>
    decreases entries.len(),
{
    if entries.len() == 0 {
        Seq::empty()
    } else {
        reads_reports(entries.drop_last()) + match entries.last().1 {
            Value::Value(r) => cmd_reports(
                r.cmd,
                seq![StepView::Attribute("read"@), StepView::Key(entries.last().0@)],
            ),
            _ => Seq::empty(),
        }
    }
}

/// There is a `read` block named `name`
pub open spec fn has_read(reads: Value<NamedMap<Value<StateRead>>>, name: Seq<char>) -> bool {
    reads matches Value::Value(m) && m.has_key(name)
}

/// What the check of what an `update` block at `path` reloads reports: an error for each
/// name that no `read` block has (null and unknown items are taken as empty names)
pub open spec fn reload_reports(
    items: Seq<Value<String>>,
    reads: Value<NamedMap<Value<StateRead>>>,
    path: Seq<StepView>,
) -> Seq<Report>
    decreases items.len(),
{
    if items.len() == 0 {
        Seq::empty()
    } else {
        let name = value_str_view(items.last());
        reload_reports(items.drop_last(), reads, path) + if has_read(reads, name) {
            Seq::empty()
        } else {
            seq![
                error_report(
                    "`update.reloads` is invalid"@,
                    "The `update` block requires to reload `"@ + name
                        + "`, but there is no `read` block with this name."@,
                    path.push(StepView::Attribute("reloads"@)).push(StepView::Key(name)),
                ),
            ]
        }
    }
}

/// What the check of what an `update` block at `path` reloads reports (nothing when it is
/// null or unknown)
pub open spec fn reloads_of_reports(
    u: StateUpdate,
    reads: Value<NamedMap<Value<StateRead>>>,
    path: Seq<StepView>,
) -> Seq<Report> {
    match u.reloads {
        Value::Value(set) => reload_reports(set.items@, reads, path),
        _ => Seq::empty(),
    }
}

/// What the validation of the `update` blocks reports, block after block: the block itself,
/// then what it reloads; null and unknown blocks are skipped but counted in the positions
pub open spec fn updates_reports(
    updates: Seq<Value<StateUpdate>>,
    reads: Value<NamedMap<Value<StateRead>>>,
) -> Seq<Report>
    decreases updates.len(),
{
    if updates.len() == 0 {
        Seq::empty()
    } else {
        let p = seq![
            StepView::Attribute("update"@),
            StepView::Index((updates.len() - 1) as i64),
        ];
        updates_reports(updates.drop_last(), reads) + match updates.last() {
            Value::Value(u) => update_reports(u, p) + reloads_of_reports(u, reads, p),
            _ => Seq::empty(),
        }
    }
}

/// What the validation of a single command block (`create` or `destroy`) reports
pub open spec fn single_cmd_reports(c: Value<StateCmd>, name: Seq<char>) -> Seq<Report> {
    match c {
        Value::Value(c) => cmd_reports(c, seq![StepView::Attribute(name), StepView::Index(0)]),
        _ => Seq::empty(),
    }
}

/// What the validation of the `read` blocks reports
pub open spec fn read_section_reports(read: Value<NamedMap<Value<StateRead>>>) -> Seq<Report> {
    match read {
        Value::Value(m) => reads_reports(m.entries@),
        Value::Null => Seq::empty(),
        Value::Unknown => seq![
            error_report(
                "`read` blocks are unknown during plan."@,
                "All `read` blocks must be known during plan."@,
                seq![StepView::Attribute("read"@)],
            ),
        ],
    }
}

/// What the validation of the `update` blocks reports: their ambiguities, then each block
pub open spec fn update_section_reports(
    update: Value<Vec<Value<StateUpdate>>>,
    reads: Value<NamedMap<Value<StateRead>>>,
) -> Seq<Report> {
    match update {
        Value::Value(v) => ambiguity_reports(v@) + updates_reports(v@, reads),
        Value::Null => Seq::empty(),
        Value::Unknown => seq![
            error_report(
                "`update` blocks are unknown during plan."@,
                "All `update` blocks must be known during plan."@,
                seq![StepView::Attribute("update"@)],
            ),
        ],
    }
}

/// What the validation of the state of a command resource reports: `create`, `destroy`,
/// the `read` blocks, then the `update` blocks
pub open spec fn state_reports<C>(s: ResourceState<C>) -> Seq<Report> {
    single_cmd_reports(s.create, "create"@) + single_cmd_reports(s.destroy, "destroy"@)
        + read_section_reports(s.read) + update_section_reports(s.update, s.read)
}

/// Validate a single command block (`create` or `destroy`) at `<name>[0]`
fn validate_single_cmd(diags: &mut Diagnostics, c: &Value<StateCmd>, name: &str)
    ensures
        reported(old(diags)@, final(diags)@, single_cmd_reports(*c, name@)),
{
    match c {
        Value::Value(c) => {
            let path = AttributePath::new(name).index(0);
            assert(path@ =~= seq![StepView::Attribute(name@), StepView::Index(0)]);
            c.validate(diags, path);
        },
        _ => {
            proof {
                lemma_reported_none(diags@);
            }
        },
    }
}

/// Validate the `read` blocks
fn validate_reads(diags: &mut Diagnostics, read: &Value<NamedMap<Value<StateRead>>>)
    ensures
        reported(old(diags)@, final(diags)@, read_section_reports(*read)),
{
    let ghost start = diags@;
    match read {
        Value::Value(m) => {
            let n = m.entries.len();
            proof {
                lemma_reported_none(start);
                assert(m.entries@.take(0) =~= Seq::<(String, Value<StateRead>)>::empty());
            }
            for i in 0..n
                invariant
                    n == m.entries@.len(),
                    reported(start, diags@, reads_reports(m.entries@.take(i as int))),
            {
                let ghost mid = diags@;
                let ghost prefix = m.entries@.take(i as int + 1);
                assert(prefix.drop_last() =~= m.entries@.take(i as int));
                assert(prefix.last() == m.entries@[i as int]);
                let (name, r) = &m.entries[i];
                match r {
                    Value::Value(r) => {
                        let path = AttributePath::new("read").key(name.as_str());
                        assert(path@ =~= seq![StepView::Attribute("read"@), StepView::Key(name@)]);
                        r.cmd.validate(diags, path);
                        proof {
                            lemma_reported_chain(
                                start,
                                mid,
                                diags@,
                                reads_reports(m.entries@.take(i as int)),
                                cmd_reports(r.cmd, path@),
                            );
                        }
                    },
                    _ => {
                        assert(reads_reports(prefix) =~= reads_reports(m.entries@.take(i as int)));
                    },
                }
            }
            assert(m.entries@.take(n as int) =~= m.entries@);
        },
        Value::Null => {
            proof {
                lemma_reported_none(start);
            }
        },
        Value::Unknown => {
            diags.error(
                "`read` blocks are unknown during plan.",
                "All `read` blocks must be known during plan.",
                AttributePath::new("read"),
            );
            proof {
                lemma_reported_error(
                    start,
                    diags@,
                    "`read` blocks are unknown during plan."@,
                    "All `read` blocks must be known during plan."@,
                    seq![StepView::Attribute("read"@)],
                );
            }
        },
    }
}

/// Whether there is a `read` block named `name`
fn read_exists(reads: &Value<NamedMap<Value<StateRead>>>, name: &str) -> (r: bool)
    requires
        reads_wf(*reads),
    ensures
        r == has_read(*reads, name@),
{
    match reads {
        Value::Value(m) => m.contains_key(name),
        _ => false,
    }
}

/// Check that each name that an `update` block at `path` reloads has a `read` block
fn validate_reloads(
    diags: &mut Diagnostics,
    items: &Vec<Value<String>>,
    reads: &Value<NamedMap<Value<StateRead>>>,
    path: &AttributePath,
)
    requires
        reads_wf(*reads),
    ensures
        reported(old(diags)@, final(diags)@, reload_reports(items@, *reads, path@)),
{
    let ghost start = diags@;
    let n = items.len();
    proof {
        lemma_reported_none(start);
        assert(items@.take(0) =~= Seq::<Value<String>>::empty());
    }
    for i in 0..n
        invariant
            n == items@.len(),
            reads_wf(*reads),
            reported(start, diags@, reload_reports(items@.take(i as int), *reads, path@)),
    {
        let ghost mid = diags@;
        let ghost prefix = items@.take(i as int + 1);
        assert(prefix.drop_last() =~= items@.take(i as int));
        assert(prefix.last() == items@[i as int]);
        let name = items[i].as_str();
        if !read_exists(reads, name) {
            let detail = framed(
                "The `update` block requires to reload `",
                name,
                "`, but there is no `read` block with this name.",
            );
            let at = path.clone().attribute("reloads").key(name);
            diags.error("`update.reloads` is invalid", detail.as_str(), at);
            proof {
                lemma_reported_error(mid, diags@, "`update.reloads` is invalid"@, detail@, at@);
                lemma_reported_chain(
                    start,
                    mid,
                    diags@,
                    reload_reports(items@.take(i as int), *reads, path@),
                    seq![error_report("`update.reloads` is invalid"@, detail@, at@)],
                );
            }
        } else {
            assert(reload_reports(prefix, *reads, path@) =~= reload_reports(
                items@.take(i as int),
                *reads,
                path@,
            ));
        }
    }
    assert(items@.take(n as int) =~= items@);
}

/// Validate the `update` blocks, block after block
fn validate_update_blocks(
    diags: &mut Diagnostics,
    updates: &Vec<Value<StateUpdate>>,
    reads: &Value<NamedMap<Value<StateRead>>>,
)
    requires
        reads_wf(*reads),
    ensures
        reported(old(diags)@, final(diags)@, updates_reports(updates@, *reads)),
{
    let ghost start = diags@;
    let n = updates.len();
    proof {
        lemma_reported_none(start);
        assert(updates@.take(0) =~= Seq::<Value<StateUpdate>>::empty());
    }
    for i in 0..n
        invariant
            n == updates@.len(),
            reads_wf(*reads),
            reported(start, diags@, updates_reports(updates@.take(i as int), *reads)),
    {
        let ghost mid = diags@;
        let ghost prefix = updates@.take(i as int + 1);
        assert(prefix.drop_last() =~= updates@.take(i as int));
        assert(prefix.last() == updates@[i as int]);
        match &updates[i] {
            Value::Value(u) => {
                let path = AttributePath::new("update").index(i as i64);
                assert(path@ =~= seq![
                    StepView::Attribute("update"@),
                    StepView::Index((prefix.len() - 1) as i64),
                ]);
                u.validate(diags, path.clone());
                let ghost mid2 = diags@;
                match &u.reloads {
                    Value::Value(set) => {
                        validate_reloads(diags, &set.items, reads, &path);
                    },
                    _ => {
                        proof {
                            lemma_reported_none(mid2);
                        }
                    },
                }
                proof {
                    let rr = reloads_of_reports(*u, *reads, path@);
                    lemma_reported_chain(mid, mid2, diags@, update_reports(*u, path@), rr);
                    lemma_reported_chain(
                        start,
                        mid,
                        diags@,
                        updates_reports(updates@.take(i as int), *reads),
                        update_reports(*u, path@) + rr,
                    );
                }
            },
            _ => {
                assert(updates_reports(prefix, *reads) =~= updates_reports(
                    updates@.take(i as int),
                    *reads,
                ));
            },
        }
    }
    assert(updates@.take(n as int) =~= updates@);
}

impl<C: ConnectionConfig> ResourceState<C> {
    /// Validate the state of a command resource: its connection at `connect[0]`, `create`,
    /// `destroy`, the `read` blocks, then the `update` blocks, their ambiguities first.
    /// Returns `Some` iff no error is reported at the end.
    pub fn validate(&self, diags: &mut Diagnostics) -> (r: Option<()>)
        requires
            self.wf(),
        ensures
            reported(old(diags)@, final(diags)@, connect_reports(self.connect) + state_reports(*self)),
            r is Some <==> final(diags)@.errors.len() == 0,
    {
        let ghost origin = diags@;
        validate_connect(diags, &self.connect);
        let ghost s0 = diags@;
        validate_single_cmd(diags, &self.create, "create");
        let ghost s1 = diags@;
        validate_single_cmd(diags, &self.destroy, "destroy");
        let ghost s2 = diags@;
        validate_reads(diags, &self.read);
        let ghost s3 = diags@;
        match &self.update {
            Value::Value(updates) => {
                ensure_unambiguous_updates(diags, updates.as_slice());
                let ghost s4 = diags@;
                validate_update_blocks(diags, updates, &self.read);
                proof {
                    lemma_reported_chain(
                        s3,
                        s4,
                        diags@,
                        ambiguity_reports(updates@),
                        updates_reports(updates@, self.read),
                    );
                }
            },
            Value::Null => {
                proof {
                    lemma_reported_none(s3);
                }
            },
            Value::Unknown => {
                diags.error(
                    "`update` blocks are unknown during plan.",
                    "All `update` blocks must be known during plan.",
                    AttributePath::new("update"),
                );
                proof {
                    lemma_reported_error(
                        s3,
                        diags@,
                        "`update` blocks are unknown during plan."@,
                        "All `update` blocks must be known during plan."@,
                        seq![StepView::Attribute("update"@)],
                    );
                }
            },
        }
        proof {
            let c = single_cmd_reports(self.create, "create"@);
            let d = single_cmd_reports(self.destroy, "destroy"@);
            let r = read_section_reports(self.read);
            let u = update_section_reports(self.update, self.read);
            lemma_reported_chain(s0, s1, s2, c, d);
            lemma_reported_chain(s0, s2, s3, c + d, r);
            lemma_reported_chain(s0, s3, diags@, c + d + r, u);
            lemma_reported_chain(origin, s0, diags@, connect_reports(self.connect), state_reports(*self));
        }
        if diags.errors.len() == 0 {
            Some(())
        } else {
            None
        }
    }
}

} // verus!
