//! The messages of the Terraform plugin protocol (version 6) that the provider builds,
//! and the decisions that it takes on each request.

use vstd::prelude::*;

use crate::attribute_path::{AttributePath, AttributePathStep, StepView};
use crate::diagnostics::{one_more_error, DiagView, Diagnostic, Diagnostics};
use crate::raw::{raw_bytes, raw_is_null, RawValue};

verus! {

/// Severity of a diagnostic on the wire
#[derive(Clone, Copy, PartialEq, Eq, Debug)]
pub enum Severity {
    Invalid,
    Error,
    Warning,
}

/// Selector of one step of an attribute path on the wire
#[derive(Debug)]
pub enum Selector {
    AttributeName(String),
    ElementKeyString(String),
    ElementKeyInt(i64),
}

/// One step of an attribute path on the wire
#[derive(Debug)]
pub struct ProtoStep {
    pub selector: Option<Selector>,
}

/// Attribute path on the wire
#[derive(Debug)]
pub struct ProtoAttributePath {
    pub steps: Vec<ProtoStep>,
}

/// Diagnostic on the wire
#[derive(Debug)]
pub struct ProtoDiagnostic {
    pub severity: Severity,
    pub summary: String,
    pub detail: String,
    pub attribute: Option<ProtoAttributePath>,
}

/// Dynamic value on the wire: one of the two encodings is filled
#[derive(Debug)]
pub struct DynamicValue {
    pub msgpack: Vec<u8>,
    pub json: Vec<u8>,
}

/// Error of a function call on the wire
#[derive(Debug)]
pub struct FunctionError {
    pub text: String,
    pub function_argument: Option<i64>,
}

/// The step of a path as sent on the wire
pub open spec fn proto_step_matches(p: ProtoStep, s: StepView) -> bool {
    match s {
        StepView::Attribute(name) => p.selector matches Some(Selector::AttributeName(n)) && n@
            == name,
        StepView::Key(key) => p.selector matches Some(Selector::ElementKeyString(k)) && k@ == key,
        StepView::Index(idx) => p.selector == Some(Selector::ElementKeyInt(idx)),
    }
}

/// The path as sent on the wire: the same steps, in the same order
pub open spec fn proto_path_matches(p: ProtoAttributePath, s: Seq<StepView>) -> bool {
    &&& p.steps@.len() == s.len()
    &&& forall|i: int| 0 <= i < s.len() ==> proto_step_matches(#[trigger] p.steps@[i], s[i])
}

/// The diagnostic as sent on the wire with the given severity; a root path is sent as no path
pub open spec fn proto_diag_matches(p: ProtoDiagnostic, d: DiagView, severity: Severity) -> bool {
    &&& p.severity == severity
    &&& p.summary@ == d.summary
    &&& p.detail@ == d.detail
    &&& if d.attribute.len() == 0 {
        p.attribute is None
    } else {
        p.attribute matches Some(a) && proto_path_matches(a, d.attribute)
    }
}

/// The elements of `v` in the reverse order
pub fn reversed<T>(v: Vec<T>) -> (r: Vec<T>)
    ensures
        r@.len() == v@.len(),
        forall|i: int| 0 <= i < v@.len() ==> #[trigger] r@[i] == v@[v@.len() - 1 - i],
{
    let ghost initial = v@;
    let mut source = v;
    let mut r = Vec::new();
    while source.len() > 0
        invariant
            r@.len() + source@.len() == initial.len(),
            source@ == initial.take(source@.len() as int),
            forall|i: int| 0 <= i < r@.len() ==> #[trigger] r@[i] == initial[initial.len() - 1 - i],
        decreases source.len(),
    {
        let ghost before = source@;
        let x = source.pop().unwrap();
        assert(source@ =~= initial.take(source@.len() as int));
        r.push(x);
    }
    r
}

/// Convert one step of an attribute path for the wire
pub fn step_to_proto(step: AttributePathStep) -> (r: ProtoStep)
    ensures
        proto_step_matches(r, step@),
{
    ProtoStep {
        selector: Some(
            match step {
                AttributePathStep::Attribute(name) => Selector::AttributeName(name),
                AttributePathStep::Key(key) => Selector::ElementKeyString(key),
                AttributePathStep::Index(idx) => Selector::ElementKeyInt(idx),
            },
        ),
    }
}

/// Convert an attribute path for the wire
pub fn path_to_proto(path: AttributePath) -> (r: ProtoAttributePath)
    ensures
        proto_path_matches(r, path@),
{
    let ghost view = path@;
    let mut steps: Vec<ProtoStep> = Vec::new();
    let mut source = reversed(path.steps);
    // `source` holds the steps left to convert, last one first
    while source.len() > 0
        invariant
            steps@.len() + source@.len() == view.len(),
            forall|i: int| 0 <= i < steps@.len() ==> proto_step_matches(#[trigger] steps@[i], view[i]),
            forall|i: int|
                0 <= i < source@.len() ==> #[trigger] source@[i]@ == view[view.len() - 1 - i],
        decreases source.len(),
    {
        let step = source.pop().unwrap();
        let converted = step_to_proto(step);
        steps.push(converted);
    }
    ProtoAttributePath { steps }
}

/// Convert one diagnostic for the wire
pub fn diagnostic_to_proto(diag: Diagnostic, severity: Severity) -> (r: ProtoDiagnostic)
    ensures
        proto_diag_matches(r, diag@, severity),
{
    let ghost d = diag@;
    let attribute = if diag.attribute.steps.len() == 0 {
        None
    } else {
        Some(path_to_proto(diag.attribute))
    };
    ProtoDiagnostic { severity, summary: diag.summary, detail: diag.detail, attribute }
}

fn push_all(out: &mut Vec<ProtoDiagnostic>, diags: Vec<Diagnostic>, severity: Severity)
    ensures
        final(out)@.len() == old(out)@.len() + diags@.len(),
        forall|i: int|
            0 <= i < old(out)@.len() ==> #[trigger] final(out)@[i] == old(out)@[i],
        forall|i: int|
            0 <= i < diags@.len() ==> proto_diag_matches(
                #[trigger] final(out)@[old(out)@.len() + i],
                diags@[i]@,
                severity,
            ),
{
    let ghost start = out@.len();
    let ghost initial = diags@;
    let mut source = reversed(diags);
    let ghost start_out = out@;
    while source.len() > 0
        invariant
            out@.len() + source@.len() == start + initial.len(),
            out@.len() >= start,
            forall|i: int| 0 <= i < start ==> #[trigger] out@[i] == start_out[i],
            forall|i: int|
                start <= i < out@.len() ==> proto_diag_matches(
                    #[trigger] out@[i],
                    initial[i - start]@,
                    severity,
                ),
            forall|i: int|
                0 <= i < source@.len() ==> #[trigger] source@[i] == initial[initial.len() - 1
                    - i],
            start == start_out.len(),
        decreases source.len(),
    {
        let d = source.pop().unwrap();
        let p = diagnostic_to_proto(d, severity);
        out.push(p);
    }
    assert forall|i: int| 0 <= i < initial.len() implies proto_diag_matches(
        #[trigger] out@[start + i],
        initial[i]@,
        severity,
    ) by {
        assert(start <= start + i < out@.len());
    }
}

/// Convert diagnostics for the wire: the errors first, then the warnings, in their order
pub fn diagnostics_to_proto(diags: Diagnostics) -> (r: Vec<ProtoDiagnostic>)
    ensures
        r@.len() == diags@.errors.len() + diags@.warnings.len(),
        forall|i: int|
            0 <= i < diags@.errors.len() ==> proto_diag_matches(
                #[trigger] r@[i],
                diags@.errors[i],
                Severity::Error,
            ),
        forall|i: int|
            0 <= i < diags@.warnings.len() ==> proto_diag_matches(
                #[trigger] r@[diags@.errors.len() + i],
                diags@.warnings[i],
                Severity::Warning,
            ),
{
    let mut out = Vec::new();
    let ghost ne = diags.errors@.len();
    push_all(&mut out, diags.errors, Severity::Error);
    let ghost first = out@;
    push_all(&mut out, diags.warnings, Severity::Warning);
    assert forall|i: int| 0 <= i < diags@.errors.len() implies proto_diag_matches(
        #[trigger] out@[i],
        diags@.errors[i],
        Severity::Error,
    ) by {
        assert(out@[i] == first[i]);
        assert(first[0 + i] == first[i]);
    }
    out
}

/// Read a dynamic value from the wire: MessagePack when that encoding is filled, JSON otherwise
pub fn raw_from_dynamic(value: DynamicValue) -> (r: RawValue)
    ensures
        r == (if value.msgpack@.len() == 0 {
            RawValue::Json(value.json)
        } else {
            RawValue::MessagePack(value.msgpack)
        }),
{
    if value.msgpack.len() == 0 {
        RawValue::Json(value.json)
    } else {
        RawValue::MessagePack(value.msgpack)
    }
}

/// Write a dynamic value for the wire: the bytes go to the field of their encoding
pub fn raw_to_dynamic(value: RawValue) -> (r: DynamicValue)
    ensures
        match value {
            RawValue::MessagePack(b) => r.msgpack == b && r.json@.len() == 0,
            RawValue::Json(b) => r.json == b && r.msgpack@.len() == 0,
        },
{
    match value {
        RawValue::MessagePack(msgpack) => DynamicValue { msgpack, json: Vec::new() },
        RawValue::Json(json) => DynamicValue { msgpack: Vec::new(), json },
    }
}

/// What a change of a resource is, from the nullity of its prior state, its new state and its
/// configuration
#[derive(Clone, Copy, PartialEq, Eq, Debug)]
pub enum ChangeKind {
    /// Prior, new and configuration states are all present
    Update,
    /// Prior state present, new and configuration states null
    Destroy,
    /// Prior state null, new and configuration states present
    Create,
    /// Any other combination
    Conflict,
}

/// The kind of a change from the nullity of the three states
pub open spec fn change_kind(prior_null: bool, new_null: bool, config_null: bool) -> ChangeKind {
    if !prior_null && !new_null && !config_null {
        ChangeKind::Update
    } else if !prior_null && new_null && config_null {
        ChangeKind::Destroy
    } else if prior_null && !new_null && !config_null {
        ChangeKind::Create
    } else {
        ChangeKind::Conflict
    }
}

/// Decide what a planned or applied change is; a conflicting change is reported in `diags`
/// with `conflict_summary`
pub fn classify_change(
    diags: &mut Diagnostics,
    prior_state: &RawValue,
    new_state: &RawValue,
    config_state: &RawValue,
    conflict_summary: &str,
) -> (r: ChangeKind)
    ensures
        r == change_kind(
            raw_is_null(*prior_state),
            raw_is_null(*new_state),
            raw_is_null(*config_state),
        ),
        r is Conflict ==> one_more_error(
            old(diags)@,
            final(diags)@,
            conflict_summary@,
            Seq::empty(),
            Seq::empty(),
        ),
        !(r is Conflict) ==> final(diags)@ == old(diags)@,
{
    let kind = match (prior_state.is_null(), new_state.is_null(), config_state.is_null()) {
        (false, false, false) => ChangeKind::Update,
        (false, true, true) => ChangeKind::Destroy,
        (true, false, false) => ChangeKind::Create,
        _ => ChangeKind::Conflict,
    };
    if let ChangeKind::Conflict = kind {
        diags.root_error_short(conflict_summary);
    }
    kind
}

/// Decide what a planned change is (`PlanResourceChange`)
pub fn classify_plan(
    diags: &mut Diagnostics,
    prior_state: &RawValue,
    proposed_state: &RawValue,
    config_state: &RawValue,
) -> (r: ChangeKind)
    ensures
        r == change_kind(
            raw_is_null(*prior_state),
            raw_is_null(*proposed_state),
            raw_is_null(*config_state),
        ),
        r is Conflict ==> one_more_error(
            old(diags)@,
            final(diags)@,
            "Resource is planned both for creation and deletion"@,
            Seq::empty(),
            Seq::empty(),
        ),
        !(r is Conflict) ==> final(diags)@ == old(diags)@,
{
    classify_change(
        diags,
        prior_state,
        proposed_state,
        config_state,
        "Resource is planned both for creation and deletion",
    )
}

/// What a planned change gives Terraform: the planned state, the planned private state and
/// the attributes whose change requires the resource to be replaced
#[derive(Debug)]
pub struct PlannedChange {
    pub state: RawValue,
    pub private_state: Vec<u8>,
    pub requires_replace: Vec<AttributePath>,
}

/// The plan of a destroy, whatever the resource planned for it: a null state, no private
/// state, and no attribute that requires a replacement
pub fn planned_destroy() -> (r: PlannedChange)
    ensures
        raw_is_null(r.state),
        r.private_state@.len() == 0,
        r.requires_replace@.len() == 0,
{
    let state = RawValue::default();
    proof {
        crate::raw::law_default_is_null(state);
    }
    PlannedChange { state, private_state: Vec::new(), requires_replace: Vec::new() }
}

/// The plan of a create, from what the resource planned: its state and private state, with no
/// attribute that requires a replacement; nothing when the resource planned nothing
pub fn planned_create(planned: Option<(RawValue, Vec<u8>)>) -> (r: Option<PlannedChange>)
    ensures
        match planned {
            Some((state, private_state)) => r matches Some(c) && c.state == state && c.private_state
                == private_state && c.requires_replace@.len() == 0,
            None => r is None,
        },
{
    match planned {
        Some((state, private_state)) => Some(
            PlannedChange { state, private_state, requires_replace: Vec::new() },
        ),
        None => None,
    }
}

/// Decide what an applied change is (`ApplyResourceChange`)
pub fn classify_apply(
    diags: &mut Diagnostics,
    prior_state: &RawValue,
    planned_state: &RawValue,
    config_state: &RawValue,
) -> (r: ChangeKind)
    ensures
        r == change_kind(
            raw_is_null(*prior_state),
            raw_is_null(*planned_state),
            raw_is_null(*config_state),
        ),
        r is Conflict ==> one_more_error(
            old(diags)@,
            final(diags)@,
            "Resource is marked both for creation and deletion"@,
            Seq::empty(),
            Seq::empty(),
        ),
        !(r is Conflict) ==> final(diags)@ == old(diags)@,
{
    classify_change(
        diags,
        prior_state,
        planned_state,
        config_state,
        "Resource is marked both for creation and deletion",
    )
}

/// The argument that a diagnostic of a function call points to: a path made of one index,
/// or of an attribute then an index
pub open spec fn function_argument_of(path: Seq<StepView>) -> Option<i64> {
    if path.len() == 1 && path[0] is Index {
        Some(path[0]->Index_0)
    } else if path.len() == 2 && path[0] is Attribute && path[1] is Index {
        Some(path[1]->Index_0)
    } else {
        None
    }
}

/// `e` is the error of a function call made from the diagnostic `d`
pub open spec fn function_error_from(e: Option<FunctionError>, d: DiagView) -> bool {
    e matches Some(x) && x.text@ == d.summary && x.function_argument == function_argument_of(
        d.attribute,
    )
}

/// The error of a function call built from a diagnostic: its summary, and the argument it
/// points to
pub fn function_error_of(diag: &Diagnostic) -> (r: FunctionError)
    ensures
        r.text@ == diag@.summary,
        r.function_argument == function_argument_of(diag@.attribute),
{
    let text = diag.summary.clone();
    let steps = &diag.attribute.steps;
    let function_argument = if steps.len() == 1 {
        match &steps[0] {
            AttributePathStep::Index(idx) => Some(*idx),
            _ => None,
        }
    } else if steps.len() == 2 {
        match (&steps[0], &steps[1]) {
            (AttributePathStep::Attribute(_), AttributePathStep::Index(idx)) => Some(*idx),
            _ => None,
        }
    } else {
        None
    };
    FunctionError { text, function_argument }
}

/// The answer to a function call: with an error, no result and the first error; with warnings
/// only, the result and the first warning; otherwise the result alone
pub fn function_call_outcome(result: Option<RawValue>, diags: &Diagnostics) -> (r: (
    Option<RawValue>,
    Option<FunctionError>,
))
    ensures
        diags@.errors.len() > 0 ==> r.0 is None && function_error_from(r.1, diags@.errors[0]),
        diags@.errors.len() == 0 && diags@.warnings.len() > 0 ==> r.0 == result
            && function_error_from(r.1, diags@.warnings[0]),
        diags@.errors.len() == 0 && diags@.warnings.len() == 0 ==> r.0 == result && r.1 is None,
{
    if diags.errors.len() > 0 {
        (None, Some(function_error_of(&diags.errors[0])))
    } else if diags.warnings.len() > 0 {
        (result, Some(function_error_of(&diags.warnings[0])))
    } else {
        (result, None)
    }
}

/// What to do with the state of a resource that Terraform asks to upgrade
#[derive(Debug)]
pub enum UpgradeStep {
    /// The state was saved in the legacy flat format, which is not supported
    Legacy,
    /// The state has the version of the schema: it is kept as it is
    Keep(RawValue),
    /// The state has another version: the resource upgrades it
    Upgrade(RawValue),
}

/// Decide how to upgrade a state given as JSON, saved with `version` while the schema of the
/// resource is at `schema_version`; a legacy state is reported in `diags`
pub fn upgrade_step(diags: &mut Diagnostics, json: Vec<u8>, version: i64, schema_version: i64) -> (r:
    UpgradeStep)
    ensures
        json@.len() == 0 ==> r is Legacy && one_more_error(
            old(diags)@,
            final(diags)@,
            "Upgrading from a legacy state is not supported"@,
            Seq::empty(),
            Seq::empty(),
        ),
        json@.len() > 0 && version == schema_version ==> r == UpgradeStep::Keep(RawValue::Json(json))
            && final(diags)@ == old(diags)@,
        json@.len() > 0 && version != schema_version ==> r == UpgradeStep::Upgrade(
            RawValue::Json(json),
        ) && final(diags)@ == old(diags)@,
{
    if json.len() == 0 {
        diags.root_error_short("Upgrading from a legacy state is not supported");
        UpgradeStep::Legacy
    } else if version == schema_version {
        UpgradeStep::Keep(RawValue::Json(json))
    } else {
        UpgradeStep::Upgrade(RawValue::Json(json))
    }
}

/// The name under which a resource or data source of a provider is registered:
/// the name of the provider, `_`, and the name of the resource
pub fn registered_name(provider_name: &str, name: &str) -> (r: String)
    ensures
        r@ == provider_name@ + seq!['_'] + name@,
{
    proof {
        reveal_strlit("_");
    }
    provider_name.to_owned().concat("_").concat(name)
}

/// Report that no resource, data source or function (`kind`) is registered under `name`:
/// "Could not find `kind` `` `name` `` in provider"
pub fn report_not_found(diags: &mut Diagnostics, kind: &str, name: &str)
    ensures
        one_more_error(
            old(diags)@,
            final(diags)@,
            "Could not find "@ + kind@ + " `"@ + name@ + "` in provider"@,
            Seq::empty(),
            Seq::empty(),
        ),
{
    let message = String::from_str("Could not find ").concat(kind).concat(" `").concat(name).concat(
        "` in provider",
    );
    diags.root_error_short(message.as_str());
}

/// Whether the entry `e` of a provider named `provider_name` is registered under `requested`
pub open spec fn registered_as<T>(provider_name: Seq<char>, e: (String, T), requested: Seq<char>) -> bool {
    provider_name + seq!['_'] + e.0@ == requested
}

/// Find the resource or data source (`kind`) that a request names `requested`, among the
/// entries that a provider named `provider_name` registers: the last entry registered under
/// that name (a later registration replaces an earlier one); when there is none, it is
/// reported (see [`report_not_found`])
pub fn find_registered<T>(
    diags: &mut Diagnostics,
    provider_name: &str,
    registry: &Vec<(String, T)>,
    kind: &str,
    requested: &str,
) -> (r: Option<usize>)
    ensures
        r matches Some(i) ==> i < registry@.len() && registered_as(provider_name@, registry@[i as int], requested@)
            && (forall|j: int| i < j < registry@.len() ==> !registered_as(provider_name@, #[trigger] registry@[j], requested@))
            && final(diags)@ == old(diags)@,
        r is None <==> (forall|j: int| 0 <= j < registry@.len() ==> !registered_as(provider_name@, #[trigger] registry@[j], requested@)),
        r is None ==> one_more_error(
            old(diags)@,
            final(diags)@,
            "Could not find "@ + kind@ + " `"@ + requested@ + "` in provider"@,
            Seq::empty(),
            Seq::empty(),
        ),
{
    let n = registry.len();
    let mut k: usize = n;
    while k > 0
        invariant
            k <= n,
            n == registry@.len(),
            forall|j: int| k <= j < n ==> !registered_as(provider_name@, #[trigger] registry@[j], requested@),
        decreases k,
    {
        let name = registered_name(provider_name, registry[k - 1].0.as_str());
        if same_name(name.as_str(), requested) {
            return Some(k - 1);
        }
        k = k - 1;
    }
    report_not_found(diags, kind, requested);
    None
}

/// Whether two names are the same
fn same_name(a: &str, b: &str) -> (r: bool)
    ensures
        r == (a@ == b@),
{
    match crate::order::compare_str(a, b) {
        crate::order::Order::Equal => true,
        _ => false,
    }
}

/// The range of ports that the plugin server tries, from the lowest to the highest
#[derive(Clone, Copy, Debug)]
pub struct PortRange {
    pub port: u16,
    /// 0 once the range is exhausted
    pub port_max: u16,
}

impl PortRange {
    /// The next port is at most the highest one, unless the range is exhausted
    pub open spec fn wf(&self) -> bool {
        self.port_max == 0 || self.port <= self.port_max
    }

    /// The ports between the two bounds, in whichever order they are given
    pub fn new(port_min: u16, port_max: u16) -> (r: Self)
        ensures
            r.wf(),
            r.port == if port_min <= port_max {
                port_min
            } else {
                port_max
            },
            r.port_max == if port_min <= port_max {
                port_max
            } else {
                port_min
            },
    {
        if port_min <= port_max {
            PortRange { port: port_min, port_max }
        } else {
            PortRange { port: port_max, port_max: port_min }
        }
    }

    /// The next port to try, or `None` once the highest port was given (or the range is empty,
    /// when its highest port is 0)
    pub fn next(&mut self) -> (r: Option<u16>)
        requires
            old(self).wf(),
        ensures
            final(self).wf(),
            old(self).port_max == 0 ==> r is None && *final(self) == *old(self),
            old(self).port_max != 0 ==> r == Some(old(self).port),
            old(self).port_max != 0 && old(self).port == old(self).port_max ==> final(self).port_max
                == 0,
            old(self).port_max != 0 && old(self).port != old(self).port_max ==> final(self).port
                == old(self).port + 1 && final(self).port_max == old(self).port_max,
    {
        if self.port_max == 0 {
            return None;
        }
        let port = self.port;
        if self.port == self.port_max {
            self.port_max = 0;
        } else {
            self.port = self.port + 1;
        }
        Some(port)
    }
}

/// The ports that a range still gives, in order
pub open spec fn ports_left(r: PortRange) -> Seq<int> {
    if r.port_max == 0 {
        Seq::empty()
    } else {
        Seq::new((r.port_max - r.port + 1) as nat, |i: int| r.port + i)
    }
}

/// A range gives its ports one by one in increasing order, each once: a new range gives the
/// ports from the lower bound to the higher one (none when the higher bound is 0), and each
/// call of `next` gives the first port left and leaves the others
pub proof fn law_port_range(a: u16, b: u16, before: PortRange, after: PortRange, r: Option<u16>)
    requires
        before.wf(),
        before.port_max == 0 ==> r is None && after == before,
        before.port_max != 0 ==> r == Some(before.port),
        before.port_max != 0 && before.port == before.port_max ==> after.port_max == 0,
        before.port_max != 0 && before.port != before.port_max ==> after.port == before.port + 1
            && after.port_max == before.port_max,
    ensures
        ports_left(
            PortRange {
                port: if a <= b {
                    a
                } else {
                    b
                },
                port_max: if a <= b {
                    b
                } else {
                    a
                },
            },
        ) == if a <= b {
            if b == 0 {
                Seq::<int>::empty()
            } else {
                Seq::new((b - a + 1) as nat, |i: int| a + i)
            }
        } else {
            Seq::new((a - b + 1) as nat, |i: int| b + i)
        },
        ports_left(before).len() == 0 <==> r is None,
        r matches Some(p) ==> p == ports_left(before)[0] && ports_left(after) == ports_left(
            before,
        ).drop_first(),
{
    if before.port_max != 0 {
        if before.port == before.port_max {
            assert(ports_left(before).drop_first() =~= Seq::<int>::empty());
        } else {
            assert(ports_left(after) =~= ports_left(before).drop_first());
        }
    }
}

} // verus!
