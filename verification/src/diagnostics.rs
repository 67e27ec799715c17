//! [`Diagnostics`]: the errors and warnings sent back to Terraform.

use vstd::prelude::*;

use crate::attribute_path::{AttributePath, StepView};

verus! {

/// The mathematical content of a [`Diagnostic`]
pub struct DiagView {
    pub summary: Seq<char>,
    pub detail: Seq<char>,
    pub attribute: Seq<StepView>,
}

/// Diagnostic component
#[derive(Debug)]
pub struct Diagnostic {
    /// Summary of the diagnostic component
    pub summary: String,
    /// Detail of the diagnostic component
    pub detail: String,
    /// Attribute path for the diagnostic component
    pub attribute: AttributePath,
}

impl View for Diagnostic {
    type V = DiagView;

    open spec fn view(&self) -> DiagView {
        DiagView { summary: self.summary@, detail: self.detail@, attribute: self.attribute@ }
    }
}

impl Clone for Diagnostic {
    fn clone(&self) -> (r: Self)
        ensures
            r@ == self@,
    {
        Diagnostic {
            summary: self.summary.clone(),
            detail: self.detail.clone(),
            attribute: self.attribute.clone(),
        }
    }
}

/// The detail of a diagnostic once a captured backtrace `trace` is attached:
/// the trace alone when there is no detail, else the detail, a newline and the trace.
pub open spec fn detail_with_trace(detail: Seq<char>, trace: Option<Seq<char>>) -> Seq<char> {
    match trace {
        None => detail,
        Some(t) => if detail.len() == 0 {
            t
        } else {
            detail + seq!['\n'] + t
        },
    }
}

/// The characters of an optional string
pub open spec fn opt_string_view(s: Option<String>) -> Option<Seq<char>> {
    match s {
        Some(t) => Some(t@),
        None => None,
    }
}

/// `d` was made from `summary`, `detail` and `attribute`, with whatever backtrace the
/// environment let the process capture.
pub open spec fn made_from(
    d: DiagView,
    summary: Seq<char>,
    detail: Seq<char>,
    attribute: Seq<StepView>,
) -> bool {
    &&& d.summary == summary
    &&& d.attribute == attribute
    &&& exists|trace: Option<Seq<char>>| d.detail == detail_with_trace(detail, trace)
}

/// A backtrace of the current thread, as captured by the standard library.
#[verifier::external_type_specification]
#[verifier::external_body]
pub struct ExBacktrace(std::backtrace::Backtrace);

/// Capture a backtrace of the current thread (`Backtrace::capture`).
///
/// Trusted, with no claim on the result: whether anything is captured depends on the
/// environment (`RUST_BACKTRACE`, `RUST_LIB_BACKTRACE`) and the frames on the machine.
#[verifier::external_body]
fn capture_backtrace() -> (r: std::backtrace::Backtrace) {
    std::backtrace::Backtrace::capture()
}

/// The text of a backtrace when it was captured (`Backtrace::status` is `Captured`),
/// `None` when it is disabled or unsupported.
///
/// Trusted, with no claim on the text, which is the rendering of machine addresses and symbols.
#[verifier::external_body]
fn backtrace_text(backtrace: &std::backtrace::Backtrace) -> (r: Option<String>) {
    match backtrace.status() {
        std::backtrace::BacktraceStatus::Captured => Some(format!("{}", backtrace)),
        _ => None,
    }
}

/// Diagnostic
impl Diagnostic {
    /// Create a diagnostic from its parts and an already captured backtrace (if any)
    pub fn with_backtrace(
        summary: &str,
        detail: &str,
        attribute: AttributePath,
        trace: Option<String>,
    ) -> (r: Self)
        ensures
            r@.summary == summary@,
            r@.attribute == attribute@,
            r@.detail == detail_with_trace(detail@, opt_string_view(trace)),
    {
        proof {
            reveal_strlit("\n");
        }
        let detail = match trace {
            None => detail.to_owned(),
            Some(t) => {
                if detail.is_empty() {
                    t
                } else {
                    detail.to_owned().concat("\n").concat(t.as_str())
                }
            },
        };
        Diagnostic { summary: summary.to_owned(), detail, attribute }
    }

    /// Create a diagnostic
    ///
    /// When the environment enables backtraces, the captured backtrace is appended to `detail`.
    pub fn new(summary: &str, detail: &str, attribute: AttributePath) -> (r: Self)
        ensures
            made_from(r@, summary@, detail@, attribute@),
    {
        let backtrace = capture_backtrace();
        let trace = backtrace_text(&backtrace);
        let ghost t = opt_string_view(trace);
        let r = Self::with_backtrace(summary, detail, attribute, trace);
        assert(r@.detail == detail_with_trace(detail@, t));
        r
    }

    /// Create a diagnostic for a function argument
    pub fn function(index: i64, message: &str) -> (r: Self)
        ensures
            made_from(r@, message@, Seq::empty(), seq![StepView::Index(index)]),
    {
        proof {
            reveal_strlit("");
            assert(""@ =~= Seq::<char>::empty());
        }
        Self::new(message, "", AttributePath::function_argument(index))
    }

    /// Create a diagnostic without [`AttributePath`]
    pub fn root(summary: &str, detail: &str) -> (r: Self)
        ensures
            made_from(r@, summary@, detail@, Seq::empty()),
    {
        Self::new(summary, detail, AttributePath::default())
    }

    /// Create a diagnostic without details
    pub fn short(summary: &str, attribute: AttributePath) -> (r: Self)
        ensures
            made_from(r@, summary@, Seq::empty(), attribute@),
    {
        proof {
            reveal_strlit("");
            assert(""@ =~= Seq::<char>::empty());
        }
        Self::new(summary, "", attribute)
    }

    /// Create a diagnostic without [`AttributePath`] nor details
    pub fn root_short(summary: &str) -> (r: Self)
        ensures
            made_from(r@, summary@, Seq::empty(), Seq::empty()),
    {
        proof {
            reveal_strlit("");
            assert(""@ =~= Seq::<char>::empty());
        }
        Self::new(summary, "", AttributePath::default())
    }
}

/// List of Errors and Warnings to send back to Terraform
#[derive(Debug)]
pub struct Diagnostics {
    /// List of errors
    pub errors: Vec<Diagnostic>,
    /// List of warnings
    pub warnings: Vec<Diagnostic>,
}

/// The mathematical content of [`Diagnostics`]
pub struct DiagsView {
    pub errors: Seq<DiagView>,
    pub warnings: Seq<DiagView>,
}

impl View for Diagnostics {
    type V = DiagsView;

    open spec fn view(&self) -> DiagsView {
        DiagsView {
            errors: self.errors@.map_values(|d: Diagnostic| d@),
            warnings: self.warnings@.map_values(|d: Diagnostic| d@),
        }
    }
}

impl Default for Diagnostics {
    /// No error, no warning
    fn default() -> (r: Self)
        ensures
            r@.errors.len() == 0,
            r@.warnings.len() == 0,
    {
        Diagnostics { errors: Vec::new(), warnings: Vec::new() }
    }
}

/// `after` is `before` with one more error made from the given parts
pub open spec fn one_more_error(
    before: DiagsView,
    after: DiagsView,
    summary: Seq<char>,
    detail: Seq<char>,
    attribute: Seq<StepView>,
) -> bool {
    &&& after.errors.len() == before.errors.len() + 1
    &&& after.errors.drop_last() == before.errors
    &&& made_from(after.errors.last(), summary, detail, attribute)
    &&& after.warnings == before.warnings
}

/// `after` is `before` with one more warning made from the given parts
pub open spec fn one_more_warning(
    before: DiagsView,
    after: DiagsView,
    summary: Seq<char>,
    detail: Seq<char>,
    attribute: Seq<StepView>,
) -> bool {
    &&& after.warnings.len() == before.warnings.len() + 1
    &&& after.warnings.drop_last() == before.warnings
    &&& made_from(after.warnings.last(), summary, detail, attribute)
    &&& after.errors == before.errors
}

proof fn lemma_push<A>(s: Seq<A>, x: A)
    ensures
        s.push(x).len() == s.len() + 1,
        s.push(x).drop_last() == s,
        s.push(x).last() == x,
{
    assert(s.push(x).drop_last() =~= s);
}

impl Diagnostics {
    /// Add an error diagnostic
    pub fn add_error(&mut self, diag: Diagnostic)
        ensures
            final(self)@.errors == old(self)@.errors.push(diag@),
            final(self)@.warnings == old(self)@.warnings,
            final(self)@.errors.len() == old(self)@.errors.len() + 1,
            final(self)@.errors.drop_last() == old(self)@.errors,
            final(self)@.errors.last() == diag@,
    {
        self.errors.push(diag);
        assert(self@.errors =~= old(self)@.errors.push(diag@));
        proof {
            lemma_push(old(self)@.errors, diag@);
        }
    }

    /// Add a warning diagnostic
    pub fn add_warning(&mut self, diag: Diagnostic)
        ensures
            final(self)@.warnings == old(self)@.warnings.push(diag@),
            final(self)@.errors == old(self)@.errors,
            final(self)@.warnings.len() == old(self)@.warnings.len() + 1,
            final(self)@.warnings.drop_last() == old(self)@.warnings,
            final(self)@.warnings.last() == diag@,
    {
        self.warnings.push(diag);
        assert(self@.warnings =~= old(self)@.warnings.push(diag@));
        proof {
            lemma_push(old(self)@.warnings, diag@);
        }
    }

    /// Add an error
    pub fn error(&mut self, summary: &str, detail: &str, attribute: AttributePath)
        ensures
            one_more_error(old(self)@, final(self)@, summary@, detail@, attribute@),
    {
        self.add_error(Diagnostic::new(summary, detail, attribute))
    }

    /// Add an error without [`AttributePath`]
    pub fn root_error(&mut self, summary: &str, detail: &str)
        ensures
            one_more_error(old(self)@, final(self)@, summary@, detail@, Seq::empty()),
    {
        self.add_error(Diagnostic::root(summary, detail))
    }

    /// Add an error without details
    pub fn error_short(&mut self, summary: &str, attribute: AttributePath)
        ensures
            one_more_error(old(self)@, final(self)@, summary@, Seq::empty(), attribute@),
    {
        self.add_error(Diagnostic::short(summary, attribute))
    }

    /// Add an error without [`AttributePath`] nor details
    pub fn root_error_short(&mut self, summary: &str)
        ensures
            one_more_error(old(self)@, final(self)@, summary@, Seq::empty(), Seq::empty()),
    {
        self.add_error(Diagnostic::root_short(summary))
    }

    /// Add a warning
    pub fn warning(&mut self, summary: &str, detail: &str, attribute: AttributePath)
        ensures
            one_more_warning(old(self)@, final(self)@, summary@, detail@, attribute@),
    {
        self.add_warning(Diagnostic::new(summary, detail, attribute))
    }

    /// Add a warning without [`AttributePath`]
    pub fn root_warning(&mut self, summary: &str, detail: &str)
        ensures
            one_more_warning(old(self)@, final(self)@, summary@, detail@, Seq::empty()),
    {
        self.add_warning(Diagnostic::root(summary, detail))
    }

    /// Add a warning without details
    pub fn warning_short(&mut self, summary: &str, attribute: AttributePath)
        ensures
            one_more_warning(old(self)@, final(self)@, summary@, Seq::empty(), attribute@),
    {
        self.add_warning(Diagnostic::short(summary, attribute))
    }

    /// Add a warning without [`AttributePath`] nor details
    pub fn root_warning_short(&mut self, summary: &str)
        ensures
            one_more_warning(old(self)@, final(self)@, summary@, Seq::empty(), Seq::empty()),
    {
        self.add_warning(Diagnostic::root_short(summary))
    }

    /// Append other diagnostics
    pub fn add_diagnostics(&mut self, diags: Diagnostics)
        ensures
            final(self)@.errors == old(self)@.errors + diags@.errors,
            final(self)@.warnings == old(self)@.warnings + diags@.warnings,
    {
        let ghost added = diags@;
        let mut diags = diags;
        self.errors.append(&mut diags.errors);
        self.warnings.append(&mut diags.warnings);
        assert(self@.errors =~= old(self)@.errors + added.errors);
        assert(self@.warnings =~= old(self)@.warnings + added.warnings);
    }

    /// Add an internal error if there is no existing errors
    pub fn internal_error(&mut self)
        ensures
            internal_error_added(old(self)@, final(self)@),
    {
        if self.errors.len() == 0 {
            self.root_error_short("Internal error");
        }
    }

    /// Create an error for a function argument
    pub fn function_error(&mut self, index: i64, message: &str)
        ensures
            one_more_error(
                old(self)@,
                final(self)@,
                message@,
                Seq::empty(),
                seq![StepView::Index(index)],
            ),
    {
        self.add_error(Diagnostic::function(index, message))
    }
}

/// What [`Diagnostics::internal_error`] does: add the error "Internal error" when there is no
/// error yet, and nothing otherwise
pub open spec fn internal_error_added(before: DiagsView, after: DiagsView) -> bool {
    &&& before.errors.len() == 0 ==> one_more_error(
        before,
        after,
        "Internal error"@,
        Seq::empty(),
        Seq::empty(),
    )
    &&& before.errors.len() > 0 ==> after == before
}

/// After an internal error there is at least one error, so that a second one adds nothing:
/// reporting an internal error twice is reporting it once
pub proof fn law_internal_error_once(a: DiagsView, b: DiagsView, c: DiagsView)
    requires
        internal_error_added(a, b),
        internal_error_added(b, c),
    ensures
        b.errors.len() > 0,
        c == b,
{
}

/// A diagnostic that a step of validation reports: an error or a warning, with its parts
pub struct Report {
    pub is_error: bool,
    pub summary: Seq<char>,
    pub detail: Seq<char>,
    pub path: Seq<StepView>,
}

/// An error report
pub open spec fn error_report(summary: Seq<char>, detail: Seq<char>, path: Seq<StepView>) -> Report {
    Report { is_error: true, summary, detail, path }
}

/// A warning report
pub open spec fn warning_report(summary: Seq<char>, detail: Seq<char>, path: Seq<StepView>) -> Report {
    Report { is_error: false, summary, detail, path }
}

/// The errors among the reports, in order
pub open spec fn errors_of(r: Seq<Report>) -> Seq<Report>
    decreases r.len(),
{
    if r.len() == 0 {
        Seq::empty()
    } else if r.last().is_error {
        errors_of(r.drop_last()).push(r.last())
    } else {
        errors_of(r.drop_last())
    }
}

/// The warnings among the reports, in order
pub open spec fn warnings_of(r: Seq<Report>) -> Seq<Report>
    decreases r.len(),
{
    if r.len() == 0 {
        Seq::empty()
    } else if !r.last().is_error {
        warnings_of(r.drop_last()).push(r.last())
    } else {
        warnings_of(r.drop_last())
    }
}

/// The diagnostics in `added` were made from the reports, in order
pub open spec fn made_from_reports(added: Seq<DiagView>, reports: Seq<Report>) -> bool {
    &&& added.len() == reports.len()
    &&& forall|i: int|
        0 <= i < reports.len() ==> made_from(
            #[trigger] added[i],
            reports[i].summary,
            reports[i].detail,
            reports[i].path,
        )
}

/// `after` is `before` with the errors and the warnings of `reports` appended, in order
pub open spec fn reported(before: DiagsView, after: DiagsView, reports: Seq<Report>) -> bool {
    &&& after.errors.len() >= before.errors.len()
    &&& after.warnings.len() >= before.warnings.len()
    &&& after.errors.take(before.errors.len() as int) == before.errors
    &&& after.warnings.take(before.warnings.len() as int) == before.warnings
    &&& made_from_reports(after.errors.skip(before.errors.len() as int), errors_of(reports))
    &&& made_from_reports(after.warnings.skip(before.warnings.len() as int), warnings_of(reports))
}

proof fn lemma_errors_of_append(a: Seq<Report>, b: Seq<Report>)
    ensures
        errors_of(a + b) == errors_of(a) + errors_of(b),
        warnings_of(a + b) == warnings_of(a) + warnings_of(b),
    decreases b.len(),
{
    if b.len() == 0 {
        assert(a + b =~= a);
        assert(errors_of(a) + errors_of(b) =~= errors_of(a));
        assert(warnings_of(a) + warnings_of(b) =~= warnings_of(a));
    } else {
        lemma_errors_of_append(a, b.drop_last());
        assert((a + b).drop_last() =~= a + b.drop_last());
        assert((a + b).last() == b.last());
        if b.last().is_error {
            assert(errors_of(a) + errors_of(b) =~= (errors_of(a) + errors_of(b.drop_last())).push(b.last()));
        } else {
            assert(warnings_of(a) + warnings_of(b) =~= (warnings_of(a) + warnings_of(b.drop_last())).push(b.last()));
        }
    }
}

/// Nothing was reported
pub proof fn lemma_reported_none(d: DiagsView)
    ensures
        reported(d, d, Seq::empty()),
{
    assert(d.errors.take(d.errors.len() as int) =~= d.errors);
    assert(d.warnings.take(d.warnings.len() as int) =~= d.warnings);
    assert(d.errors.skip(d.errors.len() as int) =~= Seq::<DiagView>::empty());
    assert(d.warnings.skip(d.warnings.len() as int) =~= Seq::<DiagView>::empty());
}

/// Reports made in two steps are the reports of the first step followed by those of the second
pub proof fn lemma_reported_chain(a: DiagsView, b: DiagsView, c: DiagsView, r1: Seq<Report>, r2: Seq<Report>)
    requires
        reported(a, b, r1),
        reported(b, c, r2),
    ensures
        reported(a, c, r1 + r2),
{
    lemma_errors_of_append(r1, r2);
    let ea = a.errors.len() as int;
    let eb = b.errors.len() as int;
    let wa = a.warnings.len() as int;
    let wb = b.warnings.len() as int;
    assert(c.errors.take(ea) =~= b.errors.take(ea));
    assert(c.warnings.take(wa) =~= b.warnings.take(wa));
    assert(c.errors.skip(ea) =~= b.errors.skip(ea) + c.errors.skip(eb));
    assert(c.warnings.skip(wa) =~= b.warnings.skip(wa) + c.warnings.skip(wb));
    let e1 = errors_of(r1);
    let e2 = errors_of(r2);
    assert forall|i: int| 0 <= i < (e1 + e2).len() implies made_from(
        #[trigger] c.errors.skip(ea)[i],
        (e1 + e2)[i].summary,
        (e1 + e2)[i].detail,
        (e1 + e2)[i].path,
    ) by {
        if i < e1.len() {
            assert(c.errors.skip(ea)[i] == b.errors.skip(ea)[i]);
        } else {
            assert(c.errors.skip(ea)[i] == c.errors.skip(eb)[i - e1.len()]);
        }
    }
    let w1 = warnings_of(r1);
    let w2 = warnings_of(r2);
    assert forall|i: int| 0 <= i < (w1 + w2).len() implies made_from(
        #[trigger] c.warnings.skip(wa)[i],
        (w1 + w2)[i].summary,
        (w1 + w2)[i].detail,
        (w1 + w2)[i].path,
    ) by {
        if i < w1.len() {
            assert(c.warnings.skip(wa)[i] == b.warnings.skip(wa)[i]);
        } else {
            assert(c.warnings.skip(wa)[i] == c.warnings.skip(wb)[i - w1.len()]);
        }
    }
}

/// One more error is a report of that error
pub proof fn lemma_reported_error(
    a: DiagsView,
    b: DiagsView,
    summary: Seq<char>,
    detail: Seq<char>,
    path: Seq<StepView>,
)
    requires
        one_more_error(a, b, summary, detail, path),
    ensures
        reported(a, b, seq![error_report(summary, detail, path)]),
{
    let r = seq![error_report(summary, detail, path)];
    assert(r.drop_last() =~= Seq::<Report>::empty());
    reveal_with_fuel(errors_of, 2);
    reveal_with_fuel(warnings_of, 2);
    assert(errors_of(r) =~= seq![error_report(summary, detail, path)]);
    assert(warnings_of(r) =~= Seq::<Report>::empty());
    assert(b.errors.take(a.errors.len() as int) =~= b.errors.drop_last());
    assert(b.errors.skip(a.errors.len() as int) =~= seq![b.errors.last()]);
    assert(b.warnings.take(a.warnings.len() as int) =~= a.warnings);
    assert(b.warnings.skip(a.warnings.len() as int) =~= Seq::<DiagView>::empty());
}

/// One more warning is a report of that warning
pub proof fn lemma_reported_warning(
    a: DiagsView,
    b: DiagsView,
    summary: Seq<char>,
    detail: Seq<char>,
    path: Seq<StepView>,
)
    requires
        one_more_warning(a, b, summary, detail, path),
    ensures
        reported(a, b, seq![warning_report(summary, detail, path)]),
{
    let r = seq![warning_report(summary, detail, path)];
    assert(r.drop_last() =~= Seq::<Report>::empty());
    reveal_with_fuel(errors_of, 2);
    reveal_with_fuel(warnings_of, 2);
    assert(warnings_of(r) =~= seq![warning_report(summary, detail, path)]);
    assert(errors_of(r) =~= Seq::<Report>::empty());
    assert(b.warnings.take(a.warnings.len() as int) =~= b.warnings.drop_last());
    assert(b.warnings.skip(a.warnings.len() as int) =~= seq![b.warnings.last()]);
    assert(b.errors.take(a.errors.len() as int) =~= a.errors);
    assert(b.errors.skip(a.errors.len() as int) =~= Seq::<DiagView>::empty());
}

} // verus!
