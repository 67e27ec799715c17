//! [`AttributePath`]: the path to an attribute, reported with diagnostics.

use vstd::prelude::*;

use crate::text::{debug_quote, debug_quoted, decimal, i64_to_decimal};

verus! {

/// One step of an attribute path
#[derive(Debug)]
pub enum AttributePathStep {
    /// Access to the attribute `.name`
    Attribute(String),
    /// Access to the element `["key"]`
    Key(String),
    /// Access to the element `[idx]`
    Index(i64),
}

/// The mathematical content of an [`AttributePathStep`]
pub enum StepView {
    Attribute(Seq<char>),
    Key(Seq<char>),
    Index(i64),
}

impl View for AttributePathStep {
    type V = StepView;

    open spec fn view(&self) -> StepView {
        match self {
            AttributePathStep::Attribute(name) => StepView::Attribute(name@),
            AttributePathStep::Key(key) => StepView::Key(key@),
            AttributePathStep::Index(idx) => StepView::Index(*idx),
        }
    }
}

impl Clone for AttributePathStep {
    fn clone(&self) -> (r: Self)
        ensures
            r@ == self@,
    {
        match self {
            AttributePathStep::Attribute(name) => AttributePathStep::Attribute(name.clone()),
            AttributePathStep::Key(key) => AttributePathStep::Key(key.clone()),
            AttributePathStep::Index(idx) => AttributePathStep::Index(*idx),
        }
    }
}

/// Represent the path to an attribute
#[derive(Debug)]
pub struct AttributePath {
    pub steps: Vec<AttributePathStep>,
}

impl View for AttributePath {
    type V = Seq<StepView>;

    open spec fn view(&self) -> Seq<StepView> {
        self.steps@.map_values(|s: AttributePathStep| s@)
    }
}

impl Clone for AttributePath {
    fn clone(&self) -> (r: Self)
        ensures
            r@ == self@,
    {
        let mut steps: Vec<AttributePathStep> = Vec::new();
        let n = self.steps.len();
        for i in 0..n
            invariant
                n == self.steps.len(),
                steps@.len() == i,
                forall|j: int| 0 <= j < i ==> #[trigger] steps@[j]@ == self.steps@[j]@,
        {
            steps.push(self.steps[i].clone());
        }
        let r = AttributePath { steps };
        assert(r@ =~= self@);
        r
    }
}

impl Default for AttributePath {
    /// The empty path (the root)
    fn default() -> (r: Self)
        ensures
            r@ == Seq::<StepView>::empty(),
    {
        let r = AttributePath { steps: Vec::new() };
        assert(r@ =~= Seq::<StepView>::empty());
        r
    }
}

/// Text of a path as displayed: attribute names joined by `.` (no dot before the first step),
/// keys as `["key"]` (quoted as `{:?}` does) and indices as `[idx]`.
pub open spec fn path_text(steps: Seq<StepView>) -> Seq<char>
    decreases steps.len(),
{
    if steps.len() == 0 {
        Seq::empty()
    } else {
        path_text(steps.drop_last()) + step_text(steps.last(), steps.len() > 1)
    }
}

/// Text of one step; `dotted` tells whether an attribute name gets a leading `.`.
pub open spec fn step_text(step: StepView, dotted: bool) -> Seq<char> {
    match step {
        StepView::Attribute(name) => if dotted {
            seq!['.'] + name
        } else {
            name
        },
        StepView::Key(key) => seq!['['] + debug_quoted(key) + seq![']'],
        StepView::Index(idx) => seq!['['] + decimal(idx as int) + seq![']'],
    }
}

impl AttributePathStep {
    /// Text of the step alone: the name of an attribute, `["key"]` or `[idx]`
    pub fn to_string(&self) -> (r: String)
        ensures
            r@ == step_text(self@, false),
    {
        step_string(self, false)
    }

    /// The path of two steps: `self` then `rhs`
    pub fn then(self, rhs: AttributePathStep) -> (r: AttributePath)
        ensures
            r@ == seq![self@, rhs@],
    {
        let mut steps = Vec::new();
        steps.push(self);
        steps.push(rhs);
        let r = AttributePath { steps };
        assert(r@ =~= seq![self@, rhs@]);
        r
    }
}

fn step_string(step: &AttributePathStep, dotted: bool) -> (r: String)
    ensures
        r@ == step_text(step@, dotted),
{
    proof {
        reveal_strlit(".");
        reveal_strlit("[");
        reveal_strlit("]");
    }
    match step {
        AttributePathStep::Attribute(name) => {
            if dotted {
                String::from_str(".").concat(name.as_str())
            } else {
                name.clone()
            }
        },
        AttributePathStep::Key(key) => {
            let quoted = debug_quote(key.as_str());
            String::from_str("[").concat(quoted.as_str()).concat("]")
        },
        AttributePathStep::Index(idx) => {
            let digits = i64_to_decimal(*idx);
            String::from_str("[").concat(digits.as_str()).concat("]")
        },
    }
}

impl AttributePath {
    /// Create a new attribute path with the `root` attribute
    pub fn new(root: &str) -> (r: Self)
        ensures
            r@ == seq![StepView::Attribute(root@)],
    {
        let mut steps = Vec::new();
        steps.push(AttributePathStep::Attribute(root.to_owned()));
        let r = Self { steps };
        assert(r@ =~= seq![StepView::Attribute(root@)]);
        r
    }

    /// Create a new attribute path for a function argument
    pub fn function_argument(index: i64) -> (r: Self)
        ensures
            r@ == seq![StepView::Index(index)],
    {
        let mut steps = Vec::new();
        steps.push(AttributePathStep::Index(index));
        let r = Self { steps };
        assert(r@ =~= seq![StepView::Index(index)]);
        r
    }

    /// Create a new attribute path from a single step
    pub fn from_step(step: AttributePathStep) -> (r: Self)
        ensures
            r@ == seq![step@],
    {
        let mut steps = Vec::new();
        steps.push(step);
        let r = Self { steps };
        assert(r@ =~= seq![step@]);
        r
    }

    /// Create a new attribute path where the attribute `.name` has been appended
    pub fn attribute(self, name: &str) -> (r: Self)
        ensures
            r@ == self@.push(StepView::Attribute(name@)),
    {
        let mut path = self;
        path.add_attribute(name);
        path
    }

    /// Create a new attribute path where the access `["key"]` has been appended
    pub fn key(self, key: &str) -> (r: Self)
        ensures
            r@ == self@.push(StepView::Key(key@)),
    {
        let mut path = self;
        path.add_key(key);
        path
    }

    /// Create a new attribute path where the access `[idx]` has been appended
    pub fn index(self, idx: i64) -> (r: Self)
        ensures
            r@ == self@.push(StepView::Index(idx)),
    {
        let mut path = self;
        path.add_index(idx);
        path
    }

    /// add name access to the path (ie: `.name`); gives the path back, for chaining
    pub fn add_attribute(&mut self, name: &str) -> (r: &mut Self)
        ensures
            (*r)@ == old(self)@.push(StepView::Attribute(name@)),
            *final(self) == *final(r),
    {
        self.add_step(AttributePathStep::Attribute(name.to_owned()))
    }

    /// add key access to the path (ie: `["key"]`); gives the path back, for chaining
    pub fn add_key(&mut self, key: &str) -> (r: &mut Self)
        ensures
            (*r)@ == old(self)@.push(StepView::Key(key@)),
            *final(self) == *final(r),
    {
        self.add_step(AttributePathStep::Key(key.to_owned()))
    }

    /// add index access to the path (ie: `[idx]`); gives the path back, for chaining
    pub fn add_index(&mut self, idx: i64) -> (r: &mut Self)
        ensures
            (*r)@ == old(self)@.push(StepView::Index(idx)),
            *final(self) == *final(r),
    {
        self.add_step(AttributePathStep::Index(idx))
    }

    /// Add step to the path; gives the path back, for chaining
    pub fn add_step(&mut self, step: AttributePathStep) -> (r: &mut Self)
        ensures
            (*r)@ == old(self)@.push(step@),
            *final(self) == *final(r),
    {
        self.steps.push(step);
        assert(self@ =~= old(self)@.push(step@));
        self
    }

    /// Add multiple steps into the path; gives the path back, for chaining
    pub fn add_steps(&mut self, steps: AttributePath) -> (r: &mut Self)
        ensures
            (*r)@ == old(self)@ + steps@,
            *final(self) == *final(r),
    {
        let ghost added = steps@;
        let mut steps = steps;
        self.steps.append(&mut steps.steps);
        assert(self@ =~= old(self)@ + added);
        self
    }

    /// The path with `step` appended (what `path + step` gives)
    pub fn with_step(self, step: AttributePathStep) -> (r: Self)
        ensures
            r@ == self@.push(step@),
    {
        let mut path = self;
        path.add_step(step);
        path
    }

    /// Text of the path, e.g. `read["name"].cmd` or `update[2].triggers`
    pub fn to_string(&self) -> (r: String)
        ensures
            r@ == path_text(self@),
    {
        let mut out = String::new();
        let n = self.steps.len();
        for i in 0..n
            invariant
                n == self.steps.len(),
                out@ == path_text(self@.take(i as int)),
        {
            let piece = step_string(&self.steps[i], i > 0);
            proof {
                let prefix = self@.take(i as int + 1);
                assert(prefix.drop_last() =~= self@.take(i as int));
                assert(prefix.last() == self.steps@[i as int]@);
            }
            out = out.concat(piece.as_str());
        }
        assert(self@.take(n as int) =~= self@);
        out
    }
}

} // verus!
