//! The feature tree consumed by the executor: features hold background
//! steps, scenarios and rule groups; scenarios hold steps, optional tags
//! and an optional examples table.

use vstd::prelude::*;

verus! {

/// The role of a step: the closed set Given / When / Then.
#[derive(Clone, Copy, PartialEq, Eq, Structural, Debug)]
pub enum StepType {
    Given,
    When,
    Then,
}

/// One Given/When/Then instruction, optionally carrying a data table
/// (ordered rows of ordered cells) and an attached text block.
pub struct Step {
    pub ty: StepType,
    pub value: String,
    pub table: Option<Vec<Vec<String>>>,
    pub docstring: Option<String>,
}

/// A scenario: a name, an optional tag set, an ordered step list and an
/// optional examples table.
pub struct Scenario {
    pub name: String,
    pub tags: Option<Vec<String>>,
    pub steps: Vec<Step>,
    pub examples: Option<Examples>,
}

/// An examples table: header names in declaration order, then the rows.
pub struct Examples {
    pub header: Vec<String>,
    pub rows: Vec<Vec<String>>,
}

/// A named grouping of scenarios within a feature.
pub struct Rule {
    pub name: String,
    pub scenarios: Vec<Scenario>,
}

/// A top-level specification document: background steps are prepended to
/// every scenario of the feature, including those inside rules.
pub struct Feature {
    pub name: String,
    pub background: Option<Vec<Step>>,
    pub scenarios: Vec<Scenario>,
    pub rules: Vec<Rule>,
}

/// Two steps hold the same text in every part: same role, same step text,
/// same table cells and same attached text block.
pub open spec fn step_views_equal(a: Step, b: Step) -> bool {
    &&& a.ty == b.ty
    &&& a.value@ == b.value@
    &&& a.table is Some <==> b.table is Some
    &&& a.table matches Some(at) ==> (b.table matches Some(bt) && at.deep_view() == bt.deep_view())
    &&& a.docstring is Some <==> b.docstring is Some
    &&& a.docstring matches Some(ad) ==> (b.docstring matches Some(bd) && ad@ == bd@)
}

pub fn copy_string_vec(v: &Vec<String>) -> (r: Vec<String>)
    ensures
        r@ == v@,
        r.deep_view() == v.deep_view(),
{
    let mut out: Vec<String> = Vec::new();
    let mut i: usize = 0;
    while i < v.len()
        invariant
            i <= v.len(),
            out@ =~= v@.subrange(0, i as int),
        decreases v.len() - i,
    {
        out.push(v[i].clone());
        i += 1;
    }
    proof {
        assert(out@ =~= v@);
        assert(out.deep_view() =~~= v.deep_view());
    }
    out
}

pub fn copy_table(t: &Vec<Vec<String>>) -> (r: Vec<Vec<String>>)
    ensures
        r.deep_view() == t.deep_view(),
{
    let mut out: Vec<Vec<String>> = Vec::new();
    let mut i: usize = 0;
    while i < t.len()
        invariant
            i <= t.len(),
            out@.len() == i,
            forall|j: int| 0 <= j < i ==> #[trigger] out@[j]@ == t@[j]@,
        decreases t.len() - i,
    {
        out.push(copy_string_vec(&t[i]));
        i += 1;
    }
    proof {
        assert(out.deep_view() =~~= t.deep_view());
    }
    out
}

pub fn copy_step(s: &Step) -> (r: Step)
    ensures
        step_views_equal(r, *s),
{
    let table = match &s.table {
        Some(t) => Some(copy_table(t)),
        None => None,
    };
    let docstring = match &s.docstring {
        Some(d) => Some(d.clone()),
        None => None,
    };
    Step { ty: s.ty, value: s.value.clone(), table, docstring }
}

} // verus!
