//! Outline-variable interpolation: each `<name>` token of the examples
//! header is replaced, in header-declaration order, throughout a step's
//! text, table cells and attached text block.

use vstd::prelude::*;

use crate::feature::Step;
use crate::feature::step_views_equal;
use crate::textops::contains_sub;
use crate::textops::lemma_replaced_identity;
use crate::textops::replace_all;
use crate::textops::replaced;

verus! {

/// The token the interpolator looks for: the header name in angle
/// brackets.
pub open spec fn wrap_key(name: Seq<char>) -> Seq<char> {
    "<"@ + name + ">"@
}

/// `t` with each header token replaced by the same row's value, one
/// header name after the other in declaration order.
pub open spec fn interp_text(t: Seq<char>, header: Seq<Seq<char>>, row: Seq<Seq<char>>) -> Seq<
    char,
>
    decreases header.len(),
{
    if header.len() == 0 || row.len() != header.len() {
        t
    } else {
        interp_text(
            replaced(t, wrap_key(header[0]), row[0]),
            header.drop_first(),
            row.drop_first(),
        )
    }
}

/// How an interpolated step relates to its original: every text part is
/// the original part run through `interp_text`; the shape is unchanged.
pub open spec fn step_interpolated(
    orig: Step,
    r: Step,
    header: Seq<Seq<char>>,
    row: Seq<Seq<char>>,
) -> bool {
    &&& r.ty == orig.ty
    &&& r.value@ == interp_text(orig.value@, header, row)
    &&& (orig.table is Some <==> r.table is Some)
    &&& (orig.table matches Some(t) ==> r.table matches Some(rt) && table_interpolated(
        t,
        rt,
        header,
        row,
    ))
    &&& (orig.docstring is Some <==> r.docstring is Some)
    &&& (orig.docstring matches Some(d) ==> r.docstring matches Some(rd) && rd@ == interp_text(
        d@,
        header,
        row,
    ))
}

/// Every cell of the interpolated table is the original cell run through
/// `interp_text`; row and cell counts are unchanged.
pub open spec fn table_interpolated(
    orig: Vec<Vec<String>>,
    r: Vec<Vec<String>>,
    header: Seq<Seq<char>>,
    row: Seq<Seq<char>>,
) -> bool {
    &&& r@.len() == orig@.len()
    &&& (forall|i: int| 0 <= i < orig@.len() ==> #[trigger] r@[i]@.len() == orig@[i]@.len())
    &&& (forall|i: int, j: int|
        0 <= i < orig@.len() && 0 <= j < orig@[i]@.len() ==> #[trigger] r@[i]@[j]@ == interp_text(
            orig@[i]@[j]@,
            header,
            row,
        ))
}

fn interp_string(text: &String, header: &Vec<String>, example: &Vec<String>) -> (r: String)
    requires
        header@.len() == example@.len(),
    ensures
        r@ == interp_text(text@, header.deep_view(), example.deep_view()),
{
    let ghost hd = header.deep_view();
    let ghost rd = example.deep_view();
    let mut cur: String = text.clone();
    let mut i: usize = 0;
    proof {
        assert(hd.skip(0) =~= hd);
        assert(rd.skip(0) =~= rd);
    }
    while i < header.len()
        invariant
            i <= header.len(),
            header@.len() == example@.len(),
            hd == header.deep_view(),
            rd == example.deep_view(),
            interp_text(text@, hd, rd) == interp_text(cur@, hd.skip(i as int), rd.skip(i as int)),
        decreases header.len() - i,
    {
        let key = String::from_str("<").concat(header[i].as_str()).concat(">");
        proof {
            reveal_strlit("<");
            reveal_strlit(">");
            assert(hd[i as int] == header@[i as int]@);
            assert(rd[i as int] == example@[i as int]@);
            assert(key@ == wrap_key(hd[i as int]));
            assert(key@.len() > 0);
        }
        let next = replace_all(cur.as_str(), key.as_str(), example[i].as_str());
        proof {
            assert(hd.skip(i as int).drop_first() =~= hd.skip(i as int + 1));
            assert(rd.skip(i as int).drop_first() =~= rd.skip(i as int + 1));
            assert(hd.skip(i as int)[0] == hd[i as int]);
            assert(rd.skip(i as int)[0] == rd[i as int]);
            assert(interp_text(cur@, hd.skip(i as int), rd.skip(i as int)) == interp_text(
                next@,
                hd.skip(i as int + 1),
                rd.skip(i as int + 1),
            ));
        }
        cur = next;
        i += 1;
    }
    proof {
        assert(hd.skip(header@.len() as int) =~= Seq::<Seq<char>>::empty());
        assert(rd.skip(example@.len() as int) =~= Seq::<Seq<char>>::empty());
    }
    cur
}

/// Rewrite one step against one example row: every `<name>` token of the
/// header is replaced by the row's value for that name, in header order,
/// in the step's text, in every table cell, and in the attached text
/// block.  A step containing no token comes back textually unchanged.
pub fn interpolate_outline_variables(
    step: &Step,
    header: &Vec<String>,
    example: &Vec<String>,
) -> (r: Step)
    requires
        header@.len() == example@.len(),
    ensures
        step_interpolated(*step, r, header.deep_view(), example.deep_view()),
{
    let value = interp_string(&step.value, header, example);
    let table = match &step.table {
        Some(t) => {
            let mut rows: Vec<Vec<String>> = Vec::new();
            let mut i: usize = 0;
            while i < t.len()
                invariant
                    i <= t.len(),
                    header@.len() == example@.len(),
                    rows@.len() == i,
                    forall|ii: int| 0 <= ii < i ==> #[trigger] rows@[ii]@.len() == t@[ii]@.len(),
                    forall|ii: int, jj: int|
                        0 <= ii < i && 0 <= jj < t@[ii]@.len() ==> #[trigger] rows@[ii]@[jj]@
                            == interp_text(
                            t@[ii]@[jj]@,
                            header.deep_view(),
                            example.deep_view(),
                        ),
                decreases t.len() - i,
            {
                let trow = &t[i];
                let mut row: Vec<String> = Vec::new();
                let mut j: usize = 0;
                while j < trow.len()
                    invariant
                        j <= trow.len(),
                        header@.len() == example@.len(),
                        row@.len() == j,
                        forall|jj: int|
                            0 <= jj < j ==> #[trigger] row@[jj]@ == interp_text(
                                trow@[jj]@,
                                header.deep_view(),
                                example.deep_view(),
                            ),
                    decreases trow.len() - j,
                {
                    row.push(interp_string(&trow[j], header, example));
                    j += 1;
                }
                rows.push(row);
                i += 1;
            }
            Some(rows)
        },
        None => None,
    };
    let docstring = match &step.docstring {
        Some(d) => Some(interp_string(d, header, example)),
        None => None,
    };
    Step { ty: step.ty, value, table, docstring }
}

/// Whether none of the header tokens occurs anywhere in the step: not in
/// its text, not in a table cell, not in the attached text block.
pub open spec fn step_has_no_tokens(step: Step, header: Seq<Seq<char>>) -> bool {
    &&& (forall|k: int|
        0 <= k < header.len() ==> !contains_sub(step.value@, #[trigger] wrap_key(header[k])))
    &&& (step.table matches Some(t) ==> forall|i: int, j: int, k: int|
        0 <= i < t@.len() && 0 <= j < t@[i]@.len() && 0 <= k < header.len() ==> !contains_sub(
            #[trigger] t@[i]@[j]@,
            #[trigger] wrap_key(header[k]),
        ))
    &&& (step.docstring matches Some(d) ==> forall|k: int|
        0 <= k < header.len() ==> !contains_sub(d@, #[trigger] wrap_key(header[k])))
}

/// Text containing none of the header tokens interpolates to itself.
pub proof fn lemma_interp_text_identity(t: Seq<char>, header: Seq<Seq<char>>, row: Seq<Seq<char>>)
    requires
        forall|k: int| 0 <= k < header.len() ==> !contains_sub(t, #[trigger] wrap_key(header[k])),
    ensures
        interp_text(t, header, row) == t,
    decreases header.len(),
{
    if header.len() > 0 && row.len() == header.len() {
        assert(!contains_sub(t, wrap_key(header[0])));
        lemma_replaced_identity(t, wrap_key(header[0]), row[0]);
        assert(forall|k: int|
            0 <= k < header.drop_first().len() ==> header.drop_first()[k] == header[k + 1]);
        lemma_interp_text_identity(t, header.drop_first(), row.drop_first());
    }
}

/// The identity law: interpolating a step that contains none of the
/// header tokens yields a step whose every part reads as the input's.
pub proof fn lemma_interpolate_identity(
    step: Step,
    r: Step,
    header: Seq<Seq<char>>,
    row: Seq<Seq<char>>,
)
    requires
        step_interpolated(step, r, header, row),
        step_has_no_tokens(step, header),
    ensures
        step_views_equal(r, step),
{
    lemma_interp_text_identity(step.value@, header, row);
    if step.table is Some {
        let t = step.table->Some_0;
        let rt = r.table->Some_0;
        assert forall|i: int, j: int|
            0 <= i < t@.len() && 0 <= j < t@[i]@.len() implies rt@[i]@[j]@ == t@[i]@[j]@ by {
            lemma_interp_text_identity(t@[i]@[j]@, header, row);
        }
        assert(rt.deep_view() =~~= t.deep_view());
    }
    if step.docstring is Some {
        lemma_interp_text_identity(step.docstring->Some_0@, header, row);
    }
}

} // verus!
