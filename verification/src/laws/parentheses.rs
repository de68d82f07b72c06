//! Where parentheses stand among the declarators, and where none do.

use vstd::prelude::*;
use crate::decl::{
    array_ops, declarator_ops, ends_in_ptr, group, left_ops, lemma_two_walks, nothing, params_ops,
    prefix_ops, right_ops, suffix_ops, text, SpecDeclarator,
};
use crate::ir::Language;
use crate::writer::{lemma_run_concat, lemma_run_one, Op, Sink};

verus! {

/// What an array or a parameter list puts behind what it applies to.
pub open spec fn tail_ops(d: SpecDeclarator, void_prototype: bool, lang: Language) -> Seq<Op> {
    suffix_ops(d, false, void_prototype, lang)
}

/// An array or a parameter list that applies to a pointer or a reference
/// has it in a pair of parentheses: the opening one before all that the
/// declarators before it write, the closing one behind all of it and before
/// what the array or the parameter list writes itself. The same holds where
/// it applies to a parameter list.
pub proof fn law_parentheses(
    s: Sink,
    ds: Seq<SpecDeclarator>,
    k: nat,
    inner: Seq<Op>,
    void_prototype: bool,
    lang: Language,
)
    requires
        0 < k < ds.len(),
        ds[k as int] is Array || ds[k as int] is Func,
        ds[k - 1].is_ptr(),
    ensures
        declarator_ops(ds, k + 1, inner, void_prototype, lang) == text("("@) + declarator_ops(
            ds,
            k,
            inner,
            void_prototype,
            lang,
        ) + text(")"@) + tail_ops(ds[k as int], void_prototype, lang),
        left_ops(ds, k + 1) == text("("@) + left_ops(ds, k),
        right_ops(ds, k + 1, void_prototype, lang) == right_ops(ds, k, void_prototype, lang) + (
        text(")"@) + tail_ops(ds[k as int], void_prototype, lang)),
        s.run(declarator_ops(ds, k + 1, inner, void_prototype, lang)) == s.write("("@).run(
            declarator_ops(ds, k, inner, void_prototype, lang),
        ).write(")"@).run(tail_ops(ds[k as int], void_prototype, lang)),
{
    let rest = declarator_ops(ds, k, inner, void_prototype, lang);
    let tail = tail_ops(ds[k as int], void_prototype, lang);
    lemma_run_one(s, Op::Write("("@));
    lemma_run_one(s.write("("@).run(rest), Op::Write(")"@));
    lemma_run_concat(s, text("("@), rest);
    lemma_run_concat(s, text("("@) + rest, text(")"@));
    lemma_run_concat(s, text("("@) + rest + text(")"@), tail);
    assert(ends_in_ptr(ds, k as int));
    assert(declarator_ops(ds, k + 1, inner, void_prototype, lang) == group(true, rest) + tail) by {
        assert(nothing() + array_ops(ds[k as int]->Array_0, lang) =~= array_ops(
            ds[k as int]->Array_0,
            lang,
        ));
        assert(nothing() + params_ops(
            ds[k as int]->Func_0,
            ds[k as int]->Func_1,
            void_prototype,
            lang,
        ) =~= params_ops(ds[k as int]->Func_0, ds[k as int]->Func_1, void_prototype, lang));
    }
    assert(left_ops(ds, k + 1) == prefix_ops(ds[k as int], true) + left_ops(ds, k));
    assert(right_ops(ds, k + 1, void_prototype, lang) == right_ops(ds, k, void_prototype, lang)
        + suffix_ops(ds[k as int], true, void_prototype, lang));
    assert(suffix_ops(ds[k as int], true, void_prototype, lang) == text(")"@) + tail) by {
        assert(text(")"@) + (nothing() + array_ops(ds[k as int]->Array_0, lang)) =~= text(")"@)
            + array_ops(ds[k as int]->Array_0, lang));
        assert(text(")"@) + (nothing() + params_ops(
            ds[k as int]->Func_0,
            ds[k as int]->Func_1,
            void_prototype,
            lang,
        )) =~= text(")"@) + params_ops(
            ds[k as int]->Func_0,
            ds[k as int]->Func_1,
            void_prototype,
            lang,
        ));
    }
}

/// An array or a parameter list that applies to the declared name or to an
/// array stands directly behind it, without parentheses.
pub proof fn law_no_parentheses_behind(
    ds: Seq<SpecDeclarator>,
    k: nat,
    inner: Seq<Op>,
    void_prototype: bool,
    lang: Language,
)
    requires
        k < ds.len(),
        ds[k as int] is Array || ds[k as int] is Func,
        k == 0 || ds[k - 1] is Array,
    ensures
        declarator_ops(ds, k + 1, inner, void_prototype, lang) == declarator_ops(
            ds,
            k,
            inner,
            void_prototype,
            lang,
        ) + tail_ops(ds[k as int], void_prototype, lang),
{
    let rest = declarator_ops(ds, k, inner, void_prototype, lang);
    assert(!ends_in_ptr(ds, k as int));
    assert(group(false, rest) =~= rest);
}

/// A pointer or a reference stands directly before what it applies to,
/// without parentheses.
pub proof fn law_no_parentheses_before(
    ds: Seq<SpecDeclarator>,
    k: nat,
    inner: Seq<Op>,
    void_prototype: bool,
    lang: Language,
)
    requires
        k < ds.len(),
        ds[k as int] is Ptr || ds[k as int] is Ref,
    ensures
        declarator_ops(ds, k + 1, inner, void_prototype, lang) == prefix_ops(ds[k as int], false)
            + declarator_ops(ds, k, inner, void_prototype, lang),
{
}

/// No array or parameter list among the first `k` declarators applies to a
/// pointer, a reference or a parameter list.
pub open spec fn ungrouped(ds: Seq<SpecDeclarator>, k: nat) -> bool {
    forall|i: int|
        0 < i < k && i < ds.len() && (ds[i] is Array || ds[i] is Func) ==> !(#[trigger] ds[i
            - 1]).is_ptr()
}

/// The marks of the pointers and references among the first `k` declarators,
/// from the last to the first.
pub open spec fn marks_ops(ds: Seq<SpecDeclarator>, k: nat) -> Seq<Op>
    decreases k,
{
    if k == 0 || k > ds.len() {
        nothing()
    } else {
        prefix_ops(ds[k - 1], false) + marks_ops(ds, (k - 1) as nat)
    }
}

/// What the arrays and parameter lists among the first `k` declarators write
/// themselves, from the first to the last.
pub open spec fn tails_ops(
    ds: Seq<SpecDeclarator>,
    k: nat,
    void_prototype: bool,
    lang: Language,
) -> Seq<Op>
    decreases k,
{
    if k == 0 || k > ds.len() {
        nothing()
    } else {
        tails_ops(ds, (k - 1) as nat, void_prototype, lang) + tail_ops(
            ds[k - 1],
            void_prototype,
            lang,
        )
    }
}

/// Where no array or parameter list applies to a pointer, a reference or a
/// parameter list, no parenthesis is written but those of the parameter
/// lists themselves: the marks stand before the name, the arrays and
/// parameter lists behind it.
pub proof fn law_no_parentheses(
    ds: Seq<SpecDeclarator>,
    k: nat,
    inner: Seq<Op>,
    void_prototype: bool,
    lang: Language,
)
    requires
        k <= ds.len(),
        ungrouped(ds, k),
    ensures
        declarator_ops(ds, k, inner, void_prototype, lang) == marks_ops(ds, k) + inner + tails_ops(
            ds,
            k,
            void_prototype,
            lang,
        ),
        left_ops(ds, k) == marks_ops(ds, k),
        right_ops(ds, k, void_prototype, lang) == tails_ops(ds, k, void_prototype, lang),
{
    lemma_two_walks(ds, k, inner, void_prototype, lang);
    lemma_ungrouped_walks(ds, k, void_prototype, lang);
}

/// Without groups the two walks write the marks and the tails alone.
proof fn lemma_ungrouped_walks(
    ds: Seq<SpecDeclarator>,
    k: nat,
    void_prototype: bool,
    lang: Language,
)
    requires
        k <= ds.len(),
        ungrouped(ds, k),
    ensures
        left_ops(ds, k) == marks_ops(ds, k),
        right_ops(ds, k, void_prototype, lang) == tails_ops(ds, k, void_prototype, lang),
    decreases k,
{
    if k > 0 {
        lemma_ungrouped_walks(ds, (k - 1) as nat, void_prototype, lang);
        let d = ds[k - 1];
        let grouped = ends_in_ptr(ds, k - 1);
        if d is Array || d is Func {
            if k - 1 > 0 {
                assert(!ds[(k - 1) - 1].is_ptr());
            }
            assert(!grouped);
        }
        assert(prefix_ops(d, grouped) == prefix_ops(d, false));
        assert(suffix_ops(d, grouped, void_prototype, lang) == tail_ops(d, void_prototype, lang));
    }
}

} // verus!
