//! The nesting of pointers, references, arrays and parameter lists, read
//! back by the right-left rule from what is written around the declared
//! name.

use vstd::prelude::*;
use crate::decl::{
    arg_list_ops, array_ops, ends_in_ptr, group_end, group_start, left_ops, nothing, params_ops,
    prefix_ops, ptr_mark, right_ops, suffix_ops, text, void_ops, SpecDecl, SpecDeclarator,
};
use crate::ir::{Language, SpecType};
use crate::laws::balance::{
    closes, lemma_count_params, lemma_of_type_plain, lemma_sum, opens, plain_declarator,
    plain_params, plain_type, well_nested,
};
use crate::laws::reading::{
    left_outside, left_token, lemma_left_outside, lemma_parts_of_declaration, lemma_right_outside,
    parts, right_outside,
};
use crate::writer::Op;

verus! {

/// What a declarator is, without the parameters of a parameter list.
pub ghost enum Kind {
    Ptr(bool),
    Ref,
    Array(Seq<char>),
    List,
}

/// What the declarator is.
pub open spec fn kind_of(d: SpecDeclarator) -> Kind {
    match d {
        SpecDeclarator::Ptr(is_const) => Kind::Ptr(is_const),
        SpecDeclarator::Ref => Kind::Ref,
        SpecDeclarator::Array(len) => Kind::Array(len),
        SpecDeclarator::Func(_, _) => Kind::List,
    }
}

/// What the declarators from the `j`-th on are, in their order.
pub open spec fn kinds_from(ds: Seq<SpecDeclarator>, j: nat) -> Seq<Kind>
    decreases ds.len() - j,
{
    if j >= ds.len() {
        Seq::empty()
    } else {
        seq![kind_of(ds[j as int])] + kinds_from(ds, j + 1)
    }
}

/// The place behind the parenthesis that closes the one opened `depth`
/// deep before the place `from`.
pub open spec fn closing(ops: Seq<Op>, from: nat, depth: nat) -> nat
    decreases ops.len() - from,
{
    if from >= ops.len() {
        ops.len()
    } else if ops[from as int] == Op::Write("("@) {
        closing(ops, from + 1, depth + 1)
    } else if ops[from as int] == Op::Write(")"@) {
        if depth <= 1 {
            from + 1
        } else {
            closing(ops, from + 1, (depth - 1) as nat)
        }
    } else {
        closing(ops, from + 1, depth)
    }
}

/// The right-left rule: from the declared name outwards, an array or a
/// parameter list behind the name is read first, then a pointer or a
/// reference before it, then a pair of parentheses around both. A
/// parameter list reaches to the parenthesis that closes it. `left` is
/// what stands before the name, `right` what stands behind it.
#[verifier::opaque]
pub open spec fn read_kinds(left: Seq<Op>, right: Seq<Op>) -> Seq<Kind>
    decreases left.len() + right.len(),
{
    if right.len() >= 3 && right[0] == Op::Write("["@) && right[1] is Write && right[2]
        == Op::Write("]"@) {
        seq![Kind::Array(right[1]->Write_0)] + read_kinds(left, right.skip(3))
    } else if right.len() > 0 && right[0] == Op::Write("("@) && 0 < closing(right, 1, 1)
        <= right.len() {
        seq![Kind::List] + read_kinds(left, right.skip(closing(right, 1, 1) as int))
    } else if left.len() > 0 && left.last() == Op::Write("*"@) {
        seq![Kind::Ptr(false)] + read_kinds(left.drop_last(), right)
    } else if left.len() > 0 && left.last() == Op::Write("*const "@) {
        seq![Kind::Ptr(true)] + read_kinds(left.drop_last(), right)
    } else if left.len() > 0 && left.last() == Op::Write("&"@) {
        seq![Kind::Ref] + read_kinds(left.drop_last(), right)
    } else if left.len() > 0 && right.len() > 0 && left.last() == Op::Write("("@) && right[0]
        == Op::Write(")"@) {
        read_kinds(left.drop_last(), right.skip(1))
    } else {
        Seq::empty()
    }
}

/// What stands at the beginning of well nested operations is well nested.
proof fn lemma_well_nested_take(ops: Seq<Op>, k: nat)
    requires
        well_nested(ops),
        k <= ops.len(),
    ensures
        well_nested(ops.take(k as int)),
    decreases ops.len() - k,
{
    if k == ops.len() {
        assert(ops.take(k as int) =~= ops);
    } else {
        lemma_well_nested_take(ops, k + 1);
        assert(ops.take(k as int + 1).drop_last() =~= ops.take(k as int));
    }
}

/// The search for the closing parenthesis passes over well nested
/// operations and is then as deep as they leave it.
proof fn lemma_closing_passes(ops: Seq<Op>, from: nat, depth: nat, inner: Seq<Op>, k: nat)
    requires
        depth >= 1,
        well_nested(inner),
        k <= inner.len(),
        from + inner.len() <= ops.len(),
        forall|i: int| 0 <= i < inner.len() ==> ops[from + i] == #[trigger] inner[i],
    ensures
        closes(inner.take(k as int)) <= opens(inner.take(k as int)),
        closing(ops, from, depth) == closing(
            ops,
            from + k,
            (depth + opens(inner.take(k as int)) - closes(inner.take(k as int))) as nat,
        ),
    decreases k,
{
    let now = inner.take(k as int);
    lemma_well_nested_take(inner, k);
    lemma_sum(now, nothing());
    if k == 0 {
        assert(now =~= nothing());
    } else {
        let before = inner.take(k - 1);
        let deep = (depth + opens(before) - closes(before)) as nat;
        lemma_closing_passes(ops, from, depth, inner, (k - 1) as nat);
        assert(now.drop_last() =~= before);
        assert(now.last() == inner[k - 1]);
        assert(ops[from + (k - 1)] == inner[k - 1]);
        reveal_strlit("(");
        reveal_strlit(")");
        assert("("@ != ")"@) by {
            assert("("@[0] != ")"@[0]);
        }
        assert(closing(ops, (from + k - 1) as nat, deep) == closing(
            ops,
            from + k,
            (depth + opens(now) - closes(now)) as nat,
        ));
    }
}

/// The parenthesis that closes a parameter list is its last.
proof fn lemma_closing_list(inner: Seq<Op>, rest: Seq<Op>)
    requires
        well_nested(inner),
        opens(inner) == closes(inner),
    ensures
        closing(text("("@) + inner + text(")"@) + rest, 1, 1) == inner.len() + 2,
{
    let all = text("("@) + inner + text(")"@) + rest;
    assert forall|i: int| 0 <= i < inner.len() implies all[1 + i] == #[trigger] inner[i] by {}
    lemma_closing_passes(all, 1, 1, inner, inner.len());
    assert(inner.take(inner.len() as int) =~= inner);
    assert(all[1 + inner.len() as int] == Op::Write(")"@));
    reveal_strlit("(");
    reveal_strlit(")");
    assert("("@ != ")"@) by {
        assert("("@[0] != ")"@[0]);
    }
}

/// The texts that the reader tells apart are different.
proof fn lemma_reader_tokens()
    ensures
        "["@ != ")"@,
        "["@ != "("@,
        "("@ != ")"@,
        "*"@ != "*const "@,
        "*"@ != "&"@,
        "*"@ != "("@,
        "*const "@ != "&"@,
        "*const "@ != "("@,
        "&"@ != "("@,
{
    reveal_strlit("[");
    reveal_strlit("]");
    reveal_strlit("(");
    reveal_strlit(")");
    reveal_strlit("*");
    reveal_strlit("*const ");
    reveal_strlit("&");
    assert("["@[0] == '[' && ")"@[0] == ')' && "("@[0] == '(' && "*"@[0] == '*' && "&"@[0]
        == '&');
    assert("*const "@.len() == 7 && "*"@.len() == 1 && "&"@.len() == 1 && "("@.len() == 1);
}

/// Behind a pointer, a reference or a parameter list stands nothing, or a
/// closing parenthesis first.
proof fn lemma_behind(ds: Seq<SpecDeclarator>, j: nat, void_prototype: bool, lang: Language)
    requires
        !lang.marshals_arrays(),
        0 < j <= ds.len(),
        ds[j - 1].is_ptr(),
    ensures
        right_outside(ds, j, void_prototype, lang).len() == 0 || right_outside(
            ds,
            j,
            void_prototype,
            lang,
        )[0] == Op::Write(")"@),
    decreases ds.len() - j,
{
    if j < ds.len() {
        let after = right_outside(ds, j + 1, void_prototype, lang);
        let own = suffix_ops(ds[j as int], true, void_prototype, lang);
        assert(ends_in_ptr(ds, j as int));
        match ds[j as int] {
            SpecDeclarator::Array(len) => {
                assert(own == text(")"@) + array_ops(len, lang));
                assert(own[0] == Op::Write(")"@));
                assert((own + after)[0] == own[0]);
            },
            SpecDeclarator::Func(args, layout_vertical) => {
                assert(own == text(")"@) + params_ops(args, layout_vertical, void_prototype, lang));
                assert(own[0] == Op::Write(")"@));
                assert((own + after)[0] == own[0]);
            },
            _ => {
                lemma_behind(ds, j + 1, void_prototype, lang);
                assert(nothing() + after =~= after);
            },
        }
    }
}

/// A parameter list before what follows it is read as a list, and what
/// follows it remains.
proof fn lemma_read_list(
    left: Seq<Op>,
    args: Seq<(Option<Seq<char>>, SpecDecl)>,
    layout_vertical: bool,
    void_prototype: bool,
    lang: Language,
    after: Seq<Op>,
)
    requires
        plain_params(args),
    ensures
        read_kinds(left, params_ops(args, layout_vertical, void_prototype, lang) + after)
            == seq![Kind::List] + read_kinds(left, after),
{
    reveal(read_kinds);
    let list = params_ops(args, layout_vertical, void_prototype, lang);
    let inner = void_ops(args.len() == 0 && void_prototype)
        + arg_list_ops(args, layout_vertical, void_prototype, lang);
    let right = list + after;
    lemma_reader_tokens();
    lemma_count_params(args, layout_vertical, void_prototype, lang);
    lemma_closing_list(inner, after);
    assert(list == text("("@) + inner + text(")"@));
    assert(list.len() == inner.len() + 2);
    assert(right[0] == Op::Write("("@));
    assert(right.skip(list.len() as int) =~= after);
}

/// Where nothing is written, nothing is read.
proof fn lemma_read_nothing()
    ensures
        read_kinds(nothing(), nothing()) == Seq::<Kind>::empty(),
{
    reveal(read_kinds);
}

/// A pair of parentheses around what stands before and behind the name is
/// passed over.
proof fn lemma_read_group(grouped: bool, before: Seq<Op>, behind: Seq<Op>)
    requires
        behind.len() > 0,
        behind[0] == Op::Write("["@) || behind[0] == Op::Write("("@),
    ensures
        read_kinds(before + group_start(grouped), group_end(grouped) + behind) == read_kinds(
            before,
            behind,
        ),
{
    reveal(read_kinds);
    lemma_reader_tokens();
    let left = before + group_start(grouped);
    let right = group_end(grouped) + behind;
    if grouped {
        assert(left.drop_last() =~= before);
        assert(right.skip(1) =~= behind);
        assert(right[0] == Op::Write(")"@));
        assert(left.last() == Op::Write("("@));
    } else {
        assert(left =~= before);
        assert(right =~= behind);
    }
}

/// An array behind the name is read as an array of its length.
proof fn lemma_read_array(before: Seq<Op>, len: Seq<char>, after: Seq<Op>)
    ensures
        read_kinds(before, text("["@) + text(len) + text("]"@) + after) == seq![Kind::Array(len)]
            + read_kinds(before, after),
        (text("["@) + text(len) + text("]"@) + after)[0] == Op::Write("["@),
{
    reveal(read_kinds);
    let brackets = text("["@) + text(len) + text("]"@);
    assert(brackets.len() == 3);
    assert((brackets + after).skip(3) =~= after);
    assert((brackets + after)[0] == Op::Write("["@));
    assert((brackets + after)[1] == Op::Write(len));
    assert((brackets + after)[2] == Op::Write("]"@));
}

/// A pointer or a reference before the name is read as what it is, where
/// nothing or a closing parenthesis stands behind the name.
proof fn lemma_read_mark(before: Seq<Op>, d: SpecDeclarator, after: Seq<Op>)
    requires
        d is Ptr || d is Ref,
        after.len() == 0 || after[0] == Op::Write(")"@),
    ensures
        read_kinds(before + prefix_ops(d, false), after) == seq![kind_of(d)] + read_kinds(
            before,
            after,
        ),
{
    reveal(read_kinds);
    lemma_reader_tokens();
    let left = before + prefix_ops(d, false);
    assert(left.drop_last() =~= before);
    assert(d is Ptr ==> left.last() == Op::Write(ptr_mark(d->Ptr_0)));
    assert(d is Ref ==> left.last() == Op::Write("&"@));
}

/// The `j`-th declarator, where it is an array, is read first of those
/// from the `j`-th on.
proof fn lemma_step_array(ds: Seq<SpecDeclarator>, j: nat, void_prototype: bool, lang: Language)
    requires
        j < ds.len(),
        ds[j as int] is Array,
        !lang.marshals_arrays(),
    ensures
        read_kinds(left_outside(ds, j), right_outside(ds, j, void_prototype, lang)) == seq![
            kind_of(ds[j as int]),
        ] + read_kinds(left_outside(ds, j + 1), right_outside(ds, j + 1, void_prototype, lang)),
{
    let len = ds[j as int]->Array_0;
    let before = left_outside(ds, j + 1);
    let after = right_outside(ds, j + 1, void_prototype, lang);
    let grouped = ends_in_ptr(ds, j as int);
    let brackets = text("["@) + text(len) + text("]"@);
    lemma_read_array(before, len, after);
    lemma_read_group(grouped, before, brackets + after);
    assert(array_ops(len, lang) == brackets);
    assert(left_outside(ds, j) == before + group_start(grouped));
    assert(right_outside(ds, j, void_prototype, lang) =~= group_end(grouped) + (brackets
        + after));
}

/// The `j`-th declarator, where it is a parameter list, is read first of
/// those from the `j`-th on.
proof fn lemma_step_list(ds: Seq<SpecDeclarator>, j: nat, void_prototype: bool, lang: Language)
    requires
        j < ds.len(),
        ds[j as int] is Func,
        plain_params(ds[j as int]->Func_0),
    ensures
        read_kinds(left_outside(ds, j), right_outside(ds, j, void_prototype, lang)) == seq![
            kind_of(ds[j as int]),
        ] + read_kinds(left_outside(ds, j + 1), right_outside(ds, j + 1, void_prototype, lang)),
{
    let args = ds[j as int]->Func_0;
    let layout_vertical = ds[j as int]->Func_1;
    let before = left_outside(ds, j + 1);
    let after = right_outside(ds, j + 1, void_prototype, lang);
    let grouped = ends_in_ptr(ds, j as int);
    let list = params_ops(args, layout_vertical, void_prototype, lang);
    lemma_read_list(before, args, layout_vertical, void_prototype, lang, after);
    lemma_list_begins(args, layout_vertical, void_prototype, lang, after);
    lemma_read_group(grouped, before, list + after);
    assert(left_outside(ds, j) == before + group_start(grouped));
    assert(right_outside(ds, j, void_prototype, lang) =~= group_end(grouped) + (list + after));
}

/// A parameter list begins with a parenthesis.
proof fn lemma_list_begins(
    args: Seq<(Option<Seq<char>>, SpecDecl)>,
    layout_vertical: bool,
    void_prototype: bool,
    lang: Language,
    after: Seq<Op>,
)
    ensures
        (params_ops(args, layout_vertical, void_prototype, lang) + after).len() > 0,
        (params_ops(args, layout_vertical, void_prototype, lang) + after)[0] == Op::Write("("@),
{
    let list = params_ops(args, layout_vertical, void_prototype, lang);
    assert(list[0] == Op::Write("("@));
}

/// The `j`-th declarator, where it is a pointer or a reference, is read
/// first of those from the `j`-th on.
proof fn lemma_step_mark(ds: Seq<SpecDeclarator>, j: nat, void_prototype: bool, lang: Language)
    requires
        j < ds.len(),
        ds[j as int] is Ptr || ds[j as int] is Ref,
        !lang.marshals_arrays(),
    ensures
        read_kinds(left_outside(ds, j), right_outside(ds, j, void_prototype, lang)) == seq![
            kind_of(ds[j as int]),
        ] + read_kinds(left_outside(ds, j + 1), right_outside(ds, j + 1, void_prototype, lang)),
{
    let before = left_outside(ds, j + 1);
    let after = right_outside(ds, j + 1, void_prototype, lang);
    lemma_behind(ds, j + 1, void_prototype, lang);
    lemma_read_mark(before, ds[j as int], after);
    assert(left_outside(ds, j) == before + prefix_ops(ds[j as int], false));
    assert(right_outside(ds, j, void_prototype, lang) =~= after);
}

/// Read from the name outwards by the right-left rule, what the
/// declarators write before and behind the name tells what they are, each
/// in its place.
proof fn lemma_read_kinds_outside(
    ds: Seq<SpecDeclarator>,
    j: nat,
    void_prototype: bool,
    lang: Language,
)
    requires
        forall|i: int| 0 <= i < ds.len() ==> plain_declarator(#[trigger] ds[i]),
        !lang.marshals_arrays(),
        j <= ds.len(),
    ensures
        read_kinds(left_outside(ds, j), right_outside(ds, j, void_prototype, lang)) == kinds_from(
            ds,
            j,
        ),
    decreases ds.len() - j,
{
    if j < ds.len() {
        lemma_read_kinds_outside(ds, j + 1, void_prototype, lang);
        assert(plain_declarator(ds[j as int]));
        if ds[j as int] is Array {
            lemma_step_array(ds, j, void_prototype, lang);
        } else if ds[j as int] is Func {
            lemma_step_list(ds, j, void_prototype, lang);
        } else {
            lemma_step_mark(ds, j, void_prototype, lang);
        }
    } else {
        lemma_read_nothing();
    }
}

/// What the declarators write before and behind the declared name, read
/// from the name outwards by the right-left rule, tells their nesting:
/// which of them is a pointer, constant or not, a reference, an array of
/// which length, or a parameter list, in their order. This holds in a
/// dialect that writes arrays in brackets, where no length and nothing in
/// the parameters holds a parenthesis.
pub proof fn law_read_nesting(ds: Seq<SpecDeclarator>, void_prototype: bool, lang: Language)
    requires
        forall|i: int| 0 <= i < ds.len() ==> plain_declarator(#[trigger] ds[i]),
        !lang.marshals_arrays(),
    ensures
        read_kinds(left_ops(ds, ds.len()), right_ops(ds, ds.len(), void_prototype, lang))
            == kinds_from(ds, 0),
{
    lemma_left_outside(ds, 0);
    lemma_right_outside(ds, 0, void_prototype, lang);
    lemma_read_kinds_outside(ds, 0, void_prototype, lang);
    assert(left_ops(ds, ds.len()) =~= left_outside(ds, 0));
    assert(right_ops(ds, ds.len(), void_prototype, lang) =~= right_outside(
        ds,
        0,
        void_prototype,
        lang,
    ));
}

/// A declaration as far as its nesting is read: whether the base type is
/// constant, the name of the base type, the declared name, and what the
/// declarators are.
pub ghost struct Nesting {
    pub is_const: bool,
    pub base: Seq<char>,
    pub name: Seq<char>,
    pub kinds: Seq<Kind>,
}

/// The nesting of the declaration of a name, read from what is written:
/// its parts, and what the declarators are, read around the declared name
/// by the right-left rule.
pub open spec fn read_nesting(ops: Seq<Op>) -> Nesting {
    Nesting {
        is_const: parts(ops).is_const,
        base: parts(ops).base,
        name: parts(ops).name,
        kinds: read_kinds(parts(ops).left, parts(ops).right),
    }
}

/// The declaration of a name of a base type without kind and generic
/// arguments, in a dialect that writes arrays in brackets, where no length
/// and nothing in the parameters holds a parenthesis: read back from what
/// is written, it has the same base type, constant or not, the same name,
/// and the same nesting of pointers, constant or not, references, arrays of
/// the same lengths and parameter lists. The name of the base type must not
/// be the qualifier, nor the declared name what may stand before it.
pub proof fn law_read_nesting_of_declaration(
    d: SpecDecl,
    name: Seq<char>,
    void_prototype: bool,
    lang: Language,
)
    requires
        d.base is Some,
        d.base->0.ctype is None,
        d.base->0.generic_decls.len() == 0,
        d.base->0.name != "const "@,
        forall|i: int|
            0 <= i < d.declarators.len() ==> plain_declarator(#[trigger] d.declarators[i]),
        !lang.marshals_arrays(),
        !left_token(Op::Write(name)),
    ensures
        read_nesting(d.ops(Some(name), void_prototype, lang)) == (Nesting {
            is_const: d.base->0.is_const,
            base: d.base->0.name,
            name,
            kinds: kinds_from(d.declarators, 0),
        }),
{
    lemma_parts_of_declaration(d, name, void_prototype, lang);
    law_read_nesting(d.declarators, void_prototype, lang);
}

/// The base type of the type, under pointers, references, arrays and what
/// pointers to functions return, is a primitive type whose name is not the
/// qualifier.
pub open spec fn primitive_based(t: SpecType) -> bool
    decreases t,
{
    match t {
        SpecType::Primitive(name) => name != "const "@,
        SpecType::Path(_) => false,
        SpecType::ConstPtr(inner) => primitive_based(*inner),
        SpecType::Ptr(inner) => primitive_based(*inner),
        SpecType::Ref(inner) => primitive_based(*inner),
        SpecType::MutRef(inner) => primitive_based(*inner),
        SpecType::Array(inner, _) => primitive_based(*inner),
        SpecType::FuncPtr(ret, _) => primitive_based(*ret),
    }
}

/// The declaration of a type with a primitive base type has a base type of
/// that name, without kind and generic arguments.
proof fn lemma_of_primitive_based(t: SpecType, is_const: bool)
    requires
        primitive_based(t),
    ensures
        SpecDecl::of_type(t, is_const).base is Some,
        SpecDecl::of_type(t, is_const).base->0.name != "const "@,
        SpecDecl::of_type(t, is_const).base->0.ctype is None,
        SpecDecl::of_type(t, is_const).base->0.generic_decls.len() == 0,
    decreases t,
{
    match t {
        SpecType::ConstPtr(inner) => lemma_of_primitive_based(*inner, true),
        SpecType::Ptr(inner) => lemma_of_primitive_based(*inner, false),
        SpecType::Ref(inner) => lemma_of_primitive_based(*inner, true),
        SpecType::MutRef(inner) => lemma_of_primitive_based(*inner, false),
        SpecType::Array(inner, _) => lemma_of_primitive_based(*inner, is_const),
        SpecType::FuncPtr(ret, _) => lemma_of_primitive_based(*ret, false),
        _ => {},
    }
}

/// The declaration of a name of a type with a primitive base type, pointers
/// to functions included, in a dialect that writes arrays in brackets,
/// where no name and no length in the type holds a parenthesis: read back
/// from what is written, by the right-left rule, it declares the same name
/// of the same base type, constant or not, with the nesting of pointers,
/// constant or not, references, arrays and parameter lists that the
/// declaration of the type has.
pub proof fn law_written_nesting(t: SpecType, name: Seq<char>, lang: Language)
    requires
        primitive_based(t),
        plain_type(t),
        !lang.marshals_arrays(),
        !left_token(Op::Write(name)),
    ensures
        read_nesting(SpecDecl::of_type(t, false).ops(Some(name), false, lang)) == (Nesting {
            is_const: SpecDecl::of_type(t, false).base->0.is_const,
            base: SpecDecl::of_type(t, false).base->0.name,
            name,
            kinds: kinds_from(SpecDecl::of_type(t, false).declarators, 0),
        }),
{
    lemma_of_primitive_based(t, false);
    lemma_of_type_plain(t, false);
    law_read_nesting_of_declaration(SpecDecl::of_type(t, false), name, false, lang);
}

} // verus!
