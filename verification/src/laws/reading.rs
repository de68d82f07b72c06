//! What is written around the declared name, read back by the right-left
//! rule.

use vstd::prelude::*;
use crate::decl::{
    array_ops, ends_in_ptr, left_ops, lemma_two_walks, nothing, prefix_ops, ptr_mark,
    qualifier_ops, right_ops, suffix_ops, text, SpecBase, SpecDecl, SpecDeclarator,
};
use crate::ir::{Language, SpecType};
use crate::laws::shape::{law_shape, plain, type_of};
use crate::writer::Op;

verus! {

/// What the declarators from the `j`-th on write before the declared name.
pub open spec fn left_outside(ds: Seq<SpecDeclarator>, j: nat) -> Seq<Op>
    decreases ds.len() - j,
{
    if j >= ds.len() {
        nothing()
    } else {
        left_outside(ds, j + 1) + prefix_ops(ds[j as int], ends_in_ptr(ds, j as int))
    }
}

/// What the declarators from the `j`-th on write behind the declared name.
pub open spec fn right_outside(
    ds: Seq<SpecDeclarator>,
    j: nat,
    void_prototype: bool,
    lang: Language,
) -> Seq<Op>
    decreases ds.len() - j,
{
    if j >= ds.len() {
        nothing()
    } else {
        suffix_ops(ds[j as int], ends_in_ptr(ds, j as int), void_prototype, lang) + right_outside(
            ds,
            j + 1,
            void_prototype,
            lang,
        )
    }
}

/// The right-left rule: from the declared name outwards, an array behind
/// the name is read first, then a pointer or a reference before it, then a
/// pair of parentheses around both. `left` is what stands before the name,
/// `right` what stands behind it.
pub open spec fn read_declarators(left: Seq<Op>, right: Seq<Op>) -> Seq<SpecDeclarator>
    decreases left.len() + right.len(),
{
    if right.len() >= 3 && right[0] == Op::Write("["@) && right[1] is Write && right[2]
        == Op::Write("]"@) {
        seq![SpecDeclarator::Array(right[1]->Write_0)] + read_declarators(left, right.skip(3))
    } else if left.len() > 0 && left.last() == Op::Write("*"@) {
        seq![SpecDeclarator::Ptr(false)] + read_declarators(left.drop_last(), right)
    } else if left.len() > 0 && left.last() == Op::Write("*const "@) {
        seq![SpecDeclarator::Ptr(true)] + read_declarators(left.drop_last(), right)
    } else if left.len() > 0 && left.last() == Op::Write("&"@) {
        seq![SpecDeclarator::Ref] + read_declarators(left.drop_last(), right)
    } else if left.len() > 0 && right.len() > 0 && left.last() == Op::Write("("@) && right[0]
        == Op::Write(")"@) {
        read_declarators(left.drop_last(), right.skip(1))
    } else {
        Seq::empty()
    }
}

/// The declarators are pointers, references and arrays.
pub open spec fn without_lists(ds: Seq<SpecDeclarator>) -> bool {
    forall|i: int| 0 <= i < ds.len() ==> !((#[trigger] ds[i]) is Func)
}

/// The walk before the name, taken in two parts.
pub proof fn lemma_left_outside(ds: Seq<SpecDeclarator>, j: nat)
    requires
        j <= ds.len(),
    ensures
        left_ops(ds, ds.len()) == left_outside(ds, j) + left_ops(ds, j),
    decreases ds.len() - j,
{
    if j == ds.len() {
        assert(left_ops(ds, j) =~= nothing() + left_ops(ds, j));
    } else {
        lemma_left_outside(ds, j + 1);
        let own = prefix_ops(ds[j as int], ends_in_ptr(ds, j as int));
        assert(left_ops(ds, j + 1) == own + left_ops(ds, j));
        assert(left_outside(ds, j + 1) + (own + left_ops(ds, j)) =~= (left_outside(ds, j + 1)
            + own) + left_ops(ds, j));
    }
}

/// The walk behind the name, taken in two parts.
pub proof fn lemma_right_outside(
    ds: Seq<SpecDeclarator>,
    j: nat,
    void_prototype: bool,
    lang: Language,
)
    requires
        j <= ds.len(),
    ensures
        right_ops(ds, ds.len(), void_prototype, lang) == right_ops(ds, j, void_prototype, lang)
            + right_outside(ds, j, void_prototype, lang),
    decreases ds.len() - j,
{
    let before = right_ops(ds, j, void_prototype, lang);
    if j == ds.len() {
        assert(before =~= before + nothing());
    } else {
        lemma_right_outside(ds, j + 1, void_prototype, lang);
        let own = suffix_ops(ds[j as int], ends_in_ptr(ds, j as int), void_prototype, lang);
        let after = right_outside(ds, j + 1, void_prototype, lang);
        assert(right_ops(ds, j + 1, void_prototype, lang) == before + own);
        assert((before + own) + after =~= before + (own + after));
    }
}

/// The texts that the reader tells apart are different.
proof fn lemma_reader_tokens()
    ensures
        "["@ != ")"@,
        "["@ != "("@,
        "*"@ != "*const "@,
        "*"@ != "&"@,
        "*"@ != "("@,
        "*const "@ != "&"@,
        "*const "@ != "("@,
        "&"@ != "("@,
{
    reveal_strlit("[");
    reveal_strlit("]");
    reveal_strlit("(");
    reveal_strlit(")");
    reveal_strlit("*");
    reveal_strlit("*const ");
    reveal_strlit("&");
    assert("["@[0] == '[' && ")"@[0] == ')' && "("@[0] == '(' && "*"@[0] == '*' && "&"@[0]
        == '&');
    assert("*const "@.len() == 7 && "*"@.len() == 1 && "&"@.len() == 1 && "("@.len() == 1);
}

/// Behind a pointer or a reference stands nothing, or a closing parenthesis
/// first.
proof fn lemma_behind_pointer(
    ds: Seq<SpecDeclarator>,
    j: nat,
    void_prototype: bool,
    lang: Language,
)
    requires
        without_lists(ds),
        !lang.marshals_arrays(),
        0 < j <= ds.len(),
        ds[j - 1].is_ptr(),
    ensures
        right_outside(ds, j, void_prototype, lang).len() == 0 || right_outside(
            ds,
            j,
            void_prototype,
            lang,
        )[0] == Op::Write(")"@),
    decreases ds.len() - j,
{
    if j < ds.len() {
        let after = right_outside(ds, j + 1, void_prototype, lang);
        assert(ends_in_ptr(ds, j as int));
        match ds[j as int] {
            SpecDeclarator::Array(len) => {
                let own = suffix_ops(ds[j as int], true, void_prototype, lang);
                assert(own == text(")"@) + array_ops(len, lang));
                assert(own[0] == Op::Write(")"@));
                assert((own + after)[0] == own[0]);
            },
            _ => {
                lemma_behind_pointer(ds, j + 1, void_prototype, lang);
                assert(nothing() + after =~= after);
            },
        }
    }
}

/// Read from the name outwards by the right-left rule, what pointers,
/// references and arrays write before and behind the name gives them back,
/// each as it is and in their order.
proof fn lemma_read_outside(
    ds: Seq<SpecDeclarator>,
    j: nat,
    void_prototype: bool,
    lang: Language,
)
    requires
        without_lists(ds),
        !lang.marshals_arrays(),
        j <= ds.len(),
    ensures
        read_declarators(
            left_outside(ds, j),
            right_outside(ds, j, void_prototype, lang),
        ) == ds.subrange(j as int, ds.len() as int),
    decreases ds.len() - j,
{
    let n = ds.len();
    let left = left_outside(ds, j);
    let right = right_outside(ds, j, void_prototype, lang);
    lemma_reader_tokens();
    if j == n {
        assert(ds.subrange(j as int, n as int) =~= Seq::empty());
    } else {
        let before = left_outside(ds, j + 1);
        let after = right_outside(ds, j + 1, void_prototype, lang);
        let grouped = ends_in_ptr(ds, j as int);
        let rest = ds.subrange(j as int + 1, n as int);
        lemma_read_outside(ds, j + 1, void_prototype, lang);
        assert(ds.subrange(j as int, n as int) =~= seq![ds[j as int]] + rest);
        match ds[j as int] {
            SpecDeclarator::Array(len) => {
                let brackets = text("["@) + text(len) + text("]"@);
                assert(array_ops(len, lang) == brackets);
                assert(brackets.len() == 3);
                assert((brackets + after).skip(3) =~= after);
                assert((brackets + after)[0] == Op::Write("["@));
                assert((brackets + after)[1] == Op::Write(len));
                assert((brackets + after)[2] == Op::Write("]"@));
                assert(read_declarators(before, brackets + after) == seq![ds[j as int]] + rest);
                if grouped {
                    assert(left == before + text("("@));
                    assert(right =~= text(")"@) + (brackets + after));
                    assert(left.drop_last() =~= before);
                    assert(right.skip(1) =~= brackets + after);
                    assert(right[0] == Op::Write(")"@));
                    assert(left.last() == Op::Write("("@));
                } else {
                    assert(left =~= before);
                    assert(right =~= brackets + after);
                }
            },
            SpecDeclarator::Func(_, _) => {},
            _ => {
                let mark = prefix_ops(ds[j as int], grouped);
                assert(left == before + mark);
                assert(left.drop_last() =~= before);
                assert(right =~= after);
                lemma_behind_pointer(ds, j + 1, void_prototype, lang);
                assert(ds[j as int] is Ptr ==> left.last() == Op::Write(
                    ptr_mark(ds[j as int]->Ptr_0),
                ));
                assert(ds[j as int] is Ref ==> left.last() == Op::Write("&"@));
            },
        }
    }
}

/// What pointers, references and arrays write before and behind the
/// declared name, read from the name outwards by the right-left rule, gives
/// back the declarators: the same pointers, constant or not, references
/// and arrays of the same lengths, in the same order. This holds in a
/// dialect that writes arrays in brackets.
pub proof fn law_read_back(ds: Seq<SpecDeclarator>, void_prototype: bool, lang: Language)
    requires
        without_lists(ds),
        !lang.marshals_arrays(),
    ensures
        read_declarators(left_ops(ds, ds.len()), right_ops(ds, ds.len(), void_prototype, lang))
            == ds,
{
    lemma_left_outside(ds, 0);
    lemma_right_outside(ds, 0, void_prototype, lang);
    lemma_read_outside(ds, 0, void_prototype, lang);
    assert(left_ops(ds, ds.len()) =~= left_outside(ds, 0));
    assert(right_ops(ds, ds.len(), void_prototype, lang) =~= right_outside(
        ds,
        0,
        void_prototype,
        lang,
    ));
    assert(ds.subrange(0, ds.len() as int) =~= ds);
}

/// The operation writes a pointer, a reference or an opening parenthesis:
/// what may stand before the declared name.
pub open spec fn left_token(op: Op) -> bool {
    op == Op::Write("*"@) || op == Op::Write("*const "@) || op == Op::Write("&"@) || op
        == Op::Write("("@)
}

/// The place of the declared name: behind all that may stand before it.
pub open spec fn name_at(ops: Seq<Op>) -> nat
    decreases ops.len(),
{
    if ops.len() == 0 || !left_token(ops[0]) {
        0
    } else {
        1 + name_at(ops.skip(1))
    }
}

/// The parts of a written declaration: whether the base type is constant,
/// the name of the base type, the declared name, and what stands before
/// and behind the declared name.
pub ghost struct Parts {
    pub is_const: bool,
    pub base: Seq<char>,
    pub name: Seq<char>,
    pub left: Seq<Op>,
    pub right: Seq<Op>,
}

/// The parts of the declaration of a name of a base type without kind and
/// generic arguments, taken from what is written: the qualifier if there
/// is one, the name of the base type and a blank; then, behind all
/// pointers, references and opening parentheses, the declared name.
pub open spec fn parts(ops: Seq<Op>) -> Parts {
    let is_const = ops.len() > 0 && ops[0] == Op::Write("const "@);
    let named = if is_const {
        ops.skip(1)
    } else {
        ops
    };
    let around = named.skip(2);
    let at = name_at(around) as int;
    Parts {
        is_const,
        base: named[0]->Write_0,
        name: around[at]->Write_0,
        left: around.take(at),
        right: around.skip(at + 1),
    }
}

/// A declaration as it is read: whether the base type is constant, the
/// name of the base type, the declared name, and the declarators.
pub ghost struct Reading {
    pub is_const: bool,
    pub base: Seq<char>,
    pub name: Seq<char>,
    pub declarators: Seq<SpecDeclarator>,
}

/// The declaration of a name of a base type under pointers, references and
/// arrays, read from what is written: its parts, and the declarators read
/// around the declared name by the right-left rule.
pub open spec fn read_declaration(ops: Seq<Op>) -> Reading {
    Reading {
        is_const: parts(ops).is_const,
        base: parts(ops).base,
        name: parts(ops).name,
        declarators: read_declarators(parts(ops).left, parts(ops).right),
    }
}

/// The declarators write before the name what may stand there, and
/// nothing else.
pub proof fn lemma_left_tokens(ds: Seq<SpecDeclarator>, k: nat)
    requires
        k <= ds.len(),
    ensures
        forall|i: int| 0 <= i < left_ops(ds, k).len() ==> left_token(#[trigger] left_ops(ds, k)[i]),
    decreases k,
{
    if k > 0 {
        lemma_left_tokens(ds, (k - 1) as nat);
        let own = prefix_ops(ds[k - 1], ends_in_ptr(ds, k - 1));
        let rest = left_ops(ds, (k - 1) as nat);
        assert(left_ops(ds, k) == own + rest);
        assert forall|i: int| 0 <= i < own.len() implies left_token(#[trigger] own[i]) by {}
    }
}

/// The declared name is found behind what may stand before it.
proof fn lemma_name_at(left: Seq<Op>, name: Op, right: Seq<Op>)
    requires
        forall|i: int| 0 <= i < left.len() ==> left_token(#[trigger] left[i]),
        !left_token(name),
    ensures
        name_at(left + seq![name] + right) == left.len(),
    decreases left.len(),
{
    let all = left + seq![name] + right;
    if left.len() == 0 {
        assert(all[0] == name);
    } else {
        assert(all[0] == left[0]);
        assert(all.skip(1) =~= left.skip(1) + seq![name] + right);
        assert forall|i: int| 0 <= i < left.skip(1).len() implies left_token(
            #[trigger] left.skip(1)[i],
        ) by {
            assert(left.skip(1)[i] == left[i + 1]);
        }
        lemma_name_at(left.skip(1), name, right);
    }
}

/// What is written of a constant or other base type, a blank, and the
/// declared name among what may stand before it and what stands behind it,
/// has just these parts.
pub proof fn lemma_parts(
    is_const: bool,
    base: Seq<char>,
    left: Seq<Op>,
    name: Seq<char>,
    right: Seq<Op>,
)
    requires
        base != "const "@,
        !left_token(Op::Write(name)),
        forall|i: int| 0 <= i < left.len() ==> left_token(#[trigger] left[i]),
    ensures
        parts(qualifier_ops(is_const) + text(base) + text(" "@) + left + text(name) + right) == (
        Parts { is_const, base, name, left, right }),
{
    let ops = qualifier_ops(is_const) + text(base) + text(" "@) + left + text(name) + right;
    let around = left + seq![Op::Write(name)] + right;
    let named = seq![Op::Write(base), Op::Write(" "@)] + around;
    lemma_name_at(left, Op::Write(name), right);
    assert(named.skip(2) =~= around);
    assert(named[0] == Op::Write(base));
    assert(around[left.len() as int] == Op::Write(name));
    assert(around.take(left.len() as int) =~= left);
    assert(around.skip(left.len() as int + 1) =~= right);
    if is_const {
        assert(ops =~= seq![Op::Write("const "@)] + named);
        assert(ops[0] == Op::Write("const "@));
        assert(ops.skip(1) =~= named);
    } else {
        assert(ops =~= named);
        assert(ops[0] == Op::Write(base));
    }
}

/// The parts of the declaration of a name of a base type without kind and
/// generic arguments, in a dialect that writes arrays in brackets: the
/// base type, the name, and what the two walks write.
pub proof fn lemma_parts_of_declaration(
    d: SpecDecl,
    name: Seq<char>,
    void_prototype: bool,
    lang: Language,
)
    requires
        d.base is Some,
        d.base->0.ctype is None,
        d.base->0.generic_decls.len() == 0,
        d.base->0.name != "const "@,
        !lang.marshals_arrays(),
        !left_token(Op::Write(name)),
    ensures
        parts(d.ops(Some(name), void_prototype, lang)) == (Parts {
            is_const: d.base->0.is_const,
            base: d.base->0.name,
            name,
            left: left_ops(d.declarators, d.declarators.len()),
            right: right_ops(d.declarators, d.declarators.len(), void_prototype, lang),
        }),
{
    let base = d.base->0;
    let ds = d.declarators;
    let n = ds.len();
    let left = left_ops(ds, n);
    let right = right_ops(ds, n, void_prototype, lang);
    let front = qualifier_ops(base.is_const) + text(base.name);
    let around = left + text(name) + right;
    lemma_two_walks(ds, n, text(name), void_prototype, lang);
    lemma_left_tokens(ds, n);
    lemma_plain_base(d, lang);
    lemma_parts(base.is_const, base.name, left, name, right);
    assert(d.ops(Some(name), void_prototype, lang) == front + text(" "@) + around);
    assert(front + text(" "@) + around =~= front + text(" "@) + left + text(name) + right);
}

/// What stands before the declarators of a base type without kind and
/// generic arguments, in a dialect that does not marshal arrays: the
/// qualifier and the name.
proof fn lemma_plain_base(d: SpecDecl, lang: Language)
    requires
        d.base is Some,
        d.base->0.ctype is None,
        d.base->0.generic_decls.len() == 0,
        !lang.marshals_arrays(),
    ensures
        d.base_ops(lang) == qualifier_ops(d.base->0.is_const) + text(d.base->0.name),
{
    let base = d.base->0;
    let qualifier = qualifier_ops(base.is_const);
    let name = text(base.name);
    assert(d.marshalled_len(lang) is None);
    assert(base.ops(false, lang) =~= qualifier + name);
    assert(nothing() + (qualifier + name) =~= qualifier + name);
}

/// The declaration of a name of a base type without kind and generic
/// arguments under pointers, references and arrays, in a dialect that
/// writes arrays in brackets, is read back from what is written as it is:
/// the same base type, constant or not, the same name, and the same
/// declarators in the same order. The name of the base type must not be
/// the qualifier, nor the declared name what may stand before it.
pub proof fn law_read_declaration(
    d: SpecDecl,
    name: Seq<char>,
    void_prototype: bool,
    lang: Language,
)
    requires
        d.base is Some,
        d.base->0.ctype is None,
        d.base->0.generic_decls.len() == 0,
        d.base->0.name != "const "@,
        without_lists(d.declarators),
        !lang.marshals_arrays(),
        !left_token(Op::Write(name)),
    ensures
        read_declaration(d.ops(Some(name), void_prototype, lang)) == (Reading {
            is_const: d.base->0.is_const,
            base: d.base->0.name,
            name,
            declarators: d.declarators,
        }),
{
    lemma_parts_of_declaration(d, name, void_prototype, lang);
    law_read_back(d.declarators, void_prototype, lang);
}

impl Reading {
    /// The declaration that was read: that of a base type without kind and
    /// generic arguments.
    pub open spec fn decl(self) -> SpecDecl {
        SpecDecl {
            declarators: self.declarators,
            base: Some(
                SpecBase {
                    is_const: self.is_const,
                    name: self.base,
                    generic_args: Seq::empty(),
                    generic_decls: Seq::empty(),
                    ctype: None,
                },
            ),
        }
    }
}

/// The type is a primitive type under pointers, references and arrays, and
/// its name is not the qualifier.
pub open spec fn plain_chain(t: SpecType) -> bool
    decreases t,
{
    match t {
        SpecType::Primitive(name) => name != "const "@,
        SpecType::ConstPtr(inner) => plain_chain(*inner),
        SpecType::Ptr(inner) => plain_chain(*inner),
        SpecType::Ref(inner) => plain_chain(*inner),
        SpecType::MutRef(inner) => plain_chain(*inner),
        SpecType::Array(inner, _) => plain_chain(*inner),
        _ => false,
    }
}

/// The declaration of a primitive type under pointers, references and
/// arrays has no parameter list, and its base type has the name of the
/// primitive type and neither kind nor generic arguments.
proof fn lemma_of_plain_chain(t: SpecType, is_const: bool)
    requires
        plain_chain(t),
    ensures
        without_lists(SpecDecl::of_type(t, is_const).declarators),
        SpecDecl::of_type(t, is_const).base is Some,
        SpecDecl::of_type(t, is_const).base->0.name != "const "@,
        SpecDecl::of_type(t, is_const).base->0.ctype is None,
        SpecDecl::of_type(t, is_const).base->0.generic_args == Seq::<SpecType>::empty(),
        SpecDecl::of_type(t, is_const).base->0.generic_decls == Seq::<SpecDecl>::empty(),
    decreases t,
{
    let d = SpecDecl::of_type(t, is_const);
    match t {
        SpecType::Primitive(_) => {},
        SpecType::ConstPtr(inner) => {
            lemma_of_plain_chain(*inner, true);
            lemma_under_without_lists(
                SpecDecl::of_type(*inner, true),
                SpecDeclarator::Ptr(is_const),
            );
        },
        SpecType::Ptr(inner) => {
            lemma_of_plain_chain(*inner, false);
            lemma_under_without_lists(
                SpecDecl::of_type(*inner, false),
                SpecDeclarator::Ptr(is_const),
            );
        },
        SpecType::Ref(inner) => {
            lemma_of_plain_chain(*inner, true);
            lemma_under_without_lists(SpecDecl::of_type(*inner, true), SpecDeclarator::Ref);
        },
        SpecType::MutRef(inner) => {
            lemma_of_plain_chain(*inner, false);
            lemma_under_without_lists(SpecDecl::of_type(*inner, false), SpecDeclarator::Ref);
        },
        SpecType::Array(inner, len) => {
            lemma_of_plain_chain(*inner, is_const);
            lemma_under_without_lists(
                SpecDecl::of_type(*inner, is_const),
                SpecDeclarator::Array(len),
            );
        },
        _ => {},
    }
}

/// One more pointer, reference or array keeps the declarators without
/// parameter lists.
proof fn lemma_under_without_lists(d: SpecDecl, outer: SpecDeclarator)
    requires
        without_lists(d.declarators),
        !(outer is Func),
    ensures
        without_lists(d.under(outer).declarators),
{
    let e = d.under(outer);
    assert forall|i: int| 0 <= i < e.declarators.len() implies !((#[trigger] e.declarators[i])
        is Func) by {
        if i > 0 {
            assert(e.declarators[i] == d.declarators[i - 1]);
        }
    }
}

/// The declaration of a name of a primitive type under pointers,
/// references and arrays, in a dialect that writes arrays in brackets:
/// read back from what is written, by the right-left rule, it declares the
/// same name, with the same declarators around the same base type, and the
/// type that these declare is the type that was declared, but for a
/// `const` that the declaration has no place for.
pub proof fn law_written_type_read_back(t: SpecType, name: Seq<char>, lang: Language)
    requires
        plain_chain(t),
        !lang.marshals_arrays(),
        !left_token(Op::Write(name)),
    ensures
        read_declaration(SpecDecl::of_type(t, false).ops(Some(name), false, lang)).name == name,
        read_declaration(SpecDecl::of_type(t, false).ops(Some(name), false, lang)).decl()
            == SpecDecl::of_type(t, false),
        type_of(
            read_declaration(SpecDecl::of_type(t, false).ops(Some(name), false, lang)).decl(),
            0,
        ).0 == plain(t),
{
    let d = SpecDecl::of_type(t, false);
    lemma_of_plain_chain(t, false);
    law_read_declaration(d, name, false, lang);
    law_shape(t, false);
}

} // verus!
