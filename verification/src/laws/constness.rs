//! Where `const` stands in the declaration of a type.

use vstd::prelude::*;
use crate::decl::{
    array_mark_ops, array_ops, blank_ops, ends_in_ptr, generic_list_ops, group_end, ident_ops,
    kind_ops, left_ops, lemma_two_walks, marshal_ops, nothing, one, prefix_ops, qualifier_ops,
    right_ops, suffix_ops, text, SpecDecl, SpecDeclarator,
};
use crate::ir::{Language, SpecType};
use crate::writer::Op;

verus! {

/// The number of `const` that the declarators and the base type of a
/// declaration write.
pub open spec fn const_count(d: SpecDecl) -> nat {
    const_marks(d.declarators, d.declarators.len()) + (if d.base is Some && d.base->0.is_const {
        1nat
    } else {
        0nat
    })
}

/// The number of constant pointers among the first `k` declarators.
pub open spec fn const_marks(ds: Seq<SpecDeclarator>, k: nat) -> nat
    decreases k,
{
    if k == 0 || k > ds.len() {
        0
    } else {
        const_marks(ds, (k - 1) as nat) + (if ds[k - 1] == SpecDeclarator::Ptr(true) {
            1nat
        } else {
            0nat
        })
    }
}

/// Whether a declaration of the type has a place for `const`: the base
/// type, or a pointer, reached through arrays alone. A reference has none.
pub open spec fn takes_const(t: SpecType) -> bool
    decreases t,
{
    match t {
        SpecType::Primitive(_) => true,
        SpecType::Path(_) => true,
        SpecType::ConstPtr(_) => true,
        SpecType::Ptr(_) => true,
        SpecType::Ref(_) => false,
        SpecType::MutRef(_) => false,
        SpecType::Array(t, _) => takes_const(*t),
        SpecType::FuncPtr(_, _) => true,
    }
}

/// One more declarator adds its own `const`, if it has one, to the count.
proof fn lemma_const_count_under(d: SpecDecl, outer: SpecDeclarator)
    ensures
        const_count(d.under(outer)) == const_count(d) + (if outer == SpecDeclarator::Ptr(true) {
            1nat
        } else {
            0nat
        }),
{
    lemma_const_marks_under(d.declarators, outer, d.declarators.len());
}

/// One more declarator adds its own `const`, if it has one, to the marks.
proof fn lemma_const_marks_under(ds: Seq<SpecDeclarator>, outer: SpecDeclarator, k: nat)
    requires
        k <= ds.len(),
    ensures
        const_marks(seq![outer] + ds, k + 1) == const_marks(ds, k) + (if outer
            == SpecDeclarator::Ptr(true) {
            1nat
        } else {
            0nat
        }),
    decreases k,
{
    let es = seq![outer] + ds;
    if k > 0 {
        lemma_const_marks_under(ds, outer, (k - 1) as nat);
        assert(es[k as int] == ds[k - 1]);
    } else {
        assert(es[0] == outer);
        assert(const_marks(es, 0) == 0);
    }
}

/// A type that is reached as constant is declared with one `const` more
/// than the same type reached otherwise, if it has a place for it, and is
/// declared the same if it has none.
pub proof fn law_const_once(t: SpecType)
    ensures
        takes_const(t) ==> const_count(SpecDecl::of_type(t, true)) == const_count(
            SpecDecl::of_type(t, false),
        ) + 1,
        !takes_const(t) ==> SpecDecl::of_type(t, true) == SpecDecl::of_type(t, false),
    decreases t,
{
    match t {
        SpecType::Primitive(_) => {
            assert(const_marks(Seq::empty(), 0) == 0);
        },
        SpecType::Path(_) => {
            assert(const_marks(Seq::empty(), 0) == 0);
        },
        SpecType::ConstPtr(inner) => {
            lemma_const_count_under(SpecDecl::of_type(*inner, true), SpecDeclarator::Ptr(true));
            lemma_const_count_under(SpecDecl::of_type(*inner, true), SpecDeclarator::Ptr(false));
        },
        SpecType::Ptr(inner) => {
            lemma_const_count_under(SpecDecl::of_type(*inner, false), SpecDeclarator::Ptr(true));
            lemma_const_count_under(SpecDecl::of_type(*inner, false), SpecDeclarator::Ptr(false));
        },
        SpecType::Ref(_) => {},
        SpecType::MutRef(_) => {},
        SpecType::Array(inner, len) => {
            law_const_once(*inner);
            lemma_const_count_under(SpecDecl::of_type(*inner, true), SpecDeclarator::Array(len));
            lemma_const_count_under(SpecDecl::of_type(*inner, false), SpecDeclarator::Array(len));
        },
        SpecType::FuncPtr(_, _) => {
            let list = SpecDecl::of_type(t, false).declarators[1];
            let returned = SpecDecl::of_type(*(t->FuncPtr_0), false).under(list);
            lemma_const_count_under(returned, SpecDeclarator::Ptr(true));
            lemma_const_count_under(returned, SpecDeclarator::Ptr(false));
        },
    }
}

/// A pointer to a constant and a reference to a constant declare what they
/// point or refer to as constant, with one `const` more than a pointer or a
/// reference to the same type that is not constant, which add none. The
/// declarations differ in nothing else. This holds where the type pointed or
/// referred to has a place for `const`.
pub proof fn law_const_propagation(t: SpecType, is_const: bool)
    requires
        takes_const(t),
    ensures
        SpecDecl::of_type(SpecType::ConstPtr(Box::new(t)), is_const) == SpecDecl::of_type(
            t,
            true,
        ).under(SpecDeclarator::Ptr(is_const)),
        SpecDecl::of_type(SpecType::Ptr(Box::new(t)), is_const) == SpecDecl::of_type(
            t,
            false,
        ).under(SpecDeclarator::Ptr(is_const)),
        SpecDecl::of_type(SpecType::Ref(Box::new(t)), is_const) == SpecDecl::of_type(
            t,
            true,
        ).under(SpecDeclarator::Ref),
        SpecDecl::of_type(SpecType::MutRef(Box::new(t)), is_const) == SpecDecl::of_type(
            t,
            false,
        ).under(SpecDeclarator::Ref),
        const_count(SpecDecl::of_type(SpecType::ConstPtr(Box::new(t)), is_const)) == const_count(
            SpecDecl::of_type(SpecType::Ptr(Box::new(t)), is_const),
        ) + 1,
        const_count(SpecDecl::of_type(SpecType::Ref(Box::new(t)), is_const)) == const_count(
            SpecDecl::of_type(SpecType::MutRef(Box::new(t)), is_const),
        ) + 1,
        const_count(SpecDecl::of_type(SpecType::Ptr(Box::new(t)), false)) == const_count(
            SpecDecl::of_type(t, false),
        ),
        const_count(SpecDecl::of_type(SpecType::MutRef(Box::new(t)), is_const)) == const_count(
            SpecDecl::of_type(t, false),
        ),
{
    law_const_once(t);
    lemma_const_count_under(SpecDecl::of_type(t, true), SpecDeclarator::Ptr(is_const));
    lemma_const_count_under(SpecDecl::of_type(t, false), SpecDeclarator::Ptr(is_const));
    lemma_const_count_under(SpecDecl::of_type(t, false), SpecDeclarator::Ptr(false));
    lemma_const_count_under(SpecDecl::of_type(t, true), SpecDeclarator::Ref);
    lemma_const_count_under(SpecDecl::of_type(t, false), SpecDeclarator::Ref);
}

/// The number of operations among `ops` that write `const`, as the
/// qualifier of a base type or as the mark of a constant pointer.
pub open spec fn const_written(ops: Seq<Op>) -> nat
    decreases ops.len(),
{
    if ops.len() == 0 {
        0
    } else {
        const_written(ops.drop_last()) + (if ops.last() == Op::Write("const "@) || ops.last()
            == Op::Write("*const "@) {
            1nat
        } else {
            0nat
        })
    }
}

/// What two sequences write of `const` adds up.
proof fn lemma_const_written_concat(a: Seq<Op>, b: Seq<Op>)
    ensures
        const_written(a + b) == const_written(a) + const_written(b),
    decreases b.len(),
{
    if b.len() == 0 {
        assert(a + b =~= a);
    } else {
        lemma_const_written_concat(a, b.drop_last());
        assert((a + b).drop_last() =~= a + b.drop_last());
    }
}

/// One operation writes `const` once or not at all.
proof fn lemma_const_written_one(op: Op)
    ensures
        const_written(one(op)) == (if op == Op::Write("const "@) || op == Op::Write("*const "@) {
            1nat
        } else {
            0nat
        }),
        const_written(nothing()) == 0,
{
    assert(one(op).drop_last() =~= nothing());
    assert(const_written(one(op).drop_last()) == 0);
}

/// The walk before the name writes `const` once for each constant pointer.
proof fn lemma_const_written_left(ds: Seq<SpecDeclarator>, k: nat)
    requires
        k <= ds.len(),
    ensures
        const_written(left_ops(ds, k)) == const_marks(ds, k),
    decreases k,
{
    reveal_strlit("const ");
    reveal_strlit("*const ");
    reveal_strlit("*");
    reveal_strlit("&");
    reveal_strlit("(");
    if k == 0 {
        lemma_const_written_one(Op::NewLine);
    } else {
        let prefix = prefix_ops(ds[k - 1], ends_in_ptr(ds, k - 1));
        lemma_const_written_left(ds, (k - 1) as nat);
        lemma_const_written_concat(prefix, left_ops(ds, (k - 1) as nat));
        lemma_const_written_one(Op::Write("*const "@));
        lemma_const_written_one(Op::Write("*"@));
        lemma_const_written_one(Op::Write("&"@));
        lemma_const_written_one(Op::Write("("@));
        assert("*"@.len() != "*const "@.len());
        assert("*"@.len() != "const "@.len());
        assert("&"@.len() != "*const "@.len());
        assert("&"@.len() != "const "@.len());
        assert("("@.len() != "*const "@.len());
        assert("("@.len() != "const "@.len());
        assert("*const "@.len() != "const "@.len());
    }
}

/// Each `const` that is counted is written once, and no other: the
/// qualifier before the base type, and the mark of each constant pointer
/// before the declared name.
pub proof fn law_const_written(d: SpecDecl)
    requires
        d.base is Some,
    ensures
        const_written(
            qualifier_ops(d.base->0.is_const) + left_ops(d.declarators, d.declarators.len()),
        ) == const_count(d),
{
    reveal_strlit("const ");
    reveal_strlit("*const ");
    lemma_const_written_left(d.declarators, d.declarators.len());
    lemma_const_written_concat(
        qualifier_ops(d.base->0.is_const),
        left_ops(d.declarators, d.declarators.len()),
    );
    lemma_const_written_one(Op::Write("const "@));
}

/// `s` is one of the two texts that write `const`.
pub open spec fn const_token(s: Seq<char>) -> bool {
    s == "const "@ || s == "*const "@
}

/// The declaration is that of a base type without kind and generic
/// arguments under pointers, references and arrays, and neither the name of
/// the base type nor the length of an array is a text that writes `const`.
pub open spec fn plainly_named(d: SpecDecl) -> bool {
    &&& d.base is Some
    &&& d.base->0.ctype is None
    &&& d.base->0.generic_decls.len() == 0
    &&& !const_token(d.base->0.name)
    &&& forall|i: int|
        0 <= i < d.declarators.len() ==> match #[trigger] d.declarators[i] {
            SpecDeclarator::Array(len) => !const_token(len),
            SpecDeclarator::Func(_, _) => false,
            _ => true,
        }
}

/// The other texts that a declaration writes of itself do not write
/// `const`.
proof fn lemma_other_tokens()
    ensures
        !const_token(" "@),
        !const_token(")"@),
        !const_token("["@),
        !const_token("]"@),
        !const_token("[]"@),
        !const_token("[MarshalAs(UnmanagedType.ByValArray, SizeConst="@),
        !const_token(")] readonly "@),
        const_token("const "@),
{
    reveal_strlit("const ");
    reveal_strlit("*const ");
    reveal_strlit(" ");
    reveal_strlit(")");
    reveal_strlit("[");
    reveal_strlit("]");
    reveal_strlit("[]");
    reveal_strlit("[MarshalAs(UnmanagedType.ByValArray, SizeConst=");
    reveal_strlit(")] readonly ");
    assert("const "@.len() == 6);
    assert("*const "@.len() == 7);
    assert(" "@.len() == 1);
    assert(")"@.len() == 1);
    assert("["@.len() == 1);
    assert("]"@.len() == 1);
    assert("[]"@.len() == 2);
    assert("[MarshalAs(UnmanagedType.ByValArray, SizeConst="@.len() == 47);
    assert(")] readonly "@.len() == 12);
}

/// A piece of text writes `const` if it is one of the two texts that do.
proof fn lemma_const_written_text(s: Seq<char>)
    ensures
        const_written(text(s)) == (if const_token(s) {
            1nat
        } else {
            0nat
        }),
{
    lemma_const_written_one(Op::Write(s));
}

/// The walk behind the name writes no `const` where it writes arrays alone.
proof fn lemma_const_written_right(
    ds: Seq<SpecDeclarator>,
    k: nat,
    void_prototype: bool,
    lang: Language,
)
    requires
        k <= ds.len(),
        forall|i: int|
            0 <= i < ds.len() ==> match #[trigger] ds[i] {
                SpecDeclarator::Array(len) => !const_token(len),
                SpecDeclarator::Func(_, _) => false,
                _ => true,
            },
    ensures
        const_written(right_ops(ds, k, void_prototype, lang)) == 0,
    decreases k,
{
    lemma_const_written_one(Op::NewLine);
    if k > 0 {
        let before = right_ops(ds, (k - 1) as nat, void_prototype, lang);
        let grouped = ends_in_ptr(ds, k - 1);
        let suffix = suffix_ops(ds[k - 1], grouped, void_prototype, lang);
        lemma_const_written_right(ds, (k - 1) as nat, void_prototype, lang);
        lemma_const_written_concat(before, suffix);
        match ds[k - 1] {
            SpecDeclarator::Array(len) => {
                lemma_other_tokens();
                lemma_const_written_text(")"@);
                lemma_const_written_text("["@);
                lemma_const_written_text(len);
                lemma_const_written_text("]"@);
                lemma_const_written_concat(text("["@), text(len));
                lemma_const_written_concat(text("["@) + text(len), text("]"@));
                lemma_const_written_concat(group_end(grouped), array_ops(len, lang));
                assert(const_written(suffix) == 0);
            },
            _ => {},
        }
    }
}

/// What stands before the declarators writes `const` for a constant base
/// type alone.
proof fn lemma_const_written_base(d: SpecDecl, lang: Language)
    requires
        plainly_named(d),
    ensures
        const_written(d.base_ops(lang)) == (if d.base->0.is_const {
            1nat
        } else {
            0nat
        }),
{
    let base = d.base->0;
    let marshalled = d.marshalled_len(lang);
    let attribute = marshal_ops(marshalled);
    let qualifier = qualifier_ops(base.is_const);
    let kind = kind_ops(base.ctype);
    let name = text(base.name);
    let mark = array_mark_ops(marshalled is Some);
    let list = generic_list_ops(base.generic_decls, lang);
    lemma_other_tokens();
    lemma_const_written_one(Op::NewLine);
    lemma_const_written_text("const "@);
    lemma_const_written_text(base.name);
    lemma_const_written_text("[]"@);
    assert(const_written(attribute) == 0) by {
        if let Some(len) = marshalled {
            let head = text("[MarshalAs(UnmanagedType.ByValArray, SizeConst="@);
            let tail = text(")] readonly "@);
            assert(d.declarators[0] == SpecDeclarator::Array(len));
            lemma_const_written_text("[MarshalAs(UnmanagedType.ByValArray, SizeConst="@);
            lemma_const_written_text(len);
            lemma_const_written_text(")] readonly "@);
            lemma_const_written_concat(head, text(len));
            lemma_const_written_concat(head + text(len), tail);
        }
    }
    lemma_const_written_concat(qualifier, kind);
    lemma_const_written_concat(qualifier + kind, name);
    lemma_const_written_concat(qualifier + kind + name, mark);
    lemma_const_written_concat(qualifier + kind + name + mark, list);
    lemma_const_written_concat(attribute, base.ops(marshalled is Some, lang));
}

/// In the declaration of a base type under pointers, references and arrays
/// each `const` that is counted is written once, and no other `const` is
/// written anywhere: the whole declaration writes as many as the constant
/// pointers and the constant base type make.
pub proof fn law_const_tokens(
    d: SpecDecl,
    ident: Option<Seq<char>>,
    void_prototype: bool,
    lang: Language,
)
    requires
        plainly_named(d),
        ident is Some ==> !const_token(ident->0),
    ensures
        const_written(d.ops(ident, void_prototype, lang)) == const_count(d),
{
    let ds = d.declarators;
    let n = ds.len();
    let base = d.base_ops(lang);
    let blank = blank_ops(ident is Some);
    let name = ident_ops(ident);
    let left = left_ops(ds, n);
    let right = right_ops(ds, n, void_prototype, lang);
    lemma_other_tokens();
    lemma_const_written_one(Op::NewLine);
    lemma_const_written_text(" "@);
    if let Some(id) = ident {
        lemma_const_written_text(id);
    }
    lemma_const_written_base(d, lang);
    lemma_const_written_left(ds, n);
    lemma_const_written_right(ds, n, void_prototype, lang);
    lemma_two_walks(ds, n, name, void_prototype, lang);
    lemma_const_written_concat(left, name);
    lemma_const_written_concat(left + name, right);
    lemma_const_written_concat(base, blank);
    lemma_const_written_concat(base + blank, left + name + right);
}

/// The type is a primitive type under pointers and arrays, and neither its
/// name nor the length of an array is a text that writes `const`.
pub open spec fn pointer_chain(t: SpecType) -> bool
    decreases t,
{
    match t {
        SpecType::Primitive(name) => !const_token(name),
        SpecType::ConstPtr(inner) => pointer_chain(*inner),
        SpecType::Ptr(inner) => pointer_chain(*inner),
        SpecType::Array(inner, len) => !const_token(len) && pointer_chain(*inner),
        _ => false,
    }
}

/// The number of pointers to a constant in a primitive type under pointers
/// and arrays.
pub open spec fn const_pointers(t: SpecType) -> nat
    decreases t,
{
    match t {
        SpecType::ConstPtr(inner) => 1 + const_pointers(*inner),
        SpecType::Ptr(inner) => const_pointers(*inner),
        SpecType::Array(inner, _) => const_pointers(*inner),
        _ => 0,
    }
}

/// One more pointer or array keeps a declaration plainly named.
proof fn lemma_under_plainly_named(d: SpecDecl, outer: SpecDeclarator)
    requires
        plainly_named(d),
        match outer {
            SpecDeclarator::Array(len) => !const_token(len),
            SpecDeclarator::Func(_, _) => false,
            _ => true,
        },
    ensures
        plainly_named(d.under(outer)),
{
    let e = d.under(outer);
    assert forall|i: int| 0 <= i < e.declarators.len() implies match #[trigger] e.declarators[i] {
        SpecDeclarator::Array(len) => !const_token(len),
        SpecDeclarator::Func(_, _) => false,
        _ => true,
    } by {
        if i > 0 {
            assert(e.declarators[i] == d.declarators[i - 1]);
        }
    }
}

/// The declaration of a primitive type under pointers and arrays counts one
/// `const` for each pointer to a constant in the type, and one more if the
/// type is reached as constant.
proof fn lemma_const_pointers(t: SpecType, is_const: bool)
    requires
        pointer_chain(t),
    ensures
        plainly_named(SpecDecl::of_type(t, is_const)),
        const_count(SpecDecl::of_type(t, is_const)) == const_pointers(t) + (if is_const {
            1nat
        } else {
            0nat
        }),
    decreases t,
{
    match t {
        SpecType::Primitive(_) => {
            assert(const_marks(Seq::empty(), 0) == 0);
        },
        SpecType::ConstPtr(inner) => {
            lemma_const_pointers(*inner, true);
            lemma_under_plainly_named(
                SpecDecl::of_type(*inner, true),
                SpecDeclarator::Ptr(is_const),
            );
            lemma_const_count_under(SpecDecl::of_type(*inner, true), SpecDeclarator::Ptr(is_const));
        },
        SpecType::Ptr(inner) => {
            lemma_const_pointers(*inner, false);
            lemma_under_plainly_named(
                SpecDecl::of_type(*inner, false),
                SpecDeclarator::Ptr(is_const),
            );
            lemma_const_count_under(
                SpecDecl::of_type(*inner, false),
                SpecDeclarator::Ptr(is_const),
            );
        },
        SpecType::Array(inner, len) => {
            lemma_const_pointers(*inner, is_const);
            lemma_under_plainly_named(
                SpecDecl::of_type(*inner, is_const),
                SpecDeclarator::Array(len),
            );
            lemma_const_count_under(
                SpecDecl::of_type(*inner, is_const),
                SpecDeclarator::Array(len),
            );
        },
        _ => {},
    }
}

/// The declaration of a primitive type under pointers and arrays writes
/// `const` once for each pointer to a constant in the type, and nowhere
/// else, in every dialect; a pointer that is not to a constant adds none.
pub proof fn law_const_pointers(t: SpecType, ident: Option<Seq<char>>, lang: Language)
    requires
        pointer_chain(t),
        ident is Some ==> !const_token(ident->0),
    ensures
        const_written(SpecDecl::of_type(t, false).ops(ident, false, lang)) == const_pointers(t),
{
    lemma_const_pointers(t, false);
    law_const_tokens(SpecDecl::of_type(t, false), ident, false, lang);
}

/// What a pointer, a reference or an array is made of.
pub open spec fn made_of(t: SpecType) -> Option<SpecType> {
    match t {
        SpecType::ConstPtr(inner) => Some(*inner),
        SpecType::Ptr(inner) => Some(*inner),
        SpecType::Ref(inner) => Some(*inner),
        SpecType::MutRef(inner) => Some(*inner),
        SpecType::Array(inner, _) => Some(*inner),
        _ => None,
    }
}

/// The type is a base type under pointers, references and arrays.
pub open spec fn chain(t: SpecType) -> bool
    decreases t,
{
    match t {
        SpecType::Primitive(_) => true,
        SpecType::Path(_) => true,
        SpecType::ConstPtr(inner) => chain(*inner),
        SpecType::Ptr(inner) => chain(*inner),
        SpecType::Ref(inner) => chain(*inner),
        SpecType::MutRef(inner) => chain(*inner),
        SpecType::Array(inner, _) => chain(*inner),
        SpecType::FuncPtr(_, _) => false,
    }
}

/// The number of pointers, references and arrays above the base type.
pub open spec fn chain_len(t: SpecType) -> nat
    decreases t,
{
    match t {
        SpecType::ConstPtr(inner) => 1 + chain_len(*inner),
        SpecType::Ptr(inner) => 1 + chain_len(*inner),
        SpecType::Ref(inner) => 1 + chain_len(*inner),
        SpecType::MutRef(inner) => 1 + chain_len(*inner),
        SpecType::Array(inner, _) => 1 + chain_len(*inner),
        _ => 0,
    }
}

/// The type `k` steps below `t` on the way to its base type.
pub open spec fn link(t: SpecType, k: nat) -> SpecType
    decreases k,
{
    if k == 0 {
        t
    } else {
        match made_of(t) {
            Some(inner) => link(inner, (k - 1) as nat),
            None => t,
        }
    }
}

/// Whether the type `k` steps below `t` is reached as constant: whether the
/// nearest type above it that is no array is a pointer or a reference to a
/// constant. Where only arrays are above it, it is constant if `t` is.
pub open spec fn reached_const(t: SpecType, k: nat, is_const: bool) -> bool
    decreases k,
{
    if k == 0 {
        is_const
    } else {
        match link(t, (k - 1) as nat) {
            SpecType::Array(_, _) => reached_const(t, (k - 1) as nat, is_const),
            SpecType::ConstPtr(_) => true,
            SpecType::Ref(_) => true,
            _ => false,
        }
    }
}

/// The declarator of a pointer, a reference or an array that is reached as
/// constant or not.
pub open spec fn declarator_of(t: SpecType, is_const: bool) -> SpecDeclarator {
    match t {
        SpecType::Array(_, len) => SpecDeclarator::Array(len),
        SpecType::Ref(_) => SpecDeclarator::Ref,
        SpecType::MutRef(_) => SpecDeclarator::Ref,
        _ => SpecDeclarator::Ptr(is_const),
    }
}

/// How the type that `t` is made of is reached, where `t` is reached as
/// constant or not.
pub open spec fn passed_on(t: SpecType, is_const: bool) -> bool {
    match t {
        SpecType::Array(_, _) => is_const,
        SpecType::ConstPtr(_) => true,
        SpecType::Ref(_) => true,
        _ => false,
    }
}

/// The types below what `t` is made of are reached from `t` as they are
/// reached from what `t` is made of.
proof fn lemma_reached_const_below(t: SpecType, k: nat, is_const: bool)
    requires
        made_of(t) is Some,
    ensures
        link(t, k + 1) == link(made_of(t)->0, k),
        reached_const(t, k + 1, is_const) == reached_const(
            made_of(t)->0,
            k,
            passed_on(t, is_const),
        ),
    decreases k,
{
    let inner = made_of(t)->0;
    let passed = passed_on(t, is_const);
    assert(link(t, k + 1) == link(inner, k));
    if k == 0 {
        assert(link(t, 0) == t);
        assert(reached_const(t, 0, is_const) == is_const);
        assert(reached_const(inner, 0, passed) == passed);
    } else {
        lemma_reached_const_below(t, (k - 1) as nat, is_const);
        assert(link(t, k) == link(inner, (k - 1) as nat));
        assert(reached_const(t, k, is_const) == reached_const(inner, (k - 1) as nat, passed));
    }
}

/// In the declaration of a base type under pointers, references and
/// arrays, each declarator is that of the type as many steps below, and a
/// pointer is constant exactly where the nearest type above it that is no
/// array is a pointer or a reference to a constant. So is the base type.
pub proof fn law_const_from_above(t: SpecType, k: nat, is_const: bool)
    requires
        chain(t),
        k <= chain_len(t),
    ensures
        SpecDecl::of_type(t, is_const).declarators.len() == chain_len(t),
        SpecDecl::of_type(t, is_const).base is Some,
        k < chain_len(t) ==> SpecDecl::of_type(t, is_const).declarators[k as int] == declarator_of(
            link(t, k),
            reached_const(t, k, is_const),
        ),
        k == chain_len(t) ==> SpecDecl::of_type(t, is_const).base->0.is_const == reached_const(
            t,
            k,
            is_const,
        ),
    decreases t,
{
    match made_of(t) {
        Some(inner) => {
            let below = SpecDecl::of_type(inner, passed_on(t, is_const));
            let d = SpecDecl::of_type(t, is_const);
            assert(d == below.under(declarator_of(t, is_const)));
            if k == 0 {
                law_const_from_above(inner, 0, passed_on(t, is_const));
            } else {
                law_const_from_above(inner, (k - 1) as nat, passed_on(t, is_const));
                lemma_reached_const_below(t, (k - 1) as nat, is_const);
                if k < chain_len(t) {
                    assert(d.declarators[k as int] == below.declarators[k - 1]);
                }
            }
        },
        None => {},
    }
}

/// The first pointer of a declaration, before which only arrays stand, is
/// not constant.
pub proof fn law_first_pointer(t: SpecType, k: nat)
    requires
        chain(t),
        k < chain_len(t),
        link(t, k) is Ptr || link(t, k) is ConstPtr,
        forall|i: nat| i < k ==> (#[trigger] link(t, i)) is Array,
    ensures
        SpecDecl::of_type(t, false).declarators[k as int] == SpecDeclarator::Ptr(false),
{
    law_const_from_above(t, k, false);
    lemma_reached_through_arrays(t, k);
}

/// What is reached through arrays alone is constant if the array is.
proof fn lemma_reached_through_arrays(t: SpecType, k: nat)
    requires
        forall|i: nat| i < k ==> (#[trigger] link(t, i)) is Array,
    ensures
        !reached_const(t, k, false),
    decreases k,
{
    if k > 0 {
        assert(link(t, (k - 1) as nat) is Array);
        lemma_reached_through_arrays(t, (k - 1) as nat);
    }
}

} // verus!
