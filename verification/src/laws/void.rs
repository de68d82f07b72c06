//! How a parameter list without parameters is written.

use vstd::prelude::*;
use crate::decl::{
    arg_list_ops, args_ops, blank_ops, declarator_ops, ends_in_ptr, group, ident_ops, left_ops,
    lemma_two_walks, nothing, one, params_ops, right_ops, suffix_ops, text, void_ops, SpecDecl,
    SpecDeclarator,
};
use crate::ir::{Language, SpecFunction, SpecType};
use crate::writer::{lemma_run_concat, lemma_run_empty, lemma_run_one, lemma_write_write, Op, Sink};

verus! {

/// The text of an empty parameter list.
pub open spec fn empty_params(void_prototype: bool) -> Seq<char> {
    if void_prototype {
        "(void)"@
    } else {
        "()"@
    }
}

/// A parameter list without parameters is written as `(void)` where the
/// prototype is to be explicit and as `()` where it is not, whatever the
/// layout and the dialect, and leaves the indentation as it was.
pub proof fn law_explicit_void(
    s: Sink,
    args: Seq<(Option<Seq<char>>, SpecDecl)>,
    layout_vertical: bool,
    void_prototype: bool,
    lang: Language,
)
    requires
        args.len() == 0,
    ensures
        s.run(params_ops(args, layout_vertical, void_prototype, lang)) == s.write(
            empty_params(void_prototype),
        ),
{
    let open = text("("@);
    let void = void_ops(void_prototype);
    let list = arg_list_ops(args, layout_vertical, void_prototype, lang);
    let close = text(")"@);
    let opened = s.write("("@);
    let marked = opened.run(void);
    assert(params_ops(args, layout_vertical, void_prototype, lang) == open + void + list + close);
    assert(args_ops(args, 0, layout_vertical, void_prototype, lang) == nothing());
    lemma_run_one(s, Op::Write("("@));
    lemma_run_empty(opened);
    lemma_run_one(opened, Op::Write("void"@));
    assert(marked.run(list) == marked) by {
        lemma_run_empty(marked);
        if layout_vertical {
            let aligned = marked.apply(Op::Align);
            lemma_run_one(marked, Op::Align);
            lemma_run_empty(aligned);
            lemma_run_one(aligned, Op::Unalign);
            lemma_run_concat(marked, one(Op::Align), nothing());
            lemma_run_concat(marked, one(Op::Align) + nothing(), one(Op::Unalign));
            assert(aligned.spaces.drop_last() =~= marked.spaces);
        }
    }
    lemma_run_one(marked, Op::Write(")"@));
    lemma_run_concat(s, open, void);
    lemma_run_concat(s, open + void, list);
    lemma_run_concat(s, open + void + list, close);
    reveal_strlit("(");
    reveal_strlit(")");
    reveal_strlit("void");
    reveal_strlit("(void)");
    reveal_strlit("()");
    if void_prototype {
        lemma_write_write(s, "("@, "void"@);
        lemma_write_write(s, "("@ + "void"@, ")"@);
        assert("("@ + "void"@ + ")"@ =~= "(void)"@);
    } else {
        lemma_write_write(s, "("@, ")"@);
        assert("("@ + ")"@ =~= "()"@);
    }
}

/// A function or a pointer to a function without parameters, whatever it
/// returns: behind what the parameter list applies to, in parentheses or
/// not, stands `(void)` or `()`.
pub proof fn law_explicit_void_declarator(
    s: Sink,
    ds: Seq<SpecDeclarator>,
    k: nat,
    inner: Seq<Op>,
    void_prototype: bool,
    lang: Language,
)
    requires
        k < ds.len(),
        ds[k as int] is Func,
        ds[k as int]->Func_0.len() == 0,
    ensures
        s.run(declarator_ops(ds, k + 1, inner, void_prototype, lang)) == s.run(
            group(
                ends_in_ptr(ds, k as int),
                declarator_ops(ds, k, inner, void_prototype, lang),
            ),
        ).write(empty_params(void_prototype)),
{
    let applied = group(
        ends_in_ptr(ds, k as int),
        declarator_ops(ds, k, inner, void_prototype, lang),
    );
    let list = params_ops(ds[k as int]->Func_0, ds[k as int]->Func_1, void_prototype, lang);
    assert(declarator_ops(ds, k + 1, inner, void_prototype, lang) == applied + list);
    lemma_run_concat(s, applied, list);
    law_explicit_void(
        s.run(applied),
        ds[k as int]->Func_0,
        ds[k as int]->Func_1,
        void_prototype,
        lang,
    );
}

/// Every parameter list among the declarations of the parameters has
/// parameters.
pub open spec fn filled_params(args: Seq<(Option<Seq<char>>, SpecDecl)>) -> bool
    decreases args, 0nat,
{
    forall|j: int| 0 <= j < args.len() ==> filled((#[trigger] args[j]).1)
}

/// The declarator is no parameter list without parameters, and has none
/// among its parameters.
pub open spec fn filled_declarator(d: SpecDeclarator) -> bool
    decreases d, 0nat,
{
    match d {
        SpecDeclarator::Func(args, _) => args.len() > 0 && filled_params(args),
        _ => true,
    }
}

/// Every parameter list among the declarators of the declaration and of its
/// parameters, at any depth, has parameters.
pub open spec fn filled(d: SpecDecl) -> bool
    decreases d, 0nat,
{
    forall|i: int|
        0 <= i < d.declarators.len() ==> filled_declarator(#[trigger] d.declarators[i])
}

/// Parameters without empty parameter lists are written the same whether
/// the prototype is to be explicit or not.
proof fn lemma_filled_args(
    args: Seq<(Option<Seq<char>>, SpecDecl)>,
    k: nat,
    layout_vertical: bool,
    lang: Language,
)
    requires
        filled_params(args),
        k <= args.len(),
    ensures
        args_ops(args, k, layout_vertical, true, lang) == args_ops(
            args,
            k,
            layout_vertical,
            false,
            lang,
        ),
    decreases args, k,
{
    if k > 0 {
        lemma_filled_args(args, (k - 1) as nat, layout_vertical, lang);
        law_void_only_in_empty_lists(args[k - 1].1, args[k - 1].0, lang);
    }
}

/// A parameter list with parameters and without empty lists in them is
/// written the same whether the prototype is to be explicit or not.
proof fn lemma_filled_params(
    args: Seq<(Option<Seq<char>>, SpecDecl)>,
    layout_vertical: bool,
    lang: Language,
)
    requires
        filled_params(args),
        args.len() > 0,
    ensures
        params_ops(args, layout_vertical, true, lang) == params_ops(
            args,
            layout_vertical,
            false,
            lang,
        ),
    decreases args, args.len() + 1,
{
    lemma_filled_args(args, args.len(), layout_vertical, lang);
}

/// Declarators without empty parameter lists are written the same whether
/// the prototype is to be explicit or not.
proof fn lemma_filled_declarators(
    ds: Seq<SpecDeclarator>,
    k: nat,
    inner: Seq<Op>,
    lang: Language,
)
    requires
        forall|i: int| 0 <= i < ds.len() ==> filled_declarator(#[trigger] ds[i]),
        k <= ds.len(),
    ensures
        declarator_ops(ds, k, inner, true, lang) == declarator_ops(ds, k, inner, false, lang),
    decreases ds, k,
{
    if k > 0 {
        lemma_filled_declarators(ds, (k - 1) as nat, inner, lang);
        assert(filled_declarator(ds[k - 1]));
        match ds[k - 1] {
            SpecDeclarator::Func(args, layout_vertical) => {
                lemma_filled_params(args, layout_vertical, lang);
            },
            _ => {},
        }
    }
}

/// `void` stands in for an empty parameter list alone: where every
/// parameter list has parameters, the declaration is written the same
/// whether the prototype is to be explicit or not.
pub proof fn law_void_only_in_empty_lists(d: SpecDecl, ident: Option<Seq<char>>, lang: Language)
    requires
        filled(d),
    ensures
        d.ops(ident, true, lang) == d.ops(ident, false, lang),
    decreases d, 1nat,
{
    lemma_filled_declarators(d.declarators, d.declarators.len(), ident_ops(ident), lang);
}

/// What the walk from the declarator behind the `j`-th to the `k`-th writes
/// behind the declared name.
pub open spec fn right_ops_from(
    ds: Seq<SpecDeclarator>,
    j: nat,
    k: nat,
    void_prototype: bool,
    lang: Language,
) -> Seq<Op>
    decreases k,
{
    if k <= j || k > ds.len() {
        nothing()
    } else {
        right_ops_from(ds, j, (k - 1) as nat, void_prototype, lang) + suffix_ops(
            ds[k - 1],
            ends_in_ptr(ds, k - 1),
            void_prototype,
            lang,
        )
    }
}

/// The walk behind the name may be taken in two parts.
proof fn lemma_right_ops_split(
    ds: Seq<SpecDeclarator>,
    j: nat,
    k: nat,
    void_prototype: bool,
    lang: Language,
)
    requires
        j <= k <= ds.len(),
    ensures
        right_ops(ds, k, void_prototype, lang) == right_ops(ds, j, void_prototype, lang)
            + right_ops_from(ds, j, k, void_prototype, lang),
    decreases k,
{
    let first = right_ops(ds, j, void_prototype, lang);
    if k == j {
        assert(first =~= first + nothing());
    } else {
        lemma_right_ops_split(ds, j, (k - 1) as nat, void_prototype, lang);
        let before = right_ops_from(ds, j, (k - 1) as nat, void_prototype, lang);
        let last = suffix_ops(ds[k - 1], ends_in_ptr(ds, k - 1), void_prototype, lang);
        assert((first + before) + last =~= first + (before + last));
    }
}

/// Behind declarators that are no empty parameter lists and hold none, the
/// walk writes the same whether the prototype is to be explicit or not.
proof fn lemma_filled_right_ops_from(ds: Seq<SpecDeclarator>, j: nat, k: nat, lang: Language)
    requires
        j <= k <= ds.len(),
        forall|i: int| j <= i < ds.len() ==> filled_declarator(#[trigger] ds[i]),
    ensures
        right_ops_from(ds, j, k, true, lang) == right_ops_from(ds, j, k, false, lang),
    decreases k,
{
    if k > j {
        lemma_filled_right_ops_from(ds, j, (k - 1) as nat, lang);
        assert(filled_declarator(ds[k - 1]));
        match ds[k - 1] {
            SpecDeclarator::Func(args, layout_vertical) => {
                lemma_filled_params(args, layout_vertical, lang);
            },
            _ => {},
        }
    }
}

/// What the declaration of a function writes before its name: the base
/// type of what it returns, a blank, and what the declarators write before
/// the name.
pub open spec fn function_head(d: SpecDecl, lang: Language) -> Seq<Op> {
    d.base_ops(lang) + blank_ops(true) + left_ops(d.declarators, d.declarators.len())
}

/// What the declaration of a function writes behind its parameter list:
/// what the declarators of what it returns write behind the name.
pub open spec fn function_tail(d: SpecDecl, lang: Language) -> Seq<Op> {
    right_ops_from(d.declarators, 1, d.declarators.len(), false, lang)
}

/// A function without parameters is declared with `(void)` behind its name
/// where the prototype is to be explicit and with `()` where it is not,
/// whatever it returns, in every layout and dialect. Where what it returns
/// holds no empty parameter list of its own, the two declarations differ in
/// nothing else.
pub proof fn law_function_without_parameters(
    s: Sink,
    f: SpecFunction,
    layout_vertical: bool,
    void_prototype: bool,
    lang: Language,
)
    requires
        f.args.len() == 0,
        filled(SpecDecl::of_type(f.ret, false)),
    ensures
        s.run(SpecDecl::of_func(f, layout_vertical).ops(Some(f.name), void_prototype, lang))
            == s.run(function_head(SpecDecl::of_func(f, layout_vertical), lang)).write(
            f.name,
        ).write(empty_params(void_prototype)).run(
            function_tail(SpecDecl::of_func(f, layout_vertical), lang),
        ),
{
    let d = SpecDecl::of_func(f, layout_vertical);
    let returned = SpecDecl::of_type(f.ret, false);
    let ds = d.declarators;
    let n = ds.len();
    let name = text(f.name);
    let base = d.base_ops(lang);
    let blank = blank_ops(true);
    let left = left_ops(ds, n);
    let right = right_ops(ds, n, void_prototype, lang);
    let list = params_ops(ds[0]->Func_0, layout_vertical, void_prototype, lang);
    let tail = function_tail(d, lang);
    let head = function_head(d, lang);
    assert(ds[0]->Func_0.len() == 0);
    assert forall|i: int| 1 <= i < ds.len() implies filled_declarator(#[trigger] ds[i]) by {
        assert(ds[i] == returned.declarators[i - 1]);
    }
    lemma_two_walks(ds, n, name, void_prototype, lang);
    lemma_right_ops_split(ds, 1, n, void_prototype, lang);
    lemma_filled_right_ops_from(ds, 1, n, lang);
    assert(right_ops(ds, 0, void_prototype, lang) == nothing());
    assert(right_ops(ds, 1, void_prototype, lang) =~= list) by {
        assert(!ends_in_ptr(ds, 0));
        assert(nothing() + (nothing() + list) =~= list);
    }
    assert(right == list + tail);
    assert(d.ops(Some(f.name), void_prototype, lang) =~= head + name + list + tail) by {
        assert(base + blank + (left + name + (list + tail)) =~= base + blank + left + name + list
            + tail);
    }
    let headed = s.run(head);
    lemma_run_concat(s, head, name);
    lemma_run_one(headed, Op::Write(f.name));
    lemma_run_concat(s, head + name, list);
    law_explicit_void(headed.write(f.name), ds[0]->Func_0, layout_vertical, void_prototype, lang);
    lemma_run_concat(s, head + name + list, tail);
}

/// Every pointer to a function in the type, but for those in generic
/// arguments, has parameters.
pub open spec fn filled_type(t: SpecType) -> bool
    decreases t,
{
    match t {
        SpecType::Primitive(_) => true,
        SpecType::Path(_) => true,
        SpecType::ConstPtr(inner) => filled_type(*inner),
        SpecType::Ptr(inner) => filled_type(*inner),
        SpecType::Ref(inner) => filled_type(*inner),
        SpecType::MutRef(inner) => filled_type(*inner),
        SpecType::Array(inner, _) => filled_type(*inner),
        SpecType::FuncPtr(ret, args) => args.len() > 0 && filled_type(*ret) && forall|j: int|
            0 <= j < args.len() ==> filled_type((#[trigger] args[j]).1),
    }
}

/// One more declarator that is no empty parameter list and holds none keeps
/// a declaration without them.
proof fn lemma_under_filled(d: SpecDecl, outer: SpecDeclarator)
    requires
        filled(d),
        filled_declarator(outer),
    ensures
        filled(d.under(outer)),
{
    let e = d.under(outer);
    assert forall|i: int| 0 <= i < e.declarators.len() implies filled_declarator(
        #[trigger] e.declarators[i],
    ) by {
        if i > 0 {
            assert(e.declarators[i] == d.declarators[i - 1]);
        }
    }
}

/// The declaration of a type in which every pointer to a function has
/// parameters has no empty parameter list.
pub proof fn lemma_of_type_filled(t: SpecType, is_const: bool)
    requires
        filled_type(t),
    ensures
        filled(SpecDecl::of_type(t, is_const)),
    decreases t,
{
    let d = SpecDecl::of_type(t, is_const);
    match t {
        SpecType::Primitive(_) => {},
        SpecType::Path(_) => {},
        SpecType::ConstPtr(inner) => {
            lemma_of_type_filled(*inner, true);
            lemma_under_filled(SpecDecl::of_type(*inner, true), SpecDeclarator::Ptr(is_const));
        },
        SpecType::Ptr(inner) => {
            lemma_of_type_filled(*inner, false);
            lemma_under_filled(SpecDecl::of_type(*inner, false), SpecDeclarator::Ptr(is_const));
        },
        SpecType::Ref(inner) => {
            lemma_of_type_filled(*inner, true);
            lemma_under_filled(SpecDecl::of_type(*inner, true), SpecDeclarator::Ref);
        },
        SpecType::MutRef(inner) => {
            lemma_of_type_filled(*inner, false);
            lemma_under_filled(SpecDecl::of_type(*inner, false), SpecDeclarator::Ref);
        },
        SpecType::Array(inner, len) => {
            lemma_of_type_filled(*inner, is_const);
            lemma_under_filled(SpecDecl::of_type(*inner, is_const), SpecDeclarator::Array(len));
        },
        SpecType::FuncPtr(ret, args) => {
            let func = d.declarators[1];
            lemma_of_type_filled(*ret, false);
            assert forall|j: int| 0 <= j < func->Func_0.len() implies filled(
                (#[trigger] func->Func_0[j]).1,
            ) by {
                lemma_of_type_filled(args[j].1, false);
            }
            lemma_under_filled(SpecDecl::of_type(*ret, false), func);
            lemma_under_filled(
                SpecDecl::of_type(*ret, false).under(func),
                SpecDeclarator::Ptr(is_const),
            );
        },
    }
}

/// A function with parameters, where every pointer to a function in what it
/// returns and in the types of its parameters has parameters too, is
/// declared the same whether the prototype is to be explicit or not.
pub proof fn law_function_with_parameters(f: SpecFunction, layout_vertical: bool, lang: Language)
    requires
        f.args.len() > 0,
        filled_type(f.ret),
        forall|j: int| 0 <= j < f.args.len() ==> filled_type((#[trigger] f.args[j]).1),
    ensures
        SpecDecl::of_func(f, layout_vertical).ops(Some(f.name), true, lang) == SpecDecl::of_func(
            f,
            layout_vertical,
        ).ops(Some(f.name), false, lang),
{
    let func = SpecDecl::of_func(f, layout_vertical).declarators[0];
    lemma_of_type_filled(f.ret, false);
    assert forall|j: int| 0 <= j < func->Func_0.len() implies filled(
        (#[trigger] func->Func_0[j]).1,
    ) by {
        assert(filled_type(f.args[j].1));
        lemma_of_type_filled(f.args[j].1, false);
    }
    lemma_under_filled(SpecDecl::of_type(f.ret, false), func);
    law_void_only_in_empty_lists(SpecDecl::of_func(f, layout_vertical), Some(f.name), lang);
}

/// A type in which every pointer to a function has parameters is declared
/// the same whether the prototype is to be explicit or not.
pub proof fn law_type_without_empty_lists(t: SpecType, ident: Option<Seq<char>>, lang: Language)
    requires
        filled_type(t),
    ensures
        SpecDecl::of_type(t, false).ops(ident, true, lang) == SpecDecl::of_type(t, false).ops(
            ident,
            false,
            lang,
        ),
{
    lemma_of_type_filled(t, false);
    law_void_only_in_empty_lists(SpecDecl::of_type(t, false), ident, lang);
}

} // verus!
