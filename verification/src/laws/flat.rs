//! The text of a declaration without vertical parameter lists.

use vstd::prelude::*;
use crate::decl::{
    arg_list_ops, args_ops, array_mark_ops, array_ops, blank_ops, declarator_ops, ends_in_ptr,
    generic_break, generic_list_ops, generics_ops, group, group_end, group_start, ident_ops,
    kind_ops, marshal_ops, nothing, param_break, params_ops, ptr_mark, qualifier_ops, text,
    void_ops, SpecDecl, SpecDeclarator,
};
use crate::ir::{Language, SpecFunction, SpecType};
use crate::writer::{lemma_run_written, Op, Sink};

verus! {

/// Every operation writes text.
pub open spec fn only_writes(ops: Seq<Op>) -> bool {
    forall|i: int| 0 <= i < ops.len() ==> (#[trigger] ops[i]) is Write
}

/// No parameter list among the parameters is laid out vertically.
pub open spec fn flat_params(args: Seq<(Option<Seq<char>>, SpecDecl)>) -> bool
    decreases args, 0nat,
{
    forall|j: int| 0 <= j < args.len() ==> flat((#[trigger] args[j]).1)
}

/// No parameter list among the generic arguments is laid out vertically.
pub open spec fn flat_generics(gs: Seq<SpecDecl>) -> bool
    decreases gs, 0nat,
{
    forall|j: int| 0 <= j < gs.len() ==> flat(#[trigger] gs[j])
}

/// The declarator is no parameter list that is laid out vertically, and has
/// none among its parameters.
pub open spec fn flat_declarator(d: SpecDeclarator) -> bool
    decreases d, 0nat,
{
    match d {
        SpecDeclarator::Func(args, layout_vertical) => !layout_vertical && flat_params(args),
        _ => true,
    }
}

/// No parameter list in the declaration, at any depth, is laid out
/// vertically.
pub open spec fn flat(d: SpecDecl) -> bool
    decreases d, 0nat,
{
    &&& d.base is Some ==> flat_generics(d.base->0.generic_decls)
    &&& forall|i: int| 0 <= i < d.declarators.len() ==> flat_declarator(#[trigger] d.declarators[i])
}

/// Sequences that only write, put together, only write.
proof fn lemma_only_writes(a: Seq<Op>, b: Seq<Op>)
    requires
        only_writes(a),
        only_writes(b),
    ensures
        only_writes(a + b),
{
}

proof fn lemma_flat_generics(gs: Seq<SpecDecl>, k: nat, lang: Language)
    requires
        flat_generics(gs),
        k <= gs.len(),
    ensures
        only_writes(generics_ops(gs, k, lang)),
    decreases gs, k,
{
    if k > 0 {
        lemma_flat_generics(gs, (k - 1) as nat, lang);
        lemma_flat_ops(gs[k - 1], None, false, lang);
        lemma_only_writes(generics_ops(gs, (k - 1) as nat, lang), generic_break((k - 1) as nat));
        lemma_only_writes(
            generics_ops(gs, (k - 1) as nat, lang) + generic_break((k - 1) as nat),
            gs[k - 1].ops(None, false, lang),
        );
    }
}

proof fn lemma_flat_args(
    args: Seq<(Option<Seq<char>>, SpecDecl)>,
    k: nat,
    void_prototype: bool,
    lang: Language,
)
    requires
        flat_params(args),
        k <= args.len(),
    ensures
        only_writes(args_ops(args, k, false, void_prototype, lang)),
    decreases args, k,
{
    if k > 0 {
        let done = args_ops(args, (k - 1) as nat, false, void_prototype, lang);
        lemma_flat_args(args, (k - 1) as nat, void_prototype, lang);
        lemma_flat_ops(args[k - 1].1, args[k - 1].0, void_prototype, lang);
        lemma_only_writes(done, param_break((k - 1) as nat, false));
        lemma_only_writes(
            done + param_break((k - 1) as nat, false),
            args[k - 1].1.ops(args[k - 1].0, void_prototype, lang),
        );
    }
}

proof fn lemma_flat_params(
    args: Seq<(Option<Seq<char>>, SpecDecl)>,
    void_prototype: bool,
    lang: Language,
)
    requires
        flat_params(args),
    ensures
        only_writes(params_ops(args, false, void_prototype, lang)),
    decreases args, args.len() + 1,
{
    let open = text("("@);
    let void = void_ops(args.len() == 0 && void_prototype);
    let list = arg_list_ops(args, false, void_prototype, lang);
    lemma_flat_args(args, args.len(), void_prototype, lang);
    lemma_only_writes(open, void);
    lemma_only_writes(open + void, list);
    lemma_only_writes(open + void + list, text(")"@));
}

proof fn lemma_flat_declarators(
    ds: Seq<SpecDeclarator>,
    k: nat,
    inner: Seq<Op>,
    void_prototype: bool,
    lang: Language,
)
    requires
        forall|i: int| 0 <= i < ds.len() ==> flat_declarator(#[trigger] ds[i]),
        k <= ds.len(),
        only_writes(inner),
    ensures
        only_writes(declarator_ops(ds, k, inner, void_prototype, lang)),
    decreases ds, k,
{
    if k > 0 {
        let rest = declarator_ops(ds, (k - 1) as nat, inner, void_prototype, lang);
        let grouped = ends_in_ptr(ds, k - 1);
        lemma_flat_declarators(ds, (k - 1) as nat, inner, void_prototype, lang);
        assert(flat_declarator(ds[k - 1]));
        lemma_only_writes(group_start(grouped), rest);
        lemma_only_writes(group_start(grouped) + rest, group_end(grouped));
        match ds[k - 1] {
            SpecDeclarator::Ptr(is_const) => {
                lemma_only_writes(text(ptr_mark(is_const)), rest);
            },
            SpecDeclarator::Ref => {
                lemma_only_writes(text("&"@), rest);
            },
            SpecDeclarator::Array(len) => {
                lemma_only_writes(text("["@), text(len));
                lemma_only_writes(text("["@) + text(len), text("]"@));
                lemma_only_writes(group(grouped, rest), array_ops(len, lang));
            },
            SpecDeclarator::Func(args, layout_vertical) => {
                lemma_flat_params(args, void_prototype, lang);
                lemma_only_writes(
                    group(grouped, rest),
                    params_ops(args, layout_vertical, void_prototype, lang),
                );
            },
        }
    }
}

proof fn lemma_flat_base(d: SpecDecl, lang: Language)
    requires
        flat(d),
    ensures
        only_writes(d.base_ops(lang)),
    decreases d, 1nat,
{
    let marshalled = d.marshalled_len(lang);
    let attribute = marshal_ops(marshalled);
    if let Some(len) = marshalled {
        let head = text("[MarshalAs(UnmanagedType.ByValArray, SizeConst="@);
        lemma_only_writes(head, text(len));
        lemma_only_writes(head + text(len), text(")] readonly "@));
    }
    match d.base {
        Some(base) => {
            let gs = base.generic_decls;
            let qualifier = qualifier_ops(base.is_const);
            let kind = kind_ops(base.ctype);
            let name = text(base.name);
            let mark = array_mark_ops(marshalled is Some);
            let list = generic_list_ops(gs, lang);
            if let Some(ctype) = base.ctype {
                lemma_only_writes(text(ctype.spec_str()), text(" "@));
            }
            if gs.len() > 0 {
                lemma_flat_generics(gs, gs.len(), lang);
                lemma_only_writes(text("<"@), generics_ops(gs, gs.len(), lang));
                lemma_only_writes(text("<"@) + generics_ops(gs, gs.len(), lang), text(">"@));
            }
            lemma_only_writes(qualifier, kind);
            lemma_only_writes(qualifier + kind, name);
            lemma_only_writes(qualifier + kind + name, mark);
            lemma_only_writes(qualifier + kind + name + mark, list);
            lemma_only_writes(attribute, base.ops(marshalled is Some, lang));
        },
        None => {
            lemma_only_writes(attribute, nothing());
        },
    }
}

proof fn lemma_flat_ops(
    d: SpecDecl,
    ident: Option<Seq<char>>,
    void_prototype: bool,
    lang: Language,
)
    requires
        flat(d),
    ensures
        only_writes(d.ops(ident, void_prototype, lang)),
    decreases d, 2nat,
{
    let base = d.base_ops(lang);
    let blank = blank_ops(ident is Some);
    lemma_flat_base(d, lang);
    lemma_flat_declarators(
        d.declarators,
        d.declarators.len(),
        ident_ops(ident),
        void_prototype,
        lang,
    );
    lemma_only_writes(base, blank);
    lemma_only_writes(
        base + blank,
        declarator_ops(d.declarators, d.declarators.len(), ident_ops(ident), void_prototype, lang),
    );
}

/// The declaration of a type has no parameter list that is laid out
/// vertically.
pub proof fn lemma_of_type_flat(t: SpecType, is_const: bool)
    ensures
        flat(SpecDecl::of_type(t, is_const)),
    decreases t,
{
    let d = SpecDecl::of_type(t, is_const);
    match t {
        SpecType::Primitive(_) => {},
        SpecType::Path(path) => {
            assert forall|j: int| 0 <= j < d.base->0.generic_decls.len() implies flat(
                #[trigger] d.base->0.generic_decls[j],
            ) by {
                lemma_of_type_flat(path.generics[j], false);
            }
        },
        SpecType::ConstPtr(inner) => {
            lemma_of_type_flat(*inner, true);
            lemma_under_flat(SpecDecl::of_type(*inner, true), SpecDeclarator::Ptr(is_const));
        },
        SpecType::Ptr(inner) => {
            lemma_of_type_flat(*inner, false);
            lemma_under_flat(SpecDecl::of_type(*inner, false), SpecDeclarator::Ptr(is_const));
        },
        SpecType::Ref(inner) => {
            lemma_of_type_flat(*inner, true);
            lemma_under_flat(SpecDecl::of_type(*inner, true), SpecDeclarator::Ref);
        },
        SpecType::MutRef(inner) => {
            lemma_of_type_flat(*inner, false);
            lemma_under_flat(SpecDecl::of_type(*inner, false), SpecDeclarator::Ref);
        },
        SpecType::Array(inner, len) => {
            lemma_of_type_flat(*inner, is_const);
            lemma_under_flat(SpecDecl::of_type(*inner, is_const), SpecDeclarator::Array(len));
        },
        SpecType::FuncPtr(ret, args) => {
            let func = d.declarators[1];
            lemma_of_type_flat(*ret, false);
            assert forall|j: int| 0 <= j < func->Func_0.len() implies flat(
                (#[trigger] func->Func_0[j]).1,
            ) by {
                lemma_of_type_flat(args[j].1, false);
            }
            lemma_under_flat(SpecDecl::of_type(*ret, false), func);
            lemma_under_flat(
                SpecDecl::of_type(*ret, false).under(func),
                SpecDeclarator::Ptr(is_const),
            );
        },
    }
}

proof fn lemma_under_flat(d: SpecDecl, outer: SpecDeclarator)
    requires
        flat(d),
        flat_declarator(outer),
    ensures
        flat(d.under(outer)),
{
    let e = d.under(outer);
    assert forall|i: int| 0 <= i < e.declarators.len() implies flat_declarator(
        #[trigger] e.declarators[i],
    ) by {
        if i > 0 {
            assert(e.declarators[i] == d.declarators[i - 1]);
        }
    }
}

/// The declaration of a function in the horizontal layout has no parameter
/// list that is laid out vertically.
pub proof fn lemma_of_func_flat(f: SpecFunction)
    ensures
        flat(SpecDecl::of_func(f, false)),
{
    let func = SpecDecl::of_func(f, false).declarators[0];
    lemma_of_type_flat(f.ret, false);
    assert forall|j: int| 0 <= j < func->Func_0.len() implies flat(
        (#[trigger] func->Func_0[j]).1,
    ) by {
        lemma_of_type_flat(f.args[j].1, false);
    }
    lemma_under_flat(SpecDecl::of_type(f.ret, false), func);
}

/// A declaration without vertical parameter lists is written as one piece
/// of text, the same in every sink.
pub proof fn law_flat_text(
    s: Sink,
    d: SpecDecl,
    ident: Option<Seq<char>>,
    void_prototype: bool,
    lang: Language,
)
    requires
        flat(d),
    ensures
        s.run(d.ops(ident, void_prototype, lang)) == s.write(d.text(ident, void_prototype, lang)),
{
    lemma_flat_ops(d, ident, void_prototype, lang);
    lemma_run_written(s, d.ops(ident, void_prototype, lang));
}

/// The declaration of a field and the bare type are written as one piece
/// of text, the same in every sink.
pub proof fn law_type_text(s: Sink, t: SpecType, ident: Option<Seq<char>>, lang: Language)
    ensures
        s.run(SpecDecl::of_type(t, false).ops(ident, false, lang)) == s.write(
            SpecDecl::of_type(t, false).text(ident, false, lang),
        ),
{
    lemma_of_type_flat(t, false);
    law_flat_text(s, SpecDecl::of_type(t, false), ident, false, lang);
}

/// The declaration of a function in the horizontal layout is written as one
/// piece of text, the same in every sink.
pub proof fn law_func_text(s: Sink, f: SpecFunction, void_prototype: bool, lang: Language)
    ensures
        s.run(SpecDecl::of_func(f, false).ops(Some(f.name), void_prototype, lang)) == s.write(
            SpecDecl::of_func(f, false).text(Some(f.name), void_prototype, lang),
        ),
{
    lemma_of_func_flat(f);
    law_flat_text(s, SpecDecl::of_func(f, false), Some(f.name), void_prototype, lang);
}

} // verus!
