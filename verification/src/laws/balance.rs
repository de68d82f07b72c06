//! How many parentheses a declaration writes, and that they are balanced.

use vstd::prelude::*;
use crate::decl::{
    arg_list_ops, args_ops, array_mark_ops, array_ops, blank_ops, declarator_ops, ends_in_ptr,
    generic_break, generic_list_ops, generics_ops, group, ident_ops, kind_ops, marshal_ops,
    nothing, one, param_break, params_ops, ptr_mark, qualifier_ops, text, void_ops, SpecDecl,
    SpecDeclarator,
};
use crate::ir::{DeclarationType, Language, SpecFunction, SpecType};
use crate::writer::{written, Op};

verus! {

/// There is no parenthesis in the text.
pub open spec fn paren_free(s: Seq<char>) -> bool {
    forall|i: int| 0 <= i < s.len() ==> #[trigger] s[i] != '(' && s[i] != ')'
}

/// The dialect writes every array in brackets, so that no attribute stands
/// before a declaration.
pub open spec fn in_brackets(lang: Language) -> bool {
    !lang.marshals_arrays()
}

/// Every operation that writes, writes a parenthesis or a text without
/// one.
pub open spec fn clean(ops: Seq<Op>) -> bool {
    forall|i: int|
        0 <= i < ops.len() ==> ((#[trigger] ops[i]) matches Op::Write(s) ==> s == "("@ || s == ")"@
            || paren_free(s))
}

/// The number of operations that write an opening parenthesis.
pub open spec fn opens(ops: Seq<Op>) -> nat
    decreases ops.len(),
{
    if ops.len() == 0 {
        0
    } else {
        opens(ops.drop_last()) + (if ops.last() == Op::Write("("@) {
            1nat
        } else {
            0nat
        })
    }
}

/// The number of operations that write a closing parenthesis.
pub open spec fn closes(ops: Seq<Op>) -> nat
    decreases ops.len(),
{
    if ops.len() == 0 {
        0
    } else {
        closes(ops.drop_last()) + (if ops.last() == Op::Write(")"@) {
            1nat
        } else {
            0nat
        })
    }
}

/// At no point have more parentheses been closed than opened.
pub open spec fn well_nested(ops: Seq<Op>) -> bool
    decreases ops.len(),
{
    ops.len() == 0 || (well_nested(ops.drop_last()) && closes(ops) <= opens(ops))
}

/// The `i`-th declarator is an array or a parameter list behind a pointer,
/// a reference or a parameter list.
pub open spec fn grouped_at(ds: Seq<SpecDeclarator>, i: int) -> bool {
    0 <= i < ds.len() && (ds[i] is Array || ds[i] is Func) && ends_in_ptr(ds, i)
}

/// What the `i`-th declarator counts: one for a parameter list where lists
/// are counted, one for a group where groups are.
pub open spec fn counts_at(ds: Seq<SpecDeclarator>, i: int, of_lists: bool) -> nat {
    if of_lists {
        if 0 <= i < ds.len() && ds[i] is Func {
            1
        } else {
            0
        }
    } else {
        if grouped_at(ds, i) {
            1
        } else {
            0
        }
    }
}

/// The parameter lists, or the groups, in the declarations of the first `k`
/// parameters.
pub open spec fn pairs_in_params(
    args: Seq<(Option<Seq<char>>, SpecDecl)>,
    k: nat,
    of_lists: bool,
) -> nat
    decreases args, k,
{
    if k == 0 || k > args.len() {
        0
    } else {
        pairs_in_params(args, (k - 1) as nat, of_lists) + pairs(args[k - 1].1, of_lists)
    }
}

/// The parameter lists, or the groups, in the first `k` generic arguments.
pub open spec fn pairs_in_generics(gs: Seq<SpecDecl>, k: nat, of_lists: bool) -> nat
    decreases gs, k,
{
    if k == 0 || k > gs.len() {
        0
    } else {
        pairs_in_generics(gs, (k - 1) as nat, of_lists) + pairs(gs[k - 1], of_lists)
    }
}

/// The parameter lists, or the groups, among the first `k` declarators and
/// in the parameters of those that are parameter lists.
pub open spec fn pairs_in_declarators(ds: Seq<SpecDeclarator>, k: nat, of_lists: bool) -> nat
    decreases ds, k,
{
    if k == 0 || k > ds.len() {
        0
    } else {
        pairs_in_declarators(ds, (k - 1) as nat, of_lists) + counts_at(ds, k - 1, of_lists) + (
        match ds[k - 1] {
            SpecDeclarator::Func(args, _) => pairs_in_params(args, args.len(), of_lists),
            _ => 0,
        })
    }
}

/// The parameter lists (`of_lists`), or the groups, in the declaration: among
/// its declarators, in its parameters and in its generic arguments, at any
/// depth.
pub open spec fn pairs(d: SpecDecl, of_lists: bool) -> nat
    decreases d, 0nat,
{
    pairs_in_declarators(d.declarators, d.declarators.len(), of_lists) + (match d.base {
        Some(base) => pairs_in_generics(base.generic_decls, base.generic_decls.len(), of_lists),
        None => 0,
    })
}

/// The parameter lists, or the groups, in the generic arguments of the
/// base type.
pub open spec fn base_pairs(d: SpecDecl, of_lists: bool) -> nat {
    match d.base {
        Some(base) => pairs_in_generics(base.generic_decls, base.generic_decls.len(), of_lists),
        None => 0,
    }
}

/// The name, if there is one, holds no parenthesis.
pub open spec fn plain_name(name: Option<Seq<char>>) -> bool {
    name is Some ==> paren_free(name->0)
}

/// No name or length in the parameters holds a parenthesis.
pub open spec fn plain_params(args: Seq<(Option<Seq<char>>, SpecDecl)>) -> bool
    decreases args, 0nat,
{
    forall|j: int|
        0 <= j < args.len() ==> plain_name((#[trigger] args[j]).0) && plain_tokens(args[j].1)
}

/// No name or length in the generic arguments holds a parenthesis.
pub open spec fn plain_generics(gs: Seq<SpecDecl>) -> bool
    decreases gs, 0nat,
{
    forall|j: int| 0 <= j < gs.len() ==> plain_tokens(#[trigger] gs[j])
}

/// No name or length in the declarator holds a parenthesis.
pub open spec fn plain_declarator(d: SpecDeclarator) -> bool
    decreases d, 0nat,
{
    match d {
        SpecDeclarator::Array(len) => paren_free(len),
        SpecDeclarator::Func(args, _) => plain_params(args),
        _ => true,
    }
}

/// No name or length in the declaration, at any depth, holds a parenthesis.
pub open spec fn plain_tokens(d: SpecDecl) -> bool
    decreases d, 0nat,
{
    &&& d.base is Some ==> paren_free(d.base->0.name) && plain_generics(d.base->0.generic_decls)
    &&& forall|i: int|
        0 <= i < d.declarators.len() ==> plain_declarator(#[trigger] d.declarators[i])
}

/// The operations write `groups + lists` opening parentheses and as many
/// closing ones, and close none before it is opened. Where `exact`, each
/// writes a parenthesis, a text without one, or nothing.
pub open spec fn counted(exact: bool, ops: Seq<Op>, groups: nat, lists: nat) -> bool {
    &&& opens(ops) == groups + lists
    &&& closes(ops) == groups + lists
    &&& well_nested(ops)
    &&& exact ==> clean(ops)
}

/// The parentheses of two sequences add up.
pub proof fn lemma_sum(a: Seq<Op>, b: Seq<Op>)
    ensures
        opens(a + b) == opens(a) + opens(b),
        closes(a + b) == closes(a) + closes(b),
        well_nested(a) && well_nested(b) ==> well_nested(a + b),
        well_nested(a) ==> closes(a) <= opens(a),
        clean(a) && clean(b) ==> clean(a + b),
    decreases b.len(),
{
    if b.len() == 0 {
        assert(a + b =~= a);
    } else {
        lemma_sum(a, b.drop_last());
        assert((a + b).drop_last() =~= a + b.drop_last());
    }
}

/// What is counted in two sequences adds up.
proof fn lemma_counted(
    exact: bool,
    a: Seq<Op>,
    b: Seq<Op>,
    g1: nat,
    l1: nat,
    g2: nat,
    l2: nat,
)
    requires
        counted(exact, a, g1, l1),
        counted(exact, b, g2, l2),
    ensures
        counted(exact, a + b, g1 + g2, l1 + l2),
{
    lemma_sum(a, b);
}

/// A text without a parenthesis is neither of the two parentheses.
proof fn lemma_no_parenthesis(s: Seq<char>)
    requires
        paren_free(s),
    ensures
        s != "("@,
        s != ")"@,
{
    reveal_strlit("(");
    reveal_strlit(")");
    if s.len() > 0 {
        assert(s[0] != '(' && s[0] != ')');
    }
}

/// One operation that writes no parenthesis counts nothing.
proof fn lemma_counted_one(exact: bool, op: Op)
    requires
        op != Op::Write("("@),
        op != Op::Write(")"@),
        exact ==> (op matches Op::Write(s) ==> paren_free(s)),
    ensures
        counted(exact, one(op), 0, 0),
        counted(exact, nothing(), 0, 0),
{
    assert(one(op).drop_last() =~= nothing());
    assert(opens(one(op).drop_last()) == 0);
    assert(closes(one(op).drop_last()) == 0);
    assert(well_nested(one(op).drop_last()));
}

/// A text without a parenthesis counts nothing.
proof fn lemma_counted_text(exact: bool, s: Seq<char>)
    requires
        paren_free(s),
    ensures
        counted(exact, text(s), 0, 0),
{
    lemma_no_parenthesis(s);
    lemma_counted_one(exact, Op::Write(s));
}

/// What stands in a pair of parentheses counts one pair more.
proof fn lemma_counted_pair(exact: bool, inner: Seq<Op>, n: nat)
    requires
        opens(inner) == n,
        closes(inner) == n,
        well_nested(inner),
        exact ==> clean(inner),
    ensures
        opens(text("("@) + inner + text(")"@)) == n + 1,
        closes(text("("@) + inner + text(")"@)) == n + 1,
        well_nested(text("("@) + inner + text(")"@)),
        exact ==> clean(text("("@) + inner + text(")"@)),
{
    let open = text("("@);
    let close = text(")"@);
    reveal_strlit("(");
    reveal_strlit(")");
    assert("("@ != ")"@) by {
        assert("("@[0] != ")"@[0]);
    }
    assert(open.drop_last() =~= nothing());
    assert(close.drop_last() =~= nothing());
    assert(opens(open.drop_last()) == 0 && closes(open.drop_last()) == 0);
    assert(opens(close.drop_last()) == 0 && closes(close.drop_last()) == 0);
    assert(well_nested(open.drop_last()));
    assert(well_nested(open));
    lemma_sum(open, inner);
    lemma_sum(open + inner, close);
    assert((open + inner + close).drop_last() =~= open + inner);
}

/// The texts that a declaration writes of itself, but for the two
/// parentheses and the attribute of a marshalled array, have no
/// parenthesis.
proof fn lemma_own_tokens()
    ensures
        paren_free(" "@),
        paren_free("const "@),
        paren_free("struct"@),
        paren_free("enum"@),
        paren_free("union"@),
        paren_free("[]"@),
        paren_free("<"@),
        paren_free(">"@),
        paren_free(", "@),
        paren_free(","@),
        paren_free("void"@),
        paren_free("*"@),
        paren_free("*const "@),
        paren_free("&"@),
        paren_free("["@),
        paren_free("]"@),
        "[MarshalAs(UnmanagedType.ByValArray, SizeConst="@ != "("@,
        "[MarshalAs(UnmanagedType.ByValArray, SizeConst="@ != ")"@,
        ")] readonly "@ != "("@,
        ")] readonly "@ != ")"@,
{
    reveal_strlit("(");
    reveal_strlit(")");
    reveal_strlit(" ");
    reveal_strlit("const ");
    reveal_strlit("struct");
    reveal_strlit("enum");
    reveal_strlit("union");
    reveal_strlit("[]");
    reveal_strlit("<");
    reveal_strlit(">");
    reveal_strlit(", ");
    reveal_strlit(",");
    reveal_strlit("void");
    reveal_strlit("*");
    reveal_strlit("*const ");
    reveal_strlit("&");
    reveal_strlit("[");
    reveal_strlit("]");
    reveal_strlit("[MarshalAs(UnmanagedType.ByValArray, SizeConst=");
    reveal_strlit(")] readonly ");
    assert("("@.len() == 1 && ")"@.len() == 1);
    assert("[MarshalAs(UnmanagedType.ByValArray, SizeConst="@.len() == 47);
    assert(")] readonly "@.len() == 12);
}

/// The first `k` generic arguments count what their declarations count.
proof fn lemma_count_generics(gs: Seq<SpecDecl>, k: nat, lang: Language)
    requires
        plain_generics(gs),
        k <= gs.len(),
    ensures
        counted(in_brackets(lang),
            generics_ops(gs, k, lang),
            pairs_in_generics(gs, k, false),
            pairs_in_generics(gs, k, true),
        ),
    decreases gs, k,
{
    lemma_own_tokens();
    lemma_counted_one(in_brackets(lang), Op::NewLine);
    if k > 0 {
        let done = generics_ops(gs, (k - 1) as nat, lang);
        let sep = generic_break((k - 1) as nat);
        let item = gs[k - 1].ops(None, false, lang);
        lemma_count_generics(gs, (k - 1) as nat, lang);
        lemma_count_ops(gs[k - 1], None, false, lang);
        lemma_counted_text(in_brackets(lang), ", "@);
        lemma_counted(in_brackets(lang),
            done,
            sep,
            pairs_in_generics(gs, (k - 1) as nat, false),
            pairs_in_generics(gs, (k - 1) as nat, true),
            0,
            0,
        );
        lemma_counted(in_brackets(lang),
            done + sep,
            item,
            pairs_in_generics(gs, (k - 1) as nat, false),
            pairs_in_generics(gs, (k - 1) as nat, true),
            pairs(gs[k - 1], false),
            pairs(gs[k - 1], true),
        );
    }
}

/// The first `k` parameters count what their declarations count.
proof fn lemma_count_args(
    args: Seq<(Option<Seq<char>>, SpecDecl)>,
    k: nat,
    layout_vertical: bool,
    void_prototype: bool,
    lang: Language,
)
    requires
        plain_params(args),
        k <= args.len(),
    ensures
        counted(in_brackets(lang),
            args_ops(args, k, layout_vertical, void_prototype, lang),
            pairs_in_params(args, k, false),
            pairs_in_params(args, k, true),
        ),
    decreases args, k,
{
    lemma_own_tokens();
    lemma_counted_one(in_brackets(lang), Op::NewLine);
    if k > 0 {
        let done = args_ops(args, (k - 1) as nat, layout_vertical, void_prototype, lang);
        let sep = param_break((k - 1) as nat, layout_vertical);
        let item = args[k - 1].1.ops(args[k - 1].0, void_prototype, lang);
        lemma_count_args(args, (k - 1) as nat, layout_vertical, void_prototype, lang);
        lemma_count_ops(args[k - 1].1, args[k - 1].0, void_prototype, lang);
        lemma_counted_text(in_brackets(lang), ", "@);
        lemma_counted_text(in_brackets(lang), ","@);
        lemma_counted(in_brackets(lang), text(","@), one(Op::NewLine), 0, 0, 0, 0);
        assert(counted(in_brackets(lang), sep, 0, 0));
        lemma_counted(in_brackets(lang),
            done,
            sep,
            pairs_in_params(args, (k - 1) as nat, false),
            pairs_in_params(args, (k - 1) as nat, true),
            0,
            0,
        );
        lemma_counted(in_brackets(lang),
            done + sep,
            item,
            pairs_in_params(args, (k - 1) as nat, false),
            pairs_in_params(args, (k - 1) as nat, true),
            pairs(args[k - 1].1, false),
            pairs(args[k - 1].1, true),
        );
    }
}

/// A parameter list counts its own pair and what its parameters count.
pub proof fn lemma_count_params(
    args: Seq<(Option<Seq<char>>, SpecDecl)>,
    layout_vertical: bool,
    void_prototype: bool,
    lang: Language,
)
    requires
        plain_params(args),
    ensures
        counted(
            in_brackets(lang),
            params_ops(args, layout_vertical, void_prototype, lang),
            pairs_in_params(args, args.len(), false),
            pairs_in_params(args, args.len(), true) + 1,
        ),
        counted(
            in_brackets(lang),
            void_ops(args.len() == 0 && void_prototype) + arg_list_ops(
                args,
                layout_vertical,
                void_prototype,
                lang,
            ),
            pairs_in_params(args, args.len(), false),
            pairs_in_params(args, args.len(), true),
        ),
        params_ops(args, layout_vertical, void_prototype, lang) == text("("@) + (void_ops(
            args.len() == 0 && void_prototype,
        ) + arg_list_ops(args, layout_vertical, void_prototype, lang)) + text(")"@),
    decreases args, args.len() + 1,
{
    let groups = pairs_in_params(args, args.len(), false);
    let lists = pairs_in_params(args, args.len(), true);
    let items = args_ops(args, args.len(), layout_vertical, void_prototype, lang);
    let list = arg_list_ops(args, layout_vertical, void_prototype, lang);
    let void = void_ops(args.len() == 0 && void_prototype);
    lemma_own_tokens();
    lemma_counted_one(in_brackets(lang), Op::NewLine);
    lemma_counted_one(in_brackets(lang), Op::Align);
    lemma_counted_one(in_brackets(lang), Op::Unalign);
    lemma_counted_text(in_brackets(lang), "void"@);
    lemma_count_args(args, args.len(), layout_vertical, void_prototype, lang);
    assert(counted(in_brackets(lang), list, groups, lists)) by {
        if layout_vertical {
            lemma_counted(in_brackets(lang), one(Op::Align), items, 0, 0, groups, lists);
            lemma_counted(
                in_brackets(lang),
                one(Op::Align) + items,
                one(Op::Unalign),
                groups,
                lists,
                0,
                0,
            );
        }
    }
    lemma_counted(in_brackets(lang), void, list, 0, 0, groups, lists);
    lemma_counted_pair(in_brackets(lang), void + list, groups + lists);
    assert(params_ops(args, layout_vertical, void_prototype, lang) =~= text("("@) + (void + list)
        + text(")"@));
}

/// The first `k` declarators around `inner` count what `inner` counts, and
/// their own groups and parameter lists.
proof fn lemma_count_declarators(
    ds: Seq<SpecDeclarator>,
    k: nat,
    inner: Seq<Op>,
    groups: nat,
    lists: nat,
    void_prototype: bool,
    lang: Language,
)
    requires
        forall|i: int| 0 <= i < ds.len() ==> plain_declarator(#[trigger] ds[i]),
        k <= ds.len(),
        counted(in_brackets(lang), inner, groups, lists),
    ensures
        counted(in_brackets(lang),
            declarator_ops(ds, k, inner, void_prototype, lang),
            groups + pairs_in_declarators(ds, k, false),
            lists + pairs_in_declarators(ds, k, true),
        ),
    decreases ds, k,
{
    if k > 0 {
        let rest = declarator_ops(ds, (k - 1) as nat, inner, void_prototype, lang);
        let g = groups + pairs_in_declarators(ds, (k - 1) as nat, false);
        let l = lists + pairs_in_declarators(ds, (k - 1) as nat, true);
        let grouped = ends_in_ptr(ds, k - 1);
        let own: nat = if grouped {
            1
        } else {
            0
        };
        lemma_count_declarators(ds, (k - 1) as nat, inner, groups, lists, void_prototype, lang);
        lemma_own_tokens();
        lemma_counted_one(in_brackets(lang), Op::NewLine);
        assert(plain_declarator(ds[k - 1]));
        match ds[k - 1] {
            SpecDeclarator::Ptr(is_const) => {
                lemma_counted_text(in_brackets(lang), ptr_mark(is_const));
                lemma_counted(in_brackets(lang), text(ptr_mark(is_const)), rest, 0, 0, g, l);
            },
            SpecDeclarator::Ref => {
                lemma_counted_text(in_brackets(lang), "&"@);
                lemma_counted(in_brackets(lang), text("&"@), rest, 0, 0, g, l);
            },
            SpecDeclarator::Array(len) => {
                lemma_count_group(in_brackets(lang), grouped, rest, g, l);
                lemma_counted_text(in_brackets(lang), "["@);
                lemma_counted_text(in_brackets(lang), len);
                lemma_counted_text(in_brackets(lang), "]"@);
                lemma_counted(in_brackets(lang), text("["@), text(len), 0, 0, 0, 0);
                lemma_counted(in_brackets(lang), text("["@) + text(len), text("]"@), 0, 0, 0, 0);
                lemma_counted(
                    in_brackets(lang),
                    group(grouped, rest),
                    array_ops(len, lang),
                    g + own,
                    l,
                    0,
                    0,
                );
            },
            SpecDeclarator::Func(args, layout_vertical) => {
                lemma_count_group(in_brackets(lang), grouped, rest, g, l);
                lemma_count_params(args, layout_vertical, void_prototype, lang);
                lemma_counted(in_brackets(lang),
                    group(grouped, rest),
                    params_ops(args, layout_vertical, void_prototype, lang),
                    g + own,
                    l,
                    pairs_in_params(args, args.len(), false),
                    pairs_in_params(args, args.len(), true) + 1,
                );
            },
        }
    }
}

/// A group counts one pair more than what stands in it.
proof fn lemma_count_group(
    exact: bool,
    grouped: bool,
    inner: Seq<Op>,
    groups: nat,
    lists: nat,
)
    requires
        counted(exact, inner, groups, lists),
    ensures
        counted(exact,
            group(grouped, inner),
            groups + (if grouped {
                1nat
            } else {
                0nat
            }),
            lists,
        ),
{
    if grouped {
        lemma_counted_pair(exact, inner, groups + lists);
    } else {
        assert(group(grouped, inner) =~= inner);
    }
}

/// What stands before the declarators counts what the generic arguments
/// count.
proof fn lemma_count_base(d: SpecDecl, lang: Language)
    requires
        plain_tokens(d),
    ensures
        counted(in_brackets(lang),
            d.base_ops(lang),
            base_pairs(d, false),
            base_pairs(d, true),
        ),
    decreases d, 1nat,
{
    let marshalled = d.marshalled_len(lang);
    let attribute = marshal_ops(marshalled);
    lemma_own_tokens();
    lemma_counted_one(in_brackets(lang), Op::NewLine);
    assert(counted(in_brackets(lang), attribute, 0, 0)) by {
        if let Some(len) = marshalled {
            let head = text("[MarshalAs(UnmanagedType.ByValArray, SizeConst="@);
            assert(plain_declarator(d.declarators[0]));
            lemma_counted_one(
                in_brackets(lang),
                Op::Write("[MarshalAs(UnmanagedType.ByValArray, SizeConst="@),
            );
            lemma_counted_text(in_brackets(lang), len);
            lemma_counted_one(in_brackets(lang), Op::Write(")] readonly "@));
            lemma_counted(in_brackets(lang), head, text(len), 0, 0, 0, 0);
            lemma_counted(in_brackets(lang), head + text(len), text(")] readonly "@), 0, 0, 0, 0);
        }
    }
    match d.base {
        Some(base) => {
            let gs = base.generic_decls;
            let groups = pairs_in_generics(gs, gs.len(), false);
            let lists = pairs_in_generics(gs, gs.len(), true);
            let qualifier = qualifier_ops(base.is_const);
            let kind = kind_ops(base.ctype);
            let name = text(base.name);
            let mark = array_mark_ops(marshalled is Some);
            let list = generic_list_ops(gs, lang);
            lemma_counted_text(in_brackets(lang), "const "@);
            lemma_counted_text(in_brackets(lang), " "@);
            lemma_counted_text(in_brackets(lang), "[]"@);
            lemma_counted_text(in_brackets(lang), base.name);
            assert(counted(in_brackets(lang), kind, 0, 0)) by {
                if let Some(ctype) = base.ctype {
                    lemma_kind_token(ctype);
                    lemma_counted_text(in_brackets(lang), ctype.spec_str());
                    lemma_counted(
                        in_brackets(lang),
                        text(ctype.spec_str()),
                        text(" "@),
                        0,
                        0,
                        0,
                        0,
                    );
                }
            }
            assert(counted(in_brackets(lang), list, groups, lists)) by {
                if gs.len() > 0 {
                    let items = generics_ops(gs, gs.len(), lang);
                    lemma_count_generics(gs, gs.len(), lang);
                    lemma_counted_text(in_brackets(lang), "<"@);
                    lemma_counted_text(in_brackets(lang), ">"@);
                    lemma_counted(in_brackets(lang), text("<"@), items, 0, 0, groups, lists);
                    lemma_counted(
                        in_brackets(lang),
                        text("<"@) + items,
                        text(">"@),
                        groups,
                        lists,
                        0,
                        0,
                    );
                }
            }
            lemma_counted(in_brackets(lang), qualifier, kind, 0, 0, 0, 0);
            lemma_counted(in_brackets(lang), qualifier + kind, name, 0, 0, 0, 0);
            lemma_counted(in_brackets(lang), qualifier + kind + name, mark, 0, 0, 0, 0);
            lemma_counted(
                in_brackets(lang),
                qualifier + kind + name + mark,
                list,
                0,
                0,
                groups,
                lists,
            );
            lemma_counted(
                in_brackets(lang),
                attribute,
                base.ops(marshalled is Some, lang),
                0,
                0,
                groups,
                lists,
            );
        },
        None => {
            lemma_counted(in_brackets(lang), attribute, nothing(), 0, 0, 0, 0);
        },
    }
}

/// The keyword of a kind holds no parenthesis.
proof fn lemma_kind_token(ctype: DeclarationType)
    ensures
        paren_free(ctype.spec_str()),
{
    lemma_own_tokens();
}

/// The operations of a declaration count its groups and its parameter
/// lists.
proof fn lemma_count_ops(
    d: SpecDecl,
    ident: Option<Seq<char>>,
    void_prototype: bool,
    lang: Language,
)
    requires
        plain_tokens(d),
        plain_name(ident),
    ensures
        counted(
            in_brackets(lang),
            d.ops(ident, void_prototype, lang),
            pairs(d, false),
            pairs(d, true),
        ),
    decreases d, 2nat,
{
    let ds = d.declarators;
    let base = d.base_ops(lang);
    let blank = blank_ops(ident is Some);
    let name = ident_ops(ident);
    let base_groups = base_pairs(d, false);
    let base_lists = base_pairs(d, true);
    lemma_own_tokens();
    lemma_counted_one(in_brackets(lang), Op::NewLine);
    lemma_counted_text(in_brackets(lang), " "@);
    if let Some(id) = ident {
        lemma_counted_text(in_brackets(lang), id);
    }
    lemma_count_base(d, lang);
    lemma_count_declarators(ds, ds.len(), name, 0, 0, void_prototype, lang);
    lemma_counted(in_brackets(lang), base, blank, base_groups, base_lists, 0, 0);
    lemma_counted(in_brackets(lang),
        base + blank,
        declarator_ops(ds, ds.len(), name, void_prototype, lang),
        base_groups,
        base_lists,
        pairs_in_declarators(ds, ds.len(), false),
        pairs_in_declarators(ds, ds.len(), true),
    );
}

/// In every dialect, the operations of a declaration in which no name and
/// no length holds a parenthesis write one pair of parentheses for each
/// parameter list and one for each array or parameter list that stands
/// behind a pointer, a reference or a parameter list, counted in its
/// declarators, its parameters and its generic arguments at any depth, and
/// no other. At no point have more been closed than opened. So where no
/// array or parameter list stands behind a pointer, a reference or a
/// parameter list, every parenthesis is that of a parameter list.
pub proof fn law_parentheses_counted(
    d: SpecDecl,
    ident: Option<Seq<char>>,
    void_prototype: bool,
    lang: Language,
)
    requires
        plain_tokens(d),
        plain_name(ident),
    ensures
        opens(d.ops(ident, void_prototype, lang)) == pairs(d, false) + pairs(d, true),
        closes(d.ops(ident, void_prototype, lang)) == pairs(d, false) + pairs(d, true),
        well_nested(d.ops(ident, void_prototype, lang)),
        pairs(d, false) == 0 ==> opens(d.ops(ident, void_prototype, lang)) == pairs(d, true),
{
    lemma_count_ops(d, ident, void_prototype, lang);
}

/// No array or parameter list among the declarators of the parameters
/// stands behind a pointer, a reference or a parameter list.
pub open spec fn no_groups_in_params(args: Seq<(Option<Seq<char>>, SpecDecl)>) -> bool
    decreases args, 0nat,
{
    forall|j: int| 0 <= j < args.len() ==> no_groups((#[trigger] args[j]).1)
}

/// No array or parameter list among the declarators of the generic
/// arguments stands behind a pointer, a reference or a parameter list.
pub open spec fn no_groups_in_generics(gs: Seq<SpecDecl>) -> bool
    decreases gs, 0nat,
{
    forall|j: int| 0 <= j < gs.len() ==> no_groups(#[trigger] gs[j])
}

/// No array or parameter list in the declaration, at any depth, stands
/// behind a pointer, a reference or a parameter list.
pub open spec fn no_groups(d: SpecDecl) -> bool
    decreases d, 0nat,
{
    &&& d.base is Some ==> no_groups_in_generics(d.base->0.generic_decls)
    &&& forall|i: int|
        0 <= i < d.declarators.len() ==> !grouped_at(d.declarators, i) && (
        #[trigger] d.declarators[i] matches SpecDeclarator::Func(args, _) ==> no_groups_in_params(
            args,
        ))
}

/// Parameters without groups count none.
proof fn lemma_no_groups_in_params(args: Seq<(Option<Seq<char>>, SpecDecl)>, k: nat)
    requires
        no_groups_in_params(args),
        k <= args.len(),
    ensures
        pairs_in_params(args, k, false) == 0,
    decreases args, k,
{
    if k > 0 {
        lemma_no_groups_in_params(args, (k - 1) as nat);
        lemma_no_groups(args[k - 1].1);
    }
}

/// Generic arguments without groups count none.
proof fn lemma_no_groups_in_generics(gs: Seq<SpecDecl>, k: nat)
    requires
        no_groups_in_generics(gs),
        k <= gs.len(),
    ensures
        pairs_in_generics(gs, k, false) == 0,
    decreases gs, k,
{
    if k > 0 {
        lemma_no_groups_in_generics(gs, (k - 1) as nat);
        lemma_no_groups(gs[k - 1]);
    }
}

/// Declarators without groups count none.
proof fn lemma_no_groups_in_declarators(ds: Seq<SpecDeclarator>, k: nat)
    requires
        k <= ds.len(),
        forall|i: int|
            0 <= i < ds.len() ==> !grouped_at(ds, i) && (
            #[trigger] ds[i] matches SpecDeclarator::Func(args, _) ==> no_groups_in_params(args)),
    ensures
        pairs_in_declarators(ds, k, false) == 0,
    decreases ds, k,
{
    if k > 0 {
        lemma_no_groups_in_declarators(ds, (k - 1) as nat);
        assert(!grouped_at(ds, k - 1));
        match ds[k - 1] {
            SpecDeclarator::Func(args, _) => {
                lemma_no_groups_in_params(args, args.len());
            },
            _ => {},
        }
    }
}

/// Where no array or parameter list stands behind a pointer, a reference or
/// a parameter list, no group is counted.
proof fn lemma_no_groups(d: SpecDecl)
    requires
        no_groups(d),
    ensures
        pairs(d, false) == 0,
    decreases d, 1nat,
{
    lemma_no_groups_in_declarators(d.declarators, d.declarators.len());
    if let Some(base) = d.base {
        lemma_no_groups_in_generics(base.generic_decls, base.generic_decls.len());
    }
}

/// Where no array or parameter list in a declaration, at any depth, stands
/// behind a pointer, a reference or a parameter list, and no name and no
/// length holds a parenthesis, the declaration writes no parenthesis but the
/// pair of each parameter list.
pub proof fn law_no_grouping_parentheses(
    d: SpecDecl,
    ident: Option<Seq<char>>,
    void_prototype: bool,
    lang: Language,
)
    requires
        no_groups(d),
        plain_tokens(d),
        plain_name(ident),
    ensures
        opens(d.ops(ident, void_prototype, lang)) == pairs(d, true),
        closes(d.ops(ident, void_prototype, lang)) == pairs(d, true),
        well_nested(d.ops(ident, void_prototype, lang)),
{
    lemma_no_groups(d);
    lemma_count_ops(d, ident, void_prototype, lang);
}

/// No name and no length in the type, at any depth, holds a parenthesis.
pub open spec fn plain_type(t: SpecType) -> bool
    decreases t,
{
    match t {
        SpecType::Primitive(name) => paren_free(name),
        SpecType::Path(path) => paren_free(path.name) && forall|j: int|
            0 <= j < path.generics.len() ==> plain_type(#[trigger] path.generics[j]),
        SpecType::ConstPtr(inner) => plain_type(*inner),
        SpecType::Ptr(inner) => plain_type(*inner),
        SpecType::Ref(inner) => plain_type(*inner),
        SpecType::MutRef(inner) => plain_type(*inner),
        SpecType::Array(inner, len) => paren_free(len) && plain_type(*inner),
        SpecType::FuncPtr(ret, args) => plain_type(*ret) && forall|j: int|
            0 <= j < args.len() ==> plain_name((#[trigger] args[j]).0) && plain_type(args[j].1),
    }
}

/// One more declarator without a parenthesis among its names and lengths
/// keeps a declaration without them.
proof fn lemma_under_plain(d: SpecDecl, outer: SpecDeclarator)
    requires
        plain_tokens(d),
        plain_declarator(outer),
    ensures
        plain_tokens(d.under(outer)),
{
    let e = d.under(outer);
    assert forall|i: int| 0 <= i < e.declarators.len() implies plain_declarator(
        #[trigger] e.declarators[i],
    ) by {
        if i > 0 {
            assert(e.declarators[i] == d.declarators[i - 1]);
        }
    }
}

/// The declaration of a type without a parenthesis among its names and
/// lengths has none among its own.
pub proof fn lemma_of_type_plain(t: SpecType, is_const: bool)
    requires
        plain_type(t),
    ensures
        plain_tokens(SpecDecl::of_type(t, is_const)),
    decreases t,
{
    let d = SpecDecl::of_type(t, is_const);
    match t {
        SpecType::Primitive(_) => {},
        SpecType::Path(path) => {
            assert forall|j: int| 0 <= j < d.base->0.generic_decls.len() implies plain_tokens(
                #[trigger] d.base->0.generic_decls[j],
            ) by {
                lemma_of_type_plain(path.generics[j], false);
            }
        },
        SpecType::ConstPtr(inner) => {
            lemma_of_type_plain(*inner, true);
            lemma_under_plain(SpecDecl::of_type(*inner, true), SpecDeclarator::Ptr(is_const));
        },
        SpecType::Ptr(inner) => {
            lemma_of_type_plain(*inner, false);
            lemma_under_plain(SpecDecl::of_type(*inner, false), SpecDeclarator::Ptr(is_const));
        },
        SpecType::Ref(inner) => {
            lemma_of_type_plain(*inner, true);
            lemma_under_plain(SpecDecl::of_type(*inner, true), SpecDeclarator::Ref);
        },
        SpecType::MutRef(inner) => {
            lemma_of_type_plain(*inner, false);
            lemma_under_plain(SpecDecl::of_type(*inner, false), SpecDeclarator::Ref);
        },
        SpecType::Array(inner, len) => {
            lemma_of_type_plain(*inner, is_const);
            lemma_under_plain(SpecDecl::of_type(*inner, is_const), SpecDeclarator::Array(len));
        },
        SpecType::FuncPtr(ret, args) => {
            let func = d.declarators[1];
            lemma_of_type_plain(*ret, false);
            assert forall|j: int| 0 <= j < func->Func_0.len() implies plain_name(
                (#[trigger] func->Func_0[j]).0,
            ) && plain_tokens(func->Func_0[j].1) by {
                assert(plain_name(args[j].0));
                lemma_of_type_plain(args[j].1, false);
            }
            lemma_under_plain(SpecDecl::of_type(*ret, false), func);
            lemma_under_plain(
                SpecDecl::of_type(*ret, false).under(func),
                SpecDeclarator::Ptr(is_const),
            );
        },
    }
}

/// The declaration of a field and the bare type, where no name and no
/// length in the type holds a parenthesis: as many parentheses are opened as
/// closed, one pair for each parameter list and for each group, and at no
/// point have more been closed than opened.
pub proof fn law_type_parentheses(t: SpecType, ident: Option<Seq<char>>, lang: Language)
    requires
        plain_type(t),
        plain_name(ident),
    ensures
        opens(SpecDecl::of_type(t, false).ops(ident, false, lang)) == pairs(
            SpecDecl::of_type(t, false),
            false,
        ) + pairs(SpecDecl::of_type(t, false), true),
        closes(SpecDecl::of_type(t, false).ops(ident, false, lang)) == opens(
            SpecDecl::of_type(t, false).ops(ident, false, lang),
        ),
        well_nested(SpecDecl::of_type(t, false).ops(ident, false, lang)),
{
    lemma_of_type_plain(t, false);
    lemma_count_ops(SpecDecl::of_type(t, false), ident, false, lang);
}

/// The declaration of a function, where no name and no length in it holds a
/// parenthesis: as many parentheses are opened as closed, one pair for each
/// parameter list and for each group, and at no point have more been closed
/// than opened.
pub proof fn law_func_parentheses(
    f: SpecFunction,
    layout_vertical: bool,
    void_prototype: bool,
    lang: Language,
)
    requires
        paren_free(f.name),
        plain_type(f.ret),
        forall|j: int|
            0 <= j < f.args.len() ==> paren_free((#[trigger] f.args[j]).0) && plain_type(
                f.args[j].1,
            ),
    ensures
        opens(SpecDecl::of_func(f, layout_vertical).ops(Some(f.name), void_prototype, lang))
            == pairs(SpecDecl::of_func(f, layout_vertical), false) + pairs(
            SpecDecl::of_func(f, layout_vertical),
            true,
        ),
        closes(SpecDecl::of_func(f, layout_vertical).ops(Some(f.name), void_prototype, lang))
            == opens(SpecDecl::of_func(f, layout_vertical).ops(Some(f.name), void_prototype, lang)),
        well_nested(SpecDecl::of_func(f, layout_vertical).ops(Some(f.name), void_prototype, lang)),
{
    let d = SpecDecl::of_func(f, layout_vertical);
    let func = d.declarators[0];
    lemma_of_type_plain(f.ret, false);
    assert forall|j: int| 0 <= j < func->Func_0.len() implies plain_name(
        (#[trigger] func->Func_0[j]).0,
    ) && plain_tokens(func->Func_0[j].1) by {
        assert(paren_free(f.args[j].0));
        lemma_of_type_plain(f.args[j].1, false);
    }
    lemma_under_plain(SpecDecl::of_type(f.ret, false), func);
    lemma_count_ops(d, Some(f.name), void_prototype, lang);
}

/// The number of `c` in the text.
pub open spec fn count(s: Seq<char>, c: char) -> nat
    decreases s.len(),
{
    if s.len() == 0 {
        0
    } else {
        count(s.drop_last(), c) + (if s.last() == c {
            1nat
        } else {
            0nat
        })
    }
}

/// At no point in the text have more parentheses been closed than opened.
pub open spec fn nested(s: Seq<char>) -> bool
    decreases s.len(),
{
    s.len() == 0 || (nested(s.drop_last()) && count(s, ')') <= count(s, '('))
}

/// What is counted in two texts adds up.
proof fn lemma_count_sum(a: Seq<char>, b: Seq<char>, c: char)
    ensures
        count(a + b, c) == count(a, c) + count(b, c),
    decreases b.len(),
{
    if b.len() == 0 {
        assert(a + b =~= a);
    } else {
        lemma_count_sum(a, b.drop_last(), c);
        assert((a + b).drop_last() =~= a + b.drop_last());
    }
}

/// A text without a parenthesis counts none.
proof fn lemma_count_free(s: Seq<char>)
    requires
        paren_free(s),
    ensures
        count(s, '(') == 0,
        count(s, ')') == 0,
    decreases s.len(),
{
    if s.len() > 0 {
        assert(s.last() == s[s.len() - 1]);
        assert forall|i: int| 0 <= i < s.drop_last().len() implies #[trigger] s.drop_last()[i]
            != '(' && s.drop_last()[i] != ')' by {
            assert(s.drop_last()[i] == s[i]);
        }
        lemma_count_free(s.drop_last());
    }
}

/// A text without a parenthesis keeps what stands before it well nested.
proof fn lemma_nested_free(before: Seq<char>, s: Seq<char>)
    requires
        nested(before),
        paren_free(s),
    ensures
        nested(before + s),
    decreases s.len(),
{
    if s.len() == 0 {
        assert(before + s =~= before);
    } else {
        assert forall|i: int| 0 <= i < s.drop_last().len() implies #[trigger] s.drop_last()[i]
            != '(' && s.drop_last()[i] != ')' by {
            assert(s.drop_last()[i] == s[i]);
        }
        lemma_nested_free(before, s.drop_last());
        assert((before + s).drop_last() =~= before + s.drop_last());
        lemma_count_sum(before, s, '(');
        lemma_count_sum(before, s, ')');
        lemma_count_free(s);
    }
}

/// The text of a sequence with one more operation.
proof fn lemma_written_last(ops: Seq<Op>)
    requires
        ops.len() > 0,
    ensures
        written(ops) == written(ops.drop_last()) + (match ops.last() {
            Op::Write(s) => s,
            _ => Seq::empty(),
        }),
{
}

/// Where every operation writes a parenthesis, a text without one, or
/// nothing, the text has as many parentheses as operations write one, and
/// is well nested if they are.
proof fn lemma_written_parentheses(ops: Seq<Op>)
    requires
        clean(ops),
    ensures
        count(written(ops), '(') == opens(ops),
        count(written(ops), ')') == closes(ops),
        well_nested(ops) ==> nested(written(ops)),
    decreases ops.len(),
{
    if ops.len() > 0 {
        let before = ops.drop_last();
        let text = written(before);
        assert forall|i: int| 0 <= i < before.len() implies ((#[trigger] before[i]) matches Op::Write(
            s,
        ) ==> s == "("@ || s == ")"@ || paren_free(s)) by {
            assert(before[i] == ops[i]);
        }
        lemma_written_parentheses(before);
        lemma_written_last(ops);
        reveal_strlit("(");
        reveal_strlit(")");
        assert(ops.last() == ops[ops.len() - 1]);
        match ops.last() {
            Op::Write(s) => {
                lemma_count_sum(text, s, '(');
                lemma_count_sum(text, s, ')');
                if s == "("@ {
                    assert(s.drop_last() =~= Seq::<char>::empty());
                    assert(count(s.drop_last(), '(') == 0 && count(s.drop_last(), ')') == 0);
                    assert(s.last() == '(');
                    assert((text + s).drop_last() =~= text);
                } else if s == ")"@ {
                    assert(s.drop_last() =~= Seq::<char>::empty());
                    assert(count(s.drop_last(), '(') == 0 && count(s.drop_last(), ')') == 0);
                    assert(s.last() == ')');
                    assert((text + s).drop_last() =~= text);
                } else {
                    lemma_count_free(s);
                    lemma_no_parenthesis(s);
                    if well_nested(ops) {
                        lemma_nested_free(text, s);
                    }
                }
            },
            _ => {
                assert(text + Seq::<char>::empty() =~= text);
            },
        }
    }
}

/// The text of a declaration in which no name and no length holds a
/// parenthesis, in a dialect that writes arrays in brackets: it has one
/// opening and one closing parenthesis for each parameter list and for each
/// array or parameter list that stands behind a pointer, a reference or a
/// parameter list, counted in the declarators, the parameters and the
/// generic arguments at any depth, and no other; and at no point in it have
/// more been closed than opened.
pub proof fn law_text_parentheses(
    d: SpecDecl,
    ident: Option<Seq<char>>,
    void_prototype: bool,
    lang: Language,
)
    requires
        plain_tokens(d),
        plain_name(ident),
        !lang.marshals_arrays(),
    ensures
        count(d.text(ident, void_prototype, lang), '(') == pairs(d, false) + pairs(d, true),
        count(d.text(ident, void_prototype, lang), ')') == pairs(d, false) + pairs(d, true),
        nested(d.text(ident, void_prototype, lang)),
        no_groups(d) ==> count(d.text(ident, void_prototype, lang), '(') == pairs(d, true),
{
    lemma_count_ops(d, ident, void_prototype, lang);
    lemma_written_parentheses(d.ops(ident, void_prototype, lang));
    if no_groups(d) {
        lemma_no_groups(d);
    }
}

/// The text of the declaration of a field or of the bare type, where no
/// name and no length in the type holds a parenthesis, in a dialect that
/// writes arrays in brackets: as `law_text_parentheses` says.
pub proof fn law_type_text_parentheses(t: SpecType, ident: Option<Seq<char>>, lang: Language)
    requires
        plain_type(t),
        plain_name(ident),
        !lang.marshals_arrays(),
    ensures
        count(SpecDecl::of_type(t, false).text(ident, false, lang), '(') == pairs(
            SpecDecl::of_type(t, false),
            false,
        ) + pairs(SpecDecl::of_type(t, false), true),
        count(SpecDecl::of_type(t, false).text(ident, false, lang), ')') == count(
            SpecDecl::of_type(t, false).text(ident, false, lang),
            '(',
        ),
        nested(SpecDecl::of_type(t, false).text(ident, false, lang)),
{
    lemma_of_type_plain(t, false);
    law_text_parentheses(SpecDecl::of_type(t, false), ident, false, lang);
}

} // verus!
