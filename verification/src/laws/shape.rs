//! The declaration of a type, read back as a type.

use vstd::prelude::*;
use crate::decl::{SpecDecl, SpecDeclarator};
use crate::ir::{DeclarationType, SpecPath, SpecType};
use crate::laws::constness::takes_const;

verus! {

/// The declaration of a type or of a function has a base type.
pub proof fn law_base_type(t: SpecType, is_const: bool)
    ensures
        SpecDecl::of_type(t, is_const).base is Some,
    decreases t,
{
    match t {
        SpecType::Primitive(_) => {},
        SpecType::Path(_) => {},
        SpecType::ConstPtr(inner) => law_base_type(*inner, true),
        SpecType::Ptr(inner) => law_base_type(*inner, false),
        SpecType::Ref(inner) => law_base_type(*inner, true),
        SpecType::MutRef(inner) => law_base_type(*inner, false),
        SpecType::Array(inner, _) => law_base_type(*inner, is_const),
        SpecType::FuncPtr(ret, _) => law_base_type(*ret, false),
    }
}

/// The type as its declaration tells it: without the `const` that the
/// declaration has no place for, and with a named type that has neither
/// generic arguments nor a kind as a primitive type.
pub open spec fn plain(t: SpecType) -> SpecType
    decreases t,
{
    match t {
        SpecType::Primitive(name) => SpecType::Primitive(name),
        SpecType::Path(path) => named_type(path.name, plain_types(path.generics), path.ctype),
        SpecType::ConstPtr(inner) => pointer_to(plain(*inner), takes_const(*inner)),
        SpecType::Ptr(inner) => pointer_to(plain(*inner), false),
        SpecType::Ref(inner) => reference_to(plain(*inner), takes_const(*inner)),
        SpecType::MutRef(inner) => reference_to(plain(*inner), false),
        SpecType::Array(inner, len) => SpecType::Array(Box::new(plain(*inner)), len),
        SpecType::FuncPtr(ret, args) => SpecType::FuncPtr(
            Box::new(plain(*ret)),
            plain_params(args),
        ),
    }
}

/// The types, each as its declaration tells it.
pub open spec fn plain_types(types: Seq<SpecType>) -> Seq<SpecType>
    decreases types,
{
    Seq::new(
        types.len(),
        |i: int|
            if 0 <= i < types.len() {
                plain(types[i])
            } else {
                arbitrary()
            },
    )
}

/// The parameters, each with its type as its declaration tells it.
pub open spec fn plain_params(args: Seq<(Option<Seq<char>>, SpecType)>) -> Seq<
    (Option<Seq<char>>, SpecType),
>
    decreases args,
{
    Seq::new(
        args.len(),
        |i: int|
            if 0 <= i < args.len() {
                (args[i].0, plain(args[i].1))
            } else {
                arbitrary()
            },
    )
}

/// The type of a given name, generic arguments and kind.
pub open spec fn named_type(
    name: Seq<char>,
    generics: Seq<SpecType>,
    ctype: Option<DeclarationType>,
) -> SpecType {
    if generics.len() == 0 && ctype is None {
        SpecType::Primitive(name)
    } else {
        SpecType::Path(SpecPath { name, generics, ctype })
    }
}

/// The pointer to a type that is constant or not.
pub open spec fn pointer_to(t: SpecType, is_const: bool) -> SpecType {
    if is_const {
        SpecType::ConstPtr(Box::new(t))
    } else {
        SpecType::Ptr(Box::new(t))
    }
}

/// The reference to a type that is constant or not.
pub open spec fn reference_to(t: SpecType, is_const: bool) -> SpecType {
    if is_const {
        SpecType::Ref(Box::new(t))
    } else {
        SpecType::MutRef(Box::new(t))
    }
}

/// The types of the generic arguments `gs`, read back from their
/// declarations.
pub open spec fn generic_types(gs: Seq<SpecDecl>) -> Seq<SpecType>
    decreases gs, 0nat,
{
    Seq::new(
        gs.len(),
        |i: int|
            if 0 <= i < gs.len() {
                type_of(gs[i], 0).0
            } else {
                arbitrary()
            },
    )
}

/// The parameters `args`, each with its type, read back from its
/// declaration.
pub open spec fn param_types(args: Seq<(Option<Seq<char>>, SpecDecl)>) -> Seq<
    (Option<Seq<char>>, SpecType),
>
    decreases args, 0nat,
{
    Seq::new(
        args.len(),
        |i: int|
            if 0 <= i < args.len() {
                (args[i].0, type_of(args[i].1, 0).0)
            } else {
                arbitrary()
            },
    )
}

/// The type that the declarators of `d` from the `k`-th on declare around
/// its base type, read by the right-left rule, and whether that type is
/// constant. A parameter list is read together with the pointer before it.
pub open spec fn type_of(d: SpecDecl, k: nat) -> (SpecType, bool)
    decreases d, d.declarators.len() - k,
{
    let ds = d.declarators;
    if k >= ds.len() {
        match d.base {
            Some(base) => (
                named_type(base.name, generic_types(base.generic_decls), base.ctype),
                base.is_const,
            ),
            None => arbitrary(),
        }
    } else {
        match ds[k as int] {
            SpecDeclarator::Ptr(is_const) => if k + 1 < ds.len() && ds[k as int + 1] is Func {
                (
                    SpecType::FuncPtr(
                        Box::new(type_of(d, k + 2).0),
                        param_types(ds[k as int + 1]->Func_0),
                    ),
                    is_const,
                )
            } else {
                (pointer_to(type_of(d, k + 1).0, type_of(d, k + 1).1), is_const)
            },
            SpecDeclarator::Ref => (reference_to(type_of(d, k + 1).0, type_of(d, k + 1).1), false),
            SpecDeclarator::Array(len) => (
                SpecType::Array(Box::new(type_of(d, k + 1).0), len),
                type_of(d, k + 1).1,
            ),
            SpecDeclarator::Func(_, _) => arbitrary(),
        }
    }
}

/// The declaration of a type does not begin with a parameter list.
proof fn lemma_first_declarator(t: SpecType, is_const: bool)
    ensures
        SpecDecl::of_type(t, is_const).declarators.len() > 0 ==> !(SpecDecl::of_type(
            t,
            is_const,
        ).declarators[0] is Func),
{
}

/// One more declarator at the front leaves what the others declare.
proof fn lemma_type_of_under(d: SpecDecl, outer: SpecDeclarator, k: nat)
    requires
        k <= d.declarators.len(),
    ensures
        type_of(d.under(outer), k + 1) == type_of(d, k),
    decreases d.declarators.len() - k,
{
    let e = d.under(outer);
    let ds = d.declarators;
    if k < ds.len() {
        assert(e.declarators[k as int + 1] == ds[k as int]);
        lemma_type_of_under(d, outer, k + 1);
        if k + 1 < ds.len() {
            assert(e.declarators[k as int + 2] == ds[k as int + 1]);
            lemma_type_of_under(d, outer, k + 2);
        }
    }
}

/// Read back by the right-left rule, the declaration of a type is that
/// type: the same nesting of pointers, references, arrays and parameter
/// lists around the same base type, constant where the type is. Only a
/// `const` that the declaration has no place for is not read back.
pub proof fn law_shape(t: SpecType, is_const: bool)
    ensures
        type_of(SpecDecl::of_type(t, is_const), 0) == (plain(t), is_const && takes_const(t)),
    decreases t,
{
    let d = SpecDecl::of_type(t, is_const);
    match t {
        SpecType::Primitive(name) => {
            assert(generic_types(d.base->0.generic_decls).len() == 0);
        },
        SpecType::Path(path) => {
            let gs = d.base->0.generic_decls;
            assert forall|i: int| 0 <= i < gs.len() implies generic_types(gs)[i] == plain_types(
                path.generics,
            )[i] by {
                law_shape(path.generics[i], false);
            }
            assert(generic_types(gs) =~= plain_types(path.generics));
        },
        SpecType::ConstPtr(inner) => {
            law_shape(*inner, true);
            lemma_first_declarator(*inner, true);
            lemma_type_of_under(SpecDecl::of_type(*inner, true), SpecDeclarator::Ptr(is_const), 0);
        },
        SpecType::Ptr(inner) => {
            law_shape(*inner, false);
            lemma_first_declarator(*inner, false);
            lemma_type_of_under(
                SpecDecl::of_type(*inner, false),
                SpecDeclarator::Ptr(is_const),
                0,
            );
        },
        SpecType::Ref(inner) => {
            law_shape(*inner, true);
            lemma_type_of_under(SpecDecl::of_type(*inner, true), SpecDeclarator::Ref, 0);
        },
        SpecType::MutRef(inner) => {
            law_shape(*inner, false);
            lemma_type_of_under(SpecDecl::of_type(*inner, false), SpecDeclarator::Ref, 0);
        },
        SpecType::Array(inner, len) => {
            law_shape(*inner, is_const);
            lemma_type_of_under(
                SpecDecl::of_type(*inner, is_const),
                SpecDeclarator::Array(len),
                0,
            );
        },
        SpecType::FuncPtr(ret, args) => {
            let returned = SpecDecl::of_type(*ret, false);
            let func = d.declarators[1];
            let params = func->Func_0;
            law_shape(*ret, false);
            lemma_type_of_under(returned, func, 0);
            lemma_type_of_under(returned.under(func), SpecDeclarator::Ptr(is_const), 1);
            assert forall|i: int| 0 <= i < params.len() implies param_types(params)[i]
                == plain_params(args)[i] by {
                law_shape(args[i].1, false);
            }
            assert(param_types(params) =~= plain_params(args));
        },
    }
}

} // verus!
