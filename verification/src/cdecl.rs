//! Declarations in the C style: a type is taken apart into the type named at
//! its core and the list of declarators around it, and the list is written
//! around the declared name by the right-left rule.

use vstd::prelude::*;
use crate::decl::{
    args_ops, array_mark_ops, array_ops, arg_list_ops, blank_ops, declarator_ops, ends_in_ptr,
    generic_break, generic_list_ops, generics_ops, group_end, ident_ops, kind_ops,
    left_ops, lemma_of_func_valid, lemma_of_type_valid, lemma_two_walks, marshal_ops, nothing,
    one, param_break, params_ops, params_valid, prefix_ops, ptr_mark, qualifier_ops, right_ops,
    suffix_ops, text, void_ops, SpecBase, SpecDecl, SpecDeclarator,
};
use crate::ir::{clone_name, name_view, DeclarationType, Function, Language, SpecType, Type};
use crate::laws::flat::{law_func_text, law_type_text};
use crate::writer::{lemma_run_concat, lemma_run_empty, lemma_run_one, Op, SourceWriter};

verus! {

/// The type named at the core of a declaration.
#[derive(Debug, PartialEq, Eq)]
pub struct BaseType {
    pub is_const: bool,
    pub name: String,
    pub generic_args: Vec<Type>,
    pub ctype: Option<DeclarationType>,
}

/// One declarator: a pointer (constant or not), a reference, an array of a
/// given length, or a parameter list with its layout (`true`: one parameter
/// per line).
#[derive(Debug, PartialEq, Eq)]
pub enum CDeclarator {
    Ptr(bool),
    Ref,
    Array(String),
    Func(Vec<(Option<String>, CDecl)>, bool),
}

/// A declaration under construction or ready to be written: the declarators
/// met so far, as the type is read from the declared name to the base type,
/// and the base type once it is reached.
#[derive(Debug, PartialEq, Eq)]
pub struct CDecl {
    pub declarators: Vec<CDeclarator>,
    pub base: Option<BaseType>,
}

/// The values of the types.
pub open spec fn types_model(types: Seq<Type>) -> Seq<SpecType> {
    Seq::new(types.len(), |i: int| types[i]@)
}

/// The generic arguments, each as the declaration that it is written as.
pub open spec fn generics_model(types: Seq<Type>) -> Seq<SpecDecl> {
    Seq::new(types.len(), |i: int| SpecDecl::of_type(types[i]@, false))
}

impl View for BaseType {
    type V = SpecBase;

    open spec fn view(&self) -> SpecBase {
        SpecBase {
            is_const: self.is_const,
            name: self.name@,
            generic_args: types_model(self.generic_args@),
            generic_decls: generics_model(self.generic_args@),
            ctype: self.ctype,
        }
    }
}

/// The value of a parameter list.
pub open spec fn params_model(args: Seq<(Option<String>, CDecl)>) -> Seq<
    (Option<Seq<char>>, SpecDecl),
>
    decreases args,
{
    Seq::new(
        args.len(),
        |i: int|
            if 0 <= i < args.len() {
                (name_view(args[i].0), args[i].1.model())
            } else {
                (None, SpecDecl::empty())
            },
    )
}

impl CDeclarator {
    /// The value of the declarator.
    pub open spec fn model(&self) -> SpecDeclarator
        decreases self,
    {
        match self {
            CDeclarator::Ptr(is_const) => SpecDeclarator::Ptr(*is_const),
            CDeclarator::Ref => SpecDeclarator::Ref,
            CDeclarator::Array(len) => SpecDeclarator::Array(len@),
            CDeclarator::Func(args, layout_vertical) => SpecDeclarator::Func(
                params_model(args@),
                *layout_vertical,
            ),
        }
    }

    /// Whether the declarator is a pointer, a reference or a parameter list.
    pub fn is_ptr(&self) -> (b: bool)
        ensures
            b == self@.is_ptr(),
    {
        match self {
            CDeclarator::Ptr(_) => true,
            CDeclarator::Ref => true,
            CDeclarator::Func(_, _) => true,
            _ => false,
        }
    }
}

impl View for CDeclarator {
    type V = SpecDeclarator;

    open spec fn view(&self) -> SpecDeclarator {
        self.model()
    }
}

impl CDecl {
    /// The value of the declaration.
    pub open spec fn model(&self) -> SpecDecl
        decreases self,
    {
        SpecDecl {
            declarators: Seq::new(
                self.declarators@.len(),
                |i: int|
                    if 0 <= i < self.declarators@.len() {
                        self.declarators@[i].model()
                    } else {
                        SpecDeclarator::Ref
                    },
            ),
            base: match self.base {
                Some(base) => Some(base@),
                None => None,
            },
        }
    }
}

impl View for CDecl {
    type V = SpecDecl;

    open spec fn view(&self) -> SpecDecl {
        self.model()
    }
}

/// Copies of the types, in order.
fn clone_types(types: &Vec<Type>) -> (res: Vec<Type>)
    ensures
        res@.len() == types@.len(),
        forall|i: int| 0 <= i < types@.len() ==> res@[i]@ == types@[i]@,
{
    let mut res: Vec<Type> = Vec::new();
    let mut i: usize = 0;
    while i < types.len()
        invariant
            i <= types.len(),
            res.len() == i,
            forall|k: int| 0 <= k < i ==> res@[k]@ == types@[k]@,
        decreases types.len() - i,
    {
        res.push(types[i].clone());
        i = i + 1;
    }
    res
}

impl CDecl {
    /// The declaration with neither declarators nor base type.
    pub fn new() -> (decl: CDecl)
        ensures
            decl@ == SpecDecl::empty(),
    {
        let decl = CDecl { declarators: Vec::new(), base: None };
        assert(decl@.declarators =~= Seq::empty());
        decl
    }

    /// The declaration of a type.
    pub fn from_type(t: &Type) -> (decl: CDecl)
        ensures
            decl@ == SpecDecl::of_type(t@, false),
        decreases t, 1nat,
    {
        let mut decl = CDecl::new();
        decl.build_type(t, false);
        assert(decl@.declarators =~= SpecDecl::of_type(t@, false).declarators);
        decl
    }

    /// The declaration of a function.
    pub fn from_func(f: &Function, layout_vertical: bool) -> (decl: CDecl)
        ensures
            decl@ == SpecDecl::of_func(f@, layout_vertical),
    {
        let mut decl = CDecl::new();
        decl.build_func(f, layout_vertical);
        assert(decl@.declarators =~= SpecDecl::of_func(f@, layout_vertical).declarators);
        decl
    }

    /// Continues the declaration with the parameter list of `f` and with
    /// what `f` returns.
    pub fn build_func(&mut self, f: &Function, layout_vertical: bool)
        requires
            old(self)@.base is None,
        ensures
            final(self)@ == old(self)@.extend(SpecDecl::of_func(f@, layout_vertical)),
    {
        let mut args: Vec<(Option<String>, CDecl)> = Vec::new();
        let mut i: usize = 0;
        while i < f.args.len()
            invariant
                i <= f.args.len(),
                args.len() == i,
                forall|k: int|
                    0 <= k < i ==> name_view(args@[k].0) == Some(f.args@[k].0@) && args@[k].1@
                        == SpecDecl::of_type(f.args@[k].1@, false),
            decreases f.args.len() - i,
        {
            args.push((Some(f.args[i].0.clone()), CDecl::from_type(&f.args[i].1)));
            i = i + 1;
        }
        let func = CDeclarator::Func(args, layout_vertical);
        assert(func@ == SpecDecl::of_func(f@, layout_vertical).declarators[0]) by {
            assert(func@->Func_0 =~= SpecDecl::of_func(f@, layout_vertical).declarators[0]->Func_0);
        }
        self.push(func);
        self.build_type(&f.ret, false);
        assert(self@.declarators =~= old(self)@.extend(
            SpecDecl::of_func(f@, layout_vertical),
        ).declarators);
    }

    /// Continues the declaration with the declarators of `t` and with its
    /// base type.
    pub fn build_type(&mut self, t: &Type, is_const: bool)
        requires
            old(self)@.base is None,
        ensures
            final(self)@ == old(self)@.extend(SpecDecl::of_type(t@, is_const)),
        decreases t, 0nat,
    {
        let ghost before = self@;
        match t {
            Type::Path(path) => {
                let base = BaseType {
                    is_const,
                    name: path.name.clone(),
                    generic_args: clone_types(&path.generics),
                    ctype: path.ctype,
                };
                assert(base@.generic_args =~= SpecDecl::of_type(t@, is_const).base->0.generic_args);
                assert(base@.generic_decls =~= SpecDecl::of_type(
                    t@,
                    is_const,
                ).base->0.generic_decls);
                self.base = Some(base);
                assert(self@.declarators =~= before.declarators);
            },
            Type::Primitive(name) => {
                let base = BaseType {
                    is_const,
                    name: name.clone(),
                    generic_args: Vec::new(),
                    ctype: None,
                };
                assert(base@.generic_args =~= SpecDecl::of_type(t@, is_const).base->0.generic_args);
                assert(base@.generic_decls =~= SpecDecl::of_type(
                    t@,
                    is_const,
                ).base->0.generic_decls);
                self.base = Some(base);
                assert(self@.declarators =~= before.declarators);
            },
            Type::ConstPtr(inner) => {
                self.push(CDeclarator::Ptr(is_const));
                self.build_type(inner, true);
            },
            Type::Ptr(inner) => {
                self.push(CDeclarator::Ptr(is_const));
                self.build_type(inner, false);
            },
            Type::Ref(inner) => {
                self.push(CDeclarator::Ref);
                self.build_type(inner, true);
            },
            Type::MutRef(inner) => {
                self.push(CDeclarator::Ref);
                self.build_type(inner, false);
            },
            Type::Array(inner, len) => {
                self.push(CDeclarator::Array(len.clone()));
                self.build_type(inner, is_const);
            },
            Type::FuncPtr(ret, params) => {
                let mut args: Vec<(Option<String>, CDecl)> = Vec::new();
                let mut i: usize = 0;
                while i < params.len()
                    invariant
                        i <= params.len(),
                        args.len() == i,
                        t is FuncPtr && t->FuncPtr_1 == *params,
                        forall|k: int|
                            0 <= k < i ==> name_view(args@[k].0) == name_view(params@[k].0)
                                && args@[k].1@ == SpecDecl::of_type(params@[k].1@, false),
                    decreases params.len() - i,
                {
                    args.push((clone_name(&params[i].0), CDecl::from_type(&params[i].1)));
                    i = i + 1;
                }
                let func = CDeclarator::Func(args, false);
                assert(func@->Func_0 =~= SpecDecl::of_type(t@, is_const).declarators[1]->Func_0);
                self.push(CDeclarator::Ptr(is_const));
                self.push(func);
                self.build_type(ret, false);
            },
        }
        assert(self@.declarators =~= before.extend(SpecDecl::of_type(t@, is_const)).declarators);
    }

    /// Adds a declarator behind those met so far.
    fn push(&mut self, declarator: CDeclarator)
        ensures
            final(self)@.declarators == old(self)@.declarators.push(declarator@),
            final(self)@.base == old(self)@.base,
    {
        self.declarators.push(declarator);
        assert(self@.declarators =~= old(self)@.declarators.push(declarator@));
    }
}

impl CDeclarator {
    /// Whether the parameters of a parameter list can be written in the
    /// dialect.
    pub fn valid_for(&self, lang: Language) -> (b: bool)
        ensures
            b == self@.valid_for(lang),
        decreases self, 0nat,
    {
        match self {
            CDeclarator::Func(args, _) => {
                let ghost params = params_model(args@);
                let mut i: usize = 0;
                while i < args.len()
                    invariant
                        i <= args.len(),
                        self is Func && self->Func_0 == *args,
                        params == params_model(args@),
                        forall|k: int| 0 <= k < i ==> (#[trigger] params[k]).1.valid_for(lang),
                    decreases args.len() - i,
                {
                    assert(params[i as int].1 == args@[i as int].1@);
                    if !args[i].1.valid_for(lang) {
                        return false;
                    }
                    i = i + 1;
                }
                true
            },
            _ => true,
        }
    }
}

impl CDecl {
    /// Whether the declaration can be written in the dialect.
    pub fn valid_for(&self, lang: Language) -> (b: bool)
        ensures
            b == self@.valid_for(lang),
        decreases self, 1nat,
    {
        match &self.base {
            Some(base) => {
                if !lang.has_generics() && base.generic_args.len() > 0 {
                    return false;
                }
            },
            None => {
                return false;
            },
        }
        let ghost ds = self@.declarators;
        let mut i: usize = 0;
        while i < self.declarators.len()
            invariant
                i <= self.declarators.len(),
                ds == self@.declarators,
                forall|k: int| 0 <= k < i ==> (#[trigger] ds[k]).valid_for(lang),
            decreases self.declarators.len() - i,
        {
            assert(ds[i as int] == self.declarators@[i as int]@);
            if !self.declarators[i].valid_for(lang) {
                return false;
            }
            i = i + 1;
        }
        true
    }
}

/// The name to declare, as a sequence of characters.
pub open spec fn ident_view(ident: Option<&str>) -> Option<Seq<char>> {
    match ident {
        Some(name) => Some(name@),
        None => None,
    }
}

impl CDeclarator {
    /// Writes what the declarator puts before the declared name.
    fn write_prefix(&self, out: &mut SourceWriter, grouped: bool)
        ensures
            final(out)@ == old(out)@.run(prefix_ops(self@, grouped)),
            final(out)@.spaces == old(out)@.spaces,
    {
        proof {
            lemma_run_empty(out@);
        }
        match self {
            CDeclarator::Ptr(is_const) => {
                proof {
                    lemma_run_one(out@, Op::Write(ptr_mark(*is_const)));
                }
                if *is_const {
                    out.write("*const ");
                } else {
                    out.write("*");
                }
            },
            CDeclarator::Ref => {
                proof {
                    lemma_run_one(out@, Op::Write("&"@));
                }
                out.write("&");
            },
            _ => {
                if grouped {
                    proof {
                        lemma_run_one(out@, Op::Write("("@));
                    }
                    out.write("(");
                }
            },
        }
    }
}

impl CDecl {
    /// Walks the declarators from the last to the first and writes what
    /// stands before the declared name.
    fn write_left(&self, out: &mut SourceWriter)
        ensures
            final(out)@ == old(out)@.run(left_ops(self@.declarators, self@.declarators.len())),
            final(out)@.spaces == old(out)@.spaces,
    {
        let ghost start = out@;
        let ghost ds = self@.declarators;
        let n = self.declarators.len();
        let mut i: usize = n;
        while i > 0
            invariant
                i <= n,
                n == self.declarators.len(),
                ds == self@.declarators,
                out@.run(left_ops(ds, i as nat)) == start.run(left_ops(ds, n as nat)),
                out@.spaces == start.spaces,
            decreases i,
        {
            let next_is_pointer = i > 1 && self.declarators[i - 2].is_ptr();
            proof {
                let prefix = prefix_ops(ds[i - 1], ends_in_ptr(ds, i - 1));
                assert(left_ops(ds, i as nat) == prefix + left_ops(ds, (i - 1) as nat));
                lemma_run_concat(out@, prefix, left_ops(ds, (i - 1) as nat));
            }
            self.declarators[i - 1].write_prefix(out, next_is_pointer);
            i = i - 1;
        }
        proof {
            lemma_run_empty(out@);
        }
    }
}

/// Writes the parameters `args`, separated as the layout asks.
fn write_args(
    args: &Vec<(Option<String>, CDecl)>,
    out: &mut SourceWriter,
    layout_vertical: bool,
    void_prototype: bool,
    lang: Language,
)
    requires
        params_valid(params_model(args@), lang),
    ensures
        final(out)@ == old(out)@.run(
            args_ops(params_model(args@), args@.len(), layout_vertical, void_prototype, lang),
        ),
        final(out)@.spaces == old(out)@.spaces,
    decreases params_model(args@), 0nat,
{
    let ghost start = out@;
    let ghost params = params_model(args@);
    let n = args.len();
    let mut i: usize = 0;
    proof {
        lemma_run_empty(start);
    }
    while i < n
        invariant
            i <= n,
            n == args.len(),
            params == params_model(args@),
            params_valid(params, lang),
            out@ == start.run(
                args_ops(params, i as nat, layout_vertical, void_prototype, lang),
            ),
            out@.spaces == start.spaces,
        decreases n - i,
    {
        let ghost before = out@;
        let ghost done = args_ops(params, i as nat, layout_vertical, void_prototype, lang);
        let ghost sep = param_break(i as nat, layout_vertical);
        let ghost item = params[i as int].1.ops(params[i as int].0, void_prototype, lang);
        if i == 0 {
            proof {
                lemma_run_empty(before);
            }
        } else if layout_vertical {
            proof {
                lemma_run_one(before, Op::Write(","@));
                lemma_run_one(before.write(","@), Op::NewLine);
                lemma_run_concat(before, text(","@), one(Op::NewLine));
            }
            out.write(",");
            out.new_line();
        } else {
            proof {
                lemma_run_one(before, Op::Write(", "@));
            }
            out.write(", ");
        }
        assert(out@ == before.run(sep));
        let arg_ident: Option<&str> = match &args[i].0 {
            Some(name) => Some(name.as_str()),
            None => None,
        };
        assert(params[i as int] == (name_view(args@[i as int].0), args@[i as int].1@));
        assert(ident_view(arg_ident) == params[i as int].0);
        args[i].1.write(out, arg_ident, void_prototype, lang);
        proof {
            assert(args_ops(params, (i + 1) as nat, layout_vertical, void_prototype, lang) == done
                + sep + item);
            lemma_run_concat(start, done, sep);
            lemma_run_concat(start, done + sep, item);
        }
        i = i + 1;
    }
}

/// Writes the parameters `args`, in the vertical layout aligned to the
/// column at which the first begins.
fn write_arg_list(
    args: &Vec<(Option<String>, CDecl)>,
    out: &mut SourceWriter,
    layout_vertical: bool,
    void_prototype: bool,
    lang: Language,
)
    requires
        params_valid(params_model(args@), lang),
    ensures
        final(out)@ == old(out)@.run(
            arg_list_ops(params_model(args@), layout_vertical, void_prototype, lang),
        ),
        final(out)@.spaces == old(out)@.spaces,
    decreases params_model(args@), 1nat,
{
    let ghost start = out@;
    let ghost params = params_model(args@);
    let ghost list = args_ops(params, params.len(), layout_vertical, void_prototype, lang);
    if layout_vertical {
        let align_length = out.line_length_for_align();
        out.push_set_spaces(align_length);
        let ghost aligned = out@;
        write_args(args, out, layout_vertical, void_prototype, lang);
        let ghost written = out@;
        out.pop_tab();
        proof {
            lemma_run_one(start, Op::Align);
            lemma_run_one(written, Op::Unalign);
            lemma_run_concat(start, one(Op::Align), list);
            lemma_run_concat(start, one(Op::Align) + list, one(Op::Unalign));
            assert(out@.spaces =~= start.spaces);
        }
    } else {
        write_args(args, out, layout_vertical, void_prototype, lang);
    }
}

/// Writes a parameter list in its parentheses.
fn write_params(
    args: &Vec<(Option<String>, CDecl)>,
    out: &mut SourceWriter,
    layout_vertical: bool,
    void_prototype: bool,
    lang: Language,
)
    requires
        params_valid(params_model(args@), lang),
    ensures
        final(out)@ == old(out)@.run(
            params_ops(params_model(args@), layout_vertical, void_prototype, lang),
        ),
        final(out)@.spaces == old(out)@.spaces,
    decreases params_model(args@), 2nat,
{
    let ghost start = out@;
    let ghost params = params_model(args@);
    let ghost open = text("("@);
    let ghost void = void_ops(params.len() == 0 && void_prototype);
    let ghost list = arg_list_ops(params, layout_vertical, void_prototype, lang);
    let ghost close = text(")"@);
    out.write("(");
    let ghost opened = out@;
    if args.len() == 0 && void_prototype {
        out.write("void");
    }
    let ghost marked = out@;
    write_arg_list(args, out, layout_vertical, void_prototype, lang);
    let ghost listed = out@;
    out.write(")");
    proof {
        lemma_run_one(start, Op::Write("("@));
        lemma_run_one(opened, Op::Write("void"@));
        lemma_run_empty(opened);
        lemma_run_one(listed, Op::Write(")"@));
        assert(marked == opened.run(void));
        lemma_run_concat(start, open, void);
        lemma_run_concat(start, open + void, list);
        lemma_run_concat(start, open + void + list, close);
        assert(params_ops(params, layout_vertical, void_prototype, lang) == open + void + list
            + close);
    }
}

impl CDeclarator {
    /// Writes what the declarator puts behind the declared name.
    fn write_suffix(
        &self,
        out: &mut SourceWriter,
        grouped: bool,
        void_prototype: bool,
        lang: Language,
    )
        requires
            self@.valid_for(lang),
        ensures
            final(out)@ == old(out)@.run(suffix_ops(self@, grouped, void_prototype, lang)),
            final(out)@.spaces == old(out)@.spaces,
        decreases self@, 0nat,
    {
        let ghost start = out@;
        match self {
            CDeclarator::Array(len) => {
                if grouped {
                    out.write(")");
                }
                let ghost closed = out@;
                if !lang.marshals_arrays() {
                    out.write("[");
                    out.write(len.as_str());
                    out.write("]");
                }
                proof {
                    lemma_run_empty(start);
                    lemma_run_one(start, Op::Write(")"@));
                    assert(closed == start.run(group_end(grouped)));
                    lemma_run_empty(closed);
                    lemma_run_one(closed, Op::Write("["@));
                    lemma_run_one(closed.write("["@), Op::Write(len@));
                    lemma_run_one(closed.write("["@).write(len@), Op::Write("]"@));
                    lemma_run_concat(closed, text("["@), text(len@));
                    lemma_run_concat(closed, text("["@) + text(len@), text("]"@));
                    assert(out@ == closed.run(array_ops(len@, lang)));
                    lemma_run_concat(start, group_end(grouped), array_ops(len@, lang));
                }
            },
            CDeclarator::Func(args, layout_vertical) => {
                if grouped {
                    out.write(")");
                }
                let ghost closed = out@;
                write_params(args, out, *layout_vertical, void_prototype, lang);
                proof {
                    lemma_run_empty(start);
                    lemma_run_one(start, Op::Write(")"@));
                    assert(closed == start.run(group_end(grouped)));
                    lemma_run_concat(
                        start,
                        group_end(grouped),
                        params_ops(params_model(args@), *layout_vertical, void_prototype, lang),
                    );
                }
            },
            _ => {
                proof {
                    lemma_run_empty(start);
                }
            },
        }
    }
}

/// Writes the generic arguments `types`, separated by commas.
fn write_generics(types: &Vec<Type>, out: &mut SourceWriter, lang: Language)
    requires
        lang.has_generics(),
    ensures
        final(out)@ == old(out)@.run(generics_ops(generics_model(types@), types@.len(), lang)),
        final(out)@.spaces == old(out)@.spaces,
    decreases generics_model(types@), 0nat,
{
    let ghost start = out@;
    let ghost gs = generics_model(types@);
    let n = types.len();
    let mut i: usize = 0;
    proof {
        lemma_run_empty(start);
    }
    while i < n
        invariant
            i <= n,
            n == types.len(),
            gs == generics_model(types@),
            lang.has_generics(),
            out@ == start.run(generics_ops(gs, i as nat, lang)),
            out@.spaces == start.spaces,
        decreases n - i,
    {
        let ghost before = out@;
        let ghost done = generics_ops(gs, i as nat, lang);
        let ghost sep = generic_break(i as nat);
        let ghost item = gs[i as int].ops(None, false, lang);
        if i == 0 {
            proof {
                lemma_run_empty(before);
            }
        } else {
            proof {
                lemma_run_one(before, Op::Write(", "@));
            }
            out.write(", ");
        }
        assert(out@ == before.run(sep));
        assert(gs[i as int] == SpecDecl::of_type(types@[i as int]@, false));
        write_type(out, &types[i], lang);
        proof {
            assert(generics_ops(gs, (i + 1) as nat, lang) == done + sep + item);
            lemma_run_concat(start, done, sep);
            lemma_run_concat(start, done + sep, item);
        }
        i = i + 1;
    }
}

/// Writes the generic arguments `types` in their angle brackets, if there
/// are any.
fn write_generic_list(types: &Vec<Type>, out: &mut SourceWriter, lang: Language)
    requires
        lang.has_generics() || types@.len() == 0,
    ensures
        final(out)@ == old(out)@.run(generic_list_ops(generics_model(types@), lang)),
        final(out)@.spaces == old(out)@.spaces,
    decreases generics_model(types@), 1nat,
{
    let ghost start = out@;
    let ghost gs = generics_model(types@);
    if types.len() > 0 {
        out.write("<");
        write_generics(types, out, lang);
        let ghost listed = out@;
        out.write(">");
        proof {
            let items = generics_ops(gs, gs.len(), lang);
            lemma_run_one(start, Op::Write("<"@));
            lemma_run_one(listed, Op::Write(">"@));
            lemma_run_concat(start, text("<"@), items);
            lemma_run_concat(start, text("<"@) + items, text(">"@));
        }
    } else {
        proof {
            lemma_run_empty(start);
        }
    }
}

impl BaseType {
    /// Writes the base type. `marshalled` says whether it is the base type
    /// of a marshalled array.
    fn write(&self, out: &mut SourceWriter, marshalled: bool, lang: Language)
        requires
            lang.has_generics() || self@.generic_decls.len() == 0,
        ensures
            final(out)@ == old(out)@.run(self@.ops(marshalled, lang)),
            final(out)@.spaces == old(out)@.spaces,
        decreases self@, 0nat,
    {
        let ghost start = out@;
        let ghost gs = self@.generic_decls;
        let ghost qualifier = qualifier_ops(self.is_const);
        let ghost kind = kind_ops(self.ctype);
        let ghost name = text(self.name@);
        let ghost mark = array_mark_ops(marshalled);
        let ghost list = generic_list_ops(gs, lang);
        if self.is_const {
            out.write("const ");
        }
        let ghost qualified = out@;
        assert(qualified == start.run(qualifier)) by {
            lemma_run_empty(start);
            lemma_run_one(start, Op::Write("const "@));
        }
        match &self.ctype {
            Some(ctype) => {
                out.write(ctype.to_str());
                out.write(" ");
            },
            None => {},
        }
        let ghost kinded = out@;
        assert(kinded == qualified.run(kind)) by {
            lemma_run_empty(qualified);
            if let Some(ctype) = self.ctype {
                lemma_run_one(qualified, Op::Write(ctype.spec_str()));
                lemma_run_one(qualified.write(ctype.spec_str()), Op::Write(" "@));
                lemma_run_concat(qualified, text(ctype.spec_str()), text(" "@));
            }
        }
        out.write(self.name.as_str());
        let ghost named = out@;
        assert(named == kinded.run(name)) by {
            lemma_run_one(kinded, Op::Write(self.name@));
        }
        if marshalled {
            out.write("[]");
        }
        let ghost marked = out@;
        assert(marked == named.run(mark)) by {
            lemma_run_empty(named);
            lemma_run_one(named, Op::Write("[]"@));
        }
        write_generic_list(&self.generic_args, out, lang);
        assert(out@ == marked.run(list));
        proof {
            lemma_run_concat(start, qualifier, kind);
            lemma_run_concat(start, qualifier + kind, name);
            lemma_run_concat(start, qualifier + kind + name, mark);
            lemma_run_concat(start, qualifier + kind + name + mark, list);
            assert(self@.ops(marshalled, lang) == qualifier + kind + name + mark + list);
        }
    }
}

impl CDecl {
    /// The length of the array, where the declaration is that of an array
    /// and the dialect marshals arrays.
    fn marshalled_len(&self, lang: Language) -> (len: Option<&str>)
        ensures
            ident_view(len) == self@.marshalled_len(lang),
    {
        if lang.marshals_arrays() && self.declarators.len() == 1 {
            match &self.declarators[0] {
                CDeclarator::Array(len) => Some(len.as_str()),
                _ => None,
            }
        } else {
            None
        }
    }

    /// Writes what stands before the declarators.
    fn write_base(&self, out: &mut SourceWriter, lang: Language)
        requires
            self@.valid_for(lang),
        ensures
            final(out)@ == old(out)@.run(self@.base_ops(lang)),
            final(out)@.spaces == old(out)@.spaces,
        decreases self@, 2nat,
    {
        let ghost start = out@;
        let marshalled = self.marshalled_len(lang);
        let ghost attribute = marshal_ops(ident_view(marshalled));
        match marshalled {
            Some(len) => {
                let ghost head = text("[MarshalAs(UnmanagedType.ByValArray, SizeConst="@);
                let ghost tail = text(")] readonly "@);
                out.write("[MarshalAs(UnmanagedType.ByValArray, SizeConst=");
                let ghost headed = out@;
                out.write(len);
                let ghost sized = out@;
                out.write(")] readonly ");
                proof {
                    lemma_run_one(
                        start,
                        Op::Write("[MarshalAs(UnmanagedType.ByValArray, SizeConst="@),
                    );
                    lemma_run_one(headed, Op::Write(len@));
                    lemma_run_one(sized, Op::Write(")] readonly "@));
                    lemma_run_concat(start, head, text(len@));
                    lemma_run_concat(start, head + text(len@), tail);
                }
            },
            None => {
                proof {
                    lemma_run_empty(start);
                }
            },
        }
        assert(out@ == start.run(attribute));
        let ghost attributed = out@;
        match &self.base {
            Some(base) => {
                base.write(out, marshalled.is_some(), lang);
                proof {
                    lemma_run_concat(
                        start,
                        attribute,
                        base@.ops(self@.marshalled_len(lang) is Some, lang),
                    );
                }
            },
            None => {
                proof {
                    lemma_run_empty(attributed);
                    lemma_run_concat(start, attribute, nothing());
                }
            },
        }
    }

    /// Walks the declarators from the first to the last and writes what
    /// stands behind the declared name.
    fn write_right(&self, out: &mut SourceWriter, void_prototype: bool, lang: Language)
        requires
            self@.valid_for(lang),
        ensures
            final(out)@ == old(out)@.run(
                right_ops(self@.declarators, self@.declarators.len(), void_prototype, lang),
            ),
            final(out)@.spaces == old(out)@.spaces,
        decreases self@, 2nat,
    {
        let ghost start = out@;
        let ghost ds = self@.declarators;
        let n = self.declarators.len();
        let mut last_was_pointer = false;
        let mut i: usize = 0;
        proof {
            lemma_run_empty(start);
        }
        while i < n
            invariant
                i <= n,
                n == self.declarators.len(),
                ds == self@.declarators,
                self@.valid_for(lang),
                last_was_pointer == ends_in_ptr(ds, i as int),
                out@ == start.run(right_ops(ds, i as nat, void_prototype, lang)),
                out@.spaces == start.spaces,
            decreases n - i,
        {
            let ghost done = right_ops(ds, i as nat, void_prototype, lang);
            let ghost suffix = suffix_ops(ds[i as int], last_was_pointer, void_prototype, lang);
            assert(ds[i as int] == self.declarators@[i as int]@);
            assert(ds[i as int].valid_for(lang));
            self.declarators[i].write_suffix(out, last_was_pointer, void_prototype, lang);
            proof {
                assert(right_ops(ds, (i + 1) as nat, void_prototype, lang) == done + suffix);
                lemma_run_concat(start, done, suffix);
            }
            last_was_pointer = self.declarators[i].is_ptr();
            i = i + 1;
        }
    }

    /// Writes the declaration of `ident`, or the bare type where there is no
    /// identifier.
    pub fn write(
        &self,
        out: &mut SourceWriter,
        ident: Option<&str>,
        void_prototype: bool,
        lang: Language,
    )
        requires
            self@.valid_for(lang),
        ensures
            final(out)@ == old(out)@.run(self@.ops(ident_view(ident), void_prototype, lang)),
            final(out)@.spaces == old(out)@.spaces,
        decreases self@, 3nat,
    {
        let ghost start = out@;
        let ghost ds = self@.declarators;
        let ghost base = self@.base_ops(lang);
        let ghost blank = blank_ops(ident is Some);
        let ghost name = ident_ops(ident_view(ident));
        let ghost left = left_ops(ds, ds.len());
        let ghost right = right_ops(ds, ds.len(), void_prototype, lang);
        let ghost around = declarator_ops(ds, ds.len(), name, void_prototype, lang);
        self.write_base(out, lang);
        let ghost based = out@;
        if ident.is_some() {
            out.write(" ");
        }
        let ghost spaced = out@;
        self.write_left(out);
        let ghost lefted = out@;
        if let Some(name) = ident {
            out.write(name);
        }
        let ghost named = out@;
        self.write_right(out, void_prototype, lang);
        proof {
            lemma_run_empty(based);
            lemma_run_one(based, Op::Write(" "@));
            assert(spaced == based.run(blank));
            lemma_run_empty(lefted);
            if let Some(name) = ident {
                lemma_run_one(lefted, Op::Write(name@));
            }
            assert(named == lefted.run(name));
            lemma_two_walks(ds, ds.len(), name, void_prototype, lang);
            lemma_run_concat(spaced, left, name);
            lemma_run_concat(spaced, left + name, right);
            assert(out@ == spaced.run(around));
            lemma_run_concat(start, base, blank);
            lemma_run_concat(start, base + blank, around);
            assert(self@.ops(ident_view(ident), void_prototype, lang) == base + blank + around);
        }
    }
}

/// Writes the declaration of the function `f`.
pub fn write_func(
    out: &mut SourceWriter,
    f: &Function,
    layout_vertical: bool,
    void_prototype: bool,
    lang: Language,
)
    requires
        f@.valid_for(lang),
    ensures
        final(out)@ == old(out)@.run(
            SpecDecl::of_func(f@, layout_vertical).ops(Some(f@.name), void_prototype, lang),
        ),
        !layout_vertical ==> final(out)@ == old(out)@.write(
            SpecDecl::of_func(f@, false).text(Some(f@.name), void_prototype, lang),
        ),
        final(out)@.spaces == old(out)@.spaces,
{
    let decl = CDecl::from_func(f, layout_vertical);
    proof {
        lemma_of_func_valid(f@, layout_vertical, lang);
        law_func_text(out@, f@, void_prototype, lang);
    }
    decl.write(out, Some(f.name.as_str()), void_prototype, lang);
}

/// Writes the declaration of a field or a variable `ident` of type `t`.
pub fn write_field(out: &mut SourceWriter, t: &Type, ident: &str, lang: Language)
    requires
        t@.valid_for(lang),
    ensures
        final(out)@ == old(out)@.run(
            SpecDecl::of_type(t@, false).ops(Some(ident@), false, lang),
        ),
        final(out)@ == old(out)@.write(
            SpecDecl::of_type(t@, false).text(Some(ident@), false, lang),
        ),
        final(out)@.spaces == old(out)@.spaces,
{
    let decl = CDecl::from_type(t);
    proof {
        lemma_of_type_valid(t@, false, lang);
        law_type_text(out@, t@, Some(ident@), lang);
    }
    decl.write(out, Some(ident), false, lang);
}

/// Writes the type `t` where no name is declared, as in a cast or a generic
/// argument.
pub fn write_type(out: &mut SourceWriter, t: &Type, lang: Language)
    requires
        t@.valid_for(lang),
    ensures
        final(out)@ == old(out)@.run(SpecDecl::of_type(t@, false).ops(None, false, lang)),
        final(out)@ == old(out)@.write(SpecDecl::of_type(t@, false).text(None, false, lang)),
        final(out)@.spaces == old(out)@.spaces,
    decreases SpecDecl::of_type(t@, false), 4nat,
{
    let decl = CDecl::from_type(t);
    proof {
        lemma_of_type_valid(t@, false, lang);
        law_type_text(out@, t@, None, lang);
    }
    decl.write(out, None, false, lang);
}

} // verus!
