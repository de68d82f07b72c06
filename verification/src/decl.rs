//! The model of a declaration in the C style: the type named at its core, the
//! declarators around it, and the operations that write them around the
//! declared name by the right-left rule.
//!
//! The declarators are listed as the type is read: the first says what the
//! declared name is, the last stands next to the base type. In the text the
//! first stands nearest to the name.

use vstd::prelude::*;
use crate::ir::{DeclarationType, Language, SpecFunction, SpecType};
use crate::writer::{written, Op};

verus! {

/// The type named at the core of a declaration. Beside each generic argument
/// stands the declaration that it is written as.
pub ghost struct SpecBase {
    pub is_const: bool,
    pub name: Seq<char>,
    pub generic_args: Seq<SpecType>,
    pub generic_decls: Seq<SpecDecl>,
    pub ctype: Option<DeclarationType>,
}

/// One declarator: a pointer (constant or not), a reference, an array of a
/// given length, or a parameter list with its layout (`true`: one parameter
/// per line).
pub ghost enum SpecDeclarator {
    Ptr(bool),
    Ref,
    Array(Seq<char>),
    Func(Seq<(Option<Seq<char>>, SpecDecl)>, bool),
}

/// A declaration: its declarators, as the type is read from the declared name
/// to the base type, and its base type.
pub ghost struct SpecDecl {
    pub declarators: Seq<SpecDeclarator>,
    pub base: Option<SpecBase>,
}

impl SpecDeclarator {
    /// Pointers, references and parameter lists bind less tightly than the
    /// array or parameter list that follows them.
    pub open spec fn is_ptr(self) -> bool {
        self is Ptr || self is Ref || self is Func
    }
}

impl SpecDecl {
    /// The declaration with neither declarators nor base type.
    pub open spec fn empty() -> SpecDecl {
        SpecDecl { declarators: Seq::empty(), base: None }
    }

    /// The declaration of what is reached through `outer`: `outer` comes
    /// first, then the declarators of `self`.
    pub open spec fn under(self, outer: SpecDeclarator) -> SpecDecl {
        SpecDecl { declarators: seq![outer] + self.declarators, ..self }
    }

    /// The declarators of `self`, then those of `inner`, around `inner`'s
    /// base type.
    pub open spec fn extend(self, inner: SpecDecl) -> SpecDecl {
        SpecDecl { declarators: self.declarators + inner.declarators, base: inner.base }
    }

    /// The declaration of a type. `is_const` says whether what the type is
    /// reached through makes it constant.
    pub open spec fn of_type(t: SpecType, is_const: bool) -> SpecDecl
        decreases t,
    {
        match t {
            SpecType::Primitive(name) => SpecDecl {
                declarators: Seq::empty(),
                base: Some(
                    SpecBase {
                        is_const,
                        name,
                        generic_args: Seq::empty(),
                        generic_decls: Seq::empty(),
                        ctype: None,
                    },
                ),
            },
            SpecType::Path(path) => SpecDecl {
                declarators: Seq::empty(),
                base: Some(
                    SpecBase {
                        is_const,
                        name: path.name,
                        generic_args: path.generics,
                        generic_decls: Seq::new(
                            path.generics.len(),
                            |i: int|
                                if 0 <= i < path.generics.len() {
                                    Self::of_type(path.generics[i], false)
                                } else {
                                    Self::empty()
                                },
                        ),
                        ctype: path.ctype,
                    },
                ),
            },
            SpecType::ConstPtr(t) => Self::of_type(*t, true).under(SpecDeclarator::Ptr(is_const)),
            SpecType::Ptr(t) => Self::of_type(*t, false).under(SpecDeclarator::Ptr(is_const)),
            SpecType::Ref(t) => Self::of_type(*t, true).under(SpecDeclarator::Ref),
            SpecType::MutRef(t) => Self::of_type(*t, false).under(SpecDeclarator::Ref),
            SpecType::Array(t, len) => Self::of_type(*t, is_const).under(
                SpecDeclarator::Array(len),
            ),
            SpecType::FuncPtr(ret, args) => Self::of_type(*ret, false).under(
                SpecDeclarator::Func(
                    Seq::new(
                        args.len(),
                        |i: int|
                            if 0 <= i < args.len() {
                                (args[i].0, Self::of_type(args[i].1, false))
                            } else {
                                (None, Self::empty())
                            },
                    ),
                    false,
                ),
            ).under(SpecDeclarator::Ptr(is_const)),
        }
    }

    /// The declaration of a function: its parameter list comes first, then
    /// the declarators of what it returns.
    pub open spec fn of_func(f: SpecFunction, layout_vertical: bool) -> SpecDecl {
        Self::of_type(f.ret, false).under(
            SpecDeclarator::Func(
                Seq::new(
                    f.args.len(),
                    |i: int| (Some(f.args[i].0), Self::of_type(f.args[i].1, false)),
                ),
                layout_vertical,
            ),
        )
    }
}

/// Every parameter can be written in the dialect.
pub open spec fn params_valid(args: Seq<(Option<Seq<char>>, SpecDecl)>, lang: Language) -> bool
    decreases args, 0nat,
{
    forall|j: int| 0 <= j < args.len() ==> (#[trigger] args[j]).1.valid_for(lang)
}

impl SpecDeclarator {
    /// The parameters of a parameter list can be written in the dialect.
    pub open spec fn valid_for(self, lang: Language) -> bool
        decreases self, 0nat,
    {
        match self {
            SpecDeclarator::Func(args, _) => params_valid(args, lang),
            _ => true,
        }
    }
}

impl SpecDecl {
    /// The declaration can be written in the dialect: it has a base type, as
    /// has every parameter in it, and none of them has generic arguments
    /// where the dialect has no generics.
    pub open spec fn valid_for(self, lang: Language) -> bool
        decreases self, 0nat,
    {
        &&& self.base is Some
        &&& (lang.has_generics() || self.base->0.generic_decls.len() == 0)
        &&& forall|i: int|
            0 <= i < self.declarators.len() ==> (#[trigger] self.declarators[i]).valid_for(lang)
    }
}

/// One more declarator keeps a declaration writable if its own parameters
/// are.
proof fn lemma_under_valid(d: SpecDecl, outer: SpecDeclarator, lang: Language)
    requires
        d.valid_for(lang),
        outer.valid_for(lang),
    ensures
        d.under(outer).valid_for(lang),
{
    let e = d.under(outer);
    assert forall|i: int| 0 <= i < e.declarators.len() implies (
    #[trigger] e.declarators[i]).valid_for(lang) by {
        if i > 0 {
            assert(e.declarators[i] == d.declarators[i - 1]);
        }
    }
}

/// The declaration of a type that the dialect can declare can be written in
/// the dialect.
pub proof fn lemma_of_type_valid(t: SpecType, is_const: bool, lang: Language)
    requires
        t.valid_for(lang),
    ensures
        SpecDecl::of_type(t, is_const).valid_for(lang),
    decreases t,
{
    match t {
        SpecType::Primitive(_) => {},
        SpecType::Path(_) => {},
        SpecType::ConstPtr(inner) => {
            lemma_of_type_valid(*inner, true, lang);
            lemma_under_valid(SpecDecl::of_type(*inner, true), SpecDeclarator::Ptr(is_const), lang);
        },
        SpecType::Ptr(inner) => {
            lemma_of_type_valid(*inner, false, lang);
            lemma_under_valid(
                SpecDecl::of_type(*inner, false),
                SpecDeclarator::Ptr(is_const),
                lang,
            );
        },
        SpecType::Ref(inner) => {
            lemma_of_type_valid(*inner, true, lang);
            lemma_under_valid(SpecDecl::of_type(*inner, true), SpecDeclarator::Ref, lang);
        },
        SpecType::MutRef(inner) => {
            lemma_of_type_valid(*inner, false, lang);
            lemma_under_valid(SpecDecl::of_type(*inner, false), SpecDeclarator::Ref, lang);
        },
        SpecType::Array(inner, len) => {
            lemma_of_type_valid(*inner, is_const, lang);
            lemma_under_valid(
                SpecDecl::of_type(*inner, is_const),
                SpecDeclarator::Array(len),
                lang,
            );
        },
        SpecType::FuncPtr(ret, args) => {
            lemma_of_type_valid(*ret, false, lang);
            let func = SpecDecl::of_type(t, is_const).declarators[1];
            assert forall|j: int| 0 <= j < func->Func_0.len() implies (
            #[trigger] func->Func_0[j]).1.valid_for(lang) by {
                lemma_of_type_valid(args[j].1, false, lang);
            }
            lemma_under_valid(SpecDecl::of_type(*ret, false), func, lang);
            lemma_under_valid(
                SpecDecl::of_type(*ret, false).under(func),
                SpecDeclarator::Ptr(is_const),
                lang,
            );
        },
    }
}

/// The declaration of a function that the dialect can declare can be written
/// in the dialect.
pub proof fn lemma_of_func_valid(f: SpecFunction, layout_vertical: bool, lang: Language)
    requires
        f.valid_for(lang),
    ensures
        SpecDecl::of_func(f, layout_vertical).valid_for(lang),
{
    let func = SpecDecl::of_func(f, layout_vertical).declarators[0];
    lemma_of_type_valid(f.ret, false, lang);
    assert forall|j: int| 0 <= j < func->Func_0.len() implies (
    #[trigger] func->Func_0[j]).1.valid_for(lang) by {
        assert(f.args[j].1.valid_for(lang));
        lemma_of_type_valid(f.args[j].1, false, lang);
    }
    lemma_under_valid(SpecDecl::of_type(f.ret, false), func, lang);
}

/// The one operation `op`.
pub open spec fn one(op: Op) -> Seq<Op> {
    seq![op]
}

/// The one operation that writes `s`.
pub open spec fn text(s: Seq<char>) -> Seq<Op> {
    one(Op::Write(s))
}

/// No operation.
pub open spec fn nothing() -> Seq<Op> {
    Seq::empty()
}

/// The parenthesis that opens a group.
pub open spec fn group_start(grouped: bool) -> Seq<Op> {
    if grouped {
        text("("@)
    } else {
        nothing()
    }
}

/// The parenthesis that closes a group.
pub open spec fn group_end(grouped: bool) -> Seq<Op> {
    if grouped {
        text(")"@)
    } else {
        nothing()
    }
}

/// `inner` as it stands, or in parentheses.
pub open spec fn group(grouped: bool, inner: Seq<Op>) -> Seq<Op> {
    group_start(grouped) + inner + group_end(grouped)
}

/// The mark of a pointer.
pub open spec fn ptr_mark(is_const: bool) -> Seq<char> {
    if is_const {
        "*const "@
    } else {
        "*"@
    }
}

/// The suffix of an array of `len` items. A dialect that marshals arrays
/// writes none.
pub open spec fn array_ops(len: Seq<char>, lang: Language) -> Seq<Op> {
    if lang.marshals_arrays() {
        nothing()
    } else {
        text("["@) + text(len) + text("]"@)
    }
}

/// What stands before the `k`-th of several parameters: nothing before the
/// first, then a comma and a blank, or a comma and a line break in the
/// vertical layout.
pub open spec fn param_break(k: nat, layout_vertical: bool) -> Seq<Op> {
    if k == 0 {
        nothing()
    } else if layout_vertical {
        text(","@) + one(Op::NewLine)
    } else {
        text(", "@)
    }
}

/// What stands before the `k`-th of several generic arguments.
pub open spec fn generic_break(k: nat) -> Seq<Op> {
    if k == 0 {
        nothing()
    } else {
        text(", "@)
    }
}

/// The placeholder of an empty parameter list.
pub open spec fn void_ops(explicit: bool) -> Seq<Op> {
    if explicit {
        text("void"@)
    } else {
        nothing()
    }
}

/// The attribute that declares an array of `len` items where the dialect
/// marshals arrays.
pub open spec fn marshal_ops(len: Option<Seq<char>>) -> Seq<Op> {
    match len {
        Some(len) => text("[MarshalAs(UnmanagedType.ByValArray, SizeConst="@) + text(len) + text(
            ")] readonly "@,
        ),
        None => nothing(),
    }
}

/// The qualifier of a base type.
pub open spec fn qualifier_ops(is_const: bool) -> Seq<Op> {
    if is_const {
        text("const "@)
    } else {
        nothing()
    }
}

/// The kind of a base type, where the dialect names it.
pub open spec fn kind_ops(ctype: Option<DeclarationType>) -> Seq<Op> {
    match ctype {
        Some(ctype) => text(ctype.spec_str()) + text(" "@),
        None => nothing(),
    }
}

/// The mark behind the name of a marshalled array's base type.
pub open spec fn array_mark_ops(marshalled: bool) -> Seq<Op> {
    if marshalled {
        text("[]"@)
    } else {
        nothing()
    }
}

/// The blank between the base type and the declarators of a name.
pub open spec fn blank_ops(named: bool) -> Seq<Op> {
    if named {
        text(" "@)
    } else {
        nothing()
    }
}

/// The declared name, if there is one.
pub open spec fn ident_ops(ident: Option<Seq<char>>) -> Seq<Op> {
    match ident {
        Some(name) => text(name),
        None => nothing(),
    }
}

/// Whether the first `k` of the declarators `ds` end in one that the next
/// array or parameter list has to be kept apart from by parentheses.
pub open spec fn ends_in_ptr(ds: Seq<SpecDeclarator>, k: int) -> bool {
    0 < k <= ds.len() && ds[k - 1].is_ptr()
}

/// The first `k` generic arguments `gs`, separated by commas.
pub open spec fn generics_ops(gs: Seq<SpecDecl>, k: nat, lang: Language) -> Seq<Op>
    decreases gs, k,
{
    if k == 0 || k > gs.len() {
        nothing()
    } else {
        generics_ops(gs, (k - 1) as nat, lang) + generic_break((k - 1) as nat) + gs[k - 1].ops(
            None,
            false,
            lang,
        )
    }
}

/// The generic arguments `gs` in their angle brackets, if there are any.
pub open spec fn generic_list_ops(gs: Seq<SpecDecl>, lang: Language) -> Seq<Op>
    decreases gs, gs.len() + 1,
{
    if gs.len() > 0 {
        text("<"@) + generics_ops(gs, gs.len(), lang) + text(">"@)
    } else {
        nothing()
    }
}

/// The first `k` parameters `args`, separated as the layout asks.
pub open spec fn args_ops(
    args: Seq<(Option<Seq<char>>, SpecDecl)>,
    k: nat,
    layout_vertical: bool,
    void_prototype: bool,
    lang: Language,
) -> Seq<Op>
    decreases args, k,
{
    if k == 0 || k > args.len() {
        nothing()
    } else {
        args_ops(args, (k - 1) as nat, layout_vertical, void_prototype, lang) + param_break(
            (k - 1) as nat,
            layout_vertical,
        ) + args[k - 1].1.ops(args[k - 1].0, void_prototype, lang)
    }
}

/// The parameters `args`; in the vertical layout, aligned to the column at
/// which the first begins.
pub open spec fn arg_list_ops(
    args: Seq<(Option<Seq<char>>, SpecDecl)>,
    layout_vertical: bool,
    void_prototype: bool,
    lang: Language,
) -> Seq<Op>
    decreases args, args.len() + 1,
{
    let list = args_ops(args, args.len(), layout_vertical, void_prototype, lang);
    if layout_vertical {
        one(Op::Align) + list + one(Op::Unalign)
    } else {
        list
    }
}

/// A parameter list in its parentheses. An empty list holds `void` where
/// `void_prototype` asks for it.
pub open spec fn params_ops(
    args: Seq<(Option<Seq<char>>, SpecDecl)>,
    layout_vertical: bool,
    void_prototype: bool,
    lang: Language,
) -> Seq<Op>
    decreases args, args.len() + 2,
{
    text("("@) + void_ops(args.len() == 0 && void_prototype) + arg_list_ops(
        args,
        layout_vertical,
        void_prototype,
        lang,
    ) + text(")"@)
}

/// The first `k` of the declarators `ds` around `inner`, which is what they
/// declare. A pointer or a reference stands before what the declarators
/// before it make of `inner`; an array or a parameter list stands behind
/// it, and has it in parentheses if the declarator before is a pointer, a
/// reference or a parameter list.
pub open spec fn declarator_ops(
    ds: Seq<SpecDeclarator>,
    k: nat,
    inner: Seq<Op>,
    void_prototype: bool,
    lang: Language,
) -> Seq<Op>
    decreases ds, k,
{
    if k == 0 || k > ds.len() {
        inner
    } else {
        let rest = declarator_ops(ds, (k - 1) as nat, inner, void_prototype, lang);
        let grouped = ends_in_ptr(ds, k - 1);
        match ds[k - 1] {
            SpecDeclarator::Ptr(is_const) => text(ptr_mark(is_const)) + rest,
            SpecDeclarator::Ref => text("&"@) + rest,
            SpecDeclarator::Array(len) => group(grouped, rest) + array_ops(len, lang),
            SpecDeclarator::Func(args, layout_vertical) => group(grouped, rest) + params_ops(
                args,
                layout_vertical,
                void_prototype,
                lang,
            ),
        }
    }
}

impl SpecBase {
    /// The qualifier, the kind, the name and the generic arguments of the
    /// base type. `marshalled` says whether it is the base type of a
    /// marshalled array.
    pub open spec fn ops(self, marshalled: bool, lang: Language) -> Seq<Op>
        decreases self, 0nat,
    {
        qualifier_ops(self.is_const) + kind_ops(self.ctype) + text(self.name) + array_mark_ops(
            marshalled,
        ) + generic_list_ops(self.generic_decls, lang)
    }
}

impl SpecDecl {
    /// The length of the array, where the declaration is that of an array
    /// and the dialect marshals arrays.
    pub open spec fn marshalled_len(self, lang: Language) -> Option<Seq<char>> {
        if lang.marshals_arrays() && self.declarators.len() == 1 {
            match self.declarators[0] {
                SpecDeclarator::Array(len) => Some(len),
                _ => None,
            }
        } else {
            None
        }
    }

    /// What stands before the declarators: the marshalling attribute of an
    /// array, then the base type.
    pub open spec fn base_ops(self, lang: Language) -> Seq<Op>
        decreases self, 1nat,
    {
        marshal_ops(self.marshalled_len(lang)) + (match self.base {
            Some(base) => base.ops(self.marshalled_len(lang) is Some, lang),
            None => nothing(),
        })
    }

    /// The operations that write the declaration of `ident`, or the bare type
    /// where there is no identifier.
    pub open spec fn ops(
        self,
        ident: Option<Seq<char>>,
        void_prototype: bool,
        lang: Language,
    ) -> Seq<Op>
        decreases self, 2nat,
    {
        self.base_ops(lang) + blank_ops(ident is Some) + declarator_ops(
            self.declarators,
            self.declarators.len(),
            ident_ops(ident),
            void_prototype,
            lang,
        )
    }
}

impl SpecDecl {
    /// The text of the declaration of `ident`, or of the bare type: what its
    /// operations write, one after the other.
    pub open spec fn text(
        self,
        ident: Option<Seq<char>>,
        void_prototype: bool,
        lang: Language,
    ) -> Seq<char> {
        written(self.ops(ident, void_prototype, lang))
    }
}

/// What a declarator writes before the declared name. `grouped` says whether
/// the declarator before it is a pointer, a reference or a parameter list.
pub open spec fn prefix_ops(d: SpecDeclarator, grouped: bool) -> Seq<Op> {
    match d {
        SpecDeclarator::Ptr(is_const) => text(ptr_mark(is_const)),
        SpecDeclarator::Ref => text("&"@),
        _ => group_start(grouped),
    }
}

/// What a declarator writes behind the declared name.
pub open spec fn suffix_ops(
    d: SpecDeclarator,
    grouped: bool,
    void_prototype: bool,
    lang: Language,
) -> Seq<Op> {
    match d {
        SpecDeclarator::Array(len) => group_end(grouped) + array_ops(len, lang),
        SpecDeclarator::Func(args, layout_vertical) => group_end(grouped) + params_ops(
            args,
            layout_vertical,
            void_prototype,
            lang,
        ),
        _ => nothing(),
    }
}

/// What the walk from the last of the first `k` declarators back to the
/// first writes before the declared name.
pub open spec fn left_ops(ds: Seq<SpecDeclarator>, k: nat) -> Seq<Op>
    decreases k,
{
    if k == 0 || k > ds.len() {
        nothing()
    } else {
        prefix_ops(ds[k - 1], ends_in_ptr(ds, k - 1)) + left_ops(ds, (k - 1) as nat)
    }
}

/// What the walk from the first declarator to the `k`-th writes behind the
/// declared name.
pub open spec fn right_ops(
    ds: Seq<SpecDeclarator>,
    k: nat,
    void_prototype: bool,
    lang: Language,
) -> Seq<Op>
    decreases k,
{
    if k == 0 || k > ds.len() {
        nothing()
    } else {
        right_ops(ds, (k - 1) as nat, void_prototype, lang) + suffix_ops(
            ds[k - 1],
            ends_in_ptr(ds, k - 1),
            void_prototype,
            lang,
        )
    }
}

/// The two walks write the declarators around the name as the right-left
/// rule nests them.
pub proof fn lemma_two_walks(
    ds: Seq<SpecDeclarator>,
    k: nat,
    inner: Seq<Op>,
    void_prototype: bool,
    lang: Language,
)
    requires
        k <= ds.len(),
    ensures
        declarator_ops(ds, k, inner, void_prototype, lang) == left_ops(ds, k) + inner + right_ops(
            ds,
            k,
            void_prototype,
            lang,
        ),
    decreases k,
{
    let whole = declarator_ops(ds, k, inner, void_prototype, lang);
    if k == 0 {
        lemma_regroup(nothing(), nothing(), inner, nothing(), nothing(), nothing());
        assert(whole == inner);
        assert(left_ops(ds, k) == nothing());
        assert(right_ops(ds, k, void_prototype, lang) == nothing());
    } else {
        lemma_two_walks(ds, (k - 1) as nat, inner, void_prototype, lang);
        let left = left_ops(ds, (k - 1) as nat);
        let right = right_ops(ds, (k - 1) as nat, void_prototype, lang);
        let grouped = ends_in_ptr(ds, k - 1);
        assert(declarator_ops(ds, (k - 1) as nat, inner, void_prototype, lang) == left + inner
            + right);
        assert(left_ops(ds, k) == prefix_ops(ds[k - 1], grouped) + left);
        assert(right_ops(ds, k, void_prototype, lang) == right + suffix_ops(
            ds[k - 1],
            grouped,
            void_prototype,
            lang,
        ));
        match ds[k - 1] {
            SpecDeclarator::Ptr(is_const) => {
                let mark = text(ptr_mark(is_const));
                lemma_regroup(mark, left, inner, right, nothing(), nothing());
                assert(whole == mark + (left + inner + right));
            },
            SpecDeclarator::Ref => {
                let mark = text("&"@);
                lemma_regroup(mark, left, inner, right, nothing(), nothing());
                assert(whole == mark + (left + inner + right));
            },
            SpecDeclarator::Array(len) => {
                let suffix = array_ops(len, lang);
                lemma_regroup(
                    group_start(grouped),
                    left,
                    inner,
                    right,
                    group_end(grouped),
                    suffix,
                );
                assert(whole == group(grouped, left + inner + right) + suffix);
            },
            SpecDeclarator::Func(args, layout_vertical) => {
                let suffix = params_ops(args, layout_vertical, void_prototype, lang);
                lemma_regroup(
                    group_start(grouped),
                    left,
                    inner,
                    right,
                    group_end(grouped),
                    suffix,
                );
                assert(whole == group(grouped, left + inner + right) + suffix);
            },
        }
    }
}

/// The ways in which the two walks group what the nesting groups otherwise.
proof fn lemma_regroup(
    mark: Seq<Op>,
    left: Seq<Op>,
    inner: Seq<Op>,
    right: Seq<Op>,
    close: Seq<Op>,
    suffix: Seq<Op>,
)
    ensures
        inner == nothing() + inner + nothing(),
        mark + (left + inner + right) == (mark + left) + inner + (right + nothing()),
        (mark + (left + inner + right) + close) + suffix == (mark + left) + inner + (right + (close
            + suffix)),
{
    assert(inner =~= nothing() + inner + nothing());
    assert(mark + (left + inner + right) =~= (mark + left) + inner + (right + nothing()));
    assert((mark + (left + inner + right) + close) + suffix =~= (mark + left) + inner + (right + (
    close + suffix)));
}

} // verus!
