//! The resolved types and signatures that declarations are rendered from.

use vstd::prelude::*;

verus! {

/// The target dialect of the emitted declarations.
#[derive(Clone, Copy, Debug, PartialEq, Eq, Structural)]
pub enum Language {
    Cxx,
    C,
    CS,
}

/// The formatting choices of a dialect.
#[derive(Clone, Copy, Debug, PartialEq, Eq, Structural)]
pub struct Dialect {
    /// The dialect has a syntax for generic arguments.
    pub generics: bool,
    /// The dialect declares a fixed array by a marshalling attribute in
    /// place of a bracket suffix.
    pub marshals_arrays: bool,
    /// In the dialect a parameter list without parameters has to say so.
    pub explicit_void: bool,
}

impl Language {
    /// The formatting choices of the dialect.
    pub open spec fn spec_dialect(self) -> Dialect {
        match self {
            Language::Cxx => Dialect {
                generics: true,
                marshals_arrays: false,
                explicit_void: false,
            },
            Language::C => Dialect { generics: false, marshals_arrays: false, explicit_void: true },
            Language::CS => Dialect { generics: true, marshals_arrays: true, explicit_void: false },
        }
    }

    /// Whether the dialect has a syntax for generic arguments.
    pub open spec fn spec_has_generics(self) -> bool {
        self.spec_dialect().generics
    }

    /// Whether the dialect declares a fixed array by a marshalling attribute
    /// in place of a bracket suffix.
    pub open spec fn spec_marshals_arrays(self) -> bool {
        self.spec_dialect().marshals_arrays
    }

    /// The formatting choices of the dialect.
    #[verifier::when_used_as_spec(spec_dialect)]
    pub fn dialect(self) -> (d: Dialect)
        ensures
            d == self.spec_dialect(),
    {
        match self {
            Language::Cxx => Dialect {
                generics: true,
                marshals_arrays: false,
                explicit_void: false,
            },
            Language::C => Dialect { generics: false, marshals_arrays: false, explicit_void: true },
            Language::CS => Dialect { generics: true, marshals_arrays: true, explicit_void: false },
        }
    }

    /// Whether the dialect has a syntax for generic arguments.
    #[verifier::when_used_as_spec(spec_has_generics)]
    pub fn has_generics(self) -> (b: bool)
        ensures
            b == self.spec_has_generics(),
    {
        self.dialect().generics
    }

    /// Whether the dialect declares a fixed array by a marshalling attribute
    /// in place of a bracket suffix.
    #[verifier::when_used_as_spec(spec_marshals_arrays)]
    pub fn marshals_arrays(self) -> (b: bool)
        ensures
            b == self.spec_marshals_arrays(),
    {
        self.dialect().marshals_arrays
    }
}

/// The kind of a named declaration, for dialects that prefix a type name with it.
#[derive(Clone, Copy, Debug, PartialEq, Eq, Structural)]
pub enum DeclarationType {
    Struct,
    Enum,
    Union,
}

impl DeclarationType {
    /// The keyword of the kind.
    pub open spec fn spec_str(self) -> Seq<char> {
        match self {
            DeclarationType::Struct => "struct"@,
            DeclarationType::Enum => "enum"@,
            DeclarationType::Union => "union"@,
        }
    }

    /// The keyword of the kind.
    pub fn to_str(&self) -> (s: &'static str)
        ensures
            s@ == self.spec_str(),
    {
        match self {
            DeclarationType::Struct => "struct",
            DeclarationType::Enum => "enum",
            DeclarationType::Union => "union",
        }
    }
}

/// A named type: its name, its generic arguments, and its kind where the
/// dialect has to name it.
#[derive(Debug, PartialEq, Eq)]
pub struct GenericPath {
    pub name: String,
    pub generics: Vec<Type>,
    pub ctype: Option<DeclarationType>,
}

/// A resolved type. A primitive type stands by its spelling in the target
/// dialect, the length of an array by the text of its constant expression.
#[derive(Debug, PartialEq, Eq)]
pub enum Type {
    Primitive(String),
    Path(GenericPath),
    ConstPtr(Box<Type>),
    Ptr(Box<Type>),
    Ref(Box<Type>),
    MutRef(Box<Type>),
    Array(Box<Type>, String),
    FuncPtr(Box<Type>, Vec<(Option<String>, Type)>),
}

/// The value of a named type.
pub ghost struct SpecPath {
    pub name: Seq<char>,
    pub generics: Seq<SpecType>,
    pub ctype: Option<DeclarationType>,
}

/// The value of a type: strings as sequences of characters, vectors as
/// sequences.
pub ghost enum SpecType {
    Primitive(Seq<char>),
    Path(SpecPath),
    ConstPtr(Box<SpecType>),
    Ptr(Box<SpecType>),
    Ref(Box<SpecType>),
    MutRef(Box<SpecType>),
    Array(Box<SpecType>, Seq<char>),
    FuncPtr(Box<SpecType>, Seq<(Option<Seq<char>>, SpecType)>),
}

/// The value of a name that may be missing.
pub open spec fn name_view(name: Option<String>) -> Option<Seq<char>> {
    match name {
        Some(s) => Some(s@),
        None => None,
    }
}

impl Type {
    /// The value of the type.
    pub open spec fn model(&self) -> SpecType
        decreases self,
    {
        match self {
            Type::Primitive(name) => SpecType::Primitive(name@),
            Type::Path(path) => SpecType::Path(
                SpecPath {
                    name: path.name@,
                    generics: Seq::new(
                        path.generics@.len(),
                        |i: int|
                            if 0 <= i < path.generics@.len() {
                                path.generics@[i].model()
                            } else {
                                arbitrary()
                            },
                    ),
                    ctype: path.ctype,
                },
            ),
            Type::ConstPtr(t) => SpecType::ConstPtr(Box::new(t.model())),
            Type::Ptr(t) => SpecType::Ptr(Box::new(t.model())),
            Type::Ref(t) => SpecType::Ref(Box::new(t.model())),
            Type::MutRef(t) => SpecType::MutRef(Box::new(t.model())),
            Type::Array(t, len) => SpecType::Array(Box::new(t.model()), len@),
            Type::FuncPtr(ret, args) => SpecType::FuncPtr(
                Box::new(ret.model()),
                Seq::new(
                    args@.len(),
                    |i: int|
                        if 0 <= i < args@.len() {
                            (name_view(args@[i].0), args@[i].1.model())
                        } else {
                            arbitrary()
                        },
                ),
            ),
        }
    }
}

impl View for Type {
    type V = SpecType;

    open spec fn view(&self) -> SpecType {
        self.model()
    }
}

/// A function signature: its name, its parameters in order, and what it returns.
#[derive(Debug, PartialEq, Eq)]
pub struct Function {
    pub name: String,
    pub args: Vec<(String, Type)>,
    pub ret: Type,
}

/// The value of a function signature.
pub ghost struct SpecFunction {
    pub name: Seq<char>,
    pub args: Seq<(Seq<char>, SpecType)>,
    pub ret: SpecType,
}

impl View for Function {
    type V = SpecFunction;

    open spec fn view(&self) -> SpecFunction {
        SpecFunction {
            name: self.name@,
            args: Seq::new(self.args@.len(), |i: int| (self.args@[i].0@, self.args@[i].1@)),
            ret: self.ret@,
        }
    }
}

impl SpecType {
    /// No named type in it, at any depth, has generic arguments.
    pub open spec fn generic_free(self) -> bool
        decreases self,
    {
        match self {
            SpecType::Primitive(_) => true,
            SpecType::Path(path) => path.generics.len() == 0,
            SpecType::ConstPtr(t) => t.generic_free(),
            SpecType::Ptr(t) => t.generic_free(),
            SpecType::Ref(t) => t.generic_free(),
            SpecType::MutRef(t) => t.generic_free(),
            SpecType::Array(t, _) => t.generic_free(),
            SpecType::FuncPtr(ret, args) => ret.generic_free() && forall|i: int|
                0 <= i < args.len() ==> (#[trigger] args[i]).1.generic_free(),
        }
    }

    /// The dialect can declare the type: a dialect without generics takes no
    /// generic arguments.
    pub open spec fn valid_for(self, lang: Language) -> bool {
        lang.has_generics() || self.generic_free()
    }
}

impl SpecFunction {
    /// The dialect can declare the function: what it returns and each of its
    /// parameters.
    pub open spec fn valid_for(self, lang: Language) -> bool {
        &&& self.ret.valid_for(lang)
        &&& forall|i: int| 0 <= i < self.args.len() ==> (#[trigger] self.args[i]).1.valid_for(lang)
    }
}

/// A copy of a name that may be missing.
pub(crate) fn clone_name(name: &Option<String>) -> (res: Option<String>)
    ensures
        name_view(res) == name_view(*name),
{
    match name {
        Some(s) => Some(s.clone()),
        None => None,
    }
}

impl Clone for Type {
    /// A copy with the same value.
    fn clone(&self) -> (res: Type)
        ensures
            res@ == self@,
        decreases self,
    {
        match self {
            Type::Primitive(name) => Type::Primitive(name.clone()),
            Type::Path(path) => {
                let mut generics: Vec<Type> = Vec::new();
                let mut i: usize = 0;
                while i < path.generics.len()
                    invariant
                        i <= path.generics.len(),
                        generics.len() == i,
                        self is Path && self->Path_0 == *path,
                        forall|k: int| 0 <= k < i ==> generics@[k]@ == path.generics@[k]@,
                    decreases path.generics.len() - i,
                {
                    generics.push(path.generics[i].clone());
                    i = i + 1;
                }
                let res = Type::Path(
                    GenericPath { name: path.name.clone(), generics, ctype: path.ctype },
                );
                assert(res@->Path_0.generics =~= self@->Path_0.generics);
                res
            },
            Type::ConstPtr(t) => Type::ConstPtr(Box::new((**t).clone())),
            Type::Ptr(t) => Type::Ptr(Box::new((**t).clone())),
            Type::Ref(t) => Type::Ref(Box::new((**t).clone())),
            Type::MutRef(t) => Type::MutRef(Box::new((**t).clone())),
            Type::Array(t, len) => Type::Array(Box::new((**t).clone()), len.clone()),
            Type::FuncPtr(ret, args) => {
                let mut copies: Vec<(Option<String>, Type)> = Vec::new();
                let mut i: usize = 0;
                while i < args.len()
                    invariant
                        i <= args.len(),
                        copies.len() == i,
                        self is FuncPtr && self->FuncPtr_1 == *args,
                        forall|k: int|
                            0 <= k < i ==> name_view(copies@[k].0) == name_view(args@[k].0)
                                && copies@[k].1@ == args@[k].1@,
                    decreases args.len() - i,
                {
                    copies.push((clone_name(&args[i].0), args[i].1.clone()));
                    i = i + 1;
                }
                let res = Type::FuncPtr(Box::new((**ret).clone()), copies);
                assert(res@->FuncPtr_1 =~= self@->FuncPtr_1);
                res
            },
        }
    }
}

impl Type {
    /// Whether no named type in it has generic arguments.
    pub fn is_generic_free(&self) -> (b: bool)
        ensures
            b == self@.generic_free(),
        decreases self,
    {
        match self {
            Type::Primitive(_) => true,
            Type::Path(path) => path.generics.len() == 0,
            Type::ConstPtr(t) => t.is_generic_free(),
            Type::Ptr(t) => t.is_generic_free(),
            Type::Ref(t) => t.is_generic_free(),
            Type::MutRef(t) => t.is_generic_free(),
            Type::Array(t, _) => t.is_generic_free(),
            Type::FuncPtr(ret, args) => {
                if !ret.is_generic_free() {
                    return false;
                }
                let mut i: usize = 0;
                while i < args.len()
                    invariant
                        i <= args.len(),
                        self is FuncPtr && self->FuncPtr_1 == *args,
                        forall|k: int|
                            0 <= k < i ==> (#[trigger] self@->FuncPtr_1[k]).1.generic_free(),
                    decreases args.len() - i,
                {
                    if !args[i].1.is_generic_free() {
                        assert(!self@->FuncPtr_1[i as int].1.generic_free());
                        return false;
                    }
                    i = i + 1;
                }
                true
            },
        }
    }

    /// Whether the dialect can declare the type.
    pub fn valid_for(&self, lang: Language) -> (b: bool)
        ensures
            b == self@.valid_for(lang),
    {
        lang.has_generics() || self.is_generic_free()
    }
}

impl Function {
    /// Whether the dialect can declare the function.
    pub fn valid_for(&self, lang: Language) -> (b: bool)
        ensures
            b == self@.valid_for(lang),
    {
        if !self.ret.valid_for(lang) {
            return false;
        }
        let mut i: usize = 0;
        while i < self.args.len()
            invariant
                i <= self.args.len(),
                forall|k: int| 0 <= k < i ==> (#[trigger] self@.args[k]).1.valid_for(lang),
            decreases self.args.len() - i,
        {
            if !self.args[i].1.valid_for(lang) {
                assert(!self@.args[i as int].1.valid_for(lang));
                return false;
            }
            i = i + 1;
        }
        true
    }
}

} // verus!
