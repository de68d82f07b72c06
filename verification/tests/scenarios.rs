use cdecl::{
    write_field, write_func, write_type, DeclarationType, Function, GenericPath, Language,
    SourceWriter, Type,
};

fn prim(name: &str) -> Type {
    Type::Primitive(name.to_string())
}

fn ptr(t: Type) -> Type {
    Type::Ptr(Box::new(t))
}

fn const_ptr(t: Type) -> Type {
    Type::ConstPtr(Box::new(t))
}

fn array(t: Type, len: &str) -> Type {
    Type::Array(Box::new(t), len.to_string())
}

fn func_ptr(ret: Type, args: Vec<(Option<&str>, Type)>) -> Type {
    Type::FuncPtr(
        Box::new(ret),
        args.into_iter().map(|(name, t)| (name.map(|n| n.to_string()), t)).collect(),
    )
}

fn path(name: &str, generics: Vec<Type>, ctype: Option<DeclarationType>) -> Type {
    Type::Path(GenericPath { name: name.to_string(), generics, ctype })
}

fn function(name: &str, args: Vec<(&str, Type)>, ret: Type) -> Function {
    Function {
        name: name.to_string(),
        args: args.into_iter().map(|(n, t)| (n.to_string(), t)).collect(),
        ret,
    }
}

fn field(t: &Type, ident: &str, lang: Language) -> String {
    let mut out = SourceWriter::new();
    write_field(&mut out, t, ident, lang);
    out.into_string()
}

fn bare(t: &Type, lang: Language) -> String {
    let mut out = SourceWriter::new();
    write_type(&mut out, t, lang);
    out.into_string()
}

fn signature(f: &Function, vertical: bool, void_prototype: bool, lang: Language) -> String {
    let mut out = SourceWriter::new();
    write_func(&mut out, f, vertical, void_prototype, lang);
    out.into_string()
}

#[test]
fn pointer_to_int() {
    assert_eq!(field(&ptr(prim("int")), "x", Language::C), "int *x");
}

#[test]
fn pointer_to_array() {
    assert_eq!(field(&ptr(array(prim("int"), "4")), "x", Language::C), "int (*x)[4]");
}

#[test]
fn array_of_pointers() {
    assert_eq!(field(&array(ptr(prim("int")), "4"), "x", Language::C), "int *x[4]");
}

#[test]
fn pointer_to_function() {
    let t = func_ptr(prim("int"), vec![(Some("a"), prim("int"))]);
    assert_eq!(field(&t, "f", Language::C), "int (*f)(int a)");
}

#[test]
fn function_without_parameters_explicit_void() {
    let g = function("g", vec![], prim("void"));
    assert_eq!(signature(&g, false, true, Language::C), "void g(void)");
}

#[test]
fn function_without_parameters_managed() {
    let g = function("g", vec![], prim("void"));
    let void_prototype = Language::CS.dialect().explicit_void;
    assert!(!void_prototype);
    assert_eq!(signature(&g, false, void_prototype, Language::CS), "void g()");
}

#[test]
fn function_without_parameters_by_dialect() {
    let g = function("g", vec![], prim("void"));
    let render = |lang: Language| signature(&g, false, lang.dialect().explicit_void, lang);
    assert_eq!(render(Language::C), "void g(void)");
    assert_eq!(render(Language::Cxx), "void g()");
    assert_eq!(render(Language::CS), "void g()");
}

#[test]
fn function_without_parameters_no_prototype() {
    let g = function("g", vec![], prim("void"));
    assert_eq!(signature(&g, false, false, Language::C), "void g()");
    assert_eq!(signature(&g, false, false, Language::Cxx), "void g()");
}

#[test]
fn explicit_void_in_every_dialect_and_layout() {
    let g = function("g", vec![], ptr(prim("char")));
    for lang in [Language::C, Language::Cxx, Language::CS] {
        assert_eq!(signature(&g, false, true, lang), "char *g(void)");
        assert_eq!(signature(&g, true, true, lang), "char *g(void)");
        assert_eq!(signature(&g, true, false, lang), "char *g()");
    }
}

#[test]
fn explicit_void_reaches_function_pointers() {
    let t = func_ptr(prim("int"), vec![]);
    let f = function("set", vec![("cb", t)], prim("void"));
    assert_eq!(signature(&f, false, true, Language::C), "void set(int (*cb)(void))");
    assert_eq!(signature(&f, false, false, Language::C), "void set(int (*cb)())");
}

#[test]
fn explicit_void_only_for_empty_lists() {
    let f = function("f", vec![("a", prim("int"))], prim("void"));
    assert_eq!(signature(&f, false, true, Language::C), "void f(int a)");
}

#[test]
fn const_pointer_marks_the_pointee() {
    assert_eq!(field(&const_ptr(prim("char")), "s", Language::C), "const char *s");
    assert_eq!(field(&ptr(prim("char")), "s", Language::C), "char *s");
}

#[test]
fn const_pointer_to_pointer() {
    assert_eq!(field(&const_ptr(ptr(prim("int"))), "x", Language::C), "int *const *x");
    assert_eq!(field(&ptr(const_ptr(prim("int"))), "x", Language::C), "const int **x");
    assert_eq!(
        field(&const_ptr(const_ptr(prim("int"))), "x", Language::C),
        "const int *const *x"
    );
}

#[test]
fn const_passes_through_arrays() {
    assert_eq!(
        field(&const_ptr(array(prim("int"), "2")), "x", Language::C),
        "const int (*x)[2]"
    );
}

#[test]
fn references() {
    assert_eq!(field(&Type::Ref(Box::new(prim("int"))), "x", Language::Cxx), "const int &x");
    assert_eq!(field(&Type::MutRef(Box::new(prim("int"))), "x", Language::Cxx), "int &x");
}

#[test]
fn reference_to_array() {
    let t = Type::MutRef(Box::new(array(prim("int"), "N")));
    assert_eq!(field(&t, "a", Language::Cxx), "int (&a)[N]");
}

#[test]
fn const_pointer_to_function() {
    let t = const_ptr(func_ptr(prim("int"), vec![]));
    assert_eq!(field(&t, "f", Language::C), "int (*const *f)()");
    let u = ptr(func_ptr(prim("int"), vec![]));
    assert_eq!(field(&u, "f", Language::C), "int (**f)()");
    let r = Type::Ref(Box::new(func_ptr(prim("int"), vec![(Some("a"), prim("int"))])));
    assert_eq!(field(&r, "f", Language::Cxx), "int (*const &f)(int a)");
    let m = Type::MutRef(Box::new(func_ptr(prim("int"), vec![(Some("a"), prim("int"))])));
    assert_eq!(field(&m, "f", Language::Cxx), "int (*&f)(int a)");
    let a = const_ptr(array(func_ptr(prim("void"), vec![]), "2"));
    assert_eq!(field(&a, "f", Language::C), "void (*const (*f)[2])()");
    let top = func_ptr(prim("int"), vec![]);
    assert_eq!(field(&top, "f", Language::C), "int (*f)()");
}

#[test]
fn reference_has_no_place_for_const() {
    let t = const_ptr(Type::MutRef(Box::new(prim("int"))));
    let u = ptr(Type::MutRef(Box::new(prim("int"))));
    assert_eq!(field(&t, "x", Language::Cxx), "int &*x");
    assert_eq!(field(&u, "x", Language::Cxx), "int &*x");
}

#[test]
fn bare_type_has_no_blank() {
    assert_eq!(bare(&ptr(prim("int")), Language::C), "int*");
    assert_eq!(bare(&prim("int"), Language::C), "int");
    assert_eq!(bare(&ptr(array(prim("int"), "4")), Language::C), "int(*)[4]");
}

#[test]
fn named_type_with_kind() {
    let t = ptr(path("Foo", vec![], Some(DeclarationType::Struct)));
    assert_eq!(field(&t, "x", Language::C), "struct Foo *x");
    let e = path("E", vec![], Some(DeclarationType::Enum));
    assert_eq!(field(&e, "e", Language::C), "enum E e");
    let u = const_ptr(path("U", vec![], Some(DeclarationType::Union)));
    assert_eq!(field(&u, "u", Language::C), "const union U *u");
}

#[test]
fn generic_arguments() {
    let t = path("Pair", vec![prim("int"), ptr(prim("char"))], None);
    assert_eq!(field(&t, "p", Language::Cxx), "Pair<int, char*> p");
    assert_eq!(field(&t, "p", Language::CS), "Pair<int, char*> p");
    let nested = path("Box", vec![path("Vec", vec![prim("float")], None)], None);
    assert_eq!(bare(&nested, Language::Cxx), "Box<Vec<float>>");
}

#[test]
fn validity_of_generic_arguments() {
    let t = ptr(path("Pair", vec![prim("int")], None));
    assert!(t.valid_for(Language::Cxx));
    assert!(t.valid_for(Language::CS));
    assert!(!t.valid_for(Language::C));
    assert!(!t.is_generic_free());
    let plain = func_ptr(prim("int"), vec![(None, ptr(path("Foo", vec![], None)))]);
    assert!(plain.valid_for(Language::C));
    assert!(plain.is_generic_free());
    let hidden = func_ptr(prim("int"), vec![(None, t)]);
    assert!(!hidden.valid_for(Language::C));
    let f = function("f", vec![("a", hidden)], prim("void"));
    assert!(!f.valid_for(Language::C));
    assert!(f.valid_for(Language::Cxx));
    let g = function("g", vec![("a", plain)], prim("void"));
    assert!(g.valid_for(Language::C));
}

#[test]
fn marshalled_array() {
    let t = array(prim("int"), "4");
    assert_eq!(
        field(&t, "x", Language::CS),
        "[MarshalAs(UnmanagedType.ByValArray, SizeConst=4)] readonly int[] x"
    );
    assert_eq!(field(&t, "x", Language::C), "int x[4]");
    assert_eq!(field(&t, "x", Language::Cxx), "int x[4]");
}

#[test]
fn managed_dialect_writes_no_brackets() {
    let t = ptr(array(prim("int"), "4"));
    assert_eq!(field(&t, "x", Language::CS), "int (*x)");
    let nested = array(array(prim("int"), "4"), "2");
    assert_eq!(field(&nested, "x", Language::CS), "int x");
    assert_eq!(field(&nested, "x", Language::C), "int x[2][4]");
}

#[test]
fn function_with_parameters() {
    let f = function(
        "copy",
        vec![("dst", ptr(prim("char"))), ("src", const_ptr(prim("char"))), ("n", prim("size_t"))],
        ptr(prim("char")),
    );
    assert_eq!(
        signature(&f, false, true, Language::C),
        "char *copy(char *dst, const char *src, size_t n)"
    );
}

#[test]
fn vertical_layout_aligns_parameters() {
    let f = function("f", vec![("a", prim("int")), ("b", ptr(prim("char")))], prim("void"));
    assert_eq!(signature(&f, true, true, Language::C), "void f(int a,\n       char *b)");
    let one = function("f", vec![("a", prim("int"))], prim("void"));
    assert_eq!(signature(&one, true, true, Language::C), "void f(int a)");
}

#[test]
fn vertical_layout_keeps_parentheses() {
    let cb = func_ptr(prim("int"), vec![(Some("x"), prim("int")), (None, prim("int"))]);
    let f = function("f", vec![("cb", cb), ("p", ptr(array(prim("int"), "2")))], prim("void"));
    assert_eq!(
        signature(&f, true, false, Language::C),
        "void f(int (*cb)(int x, int),\n       int (*p)[2])"
    );
    assert_eq!(
        signature(&f, false, false, Language::C),
        "void f(int (*cb)(int x, int), int (*p)[2])"
    );
}

#[test]
fn vertical_layout_after_indentation() {
    let f = function("f", vec![("a", prim("int")), ("b", prim("int"))], prim("void"));
    let mut out = SourceWriter::new();
    out.push_set_spaces(2);
    write_func(&mut out, &f, true, false, Language::C);
    out.pop_tab();
    assert_eq!(out.into_string(), "  void f(int a,\n         int b)");
}

#[test]
fn function_returning_function_pointer() {
    let t = func_ptr(func_ptr(prim("int"), vec![]), vec![]);
    assert_eq!(field(&t, "f", Language::C), "int (*(*f)())()");
    let g = function("g", vec![("a", prim("int"))], func_ptr(prim("void"), vec![(None, prim("int"))]));
    assert_eq!(signature(&g, false, false, Language::C), "void (*g(int a))(int)");
}

#[test]
fn function_returning_pointer_has_no_parentheses() {
    let g = function("g", vec![], ptr(ptr(prim("int"))));
    assert_eq!(signature(&g, false, true, Language::C), "int **g(void)");
}

#[test]
fn array_of_arrays_has_no_parentheses() {
    let t = array(array(ptr(prim("int")), "3"), "2");
    assert_eq!(field(&t, "m", Language::C), "int *m[2][3]");
}

#[test]
fn unnamed_parameters() {
    let t = func_ptr(prim("void"), vec![(None, ptr(prim("void"))), (None, prim("int"))]);
    assert_eq!(field(&t, "cb", Language::C), "void (*cb)(void*, int)");
}
