use cdecl::cdecl::{BaseType, CDeclarator};
use cdecl::{
    CDecl, DeclarationType, Dialect, Function, GenericPath, Language, SourceWriter, Type,
};

fn int_type() -> Type {
    Type::Primitive("int".to_string())
}

#[test]
fn sink_starts_empty() {
    let out = SourceWriter::new();
    assert_eq!(out.line_length_for_align(), 0);
    assert_eq!(out.into_string(), "");
}

#[test]
fn sink_appends_text() {
    let mut out = SourceWriter::new();
    out.write("ab");
    out.write("");
    out.write("c");
    assert_eq!(out.line_length_for_align(), 3);
    assert_eq!(out.into_string(), "abc");
}

#[test]
fn sink_indents_the_first_text_of_a_line() {
    let mut out = SourceWriter::new();
    out.push_set_spaces(3);
    assert_eq!(out.line_length_for_align(), 3);
    out.write("");
    assert_eq!(out.line_length_for_align(), 3);
    out.write("a");
    assert_eq!(out.line_length_for_align(), 4);
    out.write("b");
    out.new_line();
    assert_eq!(out.line_length_for_align(), 3);
    out.pop_tab();
    assert_eq!(out.line_length_for_align(), 0);
    out.write("c");
    assert_eq!(out.into_string(), "   ab\nc");
}

#[test]
fn sink_counts_characters() {
    let mut out = SourceWriter::new();
    out.write("é(");
    assert_eq!(out.line_length_for_align(), 2);
}

#[test]
fn sink_keeps_empty_lines_empty() {
    let mut out = SourceWriter::new();
    out.push_set_spaces(2);
    out.new_line();
    out.new_line();
    out.write("x");
    assert_eq!(out.into_string(), "\n\n  x");
}

#[test]
fn sink_without_indentation_has_none_to_drop() {
    let mut out = SourceWriter::new();
    out.pop_tab();
    out.write("a");
    out.new_line();
    out.write("b");
    assert_eq!(out.into_string(), "a\nb");
}

#[test]
fn sink_nests_indentations() {
    let mut out = SourceWriter::new();
    out.push_set_spaces(1);
    out.push_set_spaces(4);
    out.write("a");
    out.new_line();
    out.pop_tab();
    out.write("b");
    assert_eq!(out.into_string(), "    a\n b");
}

#[test]
fn dialects() {
    assert_eq!(
        Language::C.dialect(),
        Dialect { generics: false, marshals_arrays: false, explicit_void: true }
    );
    assert_eq!(
        Language::Cxx.dialect(),
        Dialect { generics: true, marshals_arrays: false, explicit_void: false }
    );
    assert_eq!(
        Language::CS.dialect(),
        Dialect { generics: true, marshals_arrays: true, explicit_void: false }
    );
}

#[test]
fn language_traits() {
    assert!(Language::Cxx.has_generics());
    assert!(Language::CS.has_generics());
    assert!(!Language::C.has_generics());
    assert!(Language::CS.marshals_arrays());
    assert!(!Language::C.marshals_arrays());
    assert!(!Language::Cxx.marshals_arrays());
}

#[test]
fn declaration_kinds() {
    assert_eq!(DeclarationType::Struct.to_str(), "struct");
    assert_eq!(DeclarationType::Enum.to_str(), "enum");
    assert_eq!(DeclarationType::Union.to_str(), "union");
}

#[test]
fn clone_copies_the_whole_type() {
    let t = Type::FuncPtr(
        Box::new(Type::ConstPtr(Box::new(Type::Path(GenericPath {
            name: "Foo".to_string(),
            generics: vec![int_type(), Type::Array(Box::new(int_type()), "N".to_string())],
            ctype: Some(DeclarationType::Struct),
        })))),
        vec![
            (Some("a".to_string()), Type::Ref(Box::new(int_type()))),
            (None, Type::MutRef(Box::new(Type::Ptr(Box::new(int_type()))))),
        ],
    );
    assert_eq!(t.clone(), t);
}

#[test]
fn empty_declaration() {
    let decl = CDecl::new();
    assert!(decl.declarators.is_empty());
    assert!(decl.base.is_none());
}

#[test]
fn declarators_of_a_pointer_to_array() {
    let t = Type::ConstPtr(Box::new(Type::Array(Box::new(int_type()), "4".to_string())));
    let decl = CDecl::from_type(&t);
    assert_eq!(
        decl.declarators,
        vec![CDeclarator::Ptr(false), CDeclarator::Array("4".to_string())]
    );
    assert_eq!(
        decl.base,
        Some(BaseType {
            is_const: true,
            name: "int".to_string(),
            generic_args: vec![],
            ctype: None
        })
    );
}

#[test]
fn declarators_of_a_function_pointer() {
    let t = Type::FuncPtr(Box::new(int_type()), vec![(Some("a".to_string()), int_type())]);
    let decl = CDecl::from_type(&t);
    assert_eq!(decl.declarators.len(), 2);
    assert_eq!(decl.declarators[0], CDeclarator::Ptr(false));
    assert_eq!(
        decl.declarators[1],
        CDeclarator::Func(vec![(Some("a".to_string()), CDecl::from_type(&int_type()))], false)
    );
    assert!(decl.declarators[0].is_ptr());
    assert!(decl.declarators[1].is_ptr());
    assert!(CDeclarator::Ref.is_ptr());
    assert!(!CDeclarator::Array("1".to_string()).is_ptr());
}

#[test]
fn declarators_of_a_function() {
    let f = Function {
        name: "f".to_string(),
        args: vec![("a".to_string(), Type::Ptr(Box::new(int_type())))],
        ret: Type::Ptr(Box::new(int_type())),
    };
    let decl = CDecl::from_func(&f, true);
    assert_eq!(decl.declarators.len(), 2);
    assert_eq!(
        decl.declarators[0],
        CDeclarator::Func(
            vec![(Some("a".to_string()), CDecl::from_type(&Type::Ptr(Box::new(int_type()))))],
            true
        )
    );
    assert_eq!(decl.declarators[1], CDeclarator::Ptr(false));
}

#[test]
fn base_type_of_a_named_type() {
    let t = Type::Ref(Box::new(Type::Path(GenericPath {
        name: "Foo".to_string(),
        generics: vec![int_type()],
        ctype: Some(DeclarationType::Union),
    })));
    let decl = CDecl::from_type(&t);
    assert_eq!(decl.declarators, vec![CDeclarator::Ref]);
    assert_eq!(
        decl.base,
        Some(BaseType {
            is_const: true,
            name: "Foo".to_string(),
            generic_args: vec![int_type()],
            ctype: Some(DeclarationType::Union)
        })
    );
}

#[test]
fn building_continues_a_declaration() {
    let mut decl = CDecl::new();
    decl.declarators.push(CDeclarator::Ref);
    decl.build_type(&Type::Ptr(Box::new(int_type())), true);
    assert_eq!(decl.declarators, vec![CDeclarator::Ref, CDeclarator::Ptr(true)]);
    let mut out = SourceWriter::new();
    decl.write(&mut out, Some("x"), false, Language::Cxx);
    assert_eq!(out.into_string(), "int *const &x");
}

#[test]
fn writing_a_built_declaration() {
    let f = Function { name: "main".to_string(), args: vec![], ret: int_type() };
    let decl = CDecl::from_func(&f, false);
    let mut out = SourceWriter::new();
    out.write("extern ");
    decl.write(&mut out, Some("main"), true, Language::C);
    out.write(";");
    assert_eq!(out.into_string(), "extern int main(void);");
}

#[test]
fn function_returning_array_is_grouped() {
    let decl = CDecl {
        declarators: vec![CDeclarator::Func(vec![], false), CDeclarator::Array("4".to_string())],
        base: Some(BaseType {
            is_const: false,
            name: "int".to_string(),
            generic_args: vec![],
            ctype: None,
        }),
    };
    let mut out = SourceWriter::new();
    decl.write(&mut out, Some("f"), false, Language::C);
    assert_eq!(out.into_string(), "int (f())[4]");
}

#[test]
fn validity_of_declarations() {
    assert!(!CDecl::new().valid_for(Language::Cxx));
    let plain = CDecl::from_type(&Type::Ptr(Box::new(int_type())));
    assert!(plain.valid_for(Language::C));
    let generic = Type::Path(GenericPath {
        name: "Vec".to_string(),
        generics: vec![int_type()],
        ctype: None,
    });
    let decl = CDecl::from_type(&generic);
    assert!(decl.valid_for(Language::Cxx));
    assert!(decl.valid_for(Language::CS));
    assert!(!decl.valid_for(Language::C));
    let func = CDeclarator::Func(vec![(None, decl)], false);
    assert!(func.valid_for(Language::Cxx));
    assert!(!func.valid_for(Language::C));
    assert!(CDeclarator::Ptr(true).valid_for(Language::C));
    let around = CDecl {
        declarators: vec![CDeclarator::Ptr(false), func],
        base: Some(BaseType {
            is_const: false,
            name: "int".to_string(),
            generic_args: vec![],
            ctype: None,
        }),
    };
    assert!(around.valid_for(Language::CS));
    assert!(!around.valid_for(Language::C));
    let unfinished = CDecl {
        declarators: vec![CDeclarator::Func(vec![(None, CDecl::new())], false)],
        base: Some(BaseType {
            is_const: false,
            name: "int".to_string(),
            generic_args: vec![],
            ctype: None,
        }),
    };
    assert!(!unfinished.valid_for(Language::Cxx));
}
