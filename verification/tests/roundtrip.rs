use cdecl::{write_field, Language, SourceWriter, Type};

#[derive(Debug, Clone, PartialEq)]
enum Part {
    Ptr(bool),
    Ref,
    Array(String),
    Func(Vec<(Option<String>, Type)>),
}

struct Reader<'a> {
    text: &'a [u8],
    pos: usize,
}

impl<'a> Reader<'a> {
    fn peek(&self) -> Option<u8> {
        self.text.get(self.pos).copied()
    }

    fn eat(&mut self, word: &str) -> bool {
        if self.text[self.pos..].starts_with(word.as_bytes()) {
            self.pos += word.len();
            true
        } else {
            false
        }
    }

    fn word(&mut self) -> String {
        let start = self.pos;
        while let Some(c) = self.peek() {
            if c.is_ascii_alphanumeric() || c == b'_' {
                self.pos += 1;
            } else {
                break;
            }
        }
        String::from_utf8(self.text[start..self.pos].to_vec()).unwrap()
    }

    /// The parts of a declarator, from the one nearest to the declared name
    /// outwards, and the declared name.
    fn declarator(&mut self, name: &mut Option<String>) -> Vec<Part> {
        let mut marks = Vec::new();
        loop {
            if self.eat("*const ") {
                marks.push(Part::Ptr(true));
            } else if self.eat("*") {
                marks.push(Part::Ptr(false));
            } else if self.eat("&") {
                marks.push(Part::Ref);
            } else {
                break;
            }
        }
        let mut parts = Vec::new();
        if self.eat("(") {
            parts = self.declarator(name);
            assert!(self.eat(")"), "a group is closed");
        } else {
            let ident = self.word();
            if !ident.is_empty() {
                *name = Some(ident);
            }
        }
        loop {
            if self.eat("[") {
                let len = self.word();
                assert!(self.eat("]"), "an array is closed");
                parts.push(Part::Array(len));
            } else if self.eat("(") {
                let mut params = Vec::new();
                if !self.eat(")") && !self.eat("void)") {
                    loop {
                        params.push(self.declaration());
                        if self.eat(")") {
                            break;
                        }
                        assert!(self.eat(", "), "parameters are separated");
                    }
                }
                parts.push(Part::Func(params));
            } else {
                break;
            }
        }
        marks.reverse();
        parts.extend(marks);
        parts
    }

    fn declaration(&mut self) -> (Option<String>, Type) {
        let is_const = self.eat("const ");
        let base = self.word();
        self.eat(" ");
        let mut name = None;
        let parts = self.declarator(&mut name);
        let (t, _) = type_of(&parts, 0, &base, is_const);
        (name, t)
    }
}

/// The type that the parts from the `i`-th on declare, and whether it is
/// constant.
fn type_of(parts: &[Part], i: usize, base: &str, base_const: bool) -> (Type, bool) {
    if i == parts.len() {
        return (Type::Primitive(base.to_string()), base_const);
    }
    match &parts[i] {
        Part::Ptr(is_const) => {
            if let Some(Part::Func(params)) = parts.get(i + 1) {
                let (ret, _) = type_of(parts, i + 2, base, base_const);
                (Type::FuncPtr(Box::new(ret), params.clone()), *is_const)
            } else {
                let (inner, inner_const) = type_of(parts, i + 1, base, base_const);
                if inner_const {
                    (Type::ConstPtr(Box::new(inner)), *is_const)
                } else {
                    (Type::Ptr(Box::new(inner)), *is_const)
                }
            }
        }
        Part::Ref => {
            let (inner, inner_const) = type_of(parts, i + 1, base, base_const);
            if inner_const {
                (Type::Ref(Box::new(inner)), false)
            } else {
                (Type::MutRef(Box::new(inner)), false)
            }
        }
        Part::Array(len) => {
            let (inner, inner_const) = type_of(parts, i + 1, base, base_const);
            (Type::Array(Box::new(inner), len.clone()), inner_const)
        }
        Part::Func(_) => panic!("a function is no type"),
    }
}

fn read(text: &str) -> (Option<String>, Type) {
    let mut reader = Reader { text: text.as_bytes(), pos: 0 };
    let read = reader.declaration();
    assert_eq!(reader.pos, text.len(), "all of {:?} is read", text);
    read
}

/// Whether a declaration of the type has a place for `const`.
fn takes_const(t: &Type) -> bool {
    match t {
        Type::Array(inner, _) => takes_const(inner),
        Type::Ref(_) | Type::MutRef(_) => false,
        _ => true,
    }
}

/// The types of C that are nested `depth` deep at most.
fn types(depth: usize) -> Vec<Type> {
    let mut all = vec![Type::Primitive("int".to_string()), Type::Primitive("char".to_string())];
    if depth == 0 {
        return all;
    }
    let inner = types(depth - 1);
    let params = types(if depth > 1 { 1 } else { 0 });
    for t in &inner {
        all.push(Type::Ptr(Box::new(t.clone())));
        if takes_const(t) {
            all.push(Type::ConstPtr(Box::new(t.clone())));
        }
        all.push(Type::Array(Box::new(t.clone()), "4".to_string()));
        all.push(Type::FuncPtr(Box::new(t.clone()), vec![]));
    }
    for (k, t) in inner.iter().enumerate() {
        let first = params[k % params.len()].clone();
        let second = params[(k + 1) % params.len()].clone();
        all.push(Type::FuncPtr(
            Box::new(t.clone()),
            vec![(Some("a".to_string()), first), (Some("b".to_string()), second)],
        ));
    }
    all
}

fn render(t: &Type, lang: Language) -> String {
    let mut out = SourceWriter::new();
    write_field(&mut out, t, "x", lang);
    out.into_string()
}

#[test]
fn reader_reads_the_right_left_rule() {
    let (name, t) = read("const int (*x)[4]");
    assert_eq!(name, Some("x".to_string()));
    assert_eq!(
        t,
        Type::ConstPtr(Box::new(Type::Array(
            Box::new(Type::Primitive("int".to_string())),
            "4".to_string()
        )))
    );
    let (_, u) = read("int *x[4]");
    assert_eq!(
        u,
        Type::Array(
            Box::new(Type::Ptr(Box::new(Type::Primitive("int".to_string())))),
            "4".to_string()
        )
    );
}

#[test]
fn declarations_read_back_as_the_type() {
    let all = types(3);
    assert!(all.len() > 200);
    for t in &all {
        for lang in [Language::C, Language::Cxx] {
            let text = render(t, lang);
            let (name, back) = read(&text);
            assert_eq!(name, Some("x".to_string()), "in {:?}", text);
            assert_eq!(&back, t, "in {:?}", text);
        }
    }
}

#[test]
fn references_read_back_as_the_type() {
    for t in types(2) {
        if !takes_const(&t) {
            continue;
        }
        let shared = Type::Ref(Box::new(t.clone()));
        let (_, back) = read(&render(&shared, Language::Cxx));
        assert_eq!(back, shared);
        let unique = Type::MutRef(Box::new(t.clone()));
        let (_, back) = read(&render(&unique, Language::Cxx));
        assert_eq!(back, unique);
    }
}

/// The number of pointers to a constant on the way to the base type.
fn const_pointers(t: &Type) -> usize {
    match t {
        Type::ConstPtr(inner) => 1 + const_pointers(inner),
        Type::Ptr(inner) | Type::Array(inner, _) => const_pointers(inner),
        _ => 0,
    }
}

/// Whether the type is a primitive type under pointers and arrays.
fn pointer_chain(t: &Type) -> bool {
    match t {
        Type::Primitive(_) => true,
        Type::ConstPtr(inner) | Type::Ptr(inner) | Type::Array(inner, _) => pointer_chain(inner),
        _ => false,
    }
}

/// Whether every pointer to a function in the type has parameters.
fn filled(t: &Type) -> bool {
    match t {
        Type::Primitive(_) | Type::Path(_) => true,
        Type::ConstPtr(inner)
        | Type::Ptr(inner)
        | Type::Ref(inner)
        | Type::MutRef(inner)
        | Type::Array(inner, _) => filled(inner),
        Type::FuncPtr(ret, args) => {
            !args.is_empty() && filled(ret) && args.iter().all(|(_, t)| filled(t))
        }
    }
}

#[test]
fn const_is_written_once_for_each_pointer_to_a_constant() {
    let mut seen = 0;
    for t in types(3) {
        if !pointer_chain(&t) {
            continue;
        }
        seen += 1;
        for lang in [Language::C, Language::Cxx, Language::CS] {
            let text = render(&t, lang);
            assert_eq!(text.matches("const").count(), const_pointers(&t), "in {:?}", text);
        }
    }
    assert!(seen > 20);
}

#[test]
fn parentheses_are_balanced() {
    for t in types(3) {
        let text = render(&t, Language::C);
        let mut depth = 0i32;
        for c in text.chars() {
            if c == '(' {
                depth += 1;
            }
            if c == ')' {
                depth -= 1;
            }
            assert!(depth >= 0, "in {:?}", text);
        }
        assert_eq!(depth, 0, "in {:?}", text);
    }
}

#[test]
fn pointers_and_arrays_write_parentheses_for_groups_alone() {
    let int = Type::Primitive("int".to_string());
    let array_of_pointers = Type::Array(Box::new(Type::Ptr(Box::new(int.clone()))), "4".to_string());
    assert_eq!(render(&array_of_pointers, Language::C).matches('(').count(), 0);
    let pointer_to_array = Type::Ptr(Box::new(Type::Array(Box::new(int.clone()), "4".to_string())));
    assert_eq!(render(&pointer_to_array, Language::C).matches('(').count(), 1);
    let nested = Type::Ptr(Box::new(Type::Array(Box::new(pointer_to_array), "2".to_string())));
    assert_eq!(render(&nested, Language::C), "int (*(*x)[2])[4]");
    assert_eq!(render(&nested, Language::C).matches('(').count(), 2);
    assert_eq!(render(&nested, Language::C).matches(')').count(), 2);
}

#[test]
fn void_stands_in_for_an_empty_list_alone() {
    let mut seen = 0;
    for t in types(3) {
        let f = cdecl::Function {
            name: "f".to_string(),
            args: vec![("p".to_string(), t.clone())],
            ret: t.clone(),
        };
        let mut with = SourceWriter::new();
        cdecl::write_func(&mut with, &f, false, true, Language::C);
        let mut without = SourceWriter::new();
        cdecl::write_func(&mut without, &f, false, false, Language::C);
        let (with, without) = (with.into_string(), without.into_string());
        if filled(&t) {
            seen += 1;
            assert_eq!(with, without);
        } else {
            assert_ne!(with, without);
            assert_eq!(with.replace("(void)", "()"), without);
        }
    }
    assert!(seen > 20);
}

#[test]
fn function_without_parameters_differs_in_its_list_alone() {
    for t in types(2) {
        if !filled(&t) {
            continue;
        }
        let f = cdecl::Function { name: "f".to_string(), args: vec![], ret: t.clone() };
        for lang in [Language::C, Language::Cxx, Language::CS] {
            for vertical in [false, true] {
                let mut with = SourceWriter::new();
                cdecl::write_func(&mut with, &f, vertical, true, lang);
                let mut without = SourceWriter::new();
                cdecl::write_func(&mut without, &f, vertical, false, lang);
                let (with, without) = (with.into_string(), without.into_string());
                assert_eq!(with.matches("f(void)").count(), 1, "in {:?}", with);
                assert_eq!(with.replacen("f(void)", "f()", 1), without);
            }
        }
    }
}
