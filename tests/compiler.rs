use pyo3_stub_gen_derive::attr::{parse_options, AttrArg};
use pyo3_stub_gen_derive::class::{compile_class, StructDecl};
use pyo3_stub_gen_derive::declaration::{compile, pyclass, pyclass_enum, pyfunction, pymethods, Declaration};
use pyo3_stub_gen_derive::enumeration::{EnumDecl, VariantDecl};
use pyo3_stub_gen_derive::function::{apply_overrides, function_base};
use pyo3_stub_gen_derive::member::{extract_members, field_markers, FieldDecl};
use pyo3_stub_gen_derive::methods::{
    callable_params, marker_for, method_name, strip_prefix, ImplDecl, MethodDecl, MethodMarker,
};
use pyo3_stub_gen_derive::model::{
    is_word, CompileError, Descriptor, EnumError, ExposureOptions, Flag, MemberError, MethodError, MethodKind,
    PassingKind, SignatureError,
};
use pyo3_stub_gen_derive::signature::{
    analyze_signature, sig_entry_of, signature_entries_of, signature_from_entries, signature_from_params, type_of_param, CallableDecl,
    DefaultValue, SigEntry, SigItem, TypedArg,
};

fn s(x: &str) -> String {
    x.to_string()
}

fn flag(k: &str) -> AttrArg {
    AttrArg { key: s(k), value: None }
}

fn kv(k: &str, v: &str) -> AttrArg {
    AttrArg { key: s(k), value: Some(s(v)) }
}

fn param(name: &str, default: Option<&str>) -> SigItem {
    SigItem::Param {
        name: s(name),
        type_signature: s("int"),
        default: default.map(|d| DefaultValue::Literal(s(d))),
    }
}

fn callable(name: &str, params: Vec<SigItem>) -> CallableDecl {
    CallableDecl { name: s(name), params, return_type: s("None"), doc: s("") }
}

fn field(name: &str, get: bool, set: bool) -> FieldDecl {
    FieldDecl { name: s(name), type_signature: Some(s("int")), get, set }
}

fn method(name: &str, marker: MethodMarker, has_receiver: bool) -> MethodDecl {
    MethodDecl { callable: callable(name, vec![]), has_receiver, marker, explicit_name: None }
}

fn no_options() -> ExposureOptions {
    ExposureOptions { renamed_name: None, module: None, flags: vec![] }
}

#[test]
fn duplicate_attribute_key_is_refused() {
    let r = parse_options(&vec![kv("name", "A"), kv("name", "B")]);
    assert_eq!(r, Err(CompileError::DuplicateOption(s("name"))));
}

#[test]
fn unknown_attribute_key_is_refused() {
    let r = parse_options(&vec![flag("mapping"), flag("weakref")]);
    assert_eq!(r, Err(CompileError::UnrecognizedOption(s("weakref"))));
}

#[test]
fn string_key_without_value_is_refused() {
    let r = parse_options(&vec![flag("module")]);
    assert_eq!(r, Err(CompileError::UnrecognizedOption(s("module"))));
}

#[test]
fn flag_with_value_is_refused() {
    let r = parse_options(&vec![kv("frozen", "yes")]);
    assert_eq!(r, Err(CompileError::UnrecognizedOption(s("frozen"))));
}

#[test]
fn attribute_arguments_decode() {
    let r = parse_options(&vec![
        flag("mapping"),
        kv("module", "my_module"),
        kv("name", "Placeholder"),
        flag("get_all"),
    ]);
    assert_eq!(
        r,
        Ok(ExposureOptions {
            renamed_name: Some(s("Placeholder")),
            module: Some(s("my_module")),
            flags: vec![Flag::Mapping, Flag::GetAll],
        })
    );
}

#[test]
fn empty_attribute_arguments_decode() {
    assert_eq!(parse_options(&vec![]), Ok(no_options()));
}

#[test]
fn word_comparison() {
    assert!(is_word(&s("name"), "name"));
    assert!(!is_word(&s("names"), "name"));
}

#[test]
fn mixed_signature_kinds() {
    let items = vec![
        param("a", None),
        param("b", Some("1")),
        SigItem::VarArgs { name: s("args"), type_signature: s("int") },
        param("c", None),
        SigItem::VarKwargs { name: s("kwargs"), type_signature: s("int") },
    ];
    let ps = analyze_signature(&items).unwrap();
    let got: Vec<(String, PassingKind, bool, Option<String>)> = ps
        .iter()
        .map(|p| (p.name.clone(), p.passing_kind, p.has_default, p.default_repr.clone()))
        .collect();
    assert_eq!(
        got,
        vec![
            (s("a"), PassingKind::PositionalOrKeyword, false, None),
            (s("b"), PassingKind::PositionalOrKeyword, true, Some(s("1"))),
            (s("args"), PassingKind::VarPositional, false, None),
            (s("c"), PassingKind::KeywordOnly, false, None),
            (s("kwargs"), PassingKind::VarKeyword, false, None),
        ]
    );
}

#[test]
fn parameters_keep_declaration_order() {
    let items = vec![
        param("z", None),
        param("y", None),
        SigItem::KeywordOnlyMarker,
        param("x", Some("0")),
        param("w", Some("1")),
    ];
    let ps = analyze_signature(&items).unwrap();
    let names: Vec<String> = ps.iter().map(|p| p.name.clone()).collect();
    assert_eq!(names, vec![s("z"), s("y"), s("x"), s("w")]);
    assert_eq!(ps[2].passing_kind, PassingKind::KeywordOnly);
    assert_eq!(ps[1].passing_kind, PassingKind::PositionalOrKeyword);
}

#[test]
fn positional_only_marker() {
    let items = vec![param("a", None), param("b", None), SigItem::PositionalOnlyMarker, param("c", None)];
    let ps = analyze_signature(&items).unwrap();
    assert_eq!(ps.len(), 3);
    assert_eq!(ps[0].passing_kind, PassingKind::PositionalOnly);
    assert_eq!(ps[1].passing_kind, PassingKind::PositionalOnly);
    assert_eq!(ps[2].passing_kind, PassingKind::PositionalOrKeyword);
}

#[test]
fn required_after_default_is_refused() {
    let items = vec![param("a", Some("1")), param("b", None)];
    assert_eq!(
        analyze_signature(&items),
        Err(SignatureError::DefaultOrderingViolation(s("b")))
    );
}

#[test]
fn required_keyword_only_after_default_is_refused() {
    let items = vec![SigItem::KeywordOnlyMarker, param("a", Some("1")), param("b", None)];
    assert_eq!(
        analyze_signature(&items),
        Err(SignatureError::DefaultOrderingViolation(s("b")))
    );
}

#[test]
fn required_keyword_only_after_positional_default_is_accepted() {
    let items = vec![param("a", Some("1")), SigItem::KeywordOnlyMarker, param("b", None)];
    let ps = analyze_signature(&items).unwrap();
    assert_eq!(ps[1].passing_kind, PassingKind::KeywordOnly);
}

#[test]
fn duplicate_parameter_name_is_refused() {
    let items = vec![param("a", None), SigItem::VarArgs { name: s("a"), type_signature: s("int") }];
    assert_eq!(analyze_signature(&items), Err(SignatureError::DuplicateName(s("a"))));
}

#[test]
fn misplaced_markers_are_refused() {
    let items = vec![param("a", None), SigItem::KeywordOnlyMarker, SigItem::PositionalOnlyMarker];
    assert_eq!(analyze_signature(&items), Err(SignatureError::OrderingViolation(s("/"))));
    let items = vec![SigItem::VarKwargs { name: s("kw"), type_signature: s("int") }, param("a", None)];
    assert_eq!(analyze_signature(&items), Err(SignatureError::OrderingViolation(s("a"))));
    let items = vec![SigItem::PositionalOnlyMarker, param("a", None)];
    assert_eq!(analyze_signature(&items), Err(SignatureError::OrderingViolation(s("/"))));
    let items = vec![SigItem::KeywordOnlyMarker, SigItem::VarArgs { name: s("args"), type_signature: s("int") }];
    assert_eq!(analyze_signature(&items), Err(SignatureError::OrderingViolation(s("args"))));
}

#[test]
fn complex_default_is_a_placeholder() {
    let items = vec![SigItem::Param {
        name: s("a"),
        type_signature: s("list[int]"),
        default: Some(DefaultValue::Expression),
    }];
    let ps = analyze_signature(&items).unwrap();
    assert!(ps[0].has_default);
    assert_eq!(ps[0].default_repr, Some(s("...")));
    assert_eq!(ps[0].type_signature, s("list[int]"));
}

#[test]
fn empty_signature() {
    assert_eq!(analyze_signature(&vec![]), Ok(vec![]));
}

#[test]
fn members_are_the_marked_fields() {
    let d = StructDecl {
        name: s("PyPlaceholder"),
        doc: s("A placeholder."),
        fields: vec![
            field("name", true, false),
            field("ndim", true, true),
            field("custom_latex", false, false),
            field("description", false, true),
        ],
        constructor: None,
    };
    let c = compile_class(&d, &no_options()).unwrap();
    let got: Vec<(String, bool, bool)> =
        c.members.iter().map(|m| (m.name.clone(), m.readable, m.writable)).collect();
    assert_eq!(
        got,
        vec![(s("name"), true, false), (s("ndim"), true, true), (s("description"), false, true)]
    );
    assert_eq!(c.exposed_name, s("PyPlaceholder"));
    assert_eq!(c.source_identity, s("PyPlaceholder"));
    assert_eq!(c.doc, s("A placeholder."));
    assert_eq!(c.constructor, None);
    assert_eq!(compile_class(&d, &no_options()), Ok(c));
}

#[test]
fn get_all_exposes_every_field() {
    let fields = vec![field("a", false, false), field("b", false, false)];
    let ms = extract_members(&fields, true, false).unwrap();
    assert_eq!(ms.len(), 2);
    assert!(ms.iter().all(|m| m.readable && !m.writable));
}

#[test]
fn untyped_readable_field_is_any() {
    let fields = vec![FieldDecl { name: s("a"), type_signature: None, get: true, set: false }];
    let ms = extract_members(&fields, false, false).unwrap();
    assert_eq!(ms[0].type_signature, s("typing.Any"));
}

#[test]
fn untyped_write_only_field_is_refused() {
    let fields = vec![field("a", true, false), FieldDecl { name: s("b"), type_signature: None, get: false, set: true }];
    assert_eq!(extract_members(&fields, false, false), Err(MemberError::MissingType(s("b"))));
}

#[test]
fn class_is_renamed_and_placed() {
    let d = StructDecl {
        name: s("PyPlaceholder"),
        doc: s(""),
        fields: vec![field("name", true, false)],
        constructor: Some(callable("__new__", vec![param("name", None)])),
    };
    let c = pyclass(&d, &vec![flag("mapping"), kv("module", "my_module"), kv("name", "Placeholder")]).unwrap();
    assert_eq!(c.exposed_name, s("Placeholder"));
    assert_eq!(c.module, Some(s("my_module")));
    assert_eq!(c.source_identity, s("PyPlaceholder"));
    assert_eq!(c.constructor.unwrap().parameters.len(), 1);
}

#[test]
fn class_with_bad_constructor_is_refused() {
    let d = StructDecl {
        name: s("P"),
        doc: s(""),
        fields: vec![],
        constructor: Some(callable("__new__", vec![param("a", Some("1")), param("b", None)])),
    };
    assert_eq!(
        pyclass(&d, &vec![]),
        Err(CompileError::Signature(SignatureError::DefaultOrderingViolation(s("b"))))
    );
    assert_eq!(pyclass(&d, &vec![flag("slots")]), Err(CompileError::UnrecognizedOption(s("slots"))));
}

#[test]
fn payload_variant_is_refused() {
    let d = EnumDecl {
        name: s("Color"),
        doc: s(""),
        variants: vec![
            VariantDecl { name: s("Red"), has_payload: false },
            VariantDecl { name: s("Custom"), has_payload: true },
        ],
    };
    assert_eq!(
        pyclass_enum(&d, &vec![]),
        Err(CompileError::Enum(EnumError::PayloadVariant(s("Custom"))))
    );
}

#[test]
fn plain_enum_keeps_variants_in_order() {
    let d = EnumDecl {
        name: s("Color"),
        doc: s("Colors."),
        variants: vec![
            VariantDecl { name: s("Red"), has_payload: false },
            VariantDecl { name: s("Green"), has_payload: false },
            VariantDecl { name: s("Blue"), has_payload: false },
        ],
    };
    let e = pyclass_enum(&d, &vec![kv("name", "Colour")]).unwrap();
    let got: Vec<(String, usize)> = e.variants.iter().map(|v| (v.name.clone(), v.value)).collect();
    assert_eq!(got, vec![(s("Red"), 0), (s("Green"), 1), (s("Blue"), 2)]);
    assert_eq!(e.exposed_name, s("Colour"));
    assert_eq!(e.doc, s("Colors."));
}

#[test]
fn setter_without_getter_is_refused() {
    let d = ImplDecl { target: s("P"), methods: vec![method("set_x", MethodMarker::Setter, true)] };
    assert_eq!(
        pymethods(&d),
        Err(CompileError::Method(MethodError::SetterWithoutGetter(s("x"))))
    );
}

#[test]
fn getter_and_setter_merge() {
    let d = ImplDecl {
        target: s("P"),
        methods: vec![
            method("get_x", MethodMarker::Getter, true),
            method("y", MethodMarker::Getter, true),
            method("set_x", MethodMarker::Setter, true),
        ],
    };
    let b = pymethods(&d).unwrap();
    assert!(b.methods.is_empty());
    assert_eq!(b.properties.len(), 2);
    assert_eq!(b.properties[0].name, s("x"));
    assert!(b.properties[0].readable && b.properties[0].writable);
    assert_eq!(b.properties[1].name, s("y"));
    assert!(b.properties[1].readable && !b.properties[1].writable);
}

#[test]
fn method_kinds_follow_shape() {
    let d = ImplDecl {
        target: s("P"),
        methods: vec![
            method("f", MethodMarker::Plain, true),
            method("g", MethodMarker::Plain, false),
            method("h", MethodMarker::ClassMethod, false),
            method("__new__", MethodMarker::New, false),
        ],
    };
    let b = pymethods(&d).unwrap();
    let kinds: Vec<MethodKind> = b.methods.iter().map(|m| m.kind).collect();
    assert_eq!(kinds, vec![MethodKind::Instance, MethodKind::Static, MethodKind::Class, MethodKind::New]);
    assert_eq!(b.target_identity, s("P"));
}

#[test]
fn method_signature_error_is_reported() {
    let mut m = method("f", MethodMarker::Plain, true);
    m.callable.params = vec![param("a", None), param("a", None)];
    let d = ImplDecl { target: s("P"), methods: vec![m] };
    assert_eq!(
        pymethods(&d),
        Err(CompileError::Signature(SignatureError::DuplicateName(s("a"))))
    );
}

#[test]
fn function_overrides_name_and_module() {
    let d = callable("add", vec![param("a", None), param("b", Some("1"))]);
    let f = pyfunction(&vec![kv("name", "plus"), kv("module", "m")], &d).unwrap();
    assert_eq!(f.callable.name, s("plus"));
    assert_eq!(f.module, Some(s("m")));
    assert_eq!(f.callable.parameters.len(), 2);
    let base = function_base(&d).unwrap();
    assert_eq!(base.callable.name, s("add"));
    assert_eq!(base.module, None);
    let same = apply_overrides(base.clone(), &no_options());
    assert_eq!(same, base);
}

#[test]
fn function_signature_is_checked_before_arguments() {
    let d = callable("f", vec![param("a", Some("1")), param("b", None)]);
    assert_eq!(
        pyfunction(&vec![flag("bogus")], &d),
        Err(CompileError::Signature(SignatureError::DefaultOrderingViolation(s("b"))))
    );
    let ok = callable("f", vec![]);
    assert_eq!(pyfunction(&vec![flag("bogus")], &ok), Err(CompileError::UnrecognizedOption(s("bogus"))));
}

#[test]
fn compile_dispatches_on_shape() {
    let options = ExposureOptions { renamed_name: Some(s("Shade")), module: None, flags: vec![] };
    let d = Declaration::Enum(EnumDecl {
        name: s("Color"),
        doc: s(""),
        variants: vec![VariantDecl { name: s("Red"), has_payload: false }],
    });
    match compile(&d, &options) {
        Ok(Descriptor::Enum(e)) => {
            assert_eq!(e.exposed_name, s("Shade"));
            assert_eq!(e.variants.len(), 1);
        }
        other => panic!("unexpected result {:?}", other),
    }
    let f = Declaration::Function(callable("f", vec![param("a", None), param("a", None)]));
    assert_eq!(
        compile(&f, &options),
        Err(CompileError::Signature(SignatureError::DuplicateName(s("a"))))
    );
}

fn typed(name: &str, ty: &str) -> TypedArg {
    TypedArg { name: s(name), type_signature: s(ty) }
}

#[test]
fn explicit_signature_entries_take_declared_types() {
    let args = vec![typed("a", "i64"), typed("args", "Vec<i64>"), typed("c", "String")];
    let entries = vec![
        SigEntry::Named { name: s("a"), default: None },
        SigEntry::Named { name: s("b"), default: Some(DefaultValue::Literal(s("1"))) },
        SigEntry::Star(Some(s("args"))),
        SigEntry::Named { name: s("c"), default: None },
        SigEntry::DoubleStar(s("kwargs")),
    ];
    let items = signature_from_entries(&entries, &args);
    assert_eq!(
        items,
        vec![
            SigItem::Param { name: s("a"), type_signature: s("i64"), default: None },
            SigItem::Param {
                name: s("b"),
                type_signature: s("typing.Any"),
                default: Some(DefaultValue::Literal(s("1"))),
            },
            SigItem::VarArgs { name: s("args"), type_signature: s("Vec<i64>") },
            SigItem::Param { name: s("c"), type_signature: s("String"), default: None },
            SigItem::VarKwargs { name: s("kwargs"), type_signature: s("typing.Any") },
        ]
    );
    let markers = signature_from_entries(&vec![SigEntry::Slash, SigEntry::Star(None)], &args);
    assert_eq!(markers, vec![SigItem::PositionalOnlyMarker, SigItem::KeywordOnlyMarker]);
}

#[test]
fn first_parameter_of_a_name_gives_its_type() {
    let args = vec![typed("a", "i64"), typed("a", "u8")];
    assert_eq!(type_of_param(&args, &s("a")), s("i64"));
    assert_eq!(type_of_param(&args, &s("z")), s("typing.Any"));
}

#[test]
fn plain_parameters_become_positional_items() {
    let items = signature_from_params(&vec![typed("x", "f64"), typed("y", "f64")]);
    assert_eq!(
        items,
        vec![
            SigItem::Param { name: s("x"), type_signature: s("f64"), default: None },
            SigItem::Param { name: s("y"), type_signature: s("f64"), default: None },
        ]
    );
}

#[test]
fn first_marker_attribute_decides() {
    assert_eq!(marker_for(&vec![s("doc"), s("getter"), s("setter")]), MethodMarker::Getter);
    assert_eq!(marker_for(&vec![s("classmethod")]), MethodMarker::ClassMethod);
    assert_eq!(marker_for(&vec![s("new")]), MethodMarker::New);
    assert_eq!(marker_for(&vec![s("doc"), s("setter")]), MethodMarker::Setter);
    assert_eq!(marker_for(&vec![s("doc")]), MethodMarker::Plain);
    assert_eq!(marker_for(&vec![]), MethodMarker::Plain);
}

#[test]
fn explicit_accessor_names_pair() {
    let mut g = method("read_value", MethodMarker::Getter, true);
    g.explicit_name = Some(s("value"));
    let mut st = method("write_value", MethodMarker::Setter, true);
    st.explicit_name = Some(s("value"));
    let b = pymethods(&ImplDecl { target: s("P"), methods: vec![g, st] }).unwrap();
    assert_eq!(b.properties.len(), 1);
    assert_eq!(b.properties[0].name, s("value"));
    assert!(b.properties[0].readable && b.properties[0].writable);
}

#[test]
fn exposed_method_names() {
    assert_eq!(method_name(&method("get_x", MethodMarker::Getter, true)), s("x"));
    assert_eq!(method_name(&method("set_x", MethodMarker::Setter, true)), s("x"));
    assert_eq!(method_name(&method("get_x", MethodMarker::Plain, true)), s("get_x"));
    assert_eq!(method_name(&method("width", MethodMarker::Getter, true)), s("width"));
    assert_eq!(strip_prefix(&s("get_"), "get_"), s(""));
    assert_eq!(strip_prefix(&s("ge"), "get_"), s("ge"));
}

#[test]
fn repeated_method_name_is_refused() {
    let d = ImplDecl {
        target: s("P"),
        methods: vec![method("f", MethodMarker::Plain, true), method("f", MethodMarker::Plain, false)],
    };
    assert_eq!(pymethods(&d), Err(CompileError::Method(MethodError::DuplicateName(s("f")))));
    let d = ImplDecl {
        target: s("P"),
        methods: vec![method("get_x", MethodMarker::Getter, true), method("x", MethodMarker::Getter, true)],
    };
    assert_eq!(pymethods(&d), Err(CompileError::Method(MethodError::DuplicateName(s("x")))));
}

#[test]
fn repeated_field_name_is_refused() {
    let fields = vec![field("a", true, false), field("a", false, false)];
    assert_eq!(extract_members(&fields, false, false), Err(MemberError::DuplicateName(s("a"))));
}

#[test]
fn repeated_variant_name_is_refused() {
    let d = EnumDecl {
        name: s("Color"),
        doc: s(""),
        variants: vec![
            VariantDecl { name: s("Red"), has_payload: false },
            VariantDecl { name: s("Red"), has_payload: false },
        ],
    };
    assert_eq!(
        pyclass_enum(&d, &vec![]),
        Err(CompileError::Enum(EnumError::DuplicateVariant(s("Red"))))
    );
}

#[test]
fn signature_pieces_are_read() {
    let t = |xs: &[&str]| xs.iter().map(|x| s(x)).collect::<Vec<String>>();
    assert_eq!(sig_entry_of(&t(&["/"])), SigEntry::Slash);
    assert_eq!(sig_entry_of(&t(&["*"])), SigEntry::Star(None));
    assert_eq!(sig_entry_of(&t(&["*", "args"])), SigEntry::Star(Some(s("args"))));
    assert_eq!(sig_entry_of(&t(&["*", "*", "kwargs"])), SigEntry::DoubleStar(s("kwargs")));
    assert_eq!(sig_entry_of(&t(&["a"])), SigEntry::Named { name: s("a"), default: None });
    assert_eq!(
        sig_entry_of(&t(&["b", "=", "1"])),
        SigEntry::Named { name: s("b"), default: Some(DefaultValue::Literal(s("1"))) }
    );
    assert_eq!(
        sig_entry_of(&t(&["c", "=", "vec", "!", "[", "]"])),
        SigEntry::Named { name: s("c"), default: Some(DefaultValue::Expression) }
    );
}

#[test]
fn field_markers_are_read() {
    assert_eq!(field_markers(&vec![s("get"), s("name")]), (true, false));
    assert_eq!(field_markers(&vec![s("set"), s("get")]), (true, true));
    assert_eq!(field_markers(&vec![]), (false, false));
}

#[test]
fn class_method_drops_its_class_parameter() {
    let args = vec![typed("cls", "PyType"), typed("a", "i64")];
    assert_eq!(callable_params(args.clone(), MethodMarker::ClassMethod), vec![typed("a", "i64")]);
    assert_eq!(callable_params(args.clone(), MethodMarker::Plain), args);
    assert_eq!(callable_params(vec![], MethodMarker::ClassMethod), vec![]);
}

#[test]
fn default_ordering_takes_precedence_over_marker_order() {
    let items = vec![SigItem::PositionalOnlyMarker, param("a", Some("1")), param("b", None)];
    assert_eq!(
        analyze_signature(&items),
        Err(SignatureError::DefaultOrderingViolation(s("b")))
    );
}

#[test]
fn repeated_name_takes_precedence_over_default_ordering() {
    let items = vec![param("a", Some("1")), param("b", None), param("a", None)];
    assert_eq!(analyze_signature(&items), Err(SignatureError::DuplicateName(s("a"))));
}

#[test]
fn accessors_are_listed_as_properties_only() {
    let d = ImplDecl {
        target: s("P"),
        methods: vec![
            method("get_x", MethodMarker::Getter, true),
            method("area", MethodMarker::Plain, true),
            method("set_x", MethodMarker::Setter, true),
        ],
    };
    let b = pymethods(&d).unwrap();
    let names: Vec<String> = b.methods.iter().map(|m| m.callable.name.clone()).collect();
    assert_eq!(names, vec![s("area")]);
    assert_eq!(b.properties.len(), 1);
    assert_eq!(b.properties[0].name, s("x"));
}

#[test]
fn signature_list_is_split_at_commas() {
    let t: Vec<String> = ["a", ",", "b", "=", "1", ",", "*", "args", ",", "c", ",", "*", "*", "kwargs", ","]
        .iter()
        .map(|x| s(x))
        .collect();
    assert_eq!(
        signature_entries_of(&t),
        vec![
            SigEntry::Named { name: s("a"), default: None },
            SigEntry::Named { name: s("b"), default: Some(DefaultValue::Literal(s("1"))) },
            SigEntry::Star(Some(s("args"))),
            SigEntry::Named { name: s("c"), default: None },
            SigEntry::DoubleStar(s("kwargs")),
        ]
    );
    assert_eq!(signature_entries_of(&vec![]), vec![]);
    assert_eq!(signature_entries_of(&vec![s(","), s(",")]), vec![]);
}
