use faster_freezed::dart_types::DartType;
use faster_freezed::parse_freezed_classes;
use faster_freezed::parser::{parse_annotation, parse_type, ExtractError};
use faster_freezed::syntax::SyntaxNode;

fn node(kind: &str, text: &str, children: Vec<SyntaxNode>) -> SyntaxNode {
    SyntaxNode { kind: kind.to_string(), named: true, field: None, text: text.to_string(), children }
}

fn leaf(kind: &str, text: &str) -> SyntaxNode {
    node(kind, text, vec![])
}

fn tok(kind: &str) -> SyntaxNode {
    SyntaxNode { kind: kind.to_string(), named: false, field: None, text: kind.to_string(), children: vec![] }
}

fn field(mut n: SyntaxNode, name: &str) -> SyntaxNode {
    n.field = Some(name.to_string());
    n
}

fn ty(name: &str, nullable: bool, args: Vec<DartType>) -> DartType {
    DartType { name: name.to_string(), nullable, type_arguments: args }
}

fn type_args(children: Vec<SyntaxNode>) -> SyntaxNode {
    let mut all = vec![tok("<")];
    for (i, c) in children.into_iter().enumerate() {
        if i > 0 {
            all.push(tok(","));
        }
        all.push(c);
    }
    all.push(tok(">"));
    node("type_arguments", "", all)
}

fn annotation(text: &str, name: &str, args: Vec<&str>) -> SyntaxNode {
    let mut children = vec![tok("@"), field(leaf("identifier", name), "name")];
    if !args.is_empty() {
        let mut list = vec![tok("(")];
        for a in args {
            list.push(leaf("string_literal", a));
        }
        list.push(tok(")"));
        children.push(node("arguments", "", list));
    }
    node("annotation", text, children)
}

fn class_node(annotation_text: &str, mixin: Option<&str>, body: Vec<SyntaxNode>) -> SyntaxNode {
    let mut children = vec![annotation(annotation_text, &annotation_text[1..], vec![]), tok("abstract"), tok("class"), field(leaf("identifier", "Test"), "name")];
    if let Some(m) = mixin {
        let mixins = node("mixins", "", vec![tok("with"), leaf("type_identifier", m)]);
        children.push(field(node("superclass", "", vec![mixins]), "superclass"));
    }
    let mut members = vec![tok("{")];
    for m in body {
        members.push(m);
        members.push(tok(";"));
    }
    members.push(tok("}"));
    children.push(field(node("class_body", "", members), "body"));
    node("class_definition", "", children)
}

fn factory_decl(named_section: Vec<SyntaxNode>) -> SyntaxNode {
    let mut optional = vec![tok("{")];
    optional.extend(named_section);
    optional.push(tok("}"));
    let params = node("formal_parameter_list", "", vec![tok("("), node("optional_formal_parameters", "", optional), tok(")")]);
    let sig = node(
        "redirecting_factory_constructor_signature",
        "",
        vec![tok("factory"), leaf("identifier", "Test"), params, tok("="), leaf("type_identifier", "_Test")],
    );
    node("declaration", "", vec![sig])
}

fn unnamed_decl() -> SyntaxNode {
    let sig = node(
        "constructor_signature",
        "",
        vec![leaf("identifier", "Test"), tok("."), leaf("identifier", "_"), node("formal_parameter_list", "", vec![tok("("), tok(")")])],
    );
    node("declaration", "", vec![sig])
}

fn program(classes: Vec<SyntaxNode>) -> SyntaxNode {
    node("program", "", classes)
}

#[test]
fn test_pasing_types() {
    // @freezed
    // abstract class Test with _$Test {
    //   factory Test({
    //     required List<Map<ASDF, ASDF>> test,
    //   }) = _Test;
    //   Test._();
    // }
    let map = node("type_identifier", "Map", vec![]);
    let inner = type_args(vec![leaf("type_identifier", "ASDF"), leaf("type_identifier", "ASDF")]);
    let param = node(
        "formal_parameter",
        "",
        vec![leaf("type_identifier", "List"), type_args(vec![map, inner]), leaf("identifier", "test")],
    );
    let root = program(vec![class_node("@freezed", Some("_$Test"), vec![factory_decl(vec![tok("required"), param, tok(",")]), unnamed_decl()])]);
    let classes = parse_freezed_classes(&root).unwrap();
    assert_eq!(classes.len(), 1);
    let c = &classes[0];
    assert_eq!(c.name, "Test");
    assert_eq!(c.mixins, vec![ty("_$Test", false, vec![])]);
    assert!(c.json_constructor.is_none());
    assert!(c.unnamed_constructor.as_ref().map(|u| !u.is_const).unwrap_or(false));
    assert_eq!(c.redirecting_constructors.len(), 1);
    let v = &c.redirecting_constructors[0];
    assert_eq!(v.assigned_type, ty("_Test", false, vec![]));
    assert_eq!(v.parameters.named_parameters.len(), 1);
    let p = &v.parameters.named_parameters[0];
    assert_eq!(p.name, "test");
    assert!(p.is_required);
    let asdf = ty("ASDF", false, vec![]);
    assert_eq!(p.dart_type, ty("List", false, vec![ty("Map", false, vec![asdf.clone(), asdf])]));
    assert_eq!(p.dart_type.as_raw(), "List<Map<ASDF,ASDF>>");
}

#[test]
fn parse_type_reads_rendered_shape() {
    // String?  followed by an identifier
    let nodes = vec![leaf("type_identifier", "String"), leaf("nullable_type", "?"), leaf("identifier", "x")];
    let (t, end) = parse_type(&nodes, 0).unwrap();
    assert_eq!(t, ty("String", true, vec![]));
    assert_eq!(end, 2);
    // an untyped parameter reads nothing
    let untyped = vec![leaf("identifier", "x")];
    assert_eq!(parse_type(&untyped, 0), Some((ty("", false, vec![]), 0)));
}

#[test]
fn class_without_mixin_is_skipped() {
    let root = program(vec![class_node("@freezed", None, vec![])]);
    assert_eq!(parse_freezed_classes(&root), Ok(vec![]));
    let other = program(vec![class_node("@immutable", Some("_$Test"), vec![])]);
    assert_eq!(parse_freezed_classes(&other), Ok(vec![]));
}

#[test]
fn json_factory_and_const_unnamed_are_markers() {
    let from_json = node(
        "method_signature",
        "",
        vec![node(
            "factory_constructor_signature",
            "",
            vec![tok("factory"), leaf("identifier", "Test"), tok("."), leaf("identifier", "fromJson"), node("formal_parameter_list", "", vec![tok("("), tok(")")])],
        )],
    );
    let const_unnamed = node(
        "declaration",
        "",
        vec![node(
            "constant_constructor_signature",
            "",
            vec![leaf("const_builtin", "const"), leaf("identifier", "Test"), tok("."), leaf("identifier", "_"), node("formal_parameter_list", "", vec![tok("("), tok(")")])],
        )],
    );
    let param = node("formal_parameter", "", vec![leaf("type_identifier", "int"), leaf("identifier", "a")]);
    let root = program(vec![class_node("@freezed", Some("_$Test"), vec![factory_decl(vec![param]), from_json, const_unnamed])]);
    let classes = parse_freezed_classes(&root).unwrap();
    assert_eq!(classes.len(), 1);
    assert_eq!(classes[0].json_constructor.as_ref().map(|j| j.class_name.clone()), Some("fromJson".to_string()));
    assert_eq!(classes[0].unnamed_constructor.as_ref().map(|u| u.is_const), Some(true));
    assert_eq!(classes[0].redirecting_constructors[0].parameters.named_parameters[0].name, "a");
}

#[test]
fn unsupported_member_is_rejected() {
    let other_factory = node(
        "factory_constructor_signature",
        "",
        vec![tok("factory"), leaf("identifier", "Test"), tok("."), leaf("identifier", "empty"), node("formal_parameter_list", "", vec![tok("("), tok(")")])],
    );
    let param = node("formal_parameter", "", vec![leaf("type_identifier", "int"), leaf("identifier", "a")]);
    let root = program(vec![class_node("@freezed", Some("_$Test"), vec![factory_decl(vec![param]), other_factory])]);
    assert_eq!(parse_freezed_classes(&root), Err(ExtractError::UnsupportedSyntax));
}

#[test]
fn default_without_argument_is_missing() {
    let param = node(
        "formal_parameter",
        "",
        vec![leaf("type_identifier", "int"), leaf("identifier", "a")],
    );
    let root = program(vec![class_node(
        "@freezed",
        Some("_$Test"),
        vec![factory_decl(vec![annotation("@Default", "Default", vec![]), param])],
    )]);
    assert_eq!(parse_freezed_classes(&root), Err(ExtractError::MissingElement));
}

#[test]
fn class_without_variant_is_missing() {
    let root = program(vec![class_node("@freezed", Some("_$Test"), vec![unnamed_decl()])]);
    assert_eq!(parse_freezed_classes(&root), Err(ExtractError::MissingElement));
}

#[test]
fn annotation_arguments_are_kept_in_order() {
    let a = parse_annotation(&annotation("@Default('x')", "Default", vec!["'x'", "y"])).unwrap();
    assert_eq!(a.name, "Default");
    assert_eq!(a.arguments, vec!["'x'".to_string(), "y".to_string()]);
    let nameless = node("annotation", "@", vec![tok("@")]);
    assert_eq!(parse_annotation(&nameless), Err(ExtractError::MissingElement));
}

#[test]
fn rendered_type_reads_back() {
    // Map<String,List<int?>>?
    let t = ty("Map", true, vec![ty("String", false, vec![]), ty("List", false, vec![ty("int", true, vec![])])]);
    assert_eq!(t.as_raw(), "Map<String,List<int?>>?");
    let inner_list = type_args(vec![leaf("type_identifier", "int"), leaf("nullable_type", "?")]);
    let mut list_args = inner_list;
    // `int?` is one argument: both of its nodes sit between `<` and `>`
    list_args.children = vec![tok("<"), leaf("type_identifier", "int"), leaf("nullable_type", "?"), tok(">")];
    let outer = node(
        "type_arguments",
        "<String,List<int?>>",
        vec![tok("<"), leaf("type_identifier", "String"), tok(","), leaf("type_identifier", "List"), list_args, tok(">")],
    );
    let nodes = vec![leaf("type_identifier", "Map"), outer, leaf("nullable_type", "?")];
    assert_eq!(parse_type(&nodes, 0), Some((t, 3)));
}

#[test]
fn form_flag_follows_marker() {
    let param = node("formal_parameter", "", vec![leaf("type_identifier", "int"), leaf("identifier", "a")]);
    let mut cls = class_node("@freezed", Some("_$Test"), vec![factory_decl(vec![param])]);
    cls.children.insert(1, annotation("@qform", "qform", vec![]));
    let classes = parse_freezed_classes(&program(vec![cls])).unwrap();
    assert!(classes[0].gen_form);
}

#[test]
fn default_value_expression_is_rejected() {
    let param = node("formal_parameter", "", vec![leaf("type_identifier", "int"), leaf("identifier", "a")]);
    let root = program(vec![class_node(
        "@freezed",
        Some("_$Test"),
        vec![factory_decl(vec![param, tok("="), leaf("decimal_integer_literal", "5")])],
    )]);
    assert_eq!(parse_freezed_classes(&root), Err(ExtractError::UnsupportedSyntax));
}

#[test]
fn comment_between_plain_parameters_is_skipped() {
    let a = node("formal_parameter", "", vec![leaf("type_identifier", "int"), leaf("identifier", "a")]);
    let b = node("formal_parameter", "", vec![leaf("type_identifier", "String"), leaf("identifier", "b")]);
    let params = node("formal_parameter_list", "", vec![tok("("), a, tok(","), leaf("comment", "// the name"), b, tok(")")]);
    let sig = node(
        "redirecting_factory_constructor_signature",
        "",
        vec![tok("factory"), leaf("identifier", "Test"), params, tok("="), leaf("type_identifier", "_Test")],
    );
    let root = program(vec![class_node("@freezed", Some("_$Test"), vec![node("declaration", "", vec![sig])])]);
    let classes = parse_freezed_classes(&root).unwrap();
    let names: Vec<String> = classes[0].redirecting_constructors[0].parameters.positional_parameters.iter().map(|p| p.name.clone()).collect();
    assert_eq!(names, vec!["a".to_string(), "b".to_string()]);
}

#[test]
fn json_class_with_unreadable_field_is_rejected() {
    let param = node(
        "formal_parameter",
        "",
        vec![leaf("type_identifier", "int"), type_args(vec![leaf("type_identifier", "X")]), leaf("identifier", "a")],
    );
    let from_json = node(
        "factory_constructor_signature",
        "",
        vec![tok("factory"), leaf("identifier", "Test"), tok("."), leaf("identifier", "fromJson"), node("formal_parameter_list", "", vec![tok("("), tok(")")])],
    );
    let root = program(vec![class_node("@freezed", Some("_$Test"), vec![factory_decl(vec![param]), from_json])]);
    assert_eq!(parse_freezed_classes(&root), Err(ExtractError::UnsupportedSyntax));
}
