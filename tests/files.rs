use faster_freezed::dart_types::{ClassDefinition, DartType, ParameterList, PositionalParameter, RedirectedConstructor};
use faster_freezed::freezed_class::FreezedClass2;
use faster_freezed::freezed_class::NamedArgument;
use faster_freezed::json_serialization::{generate_element_from_json, generate_field_from_json, generate_field_to_json, generate_object_from_json};
use faster_freezed::output::{generate_files, has_marker, is_generation_input, is_skipped_directory, output_file_names};

fn ty(name: &str) -> DartType {
    DartType { name: name.to_string(), nullable: false, type_arguments: vec![] }
}

fn ctor(class_name: &str, is_const: bool) -> RedirectedConstructor {
    RedirectedConstructor {
        is_const,
        class_name: class_name.to_string(),
        constructor_name: None,
        parameters: ParameterList::new(vec![], vec![]),
        assigned_type: ty(""),
    }
}

fn class(json: bool) -> ClassDefinition {
    let field = PositionalParameter { name: "id".to_string(), dart_type: ty("int"), annotations: vec![] };
    ClassDefinition {
        name: "Item".to_string(),
        gen_form: false,
        mixins: vec![ty("_$Item")],
        json_constructor: if json { Some(ctor("fromJson", false)) } else { None },
        unnamed_constructor: None,
        redirecting_constructors: vec![RedirectedConstructor {
            is_const: true,
            class_name: "Item".to_string(),
            constructor_name: None,
            parameters: ParameterList::new(vec![field], vec![]),
            assigned_type: ty("_Item"),
        }],
    }
}

#[test]
fn files_for_one_json_class() {
    let files = generate_files("item.dart", &vec![class(true)]);
    assert!(files.freezed.starts_with("// dart format width=80\n"));
    assert!(files.freezed.contains("part of '../item.dart';\nT _$identity<T>(T value) => value;\n"));
    assert!(files.freezed.contains("mixin _$Item {"));
    let json = files.json.unwrap();
    assert!(json.starts_with("part of '../item.dart';Map<String, dynamic> _$ItemToJson(_Item instance) =>"));
}

#[test]
fn json_file_omitted_without_json_class() {
    let files = generate_files("item.dart", &vec![class(false)]);
    assert!(files.json.is_none());
    assert!(files.freezed.contains("class _Item implements Item {"));
}

#[test]
fn input_and_output_names() {
    assert!(is_generation_input("user.dart"));
    assert!(is_generation_input("user.g.dart"));
    assert!(is_generation_input("user.freezed.dart"));
    assert!(!is_generation_input("notes.txt"));
    assert!(is_skipped_directory("generated"));
    assert!(!is_skipped_directory("lib"));
    assert!(has_marker("@freezed\nclass A {}"));
    assert!(!has_marker("@immutable"));
    assert_eq!(output_file_names("user"), ("user.freezed.dart".to_string(), "user.g.dart".to_string()));
}

#[test]
fn element_conversions_from_type_text() {
    assert_eq!(generate_element_from_json("int", "v"), "(v as num).toInt()");
    assert_eq!(generate_element_from_json("double?", "v"), "(v as num?)?.toDouble()");
    assert_eq!(generate_element_from_json("String", "v"), "v as String");
    assert_eq!(generate_element_from_json("bool?", "v"), "v as bool?");
    assert_eq!(generate_element_from_json("DateTime?", "v"), "v == null ? null : DateTime.parse(v as String)");
    assert_eq!(generate_element_from_json("Address", "v"), "Address.fromJson(v as Map<String, dynamic>)");
    assert_eq!(generate_object_from_json("home", "Address?"), "home: json['home'] == null ? null : Address.fromJson(json['home'] as Map<String, dynamic>)");
    assert_eq!(generate_object_from_json("home", "Address"), "home: Address.fromJson(json['home'] as Map<String, dynamic>)");
    assert_eq!(generate_field_to_json("id"), "  'id': instance.id");
}

#[test]
fn constructor_markers_of_a_class() {
    let c = FreezedClass2 { name: "A".to_string(), redirecting_constructors: vec![ctor("A", false), ctor("_", true), ctor("fromJson", false)] };
    assert!(c.has_json());
    assert!(c.has_const_constructor());
    let plain = FreezedClass2 { name: "B".to_string(), redirecting_constructors: vec![ctor("B", true)] };
    assert!(!plain.has_json());
    assert!(!plain.has_const_constructor());
}

#[test]
fn single_field_decode_handles_collections() {
    let arg = |t: DartType| NamedArgument { annotations: vec![], is_required: true, argument_type: t, name: "f".to_string(), default: None };
    let list = DartType { name: "List".to_string(), nullable: false, type_arguments: vec![ty("int")] };
    assert_eq!(generate_field_from_json("f", &arg(list)), "f: (json['f'] as List<dynamic>).map(\n    (e) => (e as num).toInt()\n\n ).toList()");
    let map = DartType { name: "Map".to_string(), nullable: true, type_arguments: vec![ty("String"), ty("int")] };
    assert_eq!(generate_field_from_json("f", &arg(map)), "f: (json['f'] as Map<String, dynamic>?)");
    assert_eq!(generate_field_from_json("f", &arg(ty("int"))), "f: (json['f'] as num).toInt()");
}

#[test]
fn json_class_needs_readable_field_types() {
    let mut c = class(true);
    assert!(c.is_ready());
    c.redirecting_constructors[0].parameters.positional_parameters[0].dart_type =
        DartType { name: "List".to_string(), nullable: false, type_arguments: vec![] };
    assert!(!c.is_ready());
    c.json_constructor = None;
    assert!(c.is_ready());
    let scalar = DartType { name: "int".to_string(), nullable: false, type_arguments: vec![ty("X")] };
    assert!(!scalar.json_shape_ready());
    assert!(DartType { name: "Page".to_string(), nullable: false, type_arguments: vec![ty("X")] }.json_shape_ready());
}
