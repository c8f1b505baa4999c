use faster_freezed::dart_types::{
    Annotation, ClassDefinition, DartType, NamedParameter, ParameterList, PositionalParameter,
    RedirectedConstructor,
};
use faster_freezed::json_serialization::generate_class::generate_class;
use faster_freezed::json_serialization::json_generation::from_json_function_generator;

fn ty(name: &str, nullable: bool, args: Vec<DartType>) -> DartType {
    DartType { name: name.to_string(), nullable, type_arguments: args }
}

fn named(name: &str, t: DartType, required: bool, anns: Vec<Annotation>) -> NamedParameter {
    NamedParameter { annotations: anns, is_required: required, dart_type: t, name: name.to_string(), default: None }
}

fn variant(assigned: &str, named_params: Vec<NamedParameter>) -> RedirectedConstructor {
    RedirectedConstructor {
        is_const: true,
        class_name: "Person".to_string(),
        constructor_name: None,
        parameters: ParameterList::new(Vec::new(), named_params),
        assigned_type: ty(assigned, false, vec![]),
    }
}

fn json_marker() -> RedirectedConstructor {
    RedirectedConstructor {
        is_const: false,
        class_name: "fromJson".to_string(),
        constructor_name: None,
        parameters: ParameterList::new(Vec::new(), Vec::new()),
        assigned_type: ty("", false, vec![]),
    }
}

fn class(name: &str, variants: Vec<RedirectedConstructor>, json: bool) -> ClassDefinition {
    ClassDefinition {
        name: name.to_string(),
        gen_form: false,
        mixins: vec![ty(&format!("_${name}"), false, vec![])],
        json_constructor: if json { Some(json_marker()) } else { None },
        unnamed_constructor: None,
        redirecting_constructors: variants,
    }
}

fn generate(c: &ClassDefinition) -> (String, String) {
    let mut out = String::new();
    let mut json = String::new();
    generate_class(&mut out, &mut json, c);
    (out, json)
}

#[test]
fn two_plain_fields_get_plain_members() {
    let c = class(
        "Point",
        vec![variant(
            "_Point",
            vec![
                named("x", ty("int", false, vec![]), true, vec![]),
                named("y", ty("String", false, vec![]), true, vec![]),
            ],
        )],
        false,
    );
    let (out, json) = generate(&c);
    assert!(out.contains("mixin _$Point {\n  int get x;\n  String get y;\n"));
    assert!(out.contains("(identical(other.x, x) \n             || other.x == x)"));
    assert!(out.contains("(identical(other.y, y) \n             || other.y == y)"));
    assert!(out.contains("int get hashCode => Object.hash(\n    runtimeType,\n    x,\n    y,\n  );\n"));
    assert!(out.contains("  $Res call({\n    int x,\n    String y,\n  });\n"));
    assert!(out.contains("    Object? x = null,\n    Object? y = null,\n"));
    assert!(out.contains("_Point(\n{required this.x,required this.y,});\n"));
    assert!(!out.contains("toJson"));
    assert_eq!(json, "");
}

#[test]
fn default_string_fills_constructor_and_decode() {
    let default = Annotation { name: "Default".to_string(), arguments: vec!["'hello'".to_string()] };
    let c = class(
        "Greeting",
        vec![variant("_Greeting", vec![named("text", ty("String", false, vec![]), false, vec![default])])],
        true,
    );
    let (out, json) = generate(&c);
    assert!(out.contains("this.text = 'hello'"));
    assert!(json.contains("text: \n((json['text']) as String?)\n ?? 'hello'\n, \n"));
}

#[test]
fn list_of_int_compares_deeply() {
    let list = ty("List", false, vec![ty("int", false, vec![])]);
    let c = class("Bag", vec![variant("_Bag", vec![named("items", list, true, vec![])])], true);
    let (out, json) = generate(&c);
    assert!(out.contains("const DeepCollectionEquality().equals(other.items, items)"));
    assert!(out.contains("const DeepCollectionEquality().hash(items)"));
    assert!(json.contains("items: \n(json['items'] as List<dynamic>).map(\n    (e) => (e as num).toInt()\n\n ).toList()\n\n, \n"));
}

#[test]
fn variants_share_only_common_fields() {
    let first = variant("_First", vec![named("a", ty("int", false, vec![]), true, vec![])]);
    let second = variant(
        "_Second",
        vec![
            named("a", ty("int", false, vec![]), true, vec![]),
            named("b", ty("String", false, vec![]), false, vec![]),
        ],
    );
    let c = class("Shape", vec![first, second], false);
    let (out, _) = generate(&c);
    let mixin_end = out.find("}\n").unwrap();
    let mixin = &out[..mixin_end];
    assert!(mixin.contains("  int get a;\n"));
    assert!(!mixin.contains("get b;"));
    assert!(out.contains("class _Second implements Shape {"));
    assert!(out.contains("  final String b;"));
    assert!(out.contains("abstract mixin class $_SecondCopyWith<$Res> implements $ShapeCopyWith<$Res> {"));
    assert!(out.contains("class _$_SecondCopyWithImpl<$Res>"));
}

#[test]
fn nullable_field_uses_sentinel() {
    let c = class(
        "Memo",
        vec![variant("_Memo", vec![named("note", ty("String", true, vec![]), false, vec![])])],
        false,
    );
    let (out, _) = generate(&c);
    assert!(out.contains("    Object? note = freezed,\n"));
    assert!(out.contains("freezed == note ? _self.note : note as String?\n"));
    assert!(!out.contains("null == note"));
}

#[test]
fn generation_is_repeatable() {
    let c = class(
        "Point",
        vec![variant("_Point", vec![named("x", ty("double", true, vec![]), true, vec![])])],
        true,
    );
    assert_eq!(generate(&c), generate(&c));
}

#[test]
fn single_variant_json_mixin_has_body() {
    let c = class("Item", vec![variant("_Item", vec![named("id", ty("int", false, vec![]), true, vec![])])], true);
    let (out, json) = generate(&c);
    assert!(out.contains("  @override\n  Map<String, dynamic> toJson() {\n    return _$ItemToJson(this);\n  }\n"));
    assert!(json.starts_with("Map<String, dynamic> _$ItemToJson(_Item instance) =>\n    <String, dynamic>{\n    'id': instance.id,\n    };\n"));
    assert!(json.contains("_Item _$ItemFromJson(Map<String, dynamic> json) =>\n_Item(\nid: \n(json['id'] as num).toInt()\n\n, \n);\n"));
}

#[test]
fn two_variant_json_mixin_has_signature() {
    let c = class(
        "Event",
        vec![
            variant("_Start", vec![named("at", ty("DateTime", false, vec![]), true, vec![])]),
            variant("_Stop", vec![named("at", ty("DateTime", false, vec![]), true, vec![])]),
        ],
        true,
    );
    let (out, json) = generate(&c);
    assert!(out.contains("  Map<String, dynamic> toJson();\n"));
    assert!(json.contains("'at': instance.at.toIso8601String()"));
    assert!(json.contains("at: \nDateTime.parse(json['at'] as String)\n\n, \n"));
}

#[test]
fn positional_parameter_gets_its_default() {
    let default = Annotation { name: "Default".to_string(), arguments: vec!["[]".to_string()] };
    let p = PositionalParameter { name: "tags".to_string(), dart_type: ty("List", false, vec![ty("String", false, vec![])]), annotations: vec![default] };
    let c = ClassDefinition {
        name: "Post".to_string(),
        gen_form: false,
        mixins: vec![ty("_$Post", false, vec![])],
        json_constructor: None,
        unnamed_constructor: Some(json_marker()),
        redirecting_constructors: vec![RedirectedConstructor {
            is_const: false,
            class_name: "Post".to_string(),
            constructor_name: None,
            parameters: ParameterList::new(vec![p], Vec::new()),
            assigned_type: ty("_Post", false, vec![]),
        }],
    };
    let (out, _) = generate(&c);
    assert!(out.contains("class _Post extends Post {\n_Post(\nthis.tags = const [], ): super._();\n"));
}

#[test]
fn converter_annotation_replaces_type_decode() {
    let conv = Annotation { name: "EpochJsonConverter".to_string(), arguments: vec![] };
    let c = class(
        "Log",
        vec![variant(
            "_Log",
            vec![
                named("at", ty("DateTime", false, vec![]), true, vec![conv.clone()]),
                named("seen", ty("DateTime", true, vec![]), false, vec![conv]),
            ],
        )],
        true,
    );
    let (_, json) = generate(&c);
    assert!(json.contains("    'at': const EpochJsonConverter().toJson(instance.at),\n"));
    assert!(json.contains("    'seen': instance.seen == null ? null : const EpochJsonConverter().toJson(instance.seen!),\n"));
    assert!(json.contains("at: \nconst EpochJsonConverter().fromJson((json['at'] as num).toInt())\n\n, \n"));
    assert!(json.contains("seen: \n(json['seen'] == null ? null : const EpochJsonConverter().fromJson((json['seen'] as num).toInt()))\n\n, \n"));
}

#[test]
fn decode_by_declared_type() {
    let c = class(
        "Mixed",
        vec![variant(
            "_Mixed",
            vec![
                named("m", ty("Map", false, vec![ty("String", false, vec![]), ty("int", false, vec![])]), true, vec![]),
                named("s", ty("Set", true, vec![ty("String", false, vec![])]), false, vec![]),
                named("o", ty("Address", true, vec![]), false, vec![]),
                named("p", ty("Page", false, vec![ty("Item", false, vec![])]), true, vec![]),
                named("d", ty("", false, vec![]), true, vec![]),
                named("b", ty("bool", false, vec![]), true, vec![]),
                named("w", ty("double", true, vec![]), false, vec![]),
            ],
        )],
        true,
    );
    let (_, json) = generate(&c);
    assert!(json.contains("m: \n(json['m'] as Map<String, dynamic>)\n\n, \n"));
    assert!(json.contains("s: \n(json['s'] as List<dynamic>?)?.map(\n    (e) => ((e) as String)\n\n ).toSet()\n\n, \n"));
    assert!(json.contains("o: \n(json['o'] == null ? null : Address.fromJson(json['o'] as Map<String, dynamic>))\n\n, \n"));
    assert!(json.contains("p: \nPage<Item>.fromJson(json['p'] as Map<String, dynamic>)\n\n, \n"));
    assert!(json.contains("d: \njson['d']\n\n, \n"));
    assert!(json.contains("b: \n((json['b']) as bool)\n\n, \n"));
    assert!(json.contains("w: \n(json['w'] as num?)?.toDouble()\n\n, \n"));
}

#[test]
fn decode_function_layout_for_default_and_list() {
    let default = Annotation { name: "Default".to_string(), arguments: vec!["'hello'".to_string()] };
    let params = ParameterList::new(vec![], vec![named("field", ty("String", false, vec![]), false, vec![default])]);
    let mut out = String::new();
    from_json_function_generator(&mut out, "_C", "C", &params);
    assert_eq!(out, "_C _$CFromJson(Map<String, dynamic> json) =>\n_C(\nfield: \n((json['field']) as String?)\n ?? 'hello'\n, \n);\n");

    let params = ParameterList::new(vec![], vec![named("xs", ty("List", false, vec![ty("int", false, vec![])]), true, vec![])]);
    let mut out = String::new();
    from_json_function_generator(&mut out, "_C", "C", &params);
    assert_eq!(out, "_C _$CFromJson(Map<String, dynamic> json) =>\n_C(\nxs: \n(json['xs'] as List<dynamic>).map(\n    (e) => (e as num).toInt()\n\n ).toList()\n\n, \n);\n");

    let params = ParameterList::new(
        vec![PositionalParameter { name: "n".to_string(), dart_type: ty("int", true, vec![]), annotations: vec![] }],
        vec![],
    );
    let mut out = String::new();
    from_json_function_generator(&mut out, "_C", "C", &params);
    assert_eq!(out, "_C _$CFromJson(Map<String, dynamic> json) =>\n_C(\n(json['n'] as num?)?.toInt()\n\n, \n);\n");
}
