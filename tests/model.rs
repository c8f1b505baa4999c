use faster_freezed::dart_types::{
    get_generic_string, Annotation, DartType, NamedParameter, ParameterList, PositionalParameter,
};
use faster_freezed::json_serialization::copy_with_generation::{generate_copywith_element, generate_impl_function};
use faster_freezed::json_serialization::generate_class::intersection_positional_parameters;
use faster_freezed::json_serialization::mixin_generation::{generate_comparator, generate_hash_line, generate_hash_operator};

fn ty(name: &str, nullable: bool, args: Vec<DartType>) -> DartType {
    DartType { name: name.to_string(), nullable, type_arguments: args }
}

fn field(name: &str, t: DartType) -> PositionalParameter {
    PositionalParameter { name: name.to_string(), dart_type: t, annotations: vec![] }
}

fn named(name: &str, t: DartType) -> NamedParameter {
    NamedParameter { annotations: vec![], is_required: true, dart_type: t, name: name.to_string(), default: None }
}

fn default_of(arg: &str) -> String {
    Annotation { name: "Default".to_string(), arguments: vec![arg.to_string()] }.get_default_value()
}

#[test]
fn raw_text_of_nested_type() {
    let t = ty("Map", true, vec![ty("String", false, vec![]), ty("List", false, vec![ty("int", true, vec![])])]);
    assert_eq!(t.as_raw(), "Map<String,List<int?>>?");
    assert_eq!(ty("", true, vec![]).as_raw(), "dynamic");
}

#[test]
fn generic_string_joins_with_comma_space() {
    assert_eq!(get_generic_string(&[]), "");
    assert_eq!(get_generic_string(&[ty("T", false, vec![]), ty("String", true, vec![])]), "<T, String?>");
}

#[test]
fn collection_names() {
    assert!(ty("List", false, vec![]).is_collection());
    assert!(ty("Map", true, vec![]).is_collection());
    assert!(ty("Set", false, vec![]).is_collection());
    assert!(!ty("Iterable", false, vec![]).is_collection());
}

#[test]
fn default_value_classifier() {
    assert_eq!(default_of("true"), "true");
    assert_eq!(default_of("null"), "null");
    assert_eq!(default_of("12.5"), "12.5");
    assert_eq!(default_of("'a)'"), "'a)'");
    assert_eq!(default_of("[]"), "const []");
    assert_eq!(default_of("{}"), "const {}");
    assert_eq!(default_of("Duration(seconds: 1)"), "const Duration(seconds: 1)");
    assert_eq!(default_of("Colors.red"), "Colors.red");
}

#[test]
fn all_params_positional_first() {
    let list = ParameterList::new(
        vec![field("a", ty("int", false, vec![])), field("b", ty("int", false, vec![]))],
        vec![named("c", ty("String", false, vec![])), named("d", ty("bool", true, vec![]))],
    );
    let first: Vec<String> = list.get_all_params().into_iter().map(|p| p.name).collect();
    let second: Vec<String> = list.get_all_params().into_iter().map(|p| p.name).collect();
    assert_eq!(first, vec!["a", "b", "c", "d"]);
    assert_eq!(first, second);
    assert!(!list.is_empty());
    assert!(ParameterList::new(vec![], vec![]).is_empty());
    assert_eq!(named("c", ty("String", false, vec![])).to_positional(), field("c", ty("String", false, vec![])));
}

#[test]
fn intersection_keeps_first_order() {
    let mut shared = vec![
        field("a", ty("int", false, vec![])),
        field("b", ty("String", false, vec![])),
        field("c", ty("int", true, vec![])),
    ];
    let other = vec![
        field("c", ty("int", true, vec![])),
        field("b", ty("String", true, vec![])),
        field("a", ty("int", false, vec![])),
    ];
    intersection_positional_parameters(&mut shared, &other);
    let names: Vec<&str> = shared.iter().map(|p| p.name.as_str()).collect();
    assert_eq!(names, vec!["a", "c"]);

    let fields = vec![field("x", ty("int", false, vec![])), field("y", ty("List", false, vec![ty("int", false, vec![])]))];
    let mut same = fields.clone();
    intersection_positional_parameters(&mut same, &fields);
    assert_eq!(same, fields);
}

#[test]
fn equality_policy_by_type_name() {
    for name in ["List", "Map", "Set"] {
        let mut out = String::new();
        generate_comparator(&mut out, "f", &ty(name, false, vec![ty("int", false, vec![])]));
        assert_eq!(out, "const DeepCollectionEquality().equals(other.f, f)");
        let mut hash = String::new();
        generate_hash_line(&mut hash, "f", &ty(name, true, vec![]));
        assert_eq!(hash, "const DeepCollectionEquality().hash(f)");
    }
    let mut out = String::new();
    generate_comparator(&mut out, "f", &ty("Iterable", false, vec![]));
    assert_eq!(out, "(identical(other.f, f) \n             || other.f == f)");
    let mut hash = String::new();
    generate_hash_line(&mut hash, "f", &ty("int", false, vec![]));
    assert_eq!(hash, "f");
}

#[test]
fn copywith_sentinel_selection() {
    let mut out = String::new();
    generate_copywith_element(&mut out, "n", &ty("String", true, vec![]));
    assert_eq!(out, "freezed == n ? _self.n : n as String?\n");
    let mut out = String::new();
    generate_copywith_element(&mut out, "n", &ty("", false, vec![]));
    assert_eq!(out, "freezed == n ? _self.n : n as dynamic\n");
    let mut out = String::new();
    generate_copywith_element(&mut out, "n", &ty("int", false, vec![]));
    assert_eq!(out, "null == n ? _self.n : n as int\n");

    let list = ParameterList::new(vec![field("p", ty("int", false, vec![]))], vec![named("q", ty("", false, vec![]))]);
    let mut call = String::new();
    generate_impl_function(&mut call, "Foo", &list, true);
    assert!(call.contains("    Object? p = null,\n    Object? q = freezed,\n"));
    assert!(call.contains("return _then(Foo(\nnull == p ? _self.p : p as int\n,q: freezed == q ? _self.q : q as dynamic\n,));\n"));
}

#[test]
fn hash_switches_form_above_nineteen_fields() {
    let nineteen: Vec<PositionalParameter> = (0..19).map(|i| field(&format!("f{i}"), ty("int", false, vec![]))).collect();
    let twenty: Vec<PositionalParameter> = (0..20).map(|i| field(&format!("f{i}"), ty("int", false, vec![]))).collect();
    let mut a = String::new();
    generate_hash_operator(&mut a, &nineteen);
    assert!(a.contains("Object.hash(\n"));
    let mut b = String::new();
    generate_hash_operator(&mut b, &twenty);
    assert!(b.contains("Object.hashAll([\n"));
    assert!(b.ends_with("  ]);\n"));
    let mut c = String::new();
    generate_hash_operator(&mut c, &[]);
    assert_eq!(c, "  @override\n  int get hashCode => runtimeType.hashCode;\n");
}
