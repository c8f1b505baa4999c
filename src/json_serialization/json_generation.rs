//! The JSON codec: a `fromJson` factory, and the module-level decode and
//! encode functions, type-directed field by field.
use vstd::prelude::*;
use vstd::string::StringExecFns;
use crate::dart_types::{
    Annotation, AnnotationView, DartType, NamedParamView, ParamView, ParameterList,
    PositionalParameter, TypeView, annotation_views, converter_annotation, default_annotation,
    default_text, defaults_ok, find_converter, find_default, named_views, param_views,
    params_defaults_ok, raw_text,
};
use crate::seq_text::{concat_map, lemma_concat_map_step, lemma_concat_map_all};
use crate::text::text_eq;

verus! {

pub open spec fn from_json_method_text(class_name: Seq<char>, from_json_name: Seq<char>) -> Seq<char> {
    "  factory "@ + class_name + ".fromJson(Map<String, dynamic> json)\n   => "@ + from_json_name
        + "(json);\n"@
}

/// The `fromJson` factory that forwards to a decode function.
pub fn from_json_method_generator(output: &mut String, class_name: &str, from_json_name: &str)
    ensures
        final(output)@ == old(output)@ + from_json_method_text(class_name@, from_json_name@),
{
    let ghost start = output@;
    output.append("  factory ");
    output.append(class_name);
    output.append(".fromJson(Map<String, dynamic> json)\n   => ");
    output.append(from_json_name);
    output.append("(json);\n");
    proof {
        assert(output@ =~= start + from_json_method_text(class_name@, from_json_name@));
    }
}

pub open spec fn nullable_mark(nullable: bool) -> Seq<char> {
    if nullable {
        "?"@
    } else {
        Seq::empty()
    }
}

/// The type as written, without its nullability marker.
pub open spec fn non_null(t: TypeView) -> TypeView {
    TypeView { name: t.name, nullable: false, args: t.args }
}

pub open spec fn decode_number(from: Seq<char>, n: Seq<char>, method: Seq<char>) -> Seq<char> {
    "("@ + from + " as num"@ + n + ")"@ + n + method
}

pub open spec fn decode_cast(from: Seq<char>, target: Seq<char>, n: Seq<char>) -> Seq<char> {
    "(("@ + from + ") as "@ + target + n + ")"@
}

pub open spec fn decode_date(from: Seq<char>, nullable: bool) -> Seq<char> {
    if nullable {
        "("@ + from + " == null ? null : DateTime.parse("@ + from + " as String))"@
    } else {
        "DateTime.parse("@ + from + " as String)"@
    }
}

pub open spec fn decode_object(from: Seq<char>, t: TypeView, nullable: bool) -> Seq<char> {
    if nullable {
        "("@ + from + " == null ? null : "@ + raw_text(non_null(t)) + ".fromJson("@ + from
            + " as Map<String, dynamic>))"@
    } else {
        raw_text(non_null(t)) + ".fromJson("@ + from + " as Map<String, dynamic>)"@
    }
}

pub open spec fn list_head(from: Seq<char>, n: Seq<char>) -> Seq<char> {
    "("@ + from + " as List<dynamic>"@ + n + ")"@ + n + ".map(\n    (e) => "@
}

/// The decode expression for the JSON value `from` of type `t`, by the
/// type's name: numbers are cast to `num` and narrowed, `bool` and `String`
/// cast, `DateTime` parsed, `List`/`Set` mapped element by element,
/// `Map` kept as a string-keyed map, untyped values passed through, and any
/// other type decoded by its own `fromJson` on a string-keyed map.
/// `nullable` makes the expression accept `null`.
pub open spec fn decode_base(from: Seq<char>, t: TypeView, nullable: bool) -> Seq<char>
    decreases t,
{
    let n = nullable_mark(nullable);
    if t.name == "int"@ {
        decode_number(from, n, ".toInt()"@)
    } else if t.name == "double"@ {
        decode_number(from, n, ".toDouble()"@)
    } else if t.name == "bool"@ {
        decode_cast(from, "bool"@, n)
    } else if t.name == "String"@ {
        decode_cast(from, "String"@, n)
    } else if t.name == "DateTime"@ {
        decode_date(from, nullable)
    } else if t.name == "List"@ || t.name == "Set"@ {
        list_head(from, n) + (if t.args.len() > 0 {
            decode_base("e"@, t.args[0], t.args[0].nullable)
        } else {
            "e"@
        }) + "\n\n"@ + (if t.name == "List"@ {
            " ).toList()"@
        } else {
            " ).toSet()"@
        })
    } else if t.name == "Map"@ {
        "("@ + from + " as Map<String, dynamic>"@ + n + ")"@
    } else if t.name.len() == 0 || t.name == "dynamic"@ {
        from
    } else {
        decode_object(from, t, nullable)
    }
}

/// A converter's decode call on the value cast to a number.
pub open spec fn converter_decode(from: Seq<char>, converter: Seq<char>, nullable: bool) -> Seq<char> {
    if nullable {
        "("@ + from + " == null ? null : const "@ + converter + "().fromJson(("@ + from
            + " as num).toInt()))"@
    } else {
        "const "@ + converter + "().fromJson(("@ + from + " as num).toInt())"@
    }
}

/// The decode text of a field: the decode expression and a line break, then
/// the fallback ` ?? <default>` for a `Default` annotation (nothing otherwise)
/// and a line break. A converter annotation replaces the type-directed decode;
/// a `Default` annotation makes the decode accept `null`.
pub open spec fn decode_text(from: Seq<char>, t: TypeView, anns: Seq<AnnotationView>) -> Seq<char> {
    let d = default_annotation(anns);
    let nullable = t.nullable || d is Some;
    (match converter_annotation(anns) {
        Some(c) => converter_decode(from, c.name, nullable),
        None => decode_base(from, t, nullable),
    }) + "\n"@ + (match d {
        Some(a) => " ?? "@ + default_text(a.arguments[0]),
        None => Seq::empty(),
    }) + "\n"@
}

fn append_nullable(output: &mut String, nullable: bool)
    ensures
        final(output)@ == old(output)@ + nullable_mark(nullable),
{
    if nullable {
        output.append("?");
    } else {
        proof {
            assert(output@ =~= output@ + nullable_mark(nullable));
        }
    }
}

fn nullable_string(nullable: bool) -> (r: String)
    ensures
        r@ == nullable_mark(nullable),
{
    if nullable {
        "?".to_owned()
    } else {
        String::new()
    }
}

fn decode_number_string(from_item: &str, n: &str, method: &str) -> (r: String)
    ensures
        r@ == decode_number(from_item@, n@, method@),
{
    let mut out = String::new();
    out.append("(");
    out.append(from_item);
    out.append(" as num");
    out.append(n);
    out.append(")");
    out.append(n);
    out.append(method);
    proof {
        assert(out@ =~= decode_number(from_item@, n@, method@));
    }
    out
}

fn decode_cast_string(from_item: &str, target: &str, n: &str) -> (r: String)
    ensures
        r@ == decode_cast(from_item@, target@, n@),
{
    let mut out = String::new();
    out.append("((");
    out.append(from_item);
    out.append(") as ");
    out.append(target);
    out.append(n);
    out.append(")");
    proof {
        assert(out@ =~= decode_cast(from_item@, target@, n@));
    }
    out
}

fn decode_date_string(from_item: &str, nullable: bool) -> (r: String)
    ensures
        r@ == decode_date(from_item@, nullable),
{
    let mut out = String::new();
    if nullable {
        out.append("(");
        out.append(from_item);
        out.append(" == null ? null : DateTime.parse(");
        out.append(from_item);
        out.append(" as String))");
    } else {
        out.append("DateTime.parse(");
        out.append(from_item);
        out.append(" as String)");
    }
    proof {
        assert(out@ =~= decode_date(from_item@, nullable));
    }
    out
}

fn decode_object_string(from_item: &str, dart_type: &DartType, nullable: bool) -> (r: String)
    ensures
        r@ == decode_object(from_item@, dart_type@, nullable),
{
    let plain = DartType {
        name: dart_type.name.clone(),
        nullable: false,
        type_arguments: crate::dart_types::clone_types(&dart_type.type_arguments),
    };
    let raw = plain.as_raw();
    let mut out = String::new();
    if nullable {
        out.append("(");
        out.append(from_item);
        out.append(" == null ? null : ");
        out.append(raw.as_str());
        out.append(".fromJson(");
        out.append(from_item);
        out.append(" as Map<String, dynamic>))");
    } else {
        out.append(raw.as_str());
        out.append(".fromJson(");
        out.append(from_item);
        out.append(" as Map<String, dynamic>)");
    }
    proof {
        assert(plain@ == non_null(dart_type@));
        assert(out@ =~= decode_object(from_item@, dart_type@, nullable));
    }
    out
}

fn list_head_string(from_item: &str, n: &str) -> (r: String)
    ensures
        r@ == list_head(from_item@, n@),
{
    let mut out = String::new();
    out.append("(");
    out.append(from_item);
    out.append(" as List<dynamic>");
    out.append(n);
    out.append(")");
    out.append(n);
    out.append(".map(\n    (e) => ");
    proof {
        assert(out@ =~= list_head(from_item@, n@));
    }
    out
}

pub(crate) fn append_decode_base(output: &mut String, from_item: &str, dart_type: &DartType, nullable: bool)
    ensures
        final(output)@ == old(output)@ + decode_base(from_item@, dart_type@, nullable),
    decreases dart_type,
{
    let ghost start = output@;
    let ghost t = dart_type@;
    let name = dart_type.name.as_str();
    let n = nullable_string(nullable);
    if text_eq(name, "int") {
        let text = decode_number_string(from_item, n.as_str(), ".toInt()");
        output.append(text.as_str());
    } else if text_eq(name, "double") {
        let text = decode_number_string(from_item, n.as_str(), ".toDouble()");
        output.append(text.as_str());
    } else if text_eq(name, "bool") {
        let text = decode_cast_string(from_item, "bool", n.as_str());
        output.append(text.as_str());
    } else if text_eq(name, "String") {
        let text = decode_cast_string(from_item, "String", n.as_str());
        output.append(text.as_str());
    } else if text_eq(name, "DateTime") {
        let text = decode_date_string(from_item, nullable);
        output.append(text.as_str());
    } else if text_eq(name, "List") || text_eq(name, "Set") {
        let head = list_head_string(from_item, n.as_str());
        output.append(head.as_str());
        proof {
            crate::dart_types::lemma_type_views(dart_type.type_arguments@);
        }
        if dart_type.type_arguments.len() > 0 {
            let inner = &dart_type.type_arguments[0];
            append_decode_base(output, "e", inner, inner.nullable);
        } else {
            output.append("e");
        }
        output.append("\n\n");
        let ghost mid2 = output@;
        if text_eq(name, "List") {
            output.append(" ).toList()");
        } else {
            output.append(" ).toSet()");
        }
        proof {
            let inner_text = if t.args.len() > 0 {
                decode_base("e"@, t.args[0], t.args[0].nullable)
            } else {
                "e"@
            };
            assert(mid2 == start + list_head(from_item@, n@) + inner_text + "\n\n"@);
        }
    } else if text_eq(name, "Map") {
        output.append("(");
        output.append(from_item);
        output.append(" as Map<String, dynamic>");
        output.append(n.as_str());
        output.append(")");
    } else if name.is_empty() || text_eq(name, "dynamic") {
        output.append(from_item);
    } else {
        let text = decode_object_string(from_item, dart_type, nullable);
        output.append(text.as_str());
    }
    proof {
        assert(output@ =~= start + decode_base(from_item@, t, nullable));
    }
}

/// Appends the decode expression of one field (see [`decode_text`]).
fn from_json_field_gen(
    output: &mut String,
    from_item: &str,
    dart_type: &DartType,
    annotations: &Vec<Annotation>,
)
    requires
        defaults_ok(annotation_views(annotations@)),
        crate::dart_types::field_json_ok(annotation_views(annotations@), dart_type@),
    ensures
        final(output)@ == old(output)@ + decode_text(
            from_item@,
            dart_type@,
            annotation_views(annotations@),
        ),
{
    let ghost start = output@;
    let default = find_default(annotations);
    let nullable = dart_type.nullable || default.is_some();
    match find_converter(annotations) {
        Some(converter) => {
            let cname = converter.name.as_str();
            if nullable {
                output.append("(");
                output.append(from_item);
                output.append(" == null ? null : const ");
                output.append(cname);
                output.append("().fromJson((");
                output.append(from_item);
                output.append(" as num).toInt()))");
            } else {
                output.append("const ");
                output.append(cname);
                output.append("().fromJson((");
                output.append(from_item);
                output.append(" as num).toInt())");
            }
        },
        None => {
            append_decode_base(output, from_item, dart_type, nullable);
        },
    }
    output.append("\n");
    match default {
        Some(d) => {
            proof {
                crate::dart_types::lemma_default_annotation(annotation_views(annotations@));
            }
            let value = d.get_default_value();
            output.append(" ?? ");
            output.append(value.as_str());
        },
        None => {},
    }
    output.append("\n");
    proof {
        assert(output@ =~= start + decode_text(from_item@, dart_type@, annotation_views(annotations@)));
    }
}

pub open spec fn json_key(name: Seq<char>) -> Seq<char> {
    "json['"@ + name + "']"@
}

pub open spec fn positional_decode(p: ParamView) -> Seq<char> {
    decode_text(json_key(p.name), p.ty, p.annotations) + ", \n"@
}

pub open spec fn named_decode(p: NamedParamView) -> Seq<char> {
    p.name + ": \n"@ + decode_text(json_key(p.name), p.ty, p.annotations) + ", \n"@
}

#[verifier::opaque]
pub open spec fn from_json_function_text(
    class_name: Seq<char>,
    from_json_name: Seq<char>,
    parameters: crate::dart_types::ParamsView,
) -> Seq<char> {
    class_name + " _$"@ + from_json_name + "FromJson(Map<String, dynamic> json) =>\n"@ + class_name
        + "(\n"@ + concat_map(parameters.positional, |p: ParamView| positional_decode(p))
        + concat_map(parameters.named, |p: NamedParamView| named_decode(p)) + ");\n"@
}

fn json_key_string(name: &str) -> (r: String)
    ensures
        r@ == json_key(name@),
{
    let mut key = String::new();
    key.append("json['");
    key.append(name);
    key.append("']");
    proof {
        assert(key@ =~= json_key(name@));
    }
    key
}

fn append_named_decode(output: &mut String, parameter: &crate::dart_types::NamedParameter)
    requires
        defaults_ok(parameter@.annotations),
        crate::dart_types::field_json_ok(parameter@.annotations, parameter@.ty),
    ensures
        final(output)@ == old(output)@ + named_decode(parameter@),
{
    let ghost start = output@;
    let key = json_key_string(parameter.name.as_str());
    output.append(parameter.name.as_str());
    output.append(": \n");
    from_json_field_gen(output, key.as_str(), &parameter.dart_type, &parameter.annotations);
    output.append(", \n");
    proof {
        assert(output@ =~= start + named_decode(parameter@));
    }
}

/// The module-level decode function `_$<name>FromJson`, which builds the
/// class from a JSON map, positional fields first, then named ones.
pub fn from_json_function_generator(
    output: &mut String,
    class_name: &str,
    from_json_name: &str,
    parameters: &ParameterList,
)
    requires
        params_defaults_ok(parameters@),
        crate::dart_types::params_json_ok(parameters@),
    ensures
        final(output)@ == old(output)@ + from_json_function_text(
            class_name@,
            from_json_name@,
            parameters@,
        ),
{
    reveal(from_json_function_text);
    let ghost start = output@;
    output.append(class_name);
    output.append(" _$");
    output.append(from_json_name);
    output.append("FromJson(Map<String, dynamic> json) =>\n");
    output.append(class_name);
    output.append("(\n");
    let ghost h = output@;
    let ghost pos = parameters@.positional;
    let mut i: usize = 0;
    while i < parameters.positional_parameters.len()
        invariant
            i <= parameters.positional_parameters@.len(),
            pos == parameters@.positional,
            params_defaults_ok(parameters@),
            crate::dart_types::params_json_ok(parameters@),
            output@ == h + concat_map(pos.take(i as int), |p: ParamView| positional_decode(p)),
        decreases parameters.positional_parameters.len() - i,
    {
        let parameter = &parameters.positional_parameters[i];
        let key = json_key_string(parameter.name.as_str());
        assert(defaults_ok(pos[i as int].annotations));
        assert(crate::dart_types::field_json_ok(pos[i as int].annotations, pos[i as int].ty));
        from_json_field_gen(output, key.as_str(), &parameter.dart_type, &parameter.annotations);
        output.append(", \n");
        proof {
            lemma_concat_map_step(pos, i as int, |p: ParamView| positional_decode(p));
            assert(output@ =~= h + concat_map(pos.take(i + 1), |p: ParamView| positional_decode(p)));
        }
        i += 1;
    }
    proof {
        lemma_concat_map_all(pos, |p: ParamView| positional_decode(p));
    }
    let ghost h2 = output@;
    let ghost named = parameters@.named;
    let mut k: usize = 0;
    while k < parameters.named_parameters.len()
        invariant
            k <= parameters.named_parameters@.len(),
            named == parameters@.named,
            params_defaults_ok(parameters@),
            crate::dart_types::params_json_ok(parameters@),
            output@ == h2 + concat_map(named.take(k as int), |p: NamedParamView| named_decode(p)),
        decreases parameters.named_parameters.len() - k,
    {
        assert(defaults_ok(named[k as int].annotations));
        assert(crate::dart_types::field_json_ok(named[k as int].annotations, named[k as int].ty));
        append_named_decode(output, &parameters.named_parameters[k]);
        proof {
            lemma_concat_map_step(named, k as int, |p: NamedParamView| named_decode(p));
            assert(output@ =~= h2 + concat_map(named.take(k + 1), |p: NamedParamView| named_decode(p)));
        }
        k += 1;
    }
    proof {
        lemma_concat_map_all(named, |p: NamedParamView| named_decode(p));
    }
    output.append(");\n");
    proof {
        assert(output@ =~= start + from_json_function_text(class_name@, from_json_name@, parameters@));
    }
}

pub open spec fn to_json_method_text(class_name: Option<Seq<char>>) -> Seq<char> {
    match class_name {
        Some(c) => "  @override\n  Map<String, dynamic> toJson() {\n    return _$"@ + c
            + "ToJson(this);\n  }\n"@,
        None => "  Map<String, dynamic> toJson();\n"@,
    }
}

/// `toJson`: an implementation forwarding to `_$<name>ToJson` for a class
/// name, the bare signature otherwise.
pub fn to_json_method_generator(output: &mut String, class_name: Option<&str>)
    ensures
        final(output)@ == old(output)@ + to_json_method_text(
            match class_name {
                Some(c) => Some(c@),
                None => None,
            },
        ),
{
    let ghost start = output@;
    match class_name {
        Some(c) => {
            output.append("  @override\n  Map<String, dynamic> toJson() {\n    return _$");
            output.append(c);
            output.append("ToJson(this);\n  }\n");
        },
        None => {
            output.append("  Map<String, dynamic> toJson();\n");
        },
    }
    proof {
        assert(output@ =~= start + to_json_method_text(
            match class_name {
                Some(c) => Some(c@),
                None => None,
            },
        ));
    }
}

/// The map entry of one field: the field itself, a `DateTime` as its
/// ISO-8601 string, or a converter's encode call.
pub open spec fn encode_entry(p: ParamView) -> Seq<char> {
    let n = p.name;
    match converter_annotation(p.annotations) {
        Some(c) => if p.ty.nullable {
            "'"@ + n + "': instance."@ + n + " == null ? null : const "@ + c.name
                + "().toJson(instance."@ + n + "!)"@
        } else {
            "'"@ + n + "': const "@ + c.name + "().toJson(instance."@ + n + ")"@
        },
        None => if p.ty.name == "DateTime"@ {
            "'"@ + n + "': instance."@ + n + nullable_mark(p.ty.nullable) + ".toIso8601String()"@
        } else {
            "'"@ + n + "': instance."@ + n
        },
    }
}

fn to_json_field_gen(output: &mut String, parameter: &PositionalParameter)
    ensures
        final(output)@ == old(output)@ + encode_entry(parameter@),
{
    let ghost start = output@;
    let name = parameter.name.as_str();
    match find_converter(&parameter.annotations) {
        Some(converter) => {
            if parameter.dart_type.nullable {
                output.append("'");
                output.append(name);
                output.append("': instance.");
                output.append(name);
                output.append(" == null ? null : const ");
                output.append(converter.name.as_str());
                output.append("().toJson(instance.");
                output.append(name);
                output.append("!)");
            } else {
                output.append("'");
                output.append(name);
                output.append("': const ");
                output.append(converter.name.as_str());
                output.append("().toJson(instance.");
                output.append(name);
                output.append(")");
            }
        },
        None => {
            output.append("'");
            output.append(name);
            output.append("': instance.");
            output.append(name);
            if text_eq(parameter.dart_type.name.as_str(), "DateTime") {
                append_nullable(output, parameter.dart_type.nullable);
                output.append(".toIso8601String()");
            }
        },
    }
    proof {
        assert(output@ =~= start + encode_entry(parameter@));
    }
}

pub open spec fn encode_line(p: ParamView) -> Seq<char> {
    "    "@ + encode_entry(p) + ",\n"@
}

#[verifier::opaque]
pub open spec fn to_json_function_text(
    to_json_name: Seq<char>,
    class_name: Seq<char>,
    fields: Seq<ParamView>,
) -> Seq<char> {
    "Map<String, dynamic> _$"@ + to_json_name + "ToJson("@ + class_name
        + " instance) =>\n    <String, dynamic>{\n"@ + concat_map(fields, |p: ParamView| encode_line(p))
        + "    };\n"@
}

/// The module-level encode function `_$<name>ToJson`: one map entry per field.
pub fn to_json_function_generator(
    output: &mut String,
    to_json_name: &str,
    class_name: &str,
    fields: &[PositionalParameter],
)
    ensures
        final(output)@ == old(output)@ + to_json_function_text(
            to_json_name@,
            class_name@,
            param_views(fields@),
        ),
{
    reveal(to_json_function_text);
    let ghost start = output@;
    output.append("Map<String, dynamic> _$");
    output.append(to_json_name);
    output.append("ToJson(");
    output.append(class_name);
    output.append(" instance) =>\n    <String, dynamic>{\n");
    let ghost h = output@;
    let ghost views = param_views(fields@);
    let mut i: usize = 0;
    while i < fields.len()
        invariant
            i <= fields@.len(),
            views == param_views(fields@),
            output@ == h + concat_map(views.take(i as int), |p: ParamView| encode_line(p)),
        decreases fields.len() - i,
    {
        output.append("    ");
        to_json_field_gen(output, &fields[i]);
        output.append(",\n");
        proof {
            lemma_concat_map_step(views, i as int, |p: ParamView| encode_line(p));
            assert(output@ =~= h + concat_map(views.take(i + 1), |p: ParamView| encode_line(p)));
        }
        i += 1;
    }
    output.append("    };\n");
    proof {
        lemma_concat_map_all(views, |p: ParamView| encode_line(p));
        assert(output@ =~= start + to_json_function_text(to_json_name@, class_name@, views));
    }
}

} // verus!
