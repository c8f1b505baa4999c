//! The mixin that every generated class shares: getters, `==`, `hashCode`,
//! `toString`, and the field-introspection helpers.
use vstd::prelude::*;
use vstd::string::StringExecFns;
use crate::dart_types::{
    DartType, PositionalParameter, ParamView, TypeView, param_views, raw_text, is_collection_name,
};
use crate::dart_types::{generic_text, get_generic_string, type_views};
use crate::json_serialization::copy_with_generation::{
    copywith_function_text, generate_mixin_copywith_function,
};
use crate::json_serialization::solo_class_generation::{
    JsonMethod, JsonMethodView, generate_json_method, json_method_text, self_generics, self_generics_string,
};
use crate::seq_text::{concat_map, lemma_add_assoc, lemma_concat_map_step, lemma_concat_map_all};

verus! {

pub open spec fn getter_line(p: ParamView) -> Seq<char> {
    "  "@ + raw_text(p.ty) + " get "@ + p.name + ";\n"@
}

pub open spec fn getters_text(fields: Seq<ParamView>) -> Seq<char> {
    concat_map(fields, |p: ParamView| getter_line(p))
}

/// One abstract getter per field, in order.
pub fn generate_mixin_getters(output: &mut String, fields: &[PositionalParameter])
    ensures
        final(output)@ == old(output)@ + getters_text(param_views(fields@)),
{
    let ghost start = output@;
    let ghost views = param_views(fields@);
    let mut i: usize = 0;
    while i < fields.len()
        invariant
            i <= fields@.len(),
            views == param_views(fields@),
            output@ == start + concat_map(views.take(i as int), |p: ParamView| getter_line(p)),
        decreases fields.len() - i,
    {
        let field = &fields[i];
        let raw = field.dart_type.as_raw();
        output.append("  ");
        output.append(raw.as_str());
        output.append(" get ");
        output.append(field.name.as_str());
        output.append(";\n");
        proof {
            lemma_concat_map_step(views, i as int, |p: ParamView| getter_line(p));
            assert(output@ =~= start + concat_map(views.take(i + 1), |p: ParamView| getter_line(p)));
        }
        i += 1;
    }
    proof {
        lemma_concat_map_all(views, |p: ParamView| getter_line(p));
    }
}

/// How a field is compared in `==`: deeply for the built-in collections,
/// by identity or `==` for every other type.
pub open spec fn comparator_text(name: Seq<char>, t: TypeView) -> Seq<char> {
    if is_collection_name(t.name) {
        "const DeepCollectionEquality().equals(other."@ + name + ", "@ + name + ")"@
    } else {
        "(identical(other."@ + name + ", "@ + name + ") \n             || other."@ + name
            + " == "@ + name + ")"@
    }
}

pub fn generate_comparator(output: &mut String, field_name: &str, dart_type: &DartType)
    ensures
        final(output)@ == old(output)@ + comparator_text(field_name@, dart_type@),
{
    let ghost start = output@;
    if dart_type.is_collection() {
        output.append("const DeepCollectionEquality().equals(other.");
        output.append(field_name);
        output.append(", ");
        output.append(field_name);
        output.append(")");
    } else {
        output.append("(identical(other.");
        output.append(field_name);
        output.append(", ");
        output.append(field_name);
        output.append(") \n             || other.");
        output.append(field_name);
        output.append(" == ");
        output.append(field_name);
        output.append(")");
    }
    proof {
        assert(output@ =~= start + comparator_text(field_name@, dart_type@));
    }
}

pub open spec fn eq_line(p: ParamView) -> Seq<char> {
    "         && "@ + comparator_text(p.name, p.ty) + "\n"@
}

pub open spec fn eq_operator_text(mixin_type: Seq<char>, fields: Seq<ParamView>) -> Seq<char> {
    "  @override\n  bool operator ==(Object other) {\n    return identical(this, other) ||\n      (other.runtimeType == runtimeType &&\n         other is "@
        + mixin_type + "\n"@ + concat_map(fields, |p: ParamView| eq_line(p))
        + "       );\n  }\n"@
}

/// The `==` override: same runtime type, then every field compared in order.
pub fn generate_eq_operator(output: &mut String, mixin_type: &str, fields: &[PositionalParameter])
    ensures
        final(output)@ == old(output)@ + eq_operator_text(mixin_type@, param_views(fields@)),
{
    let ghost start = output@;
    let ghost views = param_views(fields@);
    output.append("  @override\n  bool operator ==(Object other) {\n    return identical(this, other) ||\n      (other.runtimeType == runtimeType &&\n         other is ");
    output.append(mixin_type);
    output.append("\n");
    let ghost head = output@;
    let mut i: usize = 0;
    while i < fields.len()
        invariant
            i <= fields@.len(),
            views == param_views(fields@),
            output@ == head + concat_map(views.take(i as int), |p: ParamView| eq_line(p)),
        decreases fields.len() - i,
    {
        let field = &fields[i];
        output.append("         && ");
        generate_comparator(output, field.name.as_str(), &field.dart_type);
        output.append("\n");
        proof {
            lemma_concat_map_step(views, i as int, |p: ParamView| eq_line(p));
            assert(output@ =~= head + concat_map(views.take(i + 1), |p: ParamView| eq_line(p)));
        }
        i += 1;
    }
    output.append("       );\n  }\n");
    proof {
        lemma_concat_map_all(views, |p: ParamView| eq_line(p));
        assert(output@ =~= start + eq_operator_text(mixin_type@, views));
    }
}

/// A field's contribution to `hashCode`: a deep hash for the built-in
/// collections, the field itself otherwise.
pub open spec fn hash_line_text(name: Seq<char>, t: TypeView) -> Seq<char> {
    if is_collection_name(t.name) {
        "const DeepCollectionEquality().hash("@ + name + ")"@
    } else {
        name
    }
}

pub fn generate_hash_line(output: &mut String, field_name: &str, dart_type: &DartType)
    ensures
        final(output)@ == old(output)@ + hash_line_text(field_name@, dart_type@),
{
    let ghost start = output@;
    if dart_type.is_collection() {
        output.append("const DeepCollectionEquality().hash(");
        output.append(field_name);
        output.append(")");
    } else {
        output.append(field_name);
    }
    proof {
        assert(output@ =~= start + hash_line_text(field_name@, dart_type@));
    }
}

/// Above this many fields `hashCode` uses `Object.hashAll`, whose arity is
/// not fixed.
pub const HASH_ARITY_LIMIT: usize = 19;

pub open spec fn hash_entry(p: ParamView) -> Seq<char> {
    "    "@ + hash_line_text(p.name, p.ty) + ",\n"@
}

pub open spec fn hash_operator_text(fields: Seq<ParamView>) -> Seq<char> {
    if fields.len() == 0 {
        "  @override\n  int get hashCode => runtimeType.hashCode;\n"@
    } else if fields.len() > HASH_ARITY_LIMIT {
        "  @override\n  int get hashCode => Object.hashAll([\n    runtimeType,\n"@
            + concat_map(fields, |p: ParamView| hash_entry(p)) + "  ]);\n"@
    } else {
        "  @override\n  int get hashCode => Object.hash(\n    runtimeType,\n"@
            + concat_map(fields, |p: ParamView| hash_entry(p)) + "  );\n"@
    }
}

/// The `hashCode` override over the runtime type and every field in order.
pub fn generate_hash_operator(output: &mut String, fields: &[PositionalParameter])
    ensures
        final(output)@ == old(output)@ + hash_operator_text(param_views(fields@)),
{
    let ghost start = output@;
    let ghost views = param_views(fields@);
    if fields.len() == 0 {
        output.append("  @override\n  int get hashCode => runtimeType.hashCode;\n");
        proof {
            assert(output@ =~= start + hash_operator_text(views));
        }
        return;
    }
    let many = fields.len() > HASH_ARITY_LIMIT;
    if many {
        output.append("  @override\n  int get hashCode => Object.hashAll([\n    runtimeType,\n");
    } else {
        output.append("  @override\n  int get hashCode => Object.hash(\n    runtimeType,\n");
    }
    let ghost head = output@;
    let mut i: usize = 0;
    while i < fields.len()
        invariant
            i <= fields@.len(),
            views == param_views(fields@),
            output@ == head + concat_map(views.take(i as int), |p: ParamView| hash_entry(p)),
        decreases fields.len() - i,
    {
        let field = &fields[i];
        output.append("    ");
        generate_hash_line(output, field.name.as_str(), &field.dart_type);
        output.append(",\n");
        proof {
            lemma_concat_map_step(views, i as int, |p: ParamView| hash_entry(p));
            assert(output@ =~= head + concat_map(views.take(i + 1), |p: ParamView| hash_entry(p)));
        }
        i += 1;
    }
    if many {
        output.append("  ]);\n");
    } else {
        output.append("  );\n");
    }
    proof {
        lemma_concat_map_all(views, |p: ParamView| hash_entry(p));
        assert(output@ =~= start + hash_operator_text(views));
    }
}

pub open spec fn to_string_entry(p: ParamView) -> Seq<char> {
    p.name + ": $"@ + p.name + ", "@
}

pub open spec fn to_string_text(class_name: Seq<char>, fields: Seq<ParamView>, override_f: bool) -> Seq<char> {
    (if override_f {
        "  @override"@
    } else {
        Seq::empty()
    }) + "  String toString() {\n      return '"@ + class_name + "("@
        + concat_map(fields, |p: ParamView| to_string_entry(p)) + ")';\n  }\n"@
}

/// The `toString` override: the class name and `name: value` for each field.
pub fn generate_to_string(
    output: &mut String,
    class_name: &str,
    fields: &[PositionalParameter],
    override_f: bool,
)
    ensures
        final(output)@ == old(output)@ + to_string_text(class_name@, param_views(fields@), override_f),
{
    let ghost start = output@;
    let ghost views = param_views(fields@);
    if override_f {
        output.append("  @override");
    }
    output.append("  String toString() {\n      return '");
    output.append(class_name);
    output.append("(");
    let ghost head = output@;
    let mut i: usize = 0;
    while i < fields.len()
        invariant
            i <= fields@.len(),
            views == param_views(fields@),
            output@ == head + concat_map(views.take(i as int), |p: ParamView| to_string_entry(p)),
        decreases fields.len() - i,
    {
        let field = &fields[i];
        output.append(field.name.as_str());
        output.append(": $");
        output.append(field.name.as_str());
        output.append(", ");
        proof {
            lemma_concat_map_step(views, i as int, |p: ParamView| to_string_entry(p));
            assert(output@ =~= head + concat_map(views.take(i + 1), |p: ParamView| to_string_entry(p)));
        }
        i += 1;
    }
    output.append(")';\n  }\n");
    proof {
        lemma_concat_map_all(views, |p: ParamView| to_string_entry(p));
        assert(output@ =~= start + to_string_text(class_name@, views, override_f));
    }
}

pub open spec fn getset_entry(class_name: Seq<char>, p: ParamView) -> Seq<char> {
    raw_text(p.ty) + " $get$"@ + class_name + "$"@ + p.name + "("@ + class_name
        + " value) => value."@ + p.name + ";\n  "@ + class_name + " $set$"@ + class_name + "$"@
        + p.name + "("@ + class_name + " data, "@ + raw_text(p.ty) + " value) => data.copyWith("@
        + p.name + ": value);\n"@
}

pub open spec fn getset_functions_text(class_name: Seq<char>, fields: Seq<ParamView>) -> Seq<char> {
    concat_map(fields, |p: ParamView| getset_entry(class_name, p))
}

fn getset_entry_string(class_name: &str, field: &PositionalParameter) -> (r: String)
    ensures
        r@ == getset_entry(class_name@, field@),
{
    let raw = field.dart_type.as_raw();
    let name = field.name.as_str();
    let mut getter = String::new();
    getter.append(raw.as_str());
    getter.append(" $get$");
    getter.append(class_name);
    getter.append("$");
    getter.append(name);
    getter.append("(");
    getter.append(class_name);
    getter.append(" value) => value.");
    getter.append(name);
    getter.append(";\n  ");
    let mut setter = String::new();
    setter.append(class_name);
    setter.append(" $set$");
    setter.append(class_name);
    setter.append("$");
    setter.append(name);
    setter.append("(");
    setter.append(class_name);
    setter.append(" data, ");
    setter.append(raw.as_str());
    setter.append(" value) => data.copyWith(");
    setter.append(name);
    setter.append(": value);\n");
    getter.append(setter.as_str());
    proof {
        assert(getter@ =~= getset_entry(class_name@, field@));
    }
    getter
}

/// A top-level getter and setter function for each field.
pub fn generate_mixin_getset_functions(
    class_name: &str,
    output: &mut String,
    fields: &[PositionalParameter],
)
    ensures
        final(output)@ == old(output)@ + getset_functions_text(class_name@, param_views(fields@)),
{
    let ghost start = output@;
    let ghost views = param_views(fields@);
    let ghost c = class_name@;
    let mut i: usize = 0;
    while i < fields.len()
        invariant
            i <= fields@.len(),
            views == param_views(fields@),
            c == class_name@,
            output@ == start + concat_map(views.take(i as int), |p: ParamView| getset_entry(c, p)),
        decreases fields.len() - i,
    {
        let entry = getset_entry_string(class_name, &fields[i]);
        output.append(entry.as_str());
        proof {
            lemma_concat_map_step(views, i as int, |p: ParamView| getset_entry(c, p));
            assert(output@ =~= start + concat_map(views.take(i + 1), |p: ParamView| getset_entry(c, p)));
        }
        i += 1;
    }
    proof {
        lemma_concat_map_all(views, |p: ParamView| getset_entry(c, p));
    }
}

pub open spec fn field_const_entry(class_name: Seq<char>, p: ParamView) -> Seq<char> {
    "  static const "@ + p.name + " = ($get$"@ + class_name + "$"@ + p.name + ", $set$"@
        + class_name + "$"@ + p.name + ");\n"@
}

pub open spec fn field_set_entry(p: ParamView) -> Seq<char> {
    "  #"@ + p.name + ": "@ + p.name + ",\n"@
}

pub open spec fn introspection_text(class_name: Seq<char>, fields: Seq<ParamView>) -> Seq<char> {
    "class "@ + class_name + "Fields {\n"@
        + concat_map(fields, |p: ParamView| field_const_entry(class_name, p))
        + "static const $all = {\n"@ + concat_map(fields, |p: ParamView| field_set_entry(p))
        + "  };\n}\n"@ + getset_functions_text(class_name, fields)
}

/// A `<Class>Fields` class naming each field's getter/setter pair, followed
/// by those functions.
pub fn generate_introspection_class(
    output: &mut String,
    class_name: &str,
    fields: &[PositionalParameter],
)
    ensures
        final(output)@ == old(output)@ + introspection_text(class_name@, param_views(fields@)),
{
    let ghost start = output@;
    let ghost views = param_views(fields@);
    let ghost c = class_name@;
    output.append("class ");
    output.append(class_name);
    output.append("Fields {\n");
    let ghost head = output@;
    let mut i: usize = 0;
    while i < fields.len()
        invariant
            i <= fields@.len(),
            views == param_views(fields@),
            c == class_name@,
            output@ == head + concat_map(views.take(i as int), |p: ParamView| field_const_entry(c, p)),
        decreases fields.len() - i,
    {
        let name = fields[i].name.as_str();
        output.append("  static const ");
        output.append(name);
        output.append(" = ($get$");
        output.append(class_name);
        output.append("$");
        output.append(name);
        output.append(", $set$");
        output.append(class_name);
        output.append("$");
        output.append(name);
        output.append(");\n");
        proof {
            lemma_concat_map_step(views, i as int, |p: ParamView| field_const_entry(c, p));
            assert(output@ =~= head + concat_map(views.take(i + 1), |p: ParamView| field_const_entry(c, p)));
        }
        i += 1;
    }
    proof {
        lemma_concat_map_all(views, |p: ParamView| field_const_entry(c, p));
    }
    output.append("static const $all = {\n");
    let ghost mid = output@;
    let mut k: usize = 0;
    while k < fields.len()
        invariant
            k <= fields@.len(),
            views == param_views(fields@),
            output@ == mid + concat_map(views.take(k as int), |p: ParamView| field_set_entry(p)),
        decreases fields.len() - k,
    {
        let name = fields[k].name.as_str();
        output.append("  #");
        output.append(name);
        output.append(": ");
        output.append(name);
        output.append(",\n");
        proof {
            lemma_concat_map_step(views, k as int, |p: ParamView| field_set_entry(p));
            assert(output@ =~= mid + concat_map(views.take(k + 1), |p: ParamView| field_set_entry(p)));
        }
        k += 1;
    }
    proof {
        lemma_concat_map_all(views, |p: ParamView| field_set_entry(p));
    }
    output.append("  };\n}\n");
    generate_mixin_getset_functions(class_name, output, fields);
    proof {
        assert(output@ =~= start + introspection_text(c, views));
    }
}

#[verifier::opaque]
pub open spec fn mixin_text(
    mixin_type: Seq<char>,
    class_name: Seq<char>,
    class_generics: Seq<TypeView>,
    fields: Seq<ParamView>,
    class_to_json: JsonMethodView,
) -> Seq<char> {
    "/// @nodoc\nmixin "@ + mixin_type + " {\n"@ + getters_text(fields) + "\n"@ + eq_operator_text(
        mixin_type,
        fields,
    ) + "\n"@ + hash_operator_text(fields) + "\n"@ + (if fields.len() > 0 {
        copywith_function_text(
            class_name,
            self_generics(class_name, class_generics),
            generic_text(class_generics),
        ) + "\n"@
    } else {
        Seq::empty()
    }) + to_string_text(class_name, fields, false) + "\n"@ + json_method_text(class_to_json)
        + "}\n"@
}

/// The mixin shared by all variants: a getter for each shared field, `==`,
/// `hashCode`, the `copyWith` accessor when there are fields, `toString`, and
/// `toJson` as `class_to_json` says.
pub fn generate_mixin(
    output: &mut String,
    mixin_type: &str,
    class_name: &str,
    class_generics: &[DartType],
    fields: &[PositionalParameter],
    class_to_json: &JsonMethod,
)
    ensures
        final(output)@ == old(output)@ + mixin_text(
            mixin_type@,
            class_name@,
            type_views(class_generics@),
            param_views(fields@),
            class_to_json@,
        ),
{
    reveal(mixin_text);
    let ghost start = output@;
    let ghost views = param_views(fields@);
    let ghost gens = type_views(class_generics@);
    output.append("/// @nodoc\nmixin ");
    output.append(mixin_type);
    output.append(" {\n");
    let ghost mut acc = "/// @nodoc\nmixin "@ + mixin_type@ + " {\n"@;
    assert(output@ =~= start + acc);
    generate_mixin_getters(output, fields);
    proof {
        lemma_add_assoc(start, acc, getters_text(views));
        acc = acc + getters_text(views);
    }
    output.append("\n");
    proof {
        lemma_add_assoc(start, acc, "\n"@);
        acc = acc + "\n"@;
    }
    generate_eq_operator(output, mixin_type, fields);
    proof {
        lemma_add_assoc(start, acc, eq_operator_text(mixin_type@, views));
        acc = acc + eq_operator_text(mixin_type@, views);
    }
    output.append("\n");
    proof {
        lemma_add_assoc(start, acc, "\n"@);
        acc = acc + "\n"@;
    }
    generate_hash_operator(output, fields);
    proof {
        lemma_add_assoc(start, acc, hash_operator_text(views));
        acc = acc + hash_operator_text(views);
    }
    output.append("\n");
    proof {
        lemma_add_assoc(start, acc, "\n"@);
        acc = acc + "\n"@;
    }
    let ghost copy_part = if views.len() > 0 {
        copywith_function_text(class_name@, self_generics(class_name@, gens), generic_text(gens))
            + "\n"@
    } else {
        Seq::empty()
    };
    if fields.len() > 0 {
        let copywith_generics = self_generics_string(class_name, class_generics);
        let just_generics = get_generic_string(class_generics);
        generate_mixin_copywith_function(
            output,
            class_name,
            copywith_generics.as_str(),
            just_generics.as_str(),
        );
        output.append("\n");
        proof {
            lemma_add_assoc(start + acc, copywith_function_text(class_name@, self_generics(class_name@, gens), generic_text(gens)), "\n"@);
        }
    } else {
        assert(output@ =~= start + acc + copy_part);
    }
    proof {
        lemma_add_assoc(start, acc, copy_part);
        acc = acc + copy_part;
    }
    generate_to_string(output, class_name, fields, false);
    proof {
        lemma_add_assoc(start, acc, to_string_text(class_name@, views, false));
        acc = acc + to_string_text(class_name@, views, false);
    }
    output.append("\n");
    proof {
        lemma_add_assoc(start, acc, "\n"@);
        acc = acc + "\n"@;
    }
    generate_json_method(output, class_to_json);
    proof {
        lemma_add_assoc(start, acc, json_method_text(class_to_json@));
        acc = acc + json_method_text(class_to_json@);
    }
    output.append("}\n");
    proof {
        lemma_add_assoc(start, acc, "}\n"@);
        acc = acc + "}\n"@;
        assert(acc == mixin_text(mixin_type@, class_name@, gens, views, class_to_json@));
    }
}

/// The equality policy: a field whose type is named `List`, `Map` or `Set`
/// is compared and hashed deeply, whatever its type arguments and
/// nullability; a field of any other type by identity or `==`, and hashed as
/// itself.
pub proof fn lemma_equality_policy(name: Seq<char>, t: TypeView)
    ensures
        (t.name == "List"@ || t.name == "Map"@ || t.name == "Set"@) ==> comparator_text(name, t)
            == "const DeepCollectionEquality().equals(other."@ + name + ", "@ + name + ")"@
            && hash_line_text(name, t) == "const DeepCollectionEquality().hash("@ + name + ")"@,
        !(t.name == "List"@ || t.name == "Map"@ || t.name == "Set"@) ==> comparator_text(name, t)
            == "(identical(other."@ + name + ", "@ + name + ") \n             || other."@ + name
            + " == "@ + name + ")"@ && hash_line_text(name, t) == name,
{
}

} // verus!
