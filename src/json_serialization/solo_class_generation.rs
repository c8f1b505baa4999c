//! The concrete class generated for one constructor variant.
use vstd::prelude::*;
use vstd::string::StringExecFns;
use crate::dart_types::{
    AnnotationView, DartType, NamedParameter, NamedParamView, ParamView, ParameterList,
    ParamsView, PositionalParameter, RedirectedConstructor, TypeView, all_params,
    annotation_views, default_annotation, default_text, defaults_ok, find_default,
    generic_text, get_generic_string, param_views, params_defaults_ok, plain_type, raw_text,
    type_views, types_with, clone_types,
};
use crate::json_serialization::copy_with_generation::{
    copywith_function_text, generate_mixin_copywith_function,
};
use crate::json_serialization::json_generation::{to_json_method_generator, to_json_method_text};
use crate::json_serialization::mixin_generation::{
    eq_operator_text, generate_eq_operator, generate_hash_operator, generate_to_string,
    hash_operator_text, to_string_text,
};
use crate::seq_text::{concat_map, lemma_add_assoc, lemma_concat_map_step, lemma_concat_map_all};

verus! {

/// What a generated class says about `toJson`.
pub enum JsonMethod {
    Omitted,
    Signature,
    Impl(String),
}

pub enum JsonMethodView {
    Omitted,
    Signature,
    Impl(Seq<char>),
}

impl View for JsonMethod {
    type V = JsonMethodView;

    open spec fn view(&self) -> JsonMethodView {
        match self {
            JsonMethod::Omitted => JsonMethodView::Omitted,
            JsonMethod::Signature => JsonMethodView::Signature,
            JsonMethod::Impl(name) => JsonMethodView::Impl(name@),
        }
    }
}

pub open spec fn json_method_text(m: JsonMethodView) -> Seq<char> {
    match m {
        JsonMethodView::Omitted => Seq::empty(),
        JsonMethodView::Signature => to_json_method_text(None) + "\n"@,
        JsonMethodView::Impl(name) => to_json_method_text(Some(name)) + "\n"@,
    }
}

pub fn generate_json_method(output: &mut String, class_to_json: &JsonMethod)
    ensures
        final(output)@ == old(output)@ + json_method_text(class_to_json@),
{
    let ghost start = output@;
    match class_to_json {
        JsonMethod::Omitted => {
            proof {
                assert(output@ =~= start + json_method_text(class_to_json@));
            }
        },
        JsonMethod::Signature => {
            to_json_method_generator(output, None);
            output.append("\n");
        },
        JsonMethod::Impl(name) => {
            to_json_method_generator(output, Some(name.as_str()));
            output.append("\n");
        },
    }
}

/// The class type `name<generics>` used as the last type argument of the
/// `copyWith` accessor.
pub open spec fn self_type_arg(class_name: Seq<char>, class_generics: Seq<TypeView>) -> TypeView {
    TypeView {
        name: raw_text(TypeView { name: class_name, nullable: false, args: class_generics }),
        nullable: false,
        args: Seq::empty(),
    }
}

pub open spec fn self_generics(class_name: Seq<char>, class_generics: Seq<TypeView>) -> Seq<char> {
    generic_text(class_generics.push(self_type_arg(class_name, class_generics)))
}

pub fn self_generics_string(class_name: &str, class_generics: &[DartType]) -> (r: String)
    ensures
        r@ == self_generics(class_name@, type_views(class_generics@)),
{
    let mut args: Vec<DartType> = Vec::new();
    let mut i: usize = 0;
    while i < class_generics.len()
        invariant
            i <= class_generics@.len(),
            args@.len() == i,
            forall|j: int| 0 <= j < i ==> #[trigger] args@[j]@ == class_generics@[j]@,
        decreases class_generics.len() - i,
    {
        args.push(class_generics[i].clone());
        i += 1;
    }
    proof {
        crate::dart_types::lemma_type_views(args@);
        crate::dart_types::lemma_type_views(class_generics@);
        assert(type_views(args@) =~= type_views(class_generics@));
    }
    let class_type = DartType { name: class_name.to_owned(), nullable: false, type_arguments: args };
    let raw = class_type.as_raw();
    let all = types_with(class_generics, plain_type(raw));
    get_generic_string(all.as_slice())
}

/// ` = <default>` for a parameter with a `Default` annotation, else nothing.
pub open spec fn default_suffix(anns: Seq<AnnotationView>) -> Seq<char> {
    match default_annotation(anns) {
        Some(a) => " = "@ + default_text(a.arguments[0]),
        None => Seq::empty(),
    }
}

fn default_suffix_string(anns: &Vec<crate::dart_types::Annotation>) -> (r: String)
    requires
        defaults_ok(annotation_views(anns@)),
    ensures
        r@ == default_suffix(annotation_views(anns@)),
{
    let mut out = String::new();
    match find_default(anns) {
        Some(d) => {
            proof {
                crate::dart_types::lemma_default_annotation(annotation_views(anns@));
            }
            let value = d.get_default_value();
            out.append(" = ");
            out.append(value.as_str());
        },
        None => {},
    }
    proof {
        assert(out@ =~= default_suffix(annotation_views(anns@)));
    }
    out
}

pub open spec fn named_parameter_text(p: NamedParamView) -> Seq<char> {
    (if p.is_required {
        "required "@
    } else {
        Seq::empty()
    }) + "this."@ + p.name + default_suffix(p.annotations)
}

/// A named constructor parameter: `required this.name = default`.
fn generate_named_parameter(output: &mut String, parameter: &NamedParameter)
    requires
        defaults_ok(parameter@.annotations),
    ensures
        final(output)@ == old(output)@ + named_parameter_text(parameter@),
{
    let ghost start = output@;
    if parameter.is_required {
        output.append("required ");
    }
    output.append("this.");
    output.append(parameter.name.as_str());
    let suffix = default_suffix_string(&parameter.annotations);
    output.append(suffix.as_str());
    proof {
        assert(output@ =~= start + named_parameter_text(parameter@));
    }
}

pub open spec fn positional_ctor_param(p: ParamView) -> Seq<char> {
    "this."@ + p.name + default_suffix(p.annotations) + ", "@
}

pub open spec fn named_ctor_param(p: NamedParamView) -> Seq<char> {
    named_parameter_text(p) + ","@
}

/// The constructor's parameter list between its parentheses.
pub open spec fn ctor_params_text(params: ParamsView) -> Seq<char> {
    concat_map(params.positional, |p: ParamView| positional_ctor_param(p)) + (if params.named.len() > 0 {
        "{"@ + concat_map(params.named, |p: NamedParamView| named_ctor_param(p)) + "}"@
    } else {
        Seq::empty()
    })
}

fn append_ctor_params(output: &mut String, parameters: &ParameterList)
    requires
        params_defaults_ok(parameters@),
    ensures
        final(output)@ == old(output)@ + ctor_params_text(parameters@),
{
    let ghost start = output@;
    let ghost pos = parameters@.positional;
    let mut i: usize = 0;
    while i < parameters.positional_parameters.len()
        invariant
            i <= parameters.positional_parameters@.len(),
            pos == parameters@.positional,
            params_defaults_ok(parameters@),
            output@ == start + concat_map(pos.take(i as int), |p: ParamView| positional_ctor_param(p)),
        decreases parameters.positional_parameters.len() - i,
    {
        let field = &parameters.positional_parameters[i];
        assert(defaults_ok(pos[i as int].annotations));
        let suffix = default_suffix_string(&field.annotations);
        output.append("this.");
        output.append(field.name.as_str());
        output.append(suffix.as_str());
        output.append(", ");
        proof {
            lemma_concat_map_step(pos, i as int, |p: ParamView| positional_ctor_param(p));
            assert(output@ =~= start + concat_map(pos.take(i + 1), |p: ParamView| positional_ctor_param(p)));
        }
        i += 1;
    }
    proof {
        lemma_concat_map_all(pos, |p: ParamView| positional_ctor_param(p));
    }
    if parameters.named_parameters.len() > 0 {
        output.append("{");
        let ghost h2 = output@;
        let ghost named = parameters@.named;
        let mut k: usize = 0;
        while k < parameters.named_parameters.len()
            invariant
                k <= parameters.named_parameters@.len(),
                named == parameters@.named,
                params_defaults_ok(parameters@),
                output@ == h2 + concat_map(named.take(k as int), |p: NamedParamView| named_ctor_param(p)),
            decreases parameters.named_parameters.len() - k,
        {
            assert(defaults_ok(named[k as int].annotations));
            generate_named_parameter(output, &parameters.named_parameters[k]);
            output.append(",");
            proof {
                lemma_concat_map_step(named, k as int, |p: NamedParamView| named_ctor_param(p));
                assert(output@ =~= h2 + concat_map(named.take(k + 1), |p: NamedParamView| named_ctor_param(p)));
            }
            k += 1;
        }
        proof {
            lemma_concat_map_all(named, |p: NamedParamView| named_ctor_param(p));
        }
        output.append("}");
    }
    proof {
        assert(output@ =~= start + ctor_params_text(parameters@));
    }
}

pub open spec fn field_decl(p: ParamView) -> Seq<char> {
    "  final "@ + raw_text(p.ty) + " "@ + p.name + ";"@
}

fn append_field_decls(output: &mut String, fields: &Vec<PositionalParameter>)
    ensures
        final(output)@ == old(output)@ + concat_map(param_views(fields@), |p: ParamView| field_decl(p)),
{
    let ghost start = output@;
    let ghost views = param_views(fields@);
    let mut i: usize = 0;
    while i < fields.len()
        invariant
            i <= fields@.len(),
            views == param_views(fields@),
            output@ == start + concat_map(views.take(i as int), |p: ParamView| field_decl(p)),
        decreases fields.len() - i,
    {
        let raw = fields[i].dart_type.as_raw();
        output.append("  final ");
        output.append(raw.as_str());
        output.append(" ");
        output.append(fields[i].name.as_str());
        output.append(";");
        proof {
            lemma_concat_map_step(views, i as int, |p: ParamView| field_decl(p));
            assert(output@ =~= start + concat_map(views.take(i + 1), |p: ParamView| field_decl(p)));
        }
        i += 1;
    }
    proof {
        lemma_concat_map_all(views, |p: ParamView| field_decl(p));
    }
}

/// The class line and the start of the constructor.
pub open spec fn solo_head_text(
    class_name: Seq<char>,
    jg: Seq<char>,
    redirected_name: Seq<char>,
    is_const: bool,
    has_unnamed: bool,
) -> Seq<char> {
    "class "@ + redirected_name + jg + " "@ + (if has_unnamed {
        "extends "@
    } else {
        "implements "@
    }) + class_name + jg + " {\n"@ + (if is_const {
        "const\n"@
    } else {
        Seq::empty()
    }) + redirected_name + "(\n"@
}

fn solo_head_string(
    class_name: &str,
    jg: &str,
    redirected_name: &str,
    is_const: bool,
    has_unnamed: bool,
) -> (r: String)
    ensures
        r@ == solo_head_text(class_name@, jg@, redirected_name@, is_const, has_unnamed),
{
    let mut out = String::new();
    out.append("class ");
    out.append(redirected_name);
    out.append(jg);
    out.append(" ");
    if has_unnamed {
        out.append("extends ");
    } else {
        out.append("implements ");
    }
    out.append(class_name);
    out.append(jg);
    out.append(" {\n");
    if is_const {
        out.append("const\n");
    }
    out.append(redirected_name);
    out.append("(\n");
    proof {
        assert(out@ =~= solo_head_text(class_name@, jg@, redirected_name@, is_const, has_unnamed));
    }
    out
}

/// The members after the field declarations: `==`, `hashCode`, `toString`,
/// the `copyWith` accessor when there are fields, and `toJson`.
pub open spec fn solo_members_text(
    class_name: Seq<char>,
    class_generics: Seq<TypeView>,
    redirected_name: Seq<char>,
    fields: Seq<ParamView>,
    class_to_json: JsonMethodView,
) -> Seq<char> {
    let jg = generic_text(class_generics);
    eq_operator_text(redirected_name + jg, fields) + "\n"@ + hash_operator_text(fields) + "\n"@
        + to_string_text(class_name, fields, true) + "\n"@ + (if fields.len() > 0 {
        copywith_function_text(redirected_name, self_generics(class_name, class_generics), jg)
            + "\n"@
    } else {
        Seq::empty()
    }) + json_method_text(class_to_json) + "}\n"@
}

#[verifier::opaque]
pub open spec fn solo_class_text(
    class_name: Seq<char>,
    class_generics: Seq<TypeView>,
    class_to_json: JsonMethodView,
    redirected_name: Seq<char>,
    parameters: ParamsView,
    is_const: bool,
    has_unnamed: bool,
) -> Seq<char> {
    let jg = generic_text(class_generics);
    solo_head_text(class_name, jg, redirected_name, is_const, has_unnamed) + ctor_params_text(
        parameters,
    ) + (if has_unnamed {
        "): super._();\n"@
    } else {
        ");\n"@
    }) + concat_map(all_params(parameters), |p: ParamView| field_decl(p)) + solo_members_text(
        class_name,
        class_generics,
        redirected_name,
        all_params(parameters),
        class_to_json,
    )
}

fn append_solo_members(
    output: &mut String,
    class_name: &str,
    class_generics: &[DartType],
    redirected_name: &str,
    fields: &Vec<PositionalParameter>,
    class_to_json: &JsonMethod,
)
    ensures
        final(output)@ == old(output)@ + solo_members_text(
            class_name@,
            type_views(class_generics@),
            redirected_name@,
            param_views(fields@),
            class_to_json@,
        ),
{
    let ghost start = output@;
    let ghost views = param_views(fields@);
    let ghost gens = type_views(class_generics@);
    let just_generics = get_generic_string(class_generics);
    let ghost jg = just_generics@;
    let mut redirected_type = String::new();
    redirected_type.append(redirected_name);
    redirected_type.append(just_generics.as_str());
    generate_eq_operator(output, redirected_type.as_str(), fields.as_slice());
    let ghost mut acc = eq_operator_text(redirected_name@ + jg, views);
    output.append("\n");
    proof {
        lemma_add_assoc(start, acc, "\n"@);
        acc = acc + "\n"@;
    }
    generate_hash_operator(output, fields.as_slice());
    proof {
        lemma_add_assoc(start, acc, hash_operator_text(views));
        acc = acc + hash_operator_text(views);
    }
    output.append("\n");
    proof {
        lemma_add_assoc(start, acc, "\n"@);
        acc = acc + "\n"@;
    }
    generate_to_string(output, class_name, fields.as_slice(), true);
    proof {
        lemma_add_assoc(start, acc, to_string_text(class_name@, views, true));
        acc = acc + to_string_text(class_name@, views, true);
    }
    output.append("\n");
    proof {
        lemma_add_assoc(start, acc, "\n"@);
        acc = acc + "\n"@;
    }
    let ghost copy_part = if views.len() > 0 {
        copywith_function_text(redirected_name@, self_generics(class_name@, gens), jg) + "\n"@
    } else {
        Seq::empty()
    };
    if fields.len() > 0 {
        let use_generics = self_generics_string(class_name, class_generics);
        generate_mixin_copywith_function(
            output,
            redirected_name,
            use_generics.as_str(),
            just_generics.as_str(),
        );
        output.append("\n");
        proof {
            lemma_add_assoc(start + acc, copywith_function_text(redirected_name@, self_generics(class_name@, gens), jg), "\n"@);
        }
    } else {
        assert(output@ =~= start + acc + copy_part);
    }
    proof {
        lemma_add_assoc(start, acc, copy_part);
        acc = acc + copy_part;
    }
    generate_json_method(output, class_to_json);
    proof {
        lemma_add_assoc(start, acc, json_method_text(class_to_json@));
        acc = acc + json_method_text(class_to_json@);
    }
    output.append("}\n");
    proof {
        lemma_add_assoc(start, acc, "}\n"@);
        acc = acc + "}\n"@;
        assert(acc == solo_members_text(class_name@, gens, redirected_name@, views, class_to_json@));
    }
}

/// The concrete class of one variant: it extends the class when the class
/// declares the private unnamed constructor and implements it otherwise;
/// its constructor assigns every field (with `Default` values filled in),
/// followed by the field declarations, `==`, `hashCode`, `toString`,
/// `copyWith` and `toJson`.
pub fn generate_solo_class(
    output: &mut String,
    class_name: &str,
    class_generics: &[DartType],
    class_to_json: JsonMethod,
    redirected_name: &str,
    parameters: &ParameterList,
    is_const: bool,
    unnamed_constructor: &Option<RedirectedConstructor>,
)
    requires
        params_defaults_ok(parameters@),
    ensures
        final(output)@ == old(output)@ + solo_class_text(
            class_name@,
            type_views(class_generics@),
            class_to_json@,
            redirected_name@,
            parameters@,
            is_const,
            unnamed_constructor is Some,
        ),
{
    reveal(solo_class_text);
    let ghost start = output@;
    let ghost gens = type_views(class_generics@);
    let has_unnamed = unnamed_constructor.is_some();
    let just_generics = get_generic_string(class_generics);
    let head = solo_head_string(
        class_name,
        just_generics.as_str(),
        redirected_name,
        is_const,
        has_unnamed,
    );
    output.append(head.as_str());
    let ghost mut acc = head@;
    append_ctor_params(output, parameters);
    proof {
        lemma_add_assoc(start, acc, ctor_params_text(parameters@));
        acc = acc + ctor_params_text(parameters@);
    }
    let ghost close = if has_unnamed {
        "): super._();\n"@
    } else {
        ");\n"@
    };
    if has_unnamed {
        output.append("): super._();\n");
    } else {
        output.append(");\n");
    }
    proof {
        lemma_add_assoc(start, acc, close);
        acc = acc + close;
    }
    let all = parameters.get_all_params();
    append_field_decls(output, &all);
    proof {
        lemma_add_assoc(start, acc, concat_map(param_views(all@), |p: ParamView| field_decl(p)));
        acc = acc + concat_map(param_views(all@), |p: ParamView| field_decl(p));
    }
    append_solo_members(output, class_name, class_generics, redirected_name, &all, &class_to_json);
    proof {
        let members = solo_members_text(class_name@, gens, redirected_name@, param_views(all@), class_to_json@);
        lemma_add_assoc(start, acc, members);
        acc = acc + members;
        assert(acc == solo_class_text(
            class_name@,
            gens,
            class_to_json@,
            redirected_name@,
            parameters@,
            is_const,
            unnamed_constructor is Some,
        ));
    }
}

} // verus!
