//! The `copyWith` machinery: the accessor, the abstract contract and the
//! implementation class with its `call` method.
use vstd::prelude::*;
use vstd::string::StringExecFns;
use crate::dart_types::{
    DartType, ParameterList, PositionalParameter, NamedParameter, named_views, ParamView, ParamsView, NamedParamView, TypeView, all_params,
    generic_text, get_generic_string, param_views, plain_type, raw_text, type_views, types_with,
};
use crate::seq_text::{concat_map, lemma_concat_map_step, lemma_concat_map_all};

verus! {

pub open spec fn copywith_function_text(
    class_name: Seq<char>,
    use_generics: Seq<char>,
    class_generics: Seq<char>,
) -> Seq<char> {
    "  @pragma('vm:prefer-inline')\n  $"@ + class_name + "CopyWith"@ + use_generics
        + " get copyWith =>\n    _$"@ + class_name + "CopyWithImpl"@ + use_generics + "(this as "@
        + class_name + class_generics + ", _$identity);\n"@
}

/// The `copyWith` getter that hands out the implementation class.
pub fn generate_mixin_copywith_function(
    output: &mut String,
    class_name: &str,
    copywith_use_generics: &str,
    class_generics: &str,
)
    ensures
        final(output)@ == old(output)@ + copywith_function_text(
            class_name@,
            copywith_use_generics@,
            class_generics@,
        ),
{
    let ghost start = output@;
    output.append("  @pragma('vm:prefer-inline')\n  $");
    output.append(class_name);
    output.append("CopyWith");
    output.append(copywith_use_generics);
    output.append(" get copyWith =>\n    _$");
    output.append(class_name);
    output.append("CopyWithImpl");
    output.append(copywith_use_generics);
    output.append("(this as ");
    output.append(class_name);
    output.append(class_generics);
    output.append(", _$identity);\n");
    proof {
        assert(output@ =~= start + copywith_function_text(class_name@, copywith_use_generics@, class_generics@));
    }
}

/// The result type parameter `$Res` of the `copyWith` classes.
pub open spec fn res_type() -> TypeView {
    TypeView { name: "$Res"@, nullable: false, args: Seq::empty() }
}

/// The class's generic parameters followed by `$Res`, as text.
pub open spec fn res_generics(class_generics: Seq<TypeView>) -> Seq<char> {
    generic_text(class_generics.push(res_type()))
}

fn res_generics_string(class_generics: &[DartType]) -> (r: String)
    ensures
        r@ == res_generics(type_views(class_generics@)),
{
    let with_res = types_with(class_generics, plain_type("$Res".to_owned()));
    get_generic_string(with_res.as_slice())
}

pub open spec fn implements_text(implements: Option<Seq<char>>, copywith_generics: Seq<char>) -> Seq<char> {
    match implements {
        Some(k) => "implements $"@ + k + "CopyWith"@ + copywith_generics + " "@,
        None => Seq::empty(),
    }
}

pub open spec fn contract_param(p: ParamView) -> Seq<char> {
    "    "@ + raw_text(p.ty) + " "@ + p.name + ",\n"@
}

pub open spec fn empty_copywith_text(
    class_name: Seq<char>,
    cg: Seq<char>,
    jg: Seq<char>,
    implements_part: Seq<char>,
) -> Seq<char> {
    "class $"@ + class_name + "CopyWith"@ + cg + " "@ + implements_part + "{\n"@ + "  $"@
        + class_name + "CopyWith("@ + class_name + jg + " value, $Res Function("@ + class_name
        + ") _then);\n  }\n"@
}

pub open spec fn contract_head_text(
    class_name: Seq<char>,
    cg: Seq<char>,
    jg: Seq<char>,
    implements_part: Seq<char>,
) -> Seq<char> {
    "abstract mixin class $"@ + class_name + "CopyWith"@ + cg + " "@ + implements_part + "{\n"@
        + "  factory $"@ + class_name + "CopyWith("@ + class_name + jg
        + " value, $Res Function("@ + class_name + ") _then) =\n      _$"@ + class_name
        + "CopyWithImpl;\n  $Res call({\n"@
}

#[verifier::opaque]
pub open spec fn abstract_copywith_text(
    class_name: Seq<char>,
    class_generics: Seq<TypeView>,
    implements: Option<Seq<char>>,
    fields: Seq<ParamView>,
) -> Seq<char> {
    let cg = res_generics(class_generics);
    let jg = generic_text(class_generics);
    let ip = implements_text(implements, cg);
    if fields.len() == 0 {
        empty_copywith_text(class_name, cg, jg, ip)
    } else {
        contract_head_text(class_name, cg, jg, ip) + concat_map(fields, |p: ParamView| contract_param(p))
            + "  });\n}\n"@
    }
}

fn empty_copywith_string(class_name: &str, cg: &str, jg: &str, implements_part: &str) -> (r: String)
    ensures
        r@ == empty_copywith_text(class_name@, cg@, jg@, implements_part@),
{
    let mut out = String::new();
    out.append("class $");
    out.append(class_name);
    out.append("CopyWith");
    out.append(cg);
    out.append(" ");
    out.append(implements_part);
    out.append("{\n");
    out.append("  $");
    out.append(class_name);
    out.append("CopyWith(");
    out.append(class_name);
    out.append(jg);
    out.append(" value, $Res Function(");
    out.append(class_name);
    out.append(") _then);\n  }\n");
    proof {
        assert(out@ =~= empty_copywith_text(class_name@, cg@, jg@, implements_part@));
    }
    out
}

fn contract_head_string(class_name: &str, cg: &str, jg: &str, implements_part: &str) -> (r: String)
    ensures
        r@ == contract_head_text(class_name@, cg@, jg@, implements_part@),
{
    let mut out = String::new();
    out.append("abstract mixin class $");
    out.append(class_name);
    out.append("CopyWith");
    out.append(cg);
    out.append(" ");
    out.append(implements_part);
    out.append("{\n");
    out.append("  factory $");
    out.append(class_name);
    out.append("CopyWith(");
    out.append(class_name);
    out.append(jg);
    out.append(" value, $Res Function(");
    out.append(class_name);
    out.append(") _then) =\n      _$");
    out.append(class_name);
    out.append("CopyWithImpl;\n  $Res call({\n");
    proof {
        assert(out@ =~= contract_head_text(class_name@, cg@, jg@, implements_part@));
    }
    out
}

fn implements_string(implements: Option<&str>, cg: &str) -> (r: String)
    ensures
        r@ == implements_text(
            match implements {
                Some(k) => Some(k@),
                None => None,
            },
            cg@,
        ),
{
    let mut out = String::new();
    match implements {
        Some(class) => {
            out.append("implements $");
            out.append(class);
            out.append("CopyWith");
            out.append(cg);
            out.append(" ");
        },
        None => {},
    }
    proof {
        assert(out@ =~= implements_text(
            match implements {
                Some(k) => Some(k@),
                None => None,
            },
            cg@,
        ));
    }
    out
}

/// The abstract `copyWith` contract: `call` with every field as a named
/// parameter; with no fields, a class without `call`.
pub fn generate_abstract_copywith_mixin(
    output: &mut String,
    class_name: &str,
    class_generics: &[DartType],
    implements: Option<&str>,
    fields: &ParameterList,
)
    ensures
        final(output)@ == old(output)@ + abstract_copywith_text(
            class_name@,
            type_views(class_generics@),
            match implements {
                Some(k) => Some(k@),
                None => None,
            },
            all_params(fields@),
        ),
{
    reveal(abstract_copywith_text);
    let ghost start = output@;
    let copywith_generics = res_generics_string(class_generics);
    let just_generics = get_generic_string(class_generics);
    let implements_part = implements_string(implements, copywith_generics.as_str());
    let all = fields.get_all_params();
    let ghost views = param_views(all@);
    if all.len() == 0 {
        let text = empty_copywith_string(
            class_name,
            copywith_generics.as_str(),
            just_generics.as_str(),
            implements_part.as_str(),
        );
        output.append(text.as_str());
        return;
    }
    let head = contract_head_string(
        class_name,
        copywith_generics.as_str(),
        just_generics.as_str(),
        implements_part.as_str(),
    );
    output.append(head.as_str());
    let ghost h = output@;
    let mut i: usize = 0;
    while i < all.len()
        invariant
            i <= all@.len(),
            views == param_views(all@),
            output@ == h + concat_map(views.take(i as int), |p: ParamView| contract_param(p)),
        decreases all.len() - i,
    {
        let raw = all[i].dart_type.as_raw();
        output.append("    ");
        output.append(raw.as_str());
        output.append(" ");
        output.append(all[i].name.as_str());
        output.append(",\n");
        proof {
            lemma_concat_map_step(views, i as int, |p: ParamView| contract_param(p));
            assert(output@ =~= h + concat_map(views.take(i + 1), |p: ParamView| contract_param(p)));
        }
        i += 1;
    }
    output.append("  });\n}\n");
    proof {
        lemma_concat_map_all(views, |p: ParamView| contract_param(p));
        assert(output@ =~= start + head@ + concat_map(views, |p: ParamView| contract_param(p)) + "  });\n}\n"@);
    }
}

/// Whether a field's `copyWith` parameter defaults to the `freezed` sentinel
/// (so that an explicit `null` can be told from an omitted argument): the
/// field is nullable or untyped.
pub open spec fn uses_sentinel(t: TypeView) -> bool {
    t.nullable || t.name.len() == 0
}

pub open spec fn copywith_element_text(name: Seq<char>, t: TypeView) -> Seq<char> {
    (if uses_sentinel(t) {
        "freezed == "@
    } else {
        "null == "@
    }) + name + " ? _self."@ + name + " : "@ + name + " as "@ + raw_text(t) + "\n"@
}

/// The update expression for one field: keep the old value when the argument
/// is the sentinel (nullable or untyped field) or `null` (any other field).
pub fn generate_copywith_element(output: &mut String, name: &str, dart_type: &DartType)
    ensures
        final(output)@ == old(output)@ + copywith_element_text(name@, dart_type@),
{
    let ghost start = output@;
    if dart_type.nullable || dart_type.name.as_str().is_empty() {
        output.append("freezed == ");
    } else {
        output.append("null == ");
    }
    let raw = dart_type.as_raw();
    output.append(name);
    output.append(" ? _self.");
    output.append(name);
    output.append(" : ");
    output.append(name);
    output.append(" as ");
    output.append(raw.as_str());
    output.append("\n");
    proof {
        assert(output@ =~= start + copywith_element_text(name@, dart_type@));
    }
}

pub open spec fn call_param(p: ParamView) -> Seq<char> {
    if uses_sentinel(p.ty) {
        "    Object? "@ + p.name + " = freezed,\n"@
    } else {
        "    Object? "@ + p.name + " = null,\n"@
    }
}

pub open spec fn positional_update(p: ParamView) -> Seq<char> {
    copywith_element_text(p.name, p.ty) + ","@
}

pub open spec fn named_update(name: Seq<char>, t: TypeView) -> Seq<char> {
    name + ": "@ + copywith_element_text(name, t) + ","@
}

pub open spec fn impl_function_text(class_name: Seq<char>, fields: ParamsView, has_constructor: bool) -> Seq<char> {
    "  @override\n  @pragma('vm:prefer-inline')\n  $Res call({\n"@
        + concat_map(all_params(fields), |p: ParamView| call_param(p)) + (if has_constructor {
        "  }) {\n  return _then("@ + class_name + "(\n"@
            + concat_map(fields.positional, |p: ParamView| positional_update(p))
            + concat_map(fields.named, |n: NamedParamView| named_update(n.name, n.ty))
    } else {
        "  }) {\n  return _then(_self.copyWith(\n"@
            + concat_map(all_params(fields), |p: ParamView| named_update(p.name, p.ty))
    }) + "));\n  }\n"@
}

fn append_call_params(output: &mut String, all: &Vec<PositionalParameter>)
    ensures
        final(output)@ == old(output)@ + concat_map(param_views(all@), |p: ParamView| call_param(p)),
{
    let ghost h = output@;
    let ghost views = param_views(all@);
    let mut i: usize = 0;
    while i < all.len()
        invariant
            i <= all@.len(),
            views == param_views(all@),
            output@ == h + concat_map(views.take(i as int), |p: ParamView| call_param(p)),
        decreases all.len() - i,
    {
        let field = &all[i];
        if field.dart_type.nullable || field.dart_type.name.as_str().is_empty() {
            output.append("    Object? ");
            output.append(field.name.as_str());
            output.append(" = freezed,\n");
        } else {
            output.append("    Object? ");
            output.append(field.name.as_str());
            output.append(" = null,\n");
        }
        proof {
            lemma_concat_map_step(views, i as int, |p: ParamView| call_param(p));
            assert(output@ =~= h + concat_map(views.take(i + 1), |p: ParamView| call_param(p)));
        }
        i += 1;
    }
    proof {
        lemma_concat_map_all(views, |p: ParamView| call_param(p));
    }
}

fn append_positional_updates(output: &mut String, fields: &Vec<PositionalParameter>)
    ensures
        final(output)@ == old(output)@ + concat_map(param_views(fields@), |p: ParamView| positional_update(p)),
{
    let ghost h = output@;
    let ghost pos = param_views(fields@);
    let mut k: usize = 0;
    while k < fields.len()
        invariant
            k <= fields@.len(),
            pos == param_views(fields@),
            output@ == h + concat_map(pos.take(k as int), |p: ParamView| positional_update(p)),
        decreases fields.len() - k,
    {
        let field = &fields[k];
        generate_copywith_element(output, field.name.as_str(), &field.dart_type);
        output.append(",");
        proof {
            lemma_concat_map_step(pos, k as int, |p: ParamView| positional_update(p));
            assert(output@ =~= h + concat_map(pos.take(k + 1), |p: ParamView| positional_update(p)));
        }
        k += 1;
    }
    proof {
        lemma_concat_map_all(pos, |p: ParamView| positional_update(p));
    }
}

fn append_named_updates(output: &mut String, fields: &Vec<NamedParameter>)
    ensures
        final(output)@ == old(output)@ + concat_map(named_views(fields@), |n: NamedParamView| named_update(n.name, n.ty)),
{
    let ghost h = output@;
    let ghost named = named_views(fields@);
    let mut m: usize = 0;
    while m < fields.len()
        invariant
            m <= fields@.len(),
            named == named_views(fields@),
            output@ == h + concat_map(named.take(m as int), |n: NamedParamView| named_update(n.name, n.ty)),
        decreases fields.len() - m,
    {
        let field = &fields[m];
        output.append(field.name.as_str());
        output.append(": ");
        generate_copywith_element(output, field.name.as_str(), &field.dart_type);
        output.append(",");
        proof {
            lemma_concat_map_step(named, m as int, |n: NamedParamView| named_update(n.name, n.ty));
            assert(output@ =~= h + concat_map(named.take(m + 1), |n: NamedParamView| named_update(n.name, n.ty)));
        }
        m += 1;
    }
    proof {
        lemma_concat_map_all(named, |n: NamedParamView| named_update(n.name, n.ty));
    }
}

fn append_copywith_updates(output: &mut String, all: &Vec<PositionalParameter>)
    ensures
        final(output)@ == old(output)@ + concat_map(param_views(all@), |p: ParamView| named_update(p.name, p.ty)),
{
    let ghost h = output@;
    let ghost views = param_views(all@);
    let mut k: usize = 0;
    while k < all.len()
        invariant
            k <= all@.len(),
            views == param_views(all@),
            output@ == h + concat_map(views.take(k as int), |p: ParamView| named_update(p.name, p.ty)),
        decreases all.len() - k,
    {
        let field = &all[k];
        output.append(field.name.as_str());
        output.append(": ");
        generate_copywith_element(output, field.name.as_str(), &field.dart_type);
        output.append(",");
        proof {
            lemma_concat_map_step(views, k as int, |p: ParamView| named_update(p.name, p.ty));
            assert(output@ =~= h + concat_map(views.take(k + 1), |p: ParamView| named_update(p.name, p.ty)));
        }
        k += 1;
    }
    proof {
        lemma_concat_map_all(views, |p: ParamView| named_update(p.name, p.ty));
    }
}

/// The `call` method of the implementation class. With `has_constructor` it
/// rebuilds the value through the class's own constructor; otherwise it goes
/// through the value's own `copyWith`.
pub fn generate_impl_function(
    output: &mut String,
    class_name: &str,
    fields: &ParameterList,
    has_constructor: bool,
)
    ensures
        final(output)@ == old(output)@ + impl_function_text(class_name@, fields@, has_constructor),
{
    let ghost start = output@;
    output.append("  @override\n  @pragma('vm:prefer-inline')\n  $Res call({\n");
    let all = fields.get_all_params();
    append_call_params(output, &all);
    let ghost h2 = output@;
    if has_constructor {
        output.append("  }) {\n  return _then(");
        output.append(class_name);
        output.append("(\n");
        append_positional_updates(output, &fields.positional_parameters);
        append_named_updates(output, &fields.named_parameters);
    } else {
        output.append("  }) {\n  return _then(_self.copyWith(\n");
        append_copywith_updates(output, &all);
    }
    let ghost h5 = output@;
    output.append("));\n  }\n");
    proof {
        let body = if has_constructor {
            "  }) {\n  return _then("@ + class_name@ + "(\n"@
                + concat_map(fields@.positional, |p: ParamView| positional_update(p))
                + concat_map(fields@.named, |n: NamedParamView| named_update(n.name, n.ty))
        } else {
            "  }) {\n  return _then(_self.copyWith(\n"@
                + concat_map(all_params(fields@), |p: ParamView| named_update(p.name, p.ty))
        };
        assert(h5 =~= h2 + body);
        assert(output@ =~= start + impl_function_text(class_name@, fields@, has_constructor));
    }
}

#[verifier::opaque]
pub open spec fn copywith_impl_text(
    class_name: Seq<char>,
    class_generics: Seq<TypeView>,
    fields: ParamsView,
    has_constructor: bool,
) -> Seq<char> {
    let cg = res_generics(class_generics);
    let jg = generic_text(class_generics);
    "class _$"@ + class_name + "CopyWithImpl"@ + cg + " implements $"@ + class_name + "CopyWith"@
        + cg + " {\n  _$"@ + class_name + "CopyWithImpl(this._self, this._then);\n  \n  final "@
        + class_name + jg + " _self;\n  final $Res Function("@ + class_name + jg + ") _then;\n\n"@
        + impl_function_text(class_name, fields, has_constructor) + "}\n"@
}

/// The implementation class of the `copyWith` contract.
pub fn generate_copywith_impl_mixin(
    output: &mut String,
    class_name: &str,
    class_generics: &[DartType],
    fields: &ParameterList,
    has_constructor: bool,
)
    ensures
        final(output)@ == old(output)@ + copywith_impl_text(
            class_name@,
            type_views(class_generics@),
            fields@,
            has_constructor,
        ),
{
    reveal(copywith_impl_text);
    let ghost start = output@;
    let copywith_generics = res_generics_string(class_generics);
    let just_generics = get_generic_string(class_generics);
    let cg = copywith_generics.as_str();
    let jg = just_generics.as_str();
    output.append("class _$");
    output.append(class_name);
    output.append("CopyWithImpl");
    output.append(cg);
    output.append(" implements $");
    output.append(class_name);
    output.append("CopyWith");
    output.append(cg);
    output.append(" {\n  _$");
    output.append(class_name);
    output.append("CopyWithImpl(this._self, this._then);\n  \n  final ");
    output.append(class_name);
    output.append(jg);
    output.append(" _self;\n  final $Res Function(");
    output.append(class_name);
    output.append(jg);
    output.append(") _then;\n\n");
    generate_impl_function(output, class_name, fields, has_constructor);
    output.append("}\n");
    proof {
        assert(output@ =~= start + copywith_impl_text(class_name@, type_views(class_generics@), fields@, has_constructor));
    }
}

/// The sentinel policy: a nullable or untyped field's `copyWith` parameter
/// defaults to `freezed` and its update compares against `freezed`; any other
/// field's parameter defaults to `null` and its update compares against `null`.
pub proof fn lemma_sentinel_policy(p: ParamView)
    ensures
        (p.ty.nullable || p.ty.name.len() == 0) ==> call_param(p) == "    Object? "@ + p.name
            + " = freezed,\n"@ && copywith_element_text(p.name, p.ty) == "freezed == "@ + p.name
            + " ? _self."@ + p.name + " : "@ + p.name + " as "@ + raw_text(p.ty) + "\n"@,
        !(p.ty.nullable || p.ty.name.len() == 0) ==> call_param(p) == "    Object? "@ + p.name
            + " = null,\n"@ && copywith_element_text(p.name, p.ty) == "null == "@ + p.name
            + " ? _self."@ + p.name + " : "@ + p.name + " as "@ + raw_text(p.ty) + "\n"@,
{
}

} // verus!
