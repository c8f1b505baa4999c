//! The fields all variants share, and the generation of one whole class.
use vstd::prelude::*;
use vstd::string::StringExecFns;
use crate::dart_types::{
    ClassDefinition, ClassView, CtorView, DartType, ParameterList, ParamView, ParamsView,
    PositionalParameter, TypeView, all_params, class_ready, ctor_views, param_views, raw_text,
    type_views,
};
use crate::json_serialization::copy_with_generation::{
    abstract_copywith_text, copywith_impl_text, generate_abstract_copywith_mixin,
    generate_copywith_impl_mixin,
};
use crate::json_serialization::json_generation::{
    from_json_function_generator, from_json_function_text, to_json_function_generator,
    to_json_function_text,
};
use crate::json_serialization::mixin_generation::{generate_mixin, mixin_text};
use crate::json_serialization::solo_class_generation::{
    JsonMethod, JsonMethodView, generate_solo_class, solo_class_text,
};
use crate::seq_text::{concat_map, lemma_add_assoc, lemma_concat_map_step, lemma_concat_map_all};

verus! {

/// `others` has a field with the same name and the same type as `p`.
pub open spec fn has_counterpart(p: ParamView, others: Seq<ParamView>) -> bool {
    exists|j: int| #![trigger others[j]] 0 <= j < others.len() && others[j].name == p.name && others[j].ty == p.ty
}

/// The elements of `s` that satisfy `pred`, in their order.
pub open spec fn keep(s: Seq<ParamView>, pred: spec_fn(ParamView) -> bool) -> Seq<ParamView>
    decreases s.len(),
{
    if s.len() == 0 {
        s
    } else if pred(s.last()) {
        keep(s.drop_last(), pred).push(s.last())
    } else {
        keep(s.drop_last(), pred)
    }
}

/// The fields of `fields` that have a counterpart in `others`, in the order of
/// `fields`.
pub open spec fn shared_with(fields: Seq<ParamView>, others: Seq<ParamView>) -> Seq<ParamView> {
    keep(fields, |p: ParamView| has_counterpart(p, others))
}

/// `base` narrowed to the fields that have a counterpart in each of `variants`,
/// one variant after the other.
pub open spec fn intersect_all(base: Seq<ParamView>, variants: Seq<Seq<ParamView>>) -> Seq<ParamView>
    decreases variants.len(),
{
    if variants.len() == 0 {
        base
    } else {
        shared_with(intersect_all(base, variants.drop_last()), variants.last())
    }
}

/// The fields of each variant, positional ones first.
pub open spec fn variant_fields(variants: Seq<CtorView>) -> Seq<Seq<ParamView>> {
    variants.map_values(|v: CtorView| all_params(v.params))
}

/// The shared field set: the first variant's fields narrowed by every variant.
pub open spec fn shared_fields(variants: Seq<CtorView>) -> Seq<ParamView> {
    intersect_all(all_params(variants[0].params), variant_fields(variants))
}

fn same_field(a: &PositionalParameter, b: &PositionalParameter) -> (r: bool)
    ensures
        r == (a@.name == b@.name && a@.ty == b@.ty),
{
    a.name == b.name && a.dart_type.same_as(&b.dart_type)
}

fn has_counterpart_in(item: &PositionalParameter, others: &[PositionalParameter]) -> (r: bool)
    ensures
        r == has_counterpart(item@, param_views(others@)),
{
    let ghost views = param_views(others@);
    let mut j: usize = 0;
    while j < others.len()
        invariant
            j <= others@.len(),
            views == param_views(others@),
            forall|k: int| #![trigger views[k]] 0 <= k < j ==> !(views[k].name == item@.name && views[k].ty == item@.ty),
        decreases others.len() - j,
    {
        if same_field(&others[j], item) {
            assert(views[j as int].name == item@.name && views[j as int].ty == item@.ty);
            return true;
        }
        j += 1;
    }
    false
}

/// Keeps, in order, the fields of `vec1` that have a field of the same name
/// and type in `vec2`.
pub fn intersection_positional_parameters(
    vec1: &mut Vec<PositionalParameter>,
    vec2: &[PositionalParameter],
)
    ensures
        param_views(final(vec1)@) == shared_with(param_views(old(vec1)@), param_views(vec2@)),
{
    let ghost others = param_views(vec2@);
    let ghost orig = param_views(vec1@);
    let mut kept: Vec<PositionalParameter> = Vec::new();
    let mut i: usize = 0;
    while i < vec1.len()
        invariant
            i <= vec1@.len(),
            orig == param_views(vec1@),
            others == param_views(vec2@),
            param_views(kept@) == shared_with(orig.take(i as int), others),
        decreases vec1.len() - i,
    {
        let ghost prev = kept@;
        if has_counterpart_in(&vec1[i], vec2) {
            kept.push(vec1[i].clone());
            proof {
                assert(param_views(kept@) =~= param_views(prev).push(orig[i as int]));
            }
        }
        proof {
            assert(orig.take(i + 1).drop_last() =~= orig.take(i as int));
        }
        i += 1;
    }
    proof {
        assert(orig.take(orig.len() as int) =~= orig);
    }
    *vec1 = kept;
}

pub open spec fn mixin_json(c: ClassView) -> JsonMethodView {
    if c.json is Some {
        if c.variants.len() >= 2 {
            JsonMethodView::Signature
        } else {
            JsonMethodView::Impl(c.name)
        }
    } else {
        JsonMethodView::Omitted
    }
}

pub open spec fn variant_json(c: ClassView) -> JsonMethodView {
    if c.json is Some {
        JsonMethodView::Impl(c.name)
    } else {
        JsonMethodView::Omitted
    }
}

/// The concrete class of one variant, and its own `copyWith` pair when it has
/// parameters.
pub open spec fn variant_text(c: ClassView, v: CtorView) -> Seq<char> {
    let gens = c.mixins[0].args;
    solo_class_text(c.name, gens, variant_json(c), v.assigned.name, v.params, v.is_const, c.unnamed is Some)
        + (if v.params.positional.len() > 0 || v.params.named.len() > 0 {
        abstract_copywith_text(v.assigned.name, gens, Some(c.name), all_params(v.params))
            + copywith_impl_text(v.assigned.name, gens, v.params, true)
    } else {
        Seq::empty()
    })
}

pub open spec fn shared_params(c: ClassView) -> ParamsView {
    ParamsView { positional: shared_fields(c.variants), named: Seq::empty() }
}

/// The declarations generated for a class: the mixin over the shared fields,
/// the class-level `copyWith` contract (and its implementation when there are
/// shared fields), then each variant's class.
pub open spec fn class_declarations_text(c: ClassView) -> Seq<char> {
    let gens = c.mixins[0].args;
    let shared = shared_fields(c.variants);
    mixin_text(raw_text(c.mixins[0]), c.name, gens, shared, mixin_json(c)) + abstract_copywith_text(
        c.name,
        gens,
        None,
        all_params(shared_params(c)),
    ) + (if shared.len() > 0 {
        copywith_impl_text(c.name, gens, shared_params(c), false)
    } else {
        Seq::empty()
    }) + concat_map(c.variants, |v: CtorView| variant_text(c, v))
}

/// The JSON functions of a class with a `fromJson` factory, keyed off its
/// first variant; nothing otherwise.
pub open spec fn class_json_text(c: ClassView) -> Seq<char> {
    if c.json is Some {
        let v = c.variants[0];
        to_json_function_text(c.name, raw_text(v.assigned), all_params(v.params))
            + from_json_function_text(raw_text(v.assigned), c.name, v.params)
    } else {
        Seq::empty()
    }
}

fn clone_params(v: &Vec<PositionalParameter>) -> (r: Vec<PositionalParameter>)
    ensures
        param_views(r@) == param_views(v@),
{
    let mut out: Vec<PositionalParameter> = Vec::new();
    let mut i: usize = 0;
    while i < v.len()
        invariant
            i <= v@.len(),
            out@.len() == i,
            forall|j: int| 0 <= j < i ==> #[trigger] out@[j]@ == v@[j]@,
        decreases v.len() - i,
    {
        out.push(v[i].clone());
        i += 1;
    }
    proof {
        assert(param_views(out@) =~= param_views(v@));
    }
    out
}

fn shared_fields_of(class: &ClassDefinition) -> (r: Vec<PositionalParameter>)
    requires
        class@.variants.len() >= 1,
    ensures
        param_views(r@) == shared_fields(class@.variants),
{
    let ghost vs = class@.variants;
    let ghost fields = variant_fields(vs);
    let mut intersecting = class.redirecting_constructors[0].parameters.get_all_params();
    let mut i: usize = 0;
    while i < class.redirecting_constructors.len()
        invariant
            i <= class.redirecting_constructors@.len(),
            vs == class@.variants,
            fields == variant_fields(vs),
            vs.len() >= 1,
            param_views(intersecting@) == intersect_all(all_params(vs[0].params), fields.take(i as int)),
        decreases class.redirecting_constructors.len() - i,
    {
        let other = class.redirecting_constructors[i].parameters.get_all_params();
        intersection_positional_parameters(&mut intersecting, other.as_slice());
        proof {
            assert(fields.take(i + 1).drop_last() =~= fields.take(i as int));
        }
        i += 1;
    }
    proof {
        assert(fields.take(fields.len() as int) =~= fields);
    }
    intersecting
}

fn append_variants(output: &mut String, class: &ClassDefinition, class_generics: &Vec<DartType>)
    requires
        class_ready(class@),
        type_views(class_generics@) == class@.mixins[0].args,
    ensures
        final(output)@ == old(output)@ + concat_map(class@.variants, |v: CtorView| variant_text(class@, v)),
{
    let ghost c = class@;
    let ghost start = output@;
    let mut i: usize = 0;
    while i < class.redirecting_constructors.len()
        invariant
            i <= class.redirecting_constructors@.len(),
            c == class@,
            class_ready(c),
            type_views(class_generics@) == c.mixins[0].args,
            output@ == start + concat_map(c.variants.take(i as int), |v: CtorView| variant_text(c, v)),
        decreases class.redirecting_constructors.len() - i,
    {
        let constructor = &class.redirecting_constructors[i];
        let inner_class = constructor.assigned_type.name.as_str();
        let class_to_json = if class.json_constructor.is_some() {
            JsonMethod::Impl(class.name.clone())
        } else {
            JsonMethod::Omitted
        };
        assert(params_ok_at(c, i as int));
        generate_solo_class(
            output,
            class.name.as_str(),
            class_generics.as_slice(),
            class_to_json,
            inner_class,
            &constructor.parameters,
            constructor.is_const,
            &class.unnamed_constructor,
        );
        let ghost v = c.variants[i as int];
        let ghost mid = output@;
        if !constructor.parameters.is_empty() {
            generate_abstract_copywith_mixin(
                output,
                inner_class,
                class_generics.as_slice(),
                Some(class.name.as_str()),
                &constructor.parameters,
            );
            generate_copywith_impl_mixin(
                output,
                inner_class,
                class_generics.as_slice(),
                &constructor.parameters,
                true,
            );
        }
        proof {
            let solo = solo_class_text(c.name, c.mixins[0].args, variant_json(c), v.assigned.name, v.params, v.is_const, c.unnamed is Some);
            assert(mid == start + concat_map(c.variants.take(i as int), |v: CtorView| variant_text(c, v)) + solo);
            assert(output@ =~= start + concat_map(c.variants.take(i as int), |v: CtorView| variant_text(c, v)) + variant_text(c, v));
            lemma_concat_map_step(c.variants, i as int, |v: CtorView| variant_text(c, v));
        }
        i += 1;
    }
    proof {
        lemma_concat_map_all(c.variants, |v: CtorView| variant_text(c, v));
    }
}

spec fn params_ok_at(c: ClassView, i: int) -> bool {
    crate::dart_types::params_defaults_ok(c.variants[i].params)
}

/// Generates one class: its declarations go to `output`, and its JSON
/// functions, when it declares a `fromJson` factory, to `json_output`.
pub fn generate_class(output: &mut String, json_output: &mut String, class: &ClassDefinition)
    requires
        class_ready(class@),
    ensures
        final(output)@ == old(output)@ + class_declarations_text(class@),
        final(json_output)@ == old(json_output)@ + class_json_text(class@),
{
    let ghost c = class@;
    let ghost start = output@;
    let ghost json_start = json_output@;
    proof {
        crate::dart_types::lemma_type_views(class.mixins@);
    }
    let mixin = &class.mixins[0];
    let mixin_type = mixin.as_raw();
    let class_generics = crate::dart_types::clone_types(&mixin.type_arguments);
    let intersecting_fields = shared_fields_of(class);
    let mixin_virtual_parameters = ParameterList {
        positional_parameters: clone_params(&intersecting_fields),
        named_parameters: Vec::new(),
    };
    proof {
        assert(mixin_virtual_parameters@.positional == shared_fields(c.variants));
        assert(mixin_virtual_parameters@.named =~= Seq::empty());
        assert(mixin_virtual_parameters@ == shared_params(c));
        assert(all_params(shared_params(c)) =~= shared_fields(c.variants));
    }
    let class_to_json = if class.json_constructor.is_some() {
        if class.redirecting_constructors.len() >= 2 {
            JsonMethod::Signature
        } else {
            JsonMethod::Impl(class.name.clone())
        }
    } else {
        JsonMethod::Omitted
    };
    generate_mixin(
        output,
        mixin_type.as_str(),
        class.name.as_str(),
        class_generics.as_slice(),
        intersecting_fields.as_slice(),
        &class_to_json,
    );
    generate_abstract_copywith_mixin(
        output,
        class.name.as_str(),
        class_generics.as_slice(),
        None,
        &mixin_virtual_parameters,
    );
    let ghost h = output@;
    if intersecting_fields.len() > 0 {
        generate_copywith_impl_mixin(
            output,
            class.name.as_str(),
            class_generics.as_slice(),
            &mixin_virtual_parameters,
            false,
        );
    }
    let ghost h2 = output@;
    append_variants(output, class, &class_generics);
    proof {
        let gens = c.mixins[0].args;
        let shared = shared_fields(c.variants);
        let a = mixin_text(raw_text(c.mixins[0]), c.name, gens, shared, mixin_json(c));
        let b = abstract_copywith_text(c.name, gens, None, all_params(shared_params(c)));
        let d = if shared.len() > 0 {
            copywith_impl_text(c.name, gens, shared_params(c), false)
        } else {
            Seq::empty()
        };
        let e = concat_map(c.variants, |v: CtorView| variant_text(c, v));
        assert(h == start + a + b);
        assert(h2 =~= start + a + b + d);
        assert(output@ =~= start + (a + b + d + e));
    }
    if class.json_constructor.is_some() {
        let main_constructor = &class.redirecting_constructors[0];
        let assigned = main_constructor.assigned_type.as_raw();
        let all = main_constructor.parameters.get_all_params();
        assert(params_ok_at(c, 0));
        to_json_function_generator(json_output, class.name.as_str(), assigned.as_str(), all.as_slice());
        from_json_function_generator(
            json_output,
            assigned.as_str(),
            class.name.as_str(),
            &main_constructor.parameters,
        );
        proof {
            assert(json_output@ =~= json_start + class_json_text(c));
        }
    } else {
        proof {
            assert(json_output@ =~= json_start + class_json_text(c));
        }
    }
}

/// A field has a counterpart in every list of `lists`.
pub open spec fn in_every(p: ParamView, lists: Seq<Seq<ParamView>>) -> bool {
    forall|i: int| 0 <= i < lists.len() ==> #[trigger] has_counterpart(p, lists[i])
}

pub proof fn lemma_keep_keep(s: Seq<ParamView>, front_pred: spec_fn(ParamView) -> bool, last_pred: spec_fn(ParamView) -> bool)
    ensures
        keep(keep(s, front_pred), last_pred) == keep(s, |x: ParamView| front_pred(x) && last_pred(x)),
    decreases s.len(),
{
    if s.len() > 0 {
        lemma_keep_keep(s.drop_last(), front_pred, last_pred);
        if front_pred(s.last()) {
            assert(keep(s, front_pred).drop_last() =~= keep(s.drop_last(), front_pred));
        }
    }
}

pub proof fn lemma_keep_contains(s: Seq<ParamView>, pred: spec_fn(ParamView) -> bool, x: ParamView)
    ensures
        keep(s, pred).contains(x) <==> (s.contains(x) && pred(x)),
    decreases s.len(),
{
    if s.len() > 0 {
        lemma_keep_contains(s.drop_last(), pred, x);
        if s.contains(x) && x != s.last() {
            let k = choose|k: int| 0 <= k < s.len() && s[k] == x;
            assert(s.drop_last()[k] == x);
        }
        if s.drop_last().contains(x) {
            let k = choose|k: int| 0 <= k < s.drop_last().len() && s.drop_last()[k] == x;
            assert(s[k] == x);
        }
        if pred(s.last()) {
            let r = keep(s.drop_last(), pred);
            if r.contains(x) {
                let k = choose|k: int| 0 <= k < r.len() && r[k] == x;
                assert(r.push(s.last())[k] == x);
            }
            if r.push(s.last()).contains(x) && x != s.last() {
                let k = choose|k: int| 0 <= k < r.push(s.last()).len() && r.push(s.last())[k] == x;
                assert(r[k] == x);
            }
            assert(r.push(s.last())[r.len() as int] == s.last());
        }
        assert(s[s.len() - 1] == s.last());
    }
}

pub proof fn lemma_keep_all(s: Seq<ParamView>, pred: spec_fn(ParamView) -> bool)
    requires
        forall|i: int| 0 <= i < s.len() ==> pred(#[trigger] s[i]),
    ensures
        keep(s, pred) == s,
    decreases s.len(),
{
    if s.len() > 0 {
        lemma_keep_all(s.drop_last(), pred);
        assert(s.drop_last().push(s.last()) =~= s);
    }
}

proof fn lemma_intersect_all(base: Seq<ParamView>, lists: Seq<Seq<ParamView>>)
    ensures
        intersect_all(base, lists) == keep(base, |p: ParamView| in_every(p, lists)),
    decreases lists.len(),
{
    if lists.len() == 0 {
        lemma_keep_all(base, |p: ParamView| in_every(p, lists));
    } else {
        let front = lists.drop_last();
        lemma_intersect_all(base, front);
        let front_pred = |p: ParamView| in_every(p, front);
        let last_pred = |p: ParamView| has_counterpart(p, lists.last());
        lemma_keep_keep(base, front_pred, last_pred);
        assert forall|p: ParamView| #[trigger] in_every(p, lists) == (front_pred(p) && last_pred(p)) by {
            if front_pred(p) && last_pred(p) {
                assert forall|i: int| 0 <= i < lists.len() implies #[trigger] has_counterpart(p, lists[i]) by {
                    if i < lists.len() - 1 {
                        assert(lists[i] == front[i]);
                    }
                }
            }
            if in_every(p, lists) {
                assert(has_counterpart(p, lists[lists.len() - 1]));
                assert forall|i: int| 0 <= i < front.len() implies #[trigger] has_counterpart(p, front[i]) by {
                    assert(has_counterpart(p, lists[i]));
                }
            }
        }
        assert((|x: ParamView| front_pred(x) && last_pred(x)) =~= (|p: ParamView| in_every(p, lists)));
    }
}

/// The shared field set is the first variant's fields, in their order, kept
/// exactly when every variant has a field of the same name and type; so a
/// field is shared if and only if it belongs to the first variant and has a
/// counterpart in each variant.
pub proof fn lemma_shared_fields(variants: Seq<CtorView>)
    requires
        variants.len() >= 1,
    ensures
        shared_fields(variants) == keep(
            all_params(variants[0].params),
            |p: ParamView| in_every(p, variant_fields(variants)),
        ),
        forall|p: ParamView| #[trigger] shared_fields(variants).contains(p) <==> (all_params(
            variants[0].params,
        ).contains(p) && in_every(p, variant_fields(variants))),
{
    lemma_intersect_all(all_params(variants[0].params), variant_fields(variants));
    assert forall|p: ParamView| #[trigger] shared_fields(variants).contains(p) <==> (all_params(
        variants[0].params,
    ).contains(p) && in_every(p, variant_fields(variants))) by {
        lemma_keep_contains(
            all_params(variants[0].params),
            |p: ParamView| in_every(p, variant_fields(variants)),
            p,
        );
    }
}

/// Narrowing a field list by itself leaves it unchanged.
pub proof fn lemma_self_intersection(fields: Seq<ParamView>)
    ensures
        shared_with(fields, fields) == fields,
{
    assert forall|i: int| 0 <= i < fields.len() implies #[trigger] has_counterpart(fields[i], fields) by {
        let x = fields[i];
        assert(x.name == fields[i].name && x.ty == fields[i].ty);
    }
    lemma_keep_all(fields, |p: ParamView| has_counterpart(p, fields));
}

/// Generation depends on the class definition alone: two definitions with the
/// same content give byte-identical declarations and JSON functions.
pub proof fn lemma_generation_deterministic(a: ClassDefinition, b: ClassDefinition)
    requires
        a@ == b@,
    ensures
        class_declarations_text(a@) == class_declarations_text(b@),
        class_json_text(a@) == class_json_text(b@),
{
}

} // verus!
