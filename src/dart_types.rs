//! The model of a Dart class: types, annotations, parameters, constructors.
use vstd::prelude::*;
use vstd::string::StrSliceExecFns;
use vstd::string::StringExecFns;
use crate::text::{last_char, first_char, text_eq};

verus! {

/// A Dart type as written in source: `name<arg, ...>?`.
/// An empty name stands for an untyped (inferred) declaration.
#[derive(Debug, PartialEq, Eq)]
pub struct DartType {
    pub name: String,
    pub nullable: bool,
    pub type_arguments: Vec<DartType>,
}

/// The mathematical value of a [`DartType`].
pub struct TypeView {
    pub name: Seq<char>,
    pub nullable: bool,
    pub args: Seq<TypeView>,
}

pub open spec fn type_view(t: DartType) -> TypeView
    decreases t,
{
    TypeView { name: t.name@, nullable: t.nullable, args: type_views(t.type_arguments@) }
}

pub open spec fn type_views(s: Seq<DartType>) -> Seq<TypeView>
    decreases s,
{
    if s.len() == 0 {
        Seq::empty()
    } else {
        type_views(s.drop_last()).push(type_view(s.last()))
    }
}

impl View for DartType {
    type V = TypeView;

    open spec fn view(&self) -> TypeView {
        type_view(*self)
    }
}

pub proof fn lemma_type_views(s: Seq<DartType>)
    ensures
        type_views(s).len() == s.len(),
        forall|i: int| 0 <= i < s.len() ==> #[trigger] type_views(s)[i] == s[i]@,
    decreases s.len(),
{
    if s.len() > 0 {
        lemma_type_views(s.drop_last());
    }
}

/// Source text of a type: `name<a,b>?`; an empty name renders as `dynamic`.
pub open spec fn raw_text(t: TypeView) -> Seq<char>
    decreases t,
{
    if t.name.len() == 0 {
        "dynamic"@
    } else {
        t.name + (if t.args.len() == 0 {
            Seq::empty()
        } else {
            "<"@ + join_raw(t.args) + ">"@
        }) + (if t.nullable {
            "?"@
        } else {
            Seq::empty()
        })
    }
}

/// The source text of each type, separated by `,`.
pub open spec fn join_raw(args: Seq<TypeView>) -> Seq<char>
    decreases args,
{
    if args.len() == 0 {
        Seq::empty()
    } else if args.len() == 1 {
        raw_text(args[0])
    } else {
        join_raw(args.drop_last()) + ","@ + raw_text(args.last())
    }
}

/// The type's source text joined by `", "` and put in angle brackets, or
/// nothing for no types.
pub open spec fn generic_text(args: Seq<TypeView>) -> Seq<char> {
    if args.len() == 0 {
        Seq::empty()
    } else {
        "<"@ + join_generic(args) + ">"@
    }
}

pub open spec fn join_generic(args: Seq<TypeView>) -> Seq<char>
    decreases args.len(),
{
    if args.len() == 0 {
        Seq::empty()
    } else if args.len() == 1 {
        raw_text(args[0])
    } else {
        join_generic(args.drop_last()) + ", "@ + raw_text(args.last())
    }
}

pub open spec fn is_collection_name(name: Seq<char>) -> bool {
    name == "List"@ || name == "Map"@ || name == "Set"@
}

impl Clone for DartType {
    fn clone(&self) -> (r: Self)
        ensures
            r@ == self@,
        decreases self,
    {
        let mut args: Vec<DartType> = Vec::new();
        let mut i: usize = 0;
        proof {
            lemma_type_views(self.type_arguments@);
        }
        while i < self.type_arguments.len()
            invariant
                i <= self.type_arguments.len(),
                args@.len() == i,
                forall|j: int| 0 <= j < i ==> #[trigger] args@[j]@ == self.type_arguments@[j]@,
            decreases self.type_arguments.len() - i,
        {
            let a = self.type_arguments[i].clone();
            args.push(a);
            i += 1;
        }
        proof {
            lemma_type_views(args@);
            assert(type_views(args@) =~= type_views(self.type_arguments@));
        }
        DartType { name: self.name.clone(), nullable: self.nullable, type_arguments: args }
    }
}

impl DartType {
    /// The type's source text, `name<a,b>?`, with `dynamic` for an untyped one.
    pub fn as_raw(&self) -> (r: String)
        ensures
            r@ == raw_text(self@),
        decreases self,
    {
        let mut raw = String::new();
        if self.name.as_str().is_empty() {
            raw.append("dynamic");
            return raw;
        }
        raw.append(self.name.as_str());
        let n = self.type_arguments.len();
        proof {
            lemma_type_views(self.type_arguments@);
        }
        if n > 0 {
            raw.append("<");
            let ghost start = raw@;
            let mut i: usize = 0;
            while i < n
                invariant
                    n == self.type_arguments.len(),
                    i <= n,
                    type_views(self.type_arguments@).len() == n,
                    forall|j: int| 0 <= j < n ==> #[trigger] type_views(self.type_arguments@)[j] == self.type_arguments@[j]@,
                    raw@ == start + join_raw(type_views(self.type_arguments@).take(i as int)),
                decreases n - i,
            {
                let ghost views = type_views(self.type_arguments@);
                if i > 0 {
                    raw.append(",");
                }
                let part = self.type_arguments[i].as_raw();
                raw.append(part.as_str());
                proof {
                    assert(views.take(i + 1).drop_last() =~= views.take(i as int));
                    if i == 0 {
                        assert(raw@ =~= start + join_raw(views.take(1)));
                    } else {
                        assert(raw@ =~= start + join_raw(views.take(i + 1)));
                    }
                }
                i += 1;
            }
            raw.append(">");
            proof {
                assert(type_views(self.type_arguments@).take(n as int) =~= type_views(self.type_arguments@));
            }
        }
        if self.nullable {
            raw.append("?");
        }
        proof {
            assert(raw@ =~= raw_text(self@));
        }
        raw
    }

    /// Whether the type is one of the built-in collections `List`, `Map`, `Set`,
    /// whose fields compare and hash deeply.
    pub fn is_collection(&self) -> (r: bool)
        ensures
            r == is_collection_name(self.name@),
    {
        let n = self.name.as_str();
        text_eq(n, "List") || text_eq(n, "Map") || text_eq(n, "Set")
    }
}


/// The types' source text joined by `", "` in angle brackets; empty for no types.
pub fn get_generic_string(types: &[DartType]) -> (r: String)
    ensures
        r@ == generic_text(type_views(types@)),
{
    let mut output = String::new();
    let n = types.len();
    if n == 0 {
        return output;
    }
    proof {
        lemma_type_views(types@);
    }
    let ghost views = type_views(types@);
    output.append("<");
    let mut i: usize = 0;
    while i < n
        invariant
            n == types@.len(),
            i <= n,
            views == type_views(types@),
            views.len() == n,
            forall|j: int| 0 <= j < n ==> #[trigger] views[j] == types@[j]@,
            output@ == "<"@ + join_generic(views.take(i as int)),
        decreases n - i,
    {
        if i > 0 {
            output.append(", ");
        }
        let part = types[i].as_raw();
        output.append(part.as_str());
        proof {
            assert(views.take(i + 1).drop_last() =~= views.take(i as int));
            if i == 0 {
                assert(output@ =~= "<"@ + join_generic(views.take(1)));
            } else {
                assert(output@ =~= "<"@ + join_generic(views.take(i + 1)));
            }
        }
        i += 1;
    }
    output.append(">");
    proof {
        assert(views.take(n as int) =~= views);
        assert(output@ =~= generic_text(views));
    }
    output
}

/// An annotation on a parameter: `@name(arg, ...)`, each argument kept as its
/// unparsed source text.
#[derive(Debug, PartialEq, Eq)]
pub struct Annotation {
    pub name: String,
    pub arguments: Vec<String>,
}

pub struct AnnotationView {
    pub name: Seq<char>,
    pub arguments: Seq<Seq<char>>,
}

impl View for Annotation {
    type V = AnnotationView;

    open spec fn view(&self) -> AnnotationView {
        AnnotationView {
            name: self.name@,
            arguments: self.arguments@.map_values(|a: String| a@),
        }
    }
}

impl Clone for Annotation {
    fn clone(&self) -> (r: Self)
        ensures
            r@ == self@,
    {
        let arguments = self.arguments.clone();
        proof {
            assert(arguments@.map_values(|a: String| a@) =~= self.arguments@.map_values(|a: String| a@));
        }
        Annotation { name: self.name.clone(), arguments }
    }
}

pub open spec fn annotation_views(s: Seq<Annotation>) -> Seq<AnnotationView> {
    s.map_values(|a: Annotation| a@)
}

pub fn clone_annotations(s: &Vec<Annotation>) -> (r: Vec<Annotation>)
    ensures
        annotation_views(r@) == annotation_views(s@),
{
    let r = s.clone();
    proof {
        assert(annotation_views(r@) =~= annotation_views(s@));
    }
    r
}

pub open spec fn is_digit_or_dot(c: char) -> bool {
    ('0' <= c && c <= '9') || c == '.'
}

/// A default value written as a literal: `true`, `false`, `null`, a number, or
/// a single-quoted string.
pub open spec fn is_literal_default(a: Seq<char>) -> bool {
    ||| a == "true"@
    ||| a == "false"@
    ||| a == "null"@
    ||| forall|i: int| 0 <= i < a.len() ==> #[trigger] is_digit_or_dot(a[i])
    ||| (a.len() > 0 && a[0] == '\'' && a.last() == '\'')
}

pub open spec fn is_closing_bracket(c: char) -> bool {
    c == ')' || c == ']' || c == '}'
}

/// The text a `Default` argument is emitted as: a non-literal that ends with a
/// closing bracket is a constant expression and gets `const ` in front;
/// anything else is kept as written.
pub open spec fn default_text(a: Seq<char>) -> Seq<char> {
    if !is_literal_default(a) && a.len() > 0 && is_closing_bracket(a.last()) {
        "const "@ + a
    } else {
        a
    }
}

pub open spec fn is_default_annotation(a: AnnotationView) -> bool {
    a.name == "Default"@
}

/// `Default(x)`: an annotation named `Default` with its argument.
pub open spec fn is_well_formed_default(a: AnnotationView) -> bool {
    is_default_annotation(a) ==> a.arguments.len() >= 1
}

fn all_digits_or_dots(s: &str) -> (r: bool)
    ensures
        r == forall|i: int| 0 <= i < s@.len() ==> #[trigger] is_digit_or_dot(s@[i]),
{
    let n = s.unicode_len();
    let mut i: usize = 0;
    while i < n
        invariant
            n == s@.len(),
            i <= n,
            forall|j: int| 0 <= j < i ==> #[trigger] is_digit_or_dot(s@[j]),
        decreases n - i,
    {
        let c = s.get_char(i);
        if !(('0' <= c && c <= '9') || c == '.') {
            assert(!is_digit_or_dot(s@[i as int]));
            return false;
        }
        i += 1;
    }
    true
}

impl Annotation {
    /// The text that a `Default(x)` annotation's argument is emitted as
    /// (see [`default_text`]).
    pub fn get_default_value(&self) -> (r: String)
        requires
            is_default_annotation(self@),
            self.arguments.len() >= 1,
        ensures
            r@ == default_text(self@.arguments[0]),
    {
        let argument = self.arguments[0].as_str();
        let ghost a = argument@;
        assert(a == self@.arguments[0]);
        let quoted = match (first_char(argument), last_char(argument)) {
            (Some(f), Some(l)) => f == '\'' && l == '\'',
            _ => false,
        };
        if text_eq(argument, "true") || text_eq(argument, "false") || text_eq(argument, "null")
            || all_digits_or_dots(argument) || quoted {
            return argument.to_owned();
        }
        let closing = match last_char(argument) {
            Some(c) => c == ')' || c == ']' || c == '}',
            None => false,
        };
        if closing {
            let mut out = String::new();
            out.append("const ");
            out.append(argument);
            out
        } else {
            argument.to_owned()
        }
    }
}

/// The first annotation named `Default`, if any.
pub open spec fn default_annotation(anns: Seq<AnnotationView>) -> Option<AnnotationView>
    decreases anns.len(),
{
    if anns.len() == 0 {
        None
    } else if is_default_annotation(anns[0]) {
        Some(anns[0])
    } else {
        default_annotation(anns.drop_first())
    }
}

/// A converter annotation: one whose name ends in `JsonConverter`.
pub open spec fn is_converter_annotation(a: AnnotationView) -> bool {
    crate::text::ends_with(a.name, "JsonConverter"@)
}

/// The first converter annotation, if any.
pub open spec fn converter_annotation(anns: Seq<AnnotationView>) -> Option<AnnotationView>
    decreases anns.len(),
{
    if anns.len() == 0 {
        None
    } else if is_converter_annotation(anns[0]) {
        Some(anns[0])
    } else {
        converter_annotation(anns.drop_first())
    }
}

/// The first `Default` annotation of `anns`, if any.
pub fn find_default(anns: &Vec<Annotation>) -> (r: Option<&Annotation>)
    ensures
        match r {
            Some(a) => default_annotation(annotation_views(anns@)) == Some(a@),
            None => default_annotation(annotation_views(anns@)) is None,
        },
{
    let ghost views = annotation_views(anns@);
    let mut i: usize = 0;
    assert(views.subrange(0, views.len() as int) =~= views);
    while i < anns.len()
        invariant
            i <= anns.len(),
            views == annotation_views(anns@),
            default_annotation(views) == default_annotation(views.subrange(i as int, views.len() as int)),
        decreases anns.len() - i,
    {
        proof {
            assert(views.subrange(i as int, views.len() as int).drop_first() =~= views.subrange(i + 1, views.len() as int));
        }
        if text_eq(anns[i].name.as_str(), "Default") {
            return Some(&anns[i]);
        }
        i += 1;
    }
    None
}

/// The first converter annotation of `anns`, if any.
pub fn find_converter(anns: &Vec<Annotation>) -> (r: Option<&Annotation>)
    ensures
        match r {
            Some(a) => converter_annotation(annotation_views(anns@)) == Some(a@),
            None => converter_annotation(annotation_views(anns@)) is None,
        },
{
    let ghost views = annotation_views(anns@);
    let mut i: usize = 0;
    assert(views.subrange(0, views.len() as int) =~= views);
    while i < anns.len()
        invariant
            i <= anns.len(),
            views == annotation_views(anns@),
            converter_annotation(views) == converter_annotation(views.subrange(i as int, views.len() as int)),
        decreases anns.len() - i,
    {
        proof {
            assert(views.subrange(i as int, views.len() as int).drop_first() =~= views.subrange(i + 1, views.len() as int));
        }
        if crate::text::text_ends_with(anns[i].name.as_str(), "JsonConverter") {
            return Some(&anns[i]);
        }
        i += 1;
    }
    None
}


/// A parameter as generators see it: a field with its type and annotations.
#[derive(Debug, PartialEq, Eq)]
pub struct PositionalParameter {
    pub name: String,
    pub dart_type: DartType,
    pub annotations: Vec<Annotation>,
}

pub struct ParamView {
    pub name: Seq<char>,
    pub ty: TypeView,
    pub annotations: Seq<AnnotationView>,
}

impl View for PositionalParameter {
    type V = ParamView;

    open spec fn view(&self) -> ParamView {
        ParamView {
            name: self.name@,
            ty: self.dart_type@,
            annotations: annotation_views(self.annotations@),
        }
    }
}

impl Clone for PositionalParameter {
    fn clone(&self) -> (r: Self)
        ensures
            r@ == self@,
    {
        PositionalParameter {
            name: self.name.clone(),
            dart_type: self.dart_type.clone(),
            annotations: clone_annotations(&self.annotations),
        }
    }
}

pub open spec fn param_views(s: Seq<PositionalParameter>) -> Seq<ParamView> {
    s.map_values(|p: PositionalParameter| p@)
}

/// A parameter of the named (braced) section, with its `required` flag and
/// the source text of its default value.
#[derive(Debug, PartialEq, Eq)]
pub struct NamedParameter {
    pub annotations: Vec<Annotation>,
    pub is_required: bool,
    pub dart_type: DartType,
    pub name: String,
    pub default: Option<String>,
}

pub struct NamedParamView {
    pub name: Seq<char>,
    pub ty: TypeView,
    pub annotations: Seq<AnnotationView>,
    pub is_required: bool,
    pub default: Option<Seq<char>>,
}

impl View for NamedParameter {
    type V = NamedParamView;

    open spec fn view(&self) -> NamedParamView {
        NamedParamView {
            name: self.name@,
            ty: self.dart_type@,
            annotations: annotation_views(self.annotations@),
            is_required: self.is_required,
            default: match self.default {
                Some(d) => Some(d@),
                None => None,
            },
        }
    }
}

/// A named parameter seen as a plain field: its `required` flag and default
/// are dropped.
pub open spec fn positional_of(p: NamedParamView) -> ParamView {
    ParamView { name: p.name, ty: p.ty, annotations: p.annotations }
}

pub open spec fn named_views(s: Seq<NamedParameter>) -> Seq<NamedParamView> {
    s.map_values(|p: NamedParameter| p@)
}

impl NamedParameter {
    /// This parameter as a plain field (see [`positional_of`]).
    pub fn to_positional(&self) -> (r: PositionalParameter)
        ensures
            r@ == positional_of(self@),
    {
        PositionalParameter {
            name: self.name.clone(),
            dart_type: self.dart_type.clone(),
            annotations: clone_annotations(&self.annotations),
        }
    }
}

/// A constructor's parameters: the plain ones, then those of the braced section.
#[derive(Debug, PartialEq, Eq)]
pub struct ParameterList {
    pub positional_parameters: Vec<PositionalParameter>,
    pub named_parameters: Vec<NamedParameter>,
}

pub struct ParamsView {
    pub positional: Seq<ParamView>,
    pub named: Seq<NamedParamView>,
}

impl View for ParameterList {
    type V = ParamsView;

    open spec fn view(&self) -> ParamsView {
        ParamsView {
            positional: param_views(self.positional_parameters@),
            named: named_views(self.named_parameters@),
        }
    }
}

/// Every parameter as a plain field: the positional ones, then the named ones,
/// each group in declaration order.
pub open spec fn all_params(p: ParamsView) -> Seq<ParamView> {
    p.positional + p.named.map_values(|n: NamedParamView| positional_of(n))
}

impl ParameterList {
    pub fn is_empty(&self) -> (r: bool)
        ensures
            r == (self@.positional.len() == 0 && self@.named.len() == 0),
    {
        self.positional_parameters.len() == 0 && self.named_parameters.len() == 0
    }

    pub fn new(
        positional_parameters: Vec<PositionalParameter>,
        named_parameters: Vec<NamedParameter>,
    ) -> (r: Self)
        ensures
            r.positional_parameters@ == positional_parameters@,
            r.named_parameters@ == named_parameters@,
    {
        ParameterList { positional_parameters, named_parameters }
    }

    /// All parameters as plain fields, positional ones first (see [`all_params`]).
    pub fn get_all_params(&self) -> (r: Vec<PositionalParameter>)
        ensures
            param_views(r@) == all_params(self@),
    {
        let mut out: Vec<PositionalParameter> = Vec::new();
        let np = self.positional_parameters.len();
        let mut i: usize = 0;
        while i < np
            invariant
                np == self.positional_parameters@.len(),
                i <= np,
                out@.len() == i,
                forall|j: int| 0 <= j < i ==> #[trigger] out@[j]@ == self.positional_parameters@[j]@,
            decreases np - i,
        {
            out.push(self.positional_parameters[i].clone());
            i += 1;
        }
        let nn = self.named_parameters.len();
        let mut k: usize = 0;
        while k < nn
            invariant
                np == self.positional_parameters@.len(),
                nn == self.named_parameters@.len(),
                k <= nn,
                out@.len() == np + k,
                forall|j: int| 0 <= j < np ==> #[trigger] out@[j]@ == self.positional_parameters@[j]@,
                forall|j: int| np <= j < np + k ==> #[trigger] out@[j]@ == positional_of(self.named_parameters@[j - np]@),
            decreases nn - k,
        {
            out.push(self.named_parameters[k].to_positional());
            k += 1;
        }
        proof {
            assert(param_views(out@) =~= all_params(self@));
        }
        out
    }
}

/// A factory constructor of the class. As a variant it redirects to
/// `assigned_type`; it also stands as the marker for a `fromJson` factory
/// (`class_name` is `fromJson`) and for the private unnamed constructor
/// (`class_name` is `_`).
#[derive(Debug, PartialEq, Eq)]
pub struct RedirectedConstructor {
    pub is_const: bool,
    pub class_name: String,
    pub constructor_name: Option<String>,
    pub parameters: ParameterList,
    pub assigned_type: DartType,
}

/// One class to generate for: its name, its mixin (whose type arguments are
/// the class's generic parameters) and its constructors.
#[derive(Debug, PartialEq, Eq)]
pub struct ClassDefinition {
    pub name: String,
    pub gen_form: bool,
    pub mixins: Vec<DartType>,
    pub json_constructor: Option<RedirectedConstructor>,
    pub unnamed_constructor: Option<RedirectedConstructor>,
    pub redirecting_constructors: Vec<RedirectedConstructor>,
}

/// A copy of `types` with `extra` appended.
pub fn types_with(types: &[DartType], extra: DartType) -> (r: Vec<DartType>)
    ensures
        type_views(r@) == type_views(types@).push(extra@),
{
    let mut out: Vec<DartType> = Vec::new();
    let mut i: usize = 0;
    while i < types.len()
        invariant
            i <= types@.len(),
            out@.len() == i,
            forall|j: int| 0 <= j < i ==> #[trigger] out@[j]@ == types@[j]@,
        decreases types.len() - i,
    {
        out.push(types[i].clone());
        i += 1;
    }
    out.push(extra);
    proof {
        lemma_type_views(out@);
        lemma_type_views(types@);
        assert(type_views(out@) =~= type_views(types@).push(out@.last()@));
    }
    out
}

/// A type with the given name, no type arguments, not nullable.
pub fn plain_type(name: String) -> (r: DartType)
    ensures
        r@ == (TypeView { name: name@, nullable: false, args: Seq::empty() }),
{
    let r = DartType { name, nullable: false, type_arguments: Vec::new() };
    proof {
        assert(type_views(r.type_arguments@) =~= Seq::<TypeView>::empty());
    }
    r
}

/// Every `Default` annotation among `anns` that matters carries its argument:
/// the first one, which is the one read.
pub open spec fn defaults_ok(anns: Seq<AnnotationView>) -> bool {
    match default_annotation(anns) {
        Some(a) => a.arguments.len() >= 1,
        None => true,
    }
}

pub open spec fn params_defaults_ok(p: ParamsView) -> bool {
    &&& forall|i: int| 0 <= i < p.positional.len() ==> defaults_ok(#[trigger] p.positional[i].annotations)
    &&& forall|i: int| 0 <= i < p.named.len() ==> defaults_ok(#[trigger] p.named[i].annotations)
}

/// A copy of `types`.
pub fn clone_types(types: &Vec<DartType>) -> (r: Vec<DartType>)
    ensures
        type_views(r@) == type_views(types@),
{
    let mut out: Vec<DartType> = Vec::new();
    let mut i: usize = 0;
    while i < types.len()
        invariant
            i <= types@.len(),
            out@.len() == i,
            forall|j: int| 0 <= j < i ==> #[trigger] out@[j]@ == types@[j]@,
        decreases types.len() - i,
    {
        out.push(types[i].clone());
        i += 1;
    }
    proof {
        lemma_type_views(out@);
        lemma_type_views(types@);
        assert(type_views(out@) =~= type_views(types@));
    }
    out
}

pub proof fn lemma_default_annotation(anns: Seq<AnnotationView>)
    ensures
        match default_annotation(anns) {
            Some(a) => is_default_annotation(a),
            None => true,
        },
    decreases anns.len(),
{
    if anns.len() > 0 && !is_default_annotation(anns[0]) {
        lemma_default_annotation(anns.drop_first());
    }
}

impl DartType {
    /// Whether two types are the same: name, nullability and type arguments.
    pub fn same_as(&self, other: &DartType) -> (r: bool)
        ensures
            r == (self@ == other@),
        decreases self,
    {
        proof {
            lemma_type_views(self.type_arguments@);
            lemma_type_views(other.type_arguments@);
        }
        if self.name != other.name || self.nullable != other.nullable
            || self.type_arguments.len() != other.type_arguments.len() {
            proof {
                if self@ == other@ {
                    assert(self@.args.len() == other@.args.len());
                }
            }
            return false;
        }
        let n = self.type_arguments.len();
        let mut i: usize = 0;
        while i < n
            invariant
                n == self.type_arguments@.len(),
                n == other.type_arguments@.len(),
                i <= n,
                type_views(self.type_arguments@).len() == n,
                type_views(other.type_arguments@).len() == n,
                forall|j: int| 0 <= j < n ==> #[trigger] type_views(self.type_arguments@)[j] == self.type_arguments@[j]@,
                forall|j: int| 0 <= j < n ==> #[trigger] type_views(other.type_arguments@)[j] == other.type_arguments@[j]@,
                forall|j: int| 0 <= j < i ==> self.type_arguments@[j]@ == #[trigger] other.type_arguments@[j]@,
            decreases n - i,
        {
            if !self.type_arguments[i].same_as(&other.type_arguments[i]) {
                proof {
                    if self@ == other@ {
                        assert(self@.args[i as int] == other@.args[i as int]);
                    }
                }
                return false;
            }
            i += 1;
        }
        proof {
            assert(self@.args =~= other@.args);
        }
        true
    }
}

pub struct CtorView {
    pub is_const: bool,
    pub class_name: Seq<char>,
    pub constructor_name: Option<Seq<char>>,
    pub params: ParamsView,
    pub assigned: TypeView,
}

impl View for RedirectedConstructor {
    type V = CtorView;

    open spec fn view(&self) -> CtorView {
        CtorView {
            is_const: self.is_const,
            class_name: self.class_name@,
            constructor_name: match self.constructor_name {
                Some(n) => Some(n@),
                None => None,
            },
            params: self.parameters@,
            assigned: self.assigned_type@,
        }
    }
}

pub struct ClassView {
    pub name: Seq<char>,
    pub gen_form: bool,
    pub mixins: Seq<TypeView>,
    pub json: Option<CtorView>,
    pub unnamed: Option<CtorView>,
    pub variants: Seq<CtorView>,
}

pub open spec fn ctor_views(s: Seq<RedirectedConstructor>) -> Seq<CtorView> {
    s.map_values(|c: RedirectedConstructor| c@)
}

impl View for ClassDefinition {
    type V = ClassView;

    open spec fn view(&self) -> ClassView {
        ClassView {
            name: self.name@,
            gen_form: self.gen_form,
            mixins: type_views(self.mixins@),
            json: match self.json_constructor {
                Some(c) => Some(c@),
                None => None,
            },
            unnamed: match self.unnamed_constructor {
                Some(c) => Some(c@),
                None => None,
            },
            variants: ctor_views(self.redirecting_constructors@),
        }
    }
}

/// A class the generators can work on: it has a mixin and at least one
/// variant, every `Default` annotation of a variant carries its argument, and,
/// when it declares JSON, the JSON decoder can read each field of its first
/// variant.
pub open spec fn class_ready(c: ClassView) -> bool {
    &&& c.mixins.len() >= 1
    &&& c.variants.len() >= 1
    &&& forall|i: int| 0 <= i < c.variants.len() ==> params_defaults_ok(#[trigger] c.variants[i].params)
    &&& c.json is Some ==> params_json_ok(c.variants[0].params)
}

pub open spec fn is_scalar_name(name: Seq<char>) -> bool {
    name == "int"@ || name == "double"@ || name == "bool"@ || name == "String"@ || name == "DateTime"@
}

/// A type the JSON decoder can read: a scalar (`int`, `double`, `bool`,
/// `String`, `DateTime`) has no type arguments, and a `List` or `Set` has
/// exactly one, itself readable. Any other type decodes whatever it holds.
pub open spec fn json_shape_ok(t: TypeView) -> bool
    decreases t,
{
    if is_scalar_name(t.name) {
        t.args.len() == 0
    } else if t.name == "List"@ || t.name == "Set"@ {
        t.args.len() == 1 && json_shape_ok(t.args[0])
    } else {
        true
    }
}

/// A field the JSON decoder can read: a converter decodes it, or its type is
/// readable.
pub open spec fn field_json_ok(anns: Seq<AnnotationView>, t: TypeView) -> bool {
    converter_annotation(anns) is Some || json_shape_ok(t)
}

pub open spec fn params_json_ok(p: ParamsView) -> bool {
    &&& forall|i: int| 0 <= i < p.positional.len() ==> field_json_ok(#[trigger] p.positional[i].annotations, p.positional[i].ty)
    &&& forall|i: int| 0 <= i < p.named.len() ==> field_json_ok(#[trigger] p.named[i].annotations, p.named[i].ty)
}

/// `get_all_params` lists every positional parameter before every named one,
/// each group in declaration order, and nothing else.
pub proof fn lemma_all_params_order(p: ParamsView)
    ensures
        all_params(p).len() == p.positional.len() + p.named.len(),
        forall|i: int| 0 <= i < p.positional.len() ==> #[trigger] all_params(p)[i] == p.positional[i],
        forall|j: int| 0 <= j < p.named.len() ==> #[trigger] all_params(p)[p.positional.len() + j]
            == positional_of(p.named[j]),
{
}

fn annotations_ready(anns: &Vec<Annotation>) -> (r: bool)
    ensures
        r == defaults_ok(annotation_views(anns@)),
{
    match find_default(anns) {
        Some(a) => a.arguments.len() >= 1,
        None => true,
    }
}

impl ParameterList {
    /// Whether every parameter's `Default` annotation, if any, has its argument.
    pub fn defaults_ready(&self) -> (r: bool)
        ensures
            r == params_defaults_ok(self@),
    {
        let mut i: usize = 0;
        while i < self.positional_parameters.len()
            invariant
                i <= self.positional_parameters@.len(),
                forall|j: int| 0 <= j < i ==> defaults_ok(#[trigger] self@.positional[j].annotations),
            decreases self.positional_parameters.len() - i,
        {
            if !annotations_ready(&self.positional_parameters[i].annotations) {
                assert(!defaults_ok(self@.positional[i as int].annotations));
                return false;
            }
            i += 1;
        }
        let mut k: usize = 0;
        while k < self.named_parameters.len()
            invariant
                k <= self.named_parameters@.len(),
                forall|j: int| 0 <= j < self.positional_parameters@.len() ==> defaults_ok(#[trigger] self@.positional[j].annotations),
                forall|j: int| 0 <= j < k ==> defaults_ok(#[trigger] self@.named[j].annotations),
            decreases self.named_parameters.len() - k,
        {
            if !annotations_ready(&self.named_parameters[k].annotations) {
                assert(!defaults_ok(self@.named[k as int].annotations));
                return false;
            }
            k += 1;
        }
        true
    }
}

impl DartType {
    /// Whether the JSON decoder can read this type (see [`json_shape_ok`]).
    pub fn json_shape_ready(&self) -> (r: bool)
        ensures
            r == json_shape_ok(self@),
        decreases self,
    {
        proof {
            lemma_type_views(self.type_arguments@);
        }
        let name = self.name.as_str();
        if text_eq(name, "int") || text_eq(name, "double") || text_eq(name, "bool") || text_eq(name, "String")
            || text_eq(name, "DateTime") {
            self.type_arguments.len() == 0
        } else if text_eq(name, "List") || text_eq(name, "Set") {
            self.type_arguments.len() == 1 && self.type_arguments[0].json_shape_ready()
        } else {
            true
        }
    }
}

impl ParameterList {
    /// Whether the JSON decoder can read every parameter (see [`params_json_ok`]).
    pub fn json_ready(&self) -> (r: bool)
        ensures
            r == params_json_ok(self@),
    {
        let mut i: usize = 0;
        while i < self.positional_parameters.len()
            invariant
                i <= self.positional_parameters@.len(),
                forall|j: int| 0 <= j < i ==> field_json_ok(#[trigger] self@.positional[j].annotations, self@.positional[j].ty),
            decreases self.positional_parameters.len() - i,
        {
            let p = &self.positional_parameters[i];
            if find_converter(&p.annotations).is_none() && !p.dart_type.json_shape_ready() {
                assert(!field_json_ok(self@.positional[i as int].annotations, self@.positional[i as int].ty));
                return false;
            }
            i += 1;
        }
        let mut k: usize = 0;
        while k < self.named_parameters.len()
            invariant
                k <= self.named_parameters@.len(),
                forall|j: int| 0 <= j < self.positional_parameters@.len() ==> field_json_ok(#[trigger] self@.positional[j].annotations, self@.positional[j].ty),
                forall|j: int| 0 <= j < k ==> field_json_ok(#[trigger] self@.named[j].annotations, self@.named[j].ty),
            decreases self.named_parameters.len() - k,
        {
            let p = &self.named_parameters[k];
            if find_converter(&p.annotations).is_none() && !p.dart_type.json_shape_ready() {
                assert(!field_json_ok(self@.named[k as int].annotations, self@.named[k as int].ty));
                return false;
            }
            k += 1;
        }
        true
    }
}

impl ClassDefinition {
    /// Whether the generators can take this class (see [`class_ready`]).
    pub fn is_ready(&self) -> (r: bool)
        ensures
            r == class_ready(self@),
    {
        proof {
            lemma_type_views(self.mixins@);
        }
        if self.mixins.len() == 0 || self.redirecting_constructors.len() == 0 {
            return false;
        }
        let mut k: usize = 0;
        while k < self.redirecting_constructors.len()
            invariant
                k <= self.redirecting_constructors@.len(),
                forall|j: int| 0 <= j < k ==> params_defaults_ok(#[trigger] ctor_views(self.redirecting_constructors@)[j].params),
            decreases self.redirecting_constructors.len() - k,
        {
            if !self.redirecting_constructors[k].parameters.defaults_ready() {
                assert(!params_defaults_ok(ctor_views(self.redirecting_constructors@)[k as int].params));
                return false;
            }
            k += 1;
        }
        if self.json_constructor.is_some() && !self.redirecting_constructors[0].parameters.json_ready() {
            return false;
        }
        true
    }
}

} // verus!
