//! The extractor: reads annotated classes out of a syntax tree into
//! [`ClassDefinition`]s.
use vstd::prelude::*;
use crate::dart_types::{
    Annotation, AnnotationView, DartType, NamedParameter, NamedParamView, ParameterList,
    ParamView, ParamsView, PositionalParameter, TypeView, annotation_views, named_views,
    param_views, type_views, lemma_type_views, RedirectedConstructor, CtorView, ClassDefinition,
    ClassView, ctor_views, params_defaults_ok, class_ready,
};
use crate::syntax::{
    NodeView, SyntaxNode, child_by_field, field_child, lemma_next_named, lemma_node_views,
    next_named, next_named_index, node_views,
};
use crate::text::{contains, text_contains, text_eq};
use crate::dart_types::{join_raw, raw_text};
use crate::seq_text::{concat_map, lemma_concat_map_append, lemma_concat_map_single};

verus! {

pub open spec fn is_type_name_node(n: NodeView) -> bool {
    n.kind == "type_identifier"@ || n.kind == "record_type"@
}

/// Reads a type from the named nodes of `s` starting at `k`: an optional
/// type name, an optional `type_arguments` node whose named children are the
/// argument types, and an optional `nullable_type` marker. The result holds the
/// type and the position just after the nodes read (`k` itself when none was).
pub open spec fn parse_type_at(s: Seq<NodeView>, k: int) -> Option<(TypeView, int)>
    decreases s, 0int,
{
    let has_name = 0 <= k < s.len() && is_type_name_node(s[k]);
    let name = if has_name {
        s[k].text
    } else {
        Seq::empty()
    };
    let k1 = if has_name {
        next_named(s, k + 1)
    } else {
        k
    };
    let has_args = 0 <= k1 < s.len() && s[k1].kind == "type_arguments"@;
    let args = if has_args {
        parse_type_list(s[k1].children, next_named(s[k1].children, 0))
    } else {
        Some(Seq::empty())
    };
    let k2 = if has_args {
        next_named(s, k1 + 1)
    } else {
        k1
    };
    let has_null = 0 <= k2 < s.len() && s[k2].kind == "nullable_type"@;
    let k3 = if has_null {
        next_named(s, k2 + 1)
    } else {
        k2
    };
    match args {
        Some(a) => Some((TypeView { name, nullable: has_null, args: a }, k3)),
        None => None,
    }
}

/// The types read one after another from the named nodes of `c` starting at
/// `j`; `None` when one of them reads no node at all.
pub open spec fn parse_type_list(c: Seq<NodeView>, j: int) -> Option<Seq<TypeView>>
    decreases c, 1 + c.len() - j,
{
    if j < 0 || j >= c.len() {
        Some(Seq::empty())
    } else {
        match parse_type_at(c, j) {
            None => None,
            Some((t, j2)) => if j < j2 <= c.len() {
                match parse_type_list(c, j2) {
                    Some(rest) => Some(seq![t] + rest),
                    None => None,
                }
            } else {
                None
            },
        }
    }
}

fn kind_is(node: &SyntaxNode, kind: &str) -> (r: bool)
    ensures
        r == (node@.kind == kind@),
{
    text_eq(node.kind.as_str(), kind)
}

/// Reads a type from the named children of `children` starting at `k` (see
/// [`parse_type_at`]), with the position after it.
pub fn parse_type(children: &Vec<SyntaxNode>, k: usize) -> (r: Option<(DartType, usize)>)
    requires
        k <= children@.len(),
    ensures
        match r {
            Some((t, e)) => parse_type_at(node_views(children@), k as int) == Some((t@, e as int)),
            None => parse_type_at(node_views(children@), k as int) is None,
        },
    decreases children@, 0int,
{
    let ghost s = node_views(children@);
    proof {
        lemma_node_views(children@);
        lemma_next_named(s, k + 1);
    }
    let n = children.len();
    let mut name = String::new();
    let mut cur = k;
    if k < n && (kind_is(&children[k], "type_identifier") || kind_is(&children[k], "record_type")) {
        name = children[k].text.clone();
        cur = next_named_index(children, k + 1);
    }
    proof {
        lemma_next_named(s, cur + 1);
    }
    let mut args: Vec<DartType> = Vec::new();
    let has_args = cur < n && kind_is(&children[cur], "type_arguments");
    if has_args {
        assert(decreases_to!(children@ => children@[cur as int]));
        match parse_type_arguments(&children[cur].children) {
            Some(a) => {
                args = a;
            },
            None => {
                return None;
            },
        }
        cur = next_named_index(children, cur + 1);
    }
    proof {
        lemma_next_named(s, cur + 1);
    }
    let mut nullable = false;
    if cur < n && kind_is(&children[cur], "nullable_type") {
        nullable = true;
        cur = next_named_index(children, cur + 1);
    }
    let t = DartType { name, nullable, type_arguments: args };
    proof {
        if !has_args {
            assert(type_views(args@) =~= Seq::<TypeView>::empty());
        }
    }
    Some((t, cur))
}

/// Reads the types of a `type_arguments` node's named children, in order.
fn parse_type_arguments(c: &Vec<SyntaxNode>) -> (r: Option<Vec<DartType>>)
    ensures
        match r {
            Some(v) => parse_type_list(node_views(c@), next_named(node_views(c@), 0)) == Some(type_views(v@)),
            None => parse_type_list(node_views(c@), next_named(node_views(c@), 0)) is None,
        },
    decreases c@, 1int,
{
    let ghost cs = node_views(c@);
    proof {
        lemma_node_views(c@);
        lemma_next_named(cs, 0);
    }
    let mut j = next_named_index(c, 0);
    let ghost j0 = j as int;
    let mut acc: Vec<DartType> = Vec::new();
    proof {
        assert(type_views(acc@) =~= Seq::<TypeView>::empty());
        match parse_type_list(cs, j0) {
            Some(rest) => assert(type_views(acc@) + rest =~= rest),
            None => {},
        }
    }
    while j < c.len()
        invariant
            j <= c@.len(),
            cs == node_views(c@),
            cs.len() == c@.len(),
            j0 == next_named(node_views(c@), 0),
            parse_type_list(cs, j0) == (match parse_type_list(cs, j as int) {
                Some(rest) => Some(type_views(acc@) + rest),
                None => None,
            }),
        decreases c@.len() - j,
    {
        match parse_type(c, j) {
            None => {
                assert(parse_type_list(cs, j as int) is None);
                assert(parse_type_list(cs, j0) is None);
                return None;
            },
            Some((t, j2)) => {
                if !(j < j2 && j2 <= c.len()) {
                    assert(parse_type_list(cs, j as int) is None);
                    assert(parse_type_list(cs, j0) is None);
                    return None;
                }
                assert(parse_type_list(cs, j as int) == match parse_type_list(cs, j2 as int) {
                    Some(rest) => Some(seq![t@] + rest),
                    None => None,
                });
                let ghost before = type_views(acc@);
                let ghost tv = t@;
                let ghost old_acc = acc@;
                acc.push(t);
                proof {
                    assert(acc@.drop_last() =~= old_acc);
                    assert(acc@.last()@ == tv);
                    assert(type_views(acc@) == before.push(tv));
                    match parse_type_list(cs, j2 as int) {
                        Some(rest) => {
                            assert(before + (seq![tv] + rest) =~= before.push(tv) + rest);
                        },
                        None => {},
                    }
                }
                j = j2;
            },
        }
    }
    proof {
        assert(type_views(acc@) + Seq::<TypeView>::empty() =~= type_views(acc@));
    }
    Some(acc)
}

/// Why extraction stopped.
#[derive(Debug, PartialEq, Eq)]
pub enum ExtractError {
    /// A node of a shape the extractor does not handle.
    UnsupportedSyntax,
    /// A required part is absent: an annotation's name, a parameter's name,
    /// a variant's target type, or the argument of `Default`.
    MissingElement,
}

/// The source texts of the named nodes of `s`, in order.
pub open spec fn named_texts(s: Seq<NodeView>) -> Seq<Seq<char>>
    decreases s.len(),
{
    if s.len() == 0 {
        Seq::empty()
    } else {
        named_texts(s.drop_last()) + (if s.last().named {
            seq![s.last().text]
        } else {
            Seq::empty()
        })
    }
}

/// An annotation node read as name and arguments: the name is the child
/// under the field `name`, the arguments the named children of the next named
/// node after it.
pub open spec fn annotation_of(n: NodeView) -> Option<AnnotationView> {
    match field_child(n, "name"@) {
        None => None,
        Some(ni) => {
            let ai = next_named(n.children, ni + 1);
            Some(
                AnnotationView {
                    name: n.children[ni].text,
                    arguments: if ai < n.children.len() {
                        named_texts(n.children[ai].children)
                    } else {
                        Seq::empty()
                    },
                },
            )
        },
    }
}

fn named_texts_of(s: &Vec<SyntaxNode>) -> (r: Vec<String>)
    ensures
        r@.map_values(|a: String| a@) == named_texts(node_views(s@)),
{
    proof {
        lemma_node_views(s@);
    }
    let ghost vs = node_views(s@);
    let mut out: Vec<String> = Vec::new();
    let mut i: usize = 0;
    while i < s.len()
        invariant
            i <= s@.len(),
            vs == node_views(s@),
            vs.len() == s@.len(),
            forall|j: int| 0 <= j < vs.len() ==> #[trigger] vs[j] == s@[j]@,
            out@.map_values(|a: String| a@) == named_texts(vs.take(i as int)),
        decreases s.len() - i,
    {
        if s[i].named {
            out.push(s[i].text.clone());
        }
        proof {
            assert(vs.take(i + 1).drop_last() =~= vs.take(i as int));
            assert(out@.map_values(|a: String| a@) =~= named_texts(vs.take(i + 1)));
        }
        i += 1;
    }
    proof {
        assert(vs.take(vs.len() as int) =~= vs);
    }
    out
}

/// Reads an annotation node (see [`annotation_of`]).
pub fn parse_annotation(node: &SyntaxNode) -> (r: Result<Annotation, ExtractError>)
    ensures
        match r {
            Ok(a) => annotation_of(node@) == Some(a@),
            Err(_) => annotation_of(node@) is None,
        },
{
    proof {
        lemma_node_views(node.children@);
    }
    match child_by_field(node, "name") {
        None => Err(ExtractError::MissingElement),
        Some(ni) => {
            let n = node.children.len();
            assert(ni < n);
            let name = node.children[ni].text.clone();
            let ai = next_named_index(&node.children, ni + 1);
            let arguments = if ai < node.children.len() {
                named_texts_of(&node.children[ai].children)
            } else {
                Vec::new()
            };
            proof {
                if ai >= node.children.len() {
                    assert(arguments@.map_values(|a: String| a@) =~= Seq::<Seq<char>>::empty());
                }
            }
            Ok(Annotation { name, arguments })
        },
    }
}

/// The annotations read from consecutive named `annotation` nodes of `s` at
/// and after `k` (anonymous nodes skipped), with the position of the first
/// named node that is not one.
pub open spec fn annotations_from(s: Seq<NodeView>, k: int) -> Option<(Seq<AnnotationView>, int)>
    decreases s.len() - k,
{
    if k < 0 || k >= s.len() {
        Some((Seq::empty(), s.len() as int))
    } else if !s[k].named {
        annotations_from(s, k + 1)
    } else if s[k].kind == "annotation"@ {
        match annotation_of(s[k]) {
            None => None,
            Some(a) => match annotations_from(s, k + 1) {
                None => None,
                Some((rest, e)) => Some((seq![a] + rest, e)),
            },
        }
    } else {
        Some((Seq::empty(), k))
    }
}

fn parse_annotations(children: &Vec<SyntaxNode>, k: usize) -> (r: Result<(Vec<Annotation>, usize), ExtractError>)
    requires
        k <= children@.len(),
    ensures
        match r {
            Ok((anns, e)) => annotations_from(node_views(children@), k as int) == Some((annotation_views(anns@), e as int)),
            Err(_) => annotations_from(node_views(children@), k as int) is None,
        },
{
    proof {
        lemma_node_views(children@);
    }
    let ghost s = node_views(children@);
    let mut anns: Vec<Annotation> = Vec::new();
    let mut i = k;
    while i < children.len()
        invariant
            k <= i <= children@.len(),
            s == node_views(children@),
            s.len() == children@.len(),
            forall|j: int| 0 <= j < s.len() ==> #[trigger] s[j] == children@[j]@,
            annotations_from(s, k as int) == (match annotations_from(s, i as int) {
                None => None,
                Some((rest, e)) => Some((annotation_views(anns@) + rest, e)),
            }),
        decreases children.len() - i,
    {
        if children[i].named {
            if kind_is(&children[i], "annotation") {
                match parse_annotation(&children[i]) {
                    Err(e) => {
                        return Err(e);
                    },
                    Ok(a) => {
                        let ghost av = a@;
                        let ghost before = annotation_views(anns@);
                        anns.push(a);
                        proof {
                            assert(annotation_views(anns@) =~= before.push(av));
                            match annotations_from(s, i + 1) {
                                Some((rest, e)) => {
                                    assert(before + (seq![av] + rest) =~= before.push(av) + rest);
                                },
                                None => {},
                            }
                        }
                    },
                }
            } else {
                proof {
                    assert(annotation_views(anns@) + Seq::<AnnotationView>::empty() =~= annotation_views(anns@));
                }
                return Ok((anns, i));
            }
        }
        i += 1;
    }
    proof {
        assert(annotation_views(anns@) + Seq::<AnnotationView>::empty() =~= annotation_views(anns@));
    }
    Ok((anns, i))
}

/// A `formal_parameter` node read as a field: its leading annotations, its
/// type (empty when untyped) and the identifier after the type.
pub open spec fn formal_param_of(n: NodeView) -> Option<ParamView> {
    match annotations_from(n.children, 0) {
        None => None,
        Some((anns, k1)) => match parse_type_at(n.children, k1) {
            None => None,
            Some((t, k2)) => if 0 <= k2 < n.children.len() && n.children[k2].kind == "identifier"@ {
                Some(ParamView { name: n.children[k2].text, ty: t, annotations: anns })
            } else {
                None
            },
        },
    }
}

pub proof fn lemma_annotations_from_bound(s: Seq<NodeView>, k: int)
    requires
        0 <= k,
    ensures
        annotations_from(s, k) matches Some((_, e)) ==> 0 <= e <= s.len(),
    decreases s.len() - k,
{
    if k < s.len() {
        lemma_annotations_from_bound(s, k + 1);
    }
}

pub proof fn lemma_parse_type_bound(s: Seq<NodeView>, k: int)
    requires
        0 <= k <= s.len(),
    ensures
        parse_type_at(s, k) matches Some((_, e)) ==> k <= e <= s.len(),
{
    lemma_next_named(s, k + 1);
    let k1 = if 0 <= k < s.len() && is_type_name_node(s[k]) {
        next_named(s, k + 1)
    } else {
        k
    };
    lemma_next_named(s, k1 + 1);
    let k2 = if 0 <= k1 < s.len() && s[k1].kind == "type_arguments"@ {
        next_named(s, k1 + 1)
    } else {
        k1
    };
    lemma_next_named(s, k2 + 1);
}

/// Reads a `formal_parameter` node (see [`formal_param_of`]).
fn parse_formal_parameter(node: &SyntaxNode) -> (r: Result<PositionalParameter, ExtractError>)
    ensures
        match r {
            Ok(p) => formal_param_of(node@) == Some(p@),
            Err(_) => formal_param_of(node@) is None,
        },
{
    proof {
        lemma_node_views(node.children@);
        lemma_annotations_from_bound(node@.children, 0);
    }
    let (annotations, k1) = match parse_annotations(&node.children, 0) {
        Ok(x) => x,
        Err(e) => {
            return Err(e);
        },
    };
    proof {
        lemma_parse_type_bound(node@.children, k1 as int);
    }
    let (dart_type, k2) = match parse_type(&node.children, k1) {
        Some(x) => x,
        None => {
            return Err(ExtractError::UnsupportedSyntax);
        },
    };
    if k2 < node.children.len() && kind_is(&node.children[k2], "identifier") {
        Ok(PositionalParameter { name: node.children[k2].text.clone(), dart_type, annotations })
    } else {
        Err(ExtractError::MissingElement)
    }
}

/// The states of the reader of a braced (named) parameter section.
pub enum FormalParameterSteps {
    OpenBracket,
    Annotations,
    Required,
    FormalParameter,
    DefaultValue,
    CloseBracket,
    Finish,
}

pub open spec fn empty_named() -> NamedParamView {
    NamedParamView {
        name: Seq::empty(),
        ty: TypeView { name: Seq::empty(), nullable: false, args: Seq::empty() },
        annotations: Seq::empty(),
        is_required: false,
        default: None,
    }
}

pub open spec fn or_empty(cur: Option<NamedParamView>) -> NamedParamView {
    match cur {
        Some(c) => c,
        None => empty_named(),
    }
}

/// One step of the reader: the next state, the parameter in progress, and
/// the parameter completed by this token, if any. `None` means the token
/// does not fit the section's grammar.
pub type StepResult = Option<(FormalParameterSteps, Option<NamedParamView>, Option<NamedParamView>)>;

pub open spec fn formal_step(child: NodeView, c: NamedParamView) -> StepResult {
    if child.kind == "formal_parameter"@ {
        match formal_param_of(child) {
            None => None,
            Some(p) => Some(
                (
                    FormalParameterSteps::DefaultValue,
                    Some(
                        NamedParamView {
                            name: p.name,
                            ty: p.ty,
                            annotations: c.annotations + p.annotations,
                            is_required: c.is_required,
                            default: c.default,
                        },
                    ),
                    None,
                ),
            ),
        }
    } else {
        None
    }
}

pub open spec fn required_step(child: NodeView, c: NamedParamView) -> StepResult {
    if child.kind == "required"@ {
        Some(
            (
                FormalParameterSteps::FormalParameter,
                Some(
                    NamedParamView {
                        name: c.name,
                        ty: c.ty,
                        annotations: c.annotations,
                        is_required: true,
                        default: c.default,
                    },
                ),
                None,
            ),
        )
    } else {
        formal_step(child, c)
    }
}

/// The transition on one token: `{` opens; annotations gather onto the next
/// parameter; `required` marks it; a `formal_parameter` gives its name and
/// type; `=` is skipped; `,` completes the parameter; `}` closes.
pub open spec fn section_step(st: FormalParameterSteps, child: NodeView, cur: Option<NamedParamView>) -> StepResult {
    match st {
        FormalParameterSteps::OpenBracket => if child.kind == "{"@ {
            Some((FormalParameterSteps::Annotations, cur, None))
        } else {
            None
        },
        FormalParameterSteps::Annotations => if child.kind == "}"@ {
            Some((FormalParameterSteps::CloseBracket, cur, None))
        } else if child.kind == "annotation"@ {
            let c = or_empty(cur);
            match annotation_of(child) {
                None => None,
                Some(a) => Some(
                    (
                        FormalParameterSteps::Annotations,
                        Some(
                            NamedParamView {
                                name: c.name,
                                ty: c.ty,
                                annotations: c.annotations.push(a),
                                is_required: c.is_required,
                                default: c.default,
                            },
                        ),
                        None,
                    ),
                ),
            }
        } else {
            required_step(child, or_empty(cur))
        },
        FormalParameterSteps::Required => required_step(child, or_empty(cur)),
        FormalParameterSteps::FormalParameter => formal_step(child, or_empty(cur)),
        FormalParameterSteps::DefaultValue => if child.kind == "="@ {
            Some((FormalParameterSteps::DefaultValue, cur, None))
        } else if child.kind == ","@ {
            Some((FormalParameterSteps::Annotations, None, cur))
        } else if child.kind == "}"@ {
            Some((FormalParameterSteps::Finish, cur, None))
        } else {
            None
        },
        FormalParameterSteps::CloseBracket => if child.kind == "}"@ {
            Some((FormalParameterSteps::Finish, cur, None))
        } else {
            None
        },
        FormalParameterSteps::Finish => None,
    }
}

pub open spec fn push_opt(acc: Seq<NamedParamView>, p: Option<NamedParamView>) -> Seq<NamedParamView> {
    match p {
        Some(x) => acc.push(x),
        None => acc,
    }
}

/// Runs the reader over the tokens of `cs` from `i` (comments skipped); at the
/// end a parameter still in progress is completed.
pub open spec fn run_section(
    cs: Seq<NodeView>,
    i: int,
    st: FormalParameterSteps,
    cur: Option<NamedParamView>,
    acc: Seq<NamedParamView>,
) -> Option<Seq<NamedParamView>>
    decreases cs.len() - i,
{
    if i < 0 || i >= cs.len() {
        Some(push_opt(acc, cur))
    } else if cs[i].kind == "comment"@ {
        run_section(cs, i + 1, st, cur, acc)
    } else {
        match section_step(st, cs[i], cur) {
            None => None,
            Some((st2, cur2, done)) => run_section(cs, i + 1, st2, cur2, push_opt(acc, done)),
        }
    }
}

/// The named parameters of an `optional_formal_parameters` node.
pub open spec fn named_section(cs: Seq<NodeView>) -> Option<Seq<NamedParamView>> {
    run_section(cs, 0, FormalParameterSteps::OpenBracket, None, Seq::empty())
}

pub open spec fn opt_named_view(o: Option<NamedParameter>) -> Option<NamedParamView> {
    match o {
        Some(p) => Some(p@),
        None => None,
    }
}

fn empty_named_parameter() -> (r: NamedParameter)
    ensures
        r@ == empty_named(),
{
    let r = NamedParameter {
        annotations: Vec::new(),
        is_required: false,
        dart_type: DartType { name: String::new(), nullable: false, type_arguments: Vec::new() },
        name: String::new(),
        default: None,
    };
    proof {
        assert(annotation_views(r.annotations@) =~= Seq::<AnnotationView>::empty());
        assert(type_views(r.dart_type.type_arguments@) =~= Seq::<TypeView>::empty());
        assert(r@.ty == empty_named().ty);
    }
    r
}

fn take_or_empty(cur: Option<NamedParameter>) -> (r: NamedParameter)
    ensures
        r@ == or_empty(opt_named_view(cur)),
{
    match cur {
        Some(c) => c,
        None => empty_named_parameter(),
    }
}

fn formal_step_exec(child: &SyntaxNode, c: NamedParameter) -> (r: Result<(FormalParameterSteps, Option<NamedParameter>, Option<NamedParameter>), ExtractError>)
    ensures
        match r {
            Ok((st, cur, done)) => formal_step(child@, c@) == Some((st, opt_named_view(cur), opt_named_view(done))),
            Err(_) => formal_step(child@, c@) is None,
        },
{
    if !kind_is(child, "formal_parameter") {
        return Err(ExtractError::UnsupportedSyntax);
    }
    let p = match parse_formal_parameter(child) {
        Ok(p) => p,
        Err(e) => {
            return Err(e);
        },
    };
    let mut c = c;
    let ghost before = annotation_views(c.annotations@);
    let mut extra = p.annotations;
    let ghost extra_v = annotation_views(extra@);
    c.annotations.append(&mut extra);
    proof {
        assert(annotation_views(c.annotations@) =~= before + extra_v);
    }
    c.name = p.name;
    c.dart_type = p.dart_type;
    Ok((FormalParameterSteps::DefaultValue, Some(c), None))
}

fn required_step_exec(child: &SyntaxNode, c: NamedParameter) -> (r: Result<(FormalParameterSteps, Option<NamedParameter>, Option<NamedParameter>), ExtractError>)
    ensures
        match r {
            Ok((st, cur, done)) => required_step(child@, c@) == Some((st, opt_named_view(cur), opt_named_view(done))),
            Err(_) => required_step(child@, c@) is None,
        },
{
    if kind_is(child, "required") {
        let mut c = c;
        c.is_required = true;
        Ok((FormalParameterSteps::FormalParameter, Some(c), None))
    } else {
        formal_step_exec(child, c)
    }
}

fn section_step_exec(st: FormalParameterSteps, child: &SyntaxNode, cur: Option<NamedParameter>) -> (r: Result<(FormalParameterSteps, Option<NamedParameter>, Option<NamedParameter>), ExtractError>)
    ensures
        match r {
            Ok((st2, cur2, done)) => section_step(st, child@, opt_named_view(cur)) == Some((st2, opt_named_view(cur2), opt_named_view(done))),
            Err(_) => section_step(st, child@, opt_named_view(cur)) is None,
        },
{
    match st {
        FormalParameterSteps::OpenBracket => {
            if kind_is(child, "{") {
                Ok((FormalParameterSteps::Annotations, cur, None))
            } else {
                Err(ExtractError::UnsupportedSyntax)
            }
        },
        FormalParameterSteps::Annotations => {
            if kind_is(child, "}") {
                Ok((FormalParameterSteps::CloseBracket, cur, None))
            } else if kind_is(child, "annotation") {
                let mut c = take_or_empty(cur);
                match parse_annotation(child) {
                    Err(e) => Err(e),
                    Ok(a) => {
                        let ghost before = annotation_views(c.annotations@);
                        let ghost av = a@;
                        c.annotations.push(a);
                        proof {
                            assert(annotation_views(c.annotations@) =~= before.push(av));
                        }
                        Ok((FormalParameterSteps::Annotations, Some(c), None))
                    },
                }
            } else {
                required_step_exec(child, take_or_empty(cur))
            }
        },
        FormalParameterSteps::Required => required_step_exec(child, take_or_empty(cur)),
        FormalParameterSteps::FormalParameter => formal_step_exec(child, take_or_empty(cur)),
        FormalParameterSteps::DefaultValue => {
            if kind_is(child, "=") {
                Ok((FormalParameterSteps::DefaultValue, cur, None))
            } else if kind_is(child, ",") {
                Ok((FormalParameterSteps::Annotations, None, cur))
            } else if kind_is(child, "}") {
                Ok((FormalParameterSteps::Finish, cur, None))
            } else {
                Err(ExtractError::UnsupportedSyntax)
            }
        },
        FormalParameterSteps::CloseBracket => {
            if kind_is(child, "}") {
                Ok((FormalParameterSteps::Finish, cur, None))
            } else {
                Err(ExtractError::UnsupportedSyntax)
            }
        },
        FormalParameterSteps::Finish => Err(ExtractError::UnsupportedSyntax),
    }
}

fn push_done(acc: &mut Vec<NamedParameter>, done: Option<NamedParameter>)
    ensures
        named_views(final(acc)@) == push_opt(named_views(old(acc)@), opt_named_view(done)),
{
    let ghost before = named_views(acc@);
    match done {
        Some(p) => {
            let ghost pv = p@;
            acc.push(p);
            proof {
                assert(named_views(acc@) =~= before.push(pv));
            }
        },
        None => {},
    }
}

/// Reads the braced section of a parameter list (see [`named_section`]).
fn parse_named_section(children: &Vec<SyntaxNode>) -> (r: Result<Vec<NamedParameter>, ExtractError>)
    ensures
        match r {
            Ok(v) => named_section(node_views(children@)) == Some(named_views(v@)),
            Err(_) => named_section(node_views(children@)) is None,
        },
{
    proof {
        lemma_node_views(children@);
    }
    let ghost cs = node_views(children@);
    let mut state = FormalParameterSteps::OpenBracket;
    let mut current: Option<NamedParameter> = None;
    let mut acc: Vec<NamedParameter> = Vec::new();
    proof {
        assert(named_views(acc@) =~= Seq::<NamedParamView>::empty());
    }
    let mut i: usize = 0;
    while i < children.len()
        invariant
            i <= children@.len(),
            cs == node_views(children@),
            cs.len() == children@.len(),
            forall|j: int| 0 <= j < cs.len() ==> #[trigger] cs[j] == children@[j]@,
            named_section(cs) == run_section(cs, i as int, state, opt_named_view(current), named_views(acc@)),
        decreases children.len() - i,
    {
        if !kind_is(&children[i], "comment") {
            match section_step_exec(state, &children[i], current) {
                Err(e) => {
                    return Err(e);
                },
                Ok((st2, cur2, done)) => {
                    state = st2;
                    current = cur2;
                    push_done(&mut acc, done);
                },
            }
        }
        i += 1;
    }
    push_done(&mut acc, current);
    Ok(acc)
}

/// The plain parameters at and after `k` (anonymous nodes and comments
/// skipped), up to the braced section or the end, with the position where
/// they stop.
pub open spec fn positional_from(s: Seq<NodeView>, k: int) -> Option<(Seq<ParamView>, int)>
    decreases s.len() - k,
{
    if k < 0 || k >= s.len() {
        Some((Seq::empty(), s.len() as int))
    } else if !s[k].named || s[k].kind == "comment"@ {
        positional_from(s, k + 1)
    } else if s[k].kind == "formal_parameter"@ {
        match formal_param_of(s[k]) {
            None => None,
            Some(p) => match positional_from(s, k + 1) {
                None => None,
                Some((rest, e)) => Some((seq![p] + rest, e)),
            },
        }
    } else if s[k].kind == "optional_formal_parameters"@ {
        Some((Seq::empty(), k))
    } else {
        None
    }
}

/// A `formal_parameter_list` node read as plain parameters followed by an
/// optional braced section of named ones.
pub open spec fn parameter_list_of(n: NodeView) -> Option<ParamsView> {
    if n.kind != "formal_parameter_list"@ {
        None
    } else {
        match positional_from(n.children, 0) {
            None => None,
            Some((pos, k)) => if 0 <= k < n.children.len() {
                match named_section(n.children[k].children) {
                    None => None,
                    Some(named) => Some(ParamsView { positional: pos, named }),
                }
            } else {
                Some(ParamsView { positional: pos, named: Seq::empty() })
            },
        }
    }
}

/// Reads a `formal_parameter_list` node (see [`parameter_list_of`]).
fn parse_formal_parameter_list(node: &SyntaxNode) -> (r: Result<ParameterList, ExtractError>)
    ensures
        match r {
            Ok(p) => parameter_list_of(node@) == Some(p@),
            Err(_) => parameter_list_of(node@) is None,
        },
{
    if !kind_is(node, "formal_parameter_list") {
        return Err(ExtractError::UnsupportedSyntax);
    }
    proof {
        lemma_node_views(node.children@);
    }
    let ghost s = node@.children;
    let mut positional: Vec<PositionalParameter> = Vec::new();
    let mut i: usize = 0;
    proof {
        assert(param_views(positional@) =~= Seq::<ParamView>::empty());
        match positional_from(s, 0) {
            Some((rest, e)) => assert(param_views(positional@) + rest =~= rest),
            None => {},
        }
    }
    let mut found = false;
    while i < node.children.len() && !found
        invariant
            i <= node.children@.len(),
            found ==> i < s.len() && positional_from(s, i as int) == Some((Seq::<ParamView>::empty(), i as int)),
            s == node@.children,
            s.len() == node.children@.len(),
            forall|j: int| 0 <= j < s.len() ==> #[trigger] s[j] == node.children@[j]@,
            positional_from(s, 0) == (match positional_from(s, i as int) {
                None => None,
                Some((rest, e)) => Some((param_views(positional@) + rest, e)),
            }),
        decreases node.children.len() - i + (if found { 0int } else { 1int }),
    {
        let child = &node.children[i];
        if child.named && !kind_is(child, "comment") {
            if kind_is(child, "formal_parameter") {
                match parse_formal_parameter(child) {
                    Err(e) => {
                        return Err(e);
                    },
                    Ok(p) => {
                        let ghost pv = p@;
                        let ghost before = param_views(positional@);
                        positional.push(p);
                        proof {
                            assert(param_views(positional@) =~= before.push(pv));
                            match positional_from(s, i + 1) {
                                Some((rest, e)) => {
                                    assert(before + (seq![pv] + rest) =~= before.push(pv) + rest);
                                },
                                None => {},
                            }
                        }
                    },
                }
            } else if kind_is(child, "optional_formal_parameters") {
                found = true;
            } else {
                return Err(ExtractError::UnsupportedSyntax);
            }
        }
        if !found {
            i += 1;
        }
    }
    proof {
        assert(param_views(positional@) + Seq::<ParamView>::empty() =~= param_views(positional@));
    }
    if i < node.children.len() {
        match parse_named_section(&node.children[i].children) {
            Err(e) => Err(e),
            Ok(named) => Ok(ParameterList { positional_parameters: positional, named_parameters: named }),
        }
    } else {
        let r = ParameterList { positional_parameters: positional, named_parameters: Vec::new() };
        proof {
            assert(named_views(r.named_parameters@) =~= Seq::<NamedParamView>::empty());
        }
        Ok(r)
    }
}

/// The parts of a redirecting factory constructor, in source order.
pub enum RedirectingFactoryItems {
    Const,
    FactoryKeyword,
    ClassName,
    ConstructorName,
    FormalParameterList,
    AssignedConstructor,
}

pub open spec fn item_rank(st: RedirectingFactoryItems) -> int {
    match st {
        RedirectingFactoryItems::Const => 5,
        RedirectingFactoryItems::FactoryKeyword => 4,
        RedirectingFactoryItems::ClassName => 3,
        RedirectingFactoryItems::ConstructorName => 2,
        RedirectingFactoryItems::FormalParameterList => 1,
        RedirectingFactoryItems::AssignedConstructor => 0,
    }
}

/// What has been read of a redirecting factory so far.
pub struct RedirectView {
    pub is_const: bool,
    pub class_name: Seq<char>,
    pub constructor_name: Option<Seq<char>>,
    pub params: ParamsView,
    pub assigned: Option<TypeView>,
}

pub open spec fn empty_params() -> ParamsView {
    ParamsView { positional: Seq::empty(), named: Seq::empty() }
}

/// Reads `[const] factory Name[.ctor](params) = Target` from the tokens of
/// `cs` starting at `i`: `const` is optional, then `factory`, the class name,
/// an optional `.name`, the parameter list, `=` and the target type.
pub open spec fn run_redirect(cs: Seq<NodeView>, i: int, st: RedirectingFactoryItems, acc: RedirectView) -> Option<RedirectView>
    decreases cs.len() - i, item_rank(st),
{
    if i < 0 || i >= cs.len() {
        Some(acc)
    } else {
        let c = cs[i];
        match st {
            RedirectingFactoryItems::Const => if c.kind == "const_builtin"@ {
                run_redirect(cs, i + 1, RedirectingFactoryItems::FactoryKeyword, RedirectView { is_const: true, ..acc })
            } else {
                run_redirect(cs, i, RedirectingFactoryItems::FactoryKeyword, acc)
            },
            RedirectingFactoryItems::FactoryKeyword => if c.kind == "factory"@ {
                run_redirect(cs, i + 1, RedirectingFactoryItems::ClassName, acc)
            } else {
                None
            },
            RedirectingFactoryItems::ClassName => if c.kind == "identifier"@ {
                run_redirect(cs, i + 1, RedirectingFactoryItems::ConstructorName, RedirectView { class_name: c.text, ..acc })
            } else {
                None
            },
            RedirectingFactoryItems::ConstructorName => if c.kind == "."@ {
                run_redirect(cs, i + 1, RedirectingFactoryItems::ConstructorName, acc)
            } else if c.kind == "identifier"@ {
                run_redirect(cs, i + 1, RedirectingFactoryItems::FormalParameterList, RedirectView { constructor_name: Some(c.text), ..acc })
            } else if c.kind == "formal_parameter_list"@ {
                run_redirect(cs, i, RedirectingFactoryItems::FormalParameterList, acc)
            } else {
                None
            },
            RedirectingFactoryItems::FormalParameterList => match parameter_list_of(c) {
                None => None,
                Some(p) => run_redirect(cs, i + 1, RedirectingFactoryItems::AssignedConstructor, RedirectView { params: p, ..acc }),
            },
            RedirectingFactoryItems::AssignedConstructor => if c.kind == "="@ {
                run_redirect(cs, i + 1, RedirectingFactoryItems::AssignedConstructor, acc)
            } else {
                match parse_type_at(cs, i) {
                    None => None,
                    Some((t, e)) => if i < e <= cs.len() {
                        run_redirect(cs, e, RedirectingFactoryItems::AssignedConstructor, RedirectView { assigned: Some(t), ..acc })
                    } else {
                        None
                    },
                }
            },
        }
    }
}

/// A `redirecting_factory_constructor_signature` node read as a constructor;
/// `None` when a token is out of place or the target type is missing.
pub open spec fn redirect_of(n: NodeView) -> Option<CtorView> {
    let init = RedirectView {
        is_const: false,
        class_name: Seq::empty(),
        constructor_name: None,
        params: empty_params(),
        assigned: None,
    };
    match run_redirect(n.children, 0, RedirectingFactoryItems::Const, init) {
        None => None,
        Some(acc) => match acc.assigned {
            None => None,
            Some(t) => Some(
                CtorView {
                    is_const: acc.is_const,
                    class_name: acc.class_name,
                    constructor_name: acc.constructor_name,
                    params: acc.params,
                    assigned: t,
                },
            ),
        },
    }
}

pub open spec fn opt_text(o: Option<String>) -> Option<Seq<char>> {
    match o {
        Some(s) => Some(s@),
        None => None,
    }
}

pub open spec fn opt_type(o: Option<DartType>) -> Option<TypeView> {
    match o {
        Some(t) => Some(t@),
        None => None,
    }
}

fn empty_parameter_list() -> (r: ParameterList)
    ensures
        r@ == empty_params(),
{
    let r = ParameterList { positional_parameters: Vec::new(), named_parameters: Vec::new() };
    proof {
        assert(param_views(r.positional_parameters@) =~= Seq::<ParamView>::empty());
        assert(named_views(r.named_parameters@) =~= Seq::<NamedParamView>::empty());
    }
    r
}

/// Reads a redirecting factory constructor (see [`redirect_of`]).
fn parse_redirecting_factory(node: &SyntaxNode) -> (r: Result<RedirectedConstructor, ExtractError>)
    ensures
        match r {
            Ok(c) => redirect_of(node@) == Some(c@),
            Err(_) => redirect_of(node@) is None,
        },
{
    proof {
        lemma_node_views(node.children@);
    }
    let ghost cs = node@.children;
    let children = &node.children;
    assert(cs == node_views(children@));
    let mut stage = RedirectingFactoryItems::Const;
    let mut is_const = false;
    let mut class_name = String::new();
    let mut constructor_name: Option<String> = None;
    let mut arguments = empty_parameter_list();
    let mut assigned_type: Option<DartType> = None;
    let mut i: usize = 0;
    while i < children.len()
        invariant
            i <= children@.len(),
            cs == node@.children,
            cs == node_views(children@),
            cs.len() == children@.len(),
            forall|j: int| 0 <= j < cs.len() ==> #[trigger] cs[j] == children@[j]@,
            run_redirect(cs, 0, RedirectingFactoryItems::Const, RedirectView {
                is_const: false,
                class_name: Seq::empty(),
                constructor_name: None,
                params: empty_params(),
                assigned: None,
            }) == run_redirect(cs, i as int, stage, RedirectView {
                is_const,
                class_name: class_name@,
                constructor_name: opt_text(constructor_name),
                params: arguments@,
                assigned: opt_type(assigned_type),
            }),
        decreases children.len() - i, item_rank(stage),
    {
        let child = &children[i];
        match stage {
            RedirectingFactoryItems::Const => {
                if kind_is(child, "const_builtin") {
                    is_const = true;
                    i += 1;
                }
                stage = RedirectingFactoryItems::FactoryKeyword;
            },
            RedirectingFactoryItems::FactoryKeyword => {
                if !kind_is(child, "factory") {
                    return Err(ExtractError::UnsupportedSyntax);
                }
                i += 1;
                stage = RedirectingFactoryItems::ClassName;
            },
            RedirectingFactoryItems::ClassName => {
                if !kind_is(child, "identifier") {
                    return Err(ExtractError::UnsupportedSyntax);
                }
                class_name = child.text.clone();
                i += 1;
                stage = RedirectingFactoryItems::ConstructorName;
            },
            RedirectingFactoryItems::ConstructorName => {
                if kind_is(child, ".") {
                    i += 1;
                } else if kind_is(child, "identifier") {
                    constructor_name = Some(child.text.clone());
                    i += 1;
                    stage = RedirectingFactoryItems::FormalParameterList;
                } else if kind_is(child, "formal_parameter_list") {
                    stage = RedirectingFactoryItems::FormalParameterList;
                } else {
                    return Err(ExtractError::UnsupportedSyntax);
                }
            },
            RedirectingFactoryItems::FormalParameterList => {
                match parse_formal_parameter_list(child) {
                    Err(e) => {
                        return Err(e);
                    },
                    Ok(p) => {
                        arguments = p;
                    },
                }
                i += 1;
                stage = RedirectingFactoryItems::AssignedConstructor;
            },
            RedirectingFactoryItems::AssignedConstructor => {
                if kind_is(child, "=") {
                    i += 1;
                } else {
                    proof {
                        lemma_parse_type_bound(cs, i as int);
                        assert(cs == node_views(children@));
                        assert(cs[i as int].kind != "="@);
                    }
                    match parse_type(children, i) {
                        None => {
                            assert(run_redirect(cs, i as int, stage, RedirectView {
                                is_const,
                                class_name: class_name@,
                                constructor_name: opt_text(constructor_name),
                                params: arguments@,
                                assigned: opt_type(assigned_type),
                            }) is None);
                            return Err(ExtractError::UnsupportedSyntax);
                        },
                        Some((t, e)) => {
                            if !(i < e) {
                                assert(run_redirect(cs, i as int, stage, RedirectView {
                                    is_const,
                                    class_name: class_name@,
                                    constructor_name: opt_text(constructor_name),
                                    params: arguments@,
                                    assigned: opt_type(assigned_type),
                                }) is None);
                                return Err(ExtractError::UnsupportedSyntax);
                            }
                            assigned_type = Some(t);
                            i = e;
                        },
                    }
                }
            },
        }
    }
    match assigned_type {
        None => Err(ExtractError::MissingElement),
        Some(t) => Ok(RedirectedConstructor {
            is_const,
            class_name,
            constructor_name,
            parameters: arguments,
            assigned_type: t,
        }),
    }
}

/// What a class member is to the generator.
pub enum MemberView {
    Variant(CtorView),
    Json(CtorView),
    Unnamed(CtorView),
}

/// A member read from the class body: a variant constructor, the marker of a
/// `fromJson` factory, or the marker of the private unnamed constructor.
pub enum DeclarationParseResult {
    Redirected(RedirectedConstructor),
    Json(RedirectedConstructor),
    Unnamed(RedirectedConstructor),
}

impl View for DeclarationParseResult {
    type V = MemberView;

    open spec fn view(&self) -> MemberView {
        match self {
            DeclarationParseResult::Redirected(c) => MemberView::Variant(c@),
            DeclarationParseResult::Json(c) => MemberView::Json(c@),
            DeclarationParseResult::Unnamed(c) => MemberView::Unnamed(c@),
        }
    }
}

pub open spec fn has_identifier(n: NodeView, text: Seq<char>) -> bool {
    exists|i: int| #![trigger n.children[i]] 0 <= i < n.children.len() && n.children[i].kind == "identifier"@
        && n.children[i].text == text
}

/// A constructor that stands only as a marker: the given class name and
/// constness, nothing else.
pub open spec fn marker_ctor(class_name: Seq<char>, is_const: bool) -> CtorView {
    CtorView {
        is_const,
        class_name,
        constructor_name: None,
        params: empty_params(),
        assigned: TypeView { name: Seq::empty(), nullable: false, args: Seq::empty() },
    }
}

/// Classifies a member node (`declaration` or `factory_constructor_signature`)
/// by its first child: a redirecting factory is a variant (a `fromJson` one
/// marks JSON); a factory signature named `fromJson` marks JSON; a
/// constructor named `_` marks the unnamed constructor; any other declaration
/// is no constructor (`Some(None)`). `None`: a shape this reader rejects.
pub open spec fn member_of(n: NodeView) -> Option<Option<MemberView>> {
    if n.children.len() == 0 {
        None
    } else {
        let first = n.children[0];
        if first.kind == "redirecting_factory_constructor_signature"@ {
            if n.children.len() != 1 {
                None
            } else {
                match redirect_of(first) {
                    None => None,
                    Some(c) => Some(
                        Some(
                            if c.constructor_name == Some("fromJson"@) {
                                MemberView::Json(c)
                            } else {
                                MemberView::Variant(c)
                            },
                        ),
                    ),
                }
            }
        } else if n.kind == "factory_constructor_signature"@ {
            if has_identifier(n, "fromJson"@) {
                Some(Some(MemberView::Json(marker_ctor("fromJson"@, false))))
            } else {
                None
            }
        } else if first.kind == "constructor_signature"@ || first.kind == "constant_constructor_signature"@ {
            if has_identifier(first, "_"@) {
                Some(Some(MemberView::Unnamed(marker_ctor("_"@, first.kind == "constant_constructor_signature"@))))
            } else {
                None
            }
        } else if n.kind == "declaration"@ {
            Some(None)
        } else {
            None
        }
    }
}

fn has_identifier_exec(node: &SyntaxNode, text: &str) -> (r: bool)
    ensures
        r == has_identifier(node@, text@),
{
    proof {
        lemma_node_views(node.children@);
    }
    let ghost cs = node@.children;
    let mut i: usize = 0;
    while i < node.children.len()
        invariant
            i <= node.children@.len(),
            cs == node@.children,
            cs.len() == node.children@.len(),
            forall|j: int| 0 <= j < cs.len() ==> #[trigger] cs[j] == node.children@[j]@,
            forall|j: int| #![trigger cs[j]] 0 <= j < i ==> !(cs[j].kind == "identifier"@ && cs[j].text == text@),
        decreases node.children.len() - i,
    {
        let c = &node.children[i];
        if kind_is(c, "identifier") && text_eq(c.text.as_str(), text) {
            assert(cs[i as int].kind == "identifier"@ && cs[i as int].text == text@);
            return true;
        }
        i += 1;
    }
    false
}

fn marker_constructor(class_name: &str, is_const: bool) -> (r: RedirectedConstructor)
    ensures
        r@ == marker_ctor(class_name@, is_const),
{
    let assigned_type = DartType { name: String::new(), nullable: false, type_arguments: Vec::new() };
    proof {
        assert(type_views(assigned_type.type_arguments@) =~= Seq::<TypeView>::empty());
    }
    RedirectedConstructor {
        is_const,
        class_name: class_name.to_owned(),
        constructor_name: None,
        parameters: empty_parameter_list(),
        assigned_type,
    }
}

pub open spec fn opt_member_view(o: Option<DeclarationParseResult>) -> Option<MemberView> {
    match o {
        Some(m) => Some(m@),
        None => None,
    }
}

/// Classifies a member node (see [`member_of`]).
fn parse_class_declaration(node: &SyntaxNode) -> (r: Result<Option<DeclarationParseResult>, ExtractError>)
    ensures
        match r {
            Ok(m) => member_of(node@) == Some(opt_member_view(m)),
            Err(_) => member_of(node@) is None,
        },
{
    proof {
        lemma_node_views(node.children@);
    }
    if node.children.len() == 0 {
        return Err(ExtractError::UnsupportedSyntax);
    }
    let first = &node.children[0];
    if kind_is(first, "redirecting_factory_constructor_signature") {
        if node.children.len() != 1 {
            return Err(ExtractError::UnsupportedSyntax);
        }
        match parse_redirecting_factory(first) {
            Err(e) => Err(e),
            Ok(c) => {
                let is_json = match &c.constructor_name {
                    Some(n) => text_eq(n.as_str(), "fromJson"),
                    None => false,
                };
                if is_json {
                    Ok(Some(DeclarationParseResult::Json(c)))
                } else {
                    Ok(Some(DeclarationParseResult::Redirected(c)))
                }
            },
        }
    } else if kind_is(node, "factory_constructor_signature") {
        if has_identifier_exec(node, "fromJson") {
            Ok(Some(DeclarationParseResult::Json(marker_constructor("fromJson", false))))
        } else {
            Err(ExtractError::UnsupportedSyntax)
        }
    } else if kind_is(first, "constructor_signature") || kind_is(first, "constant_constructor_signature") {
        if has_identifier_exec(first, "_") {
            let is_const = kind_is(first, "constant_constructor_signature");
            Ok(Some(DeclarationParseResult::Unnamed(marker_constructor("_", is_const))))
        } else {
            Err(ExtractError::UnsupportedSyntax)
        }
    } else if kind_is(node, "declaration") {
        Ok(None)
    } else {
        Err(ExtractError::UnsupportedSyntax)
    }
}

pub open spec fn is_member_node(n: NodeView) -> bool {
    n.kind == "declaration"@ || n.kind == "factory_constructor_signature"@
}

/// The member nodes of a subtree, in pre-order: the node itself when it is
/// one, then those below it. A pre-order walk visits nodes by start position,
/// an enclosing node before the nodes inside it, which is the order in which
/// a tree-sitter query cursor reports the matches of the patterns
/// `((declaration) @member)` and `((factory_constructor_signature) @member)`
/// over the same tree.
pub open spec fn node_members(n: NodeView) -> Seq<NodeView>
    decreases n, 1int,
{
    (if is_member_node(n) {
        seq![n]
    } else {
        Seq::empty()
    }) + members_in(n.children)
}

/// The member nodes of the subtrees `cs`, in pre-order.
pub open spec fn members_in(cs: Seq<NodeView>) -> Seq<NodeView>
    decreases cs, 0int,
{
    if cs.len() == 0 {
        Seq::empty()
    } else {
        members_in(cs.drop_last()) + node_members(cs.last())
    }
}

/// Appends the member nodes of the subtrees `cs` in pre-order (see
/// [`node_members`]).
fn collect_members(cs: &Vec<SyntaxNode>, out: &mut Vec<SyntaxNode>)
    ensures
        node_views(final(out)@) == node_views(old(out)@) + members_in(node_views(cs@)),
    decreases cs@,
{
    proof {
        lemma_node_views(cs@);
    }
    let ghost vs = node_views(cs@);
    let ghost start = node_views(out@);
    let mut i: usize = 0;
    while i < cs.len()
        invariant
            i <= cs@.len(),
            vs == node_views(cs@),
            vs.len() == cs@.len(),
            forall|j: int| 0 <= j < vs.len() ==> #[trigger] vs[j] == cs@[j]@,
            node_views(out@) == start + members_in(vs.take(i as int)),
        decreases cs@.len() - i,
    {
        let c = &cs[i];
        let ghost before = node_views(out@);
        if kind_is(c, "declaration") || kind_is(c, "factory_constructor_signature") {
            let copy = c.clone();
            let ghost cv = copy@;
            let ghost old_out = out@;
            out.push(copy);
            proof {
                assert(out@.drop_last() =~= old_out);
                assert(out@.last()@ == cv);
                assert(node_views(out@) == before.push(cv));
            }
        }
        let ghost mid = node_views(out@);
        assert(decreases_to!(cs@ => cs@[i as int]));
        collect_members(&c.children, out);
        proof {
            let head = if is_member_node(vs[i as int]) {
                seq![vs[i as int]]
            } else {
                Seq::empty()
            };
            assert(mid =~= before + head);
            assert(vs[i as int].children == node_views(c.children@));
            assert(node_members(vs[i as int]) == head + members_in(vs[i as int].children));
            assert(vs.take(i + 1).drop_last() =~= vs.take(i as int));
            assert(members_in(vs.take(i + 1)) == members_in(vs.take(i as int)) + node_members(vs[i as int]));
            assert(node_views(out@) =~= start + members_in(vs.take(i + 1)));
        }
        i += 1;
    }
    proof {
        assert(vs.take(vs.len() as int) =~= vs);
    }
}

/// The constructors gathered from a class body.
pub struct PartsView {
    pub variants: Seq<CtorView>,
    pub json: Option<CtorView>,
    pub unnamed: Option<CtorView>,
}

pub open spec fn apply_member(acc: PartsView, m: Option<MemberView>) -> PartsView {
    match m {
        None => acc,
        Some(MemberView::Variant(c)) => PartsView { variants: acc.variants.push(c), ..acc },
        Some(MemberView::Json(c)) => PartsView { json: Some(c), ..acc },
        Some(MemberView::Unnamed(c)) => PartsView { unnamed: Some(c), ..acc },
    }
}

/// Classifies the member nodes in order: variants are collected in order, a
/// later marker replaces an earlier one; `None` when one is rejected.
pub open spec fn fold_members(ms: Seq<NodeView>) -> Option<PartsView>
    decreases ms.len(),
{
    if ms.len() == 0 {
        Some(PartsView { variants: Seq::empty(), json: None, unnamed: None })
    } else {
        match fold_members(ms.drop_last()) {
            None => None,
            Some(acc) => match member_of(ms.last()) {
                None => None,
                Some(m) => Some(apply_member(acc, m)),
            },
        }
    }
}

/// The index of the first node of `cs` of the given kind, at or after `k`.
pub open spec fn kind_child_from(cs: Seq<NodeView>, kind: Seq<char>, k: int) -> Option<int>
    decreases cs.len() - k,
{
    if k < 0 || k >= cs.len() {
        None
    } else if cs[k].kind == kind {
        Some(k)
    } else {
        kind_child_from(cs, kind, k + 1)
    }
}

pub open spec fn variants_ready(vs: Seq<CtorView>) -> bool {
    forall|i: int| 0 <= i < vs.len() ==> params_defaults_ok(#[trigger] vs[i].params)
}

/// A `class_definition` node read as a class: its name; its mixin, the first
/// type of the `mixins` clause of its superclass part (no mixin: not a target,
/// `Some(None)`); and its constructors. `None` when a member is rejected, the
/// class has no variant, or a `Default` annotation has no argument.
pub open spec fn class_of(cls: NodeView, gen_form: bool) -> Option<Option<ClassView>> {
    match field_child(cls, "name"@) {
        None => None,
        Some(ni) => match field_child(cls, "superclass"@) {
            None => Some(None),
            Some(si) => match kind_child_from(cls.children[si].children, "mixins"@, 0) {
                None => Some(None),
                Some(mi) => {
                    let mx = cls.children[si].children[mi];
                    match parse_type_at(mx.children, next_named(mx.children, 0)) {
                        None => None,
                        Some((t, _)) => match fold_members(members_in(cls.children)) {
                            None => None,
                            Some(parts) => if parts.variants.len() == 0 || !variants_ready(parts.variants) || (
                                parts.json is Some && !crate::dart_types::params_json_ok(parts.variants[0].params)
                            ) {
                                None
                            } else {
                                Some(
                                    Some(
                                        ClassView {
                                            name: cls.children[ni].text,
                                            gen_form,
                                            mixins: seq![t],
                                            json: parts.json,
                                            unnamed: parts.unnamed,
                                            variants: parts.variants,
                                        },
                                    ),
                                )
                            },
                        },
                    }
                },
            },
        },
    }
}

fn kind_child_index(cs: &Vec<SyntaxNode>, kind: &str) -> (r: Option<usize>)
    ensures
        match r {
            Some(i) => kind_child_from(node_views(cs@), kind@, 0) == Some(i as int) && i < cs@.len(),
            None => kind_child_from(node_views(cs@), kind@, 0) is None,
        },
{
    proof {
        lemma_node_views(cs@);
    }
    let ghost vs = node_views(cs@);
    let mut i: usize = 0;
    while i < cs.len()
        invariant
            i <= cs@.len(),
            vs == node_views(cs@),
            vs.len() == cs@.len(),
            forall|j: int| 0 <= j < vs.len() ==> #[trigger] vs[j] == cs@[j]@,
            kind_child_from(vs, kind@, 0) == kind_child_from(vs, kind@, i as int),
        decreases cs.len() - i,
    {
        if kind_is(&cs[i], kind) {
            return Some(i);
        }
        i += 1;
    }
    None
}

/// Reads one class (see [`class_of`]).
fn parse_class(cls: &SyntaxNode, gen_form: bool) -> (r: Result<Option<ClassDefinition>, ExtractError>)
    ensures
        match r {
            Ok(Some(c)) => class_of(cls@, gen_form) == Some(Some(c@)),
            Ok(None) => class_of(cls@, gen_form) == Some(None::<ClassView>),
            Err(_) => class_of(cls@, gen_form) is None,
        },
{
    proof {
        lemma_node_views(cls.children@);
    }
    let ni = match child_by_field(cls, "name") {
        None => {
            return Err(ExtractError::MissingElement);
        },
        Some(i) => i,
    };
    let si = match child_by_field(cls, "superclass") {
        None => {
            return Ok(None);
        },
        Some(i) => i,
    };
    let superclass = &cls.children[si];
    let mi = match kind_child_index(&superclass.children, "mixins") {
        None => {
            return Ok(None);
        },
        Some(i) => i,
    };
    proof {
        lemma_node_views(superclass.children@);
    }
    let mixins = &superclass.children[mi];
    proof {
        lemma_node_views(mixins.children@);
        lemma_next_named(mixins@.children, 0);
    }
    let start = next_named_index(&mixins.children, 0);
    let (mixin, mixin_end) = match parse_type(&mixins.children, start) {
        None => {
            return Err(ExtractError::UnsupportedSyntax);
        },
        Some(x) => x,
    };
    let ghost mt = mixin@;
    let ghost mx = cls@.children[si as int].children[mi as int];
    proof {
        assert(cls@.children[si as int] == superclass@);
        assert(superclass@.children[mi as int] == mixins@);
        assert(mixins@.children == node_views(mixins.children@));
        assert(parse_type_at(mx.children, next_named(mx.children, 0)) == Some((mt, mixin_end as int)));
    }
    let mut members: Vec<SyntaxNode> = Vec::new();
    collect_members(&cls.children, &mut members);
    proof {
        assert(node_views(members@) =~= members_in(cls@.children));
        lemma_node_views(members@);
    }
    let ghost ms = node_views(members@);
    let mut redirecting_constructors: Vec<RedirectedConstructor> = Vec::new();
    proof {
        assert(ctor_views(redirecting_constructors@) =~= Seq::<CtorView>::empty());
        assert(ms.take(0) =~= Seq::<NodeView>::empty());
    }
    let mut json_constructor: Option<RedirectedConstructor> = None;
    let mut unnamed_constructor: Option<RedirectedConstructor> = None;
    let mut i: usize = 0;
    while i < members.len()
        invariant
            i <= members@.len(),
            ms == node_views(members@),
            ms == members_in(cls@.children),
            field_child(cls@, "name"@) == Some(ni as int),
            ni < cls.children@.len(),
            field_child(cls@, "superclass"@) == Some(si as int),
            kind_child_from(cls@.children[si as int].children, "mixins"@, 0) == Some(mi as int),
            mx == cls@.children[si as int].children[mi as int],
            parse_type_at(mx.children, next_named(mx.children, 0)) == Some((mt, mixin_end as int)),
            ms.len() == members@.len(),
            forall|j: int| 0 <= j < ms.len() ==> #[trigger] ms[j] == members@[j]@,
            fold_members(ms.take(i as int)) == Some(PartsView {
                variants: ctor_views(redirecting_constructors@),
                json: match json_constructor {
                    Some(c) => Some(c@),
                    None => None,
                },
                unnamed: match unnamed_constructor {
                    Some(c) => Some(c@),
                    None => None,
                },
            }),
        decreases members.len() - i,
    {
        proof {
            assert(ms.take(i + 1).drop_last() =~= ms.take(i as int));
        }
        match parse_class_declaration(&members[i]) {
            Err(e) => {
                proof {
                    assert(ms.take(i + 1).last() == ms[i as int]);
                    assert(fold_members(ms.take(i + 1)) is None);
                    lemma_fold_members_none(ms, i + 1);
                }
                return Err(e);
            },
            Ok(None) => {},
            Ok(Some(DeclarationParseResult::Redirected(c))) => {
                let ghost before = ctor_views(redirecting_constructors@);
                let ghost cv = c@;
                redirecting_constructors.push(c);
                proof {
                    assert(ctor_views(redirecting_constructors@) =~= before.push(cv));
                }
            },
            Ok(Some(DeclarationParseResult::Json(c))) => {
                json_constructor = Some(c);
            },
            Ok(Some(DeclarationParseResult::Unnamed(c))) => {
                unnamed_constructor = Some(c);
            },
        }
        i += 1;
    }
    proof {
        assert(ms.take(ms.len() as int) =~= ms);
    }
    if redirecting_constructors.len() == 0 {
        return Err(ExtractError::MissingElement);
    }
    let mut k: usize = 0;
    while k < redirecting_constructors.len()
        invariant
            k <= redirecting_constructors@.len(),
            forall|j: int| 0 <= j < k ==> params_defaults_ok(#[trigger] ctor_views(redirecting_constructors@)[j].params),
            fold_members(members_in(cls@.children)) == Some(PartsView {
                variants: ctor_views(redirecting_constructors@),
                json: match json_constructor {
                    Some(c) => Some(c@),
                    None => None,
                },
                unnamed: match unnamed_constructor {
                    Some(c) => Some(c@),
                    None => None,
                },
            }),
            field_child(cls@, "name"@) == Some(ni as int),
            ni < cls.children@.len(),
            field_child(cls@, "superclass"@) == Some(si as int),
            kind_child_from(cls@.children[si as int].children, "mixins"@, 0) == Some(mi as int),
            mx == cls@.children[si as int].children[mi as int],
            parse_type_at(mx.children, next_named(mx.children, 0)) == Some((mt, mixin_end as int)),
        decreases redirecting_constructors.len() - k,
    {
        if !redirecting_constructors[k].parameters.defaults_ready() {
            assert(!params_defaults_ok(ctor_views(redirecting_constructors@)[k as int].params));
            return Err(ExtractError::MissingElement);
        }
        k += 1;
    }
    if json_constructor.is_some() && !redirecting_constructors[0].parameters.json_ready() {
        return Err(ExtractError::UnsupportedSyntax);
    }
    let mut mixins_vec: Vec<DartType> = Vec::new();
    let ghost mv = mixin@;
    mixins_vec.push(mixin);
    proof {
        lemma_type_views(mixins_vec@);
        assert(type_views(mixins_vec@) =~= seq![mv]);
    }
    Ok(Some(ClassDefinition {
        name: cls.children[ni].text.clone(),
        gen_form,
        mixins: mixins_vec,
        json_constructor,
        unnamed_constructor,
        redirecting_constructors,
    }))
}

proof fn lemma_fold_members_none(ms: Seq<NodeView>, i: int)
    requires
        0 <= i <= ms.len(),
        fold_members(ms.take(i)) is None,
    ensures
        fold_members(ms) is None,
    decreases ms.len() - i,
{
    if i < ms.len() {
        assert(ms.take(i + 1).drop_last() =~= ms.take(i));
        lemma_fold_members_none(ms, i + 1);
    } else {
        assert(ms.take(i) =~= ms);
    }
}

/// The `j`-th child of a `class_definition` node is its `@freezed` annotation.
pub open spec fn freezed_marker_at(n: NodeView, j: int) -> bool {
    0 <= j < n.children.len() && n.children[j].named && n.children[j].kind == "annotation"@
        && n.children[j].text == "@freezed"@
}

/// The node after the marker holds `@qform`.
pub open spec fn gen_form_at(n: NodeView, j: int) -> bool {
    j + 1 < n.children.len() && contains(n.children[j + 1].text, "@qform"@)
}

/// One entry per `@freezed` annotation among the first `j` children of `n`.
pub open spec fn marker_targets(n: NodeView, j: int) -> Seq<(NodeView, bool)>
    decreases j,
{
    if j <= 0 {
        Seq::empty()
    } else {
        marker_targets(n, j - 1) + (if freezed_marker_at(n, j - 1) {
            seq![(n, gen_form_at(n, j - 1))]
        } else {
            Seq::empty()
        })
    }
}

/// The annotated classes of a subtree in pre-order, each with its form flag:
/// one entry per `annotation` child of a `class_definition` node whose text is
/// `@freezed`. This is the order in which a tree-sitter query cursor reports
/// the matches of `(class_definition (annotation) @marker) @class` over the
/// same tree: by start position, an enclosing node first, and the annotation
/// children of one class in source order.
pub open spec fn node_targets(n: NodeView) -> Seq<(NodeView, bool)>
    decreases n, 1int,
{
    (if n.kind == "class_definition"@ {
        marker_targets(n, n.children.len() as int)
    } else {
        Seq::empty()
    }) + targets_in(n.children)
}

pub open spec fn targets_in(cs: Seq<NodeView>) -> Seq<(NodeView, bool)>
    decreases cs, 0int,
{
    if cs.len() == 0 {
        Seq::empty()
    } else {
        targets_in(cs.drop_last()) + node_targets(cs.last())
    }
}

/// Reads each target in order, skipping those that are no generation target;
/// `None` when one fails.
pub open spec fn classes_from(ts: Seq<(NodeView, bool)>) -> Option<Seq<ClassView>>
    decreases ts.len(),
{
    if ts.len() == 0 {
        Some(Seq::empty())
    } else {
        match classes_from(ts.drop_last()) {
            None => None,
            Some(acc) => match class_of(ts.last().0, ts.last().1) {
                None => None,
                Some(None) => Some(acc),
                Some(Some(c)) => Some(acc.push(c)),
            },
        }
    }
}

/// The classes of a syntax tree: every `class_definition` that carries a
/// `@freezed` annotation, in source order.
pub open spec fn extract_classes(root: NodeView) -> Option<Seq<ClassView>> {
    classes_from(node_targets(root))
}

pub open spec fn target_views(s: Seq<(SyntaxNode, bool)>) -> Seq<(NodeView, bool)> {
    s.map_values(|t: (SyntaxNode, bool)| (t.0@, t.1))
}

pub open spec fn class_views(s: Seq<ClassDefinition>) -> Seq<ClassView> {
    s.map_values(|c: ClassDefinition| c@)
}

/// Appends the annotated classes of the subtree `node` in pre-order (see
/// [`node_targets`]).
fn collect_targets(node: &SyntaxNode, out: &mut Vec<(SyntaxNode, bool)>)
    ensures
        target_views(final(out)@) == target_views(old(out)@) + node_targets(node@),
    decreases node,
{
    proof {
        lemma_node_views(node.children@);
    }
    let ghost n = node@;
    let ghost start = target_views(out@);
    let is_class = kind_is(node, "class_definition");
    let len = node.children.len();
    let mut j: usize = 0;
    if is_class {
        while j < len
            invariant
                len == node.children@.len(),
                j <= len,
                n == node@,
                n.children.len() == len,
                forall|k: int| 0 <= k < len ==> #[trigger] n.children[k] == node.children@[k]@,
                target_views(out@) == start + marker_targets(n, j as int),
            decreases len - j,
        {
            let c = &node.children[j];
            let ghost before = target_views(out@);
            if c.named && kind_is(c, "annotation") && text_eq(c.text.as_str(), "@freezed") {
                let gen_form = j + 1 < len && text_contains(node.children[j + 1].text.as_str(), "@qform");
                let copy = node.clone();
                let ghost entry = (copy@, gen_form);
                let ghost old_out = out@;
                out.push((copy, gen_form));
                proof {
                    assert(out@.drop_last() =~= old_out);
                    assert(target_views(out@) =~= before.push(entry));
                    assert(entry == (n, gen_form_at(n, j as int)));
                }
            }
            proof {
                assert(target_views(out@) =~= start + marker_targets(n, j + 1));
            }
            j += 1;
        }
    }
    proof {
        if !is_class {
            assert(target_views(out@) =~= start + Seq::<(NodeView, bool)>::empty());
        }
    }
    let ghost head = target_views(out@);
    let ghost cs = n.children;
    let mut i: usize = 0;
    while i < len
        invariant
            len == node.children@.len(),
            i <= len,
            n == node@,
            cs == n.children,
            cs.len() == len,
            forall|k: int| 0 <= k < len ==> #[trigger] cs[k] == node.children@[k]@,
            target_views(out@) == head + targets_in(cs.take(i as int)),
        decreases len - i,
    {
        collect_targets(&node.children[i], out);
        proof {
            assert(cs.take(i + 1).drop_last() =~= cs.take(i as int));
            assert(target_views(out@) =~= head + targets_in(cs.take(i + 1)));
        }
        i += 1;
    }
    proof {
        assert(cs.take(len as int) =~= cs);
        let marks = if n.kind == "class_definition"@ {
            marker_targets(n, n.children.len() as int)
        } else {
            Seq::empty()
        };
        assert(head == start + marks);
        assert(target_views(out@) =~= start + node_targets(n));
    }
}

proof fn lemma_classes_from_none(ts: Seq<(NodeView, bool)>, i: int)
    requires
        0 <= i <= ts.len(),
        classes_from(ts.take(i)) is None,
    ensures
        classes_from(ts) is None,
    decreases ts.len() - i,
{
    if i < ts.len() {
        assert(ts.take(i + 1).drop_last() =~= ts.take(i));
        lemma_classes_from_none(ts, i + 1);
    } else {
        assert(ts.take(i) =~= ts);
    }
}

/// Reads every `@freezed` class of a syntax tree (see [`extract_classes`]);
/// each class read is ready for generation.
pub fn parse_dart_code(root: &SyntaxNode) -> (r: Result<Vec<ClassDefinition>, ExtractError>)
    ensures
        match r {
            Ok(v) => extract_classes(root@) == Some(class_views(v@))
                && forall|i: int| 0 <= i < v@.len() ==> class_ready(#[trigger] v@[i]@),
            Err(_) => extract_classes(root@) is None,
        },
{
    let mut targets: Vec<(SyntaxNode, bool)> = Vec::new();
    collect_targets(root, &mut targets);
    let ghost ts = target_views(targets@);
    proof {
        assert(ts =~= node_targets(root@));
    }
    let mut out: Vec<ClassDefinition> = Vec::new();
    proof {
        assert(class_views(out@) =~= Seq::<ClassView>::empty());
    }
    let mut i: usize = 0;
    while i < targets.len()
        invariant
            i <= targets@.len(),
            ts == target_views(targets@),
            ts == node_targets(root@),
            classes_from(ts.take(i as int)) == Some(class_views(out@)),
            forall|k: int| 0 <= k < out@.len() ==> class_ready(#[trigger] out@[k]@),
        decreases targets.len() - i,
    {
        let (cls, gen_form) = (&targets[i].0, targets[i].1);
        proof {
            assert(ts.take(i + 1).drop_last() =~= ts.take(i as int));
            assert(ts.take(i + 1).last() == ts[i as int]);
        }
        match parse_class(cls, gen_form) {
            Err(e) => {
                proof {
                    lemma_classes_from_none(ts, i + 1);
                }
                return Err(e);
            },
            Ok(None) => {},
            Ok(Some(c)) => {
                let ghost cv = c@;
                let ghost before = class_views(out@);
                let ghost old_out = out@;
                out.push(c);
                proof {
                    assert(out@.drop_last() =~= old_out);
                    assert(class_views(out@) =~= before.push(cv));
                    assert forall|k: int| 0 <= k < out@.len() implies class_ready(#[trigger] out@[k]@) by {
                        if k < old_out.len() {
                            assert(out@[k] == old_out[k]);
                        }
                    }
                }
            },
        }
        i += 1;
    }
    proof {
        assert(ts.take(ts.len() as int) =~= ts);
    }
    Ok(out)
}

/// An anonymous token node.
pub open spec fn token(kind: Seq<char>) -> NodeView {
    NodeView { kind, named: false, field: None, text: kind, children: Seq::empty() }
}

pub open spec fn type_name_node(name: Seq<char>) -> NodeView {
    NodeView { kind: "type_identifier"@, named: true, field: None, text: name, children: Seq::empty() }
}

pub open spec fn nullable_node() -> NodeView {
    NodeView { kind: "nullable_type"@, named: true, field: None, text: "?"@, children: Seq::empty() }
}

/// The syntax nodes that a Dart grammar gives for the source text of `t`: the
/// type name, a `type_arguments` node holding `<`, the argument types
/// separated by `,` tokens, and `>`, and a `nullable_type` node for `?`.
pub open spec fn type_syntax(t: TypeView) -> Seq<NodeView>
    decreases t, 1int,
{
    seq![type_name_node(t.name)] + (if t.args.len() > 0 {
        seq![
            NodeView {
                kind: "type_arguments"@,
                named: true,
                field: None,
                text: "<"@ + join_raw(t.args) + ">"@,
                children: seq![token("<"@)] + args_syntax(t.args) + seq![token(">"@)],
            },
        ]
    } else {
        Seq::empty()
    }) + (if t.nullable {
        seq![nullable_node()]
    } else {
        Seq::empty()
    })
}

/// The syntax of each type of `args`, separated by `,` tokens.
pub open spec fn args_syntax(args: Seq<TypeView>) -> Seq<NodeView>
    decreases args, 0int,
{
    if args.len() == 0 {
        Seq::empty()
    } else {
        type_syntax(args[0]) + (if args.len() > 1 {
            seq![token(","@)] + args_syntax(args.drop_first())
        } else {
            Seq::empty()
        })
    }
}

/// Every name in the type, its arguments included, is non-empty: no part of
/// it renders as `dynamic`.
pub open spec fn well_named(t: TypeView) -> bool
    decreases t,
{
    t.name.len() > 0 && forall|i: int| 0 <= i < t.args.len() ==> well_named(#[trigger] t.args[i])
}

/// No type continues at the next named node after `e`.
pub open spec fn type_ends_at(s: Seq<NodeView>, e: int) -> bool {
    next_named(s, e) >= s.len() || (s[next_named(s, e)].kind != "type_arguments"@
        && s[next_named(s, e)].kind != "nullable_type"@)
}

proof fn lemma_type_syntax_shape(t: TypeView)
    ensures
        type_syntax(t).len() >= 1,
        type_syntax(t)[0] == type_name_node(t.name),
{
}

proof fn lemma_parse_type_syntax(s: Seq<NodeView>, k: int, t: TypeView)
    requires
        0 <= k,
        k + type_syntax(t).len() <= s.len(),
        s.subrange(k, k + type_syntax(t).len()) == type_syntax(t),
        type_ends_at(s, k + type_syntax(t).len()),
    ensures
        parse_type_at(s, k) == Some((t, next_named(s, k + type_syntax(t).len()))),
    decreases t, 1int,
{
    reveal_strlit("type_identifier");
    reveal_strlit("type_arguments");
    reveal_strlit("nullable_type");
    reveal_strlit("record_type");
    let syn = type_syntax(t);
    let l = syn.len() as int;
    assert(s[k] == s.subrange(k, k + l)[0]);
    assert(syn[0] == type_name_node(t.name));
    if t.args.len() > 0 {
        let an = s[k + 1];
        assert(an == s.subrange(k, k + l)[1]);
        let c = an.children;
        let inner = args_syntax(t.args);
        assert(c == seq![token("<"@)] + inner + seq![token(">"@)]);
        lemma_args_syntax_shape(t.args);
        assert(c[1] == inner[0]);
        assert(next_named(c, 1) == 1);
        assert(next_named(c, 0) == 1);
        let m = inner.len() as int;
        assert(c.subrange(1, 1 + m) =~= inner);
        assert(!c[1 + m].named);
        assert(next_named(c, 2 + m) == c.len());
        assert(next_named(c, 1 + m) == c.len());
        lemma_parse_args_syntax(c, 1, t.args);
        assert(next_named(s, k + 1) == k + 1);
        assert(is_type_name_node(s[k]));
        assert(s[k + 1].kind == "type_arguments"@);
        assert(parse_type_list(s[k + 1].children, next_named(s[k + 1].children, 0)) == Some(t.args));
        if t.nullable {
            assert(s[k + 2] == s.subrange(k, k + l)[2]);
            assert(next_named(s, k + 2) == k + 2);
            assert(l == 3);
            assert(s[k + 2].kind == "nullable_type"@);
            assert(parse_type_at(s, k) == Some((t, next_named(s, k + l))));
        } else {
            assert(l == 2);
            assert(parse_type_at(s, k) == Some((t, next_named(s, k + l))));
        }
    } else {
        assert(t.args =~= Seq::<TypeView>::empty());
        if t.nullable {
            assert(syn =~= seq![type_name_node(t.name), nullable_node()]);
            assert(s[k + 1] == s.subrange(k, k + l)[1]);
            assert(s[k + 1] == nullable_node());
            assert(next_named(s, k + 1) == k + 1);
            assert(l == 2);
            assert("nullable_type"@.len() == 13);
            assert("type_arguments"@.len() == 14);
            assert(s[k + 1].kind == "nullable_type"@);
            assert(s[k + 1].kind != "type_arguments"@);
            assert(s[k].text == t.name);
            assert(t == TypeView { name: t.name, nullable: true, args: Seq::empty() });
            assert(parse_type_at(s, k) == Some((t, next_named(s, k + l))));
        } else {
            assert(l == 1);
            assert(parse_type_at(s, k) == Some((t, next_named(s, k + l))));
        }
    }
}

proof fn lemma_args_syntax_shape(args: Seq<TypeView>)
    requires
        args.len() > 0,
    ensures
        args_syntax(args).len() >= 1,
        args_syntax(args)[0] == type_name_node(args[0].name),
{
    lemma_type_syntax_shape(args[0]);
}

#[verifier::spinoff_prover]
proof fn lemma_parse_args_syntax(c: Seq<NodeView>, j: int, args: Seq<TypeView>)
    requires
        args.len() > 0,
        0 <= j,
        j + args_syntax(args).len() <= c.len(),
        c.subrange(j, j + args_syntax(args).len()) == args_syntax(args),
        next_named(c, j + args_syntax(args).len()) == c.len(),
    ensures
        parse_type_list(c, j) == Some(args),
    decreases args, 0int,
{
    reveal_strlit("type_identifier");
    reveal_strlit("type_arguments");
    reveal_strlit("nullable_type");
    let syn = args_syntax(args);
    let m = syn.len() as int;
    let first = type_syntax(args[0]);
    let l0 = first.len() as int;
    lemma_type_syntax_shape(args[0]);
    assert(c.subrange(j, j + l0) =~= first) by {
        assert forall|i: int| 0 <= i < l0 implies c.subrange(j, j + l0)[i] == first[i] by {
            assert(c.subrange(j, j + l0)[i] == c.subrange(j, j + m)[i]);
            assert(syn[i] == first[i]);
        }
    }
    if args.len() > 1 {
        let rest = args.drop_first();
        let rs = args_syntax(rest);
        lemma_args_syntax_shape(rest);
        assert(syn == first + (seq![token(","@)] + rs));
        assert(c[j + l0] == c.subrange(j, j + m)[l0]);
        assert(c[j + l0 + 1] == c.subrange(j, j + m)[l0 + 1]);
        assert(c[j + l0 + 1] == rs[0]);
        assert(next_named(c, j + l0 + 1) == j + l0 + 1);
        assert(next_named(c, j + l0) == j + l0 + 1);
        assert(rs[0].kind == "type_identifier"@);
        assert(c[j + l0 + 1].kind != "type_arguments"@);
        assert(c[j + l0 + 1].kind != "nullable_type"@);
        assert(type_ends_at(c, j + l0));
        lemma_parse_type_syntax(c, j, args[0]);
        let j2 = j + l0 + 1;
        assert(c.subrange(j2, j2 + rs.len()) =~= rs) by {
            assert forall|i: int| 0 <= i < rs.len() implies c.subrange(j2, j2 + rs.len())[i] == rs[i] by {
                assert(c.subrange(j2, j2 + rs.len())[i] == c.subrange(j, j + m)[l0 + 1 + i]);
            }
        }
        assert(j2 + rs.len() == j + m);
        lemma_parse_args_syntax(c, j2, rest);
        assert(seq![args[0]] + rest =~= args);
    } else {
        assert(syn =~= first);
        lemma_parse_type_syntax(c, j, args[0]);
        assert(seq![args[0]] + Seq::<TypeView>::empty() =~= args);
    }
}

/// Reading back a rendered type gives the type again: the syntax of the
/// rendered text, whose top-level nodes spell exactly what `as_raw` renders,
/// is read by `parse_type` into the same type, every node of it consumed.
/// A type with an empty name renders as `dynamic` and so reads back as a type
/// named `dynamic`; such types are left out.
pub proof fn lemma_type_round_trip(t: TypeView)
    requires
        well_named(t),
    ensures
        concat_map(type_syntax(t), |n: NodeView| n.text) == raw_text(t),
        parse_type_at(type_syntax(t), 0) == Some((t, type_syntax(t).len() as int)),
{
    let syn = type_syntax(t);
    let f = |n: NodeView| n.text;
    let a = seq![type_name_node(t.name)];
    let b = if t.args.len() > 0 {
        seq![
            NodeView {
                kind: "type_arguments"@,
                named: true,
                field: None,
                text: "<"@ + join_raw(t.args) + ">"@,
                children: seq![token("<"@)] + args_syntax(t.args) + seq![token(">"@)],
            },
        ]
    } else {
        Seq::empty()
    };
    let d = if t.nullable {
        seq![nullable_node()]
    } else {
        Seq::empty()
    };
    assert(syn == a + b + d);
    lemma_concat_map_append(a + b, d, f);
    lemma_concat_map_append(a, b, f);
    lemma_concat_map_single(type_name_node(t.name), f);
    if t.args.len() > 0 {
        lemma_concat_map_single(b[0], f);
        assert(b =~= seq![b[0]]);
    }
    if t.nullable {
        lemma_concat_map_single(nullable_node(), f);
    }
    assert(concat_map(syn, f) =~= raw_text(t));
    assert(syn.subrange(0, syn.len() as int) =~= syn);
    assert(next_named(syn, syn.len() as int) == syn.len());
    lemma_parse_type_syntax(syn, 0, t);
}

pub open spec fn identifier_node(name: Seq<char>) -> NodeView {
    NodeView { kind: "identifier"@, named: true, field: None, text: name, children: Seq::empty() }
}

/// The syntax of the parameter `T name`: the type's nodes, then the name.
pub open spec fn formal_parameter_syntax(name: Seq<char>, t: TypeView) -> NodeView {
    NodeView {
        kind: "formal_parameter"@,
        named: true,
        field: None,
        text: raw_text(t) + " "@ + name,
        children: type_syntax(t) + seq![identifier_node(name)],
    }
}

/// The tokens of one named parameter: `required` when it is required, then
/// the parameter itself.
pub open spec fn named_param_tokens(p: NamedParamView) -> Seq<NodeView> {
    (if p.is_required {
        seq![token("required"@)]
    } else {
        Seq::empty()
    }) + seq![formal_parameter_syntax(p.name, p.ty)]
}

/// The tokens of the parameters, each followed by `,`.
pub open spec fn named_params_syntax(ps: Seq<NamedParamView>) -> Seq<NodeView>
    decreases ps.len(),
{
    if ps.len() == 0 {
        Seq::empty()
    } else {
        named_param_tokens(ps[0]) + seq![token(","@)] + named_params_syntax(ps.drop_first())
    }
}

/// The children of the braced section `{ [required] T name, ... }`.
pub open spec fn section_syntax(ps: Seq<NamedParamView>) -> Seq<NodeView> {
    seq![token("{"@)] + named_params_syntax(ps) + seq![token("}"@)]
}

/// A parameter that the section syntax above writes out in full: it carries
/// no annotation and no default.
pub open spec fn is_plain_named(p: NamedParamView) -> bool {
    p.annotations.len() == 0 && p.default is None
}

proof fn lemma_formal_parameter_syntax(name: Seq<char>, t: TypeView)
    ensures
        formal_param_of(formal_parameter_syntax(name, t)) == Some(
            ParamView { name, ty: t, annotations: Seq::empty() },
        ),
{
    reveal_strlit("type_identifier");
    reveal_strlit("annotation");
    reveal_strlit("identifier");
    reveal_strlit("type_arguments");
    reveal_strlit("nullable_type");
    let n = formal_parameter_syntax(name, t);
    let c = n.children;
    let ts = type_syntax(t);
    let l = ts.len() as int;
    lemma_type_syntax_shape(t);
    assert(c[0] == ts[0]);
    assert("type_identifier"@.len() == 15 && "annotation"@.len() == 10);
    assert(c[0].kind != "annotation"@);
    assert(annotations_from(c, 0) == Some((Seq::<AnnotationView>::empty(), 0int)));
    assert(c.subrange(0, l) =~= ts);
    assert(c[l] == identifier_node(name));
    assert(next_named(c, l) == l);
    assert("identifier"@.len() == 10);
    assert("type_arguments"@.len() == 14);
    assert("nullable_type"@.len() == 13);
    assert(type_ends_at(c, l));
    lemma_parse_type_syntax(c, 0, t);
}

#[verifier::spinoff_prover]
proof fn lemma_run_named_params(cs: Seq<NodeView>, i: int, qs: Seq<NamedParamView>, acc: Seq<NamedParamView>)
    requires
        0 <= i,
        i + named_params_syntax(qs).len() + 1 == cs.len(),
        cs.subrange(i, i + named_params_syntax(qs).len()) == named_params_syntax(qs),
        cs[cs.len() - 1] == token("}"@),
        forall|k: int| 0 <= k < qs.len() ==> is_plain_named(#[trigger] qs[k]),
    ensures
        run_section(cs, i, FormalParameterSteps::Annotations, None, acc) == Some(acc + qs),
    decreases qs.len(),
{
    reveal_strlit("}");
    reveal_strlit(",");
    reveal_strlit("comment");
    reveal_strlit("annotation");
    reveal_strlit("required");
    reveal_strlit("formal_parameter");
    assert("}"@.len() == 1 && ","@.len() == 1 && "comment"@.len() == 7 && "annotation"@.len() == 10);
    assert("required"@.len() == 8 && "formal_parameter"@.len() == 16);
    reveal_strlit("=");
    assert("}"@[0] == '}' && ","@[0] == ',' && "="@[0] == '=' && "="@.len() == 1);
    let syn = named_params_syntax(qs);
    let l = syn.len() as int;
    if qs.len() == 0 {
        assert(cs[i] == token("}"@));
        assert(acc + qs =~= acc);
        assert(run_section(cs, i + 1, FormalParameterSteps::CloseBracket, None, acc) == Some(acc));
        assert(cs[i].kind != "comment"@);
        assert(section_step(FormalParameterSteps::Annotations, cs[i], None) == Some(
            (FormalParameterSteps::CloseBracket, None::<NamedParamView>, None::<NamedParamView>),
        ));
        assert(run_section(cs, i, FormalParameterSteps::Annotations, None, acc) == Some(acc + qs));
    } else {
        let q = qs[0];
        let toks = named_param_tokens(q);
        let t = toks.len() as int;
        let rest = qs.drop_first();
        assert(syn == toks + seq![token(","@)] + named_params_syntax(rest));
        assert forall|k: int| 0 <= k < l implies cs[i + k] == #[trigger] syn[k] by {
            assert(cs.subrange(i, i + l)[k] == cs[i + k]);
        }
        let fp = formal_parameter_syntax(q.name, q.ty);
        lemma_formal_parameter_syntax(q.name, q.ty);
        let done = NamedParamView {
            name: q.name,
            ty: q.ty,
            annotations: Seq::<AnnotationView>::empty() + Seq::<AnnotationView>::empty(),
            is_required: q.is_required,
            default: None,
        };
        assert(done.annotations =~= q.annotations);
        assert(done == q);
        if q.is_required {
            assert(t == 2);
            assert(cs[i] == syn[0]);
            assert(cs[i + 1] == syn[1]);
            assert(cs[i + 1] == fp);
            let req = NamedParamView { is_required: true, ..empty_named() };
            assert(section_step(FormalParameterSteps::Annotations, cs[i], None) == Some(
                (FormalParameterSteps::FormalParameter, Some(req), None::<NamedParamView>),
            ));
            assert(section_step(FormalParameterSteps::FormalParameter, cs[i + 1], Some(req)) == Some(
                (FormalParameterSteps::DefaultValue, Some(done), None::<NamedParamView>),
            ));
        } else {
            assert(t == 1);
            assert(cs[i] == syn[0]);
            assert(cs[i] == fp);
            assert(section_step(FormalParameterSteps::Annotations, cs[i], None) == Some(
                (FormalParameterSteps::DefaultValue, Some(done), None::<NamedParamView>),
            ));
        }
        assert(cs[i + t] == syn[t]);
        assert(cs[i + t] == token(","@));
        let rl = named_params_syntax(rest).len() as int;
        assert(l == t + 1 + rl);
        assert(cs.subrange(i + t + 1, i + t + 1 + rl) =~= named_params_syntax(rest)) by {
            assert forall|k: int| 0 <= k < rl implies cs.subrange(i + t + 1, i + t + 1 + rl)[k]
                == named_params_syntax(rest)[k] by {
                assert(syn[t + 1 + k] == named_params_syntax(rest)[k]);
                assert(cs[i + t + 1 + k] == syn[t + 1 + k]);
            }
        }
        assert forall|k: int| 0 <= k < rest.len() implies is_plain_named(#[trigger] rest[k]) by {
            assert(rest[k] == qs[k + 1]);
        }
        lemma_run_named_params(cs, i + t + 1, rest, acc.push(q));
        assert(acc.push(q) + rest =~= acc + qs);
        assert(cs[i].kind != "comment"@);
        assert(cs[i + t].kind != "comment"@);
        assert(section_step(FormalParameterSteps::DefaultValue, cs[i + t], Some(q)) == Some(
            (FormalParameterSteps::Annotations, None::<NamedParamView>, Some(q)),
        ));
        if q.is_required {
            assert(cs[i + 1].kind != "comment"@);
            assert(run_section(cs, i + 1, FormalParameterSteps::FormalParameter, Some(NamedParamView { is_required: true, ..empty_named() }), acc)
                == run_section(cs, i + 2, FormalParameterSteps::DefaultValue, Some(q), acc));
        }
        assert(run_section(cs, i + t, FormalParameterSteps::DefaultValue, Some(q), acc)
            == run_section(cs, i + t + 1, FormalParameterSteps::Annotations, None, acc.push(q)));
    }
}

/// Reading a braced parameter section gives back the parameters it was
/// written from: `{ [required] T1 n1, [required] T2 n2, ... }` reads as those
/// parameters, in order, each required exactly when `required` precedes it.
pub proof fn lemma_named_section_round_trip(ps: Seq<NamedParamView>)
    requires
        forall|k: int| 0 <= k < ps.len() ==> is_plain_named(#[trigger] ps[k]),
    ensures
        named_section(section_syntax(ps)) == Some(ps),
{
    reveal_strlit("{");
    reveal_strlit("comment");
    assert("{"@.len() == 1 && "comment"@.len() == 7);
    let cs = section_syntax(ps);
    let l = named_params_syntax(ps).len() as int;
    assert(cs.subrange(1, 1 + l) =~= named_params_syntax(ps));
    assert(cs[0] == token("{"@));
    lemma_run_named_params(cs, 1, ps, Seq::empty());
    assert(Seq::<NamedParamView>::empty() + ps =~= ps);
}

/// The syntax of the parameter list `({ ... })` holding only a braced section.
pub open spec fn named_list_syntax(ps: Seq<NamedParamView>) -> NodeView {
    NodeView {
        kind: "formal_parameter_list"@,
        named: true,
        field: None,
        text: Seq::empty(),
        children: seq![
            token("("@),
            NodeView {
                kind: "optional_formal_parameters"@,
                named: true,
                field: None,
                text: Seq::empty(),
                children: section_syntax(ps),
            },
            token(")"@),
        ],
    }
}

/// The children of `factory Name({ ... }) = Target`.
pub open spec fn redirect_syntax(class_name: Seq<char>, ps: Seq<NamedParamView>, target: TypeView) -> Seq<NodeView> {
    seq![token("factory"@), identifier_node(class_name), named_list_syntax(ps), token("="@)] + type_syntax(target)
}

proof fn lemma_named_list_syntax(ps: Seq<NamedParamView>)
    requires
        forall|k: int| 0 <= k < ps.len() ==> is_plain_named(#[trigger] ps[k]),
    ensures
        parameter_list_of(named_list_syntax(ps)) == Some(ParamsView { positional: Seq::empty(), named: ps }),
{
    reveal_strlit("comment");
    reveal_strlit("formal_parameter");
    reveal_strlit("optional_formal_parameters");
    assert("comment"@.len() == 7 && "formal_parameter"@.len() == 16 && "optional_formal_parameters"@.len() == 26);
    let c = named_list_syntax(ps).children;
    assert(c[1].kind != "comment"@ && c[1].kind != "formal_parameter"@);
    assert(positional_from(c, 1) == Some((Seq::<ParamView>::empty(), 1int)));
    assert(positional_from(c, 0) == Some((Seq::<ParamView>::empty(), 1int)));
    lemma_named_section_round_trip(ps);
}

/// Reading a redirecting factory gives back what it was written from:
/// `factory Name({ [required] T n, ... }) = Target` reads as a constructor of
/// `Name`, neither `const` nor named, with exactly those parameters and the
/// target type `Target`.
pub proof fn lemma_redirect_round_trip(class_name: Seq<char>, ps: Seq<NamedParamView>, target: TypeView)
    requires
        forall|k: int| 0 <= k < ps.len() ==> is_plain_named(#[trigger] ps[k]),
    ensures
        redirect_of(NodeView {
            kind: "redirecting_factory_constructor_signature"@,
            named: true,
            field: None,
            text: Seq::empty(),
            children: redirect_syntax(class_name, ps, target),
        }) == Some(
            CtorView {
                is_const: false,
                class_name,
                constructor_name: None,
                params: ParamsView { positional: Seq::empty(), named: ps },
                assigned: target,
            },
        ),
{
    reveal_strlit("factory");
    reveal_strlit("const_builtin");
    reveal_strlit("identifier");
    reveal_strlit("formal_parameter_list");
    reveal_strlit(".");
    reveal_strlit("=");
    reveal_strlit("type_arguments");
    reveal_strlit("nullable_type");
    assert("factory"@.len() == 7 && "const_builtin"@.len() == 13 && "identifier"@.len() == 10);
    assert("formal_parameter_list"@.len() == 21 && "."@.len() == 1 && "="@.len() == 1);
    assert("."@[0] == '.' && "="@[0] == '=');
    let cs = redirect_syntax(class_name, ps, target);
    let ts = type_syntax(target);
    let tl = ts.len() as int;
    lemma_type_syntax_shape(target);
    lemma_named_list_syntax(ps);
    let params = ParamsView { positional: Seq::<ParamView>::empty(), named: ps };
    let init = RedirectView {
        is_const: false,
        class_name: Seq::empty(),
        constructor_name: None,
        params: empty_params(),
        assigned: None,
    };
    let a1 = RedirectView { class_name, ..init };
    let a2 = RedirectView { params, ..a1 };
    let a3 = RedirectView { assigned: Some(target), ..a2 };
    assert(cs.subrange(4, 4 + tl) =~= ts);
    assert(next_named(cs, 4 + tl) == cs.len());
    assert(type_ends_at(cs, 4 + tl));
    lemma_parse_type_syntax(cs, 4, target);
    assert(run_redirect(cs, cs.len() as int, RedirectingFactoryItems::AssignedConstructor, a3) == Some(a3));
    assert(cs[4] == ts[0]);
    reveal_strlit("type_identifier");
    assert("type_identifier"@.len() == 15);
    assert(cs[4].kind != "="@);
    assert(cs.len() == 4 + tl);
    assert(parse_type_at(cs, 4) == Some((target, cs.len() as int)));
    assert(run_redirect(cs, 4, RedirectingFactoryItems::AssignedConstructor, a2) == Some(a3));
    assert(run_redirect(cs, 3, RedirectingFactoryItems::AssignedConstructor, a2) == Some(a3));
    assert(run_redirect(cs, 2, RedirectingFactoryItems::FormalParameterList, a1) == Some(a3));
    assert(run_redirect(cs, 2, RedirectingFactoryItems::ConstructorName, a1) == Some(a3));
    assert(run_redirect(cs, 1, RedirectingFactoryItems::ClassName, init) == Some(a3));
    assert(run_redirect(cs, 0, RedirectingFactoryItems::FactoryKeyword, init) == Some(a3));
    assert(run_redirect(cs, 0, RedirectingFactoryItems::Const, init) == Some(a3));
}

} // verus!
