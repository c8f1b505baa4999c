//! A concrete syntax tree as plain values: each node's kind, whether it is a
//! named node, the field it stands under in its parent, its source text and
//! its children (named and anonymous, in order).
use vstd::prelude::*;

verus! {

#[derive(Debug, PartialEq, Eq)]
pub struct SyntaxNode {
    pub kind: String,
    pub named: bool,
    pub field: Option<String>,
    pub text: String,
    pub children: Vec<SyntaxNode>,
}

pub struct NodeView {
    pub kind: Seq<char>,
    pub named: bool,
    pub field: Option<Seq<char>>,
    pub text: Seq<char>,
    pub children: Seq<NodeView>,
}

pub open spec fn node_view(n: SyntaxNode) -> NodeView
    decreases n,
{
    NodeView {
        kind: n.kind@,
        named: n.named,
        field: match n.field {
            Some(f) => Some(f@),
            None => None,
        },
        text: n.text@,
        children: node_views(n.children@),
    }
}

pub open spec fn node_views(s: Seq<SyntaxNode>) -> Seq<NodeView>
    decreases s,
{
    if s.len() == 0 {
        Seq::empty()
    } else {
        node_views(s.drop_last()).push(node_view(s.last()))
    }
}

impl View for SyntaxNode {
    type V = NodeView;

    open spec fn view(&self) -> NodeView {
        node_view(*self)
    }
}

pub proof fn lemma_node_views(s: Seq<SyntaxNode>)
    ensures
        node_views(s).len() == s.len(),
        forall|i: int| 0 <= i < s.len() ==> #[trigger] node_views(s)[i] == s[i]@,
    decreases s.len(),
{
    if s.len() > 0 {
        lemma_node_views(s.drop_last());
    }
}

/// The index of the first named node of `s` at or after `k`; `s.len()` when
/// there is none.
pub open spec fn next_named(s: Seq<NodeView>, k: int) -> int
    decreases s.len() - k,
{
    if k < 0 || k >= s.len() {
        s.len() as int
    } else if s[k].named {
        k
    } else {
        next_named(s, k + 1)
    }
}

pub proof fn lemma_next_named(s: Seq<NodeView>, k: int)
    requires
        0 <= k,
    ensures
        k <= next_named(s, k) <= s.len() || (k > s.len() && next_named(s, k) == s.len()),
        next_named(s, k) < s.len() ==> s[next_named(s, k)].named,
        forall|j: int| k <= j < next_named(s, k) ==> !(#[trigger] s[j]).named,
    decreases s.len() - k,
{
    if k < s.len() && !s[k].named {
        lemma_next_named(s, k + 1);
    }
}

/// The index of the first named node of `children` at or after `k`.
pub fn next_named_index(children: &Vec<SyntaxNode>, k: usize) -> (r: usize)
    ensures
        r as int == next_named(node_views(children@), k as int),
{
    proof {
        lemma_node_views(children@);
    }
    let ghost s = node_views(children@);
    let mut i = k;
    if i >= children.len() {
        return children.len();
    }
    while i < children.len()
        invariant
            k <= i <= children@.len(),
            s == node_views(children@),
            s.len() == children@.len(),
            forall|j: int| 0 <= j < s.len() ==> #[trigger] s[j] == children@[j]@,
            next_named(s, k as int) == next_named(s, i as int),
        decreases children.len() - i,
    {
        if children[i].named {
            return i;
        }
        i += 1;
    }
    i
}

/// The first child standing under `field`, if any.
pub open spec fn field_child(n: NodeView, field: Seq<char>) -> Option<int>
    decreases n.children.len(),
{
    field_child_from(n.children, field, 0)
}

pub open spec fn field_child_from(s: Seq<NodeView>, field: Seq<char>, k: int) -> Option<int>
    decreases s.len() - k,
{
    if k < 0 || k >= s.len() {
        None
    } else if s[k].field == Some(field) {
        Some(k)
    } else {
        field_child_from(s, field, k + 1)
    }
}

/// The index of the first child of `node` under the field `field`.
pub fn child_by_field(node: &SyntaxNode, field: &str) -> (r: Option<usize>)
    ensures
        r matches Some(i) ==> field_child(node@, field@) == Some(i as int) && i < node.children@.len(),
        r is None ==> field_child(node@, field@) is None,
{
    proof {
        lemma_node_views(node.children@);
    }
    let ghost s = node@.children;
    let mut i: usize = 0;
    while i < node.children.len()
        invariant
            i <= node.children@.len(),
            s == node@.children,
            s.len() == node.children@.len(),
            forall|j: int| 0 <= j < s.len() ==> #[trigger] s[j] == node.children@[j]@,
            field_child(node@, field@) == field_child_from(s, field@, i as int),
        decreases node.children.len() - i,
    {
        let hit = match &node.children[i].field {
            Some(f) => crate::text::text_eq(f.as_str(), field),
            None => false,
        };
        if hit {
            return Some(i);
        }
        i += 1;
    }
    None
}

impl Clone for SyntaxNode {
    fn clone(&self) -> (r: Self)
        ensures
            r@ == self@,
        decreases self,
    {
        let mut children: Vec<SyntaxNode> = Vec::new();
        let mut i: usize = 0;
        proof {
            lemma_node_views(self.children@);
        }
        while i < self.children.len()
            invariant
                i <= self.children.len(),
                children@.len() == i,
                forall|j: int| 0 <= j < i ==> #[trigger] children@[j]@ == self.children@[j]@,
            decreases self.children.len() - i,
        {
            let c = self.children[i].clone();
            children.push(c);
            i += 1;
        }
        proof {
            lemma_node_views(children@);
            assert(node_views(children@) =~= node_views(self.children@));
        }
        let field = match &self.field {
            Some(f) => Some(f.clone()),
            None => None,
        };
        SyntaxNode {
            kind: self.kind.clone(),
            named: self.named,
            field,
            text: self.text.clone(),
            children,
        }
    }
}

} // verus!
