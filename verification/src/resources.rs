//! The Resources view's logic: the outline as a tree, the node a line of the file
//! belongs to, and what each row of the tree and of a node's attributes says.

use vstd::prelude::*;
use crate::model::{AttrRow, AttrType, ResourceKind, ResourceNode, name_of};
use crate::text::{dec, dec_string};

verus! {

/// The nodes of `nodes` and of everything inside them, in document order: each node,
/// then the nodes inside it, then its next sibling.
pub open spec fn preorder(nodes: Seq<ResourceNode>) -> Seq<ResourceNode>
    decreases nodes,
{
    if nodes.len() == 0 {
        seq![]
    } else {
        let k = nodes.len() - 1;
        proof {
            assert(decreases_to!(nodes => nodes.subrange(0, k)));
            assert(decreases_to!(nodes => nodes[k]));
            assert(decreases_to!(nodes[k] => nodes[k].children));
            assert(decreases_to!(nodes[k].children => nodes[k].children@));
        }
        preorder(nodes.subrange(0, k)) + seq![nodes[k]] + preorder(nodes[k].children@)
    }
}

pub proof fn lemma_preorder_concat(a: Seq<ResourceNode>, b: Seq<ResourceNode>)
    ensures
        preorder(a + b) == preorder(a) + preorder(b),
    decreases b.len(),
{
    if b.len() == 0 {
        assert(a + b =~= a);
        assert(preorder(a) + preorder(b) =~= preorder(a));
    } else {
        let k = b.len() - 1;
        lemma_preorder_concat(a, b.subrange(0, k));
        assert((a + b).subrange(0, (a + b).len() - 1) =~= a + b.subrange(0, k));
        assert((a + b)[(a + b).len() - 1] == b[k]);
        assert(preorder(a + b) =~= preorder(a) + preorder(b));
    }
}

proof fn lemma_preorder_split(nodes: Seq<ResourceNode>, i: int)
    requires
        0 <= i < nodes.len(),
    ensures
        preorder(nodes) == preorder(nodes.take(i)) + seq![nodes[i]] + preorder(nodes[i].children@)
            + preorder(nodes.skip(i + 1)),
{
    assert(nodes =~= nodes.take(i + 1) + nodes.skip(i + 1));
    lemma_preorder_concat(nodes.take(i + 1), nodes.skip(i + 1));
    assert(nodes.take(i + 1).subrange(0, i) =~= nodes.take(i));
}

/// Whether one of `n`'s attributes is on `line`.
pub open spec fn has_attr_on(n: ResourceNode, line: u32) -> bool {
    exists|k: int| 0 <= k < n.attrs.len() && #[trigger] n.attrs@[k].line == line
}

/// The first node of `flat` with an attribute on `line`.
pub open spec fn first_hit(flat: Seq<ResourceNode>, line: u32) -> Option<int>
    decreases flat.len(),
{
    if flat.len() == 0 {
        None
    } else {
        match first_hit(flat.drop_last(), line) {
            Some(i) => Some(i),
            None => if has_attr_on(flat.last(), line) {
                Some(flat.len() - 1)
            } else {
                None
            },
        }
    }
}

/// The node that starts on or before `line` furthest down, the later one of two on a
/// line, as it stands after `flat` is walked from `b`: its line and id.
pub open spec fn best_from(b: Option<(u32, usize)>, flat: Seq<ResourceNode>, line: u32) -> Option<(u32, usize)>
    decreases flat.len(),
{
    if flat.len() == 0 {
        b
    } else {
        let p = best_from(b, flat.drop_last(), line);
        let n = flat.last();
        if n.line <= line && match p {
            None => true,
            Some((l, _)) => n.line >= l,
        } {
            Some((n.line, n.id))
        } else {
            p
        }
    }
}

proof fn lemma_first_hit_concat(a: Seq<ResourceNode>, b: Seq<ResourceNode>, line: u32)
    ensures
        first_hit(a + b, line) == match first_hit(a, line) {
            Some(i) => Some(i),
            None => match first_hit(b, line) {
                Some(j) => Some(a.len() + j),
                None => None,
            },
        },
        first_hit(a, line) matches Some(i) ==> 0 <= i < a.len(),
    decreases b.len(),
{
    if b.len() == 0 {
        assert(a + b =~= a);
        lemma_first_hit_range(a, line);
    } else {
        lemma_first_hit_concat(a, b.drop_last(), line);
        assert((a + b).drop_last() =~= a + b.drop_last());
        assert((a + b).last() == b.last());
    }
}

proof fn lemma_first_hit_range(a: Seq<ResourceNode>, line: u32)
    ensures
        first_hit(a, line) matches Some(i) ==> 0 <= i < a.len() && has_attr_on(a[i], line),
    decreases a.len(),
{
    if a.len() > 0 {
        lemma_first_hit_range(a.drop_last(), line);
    }
}

proof fn lemma_best_concat(b0: Option<(u32, usize)>, a: Seq<ResourceNode>, b: Seq<ResourceNode>, line: u32)
    ensures
        best_from(b0, a + b, line) == best_from(best_from(b0, a, line), b, line),
    decreases b.len(),
{
    if b.len() == 0 {
        assert(a + b =~= a);
    } else {
        lemma_best_concat(b0, a, b.drop_last(), line);
        assert((a + b).drop_last() =~= a + b.drop_last());
        assert((a + b).last() == b.last());
    }
}

/// The node a line belongs to: the node one of whose attributes is on that line, else
/// the last node in document order that starts on or before it.
pub open spec fn node_at_line_spec(outline: Seq<ResourceNode>, line: u32) -> Option<usize> {
    let flat = preorder(outline);
    match first_hit(flat, line) {
        Some(i) => Some(flat[i].id),
        None => match best_from(None, flat, line) {
            Some((_, id)) => Some(id),
            None => None,
        },
    }
}

fn attr_on(n: &ResourceNode, line: u32) -> (r: bool)
    ensures
        r == has_attr_on(*n, line),
{
    for k in 0..n.attrs.len()
        invariant
            forall|j: int| 0 <= j < k ==> #[trigger] n.attrs@[j].line != line,
    {
        if n.attrs[k].line == line {
            return true;
        }
    }
    false
}

proof fn lemma_step_shape(nodes: Seq<ResourceNode>, i: int)
    requires
        0 <= i < nodes.len(),
    ensures
        preorder(nodes) == preorder(nodes.take(i)) + seq![nodes[i]] + preorder(nodes[i].children@)
            + preorder(nodes.skip(i + 1)),
        preorder(nodes.take(i + 1)) == preorder(nodes.take(i)) + (seq![nodes[i]] + preorder(
            nodes[i].children@,
        )),
{
    let n = nodes[i];
    lemma_preorder_split(nodes, i);
    assert(nodes.take(i + 1) =~= nodes.take(i) + seq![n]);
    lemma_preorder_concat(nodes.take(i), seq![n]);
    assert(preorder(seq![n]) =~= seq![n] + preorder(n.children@)) by {
        assert(seq![n].subrange(0, 0) =~= Seq::<ResourceNode>::empty());
        assert(seq![n][0] == n);
        assert(preorder(Seq::<ResourceNode>::empty()) == Seq::<ResourceNode>::empty());
    }
}

proof fn lemma_one_hit(n: ResourceNode, line: u32)
    ensures
        first_hit(seq![n], line) == if has_attr_on(n, line) {
            Some(0int)
        } else {
            None
        },
{
    assert(seq![n].drop_last() =~= Seq::<ResourceNode>::empty());
    assert(seq![n].last() == n);
    assert(first_hit(Seq::<ResourceNode>::empty(), line) is None);
}

proof fn lemma_hit_here(
    pre: Seq<ResourceNode>,
    n: ResourceNode,
    kids: Seq<ResourceNode>,
    rest: Seq<ResourceNode>,
    line: u32,
)
    requires
        first_hit(pre, line) is None,
        has_attr_on(n, line),
    ensures
        first_hit(pre + seq![n] + kids + rest, line) == Some(pre.len() as int),
        (pre + seq![n] + kids + rest)[pre.len() as int] == n,
{
    lemma_one_hit(n, line);
    assert(pre + seq![n] + kids + rest =~= pre + (seq![n] + (kids + rest)));
    lemma_first_hit_concat(pre, seq![n] + (kids + rest), line);
    lemma_first_hit_concat(seq![n], kids + rest, line);
}

proof fn lemma_hit_below(
    pre: Seq<ResourceNode>,
    n: ResourceNode,
    kids: Seq<ResourceNode>,
    rest: Seq<ResourceNode>,
    line: u32,
)
    requires
        first_hit(pre, line) is None,
        !has_attr_on(n, line),
        first_hit(kids, line) is Some,
    ensures
        first_hit(pre + seq![n] + kids + rest, line) == Some(
            pre.len() + 1 + first_hit(kids, line)->0,
        ),
        (pre + seq![n] + kids + rest)[pre.len() + 1 + first_hit(kids, line)->0] == kids[first_hit(
            kids,
            line,
        )->0],
{
    lemma_one_hit(n, line);
    lemma_first_hit_range(kids, line);
    assert(pre + seq![n] + kids + rest =~= pre + (seq![n] + kids + rest));
    lemma_first_hit_concat(pre, seq![n] + kids + rest, line);
    lemma_first_hit_concat(seq![n] + kids, rest, line);
    lemma_first_hit_concat(seq![n], kids, line);
}

proof fn lemma_no_hit(
    pre: Seq<ResourceNode>,
    n: ResourceNode,
    kids: Seq<ResourceNode>,
    line: u32,
    b0: Option<(u32, usize)>,
)
    requires
        first_hit(pre, line) is None,
        !has_attr_on(n, line),
        first_hit(kids, line) is None,
    ensures
        first_hit(pre + (seq![n] + kids), line) is None,
        best_from(b0, pre + (seq![n] + kids), line) == best_from(
            best_from(best_from(b0, pre, line), seq![n], line),
            kids,
            line,
        ),
{
    lemma_one_hit(n, line);
    lemma_first_hit_concat(pre, seq![n] + kids, line);
    lemma_first_hit_concat(seq![n], kids, line);
    lemma_best_concat(b0, pre, seq![n] + kids, line);
    lemma_best_concat(best_from(b0, pre, line), seq![n], kids, line);
}

proof fn lemma_best_one(b: Option<(u32, usize)>, n: ResourceNode, line: u32)
    ensures
        best_from(b, seq![n], line) == if n.line <= line && match b {
            None => true,
            Some((l, _)) => n.line >= l,
        } {
            Some((n.line, n.id))
        } else {
            b
        },
{
    assert(seq![n].drop_last() =~= Seq::<ResourceNode>::empty());
    assert(seq![n].last() == n);
    assert(best_from(b, Seq::<ResourceNode>::empty(), line) == b);
}

fn walk(nodes: &Vec<ResourceNode>, line: u32, best: &mut Option<(u32, usize)>) -> (r: Option<usize>)
    ensures
        match first_hit(preorder(nodes@), line) {
            Some(i) => r == Some(preorder(nodes@)[i].id),
            None => r is None && *final(best) == best_from(*old(best), preorder(nodes@), line),
        },
    decreases nodes@,
{
    let ghost b0 = *best;
    assert(nodes@.take(0) =~= Seq::<ResourceNode>::empty());
    for i in 0..nodes.len()
        invariant
            first_hit(preorder(nodes@.take(i as int)), line) is None,
            *best == best_from(b0, preorder(nodes@.take(i as int)), line),
    {
        let n = &nodes[i];
        let ghost pre = preorder(nodes@.take(i as int));
        let ghost kids = preorder(n.children@);
        let ghost rest = preorder(nodes@.skip(i + 1));
        proof {
            lemma_step_shape(nodes@, i as int);
        }
        if attr_on(n, line) {
            proof {
                lemma_hit_here(pre, *n, kids, rest, line);
            }
            return Some(n.id);
        }
        let better = n.line <= line && match *best {
            None => true,
            Some((l, _)) => n.line >= l,
        };
        proof {
            lemma_best_one(*best, *n, line);
        }
        if better {
            *best = Some((n.line, n.id));
        }
        proof {
            assert(decreases_to!(nodes@ => nodes@[i as int]));
            assert(decreases_to!(nodes@[i as int] => nodes@[i as int].children));
        }
        let found = walk(&n.children, line, best);
        match found {
            Some(id) => {
                proof {
                    lemma_hit_below(pre, *n, kids, rest, line);
                }
                return Some(id);
            },
            None => {
                proof {
                    lemma_no_hit(pre, *n, kids, line, b0);
                }
            },
        }
    }
    assert(nodes@.take(nodes.len() as int) =~= nodes@);
    None
}

/// The node a line belongs to: the node one of whose attributes is on that line, else
/// the last node in document order that starts on or before it — the innermost block
/// open at that line, since a child starts after its parent.
pub fn node_at_line(outline: &Vec<ResourceNode>, line: u32) -> (r: Option<usize>)
    ensures
        r == node_at_line_spec(outline@, line),
{
    let mut best: Option<(u32, usize)> = None;
    proof {
        lemma_first_hit_range(preorder(outline@), line);
    }
    match walk(outline, line, &mut best) {
        Some(id) => Some(id),
        None => match best {
            Some((_, id)) => Some(id),
            None => None,
        },
    }
}

/// The first node of `flat` with id `id`.
pub open spec fn first_id(flat: Seq<ResourceNode>, id: usize) -> Option<int>
    decreases flat.len(),
{
    if flat.len() == 0 {
        None
    } else {
        match first_id(flat.drop_last(), id) {
            Some(i) => Some(i),
            None => if flat.last().id == id {
                Some(flat.len() - 1)
            } else {
                None
            },
        }
    }
}

proof fn lemma_first_id_concat(a: Seq<ResourceNode>, b: Seq<ResourceNode>, id: usize)
    ensures
        first_id(a + b, id) == match first_id(a, id) {
            Some(i) => Some(i),
            None => match first_id(b, id) {
                Some(j) => Some(a.len() + j),
                None => None,
            },
        },
    decreases b.len(),
{
    if b.len() == 0 {
        assert(a + b =~= a);
    } else {
        lemma_first_id_concat(a, b.drop_last(), id);
        assert((a + b).drop_last() =~= a + b.drop_last());
        assert((a + b).last() == b.last());
    }
}

proof fn lemma_first_id_range(a: Seq<ResourceNode>, id: usize)
    ensures
        first_id(a, id) matches Some(i) ==> 0 <= i < a.len() && a[i].id == id,
    decreases a.len(),
{
    if a.len() > 0 {
        lemma_first_id_range(a.drop_last(), id);
    }
}

proof fn lemma_one_id(n: ResourceNode, id: usize)
    ensures
        first_id(seq![n], id) == if n.id == id {
            Some(0int)
        } else {
            None
        },
{
    assert(seq![n].drop_last() =~= Seq::<ResourceNode>::empty());
    assert(seq![n].last() == n);
    assert(first_id(Seq::<ResourceNode>::empty(), id) is None);
}

proof fn lemma_id_here(
    pre: Seq<ResourceNode>,
    n: ResourceNode,
    kids: Seq<ResourceNode>,
    rest: Seq<ResourceNode>,
    id: usize,
)
    requires
        first_id(pre, id) is None,
        n.id == id,
    ensures
        first_id(pre + seq![n] + kids + rest, id) == Some(pre.len() as int),
        (pre + seq![n] + kids + rest)[pre.len() as int] == n,
{
    lemma_one_id(n, id);
    assert(pre + seq![n] + kids + rest =~= pre + (seq![n] + (kids + rest)));
    lemma_first_id_concat(pre, seq![n] + (kids + rest), id);
    lemma_first_id_concat(seq![n], kids + rest, id);
}

proof fn lemma_id_below(
    pre: Seq<ResourceNode>,
    n: ResourceNode,
    kids: Seq<ResourceNode>,
    rest: Seq<ResourceNode>,
    id: usize,
)
    requires
        first_id(pre, id) is None,
        n.id != id,
        first_id(kids, id) is Some,
    ensures
        first_id(pre + seq![n] + kids + rest, id) == Some(pre.len() + 1 + first_id(kids, id)->0),
        (pre + seq![n] + kids + rest)[pre.len() + 1 + first_id(kids, id)->0] == kids[first_id(
            kids,
            id,
        )->0],
{
    lemma_one_id(n, id);
    lemma_first_id_range(kids, id);
    assert(pre + seq![n] + kids + rest =~= pre + (seq![n] + kids + rest));
    lemma_first_id_concat(pre, seq![n] + kids + rest, id);
    lemma_first_id_concat(seq![n] + kids, rest, id);
    lemma_first_id_concat(seq![n], kids, id);
}

proof fn lemma_no_id(pre: Seq<ResourceNode>, n: ResourceNode, kids: Seq<ResourceNode>, id: usize)
    requires
        first_id(pre, id) is None,
        n.id != id,
        first_id(kids, id) is None,
    ensures
        first_id(pre + (seq![n] + kids), id) is None,
{
    lemma_one_id(n, id);
    lemma_first_id_concat(pre, seq![n] + kids, id);
    lemma_first_id_concat(seq![n], kids, id);
}

/// The node with this id, anywhere in the outline: the first in document order.
pub fn find_node(outline: &Vec<ResourceNode>, id: usize) -> (r: Option<&ResourceNode>)
    ensures
        match first_id(preorder(outline@), id) {
            Some(i) => r == Some(&preorder(outline@)[i]),
            None => r is None,
        },
    decreases outline@,
{
    assert(outline@.take(0) =~= Seq::<ResourceNode>::empty());
    for i in 0..outline.len()
        invariant
            first_id(preorder(outline@.take(i as int)), id) is None,
    {
        let n = &outline[i];
        let ghost pre = preorder(outline@.take(i as int));
        let ghost kids = preorder(n.children@);
        let ghost rest = preorder(outline@.skip(i + 1));
        proof {
            lemma_step_shape(outline@, i as int);
        }
        if n.id == id {
            proof {
                lemma_id_here(pre, *n, kids, rest, id);
            }
            return Some(n);
        }
        proof {
            assert(decreases_to!(outline@ => outline@[i as int]));
            assert(decreases_to!(outline@[i as int] => outline@[i as int].children));
        }
        let found = find_node(&n.children, id);
        match found {
            Some(f) => {
                proof {
                    lemma_id_below(pre, *n, kids, rest, id);
                }
                return Some(f);
            },
            None => {
                proof {
                    lemma_no_id(pre, *n, kids, id);
                }
            },
        }
    }
    assert(outline@.take(outline.len() as int) =~= outline@);
    None
}

/// The icon a node's kind shows in the tree.
pub fn kind_icon(kind: ResourceKind) -> (r: &'static str)
    ensures
        r == match kind {
            ResourceKind::Config => "settings",
            ResourceKind::ResourceMap => "category",
            ResourceKind::Resource => "deployed_code",
            ResourceKind::NestedBlock => "data_object",
            ResourceKind::MemberGrant => "person",
            ResourceKind::Unknown => "help",
        },
{
    match kind {
        ResourceKind::Config => "settings",
        ResourceKind::ResourceMap => "category",
        ResourceKind::Resource => "deployed_code",
        ResourceKind::NestedBlock => "data_object",
        ResourceKind::MemberGrant => "person",
        ResourceKind::Unknown => "help",
    }
}

/// What a node's kind is called.
pub fn kind_label(kind: ResourceKind) -> (r: &'static str)
    ensures
        r == match kind {
            ResourceKind::Config => "configuration",
            ResourceKind::ResourceMap => "resource map",
            ResourceKind::Resource => "resource",
            ResourceKind::NestedBlock => "nested block",
            ResourceKind::MemberGrant => "member grant",
            ResourceKind::Unknown => "not in the schema",
        },
{
    match kind {
        ResourceKind::Config => "configuration",
        ResourceKind::ResourceMap => "resource map",
        ResourceKind::Resource => "resource",
        ResourceKind::NestedBlock => "nested block",
        ResourceKind::MemberGrant => "member grant",
        ResourceKind::Unknown => "not in the schema",
    }
}

/// The tree row's label: a resource's name, everything else its key.
pub fn label_of(node: &ResourceNode) -> (r: String)
    ensures
        r@ == match name_of(*node) {
            Some(n) => n,
            None => node.key@,
        },
{
    match node.name() {
        Some(n) => String::from_str(n),
        None => node.key.clone(),
    }
}

/// The tree row's supporting line: a resource's or a grant's Terraform type, a resource
/// map's count of resources, nothing for the rest.
pub open spec fn supporting_spec(node: ResourceNode) -> Seq<char> {
    match node.kind {
        ResourceKind::Resource | ResourceKind::MemberGrant => match node.tf_type {
            Some(t) => t@,
            None => seq![],
        },
        ResourceKind::ResourceMap => if node.children.len() == 1 {
            "1 resource"@
        } else {
            dec(node.children.len() as nat) + " resources"@
        },
        _ => seq![],
    }
}

/// The tree row's supporting line.
pub fn supporting_of(node: &ResourceNode) -> (r: String)
    ensures
        r@ == supporting_spec(*node),
{
    match node.kind {
        ResourceKind::Resource | ResourceKind::MemberGrant => match &node.tf_type {
            Some(t) => t.clone(),
            None => String::new(),
        },
        ResourceKind::ResourceMap => if node.children.len() == 1 {
            String::from_str("1 resource")
        } else {
            let mut s = dec_string(node.children.len() as u128);
            s.append(" resources");
            s
        },
        _ => String::new(),
    }
}

/// Why a row is locked, for the reader: nothing for an editable row; an import id is
/// satz adopt's, a computed attribute the provider's, a block outside the schema has none
/// to edit, and the rest are read-only.
pub fn lock_reason(row: &AttrRow, block_editable: bool) -> (r: Option<&'static str>)
    ensures
        r == if row.editable {
            None
        } else if row.key@ == "import-id"@ {
            Some("written by satz adopt")
        } else if row.computed && !row.optional && !row.required {
            Some("computed by the provider")
        } else if !block_editable {
            Some("not in the schema")
        } else {
            Some("read-only")
        },
{
    if row.editable {
        return None;
    }
    Some(
        if crate::text::str_eq(row.key.as_str(), "import-id") {
            "written by satz adopt"
        } else if row.computed && !row.optional && !row.required {
            "computed by the provider"
        } else if !block_editable {
            "not in the schema"
        } else {
            "read-only"
        },
    )
}

/// A schema type in words.
pub open spec fn type_words(t: AttrType) -> Seq<char>
    decreases t,
{
    match t {
        AttrType::Str => "string"@,
        AttrType::Number => "number"@,
        AttrType::Bool => "bool"@,
        AttrType::ListOf(i) => "list of "@ + type_words(*i),
        AttrType::SetOf(i) => "set of "@ + type_words(*i),
        AttrType::MapOf(i) => "map of "@ + type_words(*i),
        AttrType::Object => "object"@,
        AttrType::Unknown => "untyped"@,
    }
}

fn type_text(t: &AttrType) -> (r: String)
    ensures
        r@ == type_words(*t),
    decreases t,
{
    match t {
        AttrType::Str => String::from_str("string"),
        AttrType::Number => String::from_str("number"),
        AttrType::Bool => String::from_str("bool"),
        AttrType::ListOf(i) => {
            let mut s = String::from_str("list of ");
            let inner = type_text(i);
            s.append(inner.as_str());
            s
        },
        AttrType::SetOf(i) => {
            let mut s = String::from_str("set of ");
            let inner = type_text(i);
            s.append(inner.as_str());
            s
        },
        AttrType::MapOf(i) => {
            let mut s = String::from_str("map of ");
            let inner = type_text(i);
            s.append(inner.as_str());
            s
        },
        AttrType::Object => String::from_str("object"),
        AttrType::Unknown => String::from_str("untyped"),
    }
}

/// An attribute row's schema type in words: `list of string`, `untyped`.
pub fn type_label(row: &AttrRow) -> (r: String)
    ensures
        r@ == type_words(row.typed),
{
    type_text(&row.typed)
}


proof fn lemma_first_hit_none(flat: Seq<ResourceNode>, line: u32)
    requires
        forall|j: int, m: int|
            0 <= j < flat.len() && 0 <= m < flat[j].attrs.len() ==> (#[trigger] flat[j].attrs@[m]).line != line,
    ensures
        first_hit(flat, line) is None,
    decreases flat.len(),
{
    if flat.len() > 0 {
        let p = flat.drop_last();
        assert forall|j: int, m: int| 0 <= j < p.len() && 0 <= m < p[j].attrs.len() implies (
        #[trigger] p[j].attrs@[m]).line != line by {
            assert(p[j] == flat[j]);
        }
        lemma_first_hit_none(p, line);
        let n = flat.last();
        assert(!has_attr_on(n, line)) by {
            if has_attr_on(n, line) {
                let m = choose|m: int| 0 <= m < n.attrs.len() && #[trigger] n.attrs@[m].line == line;
                assert(flat[flat.len() - 1].attrs@[m].line == line);
            }
        }
    }
}

proof fn lemma_first_hit_at(flat: Seq<ResourceNode>, line: u32, i: int, k: int)
    requires
        0 <= i < flat.len(),
        0 <= k < flat[i].attrs.len(),
        flat[i].attrs@[k].line == line,
        forall|j: int, m: int|
            0 <= j < i && 0 <= m < flat[j].attrs.len() ==> (#[trigger] flat[j].attrs@[m]).line != line,
    ensures
        first_hit(flat, line) == Some(i),
    decreases flat.len(),
{
    let p = flat.drop_last();
    if i == flat.len() - 1 {
        assert forall|j: int, m: int| 0 <= j < p.len() && 0 <= m < p[j].attrs.len() implies (
        #[trigger] p[j].attrs@[m]).line != line by {
            assert(p[j] == flat[j]);
        }
        lemma_first_hit_none(p, line);
        assert(has_attr_on(flat.last(), line)) by {
            assert(flat.last().attrs@[k].line == line);
        }
    } else {
        assert(p[i] == flat[i]);
        assert forall|j: int, m: int| 0 <= j < i && 0 <= m < p[j].attrs.len() implies (
        #[trigger] p[j].attrs@[m]).line != line by {
            assert(p[j] == flat[j]);
        }
        lemma_first_hit_at(p, line, i, k);
    }
}

/// A line that holds an attribute belongs to the node whose attribute it is — any of
/// its attributes, not only the first — and to the first such node in document order
/// where two nodes claim the line.
pub proof fn law_an_attribute_line_belongs_to_its_node(outline: Seq<ResourceNode>, i: int, k: int)
    requires
        0 <= i < preorder(outline).len(),
        0 <= k < preorder(outline)[i].attrs.len(),
        forall|j: int, m: int|
            0 <= j < i && 0 <= m < preorder(outline)[j].attrs.len() ==> (#[trigger] preorder(
                outline,
            )[j].attrs@[m]).line != preorder(outline)[i].attrs@[k].line,
    ensures
        node_at_line_spec(outline, preorder(outline)[i].attrs@[k].line) == Some(preorder(outline)[i].id),
{
    let flat = preorder(outline);
    let line = flat[i].attrs@[k].line;
    lemma_first_hit_at(flat, line, i, k);
}

/// Entry `i` of `flat` is the block open at `line`: it starts on or before the line,
/// no node starts later on or before it, and of the nodes starting on its line it is the
/// last in document order.
pub open spec fn open_at(flat: Seq<ResourceNode>, line: u32, i: int) -> bool {
    &&& 0 <= i < flat.len()
    &&& flat[i].line <= line
    &&& forall|j: int|
        0 <= j < flat.len() && (#[trigger] flat[j]).line <= line ==> flat[j].line < flat[i].line || (
        flat[j].line == flat[i].line && j <= i)
}

proof fn lemma_best_from_none(flat: Seq<ResourceNode>, line: u32)
    ensures
        best_from(None, flat, line) is None <==> forall|j: int| 0 <= j < flat.len() ==> (#[trigger] flat[j]).line
            > line,
        best_from(None, flat, line) matches Some((l, id)) ==> exists|i: int|
            open_at(flat, line, i) && #[trigger] flat[i].line == l && flat[i].id == id,
    decreases flat.len(),
{
    if flat.len() > 0 {
        let p = flat.drop_last();
        lemma_best_from_none(p, line);
        let n = flat.last();
        let last = flat.len() - 1;
        assert forall|j: int| 0 <= j < p.len() implies #[trigger] p[j] == flat[j] by {}
        match best_from(None, p, line) {
            None => {
                if n.line <= line {
                    assert(open_at(flat, line, last)) by {
                        assert forall|j: int| 0 <= j < flat.len() && (#[trigger] flat[j]).line <= line implies flat[j].line
                            < flat[last].line || (flat[j].line == flat[last].line && j <= last) by {
                            if j < last {
                                assert(p[j].line > line);
                            }
                        }
                    }
                    assert(flat[last].line == n.line);
                } else {
                    assert forall|j: int| 0 <= j < flat.len() implies (#[trigger] flat[j]).line > line by {
                        if j < last {
                            assert(p[j].line > line);
                        }
                    }
                }
            },
            Some((l, id)) => {
                let i = choose|i: int| open_at(p, line, i) && #[trigger] p[i].line == l && p[i].id == id;
                assert(flat[i] == p[i]);
                if n.line <= line && n.line >= l {
                    assert(open_at(flat, line, last)) by {
                        assert forall|j: int| 0 <= j < flat.len() && (#[trigger] flat[j]).line <= line implies flat[j].line
                            < flat[last].line || (flat[j].line == flat[last].line && j <= last) by {
                            if j < last {
                                assert(p[j] == flat[j]);
                                assert(p[j].line <= line);
                            }
                        }
                    }
                    assert(flat[last].line == n.line);
                } else {
                    assert(open_at(flat, line, i)) by {
                        assert forall|j: int| 0 <= j < flat.len() && (#[trigger] flat[j]).line <= line implies flat[j].line
                            < flat[i].line || (flat[j].line == flat[i].line && j <= i) by {
                            if j < last {
                                assert(p[j] == flat[j]);
                                assert(p[j].line <= line);
                            }
                        }
                    }
                }
                assert(p[i].line <= line);
            },
        }
    }
}

/// A line that holds no attribute belongs to the block open at it: the node starting on
/// or before it furthest down, the later one in document order of two that start on one
/// line; a line before every node belongs to none.
pub proof fn law_a_line_without_attributes_belongs_to_the_open_block(outline: Seq<ResourceNode>, line: u32)
    requires
        forall|j: int, m: int|
            0 <= j < preorder(outline).len() && 0 <= m < preorder(outline)[j].attrs.len() ==> (#[trigger] preorder(
                outline,
            )[j].attrs@[m]).line != line,
    ensures
        node_at_line_spec(outline, line) is None <==> forall|j: int|
            0 <= j < preorder(outline).len() ==> (#[trigger] preorder(outline)[j]).line > line,
        node_at_line_spec(outline, line) matches Some(id) ==> exists|i: int|
            open_at(preorder(outline), line, i) && #[trigger] preorder(outline)[i].id == id,
{
    let flat = preorder(outline);
    lemma_first_hit_none(flat, line);
    lemma_best_from_none(flat, line);
    match best_from(None, flat, line) {
        Some((l, id)) => {
            let i = choose|i: int| open_at(flat, line, i) && #[trigger] flat[i].line == l && flat[i].id == id;
            assert(open_at(flat, line, i) && flat[i].id == id);
        },
        None => {},
    }
}
} // verus!
