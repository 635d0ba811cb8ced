//! The size tree: nodes annotated with aggregate weights, the builder that
//! folds a JSON value into one bottom-up, and the depth probe.

use vstd::prelude::*;
use crate::json::{
    JsonValue, byte_weight, byte_weight_seq, byte_weight_entries, struct_weight,
    struct_weight_seq, struct_weight_entries, key_weight, key_weight_seq, entry_key_weights,
    weights_fit, lemma_byte_seq_take_step, lemma_byte_seq_take_le, lemma_byte_entries_take_step,
    lemma_byte_entries_take_le, lemma_struct_seq_take_step, lemma_struct_seq_take_le,
    lemma_struct_entries_take_step, lemma_struct_entries_take_le, lemma_key_seq_take_step,
    lemma_key_seq_take_le, lemma_entry_keys_take_step, lemma_entry_keys_take_le,
};
use crate::units::Unit;
use crate::textfmt::char_count;

verus! {

/// One node of the size tree: the key it was reached through (absent for
/// array elements), its direct element count (arrays only), its two
/// aggregate weights, its key footprint, and its retained children
/// (objects only).
pub struct Node {
    pub tag: Option<String>,
    pub len: usize,
    pub size_b: usize,
    pub size_c: usize,
    pub key_size: usize,
    pub children: Option<Vec<Node>>,
}

/// The node's weight under the selected unit.
pub open spec fn size_spec(n: Node, u: Unit) -> nat {
    match u {
        Unit::Bytes => n.size_b as nat,
        Unit::Children => n.size_c as nat,
    }
}

pub open spec fn sum_size_b(s: Seq<Node>) -> nat
    decreases s,
{
    if s.len() == 0 {
        0
    } else {
        sum_size_b(s.drop_last()) + s.last().size_b as nat
    }
}

pub open spec fn sum_size_c(s: Seq<Node>) -> nat
    decreases s,
{
    if s.len() == 0 {
        0
    } else {
        sum_size_c(s.drop_last()) + s.last().size_c as nat
    }
}

/// Conservation: everywhere in the tree, a node with retained children
/// carries exactly the sum of its children's byte weights, and its
/// structural weight counts the children plus their own weights.
pub open spec fn node_wf(n: Node) -> bool
    decreases n,
{
    match n.children {
        Some(cs) => {
            &&& n.size_b == sum_size_b(cs@)
            &&& n.size_c == cs@.len() + sum_size_c(cs@)
            &&& forall|i: int| 0 <= i < cs@.len() ==> node_wf(#[trigger] cs@[i])
        },
        None => true,
    }
}

/// `r` is the node that building from `v` must produce, when `v` was reached
/// through a key of length `ks` labelled `tag`: its fields carry the three
/// aggregate weights of `v`; an array keeps only its element count and
/// retains no children; an object retains one child per entry, in order,
/// each built from that entry.
pub open spec fn builds(v: JsonValue, ks: nat, tag: Seq<char>, r: Node) -> bool
    decreases v,
{
    &&& r.size_b == byte_weight(v)
    &&& r.size_c == struct_weight(v)
    &&& r.key_size == key_weight(v, ks)
    &&& match v {
        JsonValue::Arr(es) => {
            &&& (if tag.len() == 0 {
                r.tag is None
            } else {
                r.tag matches Some(t) && t@ == tag
            })
            &&& r.len == es@.len()
            &&& r.children is None
        },
        JsonValue::Obj(kvs) => {
            &&& (if tag.len() == 0 {
                r.tag is None
            } else {
                r.tag matches Some(t) && t@ == tag
            })
            &&& r.len == 0
            &&& (r.children matches Some(cs) && cs@.len() == kvs@.len() && (forall|i: int|
                0 <= i < kvs@.len() ==> builds(
                    kvs@[i].1,
                    kvs@[i].0@.len(),
                    kvs@[i].0@,
                    #[trigger] cs@[i],
                )))
        },
        _ => {
            &&& (if tag.len() == 0 {
                r.tag is None
            } else {
                r.tag matches Some(t) && t@ == tag
            })
            &&& r.len == 0
            &&& r.children is None
        },
    }
}

impl Node {
    /// A childless node: its byte weight is the given kind-specific weight,
    /// its key footprint the inherited key length, and its label the given
    /// tag unless that is empty.
    pub fn leaf(key_size: usize, size: usize, tag: String) -> (r: Node)
        ensures
            r.len == 0,
            r.size_b == size,
            r.size_c == 0,
            r.key_size == key_size,
            r.children is None,
            tag@.len() == 0 ==> r.tag is None,
            tag@.len() > 0 ==> (r.tag matches Some(t) && t@ == tag@),
    {
        Node {
            tag: if tag.as_str().is_empty() {
                None
            } else {
                Some(tag)
            },
            len: 0,
            size_b: size,
            size_c: 0,
            key_size,
            children: None,
        }
    }

    /// Builds the size tree for `v`, reached through a key of length `ks`
    /// labelled `tag`, aggregating all three weights bottom-up; array
    /// elements are folded into the array's own metrics and then discarded.
    #[verifier::loop_isolation(false)]
    pub fn from_json(v: &JsonValue, ks: usize, tag: String) -> (r: Node)
        requires
            weights_fit(*v, ks as nat),
        ensures
            builds(*v, ks as nat, tag@, r),
        decreases *v,
    {
        match v {
            JsonValue::Null => Node::leaf(ks, 0, tag),
            JsonValue::Bool(_) => Node::leaf(ks, 4, tag),
            JsonValue::Num(s) => Node::leaf(ks, char_count(s.as_str()), tag),
            JsonValue::Str(s) => Node::leaf(ks, char_count(s.as_str()), tag),
            JsonValue::Arr(es) => {
                let mut size_b: usize = 0;
                let mut size_c: usize = 0;
                let mut key_size: usize = 0;
                let mut i: usize = 0;
                while i < es.len()
                    invariant
                        i <= es@.len(),
                        size_b == byte_weight_seq(es@.take(i as int)),
                        size_c == struct_weight_seq(es@.take(i as int)),
                        key_size == key_weight_seq(es@.take(i as int)),
                    decreases es@.len() - i,
                {
                    proof {
                        lemma_byte_seq_take_step(es@, i as int);
                        lemma_byte_seq_take_le(es@, i + 1);
                        lemma_struct_seq_take_step(es@, i as int);
                        lemma_struct_seq_take_le(es@, i + 1);
                        lemma_key_seq_take_step(es@, i as int);
                        lemma_key_seq_take_le(es@, i + 1);
                    }
                    let c = Node::from_json(&es[i], 0, String::new());
                    size_b = size_b + c.size_b;
                    size_c = size_c + c.size_c;
                    key_size = key_size + c.key_size;
                    i = i + 1;
                }
                proof {
                    assert(es@.take(es@.len() as int) =~= es@);
                }
                let n_el = es.len();
                Node {
                    tag: if tag.as_str().is_empty() {
                        None
                    } else {
                        Some(tag)
                    },
                    len: n_el,
                    size_b,
                    size_c: n_el + size_c,
                    key_size,
                    children: None,
                }
            },
            JsonValue::Obj(kvs) => {
                let mut children: Vec<Node> = Vec::new();
                let mut size_b: usize = 0;
                let mut size_c: usize = 0;
                let mut key_size: usize = 0;
                let mut i: usize = 0;
                while i < kvs.len()
                    invariant
                        i <= kvs@.len(),
                        children@.len() == i,
                        size_b == byte_weight_entries(kvs@.take(i as int)),
                        size_c == struct_weight_entries(kvs@.take(i as int)),
                        key_size == entry_key_weights(kvs@.take(i as int)),
                        forall|j: int|
                            0 <= j < i ==> builds(
                                kvs@[j].1,
                                kvs@[j].0@.len(),
                                kvs@[j].0@,
                                #[trigger] children@[j],
                            ),
                    decreases kvs@.len() - i,
                {
                    proof {
                        lemma_byte_entries_take_step(kvs@, i as int);
                        lemma_byte_entries_take_le(kvs@, i + 1);
                        lemma_struct_entries_take_step(kvs@, i as int);
                        lemma_struct_entries_take_le(kvs@, i + 1);
                        lemma_entry_keys_take_step(kvs@, i as int);
                        lemma_entry_keys_take_le(kvs@, i + 1);
                    }
                    let pair = &kvs[i];
                    let ksz = char_count(pair.0.as_str());
                    let c = Node::from_json(&pair.1, ksz, pair.0.clone());
                    size_b = size_b + c.size_b;
                    size_c = size_c + c.size_c;
                    // the entry's key, plus every key nested inside its value;
                    // a container's footprint does not depend on its own key,
                    // while a leaf's footprint is exactly that key
                    let entry_keys: usize = match &pair.1 {
                        JsonValue::Arr(_) => ksz + c.key_size,
                        JsonValue::Obj(_) => ksz + c.key_size,
                        _ => c.key_size,
                    };
                    key_size = key_size + entry_keys;
                    children.push(c);
                    i = i + 1;
                }
                proof {
                    assert(kvs@.take(kvs@.len() as int) =~= kvs@);
                }
                let n_en = kvs.len();
                Node {
                    tag: if tag.as_str().is_empty() {
                        None
                    } else {
                        Some(tag)
                    },
                    len: 0,
                    size_b,
                    size_c: n_en + size_c,
                    key_size,
                    children: Some(children),
                }
            },
        }
    }

    /// The node's weight under the selected unit.
    pub fn size(&self, count: Unit) -> (r: usize)
        ensures
            r == size_spec(*self, count),
    {
        match count {
            Unit::Bytes => self.size_b,
            Unit::Children => self.size_c,
        }
    }
}

/// The true maximum depth of the tree: 0 for a node without retained
/// children, else one more than the largest depth among the children
/// (one for an object with no entries).
pub open spec fn height_spec(n: Node) -> nat
    decreases n,
{
    match n.children {
        Some(cs) => 1 + height_seq_max(cs@),
        None => 0,
    }
}

pub open spec fn height_seq_max(s: Seq<Node>) -> nat
    decreases s,
{
    if s.len() == 0 {
        0
    } else {
        let rest = height_seq_max(s.drop_last());
        let h = height_spec(s.last());
        if h > rest {
            h
        } else {
            rest
        }
    }
}

pub proof fn lemma_height_take_step(s: Seq<Node>, i: int)
    requires
        0 <= i < s.len(),
    ensures
        height_seq_max(s.take(i + 1)) == if height_spec(s[i]) > height_seq_max(s.take(i)) {
            height_spec(s[i])
        } else {
            height_seq_max(s.take(i))
        },
{
    assert(s.take(i + 1).drop_last() =~= s.take(i));
    assert(s.take(i + 1).last() == s[i]);
}

pub proof fn lemma_height_take_le(s: Seq<Node>, i: int)
    requires
        0 <= i <= s.len(),
    ensures
        height_seq_max(s.take(i)) <= height_seq_max(s),
    decreases s.len() - i,
{
    if i == s.len() {
        assert(s.take(i) =~= s);
    } else {
        lemma_height_take_step(s, i);
        lemma_height_take_le(s, i + 1);
    }
}

impl Node {
    /// The true maximum depth of this tree.
    #[verifier::loop_isolation(false)]
    pub fn max_depth(&self) -> (r: usize)
        requires
            height_spec(*self) <= usize::MAX,
        ensures
            r == height_spec(*self),
        decreases *self,
    {
        match &self.children {
            Some(cs) => {
                let mut m: usize = 0;
                let mut i: usize = 0;
                while i < cs.len()
                    invariant
                        i <= cs@.len(),
                        m == height_seq_max(cs@.take(i as int)),
                    decreases cs@.len() - i,
                {
                    proof {
                        lemma_height_take_step(cs@, i as int);
                        lemma_height_take_le(cs@, i + 1);
                    }
                    let h = cs[i].max_depth();
                    if h > m {
                        m = h;
                    }
                    i = i + 1;
                }
                proof {
                    assert(cs@.take(cs@.len() as int) =~= cs@);
                }
                1 + m
            },
            None => 0,
        }
    }
}

/// The absolute depth cap that a signed request resolves to, with the
/// machine's wrap-around when a negative request undershoots.
pub open spec fn resolved_cap(req: int, tree_depth: nat) -> int {
    if req >= 0 {
        req
    } else if tree_depth + req - 1 >= 0 {
        tree_depth + req - 1
    } else {
        tree_depth + req - 1 + (usize::MAX + 1)
    }
}

/// Resolves a depth request into an absolute cap: a non-negative request is
/// taken unchanged; a negative one counts from the deepest node, as the
/// tree's true maximum depth plus the request minus one.
pub fn resolve_depth_cap(req: isize, tree_depth: usize) -> (r: usize)
    ensures
        r == resolved_cap(req as int, tree_depth as nat),
        req >= 0 ==> r == req,
        req < 0 && tree_depth + req - 1 >= 0 ==> r == tree_depth + req - 1,
{
    if req >= 0 {
        req as usize
    } else {
        tree_depth.wrapping_add_signed(req).wrapping_sub(1)
    }
}

pub proof fn lemma_sum_b_element_le(s: Seq<Node>, i: int)
    requires
        0 <= i < s.len(),
    ensures
        s[i].size_b <= sum_size_b(s),
    decreases s.len(),
{
    if i < s.len() - 1 {
        assert(s.drop_last()[i] == s[i]);
        lemma_sum_b_element_le(s.drop_last(), i);
    }
}

pub proof fn lemma_sum_c_element_le(s: Seq<Node>, i: int)
    requires
        0 <= i < s.len(),
    ensures
        s[i].size_c <= sum_size_c(s),
    decreases s.len(),
{
    if i < s.len() - 1 {
        assert(s.drop_last()[i] == s[i]);
        lemma_sum_c_element_le(s.drop_last(), i);
    }
}

pub proof fn lemma_sums_match(kvs: Seq<(String, JsonValue)>, cs: Seq<Node>)
    requires
        cs.len() == kvs.len(),
        forall|i: int|
            0 <= i < kvs.len() ==> builds(
                kvs[i].1,
                kvs[i].0@.len(),
                kvs[i].0@,
                #[trigger] cs[i],
            ),
    ensures
        sum_size_b(cs) == byte_weight_entries(kvs),
        sum_size_c(cs) == struct_weight_entries(kvs),
    decreases cs.len(),
{
    if cs.len() > 0 {
        assert forall|i: int| 0 <= i < kvs.drop_last().len() implies builds(
            kvs.drop_last()[i].1,
            kvs.drop_last()[i].0@.len(),
            kvs.drop_last()[i].0@,
            #[trigger] cs.drop_last()[i],
        ) by {
            assert(kvs.drop_last()[i] == kvs[i]);
            assert(cs.drop_last()[i] == cs[i]);
        }
        lemma_sums_match(kvs.drop_last(), cs.drop_last());
        assert(builds(
            kvs[kvs.len() - 1].1,
            kvs[kvs.len() - 1].0@.len(),
            kvs[kvs.len() - 1].0@,
            cs[cs.len() - 1],
        ));
    }
}

/// Conservation law: whatever was built from a JSON value is a well-formed
/// tree — everywhere, a node with retained children carries exactly the sum
/// of its children's byte weights, and a structural weight of the child
/// count plus the sum of the children's structural weights.
pub proof fn lemma_builds_wf(v: JsonValue, ks: nat, tag: Seq<char>, r: Node)
    requires
        builds(v, ks, tag, r),
    ensures
        node_wf(r),
    decreases v,
{
    match v {
        JsonValue::Obj(kvs) => {
            match r.children {
                Some(cs) => {
                    assert forall|i: int| 0 <= i < cs@.len() implies node_wf(
                        #[trigger] cs@[i],
                    ) by {
                        lemma_builds_wf(kvs@[i].1, kvs@[i].0@.len(), kvs@[i].0@, cs@[i]);
                    }
                    lemma_sums_match(kvs@, cs@);
                },
                None => {
                    assert(false);
                },
            }
        },
        _ => {},
    }
}

pub proof fn lemma_height_bounded_seq(kvs: Seq<(String, JsonValue)>, cs: Seq<Node>)
    requires
        cs.len() == kvs.len(),
        forall|i: int|
            0 <= i < kvs.len() ==> builds(
                kvs[i].1,
                kvs[i].0@.len(),
                kvs[i].0@,
                #[trigger] cs[i],
            ),
    ensures
        height_seq_max(cs) <= struct_weight_entries(kvs) + 1,
    decreases kvs,
{
    if cs.len() > 0 {
        assert forall|i: int| 0 <= i < kvs.drop_last().len() implies builds(
            kvs.drop_last()[i].1,
            kvs.drop_last()[i].0@.len(),
            kvs.drop_last()[i].0@,
            #[trigger] cs.drop_last()[i],
        ) by {
            assert(kvs.drop_last()[i] == kvs[i]);
            assert(cs.drop_last()[i] == cs[i]);
        }
        lemma_height_bounded_seq(kvs.drop_last(), cs.drop_last());
        assert(builds(
            kvs[kvs.len() - 1].1,
            kvs[kvs.len() - 1].0@.len(),
            kvs[kvs.len() - 1].0@,
            cs[cs.len() - 1],
        ));
        lemma_builds_height(
            kvs[kvs.len() - 1].1,
            kvs[kvs.len() - 1].0@.len(),
            kvs[kvs.len() - 1].0@,
            cs[cs.len() - 1],
        );
    }
}

/// The depth of a built tree never exceeds the source's structural weight
/// by more than one: the machine-side bound that lets a caller probe and
/// render a freshly built tree.
pub proof fn lemma_builds_height(v: JsonValue, ks: nat, tag: Seq<char>, r: Node)
    requires
        builds(v, ks, tag, r),
    ensures
        height_spec(r) <= struct_weight(v) + 1,
    decreases v,
{
    match v {
        JsonValue::Obj(kvs) => {
            match r.children {
                Some(cs) => {
                    lemma_height_bounded_seq(kvs@, cs@);
                },
                None => {
                    assert(false);
                },
            }
        },
        _ => {},
    }
}

/// Flattening law: building from an array value yields a node that retains
/// no children, whatever the elements were.
pub proof fn lemma_array_flattens(v: JsonValue, ks: nat, tag: Seq<char>, r: Node)
    requires
        builds(v, ks, tag, r),
        v is Arr,
    ensures
        r.children is None,
{
}

/// Monotonicity law: each retained child weighs no more than its parent,
/// under either unit; the relative share of a child therefore never exceeds
/// its parent's, and a pruned parent can hide no child above the threshold.
pub proof fn lemma_child_size_le(p: Node, cs: Vec<Node>, i: int, u: Unit)
    requires
        node_wf(p),
        p.children == Some(cs),
        0 <= i < cs@.len(),
    ensures
        size_spec(cs@[i], u) <= size_spec(p, u),
{
    match u {
        Unit::Bytes => lemma_sum_b_element_le(cs@, i),
        Unit::Children => lemma_sum_c_element_le(cs@, i),
    }
}

} // verus!
