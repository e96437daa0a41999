use vstd::prelude::*;
use std::collections::HashMap;

verus! {

broadcast use vstd::std_specs::vec::group_vec_axioms;

/// Identifies a widget instance across rebuilds.
#[derive(Clone, Copy, Debug, PartialEq, Eq, Hash, Structural)]
pub struct WidgetId(pub u32);

/// Widget state saved before a recompilation.
#[derive(Clone, Debug)]
pub struct StateSnapshot {
    pub signals: HashMap<String, Vec<u8>>,
    pub derived_values: HashMap<String, Vec<u8>>,
    pub dynamic_state: HashMap<String, Vec<u8>>,
    /// When the snapshot was taken, in milliseconds since the Unix epoch.
    pub timestamp: u64,
}

/// Relies on `SystemTime::now` and `duration_since(UNIX_EPOCH)`: the wall-clock
/// time in milliseconds (0 for a clock set before 1970). Nothing is known of it.
#[verifier::external_body]
fn now_millis() -> u64 {
    std::time::SystemTime::now().duration_since(std::time::UNIX_EPOCH).unwrap_or_default().as_millis() as u64
}

impl StateSnapshot {
    /// A copy holding the same entries and time stamp.
    pub fn duplicate(&self) -> (r: StateSnapshot)
        ensures
            r.signals@ == self.signals@,
            r.derived_values@ == self.derived_values@,
            r.dynamic_state@ == self.dynamic_state@,
            r.timestamp == self.timestamp,
    {
        StateSnapshot {
            signals: self.signals.clone(),
            derived_values: self.derived_values.clone(),
            dynamic_state: self.dynamic_state.clone(),
            timestamp: self.timestamp,
        }
    }

    /// An empty snapshot stamped with the current time.
    pub fn new() -> (r: StateSnapshot)
        ensures
            r.signals@ == Map::<String, Vec<u8>>::empty(),
            r.derived_values@ == Map::<String, Vec<u8>>::empty(),
            r.dynamic_state@ == Map::<String, Vec<u8>>::empty(),
    {
        StateSnapshot {
            signals: HashMap::new(),
            derived_values: HashMap::new(),
            dynamic_state: HashMap::new(),
            timestamp: now_millis(),
        }
    }
}

/// A node of a widget tree, as compared across rebuilds.
#[derive(Debug)]
pub struct WidgetNode {
    pub id: WidgetId,
    pub widget_type: String,
    /// Properties as `(key, value)` pairs; the first pair of a key counts.
    pub props: Vec<(String, String)>,
    pub children: Vec<WidgetNode>,
    pub state_hash: u64,
}

/// A change between two widget trees.
#[derive(Debug)]
pub enum WidgetDiff {
    /// Properties of `id` changed; an empty value means the property was removed.
    Updated { id: WidgetId, changed_props: Vec<(String, String)> },
    /// `widget` was added under `parent_id`.
    Added { id: WidgetId, widget: WidgetNode, parent_id: Option<WidgetId> },
    Removed { id: WidgetId },
    /// The children of `parent_id` now come in `new_order`.
    Reordered { parent_id: WidgetId, new_order: Vec<WidgetId> },
}

/// Position of the first pair with key `key`, if any.
pub open spec fn prop_index(props: Seq<(String, String)>, key: Seq<char>) -> Option<int> {
    if exists|i: int| 0 <= i < props.len() && props[i].0@ == key {
        Some(choose|i: int| 0 <= i < props.len() && props[i].0@ == key && forall|j: int| 0 <= j < i ==> props[j].0@ != key)
    } else {
        None
    }
}

/// Value of the first pair with key `key`, if any.
pub open spec fn prop_value(props: Seq<(String, String)>, key: Seq<char>) -> Option<Seq<char>> {
    match prop_index(props, key) {
        Some(j) => Some(props[j].1@),
        None => None,
    }
}

/// Whether `new` sets a property that `old` lacks or holds with another value.
pub open spec fn props_changed(old: Seq<(String, String)>, new: Seq<(String, String)>) -> bool {
    exists|i: int| 0 <= i < new.len() && prop_value(old, (#[trigger] new[i]).0@) != Some(new[i].1@)
}

/// Ids of a list of nodes.
pub open spec fn node_ids(nodes: Seq<WidgetNode>) -> Seq<WidgetId> {
    nodes.map_values(|n: WidgetNode| n.id)
}

fn find_prop(props: &Vec<(String, String)>, key: &String) -> (r: Option<usize>)
    ensures
        r matches Some(j) ==> j < props@.len() && props@[j as int].0@ == key@ && forall|k: int| 0 <= k < j ==> props@[k].0@ != key@,
        r.is_none() ==> forall|k: int| 0 <= k < props@.len() ==> props@[k].0@ != key@,
{
    let mut i: usize = 0;
    while i < props.len()
        invariant
            i <= props@.len(),
            forall|k: int| 0 <= k < i ==> props@[k].0@ != key@,
        decreases props@.len() - i,
    {
        if props[i].0 == *key {
            return Some(i);
        }
        i = i + 1;
    }
    None
}

/// Whether the first pair with key `key` holds `value`.
fn prop_is(props: &Vec<(String, String)>, key: &String, value: &String) -> (r: bool)
    ensures
        r == (prop_value(props@, key@) == Some(value@)),
{
    proof {
        lemma_prop_value(props@, key@);
    }
    match find_prop(props, key) {
        Some(j) => props[j].1 == *value,
        None => false,
    }
}

fn copy_props(props: &Vec<(String, String)>) -> (r: Vec<(String, String)>)
    ensures
        r@ == props@,
{
    let mut out: Vec<(String, String)> = Vec::new();
    let mut i: usize = 0;
    while i < props.len()
        invariant
            i <= props@.len(),
            out@ == props@.subrange(0, i as int),
        decreases props@.len() - i,
    {
        out.push((props[i].0.clone(), props[i].1.clone()));
        proof {
            assert(out@ =~= props@.subrange(0, i + 1));
        }
        i = i + 1;
    }
    proof {
        assert(out@ =~= props@);
    }
    out
}

fn child_ids(nodes: &Vec<WidgetNode>) -> (r: Vec<WidgetId>)
    ensures
        r@ == node_ids(nodes@),
{
    let mut out: Vec<WidgetId> = Vec::new();
    let mut i: usize = 0;
    while i < nodes.len()
        invariant
            i <= nodes@.len(),
            out@ == node_ids(nodes@.subrange(0, i as int)),
        decreases nodes@.len() - i,
    {
        out.push(nodes[i].id);
        proof {
            assert(node_ids(nodes@.subrange(0, i + 1)) =~= node_ids(nodes@.subrange(0, i as int)).push(nodes@[i as int].id));
        }
        i = i + 1;
    }
    proof {
        assert(nodes@.subrange(0, nodes@.len() as int) =~= nodes@);
    }
    out
}

fn same_ids(a: &Vec<WidgetId>, b: &Vec<WidgetId>) -> (r: bool)
    ensures
        r == (a@ == b@),
{
    if a.len() != b.len() {
        return false;
    }
    let mut i: usize = 0;
    while i < a.len()
        invariant
            a@.len() == b@.len(),
            i <= a@.len(),
            forall|k: int| 0 <= k < i ==> a@[k] == b@[k],
        decreases a@.len() - i,
    {
        if a[i].0 != b[i].0 {
            return false;
        }
        i = i + 1;
    }
    proof {
        assert(a@ =~= b@);
    }
    true
}

/// Whether two trees hold the same ids, types, properties and state hashes,
/// node for node.
pub open spec fn same_tree(a: WidgetNode, b: WidgetNode) -> bool
    decreases a,
{
    &&& a.id == b.id
    &&& a.widget_type@ == b.widget_type@
    &&& a.props@ == b.props@
    &&& a.state_hash == b.state_hash
    &&& a.children@.len() == b.children@.len()
    &&& forall|i: int| 0 <= i < a.children@.len() ==> same_tree(#[trigger] a.children@[i], b.children@[i])
}

impl WidgetNode {
    /// A copy of this node and its whole subtree.
    pub fn deep_copy(&self) -> (r: WidgetNode)
        ensures
            same_tree(*self, r),
            node_ids(r.children@) == node_ids(self.children@),
        decreases self,
    {
        let mut children: Vec<WidgetNode> = Vec::new();
        let mut i: usize = 0;
        while i < self.children.len()
            invariant
                i <= self.children@.len(),
                children@.len() == i,
                node_ids(children@) == node_ids(self.children@.subrange(0, i as int)),
                forall|k: int| 0 <= k < i ==> same_tree(#[trigger] self.children@[k], children@[k]),
            decreases self.children@.len() - i,
        {
            proof {
                assert(decreases_to!(self => self.children));
            }
            let c = self.children[i].deep_copy();
            let ghost prev = children@;
            children.push(c);
            proof {
                let sub = self.children@.subrange(0, i + 1);
                let sub0 = self.children@.subrange(0, i as int);
                assert forall|k: int| 0 <= k < i + 1 implies node_ids(children@)[k] == node_ids(sub)[k] by {
                    if k < i {
                        assert(node_ids(prev)[k] == node_ids(sub0)[k]);
                        assert(children@[k] == prev[k]);
                        assert(sub[k] == sub0[k]);
                    }
                }
                assert(node_ids(children@) =~= node_ids(sub));
                assert forall|k: int| 0 <= k < i + 1 implies same_tree(#[trigger] self.children@[k], children@[k]) by {
                    if k < i {
                        assert(children@[k] == prev[k]);
                    }
                }
            }
            i = i + 1;
        }
        proof {
            assert(self.children@.subrange(0, self.children@.len() as int) =~= self.children@);
        }
        let r = WidgetNode {
            id: self.id,
            widget_type: self.widget_type.clone(),
            props: copy_props(&self.props),
            children,
            state_hash: self.state_hash,
        };
        proof {
            assert(r.children@.len() == self.children@.len());
        }
        r
    }
}

/// What a diff says; an addition is described by the id it adds.
pub enum DiffView {
    Updated { id: WidgetId, changed_props: Seq<(Seq<char>, Seq<char>)> },
    Added { id: WidgetId, parent_id: Option<WidgetId> },
    Removed { id: WidgetId },
    Reordered { parent_id: WidgetId, new_order: Seq<WidgetId> },
}

/// The character sequences of a list of property pairs.
pub open spec fn pair_views(props: Seq<(String, String)>) -> Seq<(Seq<char>, Seq<char>)> {
    props.map_values(|p: (String, String)| (p.0@, p.1@))
}

impl View for WidgetDiff {
    type V = DiffView;

    open spec fn view(&self) -> DiffView {
        match self {
            WidgetDiff::Updated { id, changed_props } => DiffView::Updated { id: *id, changed_props: pair_views(changed_props@) },
            WidgetDiff::Added { id, parent_id, .. } => DiffView::Added { id: *id, parent_id: *parent_id },
            WidgetDiff::Removed { id } => DiffView::Removed { id: *id },
            WidgetDiff::Reordered { parent_id, new_order } => DiffView::Reordered { parent_id: *parent_id, new_order: new_order@ },
        }
    }
}

/// The views of a list of diffs.
pub open spec fn diff_views(ds: Seq<WidgetDiff>) -> Seq<DiffView> {
    ds.map_values(|d: WidgetDiff| d@)
}

/// The pairs of `new`, in order, whose key `old` lacks or maps to another value.
pub open spec fn changed_props(old: Seq<(String, String)>, new: Seq<(String, String)>) -> Seq<(Seq<char>, Seq<char>)>
    decreases new.len(),
{
    if new.len() == 0 {
        Seq::empty()
    } else {
        let rest = changed_props(old, new.drop_last());
        if prop_value(old, new.last().0@) != Some(new.last().1@) {
            rest.push((new.last().0@, new.last().1@))
        } else {
            rest
        }
    }
}

/// One update with an empty value for each pair of `old`, in order, whose key
/// `new` lacks.
pub open spec fn removed_updates(old: Seq<(String, String)>, new: Seq<(String, String)>, id: WidgetId) -> Seq<DiffView>
    decreases old.len(),
{
    if old.len() == 0 {
        Seq::empty()
    } else {
        let rest = removed_updates(old.drop_last(), new, id);
        if prop_index(new, old.last().0@).is_none() {
            rest.push(DiffView::Updated { id, changed_props: seq![(old.last().0@, Seq::<char>::empty())] })
        } else {
            rest
        }
    }
}

/// The first position from `b` on of an unmatched node of type `ty`, or -1.
pub open spec fn first_free(news: Seq<WidgetNode>, matched: Seq<bool>, ty: Seq<char>, b: int) -> int
    decreases news.len() - b,
{
    if b < 0 || b >= news.len() {
        -1
    } else if !matched[b] && news[b].widget_type@ == ty {
        b
    } else {
        first_free(news, matched, ty, b + 1)
    }
}

/// Changes between two trees whose roots sit under `parent_id`.
///
/// A root whose id changed is removed and the new root added. Otherwise come,
/// in order: one update with the properties `new` sets differently (if any);
/// one update per property `old` had and `new` lacks, with an empty value; the
/// changes of the children, where each old child is compared with the first
/// unmatched new child of its type or else removed; an addition for each
/// unmatched new child; and, if the child ids changed, their new order.
pub open spec fn diff_spec(old: WidgetNode, new: WidgetNode, parent_id: Option<WidgetId>) -> Seq<DiffView>
    decreases old, 1nat, 0int,
{
    if old.id != new.id {
        seq![DiffView::Removed { id: old.id }, DiffView::Added { id: new.id, parent_id }]
    } else {
        let changed = changed_props(old.props@, new.props@);
        let upd = if changed.len() > 0 {
            seq![DiffView::Updated { id: old.id, changed_props: changed }]
        } else {
            Seq::empty()
        };
        let kids = child_diffs(old, new, 0, Seq::new(new.children@.len(), |i: int| false));
        let reorder = if node_ids(old.children@) != node_ids(new.children@) {
            seq![DiffView::Reordered { parent_id: old.id, new_order: node_ids(new.children@) }]
        } else {
            Seq::empty()
        };
        upd + removed_updates(old.props@, new.props@, old.id) + kids.0 + added_from(new.children@, kids.1, new.id, 0)
            + reorder
    }
}

/// Changes of the old children from position `a` on, given which new children
/// are matched already; also which are matched afterwards.
pub open spec fn child_diffs(old: WidgetNode, new: WidgetNode, a: int, matched: Seq<bool>) -> (Seq<DiffView>, Seq<bool>)
    decreases old, 0nat, old.children@.len() - a,
{
    if a < 0 || a >= old.children@.len() {
        (Seq::empty(), matched)
    } else {
        let child = old.children@[a];
        let b = first_free(new.children@, matched, child.widget_type@, 0);
        let here = if b >= 0 {
            diff_spec(child, new.children@[b], Some(old.id))
        } else {
            seq![DiffView::Removed { id: child.id }]
        };
        let m2 = if b >= 0 { matched.update(b, true) } else { matched };
        let rest = child_diffs(old, new, a + 1, m2);
        (here + rest.0, rest.1)
    }
}

/// An addition under `parent` for each unmatched node from position `c` on.
pub open spec fn added_from(news: Seq<WidgetNode>, matched: Seq<bool>, parent: WidgetId, c: int) -> Seq<DiffView>
    decreases news.len() - c,
{
    if c < 0 || c >= news.len() {
        Seq::empty()
    } else {
        let here = if c < matched.len() && !matched[c] {
            seq![DiffView::Added { id: news[c].id, parent_id: Some(parent) }]
        } else {
            Seq::empty()
        };
        here + added_from(news, matched, parent, c + 1)
    }
}

fn changed_list(old: &Vec<(String, String)>, new: &Vec<(String, String)>) -> (r: Vec<(String, String)>)
    ensures
        pair_views(r@) == changed_props(old@, new@),
{
    let mut changed: Vec<(String, String)> = Vec::new();
    let mut i: usize = 0;
    while i < new.len()
        invariant
            i <= new@.len(),
            pair_views(changed@) == changed_props(old@, new@.subrange(0, i as int)),
        decreases new@.len() - i,
    {
        let key = &new[i].0;
        let value = &new[i].1;
        let same = prop_is(old, key, value);
        let ghost before = changed@;
        proof {
            let sub = new@.subrange(0, i + 1);
            assert(sub.drop_last() =~= new@.subrange(0, i as int));
            assert(sub.last() == new@[i as int]);
        }
        if !same {
            changed.push((key.clone(), value.clone()));
            proof {
                assert(pair_views(changed@) =~= pair_views(before).push((key@, value@)));
            }
        }
        i = i + 1;
    }
    proof {
        assert(new@.subrange(0, new@.len() as int) =~= new@);
    }
    changed
}

fn removed_list(old: &Vec<(String, String)>, new: &Vec<(String, String)>, id: WidgetId) -> (r: Vec<WidgetDiff>)
    ensures
        diff_views(r@) == removed_updates(old@, new@, id),
{
    let mut out: Vec<WidgetDiff> = Vec::new();
    let mut j: usize = 0;
    while j < old.len()
        invariant
            j <= old@.len(),
            diff_views(out@) == removed_updates(old@.subrange(0, j as int), new@, id),
        decreases old@.len() - j,
    {
        let key = &old[j].0;
        let ghost before = out@;
        proof {
            let sub = old@.subrange(0, j + 1);
            assert(sub.drop_last() =~= old@.subrange(0, j as int));
            assert(sub.last() == old@[j as int]);
            lemma_prop_value(new@, key@);
        }
        if find_prop(new, key).is_none() {
            let mut m: Vec<(String, String)> = Vec::new();
            m.push((key.clone(), String::new()));
            proof {
                assert(pair_views(m@) =~= seq![(key@, Seq::<char>::empty())]);
            }
            out.push(WidgetDiff::Updated { id, changed_props: m });
            proof {
                assert(diff_views(out@) =~= diff_views(before).push(out@.last()@));
                assert(prop_index(new@, key@).is_none());
            }
        } else {
            proof {
                assert(prop_index(new@, key@).is_some());
            }
        }
        j = j + 1;
    }
    proof {
        assert(old@.subrange(0, old@.len() as int) =~= old@);
    }
    out
}

fn added_list(news: &Vec<WidgetNode>, matched: &Vec<bool>, parent: WidgetId) -> (r: Vec<WidgetDiff>)
    requires
        matched@.len() == news@.len(),
    ensures
        diff_views(r@) == added_from(news@, matched@, parent, 0),
{
    let mut out: Vec<WidgetDiff> = Vec::new();
    let mut c: usize = 0;
    while c < news.len()
        invariant
            c <= news@.len(),
            matched@.len() == news@.len(),
            diff_views(out@) + added_from(news@, matched@, parent, c as int) == added_from(news@, matched@, parent, 0),
        decreases news@.len() - c,
    {
        let ghost before = out@;
        if !matched[c] {
            let child = &news[c];
            out.push(WidgetDiff::Added { id: child.id, widget: child.deep_copy(), parent_id: Some(parent) });
            proof {
                assert(diff_views(out@) =~= diff_views(before).push(DiffView::Added { id: child.id, parent_id: Some(parent) }));
            }
        }
        proof {
            assert(diff_views(out@) + added_from(news@, matched@, parent, c + 1) =~= diff_views(before) + added_from(
                news@,
                matched@,
                parent,
                c as int,
            ));
        }
        c = c + 1;
    }
    proof {
        assert(diff_views(out@) =~= diff_views(out@) + added_from(news@, matched@, parent, c as int));
    }
    out
}

fn first_free_exec(news: &Vec<WidgetNode>, matched: &Vec<bool>, ty: &String) -> (r: Option<usize>)
    requires
        matched@.len() == news@.len(),
    ensures
        r matches Some(b) ==> b == first_free(news@, matched@, ty@, 0) && b < news@.len(),
        r.is_none() ==> first_free(news@, matched@, ty@, 0) == -1,
{
    let mut b: usize = 0;
    while b < news.len()
        invariant
            b <= news@.len(),
            matched@.len() == news@.len(),
            first_free(news@, matched@, ty@, 0) == first_free(news@, matched@, ty@, b as int),
        decreases news@.len() - b,
    {
        if !matched[b] && news[b].widget_type == *ty {
            return Some(b);
        }
        b = b + 1;
    }
    None
}

fn all_false(n: usize) -> (r: Vec<bool>)
    ensures
        r@ == Seq::new(n as nat, |i: int| false),
{
    let mut v: Vec<bool> = Vec::new();
    let mut z: usize = 0;
    while z < n
        invariant
            z <= n,
            v@ == Seq::new(z as nat, |i: int| false),
        decreases n - z,
    {
        v.push(false);
        proof {
            assert(v@ =~= Seq::new((z + 1) as nat, |i: int| false));
        }
        z = z + 1;
    }
    v
}

/// Changes between two trees whose roots sit under `parent_id` (see `diff_spec`).
pub fn tree_diff(old: &WidgetNode, new: &WidgetNode, parent_id: Option<WidgetId>) -> (r: Vec<WidgetDiff>)
    ensures
        diff_views(r@) == diff_spec(*old, *new, parent_id),
    decreases old, 1nat, 0int,
{
    let mut diffs: Vec<WidgetDiff> = Vec::new();
    if old.id.0 != new.id.0 {
        diffs.push(WidgetDiff::Removed { id: old.id });
        diffs.push(WidgetDiff::Added { id: new.id, widget: new.deep_copy(), parent_id });
        proof {
            assert(diff_views(diffs@) =~= diff_spec(*old, *new, parent_id));
        }
        return diffs;
    }
    let changed = changed_list(&old.props, &new.props);
    if changed.len() > 0 {
        diffs.push(WidgetDiff::Updated { id: old.id, changed_props: changed });
    }
    let mut removed = removed_list(&old.props, &new.props, old.id);
    diffs.append(&mut removed);
    let init = all_false(new.children.len());
    let (mut kids, matched) = children_diff(old, new, 0, init);
    diffs.append(&mut kids);
    let mut added = added_list(&new.children, &matched, new.id);
    diffs.append(&mut added);
    let old_order = child_ids(&old.children);
    let new_order = child_ids(&new.children);
    let reordered = !same_ids(&old_order, &new_order);
    if reordered {
        diffs.push(WidgetDiff::Reordered { parent_id: old.id, new_order });
    }
    proof {
        assert(diff_views(diffs@) =~= diff_spec(*old, *new, parent_id));
    }
    diffs
}

/// Changes of the old children from position `a` on (see `child_diffs`).
fn children_diff(old: &WidgetNode, new: &WidgetNode, a: usize, matched: Vec<bool>) -> (r: (Vec<WidgetDiff>, Vec<bool>))
    requires
        a <= old.children@.len(),
        matched@.len() == new.children@.len(),
    ensures
        (diff_views(r.0@), r.1@) == child_diffs(*old, *new, a as int, matched@),
        r.1@.len() == new.children@.len(),
    decreases old, 0nat, old.children@.len() - a,
{
    if a >= old.children.len() {
        return (Vec::new(), matched);
    }
    let child = &old.children[a];
    let ghost m0 = matched@;
    let mut matched = matched;
    let mut here: Vec<WidgetDiff> = Vec::new();
    match first_free_exec(&new.children, &matched, &child.widget_type) {
        Some(b) => {
            matched.set(b, true);
            proof {
                assert(decreases_to!(old => old.children));
            }
            here = tree_diff(child, &new.children[b], Some(old.id));
        },
        None => {
            here.push(WidgetDiff::Removed { id: child.id });
            proof {
                assert(diff_views(here@) =~= seq![DiffView::Removed { id: child.id }]);
            }
        },
    }
    let (mut rest, m3) = children_diff(old, new, a + 1, matched);
    here.append(&mut rest);
    proof {
        assert(diff_views(here@) =~= child_diffs(*old, *new, a as int, m0).0);
    }
    (here, m3)
}

proof fn lemma_prop_value(props: Seq<(String, String)>, key: Seq<char>)
    ensures
        (forall|k: int| 0 <= k < props.len() ==> props[k].0@ != key) ==> prop_value(props, key).is_none(),
        forall|j: int|
            0 <= j < props.len() && props[j].0@ == key && (forall|k: int| 0 <= k < j ==> props[k].0@ != key) ==> prop_value(props, key)
                == Some(props[j].1@),
{
    assert forall|j: int|
        0 <= j < props.len() && props[j].0@ == key && (forall|k: int| 0 <= k < j ==> props[k].0@ != key) implies prop_value(props, key)
            == Some(props[j].1@) by {
        let c = choose|i: int| 0 <= i < props.len() && props[i].0@ == key && forall|m: int| 0 <= m < i ==> props[m].0@ != key;
        if c < j {
            assert(props[c].0@ != key);
        }
        if j < c {
            assert(props[j].0@ != key);
        }
    }
}

/// Keeps the current widget tree, saved states and queued diffs for hot reload.
pub struct HotReloadManager {
    widget_tree: Option<WidgetNode>,
    state_snapshots: Vec<StateSnapshot>,
    pending_diffs: Vec<WidgetDiff>,
    enabled: bool,
}

impl HotReloadManager {
    pub closed spec fn spec_tree(&self) -> Option<WidgetNode> {
        self.widget_tree
    }

    pub closed spec fn spec_snapshots(&self) -> Seq<StateSnapshot> {
        self.state_snapshots@
    }

    pub closed spec fn spec_pending(&self) -> Seq<WidgetDiff> {
        self.pending_diffs@
    }

    pub closed spec fn spec_enabled(&self) -> bool {
        self.enabled
    }

    /// A manager without tree, snapshots or pending diffs.
    pub fn new(enabled: bool) -> (r: HotReloadManager)
        ensures
            r.spec_tree().is_none(),
            r.spec_snapshots().len() == 0,
            r.spec_pending().len() == 0,
            r.spec_enabled() == enabled,
    {
        HotReloadManager { widget_tree: None, state_snapshots: Vec::new(), pending_diffs: Vec::new(), enabled }
    }

    /// Takes a snapshot of the current state, keeps a copy, and returns it.
    pub fn save_state(&mut self) -> (r: StateSnapshot)
        ensures
            final(self).spec_snapshots().len() == old(self).spec_snapshots().len() + 1,
            final(self).spec_snapshots().drop_last() == old(self).spec_snapshots(),
            final(self).spec_snapshots().last().signals@ == r.signals@,
            final(self).spec_snapshots().last().timestamp == r.timestamp,
            r.signals@ == Map::<String, Vec<u8>>::empty(),
            r.derived_values@ == Map::<String, Vec<u8>>::empty(),
            r.dynamic_state@ == Map::<String, Vec<u8>>::empty(),
            final(self).spec_tree() == old(self).spec_tree(),
            final(self).spec_pending() == old(self).spec_pending(),
            final(self).spec_enabled() == old(self).spec_enabled(),
    {
        let snapshot = StateSnapshot::new();
        self.state_snapshots.push(snapshot.duplicate());
        proof {
            assert(self.state_snapshots@.drop_last() =~= old(self).state_snapshots@);
        }
        snapshot
    }

    /// The most recent snapshot, removed from the stack.
    pub fn restore_state(&mut self) -> (r: Option<StateSnapshot>)
        ensures
            old(self).spec_snapshots().len() == 0 ==> r.is_none() && final(self).spec_snapshots().len() == 0,
            old(self).spec_snapshots().len() > 0 ==> r == Some(old(self).spec_snapshots().last())
                && final(self).spec_snapshots() == old(self).spec_snapshots().drop_last(),
            final(self).spec_tree() == old(self).spec_tree(),
            final(self).spec_pending() == old(self).spec_pending(),
            final(self).spec_enabled() == old(self).spec_enabled(),
    {
        self.state_snapshots.pop()
    }

    pub fn clear_snapshots(&mut self)
        ensures
            final(self).spec_snapshots().len() == 0,
            final(self).spec_tree() == old(self).spec_tree(),
            final(self).spec_pending() == old(self).spec_pending(),
            final(self).spec_enabled() == old(self).spec_enabled(),
    {
        self.state_snapshots.clear();
    }

    pub fn set_widget_tree(&mut self, tree: WidgetNode)
        ensures
            final(self).spec_tree() == Some(tree),
            final(self).spec_snapshots() == old(self).spec_snapshots(),
            final(self).spec_pending() == old(self).spec_pending(),
            final(self).spec_enabled() == old(self).spec_enabled(),
    {
        self.widget_tree = Some(tree);
    }

    /// A copy of the current tree, if one is set.
    pub fn get_widget_tree(&self) -> (r: Option<WidgetNode>)
        ensures
            r.is_some() == self.spec_tree().is_some(),
            r matches Some(t) ==> same_tree(self.spec_tree().unwrap(), t),
    {
        match &self.widget_tree {
            Some(t) => Some(t.deep_copy()),
            None => None,
        }
    }

    /// Changes from the current tree to `new_tree`: without a current tree, the
    /// whole new tree is added at the root; otherwise `tree_diff` of the two.
    pub fn compute_diff(&self, new_tree: &WidgetNode) -> (r: Vec<WidgetDiff>)
        ensures
            self.spec_tree().is_none() ==> diff_views(r@) == seq![DiffView::Added { id: new_tree.id, parent_id: None }],
            self.spec_tree() matches Some(old) ==> diff_views(r@) == diff_spec(old, *new_tree, None),
    {
        match &self.widget_tree {
            Some(old) => tree_diff(old, new_tree, None),
            None => {
                let mut v: Vec<WidgetDiff> = Vec::new();
                v.push(WidgetDiff::Added { id: new_tree.id, widget: new_tree.deep_copy(), parent_id: None });
                proof {
                    assert(diff_views(v@) =~= seq![DiffView::Added { id: new_tree.id, parent_id: None }]);
                }
                v
            },
        }
    }

    /// Appends `diffs` to the queue.
    pub fn queue_diffs(&mut self, diffs: Vec<WidgetDiff>)
        ensures
            final(self).spec_pending() == old(self).spec_pending() + diffs@,
            final(self).spec_tree() == old(self).spec_tree(),
            final(self).spec_snapshots() == old(self).spec_snapshots(),
            final(self).spec_enabled() == old(self).spec_enabled(),
    {
        let mut d = diffs;
        self.pending_diffs.append(&mut d);
    }

    /// Hands out the queued diffs, in order, and empties the queue.
    pub fn take_pending_diffs(&mut self) -> (r: Vec<WidgetDiff>)
        ensures
            r@ == old(self).spec_pending(),
            final(self).spec_pending().len() == 0,
            final(self).spec_tree() == old(self).spec_tree(),
            final(self).spec_snapshots() == old(self).spec_snapshots(),
            final(self).spec_enabled() == old(self).spec_enabled(),
    {
        let mut out: Vec<WidgetDiff> = Vec::new();
        std::mem::swap(&mut out, &mut self.pending_diffs);
        out
    }

    pub fn is_enabled(&self) -> (r: bool)
        ensures
            r == self.spec_enabled(),
    {
        self.enabled
    }
}

} // verus!
