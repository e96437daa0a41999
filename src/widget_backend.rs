use vstd::prelude::*;

verus! {

/// Why a change to the widget scene was refused.
#[derive(Clone, Copy, Debug, PartialEq, Eq, Structural)]
pub enum BackendError {
    /// A widget with this id exists already.
    AlreadyExists(u32),
    /// No widget has this id.
    NotFound(u32),
    /// Widget `id` names a parent that does not exist.
    MissingParent { id: u32, parent: u32 },
    /// Widget `id` lists a child that does not exist.
    MissingChild { id: u32, child: u32 },
}

/// Property map that a list of `(key, value)` pairs describes; a later pair
/// overrides an earlier one with the same key.
pub open spec fn props_map(props: Seq<(Seq<char>, Seq<char>)>) -> Map<Seq<char>, Seq<char>>
    decreases props.len(),
{
    if props.len() == 0 {
        Map::empty()
    } else {
        props_map(props.drop_last()).insert(props.last().0, props.last().1)
    }
}

/// `s` without any occurrence of `x`, order kept.
pub open spec fn remove_all(s: Seq<u32>, x: u32) -> Seq<u32>
    decreases s.len(),
{
    if s.len() == 0 {
        s
    } else if s.last() == x {
        remove_all(s.drop_last(), x)
    } else {
        remove_all(s.drop_last(), x).push(s.last())
    }
}

/// A widget of the scene: its type, properties, and links.
#[derive(Debug)]
pub struct WidgetInfo {
    pub id: u32,
    pub widget_type: String,
    properties: Vec<(String, String)>,
    pub children: Vec<u32>,
    pub parent_id: Option<u32>,
}

/// The mathematical state of a widget.
pub struct WidgetView {
    pub id: u32,
    pub widget_type: Seq<char>,
    pub properties: Map<Seq<char>, Seq<char>>,
    pub children: Seq<u32>,
    pub parent_id: Option<u32>,
}

impl WidgetInfo {
    pub closed spec fn prop_pairs(&self) -> Seq<(Seq<char>, Seq<char>)> {
        self.properties@.map_values(|p: (String, String)| (p.0@, p.1@))
    }

    /// Property keys are unique.
    pub open spec fn wf(&self) -> bool {
        forall|a: int, b: int|
            0 <= a < self.prop_pairs().len() && 0 <= b < self.prop_pairs().len() && #[trigger] self.prop_pairs()[a].0
                == #[trigger] self.prop_pairs()[b].0 ==> a == b
    }

    /// Value of property `key`, if set.
    pub fn property(&self, key: &str) -> (r: Option<String>)
        requires
            self.wf(),
        ensures
            self@.properties.contains_key(key@) ==> (r matches Some(v) && v@ == self@.properties[key@]),
            !self@.properties.contains_key(key@) ==> r.is_none(),
    {
        let k = key.to_owned();
        let mut i: usize = 0;
        while i < self.properties.len()
            invariant
                self.wf(),
                k@ == key@,
                i <= self.properties@.len(),
                forall|j: int| 0 <= j < i ==> #[trigger] self.prop_pairs()[j].0 != k@,
            decreases self.properties@.len() - i,
        {
            if self.properties[i].0 == k {
                proof {
                    assert(self.prop_pairs()[i as int] == (self.properties@[i as int].0@, self.properties@[i as int].1@));
                    lemma_props_map_at(self.prop_pairs(), i as int);
                }
                return Some(self.properties[i].1.clone());
            }
            proof {
                assert(self.prop_pairs()[i as int] == (self.properties@[i as int].0@, self.properties@[i as int].1@));
            }
            i = i + 1;
        }
        proof {
            lemma_props_map_absent(self.prop_pairs(), k@);
        }
        None
    }
}

impl WidgetInfo {
    /// A widget of `widget_type` without properties, children or parent.
    pub fn new(id: u32, widget_type: &str) -> (r: WidgetInfo)
        ensures
            r.wf(),
            r@ == (WidgetView {
                id,
                widget_type: widget_type@,
                properties: Map::empty(),
                children: Seq::empty(),
                parent_id: None,
            }),
    {
        let r = WidgetInfo { id, widget_type: widget_type.to_owned(), properties: Vec::new(), children: Vec::new(), parent_id: None };
        proof {
            assert(r.prop_pairs() =~= Seq::empty());
            assert(r@.children =~= Seq::<u32>::empty());
        }
        r
    }

    /// Sets property `key` to `value`.
    pub fn set_property(&mut self, key: String, value: String)
        requires
            old(self).wf(),
        ensures
            final(self).wf(),
            final(self)@ == (WidgetView { properties: old(self)@.properties.insert(key@, value@), ..old(self)@ }),
    {
        let ghost pairs = self.prop_pairs();
        let mut i: usize = 0;
        while i < self.properties.len()
            invariant
                self.wf(),
                pairs == self.prop_pairs(),
                pairs == old(self).prop_pairs(),
                self.id == old(self).id,
                self.widget_type == old(self).widget_type,
                self.children == old(self).children,
                self.parent_id == old(self).parent_id,
                i <= self.properties@.len(),
                forall|j: int| 0 <= j < i ==> #[trigger] self.prop_pairs()[j].0 != key@,
            decreases self.properties@.len() - i,
        {
            proof {
                assert(self.prop_pairs()[i as int] == (self.properties@[i as int].0@, self.properties@[i as int].1@));
            }
            if self.properties[i].0 == key {
                let ghost kv = key@;
                let ghost vv = value@;
                self.properties.set(i, (key, value));
                proof {
                    assert(self.prop_pairs() =~= pairs.update(i as int, (pairs[i as int].0, vv)));
                    lemma_props_map_update(pairs, i as int, vv);
                    assert forall|a: int, b: int|
                        0 <= a < self.prop_pairs().len() && 0 <= b < self.prop_pairs().len() && #[trigger] self.prop_pairs()[a].0
                            == #[trigger] self.prop_pairs()[b].0 implies a == b by {
                        assert(self.prop_pairs()[a].0 == pairs[a].0);
                        assert(self.prop_pairs()[b].0 == pairs[b].0);
                    }
                }
                return;
            }
            i = i + 1;
        }
        let ghost kv = key@;
        let ghost vv = value@;
        self.properties.push((key, value));
        proof {
            assert(self.prop_pairs() =~= pairs.push((kv, vv)));
            assert(self.prop_pairs().drop_last() =~= pairs);
            assert forall|a: int, b: int|
                0 <= a < self.prop_pairs().len() && 0 <= b < self.prop_pairs().len() && #[trigger] self.prop_pairs()[a].0
                    == #[trigger] self.prop_pairs()[b].0 implies a == b by {
                if a < pairs.len() {
                    assert(self.prop_pairs()[a] == pairs[a]);
                }
                if b < pairs.len() {
                    assert(self.prop_pairs()[b] == pairs[b]);
                }
            }
        }
    }

    /// Sets each `(key, value)` of `props`, in order.
    pub fn set_properties(&mut self, props: &Vec<(String, String)>)
        requires
            old(self).wf(),
        ensures
            final(self).wf(),
            final(self)@ == (WidgetView {
                properties: apply_props(old(self)@.properties, props@.map_values(|p: (String, String)| (p.0@, p.1@))),
                ..old(self)@
            }),
    {
        let ghost pv = props@.map_values(|p: (String, String)| (p.0@, p.1@));
        let mut i: usize = 0;
        while i < props.len()
            invariant
                self.wf(),
                i <= props@.len(),
                pv == props@.map_values(|p: (String, String)| (p.0@, p.1@)),
                self@ == (WidgetView { properties: apply_props(old(self)@.properties, pv.subrange(0, i as int)), ..old(self)@ }),
            decreases props@.len() - i,
        {
            let k = props[i].0.clone();
            let v = props[i].1.clone();
            self.set_property(k, v);
            proof {
                assert(pv.subrange(0, i + 1).drop_last() =~= pv.subrange(0, i as int));
                assert(pv.subrange(0, i + 1).last() == pv[i as int]);
            }
            i = i + 1;
        }
        proof {
            assert(pv.subrange(0, props@.len() as int) =~= pv);
        }
    }

    /// Removes every occurrence of `child` from the children.
    pub fn drop_child(&mut self, child: u32)
        requires
            old(self).wf(),
        ensures
            final(self).wf(),
            final(self)@ == (WidgetView { children: remove_all(old(self)@.children, child), ..old(self)@ }),
    {
        let ghost orig = self.children@;
        let mut kept: Vec<u32> = Vec::new();
        let mut i: usize = 0;
        while i < self.children.len()
            invariant
                orig == self.children@,
                i <= orig.len(),
                kept@ == remove_all(orig.subrange(0, i as int), child),
            decreases orig.len() - i,
        {
            let c = self.children[i];
            proof {
                assert(orig.subrange(0, i + 1).drop_last() =~= orig.subrange(0, i as int));
            }
            if c != child {
                kept.push(c);
            }
            i = i + 1;
        }
        proof {
            assert(orig.subrange(0, orig.len() as int) =~= orig);
        }
        self.children = kept;
    }
}

impl View for WidgetInfo {
    type V = WidgetView;

    closed spec fn view(&self) -> WidgetView {
        WidgetView {
            id: self.id,
            widget_type: self.widget_type@,
            properties: props_map(self.prop_pairs()),
            children: self.children@,
            parent_id: self.parent_id,
        }
    }
}

proof fn lemma_props_map_absent(props: Seq<(Seq<char>, Seq<char>)>, k: Seq<char>)
    requires
        forall|j: int| 0 <= j < props.len() ==> #[trigger] props[j].0 != k,
    ensures
        !props_map(props).contains_key(k),
    decreases props.len(),
{
    if props.len() > 0 {
        let init = props.drop_last();
        assert forall|j: int| 0 <= j < init.len() implies #[trigger] init[j].0 != k by {
            assert(init[j] == props[j]);
        }
        lemma_props_map_absent(init, k);
    }
}

proof fn lemma_props_map_at(props: Seq<(Seq<char>, Seq<char>)>, i: int)
    requires
        0 <= i < props.len(),
        forall|a: int, b: int| 0 <= a < props.len() && 0 <= b < props.len() && #[trigger] props[a].0 == #[trigger] props[b].0 ==> a == b,
    ensures
        props_map(props).contains_key(props[i].0),
        props_map(props)[props[i].0] == props[i].1,
    decreases props.len(),
{
    let init = props.drop_last();
    if i < props.len() - 1 {
        assert forall|a: int, b: int| 0 <= a < init.len() && 0 <= b < init.len() && #[trigger] init[a].0 == #[trigger] init[b].0 implies a == b by {
            assert(init[a] == props[a] && init[b] == props[b]);
        }
        assert(init[i] == props[i]);
        lemma_props_map_at(init, i);
        assert(props.last().0 != props[i].0);
    }
}

/// Replacing the pair at `i` by `(k, v)`, where `k` is the key at `i` and keys
/// are unique, sets `k` to `v` in the property map.
proof fn lemma_props_map_update(props: Seq<(Seq<char>, Seq<char>)>, i: int, v: Seq<char>)
    requires
        0 <= i < props.len(),
        forall|a: int, b: int| 0 <= a < props.len() && 0 <= b < props.len() && #[trigger] props[a].0 == #[trigger] props[b].0 ==> a == b,
    ensures
        props_map(props.update(i, (props[i].0, v))) == props_map(props).insert(props[i].0, v),
    decreases props.len(),
{
    let k = props[i].0;
    let upd = props.update(i, (k, v));
    let init = props.drop_last();
    if i == props.len() - 1 {
        assert(upd.drop_last() =~= init);
        assert(props_map(init).insert(k, v) =~= props_map(init).insert(k, props.last().1).insert(k, v));
    } else {
        assert forall|a: int, b: int| 0 <= a < init.len() && 0 <= b < init.len() && #[trigger] init[a].0 == #[trigger] init[b].0 implies a == b by {
            assert(init[a] == props[a] && init[b] == props[b]);
        }
        lemma_props_map_update(init, i, v);
        assert(upd.drop_last() =~= init.update(i, (k, v)));
        assert(props.last().0 != k);
        assert(props_map(upd) =~= props_map(props).insert(k, v));
    }
}

/// Sets each `(key, value)` of `props` in `map`, in order.
pub open spec fn apply_props(map: Map<Seq<char>, Seq<char>>, props: Seq<(Seq<char>, Seq<char>)>) -> Map<Seq<char>, Seq<char>>
    decreases props.len(),
{
    if props.len() == 0 {
        map
    } else {
        apply_props(map, props.drop_last()).insert(props.last().0, props.last().1)
    }
}

/// Counts of the widget scene.
#[derive(Clone, Copy, Debug, PartialEq, Eq, Structural)]
pub struct WidgetRegistryStats {
    pub total_widgets: usize,
    pub root_id: Option<u32>,
    pub frame_dirty: bool,
}

/// Tracks the widget scene graph and whether a new frame must be drawn.
#[derive(Debug)]
pub struct WidgetBackend {
    widgets: Vec<WidgetInfo>,
    root_id: Option<u32>,
    frame_dirty: bool,
}

/// The mathematical state of a widget backend.
pub struct BackendView {
    pub widgets: Seq<WidgetView>,
    pub root_id: Option<u32>,
    pub frame_dirty: bool,
}

impl BackendView {
    pub open spec fn has(&self, id: u32) -> bool {
        exists|i: int| 0 <= i < self.widgets.len() && self.widgets[i].id == id
    }

    /// Every parent and every child that a widget names exists.
    pub open spec fn hierarchy_valid(&self) -> bool {
        forall|i: int| 0 <= i < self.widgets.len() ==> {
            &&& (#[trigger] self.widgets[i]).parent_id matches Some(p) ==> self.has(p)
            &&& forall|c: int| 0 <= c < self.widgets[i].children.len() ==> self.has(#[trigger] self.widgets[i].children[c])
        }
    }
}

impl View for WidgetBackend {
    type V = BackendView;

    closed spec fn view(&self) -> BackendView {
        BackendView { widgets: self.widgets@.map_values(|w: WidgetInfo| w@), root_id: self.root_id, frame_dirty: self.frame_dirty }
    }
}

impl WidgetBackend {
    /// Widget ids are unique and every widget is well formed.
    pub open spec fn wf(&self) -> bool {
        &&& forall|a: int, b: int|
            0 <= a < self@.widgets.len() && 0 <= b < self@.widgets.len() && #[trigger] self@.widgets[a].id
                == #[trigger] self@.widgets[b].id ==> a == b
        &&& self.widgets_wf()
    }

    pub closed spec fn widgets_wf(&self) -> bool {
        forall|i: int| 0 <= i < self.widgets@.len() ==> (#[trigger] self.widgets@[i]).wf()
    }

    /// An empty scene, with nothing to redraw.
    pub fn new() -> (r: WidgetBackend)
        ensures
            r.wf(),
            r@.widgets.len() == 0,
            r@.root_id.is_none(),
            !r@.frame_dirty,
    {
        WidgetBackend { widgets: Vec::new(), root_id: None, frame_dirty: false }
    }

    pub fn stats(&self) -> (r: WidgetRegistryStats)
        ensures
            r.total_widgets == self@.widgets.len(),
            r.root_id == self@.root_id,
            r.frame_dirty == self@.frame_dirty,
    {
        WidgetRegistryStats { total_widgets: self.widgets.len(), root_id: self.root_id, frame_dirty: self.frame_dirty }
    }

    fn index_of(&self, id: u32) -> (r: Option<usize>)
        ensures
            r matches Some(i) ==> i < self@.widgets.len() && self@.widgets[i as int].id == id,
            r.is_none() ==> !self@.has(id),
    {
        let mut i: usize = 0;
        while i < self.widgets.len()
            invariant
                i <= self@.widgets.len(),
                forall|j: int| 0 <= j < i ==> #[trigger] self@.widgets[j].id != id,
            decreases self@.widgets.len() - i,
        {
            if self.widgets[i].id == id {
                return Some(i);
            }
            i = i + 1;
        }
        None
    }

    /// Whether a widget with this id exists.
    pub fn has_widget(&self, id: u32) -> (r: bool)
        ensures
            r == self@.has(id),
    {
        self.index_of(id).is_some()
    }

    /// The widget with this id, if any.
    pub fn get_widget(&self, id: u32) -> (r: Option<&WidgetInfo>)
        requires
            self.wf(),
        ensures
            r.is_some() == self@.has(id),
            r matches Some(w) ==> w@.id == id && exists|i: int| 0 <= i < self@.widgets.len() && self@.widgets[i] == w@,
    {
        match self.index_of(id) {
            Some(i) => Some(&self.widgets[i]),
            None => None,
        }
    }

    /// Marks the frame as needing a redraw.
    pub fn mark_frame_dirty(&mut self)
        ensures
            final(self)@.widgets == old(self)@.widgets,
            final(self)@.root_id == old(self)@.root_id,
            final(self)@.frame_dirty,
    {
        self.frame_dirty = true;
    }

    /// Clears the redraw flag once a frame has been drawn.
    pub fn clear_frame_dirty(&mut self)
        ensures
            final(self)@.widgets == old(self)@.widgets,
            final(self)@.root_id == old(self)@.root_id,
            !final(self)@.frame_dirty,
    {
        self.frame_dirty = false;
    }

    pub fn is_frame_dirty(&self) -> (r: bool)
        ensures
            r == self@.frame_dirty,
    {
        self.frame_dirty
    }

    /// Ids of all widgets, in order of creation.
    pub fn all_widgets(&self) -> (r: Vec<u32>)
        ensures
            r@.len() == self@.widgets.len(),
            forall|i: int| 0 <= i < r@.len() ==> #[trigger] r@[i] == self@.widgets[i].id,
    {
        let mut out: Vec<u32> = Vec::new();
        let mut i: usize = 0;
        while i < self.widgets.len()
            invariant
                i <= self@.widgets.len(),
                out@.len() == i,
                forall|k: int| 0 <= k < i ==> #[trigger] out@[k] == self@.widgets[k].id,
            decreases self@.widgets.len() - i,
        {
            out.push(self.widgets[i].id);
            i = i + 1;
        }
        out
    }

    /// Checks that every parent and child a widget names exists; the first widget
    /// (in order of creation) that names a missing one is reported, its parent
    /// before its children.
    pub fn validate_hierarchy(&self) -> (r: Result<(), BackendError>)
        ensures
            r.is_ok() == self@.hierarchy_valid(),
    {
        let mut i: usize = 0;
        while i < self.widgets.len()
            invariant
                i <= self@.widgets.len(),
                forall|j: int| 0 <= j < i ==> {
                    &&& (#[trigger] self@.widgets[j]).parent_id matches Some(p) ==> self@.has(p)
                    &&& forall|c: int| 0 <= c < self@.widgets[j].children.len() ==> self@.has(#[trigger] self@.widgets[j].children[c])
                },
            decreases self@.widgets.len() - i,
        {
            let w = &self.widgets[i];
            if let Some(p) = w.parent_id {
                if !self.has_widget(p) {
                    return Err(BackendError::MissingParent { id: w.id, parent: p });
                }
            }
            let mut c: usize = 0;
            while c < w.children.len()
                invariant
                    w == self.widgets@[i as int],
                    i < self@.widgets.len(),
                    c <= w.children@.len(),
                    forall|k: int| 0 <= k < c ==> self@.has(#[trigger] self@.widgets[i as int].children[k]),
                decreases w.children@.len() - c,
            {
                let child = w.children[c];
                if !self.has_widget(child) {
                    proof {
                        assert(self@.widgets[i as int].children[c as int] == child);
                    }
                    return Err(BackendError::MissingChild { id: w.id, child });
                }
                c = c + 1;
            }
            i = i + 1;
        }
        Ok(())
    }

    /// Adds a widget of `widget_type` without properties or links, and marks the
    /// frame dirty; an id that exists already is refused and nothing changes.
    pub fn create_widget(&mut self, id: u32, widget_type: &str) -> (r: Result<(), BackendError>)
        requires
            old(self).wf(),
        ensures
            final(self).wf(),
            old(self)@.has(id) ==> r == Err::<(), BackendError>(BackendError::AlreadyExists(id)) && final(self)@ == old(self)@,
            !old(self)@.has(id) ==> r.is_ok() && final(self)@ == (BackendView {
                widgets: old(self)@.widgets.push(WidgetView {
                    id,
                    widget_type: widget_type@,
                    properties: Map::empty(),
                    children: Seq::empty(),
                    parent_id: None,
                }),
                root_id: old(self)@.root_id,
                frame_dirty: true,
            }),
    {
        if self.has_widget(id) {
            return Err(BackendError::AlreadyExists(id));
        }
        let w = WidgetInfo::new(id, widget_type);
        let ghost before = self@;
        self.widgets.push(w);
        self.frame_dirty = true;
        proof {
            assert(self@.widgets =~= before.widgets.push(w@));
            assert forall|a: int, b: int|
                0 <= a < self@.widgets.len() && 0 <= b < self@.widgets.len() && #[trigger] self@.widgets[a].id
                    == #[trigger] self@.widgets[b].id implies a == b by {
                if a < before.widgets.len() {
                    assert(self@.widgets[a] == before.widgets[a]);
                }
                if b < before.widgets.len() {
                    assert(self@.widgets[b] == before.widgets[b]);
                }
            }
            assert forall|i: int| 0 <= i < self.widgets@.len() implies (#[trigger] self.widgets@[i]).wf() by {
                if i < before.widgets.len() {
                    assert(self.widgets@[i] == old(self).widgets@[i]);
                }
            }
        }
        Ok(())
    }

    /// Sets each `(key, value)` of `props` on widget `id`, in order, and marks the
    /// frame dirty; an unknown id is refused and nothing changes.
    pub fn update_widget_properties(&mut self, id: u32, props: &Vec<(String, String)>) -> (r: Result<(), BackendError>)
        requires
            old(self).wf(),
        ensures
            final(self).wf(),
            !old(self)@.has(id) ==> r == Err::<(), BackendError>(BackendError::NotFound(id)) && final(self)@ == old(self)@,
            old(self)@.has(id) ==> r.is_ok() && final(self)@.frame_dirty && final(self)@.root_id == old(self)@.root_id
                && final(self)@.widgets.len() == old(self)@.widgets.len()
                && forall|i: int| 0 <= i < old(self)@.widgets.len() ==> #[trigger] final(self)@.widgets[i] == if old(self)@.widgets[i].id == id {
                    WidgetView {
                        properties: apply_props(old(self)@.widgets[i].properties, props@.map_values(|p: (String, String)| (p.0@, p.1@))),
                        ..old(self)@.widgets[i]
                    }
                } else {
                    old(self)@.widgets[i]
                },
    {
        match self.index_of(id) {
            None => Err(BackendError::NotFound(id)),
            Some(i) => {
                let ghost before = self@;
                proof {
                    assert(self.widgets@[i as int].wf());
                }
                let w = &mut self.widgets[i];
                w.set_properties(props);
                self.frame_dirty = true;
                proof {
                    assert forall|j: int| 0 <= j < before.widgets.len() implies #[trigger] self@.widgets[j] == if before.widgets[j].id == id {
                        WidgetView {
                            properties: apply_props(before.widgets[j].properties, props@.map_values(|p: (String, String)| (p.0@, p.1@))),
                            ..before.widgets[j]
                        }
                    } else {
                        before.widgets[j]
                    } by {
                        if j != i {
                            assert(self.widgets@[j] == old(self).widgets@[j]);
                            assert(before.widgets[j].id != id);
                        }
                    }
                    assert forall|a: int, b: int|
                        0 <= a < self@.widgets.len() && 0 <= b < self@.widgets.len() && #[trigger] self@.widgets[a].id
                            == #[trigger] self@.widgets[b].id implies a == b by {
                        assert(self@.widgets[a].id == before.widgets[a].id);
                        assert(self@.widgets[b].id == before.widgets[b].id);
                    }
                    assert forall|j: int| 0 <= j < self.widgets@.len() implies (#[trigger] self.widgets@[j]).wf() by {
                        if j != i {
                            assert(self.widgets@[j] == old(self).widgets@[j]);
                        }
                    }
                }
                Ok(())
            },
        }
    }

    /// Removes widget `id`, drops it from every child list, clears the root if it
    /// was the root, and marks the frame dirty; an unknown id is refused and
    /// nothing changes.
    pub fn destroy_widget(&mut self, id: u32) -> (r: Result<(), BackendError>)
        requires
            old(self).wf(),
        ensures
            final(self).wf(),
            !old(self)@.has(id) ==> r == Err::<(), BackendError>(BackendError::NotFound(id)) && final(self)@ == old(self)@,
            old(self)@.has(id) ==> r.is_ok() && final(self)@.frame_dirty
                && final(self)@.root_id == (if old(self)@.root_id == Some(id) { None } else { old(self)@.root_id })
                && final(self)@.widgets.len() == old(self)@.widgets.len() - 1
                && forall|j: int| 0 <= j < final(self)@.widgets.len() ==> #[trigger] final(self)@.widgets[j] == without_child(
                    old(self)@.widgets.remove(widget_index(old(self)@.widgets, id))[j],
                    id,
                ),
    {
        match self.index_of(id) {
            None => Err(BackendError::NotFound(id)),
            Some(i) => {
                let ghost before = self@;
                proof {
                    assert(widget_index(before.widgets, id) == i) by {
                        let k = widget_index(before.widgets, id);
                        assert(before.widgets[k].id == id);
                    }
                }
                let ghost mid = before.widgets.remove(i as int);
                let _gone = self.widgets.remove(i);
                proof {
                    assert(self@.widgets =~= mid);
                    assert forall|k: int| 0 <= k < self.widgets@.len() implies (#[trigger] self.widgets@[k]).wf() by {
                        let k2 = if k < i { k } else { k + 1 };
                        assert(self.widgets@[k] == old(self).widgets@[k2]);
                    }
                }
                let mut j: usize = 0;
                while j < self.widgets.len()
                    invariant
                        self.widgets_wf(),
                        self@.widgets.len() == mid.len(),
                        j <= mid.len(),
                        self.root_id == old(self).root_id,
                        forall|k: int| 0 <= k < j ==> #[trigger] self@.widgets[k] == without_child(mid[k], id),
                        forall|k: int| j <= k < mid.len() ==> #[trigger] self@.widgets[k] == mid[k],
                    decreases mid.len() - j,
                {
                    let ghost prev = self@;
                    let ghost prev_vec = self.widgets@;
                    proof {
                        assert(self.widgets@[j as int].wf());
                    }
                    let w = &mut self.widgets[j];
                    w.drop_child(id);
                    proof {
                        assert forall|k: int| 0 <= k < self@.widgets.len() && k != j implies #[trigger] self@.widgets[k] == prev.widgets[k] by {
                            assert(self.widgets@[k] == prev_vec[k]);
                        }
                        assert forall|k: int| 0 <= k < self.widgets@.len() implies (#[trigger] self.widgets@[k]).wf() by {
                            if k != j {
                                assert(self.widgets@[k] == prev_vec[k]);
                            }
                        }
                        assert(prev.widgets[j as int] == prev_vec[j as int]@);
                        assert(prev_vec[j as int]@ == mid[j as int]);
                        assert(self.widgets@[j as int]@ == without_child(prev_vec[j as int]@, id));
                        assert(self@.widgets[j as int] == self.widgets@[j as int]@);
                    }
                    j = j + 1;
                }
                if self.root_id == Some(id) {
                    self.root_id = None;
                }
                self.frame_dirty = true;
                proof {
                    assert forall|a: int, b: int|
                        0 <= a < self@.widgets.len() && 0 <= b < self@.widgets.len() && #[trigger] self@.widgets[a].id
                            == #[trigger] self@.widgets[b].id implies a == b by {
                        let a2 = if a < i { a } else { a + 1 };
                        let b2 = if b < i { b } else { b + 1 };
                        assert(self@.widgets[a].id == before.widgets[a2].id);
                        assert(self@.widgets[b].id == before.widgets[b2].id);
                    }
                }
                Ok(())
            },
        }
    }

    /// Asks for a frame to be drawn; the dirty flag already records the need, so
    /// nothing changes.
    pub fn request_frame(&self) -> (r: Result<(), BackendError>)
        ensures
            r.is_ok(),
    {
        Ok(())
    }
}

/// Position of widget `id` in `ws`, where it occurs.
pub open spec fn widget_index(ws: Seq<WidgetView>, id: u32) -> int {
    choose|i: int| 0 <= i < ws.len() && ws[i].id == id
}

/// Widget `w` with `id` dropped from its children.
pub open spec fn without_child(w: WidgetView, id: u32) -> WidgetView {
    WidgetView { children: remove_all(w.children, id), ..w }
}

} // verus!
