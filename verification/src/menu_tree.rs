use vstd::prelude::*;

use indexmap::IndexMap;

use crate::string_map::ExIndexMap;

verus! {

/// A value of a menu item property: the D-Bus menu protocol uses strings,
/// booleans and 32-bit integers.
#[derive(Debug)]
pub enum PropertyValue {
    Str(String),
    Bool(bool),
    I32(i32),
}

/// The mathematical form of a [`PropertyValue`].
pub enum PropertyValueView {
    Str(Seq<char>),
    Bool(bool),
    I32(i32),
}

impl View for PropertyValue {
    type V = PropertyValueView;

    open spec fn view(&self) -> PropertyValueView {
        match self {
            PropertyValue::Str(s) => PropertyValueView::Str(s@),
            PropertyValue::Bool(b) => PropertyValueView::Bool(*b),
            PropertyValue::I32(i) => PropertyValueView::I32(*i),
        }
    }
}

impl Clone for PropertyValue {
    fn clone(&self) -> (r: Self)
        ensures
            r == *self,
    {
        match self {
            PropertyValue::Str(s) => PropertyValue::Str(s.clone()),
            PropertyValue::Bool(b) => PropertyValue::Bool(*b),
            PropertyValue::I32(i) => PropertyValue::I32(*i),
        }
    }
}

/// The (name, value) pairs of a property list.
pub open spec fn property_pairs(v: Seq<(String, PropertyValue)>) -> Seq<(Seq<char>, PropertyValueView)> {
    v.map_values(|p: (String, PropertyValue)| (p.0@, p.1@))
}

/// Whether no name occurs twice.
pub open spec fn names_unique(e: Seq<(Seq<char>, PropertyValueView)>) -> bool {
    forall|i: int, j: int| 0 <= i < j < e.len() ==> #[trigger] e[i].0 != #[trigger] e[j].0
}

/// The position of the property named `k`.
pub open spec fn property_position(e: Seq<(Seq<char>, PropertyValueView)>, k: Seq<char>) -> Option<int>
    decreases e.len(),
{
    if e.len() == 0 {
        None
    } else if e.last().0 == k {
        Some(e.len() - 1)
    } else {
        property_position(e.drop_last(), k)
    }
}

/// The value of the property named `k`.
pub open spec fn property_lookup(e: Seq<(Seq<char>, PropertyValueView)>, k: Seq<char>) -> Option<PropertyValueView> {
    match property_position(e, k) {
        Some(i) => Some(e[i].1),
        None => None,
    }
}

/// The properties after setting `k` to `v`: an existing property takes the
/// new value in its place, a new one goes last.
pub open spec fn property_insert(e: Seq<(Seq<char>, PropertyValueView)>, k: Seq<char>, v: PropertyValueView) -> Seq<
    (Seq<char>, PropertyValueView),
> {
    match property_position(e, k) {
        Some(i) => e.update(i, (k, v)),
        None => e.push((k, v)),
    }
}

pub proof fn lemma_property_position(e: Seq<(Seq<char>, PropertyValueView)>, k: Seq<char>)
    ensures
        match property_position(e, k) {
            Some(i) => 0 <= i < e.len() && e[i].0 == k && forall|j: int| i < j < e.len() ==> #[trigger] e[j].0 != k,
            None => forall|j: int| 0 <= j < e.len() ==> #[trigger] e[j].0 != k,
        },
    decreases e.len(),
{
    if e.len() > 0 {
        lemma_property_position(e.drop_last(), k);
        if e.last().0 != k {
            assert forall|j: int| 0 <= j < e.len() - 1 implies #[trigger] e[j].0 == e.drop_last()[j].0 by {}
        }
    }
}

/// After setting `k` to `v`, `k` has the value `v` and every other name
/// keeps its value.
pub proof fn lemma_property_insert(e: Seq<(Seq<char>, PropertyValueView)>, k: Seq<char>, v: PropertyValueView)
    ensures
        property_lookup(property_insert(e, k, v), k) == Some(v),
        forall|o: Seq<char>| o != k ==> #[trigger] property_lookup(property_insert(e, k, v), o) == property_lookup(e, o),
{
    lemma_property_position(e, k);
    let f = property_insert(e, k, v);
    lemma_property_position(f, k);
    match property_position(e, k) {
        Some(i) => {
            assert(f[i].0 == k);
            match property_position(f, k) {
                Some(j) => {
                    if j < i {
                        assert(f[i].0 == k);
                    }
                    if j > i {
                        assert(e[j].0 == f[j].0);
                    }
                },
                None => {},
            }
        },
        None => {
            assert(f.last().0 == k);
        },
    }
    lemma_property_position(f, k);
    assert forall|o: Seq<char>| o != k implies #[trigger] property_lookup(f, o) == property_lookup(e, o) by {
        lemma_property_position(e, o);
        lemma_property_position(f, o);
        match property_position(e, o) {
            Some(i) => {
                assert(f[i].0 == o);
                match property_position(f, o) {
                    Some(j) => {
                        if j != i {
                            assert(f[j].0 == o);
                        }
                    },
                    None => {},
                }
            },
            None => {
                match property_position(f, o) {
                    Some(j) => {
                        assert(f[j].0 == o);
                        if j < e.len() {
                            assert(e[j].0 == f[j].0);
                        }
                    },
                    None => {},
                }
            },
        }
    }
}

/// The properties of a menu item, by name.
#[derive(Debug)]
pub struct MenuProperties {
    properties: Vec<(String, PropertyValue)>,
}

impl View for MenuProperties {
    type V = Seq<(Seq<char>, PropertyValueView)>;

    closed spec fn view(&self) -> Seq<(Seq<char>, PropertyValueView)> {
        property_pairs(self.properties@)
    }
}

impl MenuProperties {
    /// No properties.
    pub fn new() -> (r: Self)
        ensures
            r@ == Seq::<(Seq<char>, PropertyValueView)>::empty(),
    {
        let r = Self { properties: Vec::new() };
        assert(property_pairs(r.properties@) =~= Seq::<(Seq<char>, PropertyValueView)>::empty());
        r
    }

    /// The position of the property named `key`.
    fn position(&self, key: &str) -> (r: Option<usize>)
        ensures
            r matches Some(i) ==> property_position(self@, key@) == Some(i as int),
            r is None ==> property_position(self@, key@) is None,
            r matches Some(i) ==> i < self.properties@.len() && self@[i as int].0 == key@,
    {
        proof {
            lemma_property_position(self@, key@);
        }
        assert(self@.len() == self.properties@.len());
        let n = self.properties.len();
        assert(self@.take(n as int) =~= self@);
        let mut j = n;
        while j > 0
            invariant
                j <= n,
                n == self.properties@.len(),
                property_position(self@, key@) == property_position(self@.take(j as int), key@),
            decreases j,
        {
            let ghost e = self@.take(j as int);
            assert(e.last() == self@[j - 1]);
            assert(e.drop_last() == self@.take(j - 1));
            if str_eq_string(&self.properties[j - 1].0, key) {
                return Some(j - 1);
            }
            j -= 1;
        }
        assert(self@.take(0) =~= Seq::<(Seq<char>, PropertyValueView)>::empty());
        None
    }

    /// Sets the property `key` to `value`; an existing property keeps its
    /// place. The old value, if any, is returned.
    pub fn insert(&mut self, key: String, value: PropertyValue) -> (r: Option<PropertyValue>)
        ensures
            final(self)@ == property_insert(old(self)@, key@, value@),
            match r {
                Some(o) => property_lookup(old(self)@, key@) == Some(o@),
                None => property_lookup(old(self)@, key@) is None,
            },
    {
        proof {
            lemma_property_position(self@, key@);
        }
        match self.position(key.as_str()) {
            Some(i) => {
                let p = &self.properties[i];
                assert(self@[i as int] == (p.0@, p.1@));
                let old_value = p.1.clone();
                let ghost v0 = self.properties@;
                self.properties.set(i, (key, value));
                assert(property_pairs(self.properties@) =~= property_pairs(v0).update(i as int, (key@, value@)));
                Some(old_value)
            },
            None => {
                let ghost v0 = self.properties@;
                self.properties.push((key, value));
                assert(property_pairs(self.properties@) =~= property_pairs(v0).push((key@, value@)));
                None
            },
        }
    }

    /// Sets the property `key` to `value` (a string, a boolean or an integer);
    /// an existing property keeps its place. The old value, if any, is
    /// returned.
    pub fn insert_value(&mut self, key: String, value: PropertyValue) -> (r: Option<PropertyValue>)
        ensures
            final(self)@ == property_insert(old(self)@, key@, value@),
            match r {
                Some(o) => property_lookup(old(self)@, key@) == Some(o@),
                None => property_lookup(old(self)@, key@) is None,
            },
    {
        self.insert(key, value)
    }

    /// The value of the property `key`.
    pub fn get(&self, key: &str) -> (r: Option<&PropertyValue>)
        ensures
            match r {
                Some(v) => property_lookup(self@, key@) == Some(v@),
                None => property_lookup(self@, key@) is None,
            },
    {
        proof {
            lemma_property_position(self@, key@);
        }
        match self.position(key) {
            Some(i) => {
                let p = &self.properties[i];
                assert(self@[i as int] == (p.0@, p.1@));
                assert(property_position(self@, key@) == Some(i as int));
                assert(property_lookup(self@, key@) == Some(p.1@));
                Some(&p.1)
            },
            None => None,
        }
    }

    /// The properties as (name, value) pairs.
    pub fn inner(&self) -> (r: &Vec<(String, PropertyValue)>)
        ensures
            property_pairs(r@) == self@,
    {
        &self.properties
    }
}

impl Clone for MenuProperties {
    fn clone(&self) -> (r: Self)
        ensures
            r@ == self@,
    {
        let mut out: Vec<(String, PropertyValue)> = Vec::new();
        let n = self.properties.len();
        for i in 0..n
            invariant
                n == self.properties@.len(),
                out@.len() == i,
                property_pairs(out@) == property_pairs(self.properties@).take(i as int),
        {
            let p = &self.properties[i];
            let k = p.0.clone();
            let v = p.1.clone();
            assert(property_pairs(self.properties@)[i as int] == (p.0@, p.1@));
            let ghost o0 = out@;
            out.push((k, v));
            assert(out@ == o0.push((k, v)));
            assert(property_pairs(out@)[i as int] == (k@, v@));
            assert(property_pairs(out@) =~= property_pairs(self.properties@).take(i + 1));
        }
        assert(property_pairs(self.properties@).take(n as int) == property_pairs(self.properties@));
        MenuProperties { properties: out }
    }
}

/// Whether the string holds the characters of the slice.
fn str_eq_string(a: &String, b: &str) -> (r: bool)
    ensures
        r == (a@ == b@),
{
    crate::text::str_eq(a.as_str(), b)
}

/// An item of the menu: its properties and the ids of its children.
pub struct MenuNode {
    pub id: i32,
    pub properties: MenuProperties,
    pub children: Vec<i32>,
}

/// The mathematical form of a [`MenuNode`].
pub struct MenuNodeView {
    pub id: i32,
    pub properties: Seq<(Seq<char>, PropertyValueView)>,
    pub children: Seq<i32>,
}

impl View for MenuNode {
    type V = MenuNodeView;

    open spec fn view(&self) -> MenuNodeView {
        MenuNodeView { id: self.id, properties: self.properties@, children: self.children@ }
    }
}

/// The nodes of an `IndexMap` of menu nodes, by id, as their views.
pub uninterp spec fn menu_nodes(m: IndexMap<i32, MenuNode>) -> Map<i32, MenuNodeView>;

/// Calls `IndexMap::new`: no nodes.
#[verifier::external_body]
fn node_map_new() -> (r: IndexMap<i32, MenuNode>)
    ensures
        menu_nodes(r).dom().is_empty(),
{
    IndexMap::new()
}

/// Calls `IndexMap::insert`: the node is stored under the id, in place of
/// any node that had it.
#[verifier::external_body]
fn node_map_insert(m: &mut IndexMap<i32, MenuNode>, id: i32, node: MenuNode)
    ensures
        menu_nodes(*final(m)) == menu_nodes(*old(m)).insert(id, node@),
{
    m.insert(id, node);
}

/// Calls `IndexMap::get`: the node stored under the id, if any.
#[verifier::external_body]
fn node_map_get(m: &IndexMap<i32, MenuNode>, id: i32) -> (r: Option<&MenuNode>)
    ensures
        match r {
            Some(n) => menu_nodes(*m).contains_key(id) && n@ == menu_nodes(*m)[id],
            None => !menu_nodes(*m).contains_key(id),
        },
{
    m.get(&id)
}

/// Calls `IndexMap::len`: the number of nodes.
#[verifier::external_body]
fn node_map_len(m: &IndexMap<i32, MenuNode>) -> (r: usize)
    ensures
        r == menu_nodes(*m).len(),
{
    m.len()
}

/// The tree of menu items, by id.
pub struct MenuTree {
    node_map: IndexMap<i32, MenuNode>,
}

impl View for MenuTree {
    type V = Map<i32, MenuNodeView>;

    closed spec fn view(&self) -> Map<i32, MenuNodeView> {
        menu_nodes(self.node_map)
    }
}

/// The names of a list of property names.
pub open spec fn name_texts(names: Seq<String>) -> Seq<Seq<char>> {
    names.map_values(|s: String| s@)
}

/// The properties among `all` that are named in `names`, in the order of
/// `names` (a name asked twice is taken once).
pub open spec fn picked_properties(all: Seq<(Seq<char>, PropertyValueView)>, names: Seq<Seq<char>>) -> Seq<
    (Seq<char>, PropertyValueView),
>
    decreases names.len(),
{
    if names.len() == 0 {
        Seq::empty()
    } else {
        let p = picked_properties(all, names.drop_last());
        match property_lookup(all, names.last()) {
            Some(v) => property_insert(p, names.last(), v),
            None => p,
        }
    }
}

/// The properties of a node that a request for `names` returns: all of them
/// when no name is given, else those named.
pub open spec fn selected_properties(all: Seq<(Seq<char>, PropertyValueView)>, names: Seq<Seq<char>>) -> Seq<
    (Seq<char>, PropertyValueView),
> {
    if names.len() == 0 {
        all
    } else {
        picked_properties(all, names)
    }
}

/// The value that `GetProperty` returns: the property of the node, or the
/// empty string when the node or the property is missing.
pub open spec fn property_or_empty(nodes: Map<i32, MenuNodeView>, id: i32, name: Seq<char>) -> PropertyValueView {
    if nodes.contains_key(id) && property_lookup(nodes[id].properties, name) is Some {
        property_lookup(nodes[id].properties, name).unwrap()
    } else {
        PropertyValueView::Str(Seq::empty())
    }
}

/// The children of a node that are in the tree.
pub open spec fn present_children(nodes: Map<i32, MenuNodeView>, ids: Seq<i32>) -> Seq<i32> {
    ids.filter(|c: i32| nodes.contains_key(c))
}

/// Whether the layout below a node at `depth` goes one level deeper: always
/// when `limit` is -1 (but for the `fuel` that bounds it on a cyclic tree),
/// else while the children's depth stays within `limit`.
pub open spec fn may_descend(depth: int, limit: int, fuel: nat) -> bool {
    if limit == -1 {
        fuel > 0
    } else {
        depth + 1 <= limit
    }
}

pub open spec fn child_fuel(limit: int, fuel: nat) -> nat {
    if limit == -1 && fuel > 0 {
        (fuel - 1) as nat
    } else {
        fuel
    }
}

/// How many levels a layout of all levels may go down in a tree of `n`
/// nodes: `n` (but at most 2^31 - 1), which no path of an acyclic tree
/// reaches.
pub open spec fn tree_fuel(n: nat) -> nat {
    if n < 0x7fff_ffff { n } else { 0x7fff_ffff }
}

/// One node of a menu layout: the id, the selected properties and the
/// layouts of the children.
pub struct MenuLayout {
    pub id: i32,
    pub properties: MenuProperties,
    pub children: Vec<MenuLayout>,
}

/// Whether `l` is the layout of node `id` at `depth` of a request with
/// depth `limit` and property `names`.
pub open spec fn layout_of(
    nodes: Map<i32, MenuNodeView>,
    l: MenuLayout,
    id: i32,
    depth: int,
    limit: int,
    names: Seq<Seq<char>>,
    fuel: nat,
) -> bool
    decreases l,
{
    &&& nodes.contains_key(id)
    &&& l.id == id
    &&& l.properties@ == selected_properties(nodes[id].properties, names)
    &&& if may_descend(depth, limit, fuel) {
        let pc = present_children(nodes, nodes[id].children);
        &&& l.children@.len() == pc.len()
        &&& forall|i: int|
            0 <= i < pc.len() ==> layout_of(nodes, #[trigger] l.children@[i], pc[i], depth + 1, limit, names, child_fuel(limit, fuel))
    } else {
        l.children@.len() == 0
    }
}

impl MenuTree {
    /// No items.
    pub fn new() -> (r: Self)
        ensures
            r@.dom().is_empty(),
    {
        Self { node_map: node_map_new() }
    }

    /// Adds a node under its id, in place of any node that had it.
    pub fn insert_node(&mut self, node: MenuNode)
        ensures
            final(self)@ == old(self)@.insert(node.id, node@),
    {
        let id = node.id;
        node_map_insert(&mut self.node_map, id, node);
    }

    /// The node of an id.
    pub fn get(&self, id: i32) -> (r: Option<&MenuNode>)
        ensures
            match r {
                Some(n) => self@.contains_key(id) && n@ == self@[id],
                None => !self@.contains_key(id),
            },
    {
        node_map_get(&self.node_map, id)
    }

    /// Sets a property of a node, if the tree has the node.
    pub fn set_property(&mut self, id: i32, key: String, value: PropertyValue)
        ensures
            old(self)@.contains_key(id) ==> final(self)@ == old(self)@.insert(
                id,
                MenuNodeView { properties: property_insert(old(self)@[id].properties, key@, value@), ..old(self)@[id] },
            ),
            !old(self)@.contains_key(id) ==> final(self)@ == old(self)@,
    {
        let updated = match node_map_get(&self.node_map, id) {
            Some(node) => {
                let mut properties = node.properties.clone();
                properties.insert(key, value);
                let children = node.children.clone();
                assert(children@ == node.children@);
                Some(MenuNode { id: node.id, properties, children })
            },
            None => None,
        };
        match updated {
            Some(n) => {
                proof {
                    assert(n@ == MenuNodeView { properties: property_insert(old(self)@[id].properties, key@, value@), ..old(self)@[id] });
                }
                node_map_insert(&mut self.node_map, id, n);
            },
            None => {},
        }
    }
}

impl MenuTree {
    /// The value of a property of a node, or the empty string when the node
    /// or the property is missing.
    pub fn get_property(&self, id: i32, name: &str) -> (r: PropertyValue)
        ensures
            r@ == property_or_empty(self@, id, name@),
    {
        match node_map_get(&self.node_map, id) {
            Some(node) => match node.properties.get(name) {
                Some(v) => v.clone(),
                None => PropertyValue::Str(String::new()),
            },
            None => PropertyValue::Str(String::new()),
        }
    }

    /// The properties among `all` that are named in `names`.
    fn pick(all: &MenuProperties, names: &[String]) -> (r: MenuProperties)
        ensures
            r@ == picked_properties(all@, name_texts(names@)),
    {
        let mut out = MenuProperties::new();
        let n = names.len();
        for k in 0..n
            invariant
                n == names@.len(),
                out@ == picked_properties(all@, name_texts(names@.take(k as int))),
        {
            let ghost ns = name_texts(names@.take(k + 1));
            assert(ns.drop_last() == name_texts(names@.take(k as int)));
            assert(ns.last() == names@[k as int]@);
            match all.get(names[k].as_str()) {
                Some(v) => {
                    out.insert(names[k].clone(), v.clone());
                },
                None => {},
            }
        }
        assert(names@.take(n as int) == names@);
        out
    }

    /// The properties of a node that a request for `names` returns.
    fn select(all: &MenuProperties, names: &[String]) -> (r: MenuProperties)
        ensures
            r@ == selected_properties(all@, name_texts(names@)),
    {
        if names.len() == 0 {
            all.clone()
        } else {
            Self::pick(all, names)
        }
    }

    /// For each id, the id and the properties named in `properties` (all of
    /// them when none is named; none when the tree lacks the node).
    pub fn get_group_properties(&self, ids: &[i32], properties: &[String]) -> (r: Vec<(i32, MenuProperties)>)
        ensures
            r@.len() == ids@.len(),
            forall|i: int| 0 <= i < ids@.len() ==> (#[trigger] r@[i]).0 == ids@[i] && r@[i].1@ == (if self@.contains_key(ids@[i]) {
                selected_properties(self@[ids@[i]].properties, name_texts(properties@))
            } else {
                Seq::empty()
            }),
    {
        let mut result_list: Vec<(i32, MenuProperties)> = Vec::new();
        let n = ids.len();
        for k in 0..n
            invariant
                n == ids@.len(),
                result_list@.len() == k,
                forall|i: int| 0 <= i < k ==> (#[trigger] result_list@[i]).0 == ids@[i] && result_list@[i].1@ == (if self@.contains_key(ids@[i]) {
                    selected_properties(self@[ids@[i]].properties, name_texts(properties@))
                } else {
                    Seq::empty()
                }),
        {
            let id = ids[k];
            let item = match node_map_get(&self.node_map, id) {
                Some(node) => (id, Self::select(&node.properties, properties)),
                None => (id, MenuProperties::new()),
            };
            result_list.push(item);
        }
        result_list
    }

    /// The layout of node `id` at `depth`, or nothing when the tree lacks
    /// the node.
    fn to_sub_tree(&self, id: i32, depth: i64, limit: i32, names: &[String], fuel: usize) -> (r: Option<MenuLayout>)
        requires
            0 <= depth < i64::MAX,
            limit >= 0 ==> depth <= limit,
            limit == -1 ==> depth + fuel < i64::MAX,
        ensures
            match r {
                Some(l) => layout_of(self@, l, id, depth as int, limit as int, name_texts(names@), fuel as nat),
                None => !self@.contains_key(id),
            },
        decreases (if limit >= 0 { limit - depth } else { fuel as int }),
    {
        let node = match node_map_get(&self.node_map, id) {
            Some(node) => node,
            None => return None,
        };
        let mut child_value_list: Vec<MenuLayout> = Vec::new();
        let child_depth = depth + 1;
        let descend = if limit == -1 { fuel > 0 } else { child_depth <= limit as i64 };
        let ghost nodes = self@;
        let ghost pc = present_children(nodes, node.children@);
        if descend {
            let next_fuel = if limit == -1 && fuel > 0 { fuel - 1 } else { fuel };
            let n = node.children.len();
            for k in 0..n
                invariant
                    n == node.children@.len(),
                    nodes.contains_key(id),
                    node@ == nodes[id],
                    nodes == self@,
                    descend == may_descend(depth as int, limit as int, fuel as nat),
                    descend,
                    child_depth == depth + 1,
                    next_fuel == child_fuel(limit as int, fuel as nat),
                    0 <= depth,
                    limit >= 0 ==> child_depth <= limit,
                    limit == -1 ==> fuel > 0 && child_depth + next_fuel < i64::MAX,
                    child_value_list@.len() == present_children(nodes, node.children@.take(k as int)).len(),
                    forall|i: int|
                        0 <= i < child_value_list@.len() ==> layout_of(
                            nodes,
                            #[trigger] child_value_list@[i],
                            present_children(nodes, node.children@.take(k as int))[i],
                            depth + 1,
                            limit as int,
                            name_texts(names@),
                            child_fuel(limit as int, fuel as nat),
                        ),
            {
                let child_id = node.children[k];
                let ghost before = present_children(nodes, node.children@.take(k as int));
                proof {
                    reveal(Seq::filter);
                    assert(node.children@.take(k + 1).drop_last() == node.children@.take(k as int));
                    assert(node.children@.take(k + 1).last() == child_id);
                }
                match self.to_sub_tree(child_id, child_depth, limit, names, next_fuel) {
                    Some(child_value) => {
                        assert(present_children(nodes, node.children@.take(k + 1)) == before.push(child_id));
                        child_value_list.push(child_value);
                    },
                    None => {
                        assert(present_children(nodes, node.children@.take(k + 1)) == before);
                    },
                }
            }
            assert(node.children@.take(n as int) == node.children@);
        }
        let partial_properties = Self::select(&node.properties, names);
        Some(MenuLayout { id, properties: partial_properties, children: child_value_list })
    }

    /// The layout of the tree from node `id`, `recursion_depth` levels deep
    /// (-1: all levels), with the properties named in `properties` (all of
    /// them when none is named); an empty layout of `id` when the tree lacks
    /// the node. On a tree whose child links form a cycle, the levels are
    /// cut off after as many as the tree has nodes when `recursion_depth` is
    /// -1.
    pub fn to_tree(&self, id: i32, recursion_depth: i32, properties: &[String]) -> (r: MenuLayout)
        ensures
            self@.contains_key(id) ==> layout_of(self@, r, id, 0, recursion_depth as int, name_texts(properties@), tree_fuel(self@.len())),
            !self@.contains_key(id) ==> r.id == id && r.properties@.len() == 0 && r.children@.len() == 0,
            self@.contains_key(id) && recursion_depth == -1 ==> forall|k: nat, f: nat|
                #![trigger height_within(self@, id, k), layout_of(self@, r, id, 0, -1, name_texts(properties@), f)]
                height_within(self@, id, k) && k <= tree_fuel(self@.len()) && k <= f ==> layout_of(
                    self@,
                    r,
                    id,
                    0,
                    -1,
                    name_texts(properties@),
                    f,
                ),
    {
        let len = node_map_len(&self.node_map);
        let fuel = if len < 0x7fff_ffff { len } else { 0x7fff_ffff };
        let r = match self.to_sub_tree(id, 0, recursion_depth, properties, fuel) {
            Some(value) => value,
            None => MenuLayout { id, properties: MenuProperties::new(), children: Vec::new() },
        };
        proof {
            if self@.contains_key(id) && recursion_depth == -1 {
                assert forall|k: nat, f: nat|
                    #![trigger height_within(self@, id, k), layout_of(self@, r, id, 0, -1, name_texts(properties@), f)]
                    height_within(self@, id, k) && k <= tree_fuel(self@.len()) && k <= f implies layout_of(
                    self@,
                    r,
                    id,
                    0,
                    -1,
                    name_texts(properties@),
                    f,
                ) by {
                    lemma_layout_fuel_enough(self@, r, id, 0, name_texts(properties@), k, tree_fuel(self@.len()), f);
                }
            }
        }
        r
    }
}

/// Whether no path down from node `id` takes more than `k` steps.
pub open spec fn height_within(nodes: Map<i32, MenuNodeView>, id: i32, k: nat) -> bool
    decreases k,
{
    nodes.contains_key(id) ==> {
        let pc = present_children(nodes, nodes[id].children);
        if k == 0 {
            pc.len() == 0
        } else {
            forall|i: int| 0 <= i < pc.len() ==> height_within(nodes, #[trigger] pc[i], (k - 1) as nat)
        }
    }
}

/// A layout of all levels does not depend on the fuel that bounds it, once
/// the fuel covers the height of the tree below the node: with any two
/// fuels of at least that height, a layout is the layout of the node with
/// the one exactly when with the other, and so it is the layout that never
/// stops before the leaves.
pub proof fn lemma_layout_fuel_enough(
    nodes: Map<i32, MenuNodeView>,
    l: MenuLayout,
    id: i32,
    depth: int,
    names: Seq<Seq<char>>,
    k: nat,
    f1: nat,
    f2: nat,
)
    requires
        height_within(nodes, id, k),
        k <= f1,
        k <= f2,
    ensures
        layout_of(nodes, l, id, depth, -1, names, f1) == layout_of(nodes, l, id, depth, -1, names, f2),
    decreases k,
{
    if nodes.contains_key(id) && k > 0 {
        let pc = present_children(nodes, nodes[id].children);
        assert forall|i: int| 0 <= i < pc.len() implies layout_of(
            nodes,
            #[trigger] l.children@[i],
            pc[i],
            depth + 1,
            -1,
            names,
            (f1 - 1) as nat,
        ) == layout_of(nodes, l.children@[i], pc[i], depth + 1, -1, names, (f2 - 1) as nat) by {
            assert(height_within(nodes, pc[i], (k - 1) as nat));
            lemma_layout_fuel_enough(nodes, l.children@[i], pc[i], depth + 1, names, (k - 1) as nat, (f1 - 1) as nat, (f2 - 1) as nat);
        }
    }
}

/// Whether two trees hold the same ids, each with the same children.
pub open spec fn same_shape(a: Map<i32, MenuNodeView>, b: Map<i32, MenuNodeView>) -> bool {
    &&& a.dom() == b.dom()
    &&& forall|id: i32| a.contains_key(id) ==> #[trigger] a[id].children == b[id].children
}

/// Trees of the same shape have the same heights.
pub proof fn lemma_same_shape_height(a: Map<i32, MenuNodeView>, b: Map<i32, MenuNodeView>, id: i32, k: nat)
    requires
        same_shape(a, b),
    ensures
        height_within(a, id, k) == height_within(b, id, k),
    decreases k,
{
    if a.contains_key(id) {
        assert((|c: i32| a.contains_key(c)) =~= (|c: i32| b.contains_key(c)));
        let pa = present_children(a, a[id].children);
        let pb = present_children(b, b[id].children);
        assert(pa == pb);
        if k > 0 {
            assert forall|i: int| 0 <= i < pa.len() implies height_within(a, #[trigger] pa[i], (k - 1) as nat)
                == height_within(b, pb[i], (k - 1) as nat) by {
                lemma_same_shape_height(a, b, pa[i], (k - 1) as nat);
            }
        }
    }
}

} // verus!
