use vstd::prelude::*;

use crate::error::AppError;
use crate::menu_tree::{
    lemma_property_insert, name_texts, property_position, property_insert, property_lookup, property_or_empty,
    layout_of, selected_properties, tree_fuel, height_within, present_children, same_shape, lemma_same_shape_height, MenuLayout, MenuNode, MenuNodeView, MenuProperties,
    MenuTree, PropertyValue, PropertyValueView,
};
use crate::text::{decimal_string, decimal_text, push_str};
use crate::timer::TimerCommand;
use crate::types::TimerMinute;
use vstd::std_specs::convert::IntoSpec;

verus! {

pub const ROOT_ID: i32 = 0;
pub const STATUS_ID: i32 = 11;
pub const PHASE_ID: i32 = 12;
pub const RAP_ID: i32 = 13;
pub const FIRST_SEPARATOR_ID: i32 = 2;
pub const START_ID: i32 = 21;
pub const RESUME_ID: i32 = 22;
pub const PAUSE_ID: i32 = 23;
pub const SKIP_ID: i32 = 24;
pub const RESET_ID: i32 = 25;
pub const SECOND_SEPARATOR_ID: i32 = 3;
pub const SETTINGS_ID: i32 = 31;
pub const THIRD_SEPARATOR_ID: i32 = 4;
pub const EXIT_ID: i32 = 41;

/// The state of the timer as the menu controls it.
#[derive(Debug, Clone, Copy, PartialEq, Eq, Structural)]
pub enum TimerControllerStatus {
    /// Before a start, after a reset, or stopped by the program.
    Pending,
    /// The timer runs.
    Running,
    /// The timer is paused.
    Paused,
}

/// The properties that changed, by item id, for a `ItemsPropertiesUpdated`
/// signal.
pub type UpdateProperties = Vec<(i32, MenuProperties)>;

/// An update list as (id, properties) pairs of views.
pub open spec fn update_view(u: Seq<(i32, MenuProperties)>) -> Seq<(i32, Seq<(Seq<char>, PropertyValueView)>)> {
    u.map_values(|p: (i32, MenuProperties)| (p.0, p.1@))
}

/// One string-valued property.
pub open spec fn str_entry(k: Seq<char>, v: Seq<char>) -> (Seq<char>, PropertyValueView) {
    (k, PropertyValueView::Str(v))
}

/// One boolean-valued property.
pub open spec fn bool_entry(k: Seq<char>, v: bool) -> (Seq<char>, PropertyValueView) {
    (k, PropertyValueView::Bool(v))
}

/// An item without children.
pub open spec fn leaf(id: i32, properties: Seq<(Seq<char>, PropertyValueView)>) -> MenuNodeView {
    MenuNodeView { id, properties, children: Seq::empty() }
}

/// The ids of the items of the root menu, in the order shown.
pub open spec fn root_children() -> Seq<i32> {
    seq![
        STATUS_ID,
        PHASE_ID,
        RAP_ID,
        FIRST_SEPARATOR_ID,
        START_ID,
        RESUME_ID,
        PAUSE_ID,
        SKIP_ID,
        RESET_ID,
        SECOND_SEPARATOR_ID,
        SETTINGS_ID,
        THIRD_SEPARATOR_ID,
        EXIT_ID,
    ]
}

/// The menu as it is first shown.
pub open spec fn default_tree() -> Map<i32, MenuNodeView> {
    Map::empty().insert(
        ROOT_ID,
        MenuNodeView { id: ROOT_ID, properties: seq![str_entry("children-display"@, "submenu"@)], children: root_children() },
    ).insert(STATUS_ID, leaf(STATUS_ID, seq![str_entry("label"@, "Status: Pending"@), bool_entry("enabled"@, false)])).insert(
        RAP_ID,
        leaf(RAP_ID, seq![str_entry("label"@, "Rap: 1"@), bool_entry("enabled"@, false)]),
    ).insert(PHASE_ID, leaf(PHASE_ID, seq![str_entry("label"@, "Phase: Working"@), bool_entry("enabled"@, false)])).insert(
        FIRST_SEPARATOR_ID,
        leaf(FIRST_SEPARATOR_ID, seq![str_entry("type"@, "separator"@)]),
    ).insert(
        START_ID,
        leaf(
            START_ID,
            seq![str_entry("label"@, "Start"@), str_entry("icon-name"@, "media-playback-start"@), bool_entry("visible"@, true)],
        ),
    ).insert(
        RESUME_ID,
        leaf(
            RESUME_ID,
            seq![str_entry("label"@, "Resume"@), str_entry("icon-name"@, "media-playback-start"@), bool_entry("visible"@, false)],
        ),
    ).insert(
        PAUSE_ID,
        leaf(
            PAUSE_ID,
            seq![str_entry("label"@, "Pause"@), str_entry("icon-name"@, "media-playback-pause"@), bool_entry("visible"@, false)],
        ),
    ).insert(SKIP_ID, leaf(SKIP_ID, seq![str_entry("label"@, "Skip"@), str_entry("icon-name"@, "media-skip-forward"@)])).insert(
        RESET_ID,
        leaf(RESET_ID, seq![str_entry("label"@, "Reset"@), str_entry("icon-name"@, "edit-undo"@)]),
    ).insert(SECOND_SEPARATOR_ID, leaf(SECOND_SEPARATOR_ID, seq![str_entry("type"@, "separator"@)])).insert(
        SETTINGS_ID,
        leaf(SETTINGS_ID, seq![str_entry("label"@, "Settings"@)]),
    ).insert(THIRD_SEPARATOR_ID, leaf(THIRD_SEPARATOR_ID, seq![str_entry("type"@, "separator"@)])).insert(
        EXIT_ID,
        leaf(EXIT_ID, seq![str_entry("label"@, "Exit"@), str_entry("icon-name"@, "process-stop"@)]),
    )
}

/// Properties made of one entry.
fn one_property(k: &str, v: PropertyValue) -> (r: MenuProperties)
    ensures
        r@ == seq![(k@, v@)],
{
    let mut p = MenuProperties::new();
    p.insert(k.to_owned(), v);
    p
}

/// Properties made of two entries with different names.
fn two_properties(k1: &str, v1: PropertyValue, k2: &str, v2: PropertyValue) -> (r: MenuProperties)
    requires
        k1@ != k2@,
    ensures
        r@ == seq![(k1@, v1@), (k2@, v2@)],
{
    let mut p = one_property(k1, v1);
    assert(seq![(k1@, v1@)].drop_last() =~= Seq::<(Seq<char>, PropertyValueView)>::empty());
    assert(property_position(seq![(k1@, v1@)], k2@) is None) by {
        reveal_with_fuel(property_position, 2);
    }
    p.insert(k2.to_owned(), v2);
    assert(p@ =~= seq![(k1@, v1@), (k2@, v2@)]);
    p
}

/// Properties made of three entries with different names.
fn three_properties(k1: &str, v1: PropertyValue, k2: &str, v2: PropertyValue, k3: &str, v3: PropertyValue) -> (r:
    MenuProperties)
    requires
        k1@ != k2@,
        k1@ != k3@,
        k2@ != k3@,
    ensures
        r@ == seq![(k1@, v1@), (k2@, v2@), (k3@, v3@)],
{
    let mut p = two_properties(k1, v1, k2, v2);
    assert(seq![(k1@, v1@), (k2@, v2@)].drop_last() =~= seq![(k1@, v1@)]);
    assert(seq![(k1@, v1@)].drop_last() =~= Seq::<(Seq<char>, PropertyValueView)>::empty());
    assert(property_position(seq![(k1@, v1@), (k2@, v2@)], k3@) is None) by {
        reveal_with_fuel(property_position, 3);
    }
    p.insert(k3.to_owned(), v3);
    assert(p@ =~= seq![(k1@, v1@), (k2@, v2@), (k3@, v3@)]);
    p
}

/// A string property value.
fn str_value(s: &str) -> (r: PropertyValue)
    ensures
        r@ == PropertyValueView::Str(s@),
{
    PropertyValue::Str(s.to_owned())
}

/// An item without children.
fn leaf_node(id: i32, properties: MenuProperties) -> (r: MenuNode)
    ensures
        r@ == leaf(id, properties@),
{
    let r = MenuNode { id, properties, children: Vec::new() };
    assert(r@.children =~= Seq::<i32>::empty());
    r
}

/// The menu as it is first shown.
pub fn default_menu_tree() -> (r: MenuTree)
    ensures
        r@ == default_tree(),
{
    proof {
        reveal_strlit("label");
        reveal_strlit("enabled");
        reveal_strlit("icon-name");
        reveal_strlit("visible");
        assert("label"@.len() == 5);
        assert("enabled"@.len() == 7);
        assert("icon-name"@.len() == 9);
        assert("visible"@.len() == 7);
        assert("enabled"@[0] != "visible"@[0]);
    }
    let mut menu_tree = MenuTree::new();
    let root_list = vec![
        STATUS_ID,
        PHASE_ID,
        RAP_ID,
        FIRST_SEPARATOR_ID,
        START_ID,
        RESUME_ID,
        PAUSE_ID,
        SKIP_ID,
        RESET_ID,
        SECOND_SEPARATOR_ID,
        SETTINGS_ID,
        THIRD_SEPARATOR_ID,
        EXIT_ID,
    ];
    assert(root_list@ == root_children());
    menu_tree.insert_node(
        MenuNode {
            id: ROOT_ID,
            properties: one_property("children-display", str_value("submenu")),
            children: root_list,
        },
    );
    menu_tree.insert_node(
        leaf_node(
            STATUS_ID,
            two_properties("label", str_value("Status: Pending"), "enabled", PropertyValue::Bool(false)),
        ),
    );
    menu_tree.insert_node(
        leaf_node(RAP_ID, two_properties("label", str_value("Rap: 1"), "enabled", PropertyValue::Bool(false))),
    );
    menu_tree.insert_node(
        leaf_node(PHASE_ID, two_properties("label", str_value("Phase: Working"), "enabled", PropertyValue::Bool(false))),
    );
    menu_tree.insert_node(leaf_node(FIRST_SEPARATOR_ID, one_property("type", str_value("separator"))));
    menu_tree.insert_node(
        leaf_node(
            START_ID,
            three_properties(
                "label",
                str_value("Start"),
                "icon-name",
                str_value("media-playback-start"),
                "visible",
                PropertyValue::Bool(true),
            ),
        ),
    );
    menu_tree.insert_node(
        leaf_node(
            RESUME_ID,
            three_properties(
                "label",
                str_value("Resume"),
                "icon-name",
                str_value("media-playback-start"),
                "visible",
                PropertyValue::Bool(false),
            ),
        ),
    );
    menu_tree.insert_node(
        leaf_node(
            PAUSE_ID,
            three_properties(
                "label",
                str_value("Pause"),
                "icon-name",
                str_value("media-playback-pause"),
                "visible",
                PropertyValue::Bool(false),
            ),
        ),
    );
    menu_tree.insert_node(
        leaf_node(SKIP_ID, two_properties("label", str_value("Skip"), "icon-name", str_value("media-skip-forward"))),
    );
    menu_tree.insert_node(
        leaf_node(RESET_ID, two_properties("label", str_value("Reset"), "icon-name", str_value("edit-undo"))),
    );
    menu_tree.insert_node(leaf_node(SECOND_SEPARATOR_ID, one_property("type", str_value("separator"))));
    menu_tree.insert_node(leaf_node(SETTINGS_ID, one_property("label", str_value("Settings"))));
    menu_tree.insert_node(leaf_node(THIRD_SEPARATOR_ID, one_property("type", str_value("separator"))));
    menu_tree.insert_node(
        leaf_node(EXIT_ID, two_properties("label", str_value("Exit"), "icon-name", str_value("process-stop"))),
    );
    assert(menu_tree@ =~= default_tree());
    menu_tree
}

/// The tree after setting property `key` of item `id` to `v` (no change when
/// the tree lacks the item).
pub open spec fn with_property(tree: Map<i32, MenuNodeView>, id: i32, key: Seq<char>, v: PropertyValueView) -> Map<
    i32,
    MenuNodeView,
> {
    if tree.contains_key(id) {
        tree.insert(id, MenuNodeView { properties: property_insert(tree[id].properties, key, v), ..tree[id] })
    } else {
        tree
    }
}

/// The value of property `key` of item `id`.
pub open spec fn tree_property(tree: Map<i32, MenuNodeView>, id: i32, key: Seq<char>) -> Option<PropertyValueView> {
    if tree.contains_key(id) {
        property_lookup(tree[id].properties, key)
    } else {
        None
    }
}

/// The label of the status item.
pub open spec fn status_label(s: TimerControllerStatus) -> Seq<char> {
    match s {
        TimerControllerStatus::Pending => "Status: Pending"@,
        TimerControllerStatus::Running => "Status: Running"@,
        TimerControllerStatus::Paused => "Status: Paused"@,
    }
}

/// The tree after showing status `s`: the status label, then Start shown
/// only when pending, Pause only when running, Resume only when paused.
pub open spec fn status_tree(tree: Map<i32, MenuNodeView>, s: TimerControllerStatus) -> Map<i32, MenuNodeView> {
    let t1 = with_property(tree, STATUS_ID, "label"@, PropertyValueView::Str(status_label(s)));
    let t2 = with_property(t1, START_ID, "visible"@, PropertyValueView::Bool(s == TimerControllerStatus::Pending));
    let t3 = with_property(t2, PAUSE_ID, "visible"@, PropertyValueView::Bool(s == TimerControllerStatus::Running));
    with_property(t3, RESUME_ID, "visible"@, PropertyValueView::Bool(s == TimerControllerStatus::Paused))
}

/// The properties reported as changed when status `s` is shown: the status
/// label, then the visibility of Start, Pause and Resume, each under its own
/// id.
pub open spec fn status_updates(s: TimerControllerStatus) -> Seq<(i32, Seq<(Seq<char>, PropertyValueView)>)> {
    seq![
        (STATUS_ID, seq![str_entry("label"@, status_label(s))]),
        (START_ID, seq![bool_entry("visible"@, s == TimerControllerStatus::Pending)]),
        (PAUSE_ID, seq![bool_entry("visible"@, s == TimerControllerStatus::Running)]),
        (RESUME_ID, seq![bool_entry("visible"@, s == TimerControllerStatus::Paused)]),
    ]
}

/// Whether the menu shows status `s`: its label, and exactly one of Start,
/// Pause and Resume visible, the one that fits.
pub open spec fn menu_agrees(tree: Map<i32, MenuNodeView>, s: TimerControllerStatus) -> bool {
    &&& tree_property(tree, STATUS_ID, "label"@) == Some(PropertyValueView::Str(status_label(s)))
    &&& tree_property(tree, START_ID, "visible"@) == Some(PropertyValueView::Bool(s == TimerControllerStatus::Pending))
    &&& tree_property(tree, PAUSE_ID, "visible"@) == Some(PropertyValueView::Bool(s == TimerControllerStatus::Running))
    &&& tree_property(tree, RESUME_ID, "visible"@) == Some(PropertyValueView::Bool(s == TimerControllerStatus::Paused))
}

/// The ids of the items that the controller changes.
pub open spec fn has_control_items(tree: Map<i32, MenuNodeView>) -> bool {
    &&& tree.contains_key(STATUS_ID)
    &&& tree.contains_key(PHASE_ID)
    &&& tree.contains_key(RAP_ID)
    &&& tree.contains_key(START_ID)
    &&& tree.contains_key(PAUSE_ID)
    &&& tree.contains_key(RESUME_ID)
}

/// Showing a status keeps the items and makes the menu agree with it.
pub proof fn lemma_status_tree_agrees(tree: Map<i32, MenuNodeView>, s: TimerControllerStatus)
    requires
        has_control_items(tree),
    ensures
        has_control_items(status_tree(tree, s)),
        status_tree(tree, s).dom() == tree.dom(),
        menu_agrees(status_tree(tree, s), s),
        tree_property(status_tree(tree, s), PHASE_ID, "label"@) == tree_property(tree, PHASE_ID, "label"@),
        tree_property(status_tree(tree, s), RAP_ID, "label"@) == tree_property(tree, RAP_ID, "label"@),
{
    let t1 = with_property(tree, STATUS_ID, "label"@, PropertyValueView::Str(status_label(s)));
    let t2 = with_property(t1, START_ID, "visible"@, PropertyValueView::Bool(s == TimerControllerStatus::Pending));
    let t3 = with_property(t2, PAUSE_ID, "visible"@, PropertyValueView::Bool(s == TimerControllerStatus::Running));
    let t4 = with_property(t3, RESUME_ID, "visible"@, PropertyValueView::Bool(s == TimerControllerStatus::Paused));
    lemma_property_insert(tree[STATUS_ID].properties, "label"@, PropertyValueView::Str(status_label(s)));
    lemma_property_insert(t1[START_ID].properties, "visible"@, PropertyValueView::Bool(s == TimerControllerStatus::Pending));
    lemma_property_insert(t2[PAUSE_ID].properties, "visible"@, PropertyValueView::Bool(s == TimerControllerStatus::Running));
    lemma_property_insert(t3[RESUME_ID].properties, "visible"@, PropertyValueView::Bool(s == TimerControllerStatus::Paused));
    assert(t4.dom() =~= tree.dom());
}

/// The first menu has one level of items below the root, none of them with
/// children; so a layout of all levels of it is the same with any fuel of
/// at least one (see [`lemma_layout_fuel_enough`]).
pub proof fn lemma_default_tree_height()
    ensures
        height_within(default_tree(), ROOT_ID, 1),
{
    broadcast use vstd::seq::Seq::lemma_filter_contains_rev;

    let t = default_tree();
    let pc = present_children(t, t[ROOT_ID].children);
    assert(t[ROOT_ID].children == root_children());
    assert forall|i: int| 0 <= i < pc.len() implies height_within(t, #[trigger] pc[i], 0) by {
        let c = pc[i];
        assert(pc.contains(c));
        assert(root_children().contains(c));
        assert(t.contains_key(c) && t[c].children.len() == 0);
        assert(present_children(t, t[c].children) =~= Seq::<i32>::empty());
    }
}

/// The menu of the status item, with the controls of the timer: it
/// remembers the controller's status and the minutes that the next start
/// gives the timer, and decides the commands that the timer is sent.
pub struct DbusMenu {
    menu_tree: MenuTree,
    revision_counter: u32,
    timer_controller_status: TimerControllerStatus,
    time: TimerMinute,
}

/// The mathematical form of a [`DbusMenu`].
pub struct DbusMenuView {
    pub tree: Map<i32, MenuNodeView>,
    pub revision: u32,
    pub status: TimerControllerStatus,
    pub time: TimerMinute,
}

impl View for DbusMenu {
    type V = DbusMenuView;

    closed spec fn view(&self) -> DbusMenuView {
        DbusMenuView {
            tree: self.menu_tree@,
            revision: self.revision_counter,
            status: self.timer_controller_status,
            time: self.time,
        }
    }
}

/// Whether the menu holds the items that the controller changes, shows
/// the controller's status, and has finitely many items, in one level
/// below the root.
pub open spec fn menu_wf(v: DbusMenuView) -> bool {
    &&& has_control_items(v.tree)
    &&& menu_agrees(v.tree, v.status)
    &&& height_within(v.tree, ROOT_ID, 1)
    &&& v.tree.dom().finite()
}

/// Setting a property keeps the shape of the tree, and so its height.
pub proof fn lemma_with_property_height(tree: Map<i32, MenuNodeView>, id: i32, key: Seq<char>, v: PropertyValueView)
    ensures
        same_shape(with_property(tree, id, key, v), tree),
        height_within(with_property(tree, id, key, v), ROOT_ID, 1) == height_within(tree, ROOT_ID, 1),
{
    let t = with_property(tree, id, key, v);
    assert(t.dom() =~= tree.dom());
    lemma_same_shape_height(t, tree, ROOT_ID, 1);
}

/// Showing a status keeps the height of the tree.
pub proof fn lemma_status_tree_height(tree: Map<i32, MenuNodeView>, s: TimerControllerStatus)
    ensures
        height_within(status_tree(tree, s), ROOT_ID, 1) == height_within(tree, ROOT_ID, 1),
        status_tree(tree, s).dom() == tree.dom(),
{
    let t1 = with_property(tree, STATUS_ID, "label"@, PropertyValueView::Str(status_label(s)));
    let t2 = with_property(t1, START_ID, "visible"@, PropertyValueView::Bool(s == TimerControllerStatus::Pending));
    let t3 = with_property(t2, PAUSE_ID, "visible"@, PropertyValueView::Bool(s == TimerControllerStatus::Running));
    lemma_with_property_height(tree, STATUS_ID, "label"@, PropertyValueView::Str(status_label(s)));
    lemma_with_property_height(t1, START_ID, "visible"@, PropertyValueView::Bool(s == TimerControllerStatus::Pending));
    lemma_with_property_height(t2, PAUSE_ID, "visible"@, PropertyValueView::Bool(s == TimerControllerStatus::Running));
    lemma_with_property_height(t3, RESUME_ID, "visible"@, PropertyValueView::Bool(s == TimerControllerStatus::Paused));
}

/// The menu after showing status `s`.
pub open spec fn menu_with_status(v: DbusMenuView, s: TimerControllerStatus) -> DbusMenuView {
    DbusMenuView { tree: status_tree(v.tree, s), status: s, ..v }
}

/// What a control decided: the properties to announce as changed and the
/// command for the timer, if any.
pub struct ControlOutcome {
    pub updates: UpdateProperties,
    pub command: Option<TimerCommand>,
}

/// What a control gives: when it acted (`fired`), the properties of status
/// `s` and the command `cmd` for the timer; else nothing to announce and no
/// command.
pub open spec fn control_result(fired: bool, s: TimerControllerStatus, cmd: TimerCommand, r: ControlOutcome) -> bool {
    if fired {
        update_view(r.updates@) == status_updates(s) && r.command == Some(cmd)
    } else {
        r.updates@.len() == 0 && r.command is None
    }
}

/// Whether a click on item `id` does something.
pub open spec fn is_clickable(id: i32) -> bool {
    id == START_ID || id == PAUSE_ID || id == RESUME_ID || id == RESET_ID || id == SKIP_ID || id == SETTINGS_ID || id
        == EXIT_ID
}

/// What a click on an item asks of the program around the menu.
pub enum MenuEvent {
    /// Nothing.
    Ignored,
    /// A control was clicked: what it decided.
    Control(ControlOutcome),
    /// The settings dialog is to be opened.
    OpenSettings,
    /// The timer loop is to end: the command to send it.
    Exit(TimerCommand),
}

/// The effect of Start: a pending timer is shown running.
pub open spec fn start_effect(v: DbusMenuView) -> DbusMenuView {
    if v.status == TimerControllerStatus::Pending { menu_with_status(v, TimerControllerStatus::Running) } else { v }
}

/// The effect of Pause: a running timer is shown paused.
pub open spec fn pause_effect(v: DbusMenuView) -> DbusMenuView {
    if v.status == TimerControllerStatus::Running { menu_with_status(v, TimerControllerStatus::Paused) } else { v }
}

/// The effect of Resume: a paused timer is shown running.
pub open spec fn resume_effect(v: DbusMenuView) -> DbusMenuView {
    if v.status == TimerControllerStatus::Paused { menu_with_status(v, TimerControllerStatus::Running) } else { v }
}

/// The label of the rap item.
pub open spec fn rap_label(rap: u32) -> Seq<char> {
    "Rap: "@ + decimal_text(rap as nat)
}

/// The menu after showing `rap` as the rap.
pub open spec fn rap_set(v: DbusMenuView, rap: u32) -> DbusMenuView {
    DbusMenuView { tree: with_property(v.tree, RAP_ID, "label"@, PropertyValueView::Str(rap_label(rap))), ..v }
}

/// The properties reported as changed when `rap` is shown.
pub open spec fn rap_updates(rap: u32) -> Seq<(i32, Seq<(Seq<char>, PropertyValueView)>)> {
    seq![(RAP_ID, seq![str_entry("label"@, rap_label(rap))])]
}

/// The label of the phase item for the phase named `name`.
pub open spec fn phase_label(name: Seq<char>) -> Seq<char> {
    "Phase: "@ + name
}

/// The menu after showing the phase named `name`.
pub open spec fn phase_set(v: DbusMenuView, name: Seq<char>) -> DbusMenuView {
    DbusMenuView { tree: with_property(v.tree, PHASE_ID, "label"@, PropertyValueView::Str(phase_label(name))), ..v }
}

/// The properties reported as changed when the phase named `name` is shown.
pub open spec fn phase_updates(name: Seq<char>) -> Seq<(i32, Seq<(Seq<char>, PropertyValueView)>)> {
    seq![(PHASE_ID, seq![str_entry("label"@, phase_label(name))])]
}

impl DbusMenu {
    /// The default menu, pending, with revision 1; a start gives the timer
    /// `time` minutes.
    pub fn new(time: TimerMinute) -> (r: Self)
        ensures
            r@ == (DbusMenuView { tree: default_tree(), revision: 1, status: TimerControllerStatus::Pending, time }),
            menu_wf(r@),
    {
        let r = Self {
            menu_tree: default_menu_tree(),
            revision_counter: 1,
            timer_controller_status: TimerControllerStatus::Pending,
            time,
        };
        proof {
            reveal_strlit("label");
            reveal_strlit("visible");
            reveal_strlit("icon-name");
            reveal_strlit("enabled");
            let t = default_tree();
            assert(t[STATUS_ID].properties.last().0 == "enabled"@);
            assert(t[STATUS_ID].properties.drop_last() =~= seq![str_entry("label"@, "Status: Pending"@)]);
            assert(seq![str_entry("label"@, "Status: Pending"@)].last().0 == "label"@);
            assert(property_lookup(t[STATUS_ID].properties, "label"@) == Some(PropertyValueView::Str("Status: Pending"@))) by {
                reveal_with_fuel(property_position, 3);
            }
            assert(property_lookup(t[START_ID].properties, "visible"@) == Some(PropertyValueView::Bool(true))) by {
                reveal_with_fuel(property_position, 3);
            }
            assert(property_lookup(t[PAUSE_ID].properties, "visible"@) == Some(PropertyValueView::Bool(false))) by {
                reveal_with_fuel(property_position, 3);
            }
            assert(property_lookup(t[RESUME_ID].properties, "visible"@) == Some(PropertyValueView::Bool(false))) by {
                reveal_with_fuel(property_position, 3);
            }
            lemma_default_tree_height();
        }
        r
    }

    /// The minutes that the next start gives the timer.
    pub fn set_time(&mut self, time: TimerMinute)
        ensures
            final(self)@ == (DbusMenuView { time, ..old(self)@ }),
    {
        self.time = time;
    }

    /// The revision of the layout.
    pub fn revision(&self) -> (r: u32)
        ensures
            r == self@.revision,
    {
        self.revision_counter
    }

    /// Counts one more revision of the layout, before the changed
    /// properties are announced.
    pub fn bump_revision(&mut self)
        requires
            old(self)@.revision < u32::MAX,
        ensures
            final(self)@ == (DbusMenuView { revision: (old(self)@.revision + 1) as u32, ..old(self)@ }),
    {
        self.revision_counter = self.revision_counter + 1;
    }

    /// Shows `rap` as the rap.
    pub fn set_rap(&mut self, rap: u32) -> (r: Result<UpdateProperties, AppError>)
        ensures
            final(self)@ == rap_set(old(self)@, rap),
            r matches Ok(u) && update_view(u@) == rap_updates(rap),
            menu_wf(old(self)@) ==> menu_wf(final(self)@),
    {
        proof {
            lemma_with_property_height(self@.tree, RAP_ID, "label"@, PropertyValueView::Str(rap_label(rap)));
        }
        let mut text = String::new();
        push_str(&mut text, "Rap: ");
        let digits = decimal_string(rap);
        push_str(&mut text, digits.as_str());
        self.menu_tree.set_property(RAP_ID, "label".to_owned(), PropertyValue::Str(text.clone()));
        let mut update_properties: UpdateProperties = Vec::new();
        update_properties.push((RAP_ID, one_property("label", PropertyValue::Str(text))));
        assert(update_view(update_properties@) =~= rap_updates(rap));
        Ok(update_properties)
    }

    /// Shows the phase named `name`.
    pub fn set_phase_name(&mut self, name: String) -> (r: Result<UpdateProperties, AppError>)
        ensures
            final(self)@ == phase_set(old(self)@, name@),
            r matches Ok(u) && update_view(u@) == phase_updates(name@),
            menu_wf(old(self)@) ==> menu_wf(final(self)@),
    {
        proof {
            lemma_with_property_height(self@.tree, PHASE_ID, "label"@, PropertyValueView::Str(phase_label(name@)));
        }
        let mut text = String::new();
        push_str(&mut text, "Phase: ");
        push_str(&mut text, name.as_str());
        self.menu_tree.set_property(PHASE_ID, "label".to_owned(), PropertyValue::Str(text.clone()));
        let mut update_properties: UpdateProperties = Vec::new();
        update_properties.push((PHASE_ID, one_property("label", PropertyValue::Str(text))));
        assert(update_view(update_properties@) =~= phase_updates(name@));
        Ok(update_properties)
    }

    /// Shows `phase`, by the name that its conversion to `String` gives.
    pub fn set_phase<T: Into<String>>(&mut self, phase: T) -> (r: Result<UpdateProperties, AppError>)
        ensures
            <T as IntoSpec<String>>::obeys_into_spec() ==> final(self)@ == phase_set(old(self)@, phase.into_spec()@),
            <T as IntoSpec<String>>::obeys_into_spec() ==> (r matches Ok(u) && update_view(u@) == phase_updates(
                phase.into_spec()@,
            )),
            final(self)@.status == old(self)@.status,
            final(self)@.time == old(self)@.time,
            final(self)@.revision == old(self)@.revision,
            r is Ok,
            menu_wf(old(self)@) ==> menu_wf(final(self)@),
    {
        let name: String = phase.into();
        self.set_phase_name(name)
    }

    /// Shows status `s` in the menu; the changed properties are returned.
    fn show_status(&mut self, s: TimerControllerStatus) -> (r: UpdateProperties)
        ensures
            final(self)@ == menu_with_status(old(self)@, s),
            update_view(r@) == status_updates(s),
            has_control_items(old(self)@.tree) && height_within(old(self)@.tree, ROOT_ID, 1) && old(
                self,
            )@.tree.dom().finite() ==> menu_wf(final(self)@),
    {
        proof {
            lemma_status_tree_height(self@.tree, s);
            if has_control_items(self@.tree) {
                lemma_status_tree_agrees(self@.tree, s);
            }
        }
        let (label, pending, running, paused) = match s {
            TimerControllerStatus::Pending => ("Status: Pending", true, false, false),
            TimerControllerStatus::Running => ("Status: Running", false, true, false),
            TimerControllerStatus::Paused => ("Status: Paused", false, false, true),
        };
        self.timer_controller_status = s;
        self.menu_tree.set_property(STATUS_ID, "label".to_owned(), str_value(label));
        self.menu_tree.set_property(START_ID, "visible".to_owned(), PropertyValue::Bool(pending));
        self.menu_tree.set_property(PAUSE_ID, "visible".to_owned(), PropertyValue::Bool(running));
        self.menu_tree.set_property(RESUME_ID, "visible".to_owned(), PropertyValue::Bool(paused));
        let mut update_properties: UpdateProperties = Vec::new();
        update_properties.push((STATUS_ID, one_property("label", str_value(label))));
        update_properties.push((START_ID, one_property("visible", PropertyValue::Bool(pending))));
        update_properties.push((PAUSE_ID, one_property("visible", PropertyValue::Bool(running))));
        update_properties.push((RESUME_ID, one_property("visible", PropertyValue::Bool(paused))));
        assert(update_view(update_properties@) =~= status_updates(s));
        update_properties
    }

    /// Start: a pending timer is to be started with the set minutes, and
    /// the menu shows it running; otherwise nothing happens.
    pub fn start(&mut self) -> (r: ControlOutcome)
        ensures
            final(self)@ == start_effect(old(self)@),
            control_result(
                old(self)@.status == TimerControllerStatus::Pending,
                TimerControllerStatus::Running,
                TimerCommand::Start(old(self)@.time),
                r,
            ),
            menu_wf(old(self)@) ==> menu_wf(final(self)@),
    {
        match self.timer_controller_status {
            TimerControllerStatus::Pending => {
                let updates = self.show_status(TimerControllerStatus::Running);
                ControlOutcome { updates, command: Some(TimerCommand::Start(self.time)) }
            },
            _ => ControlOutcome { updates: Vec::new(), command: None },
        }
    }

    /// Pause: a running timer is to be paused, and the menu shows it
    /// paused; otherwise nothing happens.
    pub fn pause(&mut self) -> (r: ControlOutcome)
        ensures
            final(self)@ == pause_effect(old(self)@),
            control_result(
                old(self)@.status == TimerControllerStatus::Running,
                TimerControllerStatus::Paused,
                TimerCommand::Pause,
                r,
            ),
            menu_wf(old(self)@) ==> menu_wf(final(self)@),
    {
        match self.timer_controller_status {
            TimerControllerStatus::Running => {
                let updates = self.show_status(TimerControllerStatus::Paused);
                ControlOutcome { updates, command: Some(TimerCommand::Pause) }
            },
            _ => ControlOutcome { updates: Vec::new(), command: None },
        }
    }

    /// Resume: a paused timer is to run again, and the menu shows it
    /// running; otherwise nothing happens.
    pub fn resume(&mut self) -> (r: ControlOutcome)
        ensures
            final(self)@ == resume_effect(old(self)@),
            control_result(
                old(self)@.status == TimerControllerStatus::Paused,
                TimerControllerStatus::Running,
                TimerCommand::Resume,
                r,
            ),
            menu_wf(old(self)@) ==> menu_wf(final(self)@),
    {
        match self.timer_controller_status {
            TimerControllerStatus::Paused => {
                let updates = self.show_status(TimerControllerStatus::Running);
                ControlOutcome { updates, command: Some(TimerCommand::Resume) }
            },
            _ => ControlOutcome { updates: Vec::new(), command: None },
        }
    }

    /// Makes the controller pending and the menu show it; the timer is sent
    /// nothing.
    pub fn pending(&mut self) -> (r: Result<UpdateProperties, AppError>)
        ensures
            final(self)@ == menu_with_status(old(self)@, TimerControllerStatus::Pending),
            r matches Ok(u) && update_view(u@) == status_updates(TimerControllerStatus::Pending),
            menu_wf(old(self)@) ==> menu_wf(final(self)@),
    {
        Ok(self.show_status(TimerControllerStatus::Pending))
    }

    /// Reset: the controller becomes pending and the timer is to be reset.
    pub fn reset(&mut self) -> (r: ControlOutcome)
        ensures
            final(self)@ == menu_with_status(old(self)@, TimerControllerStatus::Pending),
            control_result(true, TimerControllerStatus::Pending, TimerCommand::Reset, r),
            menu_wf(old(self)@) ==> menu_wf(final(self)@),
    {
        let updates = self.show_status(TimerControllerStatus::Pending);
        ControlOutcome { updates, command: Some(TimerCommand::Reset) }
    }

    /// Skip: the controller becomes pending and the timer is to be skipped.
    pub fn skip(&mut self) -> (r: ControlOutcome)
        ensures
            final(self)@ == menu_with_status(old(self)@, TimerControllerStatus::Pending),
            control_result(true, TimerControllerStatus::Pending, TimerCommand::Skip, r),
            menu_wf(old(self)@) ==> menu_wf(final(self)@),
    {
        let updates = self.show_status(TimerControllerStatus::Pending);
        ControlOutcome { updates, command: Some(TimerCommand::Skip) }
    }

    /// Exit: the timer loop is to be told to end.
    pub fn exit(&self) -> (r: TimerCommand)
        ensures
            r == TimerCommand::Terminate,
    {
        TimerCommand::Terminate
    }

    /// Handles a click on item `id`: the controls act, Settings asks for the
    /// settings dialog, Exit ends the timer loop; other items do nothing.
    pub fn event(&mut self, id: i32) -> (r: MenuEvent)
        ensures
            id == START_ID ==> final(self)@ == start_effect(old(self)@) && (r matches MenuEvent::Control(o)
                && control_result(
                old(self)@.status == TimerControllerStatus::Pending,
                TimerControllerStatus::Running,
                TimerCommand::Start(old(self)@.time),
                o,
            )),
            id == PAUSE_ID ==> final(self)@ == pause_effect(old(self)@) && (r matches MenuEvent::Control(o)
                && control_result(
                old(self)@.status == TimerControllerStatus::Running,
                TimerControllerStatus::Paused,
                TimerCommand::Pause,
                o,
            )),
            id == RESUME_ID ==> final(self)@ == resume_effect(old(self)@) && (r matches MenuEvent::Control(o)
                && control_result(
                old(self)@.status == TimerControllerStatus::Paused,
                TimerControllerStatus::Running,
                TimerCommand::Resume,
                o,
            )),
            id == RESET_ID ==> final(self)@ == menu_with_status(old(self)@, TimerControllerStatus::Pending) && (
            r matches MenuEvent::Control(o) && control_result(true, TimerControllerStatus::Pending, TimerCommand::Reset, o)),
            id == SKIP_ID ==> final(self)@ == menu_with_status(old(self)@, TimerControllerStatus::Pending) && (
            r matches MenuEvent::Control(o) && control_result(true, TimerControllerStatus::Pending, TimerCommand::Skip, o)),
            id == SETTINGS_ID ==> final(self)@ == old(self)@ && r is OpenSettings,
            id == EXIT_ID ==> final(self)@ == old(self)@ && (r matches MenuEvent::Exit(c) && c == TimerCommand::Terminate),
            !is_clickable(id) ==> final(self)@ == old(self)@ && r is Ignored,
            menu_wf(old(self)@) ==> menu_wf(final(self)@),
    {
        if id == START_ID {
            MenuEvent::Control(self.start())
        } else if id == PAUSE_ID {
            MenuEvent::Control(self.pause())
        } else if id == RESUME_ID {
            MenuEvent::Control(self.resume())
        } else if id == RESET_ID {
            MenuEvent::Control(self.reset())
        } else if id == SKIP_ID {
            MenuEvent::Control(self.skip())
        } else if id == SETTINGS_ID {
            MenuEvent::OpenSettings
        } else if id == EXIT_ID {
            MenuEvent::Exit(self.exit())
        } else {
            MenuEvent::Ignored
        }
    }

    /// The version of the menu protocol: 2.
    pub fn version(&self) -> (r: u32)
        ensures
            r == 2,
    {
        2
    }

    /// The status of the menu: "normal".
    pub fn status(&self) -> (r: String)
        ensures
            r@ == "normal"@,
    {
        "normal".to_owned()
    }

    /// The revision and the layout from item `parent_id`, as
    /// [`MenuTree::to_tree`] makes it. The layout of all levels of the
    /// menu from its root holds every item: it is the layout with any fuel.
    pub fn get_layout(&self, parent_id: i32, recursion_depth: i32, property_names: &[String]) -> (r: (u32, MenuLayout))
        ensures
            r.0 == self@.revision,
            self@.tree.contains_key(parent_id) ==> layout_of(
                self@.tree,
                r.1,
                parent_id,
                0,
                recursion_depth as int,
                name_texts(property_names@),
                tree_fuel(self@.tree.len()),
            ),
            !self@.tree.contains_key(parent_id) ==> r.1.id == parent_id && r.1.properties@.len() == 0
                && r.1.children@.len() == 0,
            menu_wf(self@) && self@.tree.contains_key(ROOT_ID) && parent_id == ROOT_ID && recursion_depth == -1
                ==> forall|f: nat| f >= 1 ==> #[trigger] layout_of(
                self@.tree,
                r.1,
                ROOT_ID,
                0,
                -1,
                name_texts(property_names@),
                f,
            ),
    {
        let layout = self.menu_tree.to_tree(parent_id, recursion_depth, property_names);
        proof {
            if menu_wf(self@) && self@.tree.contains_key(ROOT_ID) && parent_id == ROOT_ID && recursion_depth == -1 {
                if self@.tree.len() == 0 {
                    self@.tree.dom().lemma_len0_is_empty();
                    assert(self@.tree.dom().contains(ROOT_ID));
                }
                assert(height_within(self@.tree, ROOT_ID, 1));
                assert(tree_fuel(self@.tree.len()) >= 1);
            }
        }
        (self.revision_counter, layout)
    }

    /// For each id, the id and the properties named in `property_names`, as
    /// [`MenuTree::get_group_properties`] gives them.
    pub fn get_group_properties(&self, ids: &[i32], property_names: &[String]) -> (r: Vec<(i32, MenuProperties)>)
        ensures
            r@.len() == ids@.len(),
            forall|i: int| 0 <= i < ids@.len() ==> (#[trigger] r@[i]).0 == ids@[i] && r@[i].1@ == (if self@.tree.contains_key(ids@[i]) {
                selected_properties(self@.tree[ids@[i]].properties, name_texts(property_names@))
            } else {
                Seq::empty()
            }),
    {
        self.menu_tree.get_group_properties(ids, property_names)
    }

    /// The value of one property of one item (the empty string when either
    /// is missing).
    pub fn get_property(&self, id: i32, name: &str) -> (r: PropertyValue)
        ensures
            r@ == property_or_empty(self@.tree, id, name@),
    {
        self.menu_tree.get_property(id, name)
    }

    /// Whether the item wants to be shown first: always.
    pub fn about_to_show(&self, id: i32) -> (r: bool)
        ensures
            r,
    {
        true
    }
}

/// Start runs a pending timer, Pause pauses a running one and Resume runs
/// a paused one; each leaves any other status as it was. None of them
/// changes the revision or the minutes of the next start.
pub proof fn lemma_controls_move_the_status(v: DbusMenuView)
    ensures
        start_effect(v).status == if v.status == TimerControllerStatus::Pending {
            TimerControllerStatus::Running
        } else {
            v.status
        },
        pause_effect(v).status == if v.status == TimerControllerStatus::Running {
            TimerControllerStatus::Paused
        } else {
            v.status
        },
        resume_effect(v).status == if v.status == TimerControllerStatus::Paused {
            TimerControllerStatus::Running
        } else {
            v.status
        },
        start_effect(v).revision == v.revision && start_effect(v).time == v.time,
        pause_effect(v).revision == v.revision && pause_effect(v).time == v.time,
        resume_effect(v).revision == v.revision && resume_effect(v).time == v.time,
        v.status != TimerControllerStatus::Pending ==> start_effect(v) == v,
        v.status != TimerControllerStatus::Running ==> pause_effect(v) == v,
        v.status != TimerControllerStatus::Paused ==> resume_effect(v) == v,
{
}

/// A status change announces the status label, then the visibility of
/// Start, Pause and Resume under their own ids: Start is shown exactly when
/// pending, Pause when running, Resume when paused.
pub proof fn lemma_status_updates_name_their_items(s: TimerControllerStatus)
    ensures
        status_updates(s).len() == 4,
        status_updates(s)[0] == (11i32, seq![(("label"@), PropertyValueView::Str("Status: "@ + match s {
            TimerControllerStatus::Pending => "Pending"@,
            TimerControllerStatus::Running => "Running"@,
            TimerControllerStatus::Paused => "Paused"@,
        }))]),
        status_updates(s)[1] == (21i32, seq![(("visible"@), PropertyValueView::Bool(s is Pending))]),
        status_updates(s)[2] == (23i32, seq![(("visible"@), PropertyValueView::Bool(s is Running))]),
        status_updates(s)[3] == (22i32, seq![(("visible"@), PropertyValueView::Bool(s is Paused))]),
{
    reveal_strlit("Status: Pending");
    reveal_strlit("Status: Running");
    reveal_strlit("Status: Paused");
    reveal_strlit("Status: ");
    reveal_strlit("Pending");
    reveal_strlit("Running");
    reveal_strlit("Paused");
    assert("Status: Pending"@ =~= "Status: "@ + "Pending"@);
    assert("Status: Running"@ =~= "Status: "@ + "Running"@);
    assert("Status: Paused"@ =~= "Status: "@ + "Paused"@);
}

} // verus!
