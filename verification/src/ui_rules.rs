//! The decision logic of the interface namespace. Every `ui.*` call is
//! fire-and-forget: it validates its arguments, builds one typed event —
//! channel, kind, target and payload bytes — and the host emits it to the
//! interface bus and reports a boolean, never waiting for an effect.
//! Where a payload is JSON it is rendered by the crate's own encoder,
//! pairs in name order, so the bytes are pinned here rather than at the
//! bus.

use vstd::prelude::*;
use vstd::utf8::encode_utf8;

use crate::json_out::{json_bytes, json_encode};
use crate::text::str_eq;
use crate::value::{items_deep, pairs_deep, TreeV, TreeValue};

verus! {

/// The bus a planned event goes out on.
#[derive(Debug, Clone, Copy, PartialEq, Eq, Structural)]
pub enum UiChannel {
    /// The general interface event sink.
    Ui,
    /// The context-menu registry.
    ContextMenu,
    /// The sidebar registry.
    Sidebar,
    /// The component mirror.
    Component,
}

/// One fire-and-forget interface event, fully decided.
pub struct UiEventPlan {
    /// The bus to emit on.
    pub channel: UiChannel,
    /// The event kind the front end dispatches on.
    pub kind: String,
    /// The element, selector, context or label the event addresses.
    pub target: String,
    /// The payload bytes: raw text for markup and styles, JSON otherwise.
    pub payload: Vec<u8>,
}

/// An argument the namespace refuses before any event is built.
#[derive(Debug, Clone, Copy, PartialEq, Eq, Structural)]
pub enum UiArgError {
    /// The context is not one of the five the front end knows.
    InvalidContext,
    /// A menu item carries no id.
    MissingItemId,
    /// A menu item carries no label.
    MissingItemLabel,
    /// The sidebar configuration carries no label.
    MissingSidebarLabel,
    /// The placement is not before, after, prepend or append.
    InvalidPlacement,
}

/// A context-menu item as the script handed it over, fields unchecked.
pub struct MenuItemArg {
    pub id: Option<String>,
    pub label: Option<String>,
    pub icon: Option<String>,
}

/// The model of one unchecked menu item.
pub type MenuItemV = (Option<Seq<char>>, Option<Seq<char>>, Option<Seq<char>>);

impl DeepView for MenuItemArg {
    type V = MenuItemV;

    open spec fn deep_view(&self) -> MenuItemV {
        (
            match self.id {
                Some(ref s) => Some(s@),
                None => None,
            },
            match self.label {
                Some(ref s) => Some(s@),
                None => None,
            },
            match self.icon {
                Some(ref s) => Some(s@),
                None => None,
            },
        )
    }
}

/// The five contexts a menu may attach to.
pub open spec fn spec_valid_context(c: Seq<char>) -> bool {
    c == "server-list"@ || c == "console"@ || c == "plugin-list"@ || c == "player-list"@ || c
        == "global"@
}

/// The four placements an insertion may use.
pub open spec fn spec_valid_placement(p: Seq<char>) -> bool {
    p == "before"@ || p == "after"@ || p == "prepend"@ || p == "append"@
}

/// The first menu item missing its id or label, if any.
pub open spec fn spec_first_bad_item(items: Seq<MenuItemV>) -> Option<int>
    decreases items.len(),
{
    if items.len() == 0 {
        None
    } else if items[0].0 is None || items[0].1 is None {
        Some(0)
    } else {
        match spec_first_bad_item(items.drop_first()) {
            Some(j) => Some(j + 1),
            None => None,
        }
    }
}

/// The JSON tree of one checked menu item: its icon when present, then id
/// and label, in name order.
pub open spec fn spec_menu_item_tree(it: MenuItemV) -> TreeV {
    let id = match it.0 {
        Some(s) => s,
        None => Seq::empty(),
    };
    let label = match it.1 {
        Some(s) => s,
        None => Seq::empty(),
    };
    match it.2 {
        Some(icon) => TreeV::Obj(
            seq![
                ("icon"@, TreeV::Str(icon)),
                ("id"@, TreeV::Str(id)),
                ("label"@, TreeV::Str(label)),
            ],
        ),
        None => TreeV::Obj(seq![("id"@, TreeV::Str(id)), ("label"@, TreeV::Str(label))]),
    }
}

/// The JSON tree of a checked menu item run.
pub open spec fn spec_menu_items_tree(items: Seq<MenuItemV>) -> TreeV {
    TreeV::Arr(
        Seq::new(
            items.len(),
            |i: int|
                if 0 <= i < items.len() {
                    spec_menu_item_tree(items[i])
                } else {
                    TreeV::Null
                },
        ),
    )
}

/// The empty literal reads as the empty sequence, in characters and bytes.
proof fn lemma_empty_str()
    ensures
        ""@ =~= Seq::<char>::empty(),
        encode_utf8(""@) =~= Seq::<u8>::empty(),
{
    reveal_strlit("");
    assert(""@ =~= Seq::<char>::empty());
}

/// Checks a context name.
pub fn valid_context(context: &str) -> (r: bool)
    ensures
        r == spec_valid_context(context@),
{
    str_eq(context, "server-list") || str_eq(context, "console") || str_eq(
        context,
        "plugin-list",
    ) || str_eq(context, "player-list") || str_eq(context, "global")
}

/// An event carrying the text payload as it stands.
fn text_plan(channel: UiChannel, kind: &str, target: &str, payload: &str) -> (r: UiEventPlan)
    ensures
        r.channel == channel,
        r.kind@ == kind@,
        r.target@ == target@,
        r.payload@ == encode_utf8(payload@),
{
    UiEventPlan {
        channel,
        kind: kind.to_owned(),
        target: target.to_owned(),
        payload: payload.as_bytes_vec(),
    }
}

/// Injects markup under an element id.
pub fn plan_inject_html(element_id: &str, html: &str) -> (r: UiEventPlan)
    ensures
        r.channel == UiChannel::Ui && r.kind@ == "inject"@ && r.target@ == element_id@
            && r.payload@ == encode_utf8(html@),
{
    text_plan(UiChannel::Ui, "inject", element_id, html)
}

/// Removes injected markup by element id.
pub fn plan_remove_html(element_id: &str) -> (r: UiEventPlan)
    ensures
        r.channel == UiChannel::Ui && r.kind@ == "remove"@ && r.target@ == element_id@
            && r.payload@ == Seq::<u8>::empty(),
{
    proof {
        lemma_empty_str();
    }
    text_plan(UiChannel::Ui, "remove", element_id, "")
}

/// Replaces injected markup by element id.
pub fn plan_update_html(element_id: &str, html: &str) -> (r: UiEventPlan)
    ensures
        r.channel == UiChannel::Ui && r.kind@ == "update"@ && r.target@ == element_id@
            && r.payload@ == encode_utf8(html@),
{
    text_plan(UiChannel::Ui, "update", element_id, html)
}

/// Injects a stylesheet under a style id.
pub fn plan_inject_css(style_id: &str, css: &str) -> (r: UiEventPlan)
    ensures
        r.channel == UiChannel::Ui && r.kind@ == "inject_css"@ && r.target@ == style_id@
            && r.payload@ == encode_utf8(css@),
{
    text_plan(UiChannel::Ui, "inject_css", style_id, css)
}

/// Removes a stylesheet by style id.
pub fn plan_remove_css(style_id: &str) -> (r: UiEventPlan)
    ensures
        r.channel == UiChannel::Ui && r.kind@ == "remove_css"@ && r.target@ == style_id@
            && r.payload@ == Seq::<u8>::empty(),
{
    proof {
        lemma_empty_str();
    }
    text_plan(UiChannel::Ui, "remove_css", style_id, "")
}

/// Hides, shows, disables or enables by selector; the kind is one of
/// those four words and the payload empty.
pub fn plan_visibility(kind: &str, selector: &str) -> (r: UiEventPlan)
    ensures
        r.channel == UiChannel::Ui && r.kind@ == kind@ && r.target@ == selector@ && r.payload@
            == Seq::<u8>::empty(),
{
    proof {
        lemma_empty_str();
    }
    text_plan(UiChannel::Ui, kind, selector, "")
}

/// Removes nodes by selector.
pub fn plan_remove_selector(selector: &str) -> (r: UiEventPlan)
    ensures
        r.channel == UiChannel::Ui && r.kind@ == "remove_selector"@ && r.target@ == selector@
            && r.payload@ == Seq::<u8>::empty(),
{
    proof {
        lemma_empty_str();
    }
    text_plan(UiChannel::Ui, "remove_selector", selector, "")
}

/// Queries whether a selector matches; the reply, if any, arrives on the
/// element bridge.
pub fn plan_query(selector: &str) -> (r: UiEventPlan)
    ensures
        r.channel == UiChannel::Ui && r.kind@ == "query"@ && r.target@ == selector@
            && r.payload@ == Seq::<u8>::empty(),
{
    proof {
        lemma_empty_str();
    }
    text_plan(UiChannel::Ui, "query", selector, "")
}

/// Inserts markup relative to a selector: the placement must be one of
/// the four known words; the target combines placement and selector with
/// a bar.
pub fn plan_insert(placement: &str, selector: &str, html: &str) -> (r: Result<
    UiEventPlan,
    UiArgError,
>)
    ensures
        match r {
            Err(e) => e == UiArgError::InvalidPlacement && !spec_valid_placement(placement@),
            Ok(p) => spec_valid_placement(placement@) && p.channel == UiChannel::Ui && p.kind@
                == "insert"@ && p.target@ == placement@ + seq!['|'] + selector@ && p.payload@
                == encode_utf8(html@),
        },
{
    let ok = str_eq(placement, "before") || str_eq(placement, "after") || str_eq(
        placement,
        "prepend",
    ) || str_eq(placement, "append");
    if !ok {
        return Err(UiArgError::InvalidPlacement);
    }
    let mut target = placement.to_owned();
    target.push('|');
    target.append(selector);
    Ok(
        UiEventPlan {
            channel: UiChannel::Ui,
            kind: String::from_str("insert"),
            target,
            payload: html.as_bytes_vec(),
        },
    )
}

/// A toast notification: type and message as given, duration defaulting
/// to three seconds, the payload their JSON object in name order.
pub fn plan_toast(toast_type: &str, message: &str, duration: Option<u32>) -> (r: UiEventPlan)
    ensures
        r.channel == UiChannel::Ui && r.kind@ == "toast"@ && r.target@ == "toast"@,
        r.payload@ == json_bytes(
            TreeV::Obj(
                seq![
                    ("duration"@, TreeV::Int(spec_toast_duration(duration) as int)),
                    ("message"@, TreeV::Str(message@)),
                    ("type"@, TreeV::Str(toast_type@)),
                ],
            ),
        ),
{
    let dur: u32 = match duration {
        Some(d) => d,
        None => 3000,
    };
    let mut pairs: Vec<(String, TreeValue)> = Vec::new();
    pairs.push((String::from_str("duration"), TreeValue::Int(dur as i64)));
    pairs.push((String::from_str("message"), TreeValue::Str(message.to_owned())));
    pairs.push((String::from_str("type"), TreeValue::Str(toast_type.to_owned())));
    let tree = TreeValue::Obj(pairs);
    proof {
        assert(pairs_deep(pairs@) =~~= seq![
            ("duration"@, TreeV::Int(spec_toast_duration(duration) as int)),
            ("message"@, TreeV::Str(message@)),
            ("type"@, TreeV::Str(toast_type@)),
        ]);
    }
    let payload = json_encode(&tree);
    UiEventPlan {
        channel: UiChannel::Ui,
        kind: String::from_str("toast"),
        target: String::from_str("toast"),
        payload,
    }
}

/// The duration a toast shows for, in milliseconds.
pub open spec fn spec_toast_duration(duration: Option<u32>) -> u32 {
    match duration {
        Some(d) => d,
        None => 3000,
    }
}

/// Styles by selector: the payload is the JSON object of the given
/// name/value pairs, in the given order.
#[verifier::loop_isolation(false)]
pub fn plan_set_style(selector: &str, styles: &Vec<(String, String)>) -> (r: UiEventPlan)
    ensures
        r.channel == UiChannel::Ui && r.kind@ == "set_style"@ && r.target@ == selector@,
        r.payload@ == json_bytes(TreeV::Obj(spec_style_pairs(styles.deep_view()))),
{
    let ghost ds = styles.deep_view();
    let mut pairs: Vec<(String, TreeValue)> = Vec::new();
    let mut i: usize = 0;
    while i < styles.len()
        invariant
            i <= styles.len(),
            ds == styles.deep_view(),
            ds.len() == styles.len(),
            pairs.len() == i,
            forall|j: int|
                0 <= j < i ==> #[trigger] pairs_deep(pairs@)[j] == (ds[j].0, TreeV::Str(ds[j].1)),
        decreases styles.len() - i,
    {
        let ghost old_pairs = pairs@;
        pairs.push((styles[i].0.clone(), TreeValue::Str(styles[i].1.clone())));
        proof {
            assert forall|j: int| 0 <= j < i + 1 implies #[trigger] pairs_deep(pairs@)[j] == (
            ds[j].0, TreeV::Str(ds[j].1)) by {
                if j < i {
                    assert(pairs@[j] == old_pairs[j]);
                    assert(pairs_deep(old_pairs)[j] == (old_pairs[j].0@, old_pairs[j].1.deep_view()));
                }
            }
        }
        i += 1;
    }
    let tree = TreeValue::Obj(pairs);
    proof {
        assert(pairs_deep(pairs@) =~~= spec_style_pairs(ds));
    }
    let payload = json_encode(&tree);
    UiEventPlan {
        channel: UiChannel::Ui,
        kind: String::from_str("set_style"),
        target: selector.to_owned(),
        payload,
    }
}

/// The style pairs as JSON object members.
pub open spec fn spec_style_pairs(ds: Seq<(Seq<char>, Seq<char>)>) -> Seq<(Seq<char>, TreeV)> {
    Seq::new(
        ds.len(),
        |i: int|
            if 0 <= i < ds.len() {
                (ds[i].0, TreeV::Str(ds[i].1))
            } else {
                (Seq::empty(), TreeV::Null)
            },
    )
}

/// One attribute by selector: the payload names the attribute and value.
pub fn plan_set_attribute(selector: &str, attr: &str, value: &str) -> (r: UiEventPlan)
    ensures
        r.channel == UiChannel::Ui && r.kind@ == "set_attribute"@ && r.target@ == selector@,
        r.payload@ == json_bytes(
            TreeV::Obj(
                seq![("attribute"@, TreeV::Str(attr@)), ("value"@, TreeV::Str(value@))],
            ),
        ),
{
    let mut pairs: Vec<(String, TreeValue)> = Vec::new();
    pairs.push((String::from_str("attribute"), TreeValue::Str(attr.to_owned())));
    pairs.push((String::from_str("value"), TreeValue::Str(value.to_owned())));
    let tree = TreeValue::Obj(pairs);
    proof {
        assert(pairs_deep(pairs@) =~~= seq![
            ("attribute"@, TreeV::Str(attr@)),
            ("value"@, TreeV::Str(value@)),
        ]);
    }
    let payload = json_encode(&tree);
    UiEventPlan {
        channel: UiChannel::Ui,
        kind: String::from_str("set_attribute"),
        target: selector.to_owned(),
        payload,
    }
}

/// Registers a context menu: the context must be one of the five known
/// ones and every item must carry id and label; the payload is the JSON
/// array of the items.
#[verifier::loop_isolation(false)]
pub fn plan_register_context_menu(context: &str, items: &Vec<MenuItemArg>) -> (r: Result<
    UiEventPlan,
    UiArgError,
>)
    ensures
        match r {
            Err(e) => (e == UiArgError::InvalidContext && !spec_valid_context(context@)) || (
            spec_valid_context(context@) && (spec_first_bad_item(items.deep_view())
                matches Some(j) && e == (if items.deep_view()[j].0 is None {
                UiArgError::MissingItemId
            } else {
                UiArgError::MissingItemLabel
            }))),
            Ok(p) => spec_valid_context(context@) && spec_first_bad_item(items.deep_view())
                is None && p.channel == UiChannel::ContextMenu && p.kind@ == "register"@
                && p.target@ == context@ && p.payload@ == json_bytes(
                spec_menu_items_tree(items.deep_view()),
            ),
        },
{
    if !valid_context(context) {
        return Err(UiArgError::InvalidContext);
    }
    let ghost ds = items.deep_view();
    proof {
        lemma_first_bad_item(ds);
    }
    let mut out: Vec<TreeValue> = Vec::new();
    let mut i: usize = 0;
    while i < items.len()
        invariant
            i <= items.len(),
            ds == items.deep_view(),
            ds.len() == items.len(),
            out.len() == i,
            forall|j: int| 0 <= j < i ==> !(ds[j].0 is None) && !((#[trigger] ds[j]).1 is None),
            forall|j: int|
                0 <= j < i ==> #[trigger] items_deep(out@)[j] == spec_menu_item_tree(ds[j]),
        decreases items.len() - i,
    {
        let item = &items[i];
        let id = match &item.id {
            Some(s) => s.clone(),
            None => {
                proof {
                    assert(ds[i as int].0 is None);
                    match spec_first_bad_item(ds) {
                        Some(j0) => {
                            if j0 < i {
                                assert(!(ds[j0].0 is None) && !(ds[j0].1 is None));
                            } else if j0 > i {
                                assert(!(ds[i as int].0 is None) && !(ds[i as int].1 is None));
                            }
                        },
                        None => {
                            assert(!(ds[i as int].0 is None) && !(ds[i as int].1 is None));
                        },
                    }
                }
                return Err(UiArgError::MissingItemId);
            },
        };
        let label = match &item.label {
            Some(s) => s.clone(),
            None => {
                proof {
                    assert(ds[i as int].1 is None);
                    match spec_first_bad_item(ds) {
                        Some(j0) => {
                            if j0 < i {
                                assert(!(ds[j0].0 is None) && !(ds[j0].1 is None));
                            } else if j0 > i {
                                assert(!(ds[i as int].0 is None) && !(ds[i as int].1 is None));
                            }
                        },
                        None => {
                            assert(!(ds[i as int].0 is None) && !(ds[i as int].1 is None));
                        },
                    }
                }
                return Err(UiArgError::MissingItemLabel);
            },
        };
        let ghost old_out = out@;
        let mut pairs: Vec<(String, TreeValue)> = Vec::new();
        match &item.icon {
            Some(icon) => {
                pairs.push((String::from_str("icon"), TreeValue::Str(icon.clone())));
            },
            None => {},
        }
        pairs.push((String::from_str("id"), TreeValue::Str(id)));
        pairs.push((String::from_str("label"), TreeValue::Str(label)));
        let obj = TreeValue::Obj(pairs);
        proof {
            match &item.icon {
                Some(icon) => {
                    assert(pairs_deep(pairs@) =~~= seq![
                        ("icon"@, TreeV::Str(icon@)),
                        ("id"@, TreeV::Str(ds[i as int].0.unwrap())),
                        ("label"@, TreeV::Str(ds[i as int].1.unwrap())),
                    ]);
                },
                None => {
                    assert(pairs_deep(pairs@) =~~= seq![
                        ("id"@, TreeV::Str(ds[i as int].0.unwrap())),
                        ("label"@, TreeV::Str(ds[i as int].1.unwrap())),
                    ]);
                },
            }
            assert(obj.deep_view() == spec_menu_item_tree(ds[i as int]));
        }
        out.push(obj);
        proof {
            assert forall|j: int| 0 <= j < i + 1 implies #[trigger] items_deep(out@)[j]
                == spec_menu_item_tree(ds[j]) by {
                if j < i {
                    assert(out@[j] == old_out[j]);
                    assert(items_deep(old_out)[j] == old_out[j].deep_view());
                }
            }
        }
        i += 1;
    }
    let tree = TreeValue::Arr(out);
    proof {
        assert(items_deep(out@) =~~= Seq::new(
            ds.len(),
            |i: int|
                if 0 <= i < ds.len() {
                    spec_menu_item_tree(ds[i])
                } else {
                    TreeV::Null
                },
        ));
    }
    let payload = json_encode(&tree);
    Ok(
        UiEventPlan {
            channel: UiChannel::ContextMenu,
            kind: String::from_str("register"),
            target: context.to_owned(),
            payload,
        },
    )
}

/// What the first bad position means.
proof fn lemma_first_bad_item(items: Seq<MenuItemV>)
    ensures
        match spec_first_bad_item(items) {
            Some(j) => 0 <= j < items.len() && (items[j].0 is None || items[j].1 is None)
                && forall|i: int|
                0 <= i < j ==> !((#[trigger] items[i]).0 is None) && !(items[i].1 is None),
            None => forall|i: int|
                0 <= i < items.len() ==> !((#[trigger] items[i]).0 is None) && !(items[i].1
                    is None),
        },
    decreases items.len(),
{
    if items.len() > 0 && !(items[0].0 is None || items[0].1 is None) {
        let sub = items.drop_first();
        lemma_first_bad_item(sub);
        assert forall|i: int| 0 <= i < sub.len() implies #[trigger] sub[i] == items[i + 1] by {}
        match spec_first_bad_item(sub) {
            Some(j) => {
                assert(items[j + 1] == sub[j]);
                assert forall|i: int|
                    0 <= i < j + 1 implies !((#[trigger] items[i]).0 is None) && !(items[i].1
                    is None) by {
                    if i >= 1 {
                        assert(sub[i - 1] == items[i]);
                    }
                }
            },
            None => {
                assert forall|i: int|
                    0 <= i < items.len() implies !((#[trigger] items[i]).0 is None) && !(
                items[i].1 is None) by {
                    if i >= 1 {
                        assert(sub[i - 1] == items[i]);
                    }
                }
            },
        }
    }
}

/// Unregisters a context menu; the context is validated the same way and
/// the payload is the empty array.
pub fn plan_unregister_context_menu(context: &str) -> (r: Result<UiEventPlan, UiArgError>)
    ensures
        match r {
            Err(e) => e == UiArgError::InvalidContext && !spec_valid_context(context@),
            Ok(p) => spec_valid_context(context@) && p.channel == UiChannel::ContextMenu
                && p.kind@ == "unregister"@ && p.target@ == context@ && p.payload@
                == encode_utf8("[]"@),
        },
{
    if !valid_context(context) {
        return Err(UiArgError::InvalidContext);
    }
    Ok(text_plan(UiChannel::ContextMenu, "unregister", context, "[]"))
}

/// Registers the plugin's sidebar entry: a label is required, the icon
/// defaults to nothing.
pub fn plan_register_sidebar(label: Option<String>, icon: Option<String>) -> (r: Result<
    UiEventPlan,
    UiArgError,
>)
    ensures
        match r {
            Err(e) => e == UiArgError::MissingSidebarLabel && label is None,
            Ok(p) => label matches Some(l) && p.channel == UiChannel::Sidebar && p.kind@
                == "register"@ && p.target@ == l@ && p.payload@ == (match icon {
                Some(ic) => encode_utf8(ic@),
                None => Seq::<u8>::empty(),
            }),
        },
{
    let l = match label {
        Some(l) => l,
        None => {
            return Err(UiArgError::MissingSidebarLabel);
        },
    };
    let ic = match icon {
        Some(ic) => ic,
        None => String::new(),
    };
    proof {
        lemma_empty_str();
    }
    Ok(text_plan(UiChannel::Sidebar, "register", l.as_str(), ic.as_str()))
}

/// Withdraws the plugin's sidebar entry.
pub fn plan_unregister_sidebar() -> (r: UiEventPlan)
    ensures
        r.channel == UiChannel::Sidebar && r.kind@ == "unregister"@ && r.target@
            == Seq::<char>::empty() && r.payload@ == Seq::<u8>::empty(),
{
    proof {
        lemma_empty_str();
    }
    text_plan(UiChannel::Sidebar, "unregister", "", "")
}

/// A component-mirror action: the payload names the action, component,
/// optional member and value, and the calling plugin, in name order.
pub fn plan_component_action(
    plugin_id: &str,
    action: &str,
    component_id: &str,
    member: Option<(&str, &str)>,
    value: Option<TreeValue>,
) -> (r: UiEventPlan)
    ensures
        r.channel == UiChannel::Component && r.kind@ == action@ && r.target@ == component_id@,
        r.payload@ == json_bytes(TreeV::Obj(spec_component_pairs(
            plugin_id@,
            action@,
            component_id@,
            match member {
                Some(m) => Some((m.0@, m.1@)),
                None => None,
            },
            match value {
                Some(v) => Some(v.deep_view()),
                None => None,
            },
        ))),
{
    let mut pairs: Vec<(String, TreeValue)> = Vec::new();
    pairs.push((String::from_str("action"), TreeValue::Str(action.to_owned())));
    pairs.push((String::from_str("component_id"), TreeValue::Str(component_id.to_owned())));
    match member {
        Some(m) => {
            pairs.push((m.0.to_owned(), TreeValue::Str(m.1.to_owned())));
        },
        None => {},
    }
    pairs.push((String::from_str("plugin_id"), TreeValue::Str(plugin_id.to_owned())));
    match value {
        Some(v) => {
            pairs.push((String::from_str("value"), v));
        },
        None => {},
    }
    let tree = TreeValue::Obj(pairs);
    proof {
        assert(pairs_deep(pairs@) =~~= spec_component_pairs(
            plugin_id@,
            action@,
            component_id@,
            match member {
                Some(m) => Some((m.0@, m.1@)),
                None => None,
            },
            match value {
                Some(v) => Some(v.deep_view()),
                None => None,
            },
        ));
    }
    let payload = json_encode(&tree);
    UiEventPlan {
        channel: UiChannel::Component,
        kind: action.to_owned(),
        target: component_id.to_owned(),
        payload,
    }
}

/// The members of a component payload: action and component first, then
/// the optional named member, then the plugin, then the optional value.
pub open spec fn spec_component_pairs(
    plugin_id: Seq<char>,
    action: Seq<char>,
    component_id: Seq<char>,
    member: Option<(Seq<char>, Seq<char>)>,
    value: Option<TreeV>,
) -> Seq<(Seq<char>, TreeV)> {
    let head = seq![
        ("action"@, TreeV::Str(action)),
        ("component_id"@, TreeV::Str(component_id)),
    ];
    let mid = match member {
        Some(m) => head.push((m.0, TreeV::Str(m.1))),
        None => head,
    };
    let with_pid = mid.push(("plugin_id"@, TreeV::Str(plugin_id)));
    match value {
        Some(v) => with_pid.push(("value"@, v)),
        None => with_pid,
    }
}

} // verus!
