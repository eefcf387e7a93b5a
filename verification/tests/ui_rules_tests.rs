use sea_lantern::ui_rules::{
    plan_insert, plan_register_context_menu, plan_register_sidebar, plan_set_attribute,
    plan_set_style, plan_toast, plan_unregister_context_menu, MenuItemArg, UiArgError, UiChannel,
};

fn item(id: Option<&str>, label: Option<&str>, icon: Option<&str>) -> MenuItemArg {
    MenuItemArg {
        id: id.map(String::from),
        label: label.map(String::from),
        icon: icon.map(String::from),
    }
}

#[test]
fn only_the_five_contexts_are_accepted() {
    for ctx in ["server-list", "console", "plugin-list", "player-list", "global"] {
        assert!(plan_register_context_menu(ctx, &vec![]).is_ok(), "{}", ctx);
        assert!(plan_unregister_context_menu(ctx).is_ok(), "{}", ctx);
    }
    assert_eq!(
        plan_register_context_menu("toolbar", &vec![]).err(),
        Some(UiArgError::InvalidContext)
    );
    assert_eq!(
        plan_unregister_context_menu("toolbar").err(),
        Some(UiArgError::InvalidContext)
    );
}

#[test]
fn menu_items_need_id_and_label() {
    let missing_id = vec![item(None, Some("Open"), None)];
    assert_eq!(
        plan_register_context_menu("console", &missing_id).err(),
        Some(UiArgError::MissingItemId)
    );
    let missing_label = vec![item(Some("open"), None, None)];
    assert_eq!(
        plan_register_context_menu("console", &missing_label).err(),
        Some(UiArgError::MissingItemLabel)
    );
}

#[test]
fn menu_payload_is_the_json_array_of_the_items() {
    let items = vec![
        item(Some("open"), Some("Open"), None),
        item(Some("del"), Some("Delete"), Some("trash")),
    ];
    let plan = plan_register_context_menu("console", &items).unwrap();
    assert_eq!(plan.channel, UiChannel::ContextMenu);
    assert_eq!(plan.kind, "register");
    assert_eq!(plan.target, "console");
    let expected = String::from("[{\"id\":\"open\",\"label\":\"Open\"},")
        + "{\"icon\":\"trash\",\"id\":\"del\",\"label\":\"Delete\"}]";
    assert_eq!(String::from_utf8(plan.payload).unwrap(), expected);
}

#[test]
fn toast_duration_defaults_to_three_seconds() {
    let plan = plan_toast("info", "hello", None);
    assert_eq!(plan.kind, "toast");
    assert_eq!(
        String::from_utf8(plan.payload).unwrap(),
        "{\"duration\":3000,\"message\":\"hello\",\"type\":\"info\"}"
    );
    let plan = plan_toast("error", "x", Some(500));
    assert_eq!(
        String::from_utf8(plan.payload).unwrap(),
        "{\"duration\":500,\"message\":\"x\",\"type\":\"error\"}"
    );
}

#[test]
fn only_the_four_placements_are_accepted() {
    for p in ["before", "after", "prepend", "append"] {
        let plan = plan_insert(p, "#list", "<li/>").unwrap();
        assert_eq!(plan.target, format!("{}|#list", p));
        assert_eq!(plan.payload, b"<li/>".to_vec());
    }
    assert_eq!(
        plan_insert("inside", "#list", "<li/>").err(),
        Some(UiArgError::InvalidPlacement)
    );
}

#[test]
fn styles_and_attributes_carry_json_payloads() {
    let styles = vec![
        (String::from("color"), String::from("red")),
        (String::from("width"), String::from("2px")),
    ];
    let plan = plan_set_style("#x", &styles);
    assert_eq!(
        String::from_utf8(plan.payload).unwrap(),
        "{\"color\":\"red\",\"width\":\"2px\"}"
    );
    let plan = plan_set_attribute("#x", "title", "hi");
    assert_eq!(
        String::from_utf8(plan.payload).unwrap(),
        "{\"attribute\":\"title\",\"value\":\"hi\"}"
    );
}

#[test]
fn the_sidebar_needs_a_label() {
    assert_eq!(
        plan_register_sidebar(None, None).err(),
        Some(UiArgError::MissingSidebarLabel)
    );
    let plan = plan_register_sidebar(Some(String::from("Tools")), None).unwrap();
    assert_eq!(plan.channel, UiChannel::Sidebar);
    assert_eq!(plan.target, "Tools");
    assert!(plan.payload.is_empty());
}
