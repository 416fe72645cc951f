use videre::ui::shell::{apply_shortcut, open_entry, shell_page, shortcut_for, modifier_held,
    sidebar_tables, tab_class, Shortcut, ShellPage, SidebarEntry, SidebarTables};
use videre::ui::tabs::{TabStore, TabType};

fn labels(s: &TabStore) -> Vec<String> {
    s.tabs.iter().map(|t| t.label.clone()).collect()
}

#[test]
fn opening_a_table_twice_focuses_the_same_tab() {
    let mut s = TabStore::init();
    s.open_table_tab("gods".into(), "public".into(), "t1".into());
    s.open_table_tab("heroes".into(), "public".into(), "t2".into());
    s.open_table_tab("gods".into(), "public".into(), "t3".into());
    assert_eq!(s.tabs.len(), 2);
    assert_eq!(s.active_tab_id.as_deref(), Some("t1"));
    assert_eq!(s.active_tab().unwrap().label, "gods");
}

#[test]
fn same_name_in_another_schema_is_another_tab() {
    let mut s = TabStore::init();
    s.open_table_tab("gods".into(), "public".into(), "t1".into());
    s.open_table_tab("gods".into(), "archive".into(), "t2".into());
    assert_eq!(s.tabs.len(), 2);
    assert_eq!(s.active_tab_id.as_deref(), Some("t2"));
}

#[test]
fn active_empty_tab_is_reused() {
    let mut s = TabStore::init();
    s.open_empty_tab("e1".into());
    assert_eq!(labels(&s), vec!["Untitled 1"]);
    s.open_table_tab("gods".into(), "public".into(), "t1".into());
    assert_eq!(s.tabs.len(), 1);
    assert_eq!(s.tabs[0].id, "e1");
    assert_eq!(s.tabs[0].label, "gods");
    assert_eq!(
        s.tabs[0].tab_type,
        TabType::Table { name: "gods".into(), schema: "public".into() }
    );
    assert_eq!(s.active_tab_id.as_deref(), Some("e1"));
}

#[test]
fn singletons_exist_once() {
    let mut s = TabStore::init();
    s.open_singleton_tab(TabType::Settings, "Settings", "s1".into());
    s.open_table_tab("gods".into(), "public".into(), "t1".into());
    s.open_singleton_tab(TabType::Settings, "Settings", "s2".into());
    assert_eq!(s.tabs.len(), 2);
    assert_eq!(s.active_tab_id.as_deref(), Some("s1"));
}

#[test]
fn untitled_numbers_fill_the_lowest_gap() {
    let mut s = TabStore::init();
    s.open_empty_tab("a".into());
    s.open_empty_tab("b".into());
    s.open_empty_tab("c".into());
    assert_eq!(labels(&s), vec!["Untitled 1", "Untitled 2", "Untitled 3"]);
    s.close_tab("b");
    s.open_empty_tab("d".into());
    assert_eq!(labels(&s), vec!["Untitled 1", "Untitled 3", "Untitled 2"]);
    s.open_empty_tab("e".into());
    assert_eq!(labels(&s).last().unwrap(), "Untitled 4");
}

#[test]
fn closing_the_active_tab_focuses_the_last_remaining() {
    let mut s = TabStore::init();
    s.open_table_tab("a".into(), "p".into(), "1".into());
    s.open_table_tab("b".into(), "p".into(), "2".into());
    s.open_table_tab("c".into(), "p".into(), "3".into());
    s.set_active("1");
    s.close_active_tab();
    assert_eq!(s.tabs.len(), 2);
    assert_eq!(s.active_tab_id.as_deref(), Some("3"));
    s.close_tab("2");
    assert_eq!(s.active_tab_id.as_deref(), Some("3"));
    s.close_tab("3");
    assert_eq!(s.active_tab_id, None);
    assert!(s.active_tab().is_none());
}

#[test]
fn switch_ignores_missing_indexes() {
    let mut s = TabStore::init();
    s.open_table_tab("a".into(), "p".into(), "1".into());
    s.open_table_tab("b".into(), "p".into(), "2".into());
    s.switch_to_tab(0);
    assert_eq!(s.active_tab_id.as_deref(), Some("1"));
    s.switch_to_tab(5);
    assert_eq!(s.active_tab_id.as_deref(), Some("1"));
}

#[test]
fn shortcuts_need_the_modifier() {
    assert_eq!(shortcut_for("t", false), None);
    assert_eq!(shortcut_for("t", true), Some(Shortcut::NewTab));
    assert_eq!(shortcut_for("w", true), Some(Shortcut::CloseTab));
    assert_eq!(shortcut_for("1", true), Some(Shortcut::SwitchTo(0)));
    assert_eq!(shortcut_for("9", true), Some(Shortcut::SwitchTo(8)));
    assert_eq!(shortcut_for("0", true), None);
    assert_eq!(shortcut_for("x", true), None);
    assert!(modifier_held(true, true, false));
    assert!(!modifier_held(true, false, true));
    assert!(modifier_held(false, false, true));
}

#[test]
fn shortcuts_drive_the_strip() {
    let mut s = TabStore::init();
    apply_shortcut(&mut s, Shortcut::NewTab, "a".into());
    apply_shortcut(&mut s, Shortcut::NewTab, "b".into());
    apply_shortcut(&mut s, Shortcut::SwitchTo(0), String::new());
    assert_eq!(s.active_tab_id.as_deref(), Some("a"));
    apply_shortcut(&mut s, Shortcut::CloseTab, String::new());
    assert_eq!(labels(&s), vec!["Untitled 2"]);
}

#[test]
fn content_follows_the_active_tab() {
    let mut s = TabStore::init();
    assert!(matches!(shell_page(&s), ShellPage::Welcome));
    s.open_table_tab("gods".into(), "public".into(), "1".into());
    match shell_page(&s) {
        ShellPage::Table { name, schema } => {
            assert_eq!(name, "gods");
            assert_eq!(schema, "public");
        }
        _ => panic!("expected the table page"),
    }
    open_entry(&mut s, SidebarEntry::Roles, "2".into());
    assert!(matches!(shell_page(&s), ShellPage::Roles));
    assert_eq!(s.tabs[1].label, "Roles");
    assert_eq!(tab_class(&s, &s.tabs[1]), "tab active");
    assert_eq!(tab_class(&s, &s.tabs[0]), "tab");
}

#[test]
fn sidebar_table_list_states() {
    assert_eq!(sidebar_tables(true, 3), SidebarTables::Loading);
    assert_eq!(sidebar_tables(false, 0), SidebarTables::NoTables);
    assert_eq!(sidebar_tables(false, 2), SidebarTables::List);
}

#[test]
fn closing_every_tab_shows_the_welcome_screen() {
    let mut s = TabStore::init();
    s.open_empty_tab("a".into());
    s.open_singleton_tab(TabType::Indexes, "Indexes", "b".into());
    s.close_active_tab();
    s.close_active_tab();
    assert!(s.tabs.is_empty());
    assert!(matches!(shell_page(&s), ShellPage::Welcome));
}

use videre::ui::shell::{is_mac_platform, starts_window_drag};

#[test]
fn platform_and_title_bar_decisions() {
    assert!(is_mac_platform("MacIntel"));
    assert!(is_mac_platform("iMac"));
    assert!(!is_mac_platform("Win32"));
    assert!(!is_mac_platform("Ma"));
    assert!(!is_mac_platform("mac"));
    assert!(starts_window_drag(0));
    assert!(!starts_window_drag(2));
}
