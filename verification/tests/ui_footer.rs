use coding_agent_search::ui::tui::footer_legend;

#[test]
fn footer_legend_toggles_help() {
    let hidden = footer_legend(false);
    assert!(hidden.contains("F1 help"));
    assert!(hidden.contains("Esc/F10 quit"));

    let shown = footer_legend(true);
    assert!(shown.contains("Esc/F10 quit"));
    assert!(shown.contains("F11 clear"));
}

#[test]
fn footer_legend_exact_texts() {
    assert_eq!(footer_legend(false), "F1 help • Esc/F10 quit");
    assert_eq!(
        footer_legend(true),
        "F3 agent • F4 workspace • F5/F6 time • F7 context • F11 clear • F9 mode • F2 theme • F8/Enter open • Ctrl-R history • Esc/F10 quit"
    );
}
