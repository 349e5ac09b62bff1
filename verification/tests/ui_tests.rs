use winwifi::ap_detail::DetailViewModel;
use winwifi::ap_table::{
    column_alignment, index_from_selection, selection_from_index, truncate_chars, ColumnAlign,
};

#[test]
fn truncation_keeps_fitting_text() {
    assert_eq!(truncate_chars("abc", 4), "abc");
    assert_eq!(truncate_chars("abcd", 4), "abcd");
    assert_eq!(truncate_chars("abcdef", 1), "abcdef");
    assert_eq!(truncate_chars("", 0), "");
}

#[test]
fn truncation_adds_ellipsis() {
    assert_eq!(truncate_chars("abcdef", 4), "abc…");
    assert_eq!(truncate_chars("abcdef", 2), "a…");
    assert_eq!(truncate_chars("无线网络名称", 3), "无线…");
}

#[test]
fn column_alignments() {
    assert_eq!(column_alignment(0), ColumnAlign::Right);
    assert_eq!(column_alignment(2), ColumnAlign::Right);
    assert_eq!(column_alignment(3), ColumnAlign::Left);
    assert_eq!(column_alignment(5), ColumnAlign::Left);
}

#[test]
fn selection_indices() {
    assert_eq!(selection_from_index(-1), None);
    assert_eq!(selection_from_index(i32::MIN), None);
    assert_eq!(selection_from_index(0), Some(0));
    assert_eq!(selection_from_index(7), Some(7));
    assert_eq!(index_from_selection(None), -1);
    assert_eq!(index_from_selection(Some(3)), 3);
    assert_eq!(selection_from_index(index_from_selection(Some(12))), Some(12));
}

#[test]
fn message_model() {
    let m = DetailViewModel::for_message("定位权限未允许".to_string());
    assert_eq!(m.title, "WiFi Details");
    assert!(m.subtitle.is_empty());
    assert!(m.rows.is_empty());
    assert_eq!(m.message.as_deref(), Some("定位权限未允许"));
}

#[test]
fn shown_title_falls_back() {
    let m = DetailViewModel::default();
    assert_eq!(m.shown_title(), "WiFi Details");
    assert!(m.message.is_none());
    let m = DetailViewModel {
        title: "Home".to_string(),
        subtitle: String::new(),
        rows: vec![("SSID".to_string(), "Home".to_string())],
        message: None,
    };
    assert_eq!(m.shown_title(), "Home");
}
