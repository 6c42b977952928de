use qtrs_widgets::font_combo_box::{FontComboBox, FontFilter, is_monospace};

fn names(list: &[&str]) -> Vec<String> {
    list.iter().map(|s| s.to_string()).collect()
}

#[test]
fn monospace_heuristic() {
    assert!(is_monospace("Consolas"));
    assert!(is_monospace("COURIER NEW"));
    assert!(is_monospace("DejaVu Sans Mono"));
    assert!(!is_monospace("Monaco"));
    assert!(is_monospace("Liberation MONO"));
    assert!(!is_monospace("Arial"));
    assert!(!is_monospace("Courier"));
}

#[test]
fn empty_database_uses_fallback_list() {
    let f = FontComboBox::new(&[]);
    assert_eq!(f.font_filters(), FontFilter::AllFonts);
    assert_eq!(f.combo().count(), 10);
    assert_eq!(f.combo().item_text(0), "Arial");
    assert_eq!(f.combo().item_text(9), "Verdana");
    assert_eq!(f.current_font_family(), "Arial");
    assert!(!f.combo().is_editable());
}

#[test]
fn filters_select_families() {
    let db = names(&["Arial", "Fira Mono", "Consolas", "Georgia"]);
    let mut f = FontComboBox::new(&db);
    assert_eq!(f.combo().count(), 4);
    f.set_font_filters(FontFilter::MonospacedFonts, &db);
    assert_eq!(f.font_filters(), FontFilter::MonospacedFonts);
    assert_eq!(f.combo().count(), 2);
    assert_eq!(f.combo().item_text(0), "Fira Mono");
    assert_eq!(f.combo().item_text(1), "Consolas");
    f.set_font_filters(FontFilter::ProportionalFonts, &db);
    assert_eq!(f.combo().count(), 2);
    assert_eq!(f.combo().item_text(1), "Georgia");
    // The same filter again changes nothing, whatever the list.
    f.set_font_filters(FontFilter::ProportionalFonts, &[]);
    assert_eq!(f.combo().count(), 2);
    f.set_font_filters(FontFilter::MonospacedFonts, &[]);
    assert_eq!(f.combo().count(), 2);
    assert_eq!(f.combo().item_text(1), "Courier New");
}

#[test]
fn set_current_font_by_family() {
    let mut f = FontComboBox::new(&[]);
    assert!(f.set_current_font("Georgia"));
    assert_eq!(f.current_font_family(), "Georgia");
    assert!(!f.set_current_font("georgia"));
    assert!(!f.set_current_font("Comic Sans MS"));
    assert_eq!(f.current_font_family(), "Georgia");
}

#[test]
fn empty_list_after_filter_falls_back_to_segoe() {
    let db = names(&["Arial"]);
    let mut f = FontComboBox::new(&db);
    f.set_font_filters(FontFilter::MonospacedFonts, &db);
    assert_eq!(f.combo().count(), 0);
    assert_eq!(f.current_font_family(), "Segoe UI");
}
