use oasis_ui::styles::ProgressStyle;



#[test]
fn progress_bar_style_variants() {
    assert_ne!(ProgressStyle::Bar, ProgressStyle::Circular);
    assert_ne!(ProgressStyle::Circular, ProgressStyle::Indeterminate);
}
