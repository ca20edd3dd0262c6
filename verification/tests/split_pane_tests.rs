use oasis_ui::styles::{PaneId, SplitOrientation};



#[test]
fn orientation_debug_and_eq() {
    assert_eq!(SplitOrientation::Horizontal, SplitOrientation::Horizontal);
    assert_ne!(SplitOrientation::Horizontal, SplitOrientation::Vertical);
    let _ = format!("{:?}", SplitOrientation::Vertical);
}

#[test]
fn pane_id_debug_and_eq() {
    assert_eq!(PaneId::First, PaneId::First);
    assert_ne!(PaneId::First, PaneId::Second);
    let _ = format!("{:?}", PaneId::Second);
}
