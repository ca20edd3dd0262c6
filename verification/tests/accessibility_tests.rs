use oasis_ui::accessibility::AccessibilityLabel;



#[test]
fn accessibility_label_builder() {
    let label = AccessibilityLabel::new("Save")
        .with_role("button")
        .with_description("Save the current document");
    assert_eq!(label.label.as_deref(), Some("Save"));
    assert_eq!(label.role, Some("button"));
    assert!(label.description.is_some());
}

#[test]
fn accessibility_label_default() {
    let label = AccessibilityLabel::default();
    assert!(label.label.is_none());
    assert!(label.role.is_none());
    assert!(label.description.is_none());
}
