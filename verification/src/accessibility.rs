//! Accessibility annotations for widgets.
use vstd::prelude::*;

verus! {

/// Descriptive text for screen readers and assistive technology; not shown
/// on screen.
#[derive(Debug, Clone)]
pub struct AccessibilityLabel {
    /// Short label (e.g. "Save button").
    pub label: Option<String>,
    /// Extended description for complex widgets.
    pub description: Option<String>,
    /// Role hint (e.g. "button", "checkbox", "slider").
    pub role: Option<&'static str>,
}

impl AccessibilityLabel {
    /// A label with the given text and no role or description.
    pub fn new(label: &str) -> (r: Self)
        ensures
            r.label matches Some(l) && l@ == label@,
            r.description.is_none(),
            r.role.is_none(),
    {
        AccessibilityLabel { label: Some(label.to_string()), description: None, role: None }
    }

    /// Set the role hint.
    pub fn with_role(self, role: &'static str) -> (r: Self)
        ensures
            r.label == self.label,
            r.description == self.description,
            r.role == Some(role),
    {
        AccessibilityLabel { role: Some(role), ..self }
    }

    /// Set the extended description.
    pub fn with_description(self, desc: &str) -> (r: Self)
        ensures
            r.label == self.label,
            r.description matches Some(d) && d@ == desc@,
            r.role == self.role,
    {
        AccessibilityLabel { description: Some(desc.to_string()), ..self }
    }
}

impl Default for AccessibilityLabel {
    fn default() -> (r: Self)
        ensures
            r.label.is_none(),
            r.description.is_none(),
            r.role.is_none(),
    {
        AccessibilityLabel { label: None, description: None, role: None }
    }
}

} // verus!
