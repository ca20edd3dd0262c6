use std::cell::Cell;
use oasis_ui::layout::{align_x, align_y, cached_measure, center, center_text_y, distribute, HAlign, MeasureCache, Padding, VAlign, Widget};

#[test]
fn padding_inner_rect() {
    let p = Padding::uniform(4);
    let (x, y, w, h) = p.inner_rect(10, 10, 100, 50);
    assert_eq!((x, y, w, h), (14, 14, 92, 42));
}

#[test]
fn center_calculation() {
    assert_eq!(center(100, 20), 40);
    assert_eq!(center(10, 20), 0); // Child larger than parent.
    // Odd remainder rounds up for better visual centering.
    assert_eq!(center(101, 20), 41); // (101-20+1)/2 = 41
    assert_eq!(center(31, 10), 11); // (31-10+1)/2 = 11
}

#[test]
fn distribute_items() {
    let (size, pos) = distribute(100, 4, 4);
    assert_eq!(size, 22);
    assert_eq!(pos, vec![0, 26, 52, 78]);
}

// -- Additional layout tests --

#[test]
fn padding_zero_is_identity() {
    let p = Padding::zero();
    let (x, y, w, h) = p.inner_rect(10, 20, 100, 50);
    assert_eq!((x, y, w, h), (10, 20, 100, 50));
}

#[test]
fn padding_symmetric() {
    let p = Padding::symmetric(10, 5);
    assert_eq!(p.left, 10);
    assert_eq!(p.right, 10);
    assert_eq!(p.top, 5);
    assert_eq!(p.bottom, 5);
    assert_eq!(p.horizontal(), 20);
    assert_eq!(p.vertical(), 10);
}

#[test]
fn padding_individual_sides() {
    let p = Padding::new(1, 2, 3, 4);
    assert_eq!(p.top, 1);
    assert_eq!(p.right, 2);
    assert_eq!(p.bottom, 3);
    assert_eq!(p.left, 4);
    assert_eq!(p.horizontal(), 6);
    assert_eq!(p.vertical(), 4);
}

#[test]
fn padding_inner_rect_larger_than_container() {
    let p = Padding::uniform(100);
    let (x, y, w, h) = p.inner_rect(0, 0, 50, 50);
    assert_eq!(x, 100);
    assert_eq!(y, 100);
    assert_eq!(w, 0); // saturating_sub
    assert_eq!(h, 0);
}

#[test]
fn center_zero_parent() {
    assert_eq!(center(0, 10), 0);
}

#[test]
fn center_zero_child() {
    assert_eq!(center(100, 0), 50);
}

#[test]
fn center_equal_sizes() {
    assert_eq!(center(50, 50), 0);
}

#[test]
fn center_text_y_basic() {
    let y = center_text_y(24, 12, 10);
    assert_eq!(y, 16); // (24-12)/2 + 10
}

#[test]
fn distribute_zero_items() {
    let (size, pos) = distribute(100, 0, 4);
    assert_eq!(size, 0);
    assert!(pos.is_empty());
}

#[test]
fn distribute_one_item() {
    let (size, pos) = distribute(100, 1, 0);
    assert_eq!(size, 100);
    assert_eq!(pos, vec![0]);
}

#[test]
fn distribute_no_gap() {
    let (size, pos) = distribute(100, 5, 0);
    assert_eq!(size, 20);
    assert_eq!(pos, vec![0, 20, 40, 60, 80]);
}

#[test]
fn distribute_large_gap_saturates() {
    let (size, pos) = distribute(10, 4, 100);
    // total_gap = 300, but total = 10 so saturating_sub = 0
    assert_eq!(size, 0);
    assert_eq!(pos.len(), 4);
}

#[test]
fn align_x_left() {
    assert_eq!(align_x(200, 50, HAlign::Left), 0);
}

#[test]
fn align_x_center() {
    let x = align_x(200, 50, HAlign::Center);
    assert_eq!(x, center(200, 50));
}

#[test]
fn align_x_right() {
    assert_eq!(align_x(200, 50, HAlign::Right), 150);
}

#[test]
fn align_x_right_child_larger() {
    assert_eq!(align_x(50, 200, HAlign::Right), 0);
}

#[test]
fn align_y_top() {
    assert_eq!(align_y(100, 20, VAlign::Top), 0);
}

#[test]
fn align_y_center() {
    let y = align_y(100, 20, VAlign::Center);
    assert_eq!(y, center(100, 20));
}

#[test]
fn align_y_bottom() {
    assert_eq!(align_y(100, 20, VAlign::Bottom), 80);
}

#[test]
fn align_y_bottom_child_larger() {
    assert_eq!(align_y(20, 100, VAlign::Bottom), 0);
}

#[test]
fn halign_debug() {
    assert_eq!(format!("{:?}", HAlign::Left), "Left");
    assert_eq!(format!("{:?}", HAlign::Center), "Center");
    assert_eq!(format!("{:?}", HAlign::Right), "Right");
}

#[test]
fn valign_debug() {
    assert_eq!(format!("{:?}", VAlign::Top), "Top");
    assert_eq!(format!("{:?}", VAlign::Center), "Center");
    assert_eq!(format!("{:?}", VAlign::Bottom), "Bottom");
}

#[test]
fn padding_clone_and_eq() {
    let a = Padding::uniform(8);
    let b = a;
    assert_eq!(a, b);
}

#[test]
fn cache_new_is_empty() {
    let cache = MeasureCache::new();
    assert!(cache.is_empty());
    assert_eq!(cache.len(), 0);
    assert_eq!(cache.generation(), 0);
}

#[test]
fn cache_default_is_new() {
    let cache = MeasureCache::default();
    assert!(cache.is_empty());
    assert_eq!(cache.generation(), 0);
}

#[test]
fn cache_stores_and_returns_result() {
    let mut cache = MeasureCache::new();
    let call_count = Cell::new(0u32);
    let size = cache.get_or_measure(1, 200, || {
        call_count.set(call_count.get() + 1);
        (80, 24)
    });
    assert_eq!(size, (80, 24));
    assert_eq!(call_count.get(), 1);

    // Second call with same key should return cached value.
    let size2 = cache.get_or_measure(1, 200, || {
        call_count.set(call_count.get() + 1);
        (999, 999)
    });
    assert_eq!(size2, (80, 24));
    assert_eq!(call_count.get(), 1, "measure_fn should not be called again");
    assert_eq!(cache.len(), 1);
}

#[test]
fn cache_different_widget_id() {
    let mut cache = MeasureCache::new();
    cache.get_or_measure(1, 200, || (10, 20));
    cache.get_or_measure(2, 200, || (30, 40));
    assert_eq!(cache.len(), 2);
    assert_eq!(cache.get_or_measure(1, 200, || unreachable!()), (10, 20));
    assert_eq!(cache.get_or_measure(2, 200, || unreachable!()), (30, 40));
}

#[test]
fn cache_different_width() {
    let mut cache = MeasureCache::new();
    cache.get_or_measure(1, 200, || (80, 24));
    cache.get_or_measure(1, 300, || (120, 24));
    assert_eq!(cache.len(), 2);
    assert_eq!(cache.get_or_measure(1, 200, || unreachable!()), (80, 24));
    assert_eq!(cache.get_or_measure(1, 300, || unreachable!()), (120, 24));
}

#[test]
fn cache_invalidates_on_next_generation() {
    let mut cache = MeasureCache::new();
    cache.get_or_measure(1, 200, || (80, 24));

    cache.next_generation();
    assert_eq!(cache.generation(), 1);

    // Same key but stale generation — should recompute.
    let call_count = Cell::new(0u32);
    let size = cache.get_or_measure(1, 200, || {
        call_count.set(call_count.get() + 1);
        (90, 30)
    });
    assert_eq!(size, (90, 30));
    assert_eq!(call_count.get(), 1);
}

#[test]
fn cache_clear_removes_all() {
    let mut cache = MeasureCache::new();
    cache.get_or_measure(1, 100, || (10, 10));
    cache.get_or_measure(2, 100, || (20, 20));
    assert_eq!(cache.len(), 2);

    cache.clear();
    assert!(cache.is_empty());
    assert_eq!(cache.len(), 0);
}

#[test]
fn cache_generation_wraps() {
    let mut cache = MeasureCache::new();
    cache.generation = u64::MAX;
    cache.next_generation();
    assert_eq!(cache.generation(), 0);
}
