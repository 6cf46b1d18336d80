use nanomosaic::{
    display_to_source, resize_factor, source_to_display, Factor, Image, ImageId, LogicMessage,
    MessageReceiver, Pixel, Point, Size,
};

#[test]
fn factor_picks_smaller_ratio() {
    // 100x50 into 50x50: 50/100 is smaller than 50/50.
    let f = resize_factor(Size::new(100, 50), Size::new(50, 50));
    assert_eq!(f, Factor { num: 50, den: 100 });
}

#[test]
fn factor_picks_other_axis() {
    // 50x100 into 50x50: the vertical ratio is the smaller one.
    let f = resize_factor(Size::new(50, 100), Size::new(50, 50));
    assert_eq!(f, Factor { num: 50, den: 100 });
}

#[test]
fn factor_of_empty_source_is_one() {
    assert_eq!(
        resize_factor(Size::new(0, 50), Size::new(40, 40)),
        Factor { num: 1, den: 1 }
    );
    assert_eq!(
        resize_factor(Size::new(50, 0), Size::new(40, 40)),
        Factor { num: 1, den: 1 }
    );
}

#[test]
fn factor_of_empty_target_is_zero() {
    let f = resize_factor(Size::new(10, 10), Size::new(0, 40));
    assert_eq!(f, Factor { num: 0, den: 10 });
}

#[test]
fn display_to_source_divides() {
    // factor 1/2: display 10 is source 20.
    let f = Factor { num: 1, den: 2 };
    assert_eq!(display_to_source(10, f), 20);
    assert_eq!(display_to_source(-10, f), -20);
    assert_eq!(display_to_source(0, f), 0);
}

#[test]
fn display_to_source_truncates_toward_zero() {
    // factor 3/2: display 5 is source 5*2/3 = 3 (3.33 truncated).
    let f = Factor { num: 3, den: 2 };
    assert_eq!(display_to_source(5, f), 3);
    assert_eq!(display_to_source(-5, f), -3);
}

#[test]
fn display_to_source_saturates_on_zero_factor() {
    let f = Factor { num: 0, den: 10 };
    assert_eq!(display_to_source(7, f), isize::MAX);
    assert_eq!(display_to_source(-7, f), isize::MIN);
    assert_eq!(display_to_source(0, f), 0);
}

#[test]
fn source_to_display_multiplies() {
    // factor 1/2: source 20 is display 10.
    let f = Factor { num: 1, den: 2 };
    assert_eq!(source_to_display(20, f), 10);
    assert_eq!(source_to_display(-20, f), -10);
    // truncation toward zero
    assert_eq!(source_to_display(5, f), 2);
    assert_eq!(source_to_display(-5, f), -2);
}

#[test]
fn selection_lines_scale_back_to_display() {
    let mut s = nanomosaic::LogicState::new();
    let fill = Pixel { r: 1, g: 1, b: 1, a: 255 };
    s.receive(LogicMessage::LoadImage(Ok(Image::new_filled(100, 50, fill))));
    s.receive(LogicMessage::ImageResized(ImageId::Select, Size::new(50, 50)));
    s.receive(LogicMessage::MouseDown(1, 5, 5));
    s.receive(LogicMessage::MouseDown(3, 30, 20));
    assert_eq!(s.start, Point { x: 10, y: 10 });
    assert_eq!(s.end, Point { x: 60, y: 40 });
    // back in display space, at factor one half
    let lines = s.selection_lines();
    assert_eq!(lines.x1, 5);
    assert_eq!(lines.x2, 30);
    assert_eq!(lines.y1, 5);
    assert_eq!(lines.y2, 20);
}
