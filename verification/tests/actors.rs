use nanomosaic::{
    CompositeMessage, CompositorAction, CompositorState, GuiMessage, Image, ImageId, LogicAction,
    LogicMessage, LogicState, MessageReceiver, Pixel, Point, Size,
};

fn px(r: u8, g: u8, b: u8) -> Pixel {
    Pixel { r, g, b, a: 255 }
}

fn count_composites(actions: &[LogicAction]) -> usize {
    actions
        .iter()
        .filter(|a| {
            matches!(
                a,
                LogicAction::Compositor(CompositeMessage::CompositeMosaic(_, _))
            )
        })
        .count()
}

fn count_full_renders(actions: &[LogicAction]) -> usize {
    actions
        .iter()
        .filter(|a| matches!(a, LogicAction::Gui(GuiMessage::RenderSource(_))))
        .count()
}

#[test]
fn new_state_defaults() {
    let s = LogicState::new();
    assert_eq!(s.select_size, Size::new(1, 1));
    assert_eq!(s.result_size, Size::new(1, 1));
    assert_eq!(s.start, Point { x: 0, y: 0 });
    assert_eq!(s.end, Point { x: 0, y: 0 });
    assert!(s.result_modified);
    assert!(s.compositor_free);
    assert!(s.last_source_size.is_none());
    assert!(s.last_rendered_lines.is_none());
    assert_eq!(s.image.width(), 1);
    assert_eq!(s.image.height(), 1);
}

#[test]
fn load_resets_selection_and_renders() {
    let mut s = LogicState::new();
    let img = Image::new_filled(100, 50, px(1, 2, 3));
    let actions = s.receive(LogicMessage::LoadImage(Ok(img)));
    assert_eq!(s.start, Point { x: 0, y: 0 });
    assert_eq!(s.end, Point { x: 100, y: 50 });
    assert_eq!(s.image.width(), 100);
    // a full render of the selection preview and one composite request
    assert_eq!(count_full_renders(&actions), 1);
    assert_eq!(count_composites(&actions), 1);
    assert!(!s.compositor_free);
    assert!(!s.result_modified);
}

#[test]
fn failed_load_changes_nothing_and_logs_once() {
    let mut s = LogicState::new();
    let img = Image::new_filled(8, 4, px(1, 2, 3));
    s.receive(LogicMessage::LoadImage(Ok(img)));
    s.receive(LogicMessage::CompositorFinished);
    let start = s.start;
    let end = s.end;
    let select_size = s.select_size;
    let free = s.compositor_free;
    let cache = s.last_source_size;

    let actions = s.receive(LogicMessage::LoadImage(Err(String::from("no such file"))));

    assert_eq!(actions.len(), 1);
    assert!(matches!(&actions[0], LogicAction::Log(m) if m == "no such file"));
    assert_eq!(s.start, start);
    assert_eq!(s.end, end);
    assert_eq!(s.select_size, select_size);
    assert_eq!(s.compositor_free, free);
    assert_eq!(s.last_source_size, cache);
    assert_eq!(s.image.width(), 8);
    assert_eq!(s.image.height(), 4);
}

#[test]
fn second_resize_to_same_size_sends_overlay_only() {
    let mut s = LogicState::new();
    s.receive(LogicMessage::LoadImage(Ok(Image::new_filled(100, 50, px(1, 2, 3)))));

    let first = s.receive(LogicMessage::ImageResized(ImageId::Select, Size::new(50, 50)));
    assert_eq!(count_full_renders(&first), 1);

    let second = s.receive(LogicMessage::ImageResized(ImageId::Select, Size::new(50, 50)));
    assert_eq!(count_full_renders(&second), 0);
    assert!(!second.is_empty());
    for a in &second {
        assert!(matches!(a, LogicAction::Gui(GuiMessage::RenderLines(_))));
    }
}

#[test]
fn single_flight_and_retry_with_latest_request() {
    let mut s = LogicState::new();
    // loading sends the first composite request and marks the compositor busy
    let a0 = s.receive(LogicMessage::LoadImage(Ok(Image::new_filled(100, 50, px(9, 9, 9)))));
    assert_eq!(count_composites(&a0), 1);
    assert!(!s.compositor_free);

    // while the compositor is busy, nothing else may send a request
    let a1 = s.receive(LogicMessage::ImageResized(ImageId::Select, Size::new(50, 50)));
    let a2 = s.receive(LogicMessage::MouseDown(1, 5, 5));
    let a3 = s.receive(LogicMessage::MouseDown(3, 30, 20));
    let a4 = s.receive(LogicMessage::ImageResized(ImageId::Result, Size::new(40, 40)));
    assert_eq!(count_composites(&a1), 0);
    assert_eq!(count_composites(&a2), 0);
    assert_eq!(count_composites(&a3), 0);
    assert_eq!(count_composites(&a4), 0);
    assert!(s.result_modified);

    // the handshake refreshes the selection preview and sends exactly the
    // latest pending request, as the last action
    let a5 = s.receive(LogicMessage::CompositorFinished);
    assert_eq!(count_composites(&a5), 1);
    match a5.last().expect("some actions") {
        LogicAction::Compositor(CompositeMessage::CompositeMosaic(patch, size)) => {
            assert_eq!(patch.width(), 50);
            assert_eq!(patch.height(), 30);
            assert_eq!(*size, Size::new(40, 40));
        }
        _ => panic!("expected a mosaic request"),
    }
    assert!(!s.compositor_free);

    // a handshake with nothing pending sends no request, only overlay updates
    let a6 = s.receive(LogicMessage::CompositorFinished);
    assert_eq!(count_composites(&a6), 0);
    for a in &a6 {
        assert!(matches!(a, LogicAction::Gui(GuiMessage::RenderLines(_))));
    }
    assert!(s.compositor_free);
}

#[test]
fn full_pipeline_scenario() {
    // load a 100x50 image, fit the selection preview into 50x50
    let mut s = LogicState::new();
    s.receive(LogicMessage::LoadImage(Ok(Image::new_filled(100, 50, px(1, 2, 3)))));
    let resized = s.receive(LogicMessage::ImageResized(ImageId::Select, Size::new(50, 50)));
    let preview = resized
        .iter()
        .find_map(|a| match a {
            LogicAction::Gui(GuiMessage::RenderSource(img)) => Some((img.width(), img.height())),
            _ => None,
        })
        .expect("a full render");
    assert_eq!(preview, (50, 25));

    // drag the selection: display (5,5) and (30,20) are source (10,10) and (60,40)
    s.receive(LogicMessage::MouseDown(1, 5, 5));
    s.receive(LogicMessage::MouseDown(3, 30, 20));
    assert_eq!(s.start, Point { x: 10, y: 10 });
    assert_eq!(s.end, Point { x: 60, y: 40 });
    let patch = s.get_selected_patch();
    assert_eq!(patch.width(), 50);
    assert_eq!(patch.height(), 30);

    // request a 40x40 composite viewport; the pending request goes out on
    // the handshake and the compositor fits the patch into a 20x20 quadrant
    s.receive(LogicMessage::ImageResized(ImageId::Result, Size::new(40, 40)));
    let sent = s.receive(LogicMessage::CompositorFinished);
    let msg = sent
        .into_iter()
        .find_map(|a| match a {
            LogicAction::Compositor(m) => Some(m),
            _ => None,
        })
        .expect("a compositor message");
    let mut comp = CompositorState::new();
    let out = comp.receive(msg);
    assert_eq!(out.len(), 2);
    match &out[0] {
        CompositorAction::Gui(GuiMessage::RenderTarget(m)) => {
            // the 50x30 patch fits 20x20 as 20x12; the mosaic doubles it
            assert_eq!(m.width(), 40);
            assert_eq!(m.height(), 24);
        }
        _ => panic!("expected the rendered mosaic"),
    }
    assert!(matches!(out[1], CompositorAction::Finished));
}

#[test]
fn save_bypasses_the_gate() {
    let mut s = LogicState::new();
    s.receive(LogicMessage::LoadImage(Ok(Image::new_filled(4, 4, px(8, 8, 8)))));
    assert!(!s.compositor_free);
    // the compositor is busy, yet the save request goes out
    let actions = s.receive(LogicMessage::SaveImage(String::from("out.png")));
    assert_eq!(actions.len(), 1);
    match &actions[0] {
        LogicAction::Compositor(CompositeMessage::SaveMosaic(patch, path)) => {
            assert_eq!(patch.width(), 4);
            assert_eq!(patch.height(), 4);
            assert_eq!(path, "out.png");
        }
        _ => panic!("expected a save request"),
    }
    // and the single-flight flag is untouched
    assert!(!s.compositor_free);
}

#[test]
fn save_request_yields_file_bytes() {
    let patch = Image::from_pixels(1, 1, vec![Pixel { r: 1, g: 2, b: 3, a: 4 }]);
    let mut comp = CompositorState::new();
    let out = comp.receive(CompositeMessage::SaveMosaic(patch, String::from("m.png")));
    assert_eq!(out.len(), 1);
    match &out[0] {
        CompositorAction::WriteFile(size, bytes, path) => {
            assert_eq!(*size, Size::new(2, 2));
            // the mosaic of a single pixel is that pixel four times
            assert_eq!(bytes, &vec![1, 2, 3, 4, 1, 2, 3, 4, 1, 2, 3, 4, 1, 2, 3, 4]);
            assert_eq!(path, "m.png");
        }
        _ => panic!("expected the bytes to write"),
    }
}

#[test]
fn ignored_button_still_rerenders() {
    let mut s = LogicState::new();
    s.receive(LogicMessage::LoadImage(Ok(Image::new_filled(10, 10, px(1, 1, 1)))));
    s.receive(LogicMessage::CompositorFinished);
    let start = s.start;
    let end = s.end;
    let actions = s.receive(LogicMessage::MouseDown(2, 3, 3));
    assert_eq!(s.start, start);
    assert_eq!(s.end, end);
    // both previews still re-render: overlay updates and a composite request
    assert!(actions
        .iter()
        .any(|a| matches!(a, LogicAction::Gui(GuiMessage::RenderLines(_)))));
    assert_eq!(count_composites(&actions), 1);
}

#[test]
fn return_buffer_is_a_no_op() {
    let mut s = LogicState::new();
    let free = s.compositor_free;
    let actions = s.receive(LogicMessage::ReturnBuffer(Image::new_filled(2, 2, px(0, 0, 0))));
    assert!(actions.is_empty());
    assert_eq!(s.compositor_free, free);
}

#[test]
fn load_invalidates_the_render_cache() {
    let mut s = LogicState::new();
    s.receive(LogicMessage::LoadImage(Ok(Image::new_filled(100, 50, px(1, 1, 1)))));
    let first = s.receive(LogicMessage::ImageResized(ImageId::Select, Size::new(50, 50)));
    assert_eq!(count_full_renders(&first), 1);

    // a new image arrives: the load clears the cache and renders the new
    // image in full itself, so no stale preview can survive a load
    let reloaded = s.receive(LogicMessage::LoadImage(Ok(Image::new_filled(60, 60, px(2, 2, 2)))));
    assert_eq!(count_full_renders(&reloaded), 1);
    assert_eq!(s.last_source_size, Some(Size::new(50, 50)));

    // the viewport has not changed, so the next resize event hits the
    // fresh cache entry and sends only overlay updates
    let again = s.receive(LogicMessage::ImageResized(ImageId::Select, Size::new(50, 50)));
    assert_eq!(count_full_renders(&again), 0);
}
