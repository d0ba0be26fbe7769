use brass::window::xcb::config::ConfigValue;
use brass::window::xcb::DepthVisuals;
use brass::window::xcb::XcbBackend;
use brass::window::xcb::XcbBackendError;
use brass::window::xcb::XcbWindow;
use brass::window::WindowDims;

fn depths() -> Vec<DepthVisuals> {
    vec![
        DepthVisuals { depth: 24, visuals: vec![33, 34] },
        DepthVisuals { depth: 32, visuals: vec![] },
        DepthVisuals { depth: 32, visuals: vec![90, 91] },
    ]
}

#[test]
fn first_32_bit_visual_is_chosen() {
    assert_eq!(XcbBackend::select_visual(&depths()), Some(90));
    assert_eq!(XcbBackend::select_visual(&vec![DepthVisuals { depth: 24, visuals: vec![1] }]), None);
}

#[test]
fn no_32_bit_visual_fails() {
    match XcbBackend::new(1, 24, 2, 3, &vec![], 4, 5) {
        Err(XcbBackendError::Unknown) => {}
        other => panic!("unexpected {:?}", other),
    }
}

#[test]
fn window_creation_requests() {
    let backend = XcbBackend::new(0x1e0, 24, 0x20, 7, &depths(), 301, 300).unwrap();
    assert_eq!(backend.visual_id, 90);
    let (colormap, create) = backend.window_colormap(0x0400_0002);
    assert_eq!(colormap, 0x0400_0002);
    let create = create.unwrap();
    assert_eq!((create.alloc, create.mid, create.window, create.visual), (0, 0x0400_0002, 0x1e0, 90));

    let dims = WindowDims { x: 0, y: 0, width: 800, height: 600 };
    let req = backend.create_window(0x0400_0001, colormap, dims);
    assert_eq!((req.depth, req.wid, req.parent, req.x, req.y), (32, 0x0400_0001, 0x1e0, 0, 0));
    assert_eq!((req.width, req.height, req.border_width, req.class, req.visual), (800, 600, 0, 1, 90));
    assert_eq!(req.values, vec![(2, 7), (8, 7), (8192, 0x0400_0002), (2048, 0x8000 | 4 | 8 | 0x20000)]);

    let deep = XcbBackend::new(0x1e0, 32, 0x20, 7, &depths(), 301, 300).unwrap();
    let (colormap, create) = deep.window_colormap(0x0400_0002);
    assert_eq!(colormap, 0x20);
    assert!(create.is_none());

    let protocols = backend.close_protocol_request(0x0400_0001, 280).unwrap();
    assert_eq!((protocols.window, protocols.property, protocols.type_, protocols.format), (0x0400_0001, 280, 4, 32));
    assert_eq!(protocols.data, vec![301]);
}

#[test]
fn configure_requests() {
    let backend = XcbBackend::new(1, 32, 2, 3, &depths(), 4, 5).unwrap();
    let req = backend.configure_window(
        9,
        &[ConfigValue::Width(640), ConfigValue::X(-1), ConfigValue::BorderWidth(2), ConfigValue::Height(480)],
    );
    assert_eq!(req.window, 9);
    assert_eq!(req.values, vec![(4, 640), (1, 0xffff_ffff), (16, 2), (8, 480)]);
    let req = backend.set_window_position(&XcbWindow { window: 9 }, (10, -20));
    assert_eq!(req.values, vec![(1, 10), (2, (-20i32) as u32)]);
    assert_eq!(ConfigValue::Y(3).as_key(), 2);
    assert_eq!(ConfigValue::Y(-3).as_value(), 0xffff_fffd);
}
