use brass::window::xcb::property::AtomProperty;
use brass::window::xcb::property::CardinalProperty;
use brass::window::xcb::property::Latin1String;
use brass::window::xcb::property::PropertyReply;
use brass::window::xcb::property::XPropertyFormat;
use brass::window::xcb::property::XPropertyType;
use brass::window::xcb::property::ATOM_ATOM;
use brass::window::xcb::property::ATOM_CARDINAL;
use brass::window::xcb::property::ATOM_STRING;
use brass::window::xcb::property::split_nul_segments;
use brass::window::xcb::DepthVisuals;
use brass::window::xcb::XcbBackend;
use brass::window::xcb::XcbBackendError;
use brass::window::xcb::PROP_MODE_REPLACE;

const UTF8_STRING: u32 = 300;
const WM_DELETE_WINDOW: u32 = 301;

fn backend() -> XcbBackend {
    let depths = vec![
        DepthVisuals { depth: 24, visuals: vec![33] },
        DepthVisuals { depth: 32, visuals: vec![77, 78] },
    ];
    XcbBackend::new(0x1e0, 24, 0x20, 0, &depths, WM_DELETE_WINDOW, UTF8_STRING).unwrap()
}

fn cardinals(v: &[u32]) -> Vec<CardinalProperty> {
    v.iter().map(|x| CardinalProperty(*x)).collect()
}

#[test]
fn window_prop_test() {
    let backend = backend();
    let child: u32 = 0x0400_0007;
    let window_class_atom: u32 = 67;
    let window_type_atom: u32 = 302;
    let custom_atom_atom: u32 = 303;
    let custom_utf8_atom: u32 = 304;

    // A WM_CLASS reply of type STRING is read as Latin-1 text.
    let class_reply = PropertyReply { type_: ATOM_STRING, value: b"kitty\0kitty\0".to_vec() };
    let window_class = backend.get_property::<u8, Latin1String>(class_reply, 0, 5000).unwrap();
    assert_eq!(window_class.len(), 2);
    assert_eq!(window_class[0].data, b"kitty".to_vec());

    // The same reply read as UTF-8 text is refused: its type is STRING.
    let class_reply = PropertyReply { type_: ATOM_STRING, value: b"kitty\0".to_vec() };
    match backend.get_property::<u8, String>(class_reply, 0, 5000) {
        Err(XcbBackendError::PropertyTypeMismatch { expected, found }) => {
            assert_eq!(expected, UTF8_STRING);
            assert_eq!(found, ATOM_STRING);
        }
        other => panic!("unexpected {:?}", other.map(|v| v.len())),
    }

    let type_reply = PropertyReply { type_: ATOM_ATOM, value: vec![window_type_atom] };
    let window_type = backend.get_property::<u32, AtomProperty>(type_reply, 0, 1).unwrap();
    assert_eq!(window_type, vec![AtomProperty(window_type_atom)]);

    let atoms = backend
        .set_property::<u32, AtomProperty>(
            child,
            custom_atom_atom,
            vec![AtomProperty(ATOM_ATOM), AtomProperty(ATOM_STRING)],
        )
        .unwrap();
    assert_eq!(atoms.mode, PROP_MODE_REPLACE);
    assert_eq!(atoms.window, child);
    assert_eq!(atoms.property, custom_atom_atom);
    assert_eq!(atoms.type_, ATOM_ATOM);
    assert_eq!(atoms.format, 32);
    assert_eq!(atoms.data, vec![ATOM_ATOM, ATOM_STRING]);

    let texts = backend
        .set_property::<u8, String>(child, custom_utf8_atom, vec![String::from("nice"), String::from("meme")])
        .unwrap();
    assert_eq!(texts.type_, UTF8_STRING);
    assert_eq!(texts.format, 8);
    assert_eq!(texts.data, b"nice\0meme\0".to_vec());

    let back = backend
        .get_property::<u8, String>(PropertyReply { type_: texts.type_, value: texts.data }, 0, 5000)
        .unwrap();
    assert_eq!(back, vec![String::from("nice"), String::from("meme")]);
    assert_eq!(window_class_atom, 67);
}

#[test]
fn cardinal_write_then_read() {
    let backend = backend();
    let req = backend.set_property::<u32, CardinalProperty>(9, 10, cardinals(&[1, 2, 3])).unwrap();
    assert_eq!(req.type_, ATOM_CARDINAL);
    assert_eq!(req.format, 32);
    assert_eq!(req.data, vec![1, 2, 3]);
    let back = backend
        .get_property::<u32, CardinalProperty>(PropertyReply { type_: req.type_, value: req.data }, 0, 3)
        .unwrap();
    assert_eq!(back, cardinals(&[1, 2, 3]));
}

#[test]
fn atom_and_cardinal_round_trip() {
    let backend = backend();
    let values = vec![AtomProperty(0), AtomProperty(u32::MAX), AtomProperty(7)];
    let req = backend.set_property::<u32, AtomProperty>(1, 2, values.clone()).unwrap();
    let back = backend
        .get_property::<u32, AtomProperty>(PropertyReply { type_: req.type_, value: req.data }, 0, 3)
        .unwrap();
    assert_eq!(back, values);

    let req = backend.set_property::<u32, CardinalProperty>(1, 2, cardinals(&[42])).unwrap();
    let back = backend
        .get_property::<u32, CardinalProperty>(PropertyReply { type_: req.type_, value: req.data }, 0, 1)
        .unwrap();
    assert_eq!(back, cardinals(&[42]));
}

#[test]
fn empty_strings_are_not_preserved() {
    let backend = backend();
    let values = vec![String::from("a"), String::new(), String::from("bc")];
    let req = backend.set_property::<u8, String>(1, 2, values).unwrap();
    assert_eq!(req.data, b"a\0\0bc\0".to_vec());
    let back = backend
        .get_property::<u8, String>(PropertyReply { type_: req.type_, value: req.data }, 0, 100)
        .unwrap();
    assert_eq!(back, vec![String::from("a"), String::from("bc")]);
}

#[test]
fn utf8_multibyte_round_trip() {
    let backend = backend();
    let values = vec![String::from("héllo"), String::from("日本"), String::from("🦀")];
    let req = backend.set_property::<u8, String>(1, 2, values.clone()).unwrap();
    assert_eq!(req.data.len(), 6 + 1 + 6 + 1 + 4 + 1);
    let back = backend
        .get_property::<u8, String>(PropertyReply { type_: req.type_, value: req.data }, 0, 100)
        .unwrap();
    assert_eq!(back, values);
}

#[test]
fn invalid_utf8_is_an_encoding_error() {
    let backend = backend();
    let reply = PropertyReply { type_: UTF8_STRING, value: vec![b'o', b'k', 0, 0xff, 0xfe, 0] };
    match backend.get_property::<u8, String>(reply, 0, 10) {
        Err(XcbBackendError::PropertyEncodingError) => {}
        other => panic!("unexpected {:?}", other.map(|v| v.len())),
    }
}

#[test]
fn type_mismatch_returns_nothing() {
    let backend = backend();
    let reply = PropertyReply { type_: ATOM_ATOM, value: vec![1, 2, 3] };
    match backend.get_property::<u32, CardinalProperty>(reply, 0, 3) {
        Err(XcbBackendError::PropertyTypeMismatch { expected, found }) => {
            assert_eq!(expected, ATOM_CARDINAL);
            assert_eq!(found, ATOM_ATOM);
        }
        other => panic!("unexpected {:?}", other),
    }
}

#[test]
fn latin1_round_trip_drops_empty_items() {
    let backend = backend();
    let values = vec![
        Latin1String { data: vec![0xe9, b'a'] },
        Latin1String { data: vec![] },
        Latin1String { data: vec![b'z'] },
    ];
    let req = backend.set_property::<u8, Latin1String>(1, 2, values).unwrap();
    assert_eq!(req.type_, ATOM_STRING);
    assert_eq!(req.data, vec![0xe9, b'a', 0, 0, b'z', 0]);
    let back = backend
        .get_property::<u8, Latin1String>(PropertyReply { type_: req.type_, value: req.data }, 0, 100)
        .unwrap();
    let datas: Vec<Vec<u8>> = back.into_iter().map(|l| l.data).collect();
    assert_eq!(datas, vec![vec![0xe9, b'a'], vec![b'z']]);
}

#[test]
fn segments_skip_runs_of_nul() {
    assert_eq!(split_nul_segments(&vec![0, 0, 1, 2, 0, 0, 3]), vec![vec![1, 2], vec![3]]);
    assert_eq!(split_nul_segments(&vec![]), Vec::<Vec<u8>>::new());
    assert_eq!(split_nul_segments(&vec![0, 0]), Vec::<Vec<u8>>::new());
}

#[test]
fn property_type_atoms() {
    let backend = backend();
    assert_eq!(XPropertyType::Atom.atom(&backend), 4);
    assert_eq!(XPropertyType::Cardinal.atom(&backend), 6);
    assert_eq!(XPropertyType::Latin1String.atom(&backend), 31);
    assert_eq!(XPropertyType::Utf8String.atom(&backend), UTF8_STRING);
}

#[test]
fn format_widths() {
    assert_eq!(<u8 as XPropertyFormat>::size(), 1);
    assert_eq!(<u16 as XPropertyFormat>::format(), 16);
    assert_eq!(<u32 as XPropertyFormat>::format(), 32);
    assert_eq!(7u8.as_u8(), Some(7));
    assert_eq!(7u8.as_u32(), None);
    assert_eq!(7u16.as_u16(), Some(7));
    assert_eq!(7u32.as_u32(), Some(7));
    assert_eq!(7u32.as_u16(), None);
}

#[test]
fn nul_inside_string_splits_it() {
    let backend = backend();
    let req = backend.set_property::<u8, String>(1, 2, vec![String::from("a\0b")]).unwrap();
    assert_eq!(req.data, b"a\0b\0".to_vec());
    let back = backend
        .get_property::<u8, String>(PropertyReply { type_: req.type_, value: req.data }, 0, 10)
        .unwrap();
    assert_eq!(back, vec![String::from("a"), String::from("b")]);
}
