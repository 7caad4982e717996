use tiling_wm::atoms::{Atoms, ATOM_COUNT};

#[test]
fn names_are_the_protocol_names_in_field_order() {
    let names = Atoms::names();
    assert_eq!(names.len(), ATOM_COUNT);
    assert_eq!(
        names,
        vec![
            "WM_PROTOCOLS",
            "WM_DELETE_WINDOW",
            "_NET_WM_NAME",
            "_NET_WM_STATE",
            "_NET_WM_STATE_FOCUSED",
            "_NET_WM_WINDOW_TYPE",
            "_NET_CURRENT_DESKTOP",
            "_NET_NUMBER_OF_DESKTOPS",
            "_NET_WM_DESKTOP",
            "_NET_SUPPORTED",
            "_NET_WM_STRUT",
            "_NET_WM_STRUT_PARTIAL",
            "_NET_DESKTOP_VIEWPORT",
            "_NET_DESKTOP_NAMES",
            "_NET_ACTIVE_WINDOW",
            "_NET_SUPPORTING_WM_CHECK",
            "_NET_CLIENT_LIST",
            "_NET_CLIENT_LIST_STACKING",
            "_NET_SHOWING_DESKTOP",
        ]
    );
}

#[test]
fn replies_fill_the_record_in_order() {
    let replies: Vec<u32> = (100..119).collect();
    let atoms = Atoms::from_replies(&replies).unwrap();
    assert_eq!(atoms.wm_protocols, 100);
    assert_eq!(atoms.wm_delete_window, 101);
    assert_eq!(atoms.net_wm_name, 102);
    assert_eq!(atoms.net_current_desktop, 106);
    assert_eq!(atoms.net_number_of_desktops, 107);
    assert_eq!(atoms.net_wm_desktop, 108);
    assert_eq!(atoms.net_wm_strut, 110);
    assert_eq!(atoms.net_wm_strut_partial, 111);
    assert_eq!(atoms.net_desktop_viewport, 112);
    assert_eq!(atoms.net_desktop_names, 113);
    assert_eq!(atoms.net_client_list, 116);
    assert_eq!(atoms.net_client_list_stacking, 117);
    assert_eq!(atoms.net_showing_desktop, 118);
    assert_eq!(atoms.list(), replies);
}

#[test]
fn wrong_number_of_replies_gives_no_record() {
    let short: Vec<u32> = (0..18).collect();
    assert!(Atoms::from_replies(&short).is_none());
    let long: Vec<u32> = (0..20).collect();
    assert!(Atoms::from_replies(&long).is_none());
    assert!(Atoms::from_replies(&Vec::new()).is_none());
}
