//! The atoms of the window-manager protocols that the manager uses.
//!
//! The display server gives each property name a number, an atom. The names
//! are asked for in one batch, in the order of `Atoms::names`, and the replies,
//! in that order, make the record.

use vstd::prelude::*;

verus! {

/// How many atoms the record holds.
pub const ATOM_COUNT: usize = 19;

/// The atom of each property name that the manager reads or writes.
#[derive(Debug, Clone, Copy, PartialEq, Eq, Structural)]
pub struct Atoms {
    pub wm_protocols: u32,
    pub wm_delete_window: u32,
    pub net_wm_name: u32,
    pub net_wm_state: u32,
    pub net_wm_state_focused: u32,
    pub net_wm_window_type: u32,
    pub net_current_desktop: u32,
    pub net_number_of_desktops: u32,
    pub net_wm_desktop: u32,
    pub net_supported: u32,
    pub net_wm_strut: u32,
    pub net_wm_strut_partial: u32,
    pub net_desktop_viewport: u32,
    pub net_desktop_names: u32,
    pub net_active_window: u32,
    pub net_supporting_wm_check: u32,
    pub net_client_list: u32,
    pub net_client_list_stacking: u32,
    pub net_showing_desktop: u32,
}

/// The property name whose atom stands at position `i` of the record.
pub open spec fn atom_name(i: int) -> Seq<char> {
    if i == 0 {
        "WM_PROTOCOLS"@
    } else if i == 1 {
        "WM_DELETE_WINDOW"@
    } else if i == 2 {
        "_NET_WM_NAME"@
    } else if i == 3 {
        "_NET_WM_STATE"@
    } else if i == 4 {
        "_NET_WM_STATE_FOCUSED"@
    } else if i == 5 {
        "_NET_WM_WINDOW_TYPE"@
    } else if i == 6 {
        "_NET_CURRENT_DESKTOP"@
    } else if i == 7 {
        "_NET_NUMBER_OF_DESKTOPS"@
    } else if i == 8 {
        "_NET_WM_DESKTOP"@
    } else if i == 9 {
        "_NET_SUPPORTED"@
    } else if i == 10 {
        "_NET_WM_STRUT"@
    } else if i == 11 {
        "_NET_WM_STRUT_PARTIAL"@
    } else if i == 12 {
        "_NET_DESKTOP_VIEWPORT"@
    } else if i == 13 {
        "_NET_DESKTOP_NAMES"@
    } else if i == 14 {
        "_NET_ACTIVE_WINDOW"@
    } else if i == 15 {
        "_NET_SUPPORTING_WM_CHECK"@
    } else if i == 16 {
        "_NET_CLIENT_LIST"@
    } else if i == 17 {
        "_NET_CLIENT_LIST_STACKING"@
    } else {
        "_NET_SHOWING_DESKTOP"@
    }
}

impl Atoms {
    /// The atoms of the record, in the order of its fields.
    pub open spec fn ids(self) -> Seq<u32> {
        seq![
            self.wm_protocols,
            self.wm_delete_window,
            self.net_wm_name,
            self.net_wm_state,
            self.net_wm_state_focused,
            self.net_wm_window_type,
            self.net_current_desktop,
            self.net_number_of_desktops,
            self.net_wm_desktop,
            self.net_supported,
            self.net_wm_strut,
            self.net_wm_strut_partial,
            self.net_desktop_viewport,
            self.net_desktop_names,
            self.net_active_window,
            self.net_supporting_wm_check,
            self.net_client_list,
            self.net_client_list_stacking,
            self.net_showing_desktop,
        ]
    }

    /// The property names to intern, in the order of the record's fields.
    pub fn names() -> (r: Vec<&'static str>)
        ensures
            r@.len() == ATOM_COUNT,
            forall|i: int| 0 <= i < ATOM_COUNT ==> (#[trigger] r@[i])@ == atom_name(i),
    {
        let mut names: Vec<&'static str> = Vec::new();
        names.push("WM_PROTOCOLS");
        names.push("WM_DELETE_WINDOW");
        names.push("_NET_WM_NAME");
        names.push("_NET_WM_STATE");
        names.push("_NET_WM_STATE_FOCUSED");
        names.push("_NET_WM_WINDOW_TYPE");
        names.push("_NET_CURRENT_DESKTOP");
        names.push("_NET_NUMBER_OF_DESKTOPS");
        names.push("_NET_WM_DESKTOP");
        names.push("_NET_SUPPORTED");
        names.push("_NET_WM_STRUT");
        names.push("_NET_WM_STRUT_PARTIAL");
        names.push("_NET_DESKTOP_VIEWPORT");
        names.push("_NET_DESKTOP_NAMES");
        names.push("_NET_ACTIVE_WINDOW");
        names.push("_NET_SUPPORTING_WM_CHECK");
        names.push("_NET_CLIENT_LIST");
        names.push("_NET_CLIENT_LIST_STACKING");
        names.push("_NET_SHOWING_DESKTOP");
        names
    }

    /// The record made of the server's replies, which come in the order of
    /// `names`; `None` unless there is one reply for each name.
    pub fn from_replies(replies: &Vec<u32>) -> (r: Option<Atoms>)
        ensures
            replies@.len() == ATOM_COUNT ==> r is Some && r.unwrap().ids() == replies@,
            replies@.len() != ATOM_COUNT ==> r is None,
    {
        if replies.len() != ATOM_COUNT {
            return None;
        }
        let atoms = Atoms {
            wm_protocols: replies[0],
            wm_delete_window: replies[1],
            net_wm_name: replies[2],
            net_wm_state: replies[3],
            net_wm_state_focused: replies[4],
            net_wm_window_type: replies[5],
            net_current_desktop: replies[6],
            net_number_of_desktops: replies[7],
            net_wm_desktop: replies[8],
            net_supported: replies[9],
            net_wm_strut: replies[10],
            net_wm_strut_partial: replies[11],
            net_desktop_viewport: replies[12],
            net_desktop_names: replies[13],
            net_active_window: replies[14],
            net_supporting_wm_check: replies[15],
            net_client_list: replies[16],
            net_client_list_stacking: replies[17],
            net_showing_desktop: replies[18],
        };
        assert(atoms.ids() =~= replies@);
        Some(atoms)
    }

    /// The atoms of the record, in the order of its fields.
    pub fn list(&self) -> (r: Vec<u32>)
        ensures
            r@ == self.ids(),
    {
        let mut ids: Vec<u32> = Vec::new();
        ids.push(self.wm_protocols);
        ids.push(self.wm_delete_window);
        ids.push(self.net_wm_name);
        ids.push(self.net_wm_state);
        ids.push(self.net_wm_state_focused);
        ids.push(self.net_wm_window_type);
        ids.push(self.net_current_desktop);
        ids.push(self.net_number_of_desktops);
        ids.push(self.net_wm_desktop);
        ids.push(self.net_supported);
        ids.push(self.net_wm_strut);
        ids.push(self.net_wm_strut_partial);
        ids.push(self.net_desktop_viewport);
        ids.push(self.net_desktop_names);
        ids.push(self.net_active_window);
        ids.push(self.net_supporting_wm_check);
        ids.push(self.net_client_list);
        ids.push(self.net_client_list_stacking);
        ids.push(self.net_showing_desktop);
        assert(ids@ =~= self.ids());
        ids
    }
}

} // verus!
