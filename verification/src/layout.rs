//! Rectangles and workspaces.

use vstd::prelude::*;
use vstd::string::StringExecFns;

use crate::client::ClientOp;
use crate::context::{each, Context, Step};
use crate::handles::{
    first_index, lemma_push_fresh, lemma_without, position_of, remove_handle, without,
};
use crate::tiling::Layout;

verus! {

/// A rectangle in root-window pixel coordinates.
#[derive(Debug, Clone, Copy, PartialEq, Eq, Structural)]
pub struct Position {
    pub x: u16,
    pub y: u16,
    pub width: u16,
    pub height: u16,
}

impl Position {
    pub fn new(x: u16, y: u16, width: u16, height: u16) -> (r: Self)
        ensures
            r == (Position { x, y, width, height }),
    {
        Self { x, y, width, height }
    }

    /// The right edge, one past the last column.
    pub open spec fn right(self) -> int {
        self.x + self.width
    }

    /// The bottom edge, one past the last row.
    pub open spec fn bottom(self) -> int {
        self.y + self.height
    }

    /// The rectangle has pixels.
    pub open spec fn is_positive(self) -> bool {
        self.width > 0 && self.height > 0
    }

    /// The rectangle lies within `outer`, at least `margin` from each of its
    /// edges.
    pub open spec fn within(self, outer: Position, margin: int) -> bool {
        &&& outer.x + margin <= self.x
        &&& outer.y + margin <= self.y
        &&& self.right() <= outer.right() - margin
        &&& self.bottom() <= outer.bottom() - margin
    }

    /// The rectangle lies on the screen: its right and bottom edges are
    /// coordinates.
    pub open spec fn on_screen(self) -> bool {
        self.right() <= 0xffff && self.bottom() <= 0xffff
    }
}

/// The character of a decimal digit.
pub open spec fn digit_char(d: nat) -> char {
    if d == 0 {
        '0'
    } else if d == 1 {
        '1'
    } else if d == 2 {
        '2'
    } else if d == 3 {
        '3'
    } else if d == 4 {
        '4'
    } else if d == 5 {
        '5'
    } else if d == 6 {
        '6'
    } else if d == 7 {
        '7'
    } else if d == 8 {
        '8'
    } else {
        '9'
    }
}

/// `n` written in decimal digits, without leading zeros.
pub open spec fn decimal(n: nat) -> Seq<char>
    decreases n,
{
    if n < 10 {
        seq![digit_char(n)]
    } else {
        decimal(n / 10).push(digit_char(n % 10))
    }
}

/// The name of the workspace with id `id`.
pub open spec fn desktop_name(id: u32) -> Seq<char> {
    "Desktop "@ + decimal(id as nat)
}

/// The digit `d` as a string.
fn digit_str(d: u32) -> (r: &'static str)
    requires
        d < 10,
    ensures
        r@ == seq![digit_char(d as nat)],
{
    proof {
        reveal_strlit("0");
        reveal_strlit("1");
        reveal_strlit("2");
        reveal_strlit("3");
        reveal_strlit("4");
        reveal_strlit("5");
        reveal_strlit("6");
        reveal_strlit("7");
        reveal_strlit("8");
        reveal_strlit("9");
    }
    let r = match d {
        0 => "0",
        1 => "1",
        2 => "2",
        3 => "3",
        4 => "4",
        5 => "5",
        6 => "6",
        7 => "7",
        8 => "8",
        _ => "9",
    };
    assert(r@ =~= seq![digit_char(d as nat)]);
    r
}

/// Appends `n` in decimal digits to `s`.
fn push_decimal(s: &mut String, n: u32)
    ensures
        final(s)@ == old(s)@ + decimal(n as nat),
    decreases n,
{
    if n < 10 {
        s.append(digit_str(n));
    } else {
        push_decimal(s, n / 10);
        s.append(digit_str(n % 10));
        assert(final(s)@ =~= old(s)@ + decimal(n as nat));
    }
}

/// `Workspace` as a mathematical value.
pub struct WorkspaceView {
    /// The handles of the tiled windows, the newest last.
    pub tiled: Seq<usize>,
    /// The handles of the floating windows.
    pub floating: Seq<usize>,
    /// The rectangle that the tiled windows share.
    pub pos: Position,
    pub gap: u16,
    pub layout: Layout,
    pub is_showing: bool,
    pub name: Seq<char>,
    pub id: u32,
    /// The handle of the client that holds the focus.
    pub focused: Option<usize>,
}

impl WorkspaceView {
    /// All handles: the tiled ones, then the floating ones.
    pub open spec fn handles(self) -> Seq<usize> {
        self.tiled + self.floating
    }

    /// The workspace holds `h`.
    pub open spec fn contains(self, h: usize) -> bool {
        self.tiled.contains(h) || self.floating.contains(h)
    }

    /// No handle occurs twice, the focus lies on a window of the workspace,
    /// and the name goes with the id.
    pub open spec fn wf(self) -> bool {
        &&& self.tiled.no_duplicates()
        &&& self.floating.no_duplicates()
        &&& forall|h: usize| !(#[trigger] self.tiled.contains(h) && self.floating.contains(h))
        &&& self.focused is Some ==> self.contains(self.focused.unwrap())
        &&& self.name == desktop_name(self.id)
    }

    /// The steps of tiling anew: those of the layout, for a workspace that is
    /// shown and has tiled windows, else none.
    pub open spec fn retile_script(self) -> Seq<Step> {
        if self.tiled.len() > 0 && self.is_showing {
            self.layout.plan(self.tiled, self.gap, self.pos)
        } else {
            Seq::empty()
        }
    }

    /// The step that takes the focus from the window that holds it.
    pub open spec fn unfocus_script(self) -> Seq<Step> {
        match self.focused {
            Some(h) => seq![Step { handle: h, op: ClientOp::Unfocus }],
            None => Seq::empty(),
        }
    }

    /// The steps of showing the workspace: every window is mapped, the tiled
    /// windows are placed, and the tiled windows are sent their rectangles
    /// once more.
    pub open spec fn show_script(self) -> Seq<Step> {
        each(self.tiled, ClientOp::Show) + each(self.floating, ClientOp::Show)
            + self.shown().retile_script() + each(self.tiled, ClientOp::Resend)
    }

    /// The workspace as shown.
    pub open spec fn shown(self) -> WorkspaceView {
        WorkspaceView { is_showing: true, ..self }
    }

    /// The steps of hiding the workspace: the focus is taken away and every
    /// window is unmapped.
    pub open spec fn conceal_script(self) -> Seq<Step> {
        self.unfocus_script() + each(self.tiled, ClientOp::Hide) + each(
            self.floating,
            ClientOp::Hide,
        )
    }

    /// The workspace as hidden.
    pub open spec fn concealed(self) -> WorkspaceView {
        WorkspaceView { is_showing: false, focused: None, ..self }
    }

    /// The workspace with layout `layout`.
    pub open spec fn with_layout(self, layout: Layout) -> WorkspaceView {
        WorkspaceView { layout, ..self }
    }

    /// The workspace with rectangle `pos`.
    pub open spec fn with_pos(self, pos: Position) -> WorkspaceView {
        WorkspaceView { pos, ..self }
    }

    /// The workspace after window `h` was added to the tiled ones, unless the
    /// workspace held it already.
    pub open spec fn spawned(self, h: usize) -> WorkspaceView {
        if self.contains(h) {
            self
        } else {
            WorkspaceView { tiled: self.tiled.push(h), ..self }
        }
    }

    /// The workspace after window `h` changed from tiled to floating or back;
    /// the same where it does not hold `h`.
    pub open spec fn toggled(self, h: usize) -> WorkspaceView {
        if self.tiled.contains(h) {
            WorkspaceView {
                tiled: without(self.tiled, h),
                floating: without(self.floating, h).push(h),
                ..self
            }
        } else if self.floating.contains(h) {
            WorkspaceView { tiled: self.tiled.push(h), floating: without(self.floating, h), ..self }
        } else {
            self
        }
    }

    /// The workspace after the focus was taken from `h`, if `h` held it.
    pub open spec fn unfocused(self, h: usize) -> WorkspaceView {
        if self.focused == Some(h) {
            WorkspaceView { focused: None, ..self }
        } else {
            self
        }
    }

    /// The step that takes the focus from `h`, if `h` holds it.
    pub open spec fn unfocus_one_script(self, h: usize) -> Seq<Step> {
        if self.focused == Some(h) {
            seq![Step { handle: h, op: ClientOp::Unfocus }]
        } else {
            Seq::empty()
        }
    }

    /// The workspace after window `h` left it.
    pub open spec fn without_window(self, h: usize) -> WorkspaceView {
        WorkspaceView {
            tiled: without(self.tiled, h),
            floating: without(self.floating, h),
            focused: if self.focused == Some(h) {
                None
            } else {
                self.focused
            },
            ..self
        }
    }

    /// The steps of taking window `h` out: the focus is taken from it if it
    /// held it, and the rest is tiled anew if the workspace held it.
    pub open spec fn remove_script(self, h: usize) -> Seq<Step> {
        self.unfocus_one_script(h) + if self.contains(h) {
            self.without_window(h).retile_script()
        } else {
            Seq::empty()
        }
    }

    /// The workspace after the focus went to `h`: to no window where the
    /// workspace does not hold `h`.
    pub open spec fn focused_on(self, h: usize) -> WorkspaceView {
        WorkspaceView {
            focused: if self.contains(h) {
                Some(h)
            } else {
                None
            },
            ..self
        }
    }

    /// The steps of giving `h` the focus: it is taken from the window that
    /// holds it and given to `h`, if the workspace holds `h`.
    pub open spec fn focus_script(self, h: usize) -> Seq<Step> {
        self.unfocus_script() + if self.contains(h) {
            seq![Step { handle: h, op: ClientOp::Focus }]
        } else {
            Seq::empty()
        }
    }

    /// Each operation above leaves a well-formed workspace well-formed.
    pub proof fn lemma_wf_kept(self, h: usize)
        requires
            self.wf(),
        ensures
            self.spawned(h).wf(),
            self.toggled(h).wf(),
            self.unfocused(h).wf(),
            self.without_window(h).wf(),
            self.focused_on(h).wf(),
            self.shown().wf(),
            self.concealed().wf(),
    {
        lemma_without(self.tiled, h);
        lemma_without(self.floating, h);
        if !self.contains(h) {
            lemma_push_fresh(self.tiled, h);
        }
        lemma_push_fresh(without(self.floating, h), h);
        if !self.tiled.contains(h) {
            lemma_push_fresh(self.tiled, h);
        }
        let t = self.toggled(h);
        assert(t.wf()) by {
            assert forall|x: usize| !(#[trigger] t.tiled.contains(x) && t.floating.contains(x)) by {
                if x != h {
                    assert(without(self.tiled, h).contains(x) <==> self.tiled.contains(x));
                    assert(without(self.floating, h).contains(x) <==> self.floating.contains(x));
                    assert(!(self.tiled.contains(x) && self.floating.contains(x)));
                }
            }
            if t.focused is Some {
                let f = t.focused.unwrap();
                assert(self.contains(f));
                if f != h {
                    assert(without(self.tiled, h).contains(f) <==> self.tiled.contains(f));
                    assert(without(self.floating, h).contains(f) <==> self.floating.contains(f));
                }
            }
        }
        let w = self.without_window(h);
        assert(w.wf()) by {
            assert forall|x: usize| !(#[trigger] w.tiled.contains(x) && w.floating.contains(x)) by {
                if x != h {
                    assert(without(self.tiled, h).contains(x) <==> self.tiled.contains(x));
                    assert(without(self.floating, h).contains(x) <==> self.floating.contains(x));
                    assert(!(self.tiled.contains(x) && self.floating.contains(x)));
                }
            }
            if w.focused is Some {
                let f = w.focused.unwrap();
                assert(without(self.tiled, h).contains(f) <==> self.tiled.contains(f));
                assert(without(self.floating, h).contains(f) <==> self.floating.contains(f));
            }
        }
        let s = self.spawned(h);
        assert(s.wf()) by {
            if !self.contains(h) {
                assert forall|x: usize| !(#[trigger] s.tiled.contains(x) && s.floating.contains(x)) by {
                    assert(!(self.tiled.contains(x) && self.floating.contains(x)));
                }
                if s.focused is Some {
                    assert(self.contains(s.focused.unwrap()));
                }
            }
        }
    }
}

/// A virtual desktop: the windows that are shown together.
#[derive(Debug)]
pub struct Workspace {
    /// The handles of the tiled windows, the newest last.
    pub windows: Vec<usize>,
    floating_windows: Vec<usize>,
    pos: Position,
    gap: u16,
    layout: Layout,
    is_showing: bool,
    name: String,
    id: u32,
    focused: Option<usize>,
}

impl View for Workspace {
    type V = WorkspaceView;

    closed spec fn view(&self) -> WorkspaceView {
        WorkspaceView {
            tiled: self.windows@,
            floating: self.floating_windows@,
            pos: self.pos,
            gap: self.gap,
            layout: self.layout,
            is_showing: self.is_showing,
            name: self.name@,
            id: self.id,
            focused: self.focused,
        }
    }
}

impl Workspace {
    /// An empty workspace with the grid layout, not shown, named after its
    /// id.
    pub fn new(pos: Position, gap: u16, id: u32) -> (r: Self)
        ensures
            r@.wf(),
            r@ == (WorkspaceView {
                tiled: Seq::<usize>::empty(),
                floating: Seq::<usize>::empty(),
                pos,
                gap,
                layout: Layout::Grid,
                is_showing: false,
                name: desktop_name(id),
                id,
                focused: None,
            }),
    {
        let mut name = String::from_str("Desktop ");
        push_decimal(&mut name, id);
        Self {
            windows: Vec::new(),
            floating_windows: Vec::new(),
            focused: None,
            pos,
            gap,
            layout: Layout::Grid,
            is_showing: false,
            name,
            id,
        }
    }

    /// Tiles anew, if the workspace is shown and has tiled windows.
    fn retile(&mut self, context: &mut Context)
        requires
            old(context).wf(),
        ensures
            final(context).wf(),
            *final(self) == *old(self),
            final(context)@ == old(context)@.run(old(self)@.retile_script()),
    {
        if self.windows.len() > 0 && self.is_showing {
            self.layout.retile(self.windows.as_slice(), self.gap, self.pos, context);
        } else {
            proof {
                context@.lemma_run_nothing();
            }
        }
    }

    /// Shows the workspace: maps every window, tiles, and sends the tiled
    /// windows their rectangles once more.
    pub fn show(&mut self, ctx: &mut Context)
        requires
            old(ctx).wf(),
        ensures
            final(ctx).wf(),
            old(self)@.wf() ==> final(self)@.wf(),
            final(self)@ == old(self)@.shown(),
            final(ctx)@ == old(ctx)@.run(old(self)@.show_script()),
    {
        proof {
            if self@.wf() {
                self@.lemma_wf_kept(0);
            }
        }
        self.is_showing = true;
        let ghost a = each(self.windows@, ClientOp::Show);
        let ghost b = each(self.floating_windows@, ClientOp::Show);
        let ghost c = self@.retile_script();
        let ghost d = each(self.windows@, ClientOp::Resend);
        ctx.run_each(&self.windows, ClientOp::Show);
        ctx.run_each(&self.floating_windows, ClientOp::Show);
        self.retile(ctx);
        ctx.run_each(&self.windows, ClientOp::Resend);
        proof {
            old(ctx)@.lemma_run_concat(a, b);
            old(ctx)@.lemma_run_concat(a + b, c);
            old(ctx)@.lemma_run_concat(a + b + c, d);
        }
    }

    /// Hides the workspace: takes the focus away and unmaps every window.
    pub fn conceal(&mut self, ctx: &mut Context)
        requires
            old(ctx).wf(),
        ensures
            final(ctx).wf(),
            old(self)@.wf() ==> final(self)@.wf(),
            final(self)@ == old(self)@.concealed(),
            final(ctx)@ == old(ctx)@.run(old(self)@.conceal_script()),
    {
        proof {
            if self@.wf() {
                self@.lemma_wf_kept(0);
            }
        }
        self.is_showing = false;
        let ghost a = old(self)@.unfocus_script();
        let ghost b = each(self.windows@, ClientOp::Hide);
        let ghost c = each(self.floating_windows@, ClientOp::Hide);
        self.unfocus_all(ctx);
        ctx.run_each(&self.windows, ClientOp::Hide);
        ctx.run_each(&self.floating_windows, ClientOp::Hide);
        proof {
            old(ctx)@.lemma_run_concat(a, b);
            old(ctx)@.lemma_run_concat(a + b, c);
        }
    }

    /// Goes on to the next layout and tiles anew.
    pub fn cycle_layout(&mut self, ctx: &mut Context)
        requires
            old(ctx).wf(),
        ensures
            final(ctx).wf(),
            old(self)@.wf() ==> final(self)@.wf(),
            final(self)@ == old(self)@.with_layout(old(self)@.layout.spec_next()),
            final(ctx)@ == old(ctx)@.run(final(self)@.retile_script()),
    {
        proof {
            if self@.wf() {
                self@.lemma_wf_kept(0);
            }
        }
        self.layout = self.layout.next();
        self.retile(ctx);
    }

    /// Takes the layout `new_layout` and tiles anew; nothing is done where
    /// the workspace has that layout already.
    pub fn set_layout(&mut self, new_layout: Layout, ctx: &mut Context)
        requires
            old(ctx).wf(),
        ensures
            final(ctx).wf(),
            old(self)@.wf() ==> final(self)@.wf(),
            final(self)@ == old(self)@.with_layout(new_layout),
            final(ctx)@ == old(ctx)@.run(
                if old(self)@.layout == new_layout {
                    Seq::<Step>::empty()
                } else {
                    final(self)@.retile_script()
                },
            ),
    {
        proof {
            if self@.wf() {
                self@.lemma_wf_kept(0);
            }
        }
        if self.layout == new_layout {
            proof {
                ctx@.lemma_run_nothing();
            }
            return ;
        }
        self.layout = new_layout;
        self.retile(ctx);
    }

    /// Takes in the window with handle `index` as the newest tiled one, maps
    /// it and tiles anew. A window that the workspace holds already is not
    /// added a second time.
    pub fn spawn_window(&mut self, index: usize, ctx: &mut Context)
        requires
            old(ctx).wf(),
        ensures
            final(ctx).wf(),
            old(self)@.wf() ==> final(self)@.wf(),
            final(self)@ == old(self)@.spawned(index),
            final(ctx)@ == old(ctx)@.run(
                seq![Step { handle: index, op: ClientOp::Show }] + final(self)@.retile_script(),
            ),
    {
        proof {
            if self@.wf() {
                self@.lemma_wf_kept(index);
            }
        }
        ctx.apply(index, ClientOp::Show);
        if position_of(&self.windows, index).is_none() && position_of(
            &self.floating_windows,
            index,
        ).is_none() {
            self.windows.push(index);
        }
        self.retile(ctx);
        proof {
            old(ctx)@.lemma_run_concat(
                seq![Step { handle: index, op: ClientOp::Show }],
                self@.retile_script(),
            );
        }
    }

    /// Where the workspace holds the window with handle `window_idx`: its
    /// position in its list, and whether that is the list of tiled windows.
    pub fn find_floating_window(&self, window_idx: usize) -> (r: Option<(usize, bool)>)
        ensures
            self@.tiled.contains(window_idx) ==> r == Some(
                (first_index(self@.tiled, window_idx) as usize, true),
            ),
            !self@.tiled.contains(window_idx) && self@.floating.contains(window_idx) ==> r == Some(
                (first_index(self@.floating, window_idx) as usize, false),
            ),
            !self@.contains(window_idx) ==> r is None,
    {
        match position_of(&self.windows, window_idx) {
            Some(i) => Some((i, true)),
            None => match position_of(&self.floating_windows, window_idx) {
                Some(i) => Some((i, false)),
                None => None,
            },
        }
    }

    /// Moves the window with handle `window_idx` from the tiled windows to
    /// the floating ones or back, and tiles anew. Nothing is done where the
    /// workspace does not hold it.
    pub fn toggle_floating(&mut self, window_idx: usize, ctx: &mut Context)
        requires
            old(ctx).wf(),
        ensures
            final(ctx).wf(),
            old(self)@.wf() ==> final(self)@.wf(),
            final(self)@ == old(self)@.toggled(window_idx),
            final(ctx)@ == old(ctx)@.run(
                if old(self)@.contains(window_idx) {
                    final(self)@.retile_script()
                } else {
                    Seq::<Step>::empty()
                },
            ),
    {
        proof {
            if self@.wf() {
                self@.lemma_wf_kept(window_idx);
            }
        }
        let Some((_, enable)) = self.find_floating_window(window_idx) else {
            proof {
                ctx@.lemma_run_nothing();
            }
            return ;
        };
        if enable {
            remove_handle(&mut self.windows, window_idx);
            remove_handle(&mut self.floating_windows, window_idx);
            self.floating_windows.push(window_idx);
        } else {
            remove_handle(&mut self.floating_windows, window_idx);
            self.windows.push(window_idx);
        }
        self.retile(ctx);
    }

    /// Takes the window with handle `window_idx` out of the workspace. The
    /// focus is taken from it if it held it, and the rest is tiled anew if
    /// the workspace held it.
    pub fn remove_window(&mut self, window_idx: usize, ctx: &mut Context)
        requires
            old(ctx).wf(),
        ensures
            final(ctx).wf(),
            old(self)@.wf() ==> final(self)@.wf(),
            final(self)@ == old(self)@.without_window(window_idx),
            final(ctx)@ == old(ctx)@.run(old(self)@.remove_script(window_idx)),
    {
        proof {
            if self@.wf() {
                self@.lemma_wf_kept(window_idx);
            }
        }
        self.unfocus(window_idx, ctx);
        let was_tiled = remove_handle(&mut self.windows, window_idx);
        let was_floating = remove_handle(&mut self.floating_windows, window_idx);
        if was_tiled || was_floating {
            self.retile(ctx);
            proof {
                old(ctx)@.lemma_run_concat(
                    old(self)@.unfocus_one_script(window_idx),
                    self@.retile_script(),
                );
            }
        } else {
            assert(old(self)@.remove_script(window_idx) =~= old(self)@.unfocus_one_script(
                window_idx,
            ));
        }
    }

    /// Closes the window with handle `window_idx`, if the workspace holds it,
    /// and says whether it is gone at once. `delivered` says that the window
    /// takes part in the delete protocol and was sent the message: then the
    /// window stays until the server reports it destroyed. Otherwise its
    /// window and its frame are destroyed and it leaves the workspace.
    pub fn close_window(&mut self, window_idx: usize, delivered: bool, ctx: &mut Context) -> (gone:
        bool)
        requires
            old(ctx).wf(),
        ensures
            final(ctx).wf(),
            old(self)@.wf() ==> final(self)@.wf(),
            gone == (old(self)@.contains(window_idx) && old(ctx)@.live(window_idx as int)
                && !delivered),
            gone ==> final(self)@ == old(self)@.without_window(window_idx) && final(ctx)@ == old(
                ctx,
            )@.emit(Context::close_script(old(ctx)@, window_idx, delivered)).run(
                old(self)@.remove_script(window_idx),
            ),
            !gone ==> final(self)@ == old(self)@ && final(ctx)@ == old(ctx)@,
    {
        proof {
            if self@.wf() {
                self@.lemma_wf_kept(window_idx);
            }
        }
        if self.get_window(window_idx).is_none() {
            return false;
        }
        let gone = ctx.close(window_idx, delivered);
        if gone {
            self.remove_window(window_idx, ctx);
        } else {
            proof {
                old(ctx)@.lemma_emit_concat(Seq::empty(), Seq::empty());
            }
        }
        gone
    }

    /// Gives the workspace the size `width` by `height` and tiles anew.
    pub fn set_screen_size(&mut self, width: u16, height: u16, ctx: &mut Context)
        requires
            old(ctx).wf(),
        ensures
            final(ctx).wf(),
            old(self)@.wf() ==> final(self)@.wf(),
            final(self)@ == old(self)@.with_pos(
                Position { width, height, ..old(self)@.pos },
            ),
            final(ctx)@ == old(ctx)@.run(final(self)@.retile_script()),
    {
        proof {
            if self@.wf() {
                self@.lemma_wf_kept(0);
            }
        }
        self.pos.width = width;
        self.pos.height = height;
        self.retile(ctx);
    }

    /// Moves the workspace to `(offset_x, offset_y)` and tiles anew.
    pub fn set_screen_offset(&mut self, offset_x: u16, offset_y: u16, ctx: &mut Context)
        requires
            old(ctx).wf(),
        ensures
            final(ctx).wf(),
            old(self)@.wf() ==> final(self)@.wf(),
            final(self)@ == old(self)@.with_pos(
                Position { x: offset_x, y: offset_y, ..old(self)@.pos },
            ),
            final(ctx)@ == old(ctx)@.run(final(self)@.retile_script()),
    {
        proof {
            if self@.wf() {
                self@.lemma_wf_kept(0);
            }
        }
        self.pos.x = offset_x;
        self.pos.y = offset_y;
        self.retile(ctx);
    }

    /// Gives the workspace the rectangle `pos` and tiles anew.
    pub fn set_screen_position(&mut self, pos: Position, ctx: &mut Context)
        requires
            old(ctx).wf(),
        ensures
            final(ctx).wf(),
            old(self)@.wf() ==> final(self)@.wf(),
            final(self)@ == old(self)@.with_pos(pos),
            final(ctx)@ == old(ctx)@.run(final(self)@.retile_script()),
    {
        proof {
            if self@.wf() {
                self@.lemma_wf_kept(0);
            }
        }
        self.pos = pos;
        self.retile(ctx);
    }

    pub fn get_screen_position(&self) -> (r: Position)
        ensures
            r == self@.pos,
    {
        self.pos
    }

    /// The handles of the workspace: the tiled ones, then the floating ones.
    pub fn windows(&self) -> (r: Vec<usize>)
        ensures
            r@ == self@.handles(),
    {
        let mut all: Vec<usize> = Vec::new();
        let n = self.windows.len();
        for i in 0..n
            invariant
                n == self.windows@.len(),
                all@ == self.windows@.take(i as int),
        {
            all.push(self.windows[i]);
            assert(self.windows@.take(i + 1) =~= self.windows@.take(i as int).push(
                self.windows@[i as int],
            ));
        }
        assert(self.windows@.take(n as int) =~= self.windows@);
        let m = self.floating_windows.len();
        for i in 0..m
            invariant
                m == self.floating_windows@.len(),
                all@ == self.windows@ + self.floating_windows@.take(i as int),
        {
            all.push(self.floating_windows[i]);
            assert(self.windows@ + self.floating_windows@.take(i + 1) =~= (self.windows@
                + self.floating_windows@.take(i as int)).push(self.floating_windows@[i as int]));
        }
        assert(self.floating_windows@.take(m as int) =~= self.floating_windows@);
        all
    }

    pub fn id(&self) -> (r: u32)
        ensures
            r == self@.id,
    {
        self.id
    }

    pub fn name(&self) -> (r: &str)
        ensures
            r@ == self@.name,
    {
        self.name.as_str()
    }

    /// The layout in use.
    pub fn layout(&self) -> (r: Layout)
        ensures
            r == self@.layout,
    {
        self.layout
    }

    /// The workspace is the one that is shown.
    pub fn is_showing(&self) -> (r: bool)
        ensures
            r == self@.is_showing,
    {
        self.is_showing
    }

    /// The handle of the client that holds the focus.
    pub fn focused(&self) -> (r: Option<usize>)
        ensures
            r == self@.focused,
    {
        self.focused
    }

    /// The handles of the floating windows.
    pub fn floating_windows(&self) -> (r: &Vec<usize>)
        ensures
            r@ == self@.floating,
    {
        &self.floating_windows
    }

    /// Where the workspace holds the window with handle `window_idx`: its
    /// position in its list, and whether that is the list of floating
    /// windows.
    pub fn get_window(&self, window_idx: usize) -> (r: Option<(usize, bool)>)
        ensures
            self@.tiled.contains(window_idx) ==> r == Some(
                (first_index(self@.tiled, window_idx) as usize, false),
            ),
            !self@.tiled.contains(window_idx) && self@.floating.contains(window_idx) ==> r == Some(
                (first_index(self@.floating, window_idx) as usize, true),
            ),
            !self@.contains(window_idx) ==> r is None,
    {
        match position_of(&self.windows, window_idx) {
            Some(i) => Some((i, false)),
            None => match position_of(&self.floating_windows, window_idx) {
                Some(i) => Some((i, true)),
                None => None,
            },
        }
    }

    /// Moves the focus to the window with handle `window_idx` and says
    /// whether the workspace holds it. The window that held the focus loses
    /// it in either case.
    pub fn focus_client(&mut self, window_idx: usize, ctx: &mut Context) -> (r: bool)
        requires
            old(ctx).wf(),
        ensures
            final(ctx).wf(),
            old(self)@.wf() ==> final(self)@.wf(),
            r == old(self)@.contains(window_idx),
            final(self)@ == old(self)@.focused_on(window_idx),
            final(ctx)@ == old(ctx)@.run(old(self)@.focus_script(window_idx)),
    {
        proof {
            if self@.wf() {
                self@.lemma_wf_kept(window_idx);
            }
        }
        self.unfocus_all(ctx);
        if self.get_window(window_idx).is_some() {
            self.focused = Some(window_idx);
            ctx.apply(window_idx, ClientOp::Focus);
            proof {
                old(ctx)@.lemma_run_concat(
                    old(self)@.unfocus_script(),
                    seq![Step { handle: window_idx, op: ClientOp::Focus }],
                );
            }
            true
        } else {
            assert(old(self)@.focus_script(window_idx) =~= old(self)@.unfocus_script());
            false
        }
    }

    /// Takes the focus from the window with handle `window_idx`, if it holds
    /// it.
    pub fn unfocus(&mut self, window_idx: usize, ctx: &mut Context)
        requires
            old(ctx).wf(),
        ensures
            final(ctx).wf(),
            old(self)@.wf() ==> final(self)@.wf(),
            final(self)@ == old(self)@.unfocused(window_idx),
            final(ctx)@ == old(ctx)@.run(old(self)@.unfocus_one_script(window_idx)),
    {
        proof {
            if self@.wf() {
                self@.lemma_wf_kept(window_idx);
            }
        }
        if let Some(idx) = self.focused {
            if idx != window_idx {
                proof {
                    ctx@.lemma_run_nothing();
                }
                return ;
            }
            ctx.apply(window_idx, ClientOp::Unfocus);
            self.focused = None;
        } else {
            proof {
                ctx@.lemma_run_nothing();
            }
        }
    }

    /// Takes the focus from the window that holds it.
    pub fn unfocus_all(&mut self, ctx: &mut Context)
        requires
            old(ctx).wf(),
        ensures
            final(ctx).wf(),
            old(self)@.wf() ==> final(self)@.wf(),
            final(self)@ == (WorkspaceView { focused: None, ..old(self)@ }),
            final(ctx)@ == old(ctx)@.run(old(self)@.unfocus_script()),
    {
        proof {
            if self@.wf() {
                self@.lemma_wf_kept(0);
            }
        }
        if let Some(idx) = self.focused.take() {
            ctx.apply(idx, ClientOp::Unfocus);
        } else {
            proof {
                ctx@.lemma_run_nothing();
            }
        }
    }

    /// Forgets every window and the focus.
    pub fn clear_windows(&mut self)
        ensures
            old(self)@.wf() ==> final(self)@.wf(),
            final(self)@ == (WorkspaceView {
                tiled: Seq::<usize>::empty(),
                floating: Seq::<usize>::empty(),
                focused: None,
                ..old(self)@
            }),
    {
        self.windows.clear();
        self.floating_windows.clear();
        self.focused = None;
    }

    /// The number of windows, tiled and floating.
    pub fn window_amount(&self) -> (r: usize)
        requires
            self@.tiled.len() + self@.floating.len() <= usize::MAX,
        ensures
            r == self@.tiled.len() + self@.floating.len(),
    {
        self.windows.len() + self.floating_windows.len()
    }
}

} // verus!
