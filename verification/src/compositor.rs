//! A tiling compositor over the VGA screen. Up to twelve windows, one shown
//! at a time; each window is a tree of splits whose leaves are panes, every
//! pane a terminal with its own line of input. A status bar takes the last
//! screen row. Keys go to the focused pane, or, after the ctrl-a prefix, to
//! the compositor's own commands.
use vstd::prelude::*;
use crate::drivers::cp437::{cp437, encode};
use crate::drivers::keyboard::{Key, KeyEvent, NavKey, RingBuffer};
use crate::drivers::vga::{cell, entry, Color, Vga, VgaView, CELLS, HEIGHT, WIDTH};
use crate::terminal::{fits_screen, TermView, Terminal};
use vstd::arithmetic::div_mod::{lemma_fundamental_div_mod, lemma_fundamental_div_mod_converse};

verus! {

pub const MAX_WINDOWS: usize = 12;

/// Four panes per window at most.
pub const MAX_PANES: usize = 48;

/// Seven nodes make a window split into four panes.
pub const MAX_NODES: usize = 84;

pub const MAX_INPUT: usize = 64;

#[derive(Clone, Copy, PartialEq, Eq, Structural, Debug)]
pub struct Rect {
    pub x: usize,
    pub y: usize,
    pub w: usize,
    pub h: usize,
}

/// The bounding box of two rectangles, as `merge_with` computes it; `None`
/// where that computation would go below zero.
pub open spec fn merged(a: Rect, b: Rect) -> Option<Rect> {
    if a.x < b.x || a.y < b.y {
        if b.w + b.x < a.x || b.h + b.y < a.y {
            None
        } else {
            Some(Rect { x: a.x, y: a.y, w: (b.w + b.x - a.x) as usize, h: (b.h + b.y - a.y) as usize })
        }
    } else {
        Some(Rect { x: b.x, y: b.y, w: (a.w + a.x - b.x) as usize, h: (a.h + a.y - b.y) as usize })
    }
}

/// A rectangle within the 80x25 screen (possibly empty).
pub open spec fn on_screen(r: Rect) -> bool {
    r.x + r.w <= WIDTH && r.y + r.h <= HEIGHT
}

impl Rect {
    pub fn new(x: usize, y: usize, w: usize, h: usize) -> (r: Rect)
        ensures
            r == (Rect { x, y, w, h }),
    {
        Rect { x, y, w, h }
    }

    pub fn merge_with(&self, other: Rect) -> (r: Rect)
        requires
            self.x + self.w <= usize::MAX,
            self.y + self.h <= usize::MAX,
            other.x + other.w <= usize::MAX,
            other.y + other.h <= usize::MAX,
            merged(*self, other) is Some,
        ensures
            Some(r) == merged(*self, other),
            on_screen(*self) && on_screen(other) ==> on_screen(r),
    {
        if self.x < other.x || self.y < other.y {
            Rect { x: self.x, y: self.y, w: other.w + other.x - self.x, h: other.h + other.y - self.y }
        } else {
            Rect { x: other.x, y: other.y, w: self.w + self.x - other.x, h: self.h + self.y - other.y }
        }
    }

    pub fn is_full_width(&self) -> (r: bool)
        ensures
            r == (self.w == WIDTH),
    {
        self.w == WIDTH
    }
}

#[derive(Clone, Copy, PartialEq, Eq, Structural, Debug)]
pub enum Axis {
    Horizontal,
    Vertical,
}

/// A line drawn between the two halves of a split: for a vertical split the
/// column `offset` from row `start` up to row `end`, for a horizontal split
/// the row `offset` from column `start` up to column `end`.
#[derive(Clone, Copy, PartialEq, Eq, Structural, Debug)]
pub struct Segment {
    pub axis: Axis,
    pub offset: usize,
    pub start: usize,
    pub end: usize,
}

impl Segment {
    /// Where this (vertical) segment crosses `h` (horizontal), as a column
    /// and row.
    pub fn intersect(&self, h: &Segment) -> (r: Option<(usize, usize)>)
        ensures
            r == if h.start <= self.offset < h.end && self.start <= h.offset < self.end {
                Some((self.offset, h.offset))
            } else {
                None
            },
    {
        if h.start <= self.offset && self.offset < h.end && self.start <= h.offset && h.offset < self.end {
            Some((self.offset, h.offset))
        } else {
            None
        }
    }
}

/// The box-drawing character joining vertical segment `v` and horizontal
/// segment `h` where they cross: `None` for a crossing that is neither a
/// cross nor a tee.
pub open spec fn junction(v: Segment, h: Segment) -> Option<char> {
    let up = v.start < h.offset;
    let down = v.end > h.offset + 1;
    let left = h.start < v.offset;
    let right = h.end > v.offset + 1;
    if up && down && left && right {
        Some('┼')
    } else if up && down && left && !right {
        Some('┤')
    } else if up && down && !left && right {
        Some('├')
    } else if !up && down && left && right {
        Some('┬')
    } else if up && !down && left && right {
        Some('┴')
    } else {
        None
    }
}

pub fn get_junction_char(v: &Segment, h: &Segment) -> (r: char)
    requires
        v.offset < usize::MAX,
        h.offset < usize::MAX,
        junction(*v, *h) is Some,
    ensures
        Some(r) == junction(*v, *h),
{
    let up = v.start < h.offset;
    let down = v.end > h.offset + 1;
    let left = h.start < v.offset;
    let right = h.end > v.offset + 1;
    if up && down && left && right {
        '┼'
    } else if up && down && left && !right {
        '┤'
    } else if up && down && !left && right {
        '├'
    } else if !up && down && left && right {
        '┬'
    } else {
        '┴'
    }
}

/// The ctrl-a chord that arms the compositor's command prefix.
pub open spec fn prefix_key(event: KeyEvent) -> bool {
    event.mods.ctrl && event.key == Key::Char(0x61)
}

pub fn is_prefix_key(event: KeyEvent) -> (r: bool)
    ensures
        r == prefix_key(event),
{
    event.mods.ctrl && match event.key {
        Key::Char(c) => c == 0x61u8,
        _ => false,
    }
}

/// Splitting a rectangle and merging its two halves again gives the
/// rectangle back.
pub proof fn lemma_split_then_merge(r: Rect, axis: Axis)
    requires
        axis == Axis::Vertical ==> r.w >= 1 && r.x + r.w <= usize::MAX,
        axis == Axis::Horizontal ==> r.h >= 1 && r.y + r.h <= usize::MAX,
    ensures
        merged(split_first(r, axis), split_second(r, axis)) == Some(r),
        merged(split_second(r, axis), split_first(r, axis)) == Some(r),
{
}

/// The half of `r` that the split pane keeps.
pub open spec fn split_first(r: Rect, axis: Axis) -> Rect {
    match axis {
        Axis::Vertical => Rect { w: r.w / 2, ..r },
        Axis::Horizontal => Rect { h: r.h / 2, ..r },
    }
}

/// The half of `r` that the new pane takes, one column or row after the
/// first half to leave room for the dividing line.
pub open spec fn split_second(r: Rect, axis: Axis) -> Rect {
    match axis {
        Axis::Vertical => Rect { x: (r.x + r.w / 2 + 1) as usize, w: (r.w - r.w / 2 - 1) as usize, ..r },
        Axis::Horizontal => Rect { y: (r.y + r.h / 2 + 1) as usize, h: (r.h - r.h / 2 - 1) as usize, ..r },
    }
}


#[derive(Clone, Copy, PartialEq, Eq, Structural, Debug)]
pub struct PaneId(pub usize);

#[derive(Clone, Copy, PartialEq, Eq, Structural, Debug)]
pub struct NodeId(pub usize);

#[derive(Clone, Copy, PartialEq, Eq, Structural, Debug)]
pub struct WindowId(pub usize);

pub struct PaneView {
    pub term: TermView,
    pub rect: Rect,
    pub readonly: bool,
    pub input: Seq<u8>,
    pub input_len: int,
    pub parent: NodeId,
}

/// A terminal in a rectangle of a window, with the line being typed.
pub struct Pane {
    term: Terminal,
    rect: Rect,
    readonly: bool,
    input: Vec<u8>,
    input_len: usize,
    parent: NodeId,
}

pub open spec fn rect_fits(r: Rect) -> bool {
    fits_screen(r.x as int, r.y as int, r.w as int, r.h as int)
}

/// The terminal with the "> " prompt put in red on white.
pub open spec fn prompted(t: TermView) -> TermView {
    t.put_raw(0x3E, Color::Red, Color::White).put_raw(0x20, Color::Red, Color::White)
}

impl PaneView {
    pub open spec fn wf(self) -> bool {
        &&& self.term.wf()
        &&& rect_fits(self.rect)
        &&& self.term.x == self.rect.x
        &&& self.term.y == self.rect.y
        &&& self.term.width == self.rect.w
        &&& self.term.height == self.rect.h
        &&& self.input.len() == MAX_INPUT
        &&& 0 <= self.input_len <= MAX_INPUT
    }

    pub open spec fn with_term(self, t: TermView) -> PaneView {
        PaneView { term: t, ..self }
    }

    /// The pane and device after a key, and whether the key was Enter on an
    /// editable pane, which hands the typed line to the shell.
    pub open spec fn key_result(self, v: VgaView, event: KeyEvent) -> (PaneView, VgaView, bool) {
        let (t1, v1) = if event.key == Key::Nav(NavKey::PageUp) {
            self.term.scroll_up_result(v)
        } else if event.key == Key::Nav(NavKey::PageDown) {
            self.term.scroll_down_result(v)
        } else {
            (self.term, v)
        };
        let p1 = self.with_term(t1);
        if self.readonly {
            (p1, v1, false)
        } else {
            match event.key {
                Key::Char(c) => if c == 0x0A {
                    let t2 = t1.newline();
                    (p1.with_term(t2.flushed()), t2.flushed_screen(v1), true)
                } else if c == 0x08 {
                    if p1.input_len == 0 {
                        (p1, v1, false)
                    } else {
                        let t2 = t1.backspace();
                        (PaneView {
                            term: t2.flushed(),
                            input: p1.input.update(p1.input_len - 1, 0),
                            input_len: p1.input_len - 1,
                            ..p1
                        }, t2.flushed_screen(v1), false)
                    }
                } else {
                    let p2 = if p1.input_len >= MAX_INPUT {
                        p1
                    } else {
                        PaneView { input: p1.input.update(p1.input_len, c), input_len: p1.input_len + 1, ..p1 }
                    };
                    let t2 = t1.put_raw(c, Color::Black, Color::White);
                    (p2.with_term(t2.flushed()), t2.flushed_screen(v1), false)
                },
                _ => (p1, v1, false),
            }
        }
    }

    /// The typed line: the first `input_len` bytes of the input.
    pub open spec fn line(self) -> Seq<u8> {
        self.input.subrange(0, self.input_len)
    }
}

impl View for Pane {
    type V = PaneView;

    closed spec fn view(&self) -> PaneView {
        PaneView {
            term: self.term@,
            rect: self.rect,
            readonly: self.readonly,
            input: self.input@,
            input_len: self.input_len as int,
            parent: self.parent,
        }
    }
}

impl Pane {
    pub open spec fn wf(&self) -> bool {
        self@.wf()
    }

    /// A new editable pane over `rect`, showing the prompt.
    fn init(rect: Rect, parent: NodeId, vga: &mut Vga) -> (r: Pane)
        requires
            rect_fits(rect),
            old(vga).wf(),
        ensures
            r.wf(),
            r@.rect == rect,
            r@.parent == parent,
            !r@.readonly,
            r@.input == Seq::new(MAX_INPUT as nat, |i: int| 0u8),
            r@.input_len == 0,
            r@.term == prompted(TermView::initial(rect.x as int, rect.y as int, rect.w as int, rect.h as int, 25)).flushed(),
            final(vga).wf(),
            final(vga)@ == prompted(TermView::initial(rect.x as int, rect.y as int, rect.w as int, rect.h as int, 25)).flushed_screen(old(vga)@),
    {
        let mut input: Vec<u8> = Vec::new();
        let mut i: usize = 0;
        while i < MAX_INPUT
            invariant
                i <= MAX_INPUT,
                input@.len() == i,
                forall|j: int| 0 <= j < i ==> input@[j] == 0u8,
            decreases MAX_INPUT - i,
        {
            input.push(0u8);
            i = i + 1;
        }
        assert(input@ =~= Seq::new(MAX_INPUT as nat, |i: int| 0u8));
        let mut pane = Pane {
            term: Terminal::new(rect.x, rect.y, rect.w, rect.h),
            rect,
            readonly: false,
            input,
            input_len: 0,
            parent,
        };
        pane.prompt(vga);
        pane
    }

    fn prompt(&mut self, vga: &mut Vga)
        requires
            old(self).wf(),
            old(vga).wf(),
        ensures
            final(self).wf(),
            final(vga).wf(),
            final(self)@ == old(self)@.with_term(prompted(old(self)@.term).flushed()),
            final(vga)@ == prompted(old(self)@.term).flushed_screen(old(vga)@),
    {
        self.term.put_raw(0x3Eu8, Color::Red, Color::White);
        self.term.put_raw(0x20u8, Color::Red, Color::White);
        self.term.flush(vga);
    }

    /// Handles a key: PageUp and PageDown scroll; on an editable pane a
    /// character is typed, backspace erases the last one, and Enter ends the
    /// line, which the result reports.
    fn handle_key(&mut self, event: KeyEvent, vga: &mut Vga) -> (entered: bool)
        requires
            old(self).wf(),
            old(vga).wf(),
        ensures
            final(self).wf(),
            final(vga).wf(),
            (final(self)@, final(vga)@, entered) == old(self)@.key_result(old(vga)@, event),
    {
        self.scroll_key(event, vga);
        if self.readonly {
            return false;
        }
        match event.key {
            Key::Char(c) => self.edit_key(c, vga),
            _ => false,
        }
    }

    fn scroll_key(&mut self, event: KeyEvent, vga: &mut Vga)
        requires
            old(self).wf(),
            old(vga).wf(),
        ensures
            final(self).wf(),
            final(vga).wf(),
            (final(self)@, final(vga)@) == ({
                let (t1, v1) = if event.key == Key::Nav(NavKey::PageUp) {
                    old(self)@.term.scroll_up_result(old(vga)@)
                } else if event.key == Key::Nav(NavKey::PageDown) {
                    old(self)@.term.scroll_down_result(old(vga)@)
                } else {
                    (old(self)@.term, old(vga)@)
                };
                (old(self)@.with_term(t1), v1)
            }),
    {
        match event.key {
            Key::Nav(NavKey::PageUp) => self.term.scroll_up(vga),
            Key::Nav(NavKey::PageDown) => self.term.scroll_down(vga),
            _ => {},
        }
    }

    fn edit_key(&mut self, c: u8, vga: &mut Vga) -> (entered: bool)
        requires
            old(self).wf(),
            old(vga).wf(),
            !old(self)@.readonly,
        ensures
            final(self).wf(),
            final(vga).wf(),
            (final(self)@, final(vga)@, entered) == old(self)@.key_result(old(vga)@, KeyEvent { key: Key::Char(c), mods: arbitrary() }),
    {
        if c == 0x0Au8 {
            self.term.write("\n");
            proof {
                reveal_strlit("\n");
                assert("\n"@ =~= seq!['\n']);
                crate::terminal::lemma_write_newline(old(self)@.term);
            }
            self.term.flush(vga);
            true
        } else if c == 0x08u8 {
            self.backspace(vga);
            false
        } else {
            self.input_char(c);
            self.term.put_raw(c, Color::Black, Color::White);
            self.term.flush(vga);
            false
        }
    }

    fn input_char(&mut self, c: u8)
        requires
            old(self).wf(),
        ensures
            final(self).wf(),
            final(self)@ == if old(self)@.input_len >= MAX_INPUT {
                old(self)@
            } else {
                PaneView {
                    input: old(self)@.input.update(old(self)@.input_len, c),
                    input_len: old(self)@.input_len + 1,
                    ..old(self)@
                }
            },
    {
        if self.input_len >= MAX_INPUT {
            return;
        }
        self.input.set(self.input_len, c);
        self.input_len = self.input_len + 1;
    }

    fn backspace(&mut self, vga: &mut Vga)
        requires
            old(self).wf(),
            old(vga).wf(),
        ensures
            final(self).wf(),
            final(vga).wf(),
            old(self)@.input_len == 0 ==> final(self)@ == old(self)@ && final(vga)@ == old(vga)@,
            old(self)@.input_len > 0 ==> final(self)@ == (PaneView {
                term: old(self)@.term.backspace().flushed(),
                input: old(self)@.input.update(old(self)@.input_len - 1, 0),
                input_len: old(self)@.input_len - 1,
                ..old(self)@
            }) && final(vga)@ == old(self)@.term.backspace().flushed_screen(old(vga)@),
    {
        if self.input_len == 0 {
            return;
        }
        self.input_len = self.input_len - 1;
        self.input.set(self.input_len, 0u8);
        self.term.backspace();
        self.term.flush(vga);
    }

    /// Forgets the typed line.
    fn clear(&mut self)
        requires
            old(self).wf(),
        ensures
            final(self).wf(),
            final(self)@ == (PaneView { input: Seq::new(MAX_INPUT as nat, |i: int| 0u8), input_len: 0, ..old(self)@ }),
    {
        let mut i: usize = 0;
        while i < MAX_INPUT
            invariant
                i <= MAX_INPUT,
                self@ == (PaneView { input: self@.input, ..old(self)@ }),
                self@.input.len() == MAX_INPUT,
                forall|j: int| 0 <= j < i ==> self@.input[j] == 0u8,
            decreases MAX_INPUT - i,
        {
            self.input.set(i, 0u8);
            i = i + 1;
        }
        self.input_len = 0;
        assert(self@.input =~= Seq::new(MAX_INPUT as nat, |i: int| 0u8));
    }
}


#[derive(Clone, Copy, PartialEq, Eq, Structural, Debug)]
pub enum Node {
    Leaf(PaneId),
    Split { axis: Axis, a: NodeId, b: NodeId },
}

#[derive(Clone, Copy, PartialEq, Eq, Structural, Debug)]
pub struct NodeEntry {
    pub parent: Option<NodeId>,
    pub kind: Node,
    pub depth: u8,
}

#[derive(Clone, Copy, PartialEq, Eq, Structural, Debug)]
pub struct Window {
    pub root: NodeId,
    pub focused_pane: PaneId,
}

pub struct CompView {
    pub prefix_armed: bool,
    pub active_window: int,
    pub panes: Seq<Option<PaneView>>,
    pub nodes: Seq<Option<NodeEntry>>,
    pub windows: Seq<Option<Window>>,
}

pub struct Compositor {
    prefix_armed: bool,
    active_window: WindowId,
    panes: Vec<Option<Pane>>,
    nodes: Vec<Option<NodeEntry>>,
    windows: Vec<Option<Window>>,
}

pub open spec fn pane_view(p: Option<Pane>) -> Option<PaneView> {
    match p {
        Some(q) => Some(q@),
        None => None,
    }
}

/// The whole screen but the status bar.
pub open spec fn full_rect() -> Rect {
    Rect { x: 0, y: 0, w: WIDTH, h: (HEIGHT - 1) as usize }
}

impl CompView {
    pub open spec fn wf(self) -> bool {
        &&& self.panes.len() == MAX_PANES
        &&& self.nodes.len() == MAX_NODES
        &&& self.windows.len() == MAX_WINDOWS
        &&& 0 <= self.active_window < MAX_WINDOWS
        &&& forall|i: int| 0 <= i < MAX_PANES && #[trigger] self.panes[i] is Some ==> self.panes[i]->0.wf()
    }

    pub open spec fn has_pane(self, id: PaneId) -> bool {
        id.0 < MAX_PANES && self.panes[id.0 as int] is Some
    }

    pub open spec fn pane(self, id: PaneId) -> PaneView {
        self.panes[id.0 as int]->0
    }

    pub open spec fn has_node(self, id: NodeId) -> bool {
        id.0 < MAX_NODES && self.nodes[id.0 as int] is Some
    }

    pub open spec fn node(self, id: NodeId) -> NodeEntry {
        self.nodes[id.0 as int]->0
    }

    pub open spec fn has_window(self, id: int) -> bool {
        0 <= id < MAX_WINDOWS && self.windows[id] is Some
    }

    pub open spec fn window(self, id: int) -> Window {
        self.windows[id]->0
    }

    pub open spec fn active(self) -> Window {
        self.window(self.active_window)
    }

    pub open spec fn set_pane(self, id: PaneId, p: PaneView) -> CompView {
        CompView { panes: self.panes.update(id.0 as int, Some(p)), ..self }
    }

    /// Same windows, nodes and panes, the panes differing at most in the
    /// state of their terminals.
    pub open spec fn same_shape(self, other: CompView) -> bool {
        &&& self.prefix_armed == other.prefix_armed
        &&& self.active_window == other.active_window
        &&& self.nodes == other.nodes
        &&& self.windows == other.windows
        &&& self.panes.len() == other.panes.len()
        &&& forall|i: int| 0 <= i < self.panes.len() ==> (#[trigger] self.panes[i] is Some) == (other.panes[i] is Some)
        &&& forall|i: int| 0 <= i < self.panes.len() && #[trigger] self.panes[i] is Some ==> {
            let p = self.panes[i]->0;
            let q = other.panes[i]->0;
            p.rect == q.rect && p.parent == q.parent && p.readonly == q.readonly && p.input == q.input
                && p.input_len == q.input_len
        }
    }

    /// Flushes the terminals of the leaves under `id`, left subtree first.
    pub open spec fn render_nodes(self, v: VgaView, id: NodeId, fuel: nat) -> (CompView, VgaView)
        decreases fuel,
    {
        if fuel == 0 || !self.has_node(id) {
            (self, v)
        } else {
            match self.node(id).kind {
                Node::Leaf(p) => if self.has_pane(p) {
                    let (t, v2) = self.pane(p).term.flush_result(v);
                    (self.set_pane(p, self.pane(p).with_term(t)), v2)
                } else {
                    (self, v)
                },
                Node::Split { axis, a, b } => {
                    let (c1, v1) = self.render_nodes(v, a, (fuel - 1) as nat);
                    c1.render_nodes(v1, b, (fuel - 1) as nat)
                },
            }
        }
    }

    /// Every node reachable from `id` within `fuel` levels exists, and every
    /// leaf's pane exists.
    pub open spec fn tree_ok(self, id: NodeId, fuel: nat) -> bool
        decreases fuel,
    {
        fuel > 0 && self.has_node(id) && match self.node(id).kind {
            Node::Leaf(p) => self.has_pane(p),
            Node::Split { axis, a, b } => self.tree_ok(a, (fuel - 1) as nat) && self.tree_ok(b, (fuel - 1) as nat),
        }
    }

    /// The dividing lines of the tree under `id`, children's first, and the
    /// rectangle it covers; `None` where the computation would go below zero.
    pub open spec fn collect(self, id: NodeId, fuel: nat) -> Option<(Seq<Segment>, Rect)>
        decreases fuel,
    {
        if fuel == 0 || !self.has_node(id) {
            None
        } else {
            match self.node(id).kind {
                Node::Leaf(p) => if self.has_pane(p) { Some((Seq::empty(), self.pane(p).rect)) } else { None },
                Node::Split { axis, a, b } => {
                    match (self.collect(a, (fuel - 1) as nat), self.collect(b, (fuel - 1) as nat)) {
                        (Some((sa, ra)), Some((sb, rb))) => match (segment_of(axis, ra, rb), merged(ra, rb)) {
                            (Some(seg), Some(m)) => Some((sa + sb + seq![seg], m)),
                            _ => None,
                        },
                        _ => None,
                    }
                },
            }
        }
    }
}

/// The line between the halves `ra` and `rb` of a split, as
/// `collect_segments` computes it; `None` where it would go below zero.
pub open spec fn segment_of(axis: Axis, ra: Rect, rb: Rect) -> Option<Segment> {
    match axis {
        Axis::Vertical => if rb.x == 0 {
            None
        } else {
            Some(Segment {
                axis,
                offset: (rb.x - 1) as usize,
                start: if ra.y == 0 { 0 } else { (ra.y - 1) as usize },
                end: if ra.y + ra.h >= HEIGHT - 1 { (ra.y + ra.h) as usize } else { (ra.y + ra.h + 1) as usize },
            })
        },
        Axis::Horizontal => if rb.y == 0 {
            None
        } else {
            Some(Segment {
                axis,
                offset: (rb.y - 1) as usize,
                start: if ra.x == 0 { 0 } else { (ra.x - 1) as usize },
                end: if ra.x + ra.w >= WIDTH - 1 { (ra.x + ra.w) as usize } else { (ra.x + ra.w + 1) as usize },
            })
        },
    }
}

impl View for Compositor {
    type V = CompView;

    closed spec fn view(&self) -> CompView {
        CompView {
            prefix_armed: self.prefix_armed,
            active_window: self.active_window.0 as int,
            panes: Seq::new(self.panes@.len(), |i: int| pane_view(self.panes@[i])),
            nodes: self.nodes@,
            windows: self.windows@,
        }
    }
}

proof fn lemma_merged_on_screen(a: Rect, b: Rect)
    requires
        on_screen(a),
        on_screen(b),
        merged(a, b) is Some,
    ensures
        on_screen(merged(a, b)->0),
{
}

impl Compositor {
    pub open spec fn wf(&self) -> bool {
        self@.wf()
    }

    /// No window, no pane, no node; window 0 active.
    pub fn new() -> (r: Self)
        ensures
            r.wf(),
            !r@.prefix_armed,
            r@.active_window == 0,
            r@.panes == Seq::new(MAX_PANES as nat, |i: int| None::<PaneView>),
            r@.nodes == Seq::new(MAX_NODES as nat, |i: int| None::<NodeEntry>),
            r@.windows == Seq::new(MAX_WINDOWS as nat, |i: int| None::<Window>),
    {
        let mut panes: Vec<Option<Pane>> = Vec::new();
        let mut i: usize = 0;
        while i < MAX_PANES
            invariant
                i <= MAX_PANES,
                panes@.len() == i,
                forall|j: int| 0 <= j < i ==> panes@[j] is None,
            decreases MAX_PANES - i,
        {
            panes.push(None);
            i = i + 1;
        }
        let mut nodes: Vec<Option<NodeEntry>> = Vec::new();
        let mut i: usize = 0;
        while i < MAX_NODES
            invariant
                i <= MAX_NODES,
                nodes@.len() == i,
                forall|j: int| 0 <= j < i ==> nodes@[j] is None,
            decreases MAX_NODES - i,
        {
            nodes.push(None);
            i = i + 1;
        }
        let mut windows: Vec<Option<Window>> = Vec::new();
        let mut i: usize = 0;
        while i < MAX_WINDOWS
            invariant
                i <= MAX_WINDOWS,
                windows@.len() == i,
                forall|j: int| 0 <= j < i ==> windows@[j] is None,
            decreases MAX_WINDOWS - i,
        {
            windows.push(None);
            i = i + 1;
        }
        let r = Compositor { prefix_armed: false, active_window: WindowId(0), panes, nodes, windows };
        assert(r@.panes =~= Seq::new(MAX_PANES as nat, |i: int| None::<PaneView>));
        assert(r@.nodes =~= Seq::new(MAX_NODES as nat, |i: int| None::<NodeEntry>));
        assert(r@.windows =~= Seq::new(MAX_WINDOWS as nat, |i: int| None::<Window>));
        r
    }

    fn has_node(&self, id: NodeId) -> (r: bool)
        requires
            self.wf(),
        ensures
            r == self@.has_node(id),
    {
        id.0 < MAX_NODES && self.nodes[id.0].is_some()
    }

    fn has_pane(&self, id: PaneId) -> (r: bool)
        requires
            self.wf(),
        ensures
            r == self@.has_pane(id),
    {
        id.0 < MAX_PANES && self.panes[id.0].is_some()
    }

    fn node(&self, id: NodeId) -> (r: NodeEntry)
        requires
            self.wf(),
            self@.has_node(id),
        ensures
            r == self@.node(id),
    {
        self.nodes[id.0].unwrap()
    }

    fn pane_rect(&self, id: PaneId) -> (r: Rect)
        requires
            self.wf(),
            self@.has_pane(id),
        ensures
            r == self@.pane(id).rect,
            rect_fits(r),
    {
        match &self.panes[id.0] {
            Some(p) => p.rect,
            None => Rect { x: 0, y: 0, w: 0, h: 0 },
        }
    }

    fn tree_ok(&self, id: NodeId, fuel: usize) -> (r: bool)
        requires
            self.wf(),
        ensures
            r == self@.tree_ok(id, fuel as nat),
        decreases fuel,
    {
        if fuel == 0 || !self.has_node(id) {
            return false;
        }
        match self.node(id).kind {
            Node::Leaf(p) => self.has_pane(p),
            Node::Split { axis: _, a, b } => self.tree_ok(a, fuel - 1) && self.tree_ok(b, fuel - 1),
        }
    }

    /// The dividing lines under `node`, appended to `segs`, and the
    /// rectangle the node covers; `None` where the computation would go
    /// below zero.
    #[verifier::rlimit(40)]
    fn collect_segments(&self, node: NodeId, segs: &mut Vec<Segment>, fuel: usize) -> (r: Option<Rect>)
        requires
            self.wf(),
        ensures
            match self@.collect(node, fuel as nat) {
                Some((s, rect)) => r == Some(rect) && final(segs)@ == old(segs)@ + s && on_screen(rect),
                None => r is None,
            },
        decreases fuel,
    {
        if fuel == 0 || !self.has_node(node) {
            return None;
        }
        match self.node(node).kind {
            Node::Leaf(pane_id) => {
                if self.has_pane(pane_id) {
                    proof {
                        assert(old(segs)@ + Seq::<Segment>::empty() =~= old(segs)@);
                    }
                    Some(self.pane_rect(pane_id))
                } else {
                    None
                }
            },
            Node::Split { axis, a, b } => {
                let ghost s0 = segs@;
                let ra = match self.collect_segments(a, segs, fuel - 1) {
                    Some(r) => r,
                    None => return None,
                };
                let ghost s1 = segs@;
                let rb = match self.collect_segments(b, segs, fuel - 1) {
                    Some(r) => r,
                    None => return None,
                };
                let (offset, start, end) = match axis {
                    Axis::Vertical => {
                        if rb.x == 0 {
                            return None;
                        }
                        let start = if ra.y == 0 { 0 } else { ra.y - 1 };
                        let end = if ra.y + ra.h >= HEIGHT - 1 { ra.y + ra.h } else { ra.y + ra.h + 1 };
                        (rb.x - 1, start, end)
                    },
                    Axis::Horizontal => {
                        if rb.y == 0 {
                            return None;
                        }
                        let start = if ra.x == 0 { 0 } else { ra.x - 1 };
                        let end = if ra.x + ra.w >= WIDTH - 1 { ra.x + ra.w } else { ra.x + ra.w + 1 };
                        (rb.y - 1, start, end)
                    },
                };
                if (ra.x < rb.x || ra.y < rb.y) && (rb.w + rb.x < ra.x || rb.h + rb.y < ra.y) {
                    return None;
                }
                segs.push(Segment { axis, offset, start, end });
                proof {
                    lemma_merged_on_screen(ra, rb);
                    let (sa, _) = self@.collect(a, (fuel - 1) as nat)->0;
                    let (sb, _) = self@.collect(b, (fuel - 1) as nat)->0;
                    assert(segs@ =~= s0 + (sa + sb + seq![Segment { axis, offset, start, end }]));
                }
                Some(ra.merge_with(rb))
            },
        }
    }
}


pub proof fn lemma_same_shape_tree(c: CompView, d: CompView, id: NodeId, fuel: nat)
    requires
        c.wf(),
        c.same_shape(d),
    ensures
        c.tree_ok(id, fuel) == d.tree_ok(id, fuel),
        c.collect(id, fuel) == d.collect(id, fuel),
    decreases fuel,
{
    if fuel > 0 && c.has_node(id) {
        match c.node(id).kind {
            Node::Leaf(p) => {},
            Node::Split { axis, a, b } => {
                lemma_same_shape_tree(c, d, a, (fuel - 1) as nat);
                lemma_same_shape_tree(c, d, b, (fuel - 1) as nat);
            },
        }
    }
}

impl Compositor {
    /// Flushes the terminal of pane `id`.
    fn flush_pane(&mut self, id: PaneId, vga: &mut Vga)
        requires
            old(self).wf(),
            old(vga).wf(),
            old(self)@.has_pane(id),
        ensures
            final(self).wf(),
            final(vga).wf(),
            (final(self)@, final(vga)@) == ({
                let (t, v2) = old(self)@.pane(id).term.flush_result(old(vga)@);
                (old(self)@.set_pane(id, old(self)@.pane(id).with_term(t)), v2)
            }),
    {
        let ghost c0 = self@;
        match &mut self.panes[id.0] {
            Some(pane) => {
                pane.term.flush(vga);
            },
            None => {},
        }
        proof {
            let (t, v2) = c0.pane(id).term.flush_result(old(vga)@);
            assert(self@.panes =~= c0.set_pane(id, c0.pane(id).with_term(t)).panes);
        }
    }

    fn render_node(&mut self, id: NodeId, vga: &mut Vga, fuel: usize)
        requires
            old(self).wf(),
            old(vga).wf(),
            old(self)@.tree_ok(id, fuel as nat),
        ensures
            final(self).wf(),
            final(vga).wf(),
            (final(self)@, final(vga)@) == old(self)@.render_nodes(old(vga)@, id, fuel as nat),
            final(self)@.same_shape(old(self)@),
        decreases fuel,
    {
        match self.node(id).kind {
            Node::Leaf(pane_id) => {
                self.flush_pane(pane_id, vga);
            },
            Node::Split { axis: _, a, b } => {
                let ghost c0 = self@;
                self.render_node(a, vga, fuel - 1);
                proof {
                    lemma_same_shape_tree(self@, c0, b, (fuel - 1) as nat);
                }
                self.render_node(b, vga, fuel - 1);
            },
        }
    }
}


pub open spec fn segments_of(r: Option<(Seq<Segment>, Rect)>) -> Seq<Segment> {
    match r {
        Some((s, _)) => s,
        None => Seq::empty(),
    }
}

pub open spec fn rect_of(r: Option<(Seq<Segment>, Rect)>) -> Rect {
    match r {
        Some((_, rect)) => rect,
        None => Rect { x: 0, y: 0, w: 0, h: 0 },
    }
}

/// Whether screen position (x, y) lies on the border just around `rect`.
/// The rows (or columns) counted for a side start one before the rectangle;
/// for a rectangle on the top row (left column) that start is taken to wrap
/// round, so the side counts no position.
pub open spec fn touches(rect: Rect, x: int, y: int) -> bool {
    let vertical_edge = (x + 1 == rect.x || x == rect.x + rect.w) && rect.y >= 1 && rect.y - 1 <= y
        && y < rect.y + rect.h + 1;
    let horizontal_edge = (y + 1 == rect.y || y == rect.y + rect.h) && rect.x >= 1 && rect.x - 1 <= x
        && x < rect.x + rect.w + 1;
    vertical_edge || horizontal_edge
}

/// Blue for the border of the focused pane, green elsewhere.
pub open spec fn border_color(act: Rect, x: int, y: int) -> Color {
    if touches(act, x, y) { Color::Blue } else { Color::Green }
}

pub open spec fn seg_on_screen(seg: Segment) -> bool {
    match seg.axis {
        Axis::Vertical => seg.offset < WIDTH && seg.end <= HEIGHT,
        Axis::Horizontal => seg.offset < HEIGHT && seg.end <= WIDTH,
    }
}

/// What drawing `seg` (up to, not including, position `upto` along it)
/// puts in cell `k`, if anything.
pub open spec fn seg_cell(seg: Segment, act: Rect, k: int, upto: int) -> Option<u16> {
    let r = k / (WIDTH as int);
    let c = k % (WIDTH as int);
    match seg.axis {
        Axis::Vertical => if c == seg.offset && seg.start <= r < upto {
            Some(cell(cp437('│'), border_color(act, c, r), Color::White))
        } else {
            None
        },
        Axis::Horizontal => if r == seg.offset && seg.start <= c < upto {
            Some(cell(cp437('─'), border_color(act, c, r), Color::White))
        } else {
            None
        },
    }
}

pub open spec fn draw_seg_upto(cells: Seq<u16>, seg: Segment, act: Rect, upto: int) -> Seq<u16> {
    Seq::new(cells.len(), |k: int| match seg_cell(seg, act, k, upto) {
        Some(e) => e,
        None => cells[k],
    })
}

pub open spec fn draw_segs(cells: Seq<u16>, segs: Seq<Segment>, act: Rect) -> Seq<u16>
    decreases segs.len(),
{
    if segs.len() == 0 {
        cells
    } else {
        draw_seg_upto(draw_segs(cells, segs.drop_last(), act), segs.last(), act, segs.last().end as int)
    }
}

/// The vertical and the horizontal one of two segments, in that order.
pub open spec fn vh(a: Segment, b: Segment) -> (Segment, Segment) {
    if a.axis == Axis::Vertical { (a, b) } else { (b, a) }
}

pub open spec fn crosses(v: Segment, h: Segment) -> bool {
    h.start <= v.offset < h.end && v.start <= h.offset < v.end
}

/// Cells after the junction of segments `i` and `j` is drawn.
pub open spec fn junction_at(cells: Seq<u16>, segs: Seq<Segment>, act: Rect, i: int, j: int) -> Seq<u16> {
    let a = segs[i];
    let b = segs[j];
    if a.axis == b.axis {
        cells
    } else {
        let (v, h) = vh(a, b);
        if crosses(v, h) {
            crate::drivers::vga::put_cell(
                cells,
                cell(cp437(junction(v, h)->0), border_color(act, v.offset as int, h.offset as int), Color::White),
                v.offset as int,
                h.offset as int,
            )
        } else {
            cells
        }
    }
}

/// The junctions of segment `i` with segments `i + 1 .. j`.
pub open spec fn junction_row(cells: Seq<u16>, segs: Seq<Segment>, act: Rect, i: int, j: int) -> Seq<u16>
    decreases j - i,
{
    if j <= i + 1 {
        cells
    } else {
        junction_at(junction_row(cells, segs, act, i, j - 1), segs, act, i, j - 1)
    }
}

/// The junctions of segments `0 .. i` with every later segment.
pub open spec fn junction_rows(cells: Seq<u16>, segs: Seq<Segment>, act: Rect, i: int) -> Seq<u16>
    decreases i,
{
    if i <= 0 {
        cells
    } else {
        junction_row(junction_rows(cells, segs, act, i - 1), segs, act, i - 1, segs.len() as int)
    }
}

/// Every crossing of a vertical and a horizontal segment is a cross or a tee.
pub open spec fn junctions_ok(segs: Seq<Segment>) -> bool {
    forall|i: int, j: int| 0 <= i < j < segs.len() && segs[i].axis != segs[j].axis
        && #[trigger] crosses(vh(segs[i], segs[j]).0, vh(segs[i], segs[j]).1)
        ==> junction(vh(segs[i], segs[j]).0, vh(segs[i], segs[j]).1) is Some
}

/// Whether some segment covers at least one cell.
pub open spec fn draws_any(segs: Seq<Segment>) -> bool {
    exists|k: int| 0 <= k < segs.len() && #[trigger] segs[k].start < segs[k].end
}

/// The status bar: the last row, cyan while the prefix is armed, else green.
pub open spec fn statusbar(cells: Seq<u16>, armed: bool) -> Seq<u16> {
    Seq::new(cells.len(), |k: int|
        if k / (WIDTH as int) == HEIGHT - 1 {
            cell(0x20, Color::White, if armed { Color::Cyan } else { Color::Green })
        } else {
            cells[k]
        })
}

impl CompView {
    /// Whether `render` can be carried out:
    /// an active window whose tree can be walked, at most three dividing
    /// lines, every crossing a cross or a tee, and a focused pane wherever a
    /// line is drawn.
    pub open spec fn render_ok(self) -> bool {
        &&& self.has_window(self.active_window)
        &&& self.tree_ok(self.active().root, 4)
        &&& self.collect(self.active().root, 4) is Some
        &&& self.active_segments().len() <= 3
        &&& junctions_ok(self.active_segments())
        &&& draws_any(self.active_segments()) ==> self.has_pane(self.active().focused_pane)
    }

    /// The rectangle of the focused pane of the active window (an empty
    /// one when there is no such pane).
    pub open spec fn active_rect(self) -> Rect {
        if self.has_pane(self.active().focused_pane) {
            self.pane(self.active().focused_pane).rect
        } else {
            Rect { x: 0, y: 0, w: 0, h: 0 }
        }
    }

    /// The dividing lines of the active window.
    pub open spec fn active_segments(self) -> Seq<Segment> {
        segments_of(self.collect(self.active().root, 4))
    }

    /// Compositor and device after `render`: the panes of the active window
    /// flushed, the dividing lines and their junctions drawn, and the status
    /// bar drawn.
    pub open spec fn rendered(self, v: VgaView) -> (CompView, VgaView) {
        let root = self.active().root;
        let (c1, v1) = self.render_nodes(v, root, 4);
        let segs = self.active_segments();
        let act = self.active_rect();
        let cells = junction_rows(draw_segs(v1.cells, segs, act), segs, act, segs.len() as int);
        (c1, VgaView { cells: statusbar(cells, self.prefix_armed), ..v1 })
    }
}

pub proof fn lemma_collect_on_screen(c: CompView, id: NodeId, fuel: nat)
    requires
        c.wf(),
        c.collect(id, fuel) is Some,
    ensures
        on_screen(rect_of(c.collect(id, fuel))),
        forall|k: int| 0 <= k < segments_of(c.collect(id, fuel)).len() ==> seg_on_screen(#[trigger] segments_of(c.collect(id, fuel))[k]),
    decreases fuel,
{
    match c.node(id).kind {
        Node::Leaf(p) => {},
        Node::Split { axis, a, b } => {
            lemma_collect_on_screen(c, a, (fuel - 1) as nat);
            lemma_collect_on_screen(c, b, (fuel - 1) as nat);
            let sa = segments_of(c.collect(a, (fuel - 1) as nat));
            let ra = rect_of(c.collect(a, (fuel - 1) as nat));
            let sb = segments_of(c.collect(b, (fuel - 1) as nat));
            let rb = rect_of(c.collect(b, (fuel - 1) as nat));
            lemma_merged_on_screen(ra, rb);
            let seg = segment_of(axis, ra, rb)->0;
            assert(seg_on_screen(seg));
            assert(c.collect(id, fuel) == Some((sa + sb + seq![seg], merged(ra, rb)->0)));
            let s = segments_of(c.collect(id, fuel));
            assert forall|k: int| 0 <= k < s.len() implies seg_on_screen(#[trigger] s[k]) by {
                if k < sa.len() {
                    assert(s[k] == sa[k]);
                } else if k < sa.len() + sb.len() {
                    assert(s[k] == sb[k - sa.len()]);
                } else {
                    assert(s[k] == segment_of(axis, ra, rb)->0);
                }
            }
        },
    }
}

pub fn touches_active_pane(rect: Rect, x: usize, y: usize) -> (r: bool)
    requires
        on_screen(rect),
        x < WIDTH,
        y < HEIGHT,
    ensures
        r == touches(rect, x as int, y as int),
{
    let vertical_edge = (x + 1 == rect.x || x == rect.x + rect.w) && (rect.y.wrapping_sub(1) <= y
        && y < rect.y + rect.h + 1);
    let horizontal_edge = (y + 1 == rect.y || y == rect.y + rect.h) && (rect.x.wrapping_sub(1) <= x
        && x < rect.x + rect.w + 1);
    vertical_edge || horizontal_edge
}

fn border(act: Rect, x: usize, y: usize) -> (r: Color)
    requires
        on_screen(act),
        x < WIDTH,
        y < HEIGHT,
    ensures
        r == border_color(act, x as int, y as int),
{
    if touches_active_pane(act, x, y) { Color::Blue } else { Color::Green }
}

/// Draws one dividing line.
fn draw_segment(vga: &mut Vga, seg: Segment, act: Rect)
    requires
        old(vga).wf(),
        seg_on_screen(seg),
        seg.start < seg.end ==> on_screen(act),
    ensures
        final(vga).wf(),
        final(vga)@ == (VgaView { cells: draw_seg_upto(old(vga)@.cells, seg, act, seg.end as int), ..old(vga)@ }),
{
    let ghost v0 = vga@;
    let mut i: usize = seg.start;
    if seg.start >= seg.end {
        assert(vga@.cells =~= draw_seg_upto(v0.cells, seg, act, seg.end as int));
        return;
    }
    while i < seg.end
        invariant
            seg.start <= i <= seg.end,
            seg_on_screen(seg),
            on_screen(act),
            vga.wf(),
            vga@ == (VgaView { cells: vga@.cells, ..v0 }),
            vga@.cells == draw_seg_upto(v0.cells, seg, act, i as int),
        decreases seg.end - i,
    {
        let ghost prev = vga@.cells;
        let vertical = match seg.axis {
            Axis::Vertical => true,
            Axis::Horizontal => false,
        };
        let (x, y, c) = if vertical { (seg.offset, i, '│') } else { (i, seg.offset, '─') };
        let fg = border(act, x, y);
        let e = entry(encode(c), fg, Color::White);
        vga.put_entry_at(e, x, y);
        proof {
            let k = y * WIDTH + x;
            lemma_fundamental_div_mod_converse(k, WIDTH as int, y as int, x as int);
            assert forall|m: int| 0 <= m < CELLS implies #[trigger] vga@.cells[m] == draw_seg_upto(v0.cells, seg, act, i + 1)[m] by {
                lemma_fundamental_div_mod(m, WIDTH as int);
            }
            assert(vga@.cells =~= draw_seg_upto(v0.cells, seg, act, i + 1));
        }
        i = i + 1;
    }
}

fn draw_junction(vga: &mut Vga, segs: &Vec<Segment>, act: Rect, i: usize, j: usize)
    requires
        old(vga).wf(),
        i < j < segs@.len(),
        forall|k: int| 0 <= k < segs@.len() ==> seg_on_screen(#[trigger] segs@[k]),
        junctions_ok(segs@),
        draws_any(segs@) ==> on_screen(act),
    ensures
        final(vga).wf(),
        final(vga)@ == (VgaView { cells: junction_at(old(vga)@.cells, segs@, act, i as int, j as int), ..old(vga)@ }),
{
    let a = segs[i];
    let b = segs[j];
    if a.axis == b.axis {
        return;
    }
    let (v, h) = match a.axis {
        Axis::Vertical => (a, b),
        Axis::Horizontal => (b, a),
    };
    if let Some((x, y)) = v.intersect(&h) {
        assert(segs@[i as int].start < segs@[i as int].end);
        let c = get_junction_char(&v, &h);
        let fg = border(act, x, y);
        vga.put_entry_at(entry(encode(c), fg, Color::White), x, y);
    }
}


fn junction_exists(v: &Segment, h: &Segment) -> (r: bool)
    ensures
        r == junction(*v, *h) is Some,
{
    let up = v.start < h.offset;
    let down = v.end > h.offset && v.end - h.offset > 1;
    let left = h.start < v.offset;
    let right = h.end > v.offset && h.end - v.offset > 1;
    (up && down && left && right) || (up && down && left && !right) || (up && down && !left && right)
        || (!up && down && left && right) || (up && !down && left && right)
}

fn check_junctions(segs: &Vec<Segment>) -> (r: bool)
    ensures
        r == junctions_ok(segs@),
{
    let n = segs.len();
    let mut i: usize = 0;
    while i < n
        invariant
            n == segs@.len(),
            i <= n,
            forall|i2: int, j2: int| 0 <= i2 < i && i2 < j2 < n && segs@[i2].axis != segs@[j2].axis
                && #[trigger] crosses(vh(segs@[i2], segs@[j2]).0, vh(segs@[i2], segs@[j2]).1)
                ==> junction(vh(segs@[i2], segs@[j2]).0, vh(segs@[i2], segs@[j2]).1) is Some,
        decreases n - i,
    {
        let mut j: usize = i + 1;
        while j < n
            invariant
                n == segs@.len(),
                i < n,
                i + 1 <= j <= n,
                forall|i2: int, j2: int| 0 <= i2 < i && i2 < j2 < n && segs@[i2].axis != segs@[j2].axis
                    && #[trigger] crosses(vh(segs@[i2], segs@[j2]).0, vh(segs@[i2], segs@[j2]).1)
                    ==> junction(vh(segs@[i2], segs@[j2]).0, vh(segs@[i2], segs@[j2]).1) is Some,
                forall|j2: int| i < j2 < j && segs@[i as int].axis != segs@[j2].axis
                    && #[trigger] crosses(vh(segs@[i as int], segs@[j2]).0, vh(segs@[i as int], segs@[j2]).1)
                    ==> junction(vh(segs@[i as int], segs@[j2]).0, vh(segs@[i as int], segs@[j2]).1) is Some,
            decreases n - j,
        {
            let a = segs[i];
            let b = segs[j];
            if a.axis != b.axis {
                let (v, h) = match a.axis {
                    Axis::Vertical => (a, b),
                    Axis::Horizontal => (b, a),
                };
                if v.intersect(&h).is_some() && !junction_exists(&v, &h) {
                    assert(crosses(vh(segs@[i as int], segs@[j as int]).0, vh(segs@[i as int], segs@[j as int]).1));
                    return false;
                }
            }
            j = j + 1;
        }
        i = i + 1;
    }
    true
}

fn check_draws_any(segs: &Vec<Segment>) -> (r: bool)
    ensures
        r == draws_any(segs@),
{
    let mut k: usize = 0;
    while k < segs.len()
        invariant
            k <= segs@.len(),
            forall|k2: int| 0 <= k2 < k ==> !(#[trigger] segs@[k2].start < segs@[k2].end),
        decreases segs@.len() - k,
    {
        if segs[k].start < segs[k].end {
            return true;
        }
        k = k + 1;
    }
    false
}

fn draw_segments(vga: &mut Vga, segs: &Vec<Segment>, act: Rect)
    requires
        old(vga).wf(),
        forall|k: int| 0 <= k < segs@.len() ==> seg_on_screen(#[trigger] segs@[k]),
        draws_any(segs@) ==> on_screen(act),
    ensures
        final(vga).wf(),
        final(vga)@ == (VgaView { cells: draw_segs(old(vga)@.cells, segs@, act), ..old(vga)@ }),
{
    let ghost v0 = vga@;
    let mut k: usize = 0;
    while k < segs.len()
        invariant
            k <= segs@.len(),
            forall|k2: int| 0 <= k2 < segs@.len() ==> seg_on_screen(#[trigger] segs@[k2]),
            draws_any(segs@) ==> on_screen(act),
            vga.wf(),
            vga@ == (VgaView { cells: vga@.cells, ..v0 }),
            vga@.cells == draw_segs(v0.cells, segs@.subrange(0, k as int), act),
        decreases segs@.len() - k,
    {
        let seg = segs[k];
        draw_segment(vga, seg, act);
        assert(segs@.subrange(0, k + 1).drop_last() =~= segs@.subrange(0, k as int));
        k = k + 1;
    }
    assert(segs@.subrange(0, segs@.len() as int) =~= segs@);
}

fn draw_junctions(vga: &mut Vga, segs: &Vec<Segment>, act: Rect)
    requires
        old(vga).wf(),
        forall|k: int| 0 <= k < segs@.len() ==> seg_on_screen(#[trigger] segs@[k]),
        junctions_ok(segs@),
        draws_any(segs@) ==> on_screen(act),
    ensures
        final(vga).wf(),
        final(vga)@ == (VgaView { cells: junction_rows(old(vga)@.cells, segs@, act, segs@.len() as int), ..old(vga)@ }),
{
    let ghost v0 = vga@;
    let n = segs.len();
    let mut i: usize = 0;
    while i < n
        invariant
            n == segs@.len(),
            i <= n,
            forall|k2: int| 0 <= k2 < segs@.len() ==> seg_on_screen(#[trigger] segs@[k2]),
            junctions_ok(segs@),
            draws_any(segs@) ==> on_screen(act),
            vga.wf(),
            vga@ == (VgaView { cells: vga@.cells, ..v0 }),
            vga@.cells == junction_rows(v0.cells, segs@, act, i as int),
        decreases n - i,
    {
        let ghost row_start = vga@.cells;
        let mut j: usize = i + 1;
        while j < n
            invariant
                n == segs@.len(),
                i < n,
                i + 1 <= j <= n,
                forall|k2: int| 0 <= k2 < segs@.len() ==> seg_on_screen(#[trigger] segs@[k2]),
                junctions_ok(segs@),
                draws_any(segs@) ==> on_screen(act),
                vga.wf(),
                vga@ == (VgaView { cells: vga@.cells, ..v0 }),
                row_start == junction_rows(v0.cells, segs@, act, i as int),
                vga@.cells == junction_row(row_start, segs@, act, i as int, j as int),
            decreases n - j,
        {
            draw_junction(vga, segs, act, i, j);
            j = j + 1;
        }
        i = i + 1;
    }
}

impl Compositor {
    fn render_statusbar(&self, vga: &mut Vga)
        requires
            old(vga).wf(),
        ensures
            final(vga).wf(),
            final(vga)@ == (VgaView { cells: statusbar(old(vga)@.cells, self@.prefix_armed), ..old(vga)@ }),
    {
        let bg = if self.prefix_armed { Color::Cyan } else { Color::Green };
        let e = entry(0x20u8, Color::White, bg);
        let ghost v0 = vga@;
        let mut x: usize = 0;
        while x < WIDTH
            invariant
                x <= WIDTH,
                vga.wf(),
                e == cell(0x20, Color::White, bg),
                bg == if self@.prefix_armed { Color::Cyan } else { Color::Green },
                vga@ == (VgaView { cells: vga@.cells, ..v0 }),
                forall|k: int| 0 <= k < CELLS ==> #[trigger] vga@.cells[k] == if k / (WIDTH as int) == HEIGHT - 1 && k % (WIDTH as int) < x { e } else { v0.cells[k] },
            decreases WIDTH - x,
        {
            let ghost prev = vga@.cells;
            vga.put_entry_at(e, x, HEIGHT - 1);
            proof {
                let k = (HEIGHT - 1) * WIDTH + x;
                lemma_fundamental_div_mod_converse(k, WIDTH as int, HEIGHT - 1, x as int);
                assert forall|m: int| 0 <= m < CELLS implies #[trigger] vga@.cells[m] == if m / (WIDTH as int) == HEIGHT - 1 && m % (WIDTH as int) < x + 1 { e } else { v0.cells[m] } by {
                    lemma_fundamental_div_mod(m, WIDTH as int);
                }
            }
            x = x + 1;
        }
        assert(vga@.cells =~= statusbar(v0.cells, self@.prefix_armed));
    }

    /// Draws the active window: its panes' terminals, the lines between
    /// them with their junctions, and the status bar. False when the state
    /// does not allow it (a fatal error for the kernel).
    fn render(&mut self, vga: &mut Vga) -> (ok: bool)
        requires
            old(self).wf(),
            old(vga).wf(),
        ensures
            ok == old(self)@.render_ok(),
            ok ==> final(self).wf() && final(vga).wf()
                && (final(self)@, final(vga)@) == old(self)@.rendered(old(vga)@),
    {
        let w = self.active_window.0;
        if w >= MAX_WINDOWS || self.windows[w].is_none() {
            return false;
        }
        let window = self.windows[w].unwrap();
        let root = window.root;
        if !self.tree_ok(root, 4) {
            return false;
        }
        let mut segs: Vec<Segment> = Vec::new();
        let r = self.collect_segments(root, &mut segs, 4);
        if r.is_none() {
            return false;
        }
        proof {
            assert(segs@ =~= self@.active_segments());
            lemma_collect_on_screen(self@, root, 4);
        }
        if segs.len() > 3 {
            return false;
        }
        if !check_junctions(&segs) {
            return false;
        }
        let any = check_draws_any(&segs);
        let focused = window.focused_pane;
        if any && !self.has_pane(focused) {
            return false;
        }
        let act = if self.has_pane(focused) { self.pane_rect(focused) } else { Rect { x: 0, y: 0, w: 0, h: 0 } };
        let ghost c0 = self@;
        self.render_node(root, vga, 4);
        draw_segments(vga, &segs, act);
        draw_junctions(vga, &segs, act);
        self.render_statusbar(vga);
        true
    }
}


/// Index of the first empty slot of `s` at or after `k`, or -1.
pub open spec fn first_free_from<T>(s: Seq<Option<T>>, k: int) -> int
    decreases s.len() - k,
{
    if k < 0 || k >= s.len() {
        -1
    } else if s[k] is None {
        k
    } else {
        first_free_from(s, k + 1)
    }
}

pub open spec fn first_free<T>(s: Seq<Option<T>>) -> int {
    first_free_from(s, 0)
}

pub proof fn lemma_first_free_from<T>(s: Seq<Option<T>>, k: int)
    requires
        0 <= k,
    ensures
        first_free_from(s, k) == -1 || (k <= first_free_from(s, k) < s.len() && s[first_free_from(s, k)] is None),
        first_free_from(s, k) == -1 ==> forall|j: int| k <= j < s.len() ==> #[trigger] s[j] is Some,
    decreases s.len() - k,
{
    if k < s.len() && s[k] is Some {
        lemma_first_free_from(s, k + 1);
    }
}

/// What a node slot holds between its allocation and its use.
pub open spec fn sentinel() -> NodeEntry {
    NodeEntry { parent: None, kind: Node::Leaf(PaneId(usize::MAX)), depth: 0 }
}

pub open spec fn zero_input() -> Seq<u8> {
    Seq::new(MAX_INPUT as nat, |i: int| 0u8)
}

impl CompView {
    pub open spec fn set_node(self, id: NodeId, e: NodeEntry) -> CompView {
        CompView { nodes: self.nodes.update(id.0 as int, Some(e)), ..self }
    }

    pub open spec fn remove_node(self, id: NodeId) -> CompView {
        CompView { nodes: self.nodes.update(id.0 as int, None), ..self }
    }

    pub open spec fn remove_pane(self, id: PaneId) -> CompView {
        CompView { panes: self.panes.update(id.0 as int, None), ..self }
    }

    pub open spec fn set_window(self, id: int, w: Window) -> CompView {
        CompView { windows: self.windows.update(id, Some(w)), ..self }
    }

    pub open spec fn set_focus(self, p: PaneId) -> CompView {
        self.set_window(self.active_window, Window { focused_pane: p, ..self.active() })
    }

    /// Takes the first free node slot, marking it used.
    pub open spec fn alloc_node(self) -> Option<(CompView, NodeId)> {
        let i = first_free(self.nodes);
        if i < 0 {
            None
        } else {
            Some((self.set_node(NodeId(i as usize), sentinel()), NodeId(i as usize)))
        }
    }

    /// Puts a new pane over `rect` in the first free pane slot and draws its
    /// prompt.
    pub open spec fn new_pane(self, v: VgaView, rect: Rect, parent: NodeId) -> Option<(CompView, VgaView, PaneId)> {
        let i = first_free(self.panes);
        if i < 0 || !rect_fits(rect) {
            None
        } else {
            let t = prompted(TermView::initial(rect.x as int, rect.y as int, rect.w as int, rect.h as int, 25));
            let pv = PaneView { term: t.flushed(), rect, readonly: false, input: zero_input(), input_len: 0, parent };
            Some((self.set_pane(PaneId(i as usize), pv), t.flushed_screen(v), PaneId(i as usize)))
        }
    }

    /// Moves pane `id` to `rect` and redraws it.
    pub open spec fn resize_pane(self, v: VgaView, id: PaneId, rect: Rect) -> (CompView, VgaView) {
        let p = self.pane(id);
        let t = p.term.resized(rect.x as int, rect.y as int, rect.w as int, rect.h as int);
        (self.set_pane(id, PaneView { rect, term: t.flushed(), ..p }), t.flushed_screen(v))
    }

    /// Makes window `id` one pane over the whole screen but the status bar.
    pub open spec fn open_window(self, v: VgaView, id: int) -> Option<(CompView, VgaView)> {
        match self.alloc_node() {
            None => None,
            Some((c1, root)) => match c1.new_pane(v, full_rect(), root) {
                None => None,
                Some((c2, v2, p)) => Some((
                    c2.set_node(root, NodeEntry { parent: None, kind: Node::Leaf(p), depth: 0 }).set_window(
                        id,
                        Window { root, focused_pane: p },
                    ),
                    v2,
                )),
            },
        }
    }

    pub open spec fn render_result(self, v: VgaView) -> Option<(CompView, VgaView)> {
        if self.render_ok() {
            Some(self.rendered(v))
        } else {
            None
        }
    }

    /// `init`: window 0 opened, then the screen rendered.
    pub open spec fn init_result(self, v: VgaView) -> Option<(CompView, VgaView)> {
        match self.open_window(v, 0) {
            None => None,
            Some((c1, v1)) => c1.render_result(v1),
        }
    }

    /// `switch_window`: window `id` opened if it has no tree yet, made
    /// active, and rendered.
    pub open spec fn switch_result(self, v: VgaView, id: int) -> Option<(CompView, VgaView)> {
        if !(0 <= id < MAX_WINDOWS) {
            None
        } else {
            let opened = if self.windows[id] is None { self.open_window(v, id) } else { Some((self, v)) };
            match opened {
                None => None,
                Some((c1, v1)) => CompView { active_window: id, ..c1 }.render_result(v1),
            }
        }
    }
}

impl Compositor {
    /// Takes the first free node slot.
    fn get_next_node(&mut self) -> (r: Option<NodeId>)
        requires
            old(self).wf(),
        ensures
            final(self).wf(),
            match old(self)@.alloc_node() {
                None => r is None && final(self)@ == old(self)@,
                Some((c, id)) => r == Some(id) && final(self)@ == c,
            },
    {
        let ghost c0 = self@;
        let mut i: usize = 0;
        while i < MAX_NODES
            invariant
                self@ == c0,
                c0 == old(self)@,
                self.wf(),
                i <= MAX_NODES,
                first_free(c0.nodes) == first_free_from(c0.nodes, i as int),
            decreases MAX_NODES - i,
        {
            if self.nodes[i].is_none() {
                assert(first_free_from(c0.nodes, i as int) == i);
                self.nodes.set(i, Some(NodeEntry { parent: None, kind: Node::Leaf(PaneId(usize::MAX)), depth: 0 }));
                assert(self@.panes =~= c0.set_node(NodeId(i), sentinel()).panes);
                assert(self@.nodes =~= c0.set_node(NodeId(i), sentinel()).nodes);
                assert(self@ == c0.set_node(NodeId(i), sentinel()));
                return Some(NodeId(i));
            }
            i = i + 1;
        }
        None
    }

    /// The first free pane slot.
    fn get_next_pane(&self) -> (r: Option<PaneId>)
        requires
            self.wf(),
        ensures
            first_free(self@.panes) < 0 ==> r is None,
            first_free(self@.panes) >= 0 ==> r == Some(PaneId(first_free(self@.panes) as usize)),
    {
        let mut i: usize = 0;
        while i < MAX_PANES
            invariant
                self.wf(),
                i <= MAX_PANES,
                first_free(self@.panes) == first_free_from(self@.panes, i as int),
            decreases MAX_PANES - i,
        {
            if self.panes[i].is_none() {
                return Some(PaneId(i));
            }
            i = i + 1;
        }
        None
    }

    fn new_pane(&mut self, rect: Rect, parent: NodeId, vga: &mut Vga) -> (r: Option<PaneId>)
        requires
            old(self).wf(),
            old(vga).wf(),
        ensures
            final(self).wf(),
            final(vga).wf(),
            match old(self)@.new_pane(old(vga)@, rect, parent) {
                None => r is None,
                Some((c, v, id)) => r == Some(id) && final(self)@ == c && final(vga)@ == v,
            },
    {
        proof {
            lemma_first_free_from(self@.panes, 0);
        }
        let pane_id = match self.get_next_pane() {
            Some(id) => id,
            None => return None,
        };
        if !(rect.w >= 1 && rect.h >= 1 && rect.w <= WIDTH && rect.h <= HEIGHT && rect.x <= WIDTH - rect.w
            && rect.y <= HEIGHT - rect.h) {
            return None;
        }
        let ghost c0 = self@;
        let pane = Pane::init(rect, parent, vga);
        self.panes.set(pane_id.0, Some(pane));
        proof {
            let t = prompted(TermView::initial(rect.x as int, rect.y as int, rect.w as int, rect.h as int, 25));
            let pv = PaneView { term: t.flushed(), rect, readonly: false, input: zero_input(), input_len: 0, parent };
            assert(pane@ == pv);
            assert(self@.panes =~= c0.set_pane(pane_id, pv).panes);
        }
        Some(pane_id)
    }

    fn resize_pane(&mut self, id: PaneId, rect: Rect, vga: &mut Vga)
        requires
            old(self).wf(),
            old(vga).wf(),
            old(self)@.has_pane(id),
            rect_fits(rect),
        ensures
            final(self).wf(),
            final(vga).wf(),
            (final(self)@, final(vga)@) == old(self)@.resize_pane(old(vga)@, id, rect),
    {
        let ghost c0 = self@;
        match &mut self.panes[id.0] {
            Some(pane) => {
                pane.rect = rect;
                pane.term.resize(rect.x, rect.y, rect.w, rect.h);
                pane.term.flush(vga);
            },
            None => {},
        }
        proof {
            let (c1, v1) = c0.resize_pane(old(vga)@, id, rect);
            assert(self@.panes =~= c1.panes);
        }
    }

    fn set_node(&mut self, id: NodeId, e: NodeEntry)
        requires
            old(self).wf(),
            id.0 < MAX_NODES,
        ensures
            final(self).wf(),
            final(self)@ == old(self)@.set_node(id, e),
    {
        let ghost c0 = self@;
        self.nodes.set(id.0, Some(e));
        assert(self@.panes =~= c0.panes);
    }

    fn open_window(&mut self, id: usize, vga: &mut Vga) -> (ok: bool)
        requires
            old(self).wf(),
            old(vga).wf(),
            id < MAX_WINDOWS,
        ensures
            final(self).wf(),
            final(vga).wf(),
            ok == old(self)@.open_window(old(vga)@, id as int) is Some,
            ok ==> (final(self)@, final(vga)@) == old(self)@.open_window(old(vga)@, id as int)->0,
    {
        proof {
            lemma_first_free_from(self@.nodes, 0);
        }
        let root_id = match self.get_next_node() {
            Some(r) => r,
            None => return false,
        };
        let pane_id = match self.new_pane(Rect { x: 0, y: 0, w: WIDTH, h: HEIGHT - 1 }, root_id, vga) {
            Some(p) => p,
            None => return false,
        };
        self.set_node(root_id, NodeEntry { parent: None, kind: Node::Leaf(pane_id), depth: 0 });
        let ghost c0 = self@;
        self.windows.set(id, Some(Window { root: root_id, focused_pane: pane_id }));
        assert(self@.panes =~= c0.panes);
        true
    }

    /// Opens window 0 with a single pane and draws it. False when there is
    /// no room for it or it cannot be drawn (a fatal error for the kernel).
    pub fn init(&mut self, vga: &mut Vga) -> (ok: bool)
        requires
            old(self).wf(),
            old(vga).wf(),
        ensures
            ok == old(self)@.init_result(old(vga)@) is Some,
            ok ==> final(self).wf() && final(vga).wf()
                && (final(self)@, final(vga)@) == old(self)@.init_result(old(vga)@)->0,
    {
        if !self.open_window(0, vga) {
            return false;
        }
        self.render(vga)
    }

    /// Shows window `id`, giving it a single pane first if it has none.
    /// False when that cannot be done (a fatal error for the kernel).
    fn switch_window(&mut self, id: WindowId, vga: &mut Vga) -> (ok: bool)
        requires
            old(self).wf(),
            old(vga).wf(),
        ensures
            ok == old(self)@.switch_result(old(vga)@, id.0 as int) is Some,
            ok ==> final(self).wf() && final(vga).wf()
                && (final(self)@, final(vga)@) == old(self)@.switch_result(old(vga)@, id.0 as int)->0,
    {
        if id.0 >= MAX_WINDOWS {
            return false;
        }
        if self.windows[id.0].is_none() {
            if !self.open_window(id.0, vga) {
                return false;
            }
        }
        let ghost c0 = self@;
        self.active_window = id;
        assert(self@.panes =~= c0.panes);
        self.render(vga)
    }
}


impl CompView {
    pub open spec fn set_parent(self, id: PaneId, parent: NodeId) -> CompView {
        self.set_pane(id, PaneView { parent, ..self.pane(id) })
    }

    /// Whether the active window and its focused pane exist.
    pub open spec fn has_focus(self) -> bool {
        self.has_window(self.active_window) && self.has_pane(self.active().focused_pane)
    }

    /// Climbing from node `child` of the focused pane's path: the nearest
    /// split above it along `axis`, the half of it the path comes up
    /// through, and on which side (`true` for the first half) the path ran
    /// through the split just below (the first side when there is none).
    /// `Some(None)` when there is no such split above; `None` when a link
    /// is missing or the parent links run in a circle.
    pub open spec fn climb(self, child: NodeId, side: bool, axis: Axis, fuel: nat) -> Option<Option<(NodeId, NodeId, bool)>>
        decreases fuel,
    {
        if fuel == 0 || !self.has_node(child) {
            None
        } else {
            match self.node(child).parent {
                None => Some(None),
                Some(q) => if !self.has_node(q) {
                    None
                } else {
                    match self.node(q).kind {
                        Node::Split { axis: ax, a, b } => if ax == axis {
                            Some(Some((q, child, side)))
                        } else {
                            self.climb(q, child == a, axis, (fuel - 1) as nat)
                        },
                        Node::Leaf(_) => Some(None),
                    }
                },
            }
        }
    }

    /// The pane reached going down from node `n`, taking the first half of
    /// every split when `side` is true and the second otherwise; `None`
    /// when a node is missing or the links run in a circle.
    pub open spec fn descend(self, n: NodeId, side: bool, fuel: nat) -> Option<PaneId>
        decreases fuel,
    {
        if fuel == 0 || !self.has_node(n) {
            None
        } else {
            match self.node(n).kind {
                Node::Leaf(p) => Some(p),
                Node::Split { axis, a, b } => self.descend(if side { a } else { b }, side, (fuel - 1) as nat),
            }
        }
    }

    pub proof fn lemma_move_focus_plan(self, axis: Axis)
        ensures
            self.move_focus_result(axis) == self.move_focus_plan(axis),
    {
        reveal(CompView::move_focus_result);
    }

    /// What `climb` finds is a split along `axis`.
    pub proof fn lemma_climb(self, child: NodeId, side: bool, axis: Axis, fuel: nat)
        ensures
            self.climb(child, side, axis, fuel) matches Some(Some((q, from, s))) ==> (self.has_node(q)
                && (self.node(q).kind matches Node::Split { axis: ax, a, b } && ax == axis)),
        decreases fuel,
    {
        if fuel > 0 && self.has_node(child) {
            match self.node(child).parent {
                Some(q) => if self.has_node(q) {
                    match self.node(q).kind {
                        Node::Split { axis: ax, a, b } => if ax != axis {
                            self.lemma_climb(q, child == a, axis, (fuel - 1) as nat);
                        },
                        _ => {},
                    }
                },
                None => {},
            }
        }
    }

    /// `move_focus`: the focus crosses the nearest divider along `axis`
    /// above the focused pane, to the pane of the other half at the same
    /// side (in a grid of four, the one in the same row or column); with
    /// no such divider it stays.
    #[verifier::opaque]
    pub open spec fn move_focus_result(self, axis: Axis) -> Option<CompView> {
        self.move_focus_plan(axis)
    }

    /// The steps of `move_focus_result`.
    pub open spec fn move_focus_plan(self, axis: Axis) -> Option<CompView> {
        if !self.has_focus() {
            None
        } else {
            let pn = self.pane(self.active().focused_pane).parent;
            match self.climb(pn, true, axis, MAX_NODES as nat) {
                None => None,
                Some(None) => Some(self),
                Some(Some((q, from, side))) => match self.node(q).kind {
                    Node::Split { axis: ax, a, b } => {
                        let other = if a == from { b } else { a };
                        match self.descend(other, side, MAX_NODES as nat) {
                            None => None,
                            Some(p) => Some(self.set_focus(p)),
                        }
                    },
                    _ => None,
                },
            }
        }
    }

    /// `split_pane` after its two node slots are taken: the focused pane
    /// keeps the first half of its rectangle, a new pane takes the second,
    /// the pane's leaf becomes a split over two new leaves, the new pane
    /// gets the focus, and the screen is rendered.
    pub open spec fn split_with(self, v: VgaView, axis: Axis, new_leaf: NodeId, new_node: NodeId) -> Option<(CompView, VgaView)> {
        let pane_id = self.active().focused_pane;
        let node_id = self.pane(pane_id).parent;
        let rect = self.pane(pane_id).rect;
        let (c3, v3) = self.resize_pane(v, pane_id, split_first(rect, axis));
        match c3.new_pane(v3, split_second(rect, axis), new_leaf) {
            None => None,
            Some((c4, v4, new_pane_id)) => {
                let d = (c4.node(node_id).depth + 1) as u8;
                let c5 = c4.set_parent(pane_id, new_node);
                let c6 = c5.set_node(new_leaf, NodeEntry { kind: Node::Leaf(new_pane_id), parent: Some(node_id), depth: d });
                let c7 = c6.set_node(new_node, NodeEntry { parent: Some(node_id), kind: Node::Leaf(pane_id), depth: d });
                let c8 = c7.set_node(node_id, NodeEntry { kind: Node::Split { axis, a: new_node, b: new_leaf }, ..c7.node(node_id) });
                c8.set_focus(new_pane_id).render_result(v4)
            },
        }
    }

    pub open spec fn split_result(self, v: VgaView, axis: Axis) -> Option<(CompView, VgaView)> {
        if !self.has_focus() {
            None
        } else {
            let pane_id = self.active().focused_pane;
            let node_id = self.pane(pane_id).parent;
            if !self.has_node(node_id) {
                None
            } else if self.node(node_id).depth > 1 {
                Some((self, v))
            } else {
                match self.alloc_node() {
                    None => None,
                    Some((c1, new_leaf)) => match c1.alloc_node() {
                        None => None,
                        Some((c2, new_node)) => {
                            let rect = self.pane(pane_id).rect;
                            // The new half, `split_second(rect, axis)`, would
                            // hold no column (or row): making its terminal
                            // computes `width - 1` (or `height - 1`) of zero,
                            // which overflows.
                            if (axis == Axis::Vertical && rect.w - rect.w / 2 <= 1) || (axis == Axis::Horizontal && rect.h
                                - rect.h / 2 <= 1) {
                                None
                            } else {
                                c2.split_with(v, axis, new_leaf, new_node)
                            }
                        },
                    },
                }
            }
        }
    }

    /// `close_pane` once the closing pane's leaf `pane_node_id` is known to
    /// be the `a` or `b` half of split `node_id`: the other half takes the
    /// split's place (its pane, if it is a leaf, grows over both halves and
    /// gets the focus), the two old nodes and the pane are dropped, and the
    /// screen is rendered.
    pub open spec fn close_in(self, v: VgaView, node_id: NodeId, a: NodeId, b: NodeId) -> Option<(CompView, VgaView)> {
        let pane_id = self.active().focused_pane;
        let pane_node_id = self.pane(pane_id).parent;
        let other = if a == pane_node_id { b } else { a };
        if !self.has_node(other) {
            None
        } else {
            let kind = self.node(other).kind;
            let moved = match kind {
                Node::Leaf(op) => if !self.has_pane(op) {
                    None
                } else {
                    let closing = self.pane(pane_id).rect;
                    let c1 = self.set_focus(op);
                    match merged(closing, c1.pane(op).rect) {
                        None => None,
                        Some(m) => if !rect_fits(m) {
                            None
                        } else {
                            let (c2, v2) = c1.resize_pane(v, op, m);
                            Some((c2.set_parent(op, node_id), v2))
                        },
                    }
                },
                _ => Some((self, v)),
            };
            match moved {
                None => None,
                Some((c3, v3)) => c3.set_node(node_id, NodeEntry { kind, ..c3.node(node_id) }).remove_node(
                    other,
                ).remove_node(pane_node_id).remove_pane(pane_id).render_result(v3),
            }
        }
    }

    pub open spec fn close_result(self, v: VgaView) -> Option<(CompView, VgaView)> {
        if !self.has_focus() {
            None
        } else {
            let pane_node_id = self.pane(self.active().focused_pane).parent;
            if !self.has_node(pane_node_id) {
                None
            } else {
                match self.node(pane_node_id).parent {
                    None => None,
                    Some(node_id) => if !self.has_node(node_id) {
                        None
                    } else {
                        match self.node(node_id).kind {
                            Node::Split { axis, a, b } => self.close_in(v, node_id, a, b),
                            _ => None,
                        }
                    },
                }
            }
        }
    }
}

impl CompView {
    /// The tree's links agree both ways: a pane's node is a leaf holding
    /// it, a leaf's pane names it as its node, a split's two halves are
    /// distinct nodes naming it as their parent, and a node's parent is a
    /// split holding it as one half.
    pub open spec fn links_ok(self) -> bool {
        &&& forall|i: int| 0 <= i < MAX_PANES && #[trigger] self.panes[i] is Some ==> {
            let n = self.panes[i]->0.parent;
            self.has_node(n) && self.node(n).kind == Node::Leaf(PaneId(i as usize))
        }
        &&& forall|n: int| 0 <= n < MAX_NODES && #[trigger] self.nodes[n] is Some ==> match self.nodes[n]->0.kind {
            Node::Leaf(p) => self.has_pane(p) && self.pane(p).parent == NodeId(n as usize),
            Node::Split { axis, a, b } => {
                &&& a != b
                &&& self.has_node(a)
                &&& self.has_node(b)
                &&& self.node(a).parent == Some(NodeId(n as usize))
                &&& self.node(b).parent == Some(NodeId(n as usize))
            },
        }
        &&& forall|n: int| 0 <= n < MAX_NODES && #[trigger] self.nodes[n] is Some && self.nodes[n]->0.parent is Some ==> {
            let q = self.nodes[n]->0.parent->0;
            &&& self.has_node(q)
            &&& self.node(q).kind matches Node::Split { axis, a, b }
            &&& (a == NodeId(n as usize) || b == NodeId(n as usize))
        }
    }
}

/// The focused pane's leaf is one half of a split along `axis` whose other
/// half is a single pane.
pub open spec fn beside_single_pane(c: CompView, axis: Axis) -> bool {
    let pn = c.pane(c.active().focused_pane).parent;
    &&& c.has_focus()
    &&& c.has_node(pn)
    &&& c.node(pn).parent matches Some(q) && c.has_node(q) && (c.node(q).kind matches Node::Split { axis: ax, a, b } && ax
        == axis && (a == pn || b == pn) && c.has_node(if a == pn { b } else { a }) && c.node(if a == pn { b } else { a }).kind is Leaf)
}

/// Moving the focus across a divider to the single pane beside it, and
/// then moving it back, gives back the state it started from.
pub proof fn lemma_move_focus_twice(c: CompView, axis: Axis)
    requires
        c.wf(),
        c.links_ok(),
        beside_single_pane(c, axis),
    ensures
        c.move_focus_result(axis) is Some,
        c.move_focus_result(axis)->0.move_focus_result(axis) == Some(c),
{
    c.lemma_move_focus_plan(axis);
    let f = c.active().focused_pane;
    let pn = c.pane(f).parent;
    assert(c.panes[f.0 as int] is Some);
    let q = c.node(pn).parent->0;
    let (a, b) = match c.node(q).kind {
        Node::Split { axis, a, b } => (a, b),
        _ => (pn, pn),
    };
    let id = if a == pn { b } else { a };
    let p = match c.node(id).kind {
        Node::Leaf(p) => p,
        _ => f,
    };
    assert(c.climb(pn, true, axis, MAX_NODES as nat) == Some(Some((q, pn, true))));
    assert(c.descend(id, true, MAX_NODES as nat) == Some(p));
    let c1 = c.set_focus(p);
    assert(c.move_focus_result(axis) == Some(c1));
    assert(c.nodes[id.0 as int] is Some);
    assert(c.pane(p).parent == id);
    assert(c.nodes[q.0 as int] is Some);
    assert(a != b);
    assert(c.node(id).parent == Some(q));
    assert(c1.nodes == c.nodes);
    assert(c1.panes == c.panes);
    assert(c1.active().focused_pane == p);
    c1.lemma_move_focus_plan(axis);
    assert(c1.climb(id, true, axis, MAX_NODES as nat) == Some(Some((q, id, true))));
    assert(c.nodes[pn.0 as int] is Some);
    assert(c1.descend(pn, true, MAX_NODES as nat) == Some(f));
    assert(c1.set_focus(f).windows =~= c.windows);
}

/// Moving the focus changes only which pane has it.
pub proof fn lemma_move_focus_keeps_tree(c: CompView, axis: Axis)
    requires
        c.move_focus_result(axis) is Some,
        c.windows.len() == MAX_WINDOWS,
        0 <= c.active_window < MAX_WINDOWS,
    ensures
        c.move_focus_result(axis)->0.panes == c.panes,
        c.move_focus_result(axis)->0.nodes == c.nodes,
        c.move_focus_result(axis)->0.prefix_armed == c.prefix_armed,
        c.move_focus_result(axis)->0.active_window == c.active_window,
        c.move_focus_result(axis)->0.windows.len() == c.windows.len(),
{
    c.lemma_move_focus_plan(axis);
}

pub(crate) proof fn lemma_same_shape_chain(a: CompView, b: CompView, d: CompView)
    ensures
        a.same_shape(a),
        a.same_shape(b) ==> b.same_shape(a),
        a.same_shape(b) && b.same_shape(d) ==> a.same_shape(d),
{
}

pub(crate) proof fn lemma_render_nodes_shape(c: CompView, v: VgaView, id: NodeId, fuel: nat)
    requires
        c.panes.len() == MAX_PANES,
    ensures
        c.render_nodes(v, id, fuel).0.same_shape(c),
    decreases fuel,
{
    if fuel > 0 && c.has_node(id) {
        match c.node(id).kind {
            Node::Leaf(p) => {
                if c.has_pane(p) {
                    let (t, v2) = c.pane(p).term.flush_result(v);
                    let d = c.set_pane(p, c.pane(p).with_term(t));
                    assert forall|i: int| 0 <= i < d.panes.len() implies (#[trigger] d.panes[i] is Some) == (c.panes[i] is Some) by {
                        if i == p.0 as int {
                            assert(c.panes[i] is Some);
                        }
                    }
                    assert(d.same_shape(c));
                }
            },
            Node::Split { axis, a, b } => {
                let (c1, v1) = c.render_nodes(v, a, (fuel - 1) as nat);
                lemma_render_nodes_shape(c, v, a, (fuel - 1) as nat);
                lemma_render_nodes_shape(c1, v1, b, (fuel - 1) as nat);
                lemma_same_shape_chain(c1.render_nodes(v1, b, (fuel - 1) as nat).0, c1, c);
            },
        }
    } else {
        lemma_same_shape_chain(c, c, c);
    }
}

pub(crate) proof fn lemma_render_ok_shape(c: CompView, d: CompView)
    requires
        c.wf(),
        c.same_shape(d),
    ensures
        c.render_ok() == d.render_ok(),
        c.active_segments() == d.active_segments(),
        c.active_rect() == d.active_rect(),
{
    lemma_same_shape_tree(c, d, c.active().root, 4);
    let f = c.active().focused_pane;
    if f.0 < MAX_PANES {
        assert(c.panes[f.0 as int] is Some == d.panes[f.0 as int] is Some);
    }
}

/// Splitting the focused pane and then closing the new pane gives back the
/// layout it started from: the same windows and nodes, the same panes with
/// the same rectangles, and the focus on the pane that was split; only the
/// panes' terminals have been redrawn.
#[verifier::rlimit(100)]
pub proof fn lemma_split_then_close(c: CompView, v: VgaView, axis: Axis)
    requires
        c.wf(),
        c.links_ok(),
        c.render_ok(),
        c.has_focus(),
        c.node(c.pane(c.active().focused_pane).parent).depth <= 1,
        c.split_result(v, axis) is Some,
    ensures
        match c.split_result(v, axis) {
            Some((c1, v1)) => match c1.close_result(v1) {
                Some((c2, v2)) => c2.same_shape(c),
                None => false,
            },
            None => false,
        },
{
    let f = c.active().focused_pane;
    let node_id = c.pane(f).parent;
    assert(c.panes[f.0 as int] is Some);
    assert(c.has_node(node_id));
    assert(c.node(node_id).kind == Node::Leaf(f));
    let (c1a, new_leaf) = c.alloc_node()->0;
    lemma_first_free_from(c.nodes, 0);
    let (c2a, new_node) = c1a.alloc_node()->0;
    lemma_first_free_from(c1a.nodes, 0);
    assert(c.nodes[new_leaf.0 as int] is None);
    assert(new_node != new_leaf);
    assert(c.nodes[new_node.0 as int] is None);
    assert(new_node != node_id && new_leaf != node_id);
    let rect = c.pane(f).rect;
    let (c3, v3) = c2a.resize_pane(v, f, split_first(rect, axis));
    lemma_first_free_from(c3.panes, 0);
    let (c4, v4, np) = c3.new_pane(v3, split_second(rect, axis), new_leaf)->0;
    assert(np != f);
    assert(c.panes[np.0 as int] is None);
    let d = (c4.node(node_id).depth + 1) as u8;
    let c5 = c4.set_parent(f, new_node);
    let c6 = c5.set_node(new_leaf, NodeEntry { kind: Node::Leaf(np), parent: Some(node_id), depth: d });
    let c7 = c6.set_node(new_node, NodeEntry { parent: Some(node_id), kind: Node::Leaf(f), depth: d });
    let c8 = c7.set_node(node_id, NodeEntry { kind: Node::Split { axis, a: new_node, b: new_leaf }, ..c7.node(node_id) });
    let c9 = c8.set_focus(np);
    assert(c.split_result(v, axis) == c9.render_result(v4));
    let (c10, v10) = c9.rendered(v4);
    lemma_render_nodes_shape(c9, v4, c9.active().root, 4);
    assert(c10.same_shape(c9));
    // closing the new pane
    assert(c10.active().focused_pane == np);
    assert(c10.has_focus());
    assert(c10.pane(np).parent == new_leaf);
    assert(c10.node(new_leaf).parent == Some(node_id));
    assert(c10.node(node_id).kind == Node::Split { axis, a: new_node, b: new_leaf });
    assert(c10.close_result(v10) == c10.close_in(v10, node_id, new_node, new_leaf));
    assert(c10.node(new_node).kind == Node::Leaf(f));
    assert(c10.has_pane(f));
    let closing = c10.pane(np).rect;
    assert(closing == split_second(rect, axis));
    let c11 = c10.set_focus(f);
    assert(c11.pane(f).rect == split_first(rect, axis));
    assert(merged(closing, c11.pane(f).rect) == Some(rect)) by {
        lemma_split_then_merge(rect, axis);
    }
    assert(rect_fits(rect));
    let (c12, v12) = c11.resize_pane(v10, f, rect);
    let c13 = c12.set_parent(f, node_id);
    let c14 = c13.set_node(node_id, NodeEntry { kind: Node::Leaf(f), ..c13.node(node_id) }).remove_node(new_node).remove_node(
        new_leaf,
    ).remove_pane(np);
    assert(c10.close_result(v10) == c14.render_result(v12));
    // the layout is back
    assert(c14.nodes =~= c.nodes);
    assert(c14.windows =~= c.windows);
    assert forall|i: int| 0 <= i < c14.panes.len() implies (#[trigger] c14.panes[i] is Some) == (c.panes[i] is Some) by {
    }
    assert(c14.same_shape(c));
    lemma_same_shape_chain(c14, c, c);
    lemma_render_ok_shape(c, c14);
    lemma_render_nodes_shape(c14, v12, c14.active().root, 4);
    lemma_same_shape_chain(c14.rendered(v12).0, c14, c);
}

impl Compositor {
    fn set_focus(&mut self, p: PaneId)
        requires
            old(self).wf(),
            old(self)@.has_window(old(self)@.active_window),
        ensures
            final(self).wf(),
            final(self)@ == old(self)@.set_focus(p),
    {
        let ghost c0 = self@;
        let w = self.active_window.0;
        let window = self.windows[w].unwrap();
        self.windows.set(w, Some(Window { focused_pane: p, ..window }));
        assert(self@.panes =~= c0.panes);
    }

    fn set_pane_parent(&mut self, id: PaneId, parent: NodeId)
        requires
            old(self).wf(),
            old(self)@.has_pane(id),
        ensures
            final(self).wf(),
            final(self)@ == old(self)@.set_parent(id, parent),
    {
        let ghost c0 = self@;
        match &mut self.panes[id.0] {
            Some(pane) => {
                pane.parent = parent;
            },
            None => {},
        }
        assert(self@.panes =~= c0.set_parent(id, parent).panes);
    }

    fn remove_node(&mut self, id: NodeId)
        requires
            old(self).wf(),
            id.0 < MAX_NODES,
        ensures
            final(self).wf(),
            final(self)@ == old(self)@.remove_node(id),
    {
        let ghost c0 = self@;
        self.nodes.set(id.0, None);
        assert(self@.panes =~= c0.panes);
    }

    fn remove_pane(&mut self, id: PaneId)
        requires
            old(self).wf(),
            id.0 < MAX_PANES,
        ensures
            final(self).wf(),
            final(self)@ == old(self)@.remove_pane(id),
    {
        let ghost c0 = self@;
        self.panes.set(id.0, None);
        assert(self@.panes =~= c0.remove_pane(id).panes);
    }

    /// The active window's focused pane, if the window and the pane exist.
    fn focused(&self) -> (r: Option<PaneId>)
        requires
            self.wf(),
        ensures
            self@.has_focus() ==> r == Some(self@.active().focused_pane),
            !self@.has_focus() ==> r is None,
    {
        let w = self.active_window.0;
        if w >= MAX_WINDOWS {
            return None;
        }
        match self.windows[w] {
            Some(window) => if self.has_pane(window.focused_pane) { Some(window.focused_pane) } else { None },
            None => None,
        }
    }

    fn pane_parent(&self, id: PaneId) -> (r: NodeId)
        requires
            self.wf(),
            self@.has_pane(id),
        ensures
            r == self@.pane(id).parent,
    {
        match &self.panes[id.0] {
            Some(p) => p.parent,
            None => NodeId(0),
        }
    }

    /// Moves the focus across the nearest divider along `axis` above the
    /// focused pane, to the pane at the same side of the other half. False
    /// when a link is missing (a fatal error for the kernel).
    fn move_focus(&mut self, axis: Axis) -> (ok: bool)
        requires
            old(self).wf(),
        ensures
            final(self).wf(),
            ok == old(self)@.move_focus_result(axis) is Some,
            ok ==> final(self)@ == old(self)@.move_focus_result(axis)->0,
    {
        proof {
            self@.lemma_move_focus_plan(axis);
        }
        let pane_id = match self.focused() {
            Some(p) => p,
            None => return false,
        };
        let pn = self.pane_parent(pane_id);
        let ghost target = self@.climb(pn, true, axis, MAX_NODES as nat);
        let mut child = pn;
        let mut side = true;
        let mut fuel: usize = MAX_NODES;
        let mut q = pn;
        let mut from = pn;
        let mut from_side = true;
        loop
            invariant
                self.wf(),
                self@ == old(self)@,
                self@.has_focus(),
                pn == self@.pane(self@.active().focused_pane).parent,
                fuel <= MAX_NODES,
                target == self@.climb(pn, true, axis, MAX_NODES as nat),
                target == self@.climb(child, side, axis, fuel as nat),
                old(self)@.move_focus_result(axis) == old(self)@.move_focus_plan(axis),
            ensures
                target == Some(Some((q, from, from_side))),
                self@ == old(self)@,
            decreases fuel,
        {
            if fuel == 0 || !self.has_node(child) {
                return false;
            }
            match self.node(child).parent {
                None => return true,
                Some(up) => {
                    if !self.has_node(up) {
                        return false;
                    }
                    match self.node(up).kind {
                        Node::Split { axis: ax, a, b } => {
                            if ax == axis {
                                q = up;
                                from = child;
                                from_side = side;
                                break;
                            }
                            side = child == a;
                            child = up;
                            fuel = fuel - 1;
                        },
                        Node::Leaf(_) => return true,
                    }
                },
            }
        }
        proof {
            self@.lemma_climb(pn, true, axis, MAX_NODES as nat);
        }
        let (a, b) = match self.node(q).kind {
            Node::Split { axis: _, a, b } => (a, b),
            Node::Leaf(_) => return false,
        };
        let other = if a == from { b } else { a };
        let ghost found = self@.descend(other, from_side, MAX_NODES as nat);
        assert(old(self)@.move_focus_plan(axis) == match found {
            None => None,
            Some(p) => Some(old(self)@.set_focus(p)),
        });
        let mut n = other;
        let mut fuel2: usize = MAX_NODES;
        let mut p = PaneId(0);
        loop
            invariant
                self.wf(),
                self@ == old(self)@,
                fuel2 <= MAX_NODES,
                found == self@.descend(n, from_side, fuel2 as nat),
                old(self)@.move_focus_result(axis) == old(self)@.move_focus_plan(axis),
                old(self)@.move_focus_plan(axis) == match found {
                    None => None,
                    Some(p) => Some(old(self)@.set_focus(p)),
                },
            ensures
                found == Some(p),
                self@ == old(self)@,
            decreases fuel2,
        {
            if fuel2 == 0 || !self.has_node(n) {
                return false;
            }
            match self.node(n).kind {
                Node::Leaf(leaf_pane) => {
                    p = leaf_pane;
                    break;
                },
                Node::Split { axis: _, a, b } => {
                    n = if from_side { a } else { b };
                    fuel2 = fuel2 - 1;
                },
            }
        }
        self.set_focus(p);
        true
    }

    /// Splits the focused pane along `axis`, focusing the new half, unless
    /// its leaf is already two levels deep. False when that cannot be done
    /// (a fatal error for the kernel), which includes a new half with no
    /// column or row: its terminal's `width - 1` or `height - 1` overflows.
    fn split_pane(&mut self, axis: Axis, vga: &mut Vga) -> (ok: bool)
        requires
            old(self).wf(),
            old(vga).wf(),
        ensures
            ok == old(self)@.split_result(old(vga)@, axis) is Some,
            ok ==> final(self).wf() && final(vga).wf()
                && (final(self)@, final(vga)@) == old(self)@.split_result(old(vga)@, axis)->0,
    {
        let pane_id = match self.focused() {
            Some(p) => p,
            None => return false,
        };
        let node_id = self.pane_parent(pane_id);
        if !self.has_node(node_id) {
            return false;
        }
        if self.node(node_id).depth > 1 {
            return true;
        }
        proof {
            lemma_first_free_from(self@.nodes, 0);
        }
        let new_leaf_id = match self.get_next_node() {
            Some(id) => id,
            None => return false,
        };
        proof {
            lemma_first_free_from(self@.nodes, 0);
        }
        let new_node_id = match self.get_next_node() {
            Some(id) => id,
            None => return false,
        };
        let mut rect = self.pane_rect(pane_id);
        let mut new_rect = rect;
        match axis {
            Axis::Vertical => {
                if rect.w - rect.w / 2 <= 1 {
                    return false;
                }
                new_rect.x = rect.x + rect.w / 2 + 1;
                new_rect.w = rect.w - rect.w / 2 - 1;
                rect.w = rect.w / 2;
            },
            Axis::Horizontal => {
                if rect.h - rect.h / 2 <= 1 {
                    return false;
                }
                new_rect.y = rect.y + rect.h / 2 + 1;
                new_rect.h = rect.h - rect.h / 2 - 1;
                rect.h = rect.h / 2;
            },
        }
        self.resize_pane(pane_id, rect, vga);
        proof {
            lemma_first_free_from(self@.panes, 0);
        }
        let new_pane_id = match self.new_pane(new_rect, new_leaf_id, vga) {
            Some(p) => p,
            None => return false,
        };
        self.set_pane_parent(pane_id, new_node_id);
        let depth = self.node(node_id).depth + 1;
        self.set_node(new_leaf_id, NodeEntry { kind: Node::Leaf(new_pane_id), parent: Some(node_id), depth });
        self.set_node(new_node_id, NodeEntry { parent: Some(node_id), kind: Node::Leaf(pane_id), depth });
        let entry = self.node(node_id);
        self.set_node(node_id, NodeEntry { kind: Node::Split { axis, a: new_node_id, b: new_leaf_id }, ..entry });
        self.set_focus(new_pane_id);
        self.render(vga)
    }

    /// Closes the focused pane: the other half of its split takes the
    /// split's place. False when that cannot be done, which includes closing
    /// the only pane of a window (a fatal error for the kernel).
    fn close_pane(&mut self, vga: &mut Vga) -> (ok: bool)
        requires
            old(self).wf(),
            old(vga).wf(),
        ensures
            ok == old(self)@.close_result(old(vga)@) is Some,
            ok ==> final(self).wf() && final(vga).wf()
                && (final(self)@, final(vga)@) == old(self)@.close_result(old(vga)@)->0,
    {
        let pane_id = match self.focused() {
            Some(p) => p,
            None => return false,
        };
        let pane_node_id = self.pane_parent(pane_id);
        if !self.has_node(pane_node_id) {
            return false;
        }
        let node_id = match self.node(pane_node_id).parent {
            Some(n) => n,
            None => return false,
        };
        if !self.has_node(node_id) {
            return false;
        }
        let (a, b) = match self.node(node_id).kind {
            Node::Split { axis: _, a, b } => (a, b),
            _ => return false,
        };
        let other_node_id = if a == pane_node_id { b } else { a };
        if !self.has_node(other_node_id) {
            return false;
        }
        let other_node_kind = self.node(other_node_id).kind;
        if let Node::Leaf(other_pane_id) = other_node_kind {
            if !self.has_pane(other_pane_id) {
                return false;
            }
            let closing_rect = self.pane_rect(pane_id);
            self.set_focus(other_pane_id);
            let other_rect = self.pane_rect(other_pane_id);
            if (closing_rect.x < other_rect.x || closing_rect.y < other_rect.y) && (other_rect.w + other_rect.x
                < closing_rect.x || other_rect.h + other_rect.y < closing_rect.y) {
                return false;
            }
            let merged_rect = closing_rect.merge_with(other_rect);
            if merged_rect.w == 0 || merged_rect.h == 0 {
                return false;
            }
            self.resize_pane(other_pane_id, merged_rect, vga);
            self.set_pane_parent(other_pane_id, node_id);
        }
        let entry = self.node(node_id);
        self.set_node(node_id, NodeEntry { kind: other_node_kind, ..entry });
        self.remove_node(other_node_id);
        self.remove_node(pane_node_id);
        self.remove_pane(pane_id);
        self.render(vga)
    }
}


/// How `handle_keyboard` stopped.
#[derive(Clone, Copy, PartialEq, Eq, Structural, Debug)]
pub enum KeyboardOutcome {
    /// Every queued event was handled and the status bar drawn.
    Drained,
    /// The last event handled was Enter in the focused pane: its typed line
    /// is ready for the shell, after which `finish_command` is due.
    Command,
    /// The last event handled could not be carried out (a fatal error for
    /// the kernel).
    Fault,
}

pub struct RunView {
    pub comp: CompView,
    pub vga: VgaView,
    pub consumed: nat,
    pub outcome: KeyboardOutcome,
}

pub open spec fn with_flag(r: Option<(CompView, VgaView)>, entered: bool) -> Option<(CompView, VgaView, bool)> {
    match r {
        None => None,
        Some((c, v)) => Some((c, v, entered)),
    }
}

impl CompView {
    /// The event handed to the focused pane.
    pub open spec fn forward_result(self, v: VgaView, e: KeyEvent) -> Option<(CompView, VgaView, bool)> {
        if !self.has_focus() {
            None
        } else {
            let id = self.active().focused_pane;
            let (p, v1, entered) = self.pane(id).key_result(v, e);
            Some((self.set_pane(id, p), v1, entered))
        }
    }

    /// An event after the prefix: ctrl-a again goes to the pane; v and s
    /// split the focused pane, q closes it, j and k move the focus across a
    /// horizontal split, h and l across a vertical one.
    pub open spec fn command_result(self, v: VgaView, e: KeyEvent) -> Option<(CompView, VgaView, bool)> {
        let c0 = CompView { prefix_armed: false, ..self };
        if prefix_key(e) {
            c0.forward_result(v, e)
        } else {
            match e.key {
                Key::Char(ch) => if ch == 0x76 {
                    with_flag(c0.split_result(v, Axis::Vertical), false)
                } else if ch == 0x73 {
                    with_flag(c0.split_result(v, Axis::Horizontal), false)
                } else if ch == 0x71 {
                    with_flag(c0.close_result(v), false)
                } else if ch == 0x6A || ch == 0x6B {
                    match c0.move_focus_result(Axis::Horizontal) {
                        None => None,
                        Some(c1) => Some((c1, v, false)),
                    }
                } else if ch == 0x68 || ch == 0x6C {
                    match c0.move_focus_result(Axis::Vertical) {
                        None => None,
                        Some(c1) => Some((c1, v, false)),
                    }
                } else {
                    Some((c0, v, false))
                },
                _ => Some((c0, v, false)),
            }
        }
    }

    /// One event of `handle_keyboard`.
    #[verifier::opaque]
    pub open spec fn step_result(self, v: VgaView, e: KeyEvent) -> Option<(CompView, VgaView, bool)> {
        self.step_plan(v, e)
    }

    pub proof fn lemma_step_plan(self, v: VgaView, e: KeyEvent)
        ensures
            self.step_result(v, e) == self.step_plan(v, e),
    {
        reveal(CompView::step_result);
    }

    /// The cases of `step_result`.
    pub open spec fn step_plan(self, v: VgaView, e: KeyEvent) -> Option<(CompView, VgaView, bool)> {
        if self.prefix_armed {
            self.command_result(v, e)
        } else {
            match e.key {
                Key::Function(f) => with_flag(self.switch_result(v, f as int), false),
                _ => if prefix_key(e) {
                    Some((CompView { prefix_armed: true, ..self }, v, false))
                } else {
                    self.forward_result(v, e)
                },
            }
        }
    }

    /// Handling the queued events `q` in order, stopping after an Enter in a
    /// pane or at a fault; when the queue runs out the status bar is drawn.
    pub open spec fn run(self, v: VgaView, q: Seq<KeyEvent>) -> RunView
        decreases q.len(),
    {
        if q.len() == 0 {
            RunView {
                comp: self,
                vga: VgaView { cells: statusbar(v.cells, self.prefix_armed), ..v },
                consumed: 0,
                outcome: KeyboardOutcome::Drained,
            }
        } else {
            match self.step_result(v, q[0]) {
                None => RunView { comp: self, vga: v, consumed: 1, outcome: KeyboardOutcome::Fault },
                Some((c1, v1, entered)) => if entered {
                    RunView { comp: c1, vga: v1, consumed: 1, outcome: KeyboardOutcome::Command }
                } else {
                    let r = c1.run(v1, q.drop_first());
                    RunView { consumed: r.consumed + 1, ..r }
                },
            }
        }
    }
}

impl Compositor {
    fn forward_keypress(&mut self, event: KeyEvent, vga: &mut Vga) -> (r: Option<bool>)
        requires
            old(self).wf(),
            old(vga).wf(),
        ensures
            final(self).wf(),
            final(vga).wf(),
            match old(self)@.forward_result(old(vga)@, event) {
                None => r is None,
                Some((c, v, entered)) => r == Some(entered) && final(self)@ == c && final(vga)@ == v,
            },
    {
        let id = match self.focused() {
            Some(p) => p,
            None => return None,
        };
        let ghost c0 = self@;
        let mut entered = false;
        match &mut self.panes[id.0] {
            Some(pane) => {
                entered = pane.handle_key(event, vga);
            },
            None => {},
        }
        proof {
            let (p, v1, e1) = c0.pane(id).key_result(old(vga)@, event);
            assert(self@.panes =~= c0.set_pane(id, p).panes);
        }
        Some(entered)
    }

    fn process_command(&mut self, event: KeyEvent, vga: &mut Vga) -> (r: Option<bool>)
        requires
            old(self).wf(),
            old(vga).wf(),
        ensures
            match old(self)@.command_result(old(vga)@, event) {
                None => r is None,
                Some((c, v, entered)) => r == Some(entered) && final(self).wf() && final(vga).wf()
                    && final(self)@ == c && final(vga)@ == v,
            },
    {
        let ghost c0 = self@;
        self.prefix_armed = false;
        assert(self@.panes =~= c0.panes);
        if is_prefix_key(event) {
            return self.forward_keypress(event, vga);
        }
        match event.key {
            Key::Char(c) => {
                if c == 0x76u8 {
                    if self.split_pane(Axis::Vertical, vga) { Some(false) } else { None }
                } else if c == 0x73u8 {
                    if self.split_pane(Axis::Horizontal, vga) { Some(false) } else { None }
                } else if c == 0x71u8 {
                    if self.close_pane(vga) { Some(false) } else { None }
                } else if c == 0x6Au8 || c == 0x6Bu8 {
                    if self.move_focus(Axis::Horizontal) { Some(false) } else { None }
                } else if c == 0x68u8 || c == 0x6Cu8 {
                    if self.move_focus(Axis::Vertical) { Some(false) } else { None }
                } else {
                    Some(false)
                }
            },
            _ => Some(false),
        }
    }

    /// One queued event: a command after the prefix, a function key to
    /// switch windows, the prefix itself, or a key for the focused pane.
    fn handle_event(&mut self, event: KeyEvent, vga: &mut Vga) -> (r: Option<bool>)
        requires
            old(self).wf(),
            old(vga).wf(),
        ensures
            match old(self)@.step_result(old(vga)@, event) {
                None => r is None,
                Some((c, v, entered)) => r == Some(entered) && final(self).wf() && final(vga).wf()
                    && final(self)@ == c && final(vga)@ == v,
            },
    {
        proof {
            self@.lemma_step_plan(vga@, event);
        }
        if self.prefix_armed {
            return self.process_command(event, vga);
        }
        if let Key::Function(f) = event.key {
            return if self.switch_window(WindowId(f as usize), vga) { Some(false) } else { None };
        }
        if is_prefix_key(event) {
            let ghost c0 = self@;
            self.prefix_armed = true;
            assert(self@.panes =~= c0.panes);
            return Some(false);
        }
        self.forward_keypress(event, vga)
    }

    /// Handles the queued key events until the queue is empty (then draws
    /// the status bar), until Enter hands a line to the shell, or until an
    /// event cannot be carried out.
    #[verifier::rlimit(80)]
    pub fn handle_keyboard(&mut self, rb: &mut RingBuffer, vga: &mut Vga) -> (outcome: KeyboardOutcome)
        requires
            old(self).wf(),
            old(vga).wf(),
            old(rb).wf(),
        ensures
            final(rb).wf(),
            outcome == old(self)@.run(old(vga)@, old(rb)@).outcome,
            final(rb)@ == old(rb)@.skip(old(self)@.run(old(vga)@, old(rb)@).consumed as int),
            outcome != KeyboardOutcome::Fault ==> final(self).wf() && final(vga).wf()
                && final(self)@ == old(self)@.run(old(vga)@, old(rb)@).comp
                && final(vga)@ == old(self)@.run(old(vga)@, old(rb)@).vga,
    {
        let ghost r0 = self@.run(vga@, rb@);
        let ghost q0 = rb@;
        let ghost k: nat = 0;
        loop
            invariant
                self.wf(),
                vga.wf(),
                rb.wf(),
                rb@ == q0.skip(k as int),
                k <= q0.len(),
                q0 == old(rb)@,
                r0 == old(self)@.run(old(vga)@, old(rb)@),
                self@.run(vga@, rb@).comp == r0.comp,
                self@.run(vga@, rb@).vga == r0.vga,
                self@.run(vga@, rb@).outcome == r0.outcome,
                self@.run(vga@, rb@).consumed + k == r0.consumed,
            decreases rb@.len(),
        {
            let ghost q = rb@;
            let ghost c1 = self@;
            let ghost v1 = vga@;
            match rb.pop() {
                None => {
                    self.render_statusbar(vga);
                    return KeyboardOutcome::Drained;
                },
                Some(event) => {
                    proof {
                        assert(q0.skip(k as int).drop_first() =~= q0.skip((k + 1) as int));
                    }
                    match self.handle_event(event, vga) {
                        None => {
                            proof {
                                k = k + 1;
                            }
                            return KeyboardOutcome::Fault;
                        },
                        Some(entered) => {
                            proof {
                                k = k + 1;
                            }
                            if entered {
                                return KeyboardOutcome::Command;
                            }
                        },
                    }
                },
            }
        }
    }

    /// The line typed in the focused pane.
    pub fn entered_line(&self) -> (r: Option<Vec<u8>>)
        requires
            self.wf(),
        ensures
            self@.has_focus() ==> r is Some && r->0@ == self@.pane(self@.active().focused_pane).line(),
            !self@.has_focus() ==> r is None,
    {
        let id = match self.focused() {
            Some(p) => p,
            None => return None,
        };
        match &self.panes[id.0] {
            Some(p) => {
                let mut line: Vec<u8> = Vec::new();
                let mut i: usize = 0;
                while i < p.input_len
                    invariant
                        p.wf(),
                        i <= p@.input_len,
                        line@ == p@.input.subrange(0, i as int),
                    decreases p@.input_len - i,
                {
                    line.push(p.input[i]);
                    i = i + 1;
                }
                Some(line)
            },
            None => None,
        }
    }
}


impl CompView {
    /// After the shell has run the typed line: the line is forgotten and the
    /// prompt drawn again in the focused pane.
    pub open spec fn finish_result(self, v: VgaView) -> Option<(CompView, VgaView)> {
        if !self.has_focus() {
            None
        } else {
            let id = self.active().focused_pane;
            let p = self.pane(id);
            let t = prompted(p.term);
            Some((self.set_pane(id, PaneView { input: zero_input(), input_len: 0, term: t.flushed(), ..p }), t.flushed_screen(v)))
        }
    }

    /// Text written to the focused pane, then the screen rendered.
    pub open spec fn write_result(self, v: VgaView, s: Seq<char>) -> Option<(CompView, VgaView)> {
        if !self.has_focus() {
            None
        } else {
            let id = self.active().focused_pane;
            let p = self.pane(id);
            self.set_pane(id, p.with_term(p.term.write_chars(s))).render_result(v)
        }
    }
}

impl Compositor {
    /// Ends the handling of an entered line: forgets it and shows the
    /// prompt again. False when there is no focused pane.
    pub fn finish_command(&mut self, vga: &mut Vga) -> (ok: bool)
        requires
            old(self).wf(),
            old(vga).wf(),
        ensures
            final(self).wf(),
            final(vga).wf(),
            ok == old(self)@.finish_result(old(vga)@) is Some,
            ok ==> (final(self)@, final(vga)@) == old(self)@.finish_result(old(vga)@)->0,
    {
        let id = match self.focused() {
            Some(p) => p,
            None => return false,
        };
        let ghost c0 = self@;
        match &mut self.panes[id.0] {
            Some(pane) => {
                pane.clear();
                pane.prompt(vga);
            },
            None => {},
        }
        proof {
            let p = c0.pane(id);
            let t = prompted(p.term);
            assert(self@.panes =~= c0.set_pane(id, PaneView { input: zero_input(), input_len: 0, term: t.flushed(), ..p }).panes);
        }
        true
    }

    /// Writes text in the focused pane and renders. False when there is no
    /// focused pane or the window cannot be drawn.
    pub fn write_str(&mut self, s: &str, vga: &mut Vga) -> (ok: bool)
        requires
            old(self).wf(),
            old(vga).wf(),
        ensures
            ok == old(self)@.write_result(old(vga)@, s@) is Some,
            ok ==> final(self).wf() && final(vga).wf()
                && (final(self)@, final(vga)@) == old(self)@.write_result(old(vga)@, s@)->0,
    {
        let id = match self.focused() {
            Some(p) => p,
            None => return false,
        };
        let ghost c0 = self@;
        match &mut self.panes[id.0] {
            Some(pane) => {
                pane.term.write(s);
            },
            None => {},
        }
        proof {
            let p = c0.pane(id);
            assert(self@.panes =~= c0.set_pane(id, p.with_term(p.term.write_chars(s@))).panes);
        }
        self.render(vga)
    }

    fn get_pane_size(&self, id: PaneId) -> (r: Rect)
        requires
            self.wf(),
            self@.has_pane(id),
        ensures
            r == self@.pane(id).rect,
    {
        self.pane_rect(id)
    }
}

/// Puts a character in the focused pane's terminal, without drawing it.
/// False when there is no focused pane.
pub fn put_raw(comp: &mut Compositor, c: u8, fg: Color, bg: Color) -> (ok: bool)
    requires
        old(comp).wf(),
    ensures
        final(comp).wf(),
        ok == old(comp)@.has_focus(),
        ok ==> final(comp)@ == old(comp)@.set_pane(
            old(comp)@.active().focused_pane,
            old(comp)@.pane(old(comp)@.active().focused_pane).with_term(
                old(comp)@.pane(old(comp)@.active().focused_pane).term.put_raw(c, fg, bg),
            ),
        ),
{
    let id = match comp.focused() {
        Some(p) => p,
        None => return false,
    };
    let ghost c0 = comp@;
    match &mut comp.panes[id.0] {
        Some(pane) => {
            pane.term.put_raw(c, fg, bg);
        },
        None => {},
    }
    proof {
        let p = c0.pane(id);
        assert(comp@.panes =~= c0.set_pane(id, p.with_term(p.term.put_raw(c, fg, bg))).panes);
    }
    true
}

/// The rectangle of the focused pane; `None` when there is none.
pub fn get_terminfo(comp: &Compositor) -> (r: Option<Rect>)
    requires
        comp.wf(),
    ensures
        comp@.has_focus() ==> r == Some(comp@.pane(comp@.active().focused_pane).rect),
        !comp@.has_focus() ==> r is None,
{
    match comp.focused() {
        Some(id) => Some(comp.get_pane_size(id)),
        None => None,
    }
}

pub fn init(comp: &mut Compositor, vga: &mut Vga) -> (ok: bool)
    requires
        old(comp).wf(),
        old(vga).wf(),
    ensures
        ok == old(comp)@.init_result(old(vga)@) is Some,
        ok ==> final(comp).wf() && final(vga).wf()
            && (final(comp)@, final(vga)@) == old(comp)@.init_result(old(vga)@)->0,
{
    comp.init(vga)
}

pub fn handle_keyboard(comp: &mut Compositor, rb: &mut RingBuffer, vga: &mut Vga) -> (outcome: KeyboardOutcome)
    requires
        old(comp).wf(),
        old(vga).wf(),
        old(rb).wf(),
    ensures
        final(rb).wf(),
        outcome == old(comp)@.run(old(vga)@, old(rb)@).outcome,
        final(rb)@ == old(rb)@.skip(old(comp)@.run(old(vga)@, old(rb)@).consumed as int),
        outcome != KeyboardOutcome::Fault ==> final(comp).wf() && final(vga).wf()
            && final(comp)@ == old(comp)@.run(old(vga)@, old(rb)@).comp
            && final(vga)@ == old(comp)@.run(old(vga)@, old(rb)@).vga,
{
    comp.handle_keyboard(rb, vga)
}

/// Clears the focused pane's terminal and redraws it. False when there
/// is no focused pane.
pub fn clear(comp: &mut Compositor, vga: &mut Vga) -> (ok: bool)
    requires
        old(comp).wf(),
        old(vga).wf(),
    ensures
        final(comp).wf(),
        final(vga).wf(),
        ok == old(comp)@.has_focus(),
        ok ==> ({
            let id = old(comp)@.active().focused_pane;
            let t = old(comp)@.pane(id).term.cleared();
            let (t2, v2) = t.flushed().flush_result(t.flushed_screen(old(vga)@));
            final(comp)@ == old(comp)@.set_pane(id, old(comp)@.pane(id).with_term(t2)) && final(vga)@ == v2
        }),
{
    let id = match comp.focused() {
        Some(p) => p,
        None => return false,
    };
    let ghost c0 = comp@;
    match &mut comp.panes[id.0] {
        Some(pane) => {
            pane.term.clear(vga);
            pane.term.flush(vga);
        },
        None => {},
    }
    proof {
        let t = c0.pane(id).term.cleared();
        let (t2, v2) = t.flushed().flush_result(t.flushed_screen(old(vga)@));
        assert(comp@.panes =~= c0.set_pane(id, c0.pane(id).with_term(t2)).panes);
    }
    true
}

} // verus!
