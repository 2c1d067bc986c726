use vstd::prelude::*;
use crate::keys::{encode_events, events_bytes, InputEvent};
use crate::screen::{Screen, ScreenModel};

verus! {

/// The screen after each chunk of `chunks` has been fed, in order.
pub open spec fn feed_chunks(s: ScreenModel, chunks: Seq<Seq<char>>) -> ScreenModel
    decreases chunks.len(),
{
    if chunks.len() == 0 {
        s
    } else {
        feed_chunks(s, chunks.drop_last()).feed(chunks.last())
    }
}

/// The views of a list of strings.
pub open spec fn texts(v: Seq<String>) -> Seq<Seq<char>> {
    v.map_values(|s: String| s@)
}

/// What the renderer talks to: the screen engine and the focus flag.
pub struct Pane {
    screen: Screen,
    focused: bool,
}

pub struct PaneModel {
    pub screen: ScreenModel,
    pub focused: bool,
}

impl View for Pane {
    type V = PaneModel;

    closed spec fn view(&self) -> PaneModel {
        PaneModel { screen: self.screen@, focused: self.focused }
    }
}

impl Pane {
    /// A pane with the default 80 by 24 screen, not focused.
    pub fn new() -> (r: Pane)
        ensures
            r@.screen.wf(),
            r@.screen.lines == Seq::new(24, |i: int| Seq::<char>::empty()),
            r@.screen.col == 0,
            r@.screen.row == 0,
            r@.screen.cols == 80,
            r@.screen.rows == 24,
            !r@.focused,
    {
        Pane { screen: Screen::new(), focused: false }
    }

    /// The screen engine, for reading.
    pub fn screen(&self) -> (r: &Screen)
        ensures
            r@ == self@.screen,
    {
        &self.screen
    }

    pub fn is_focused(&self) -> (r: bool)
        ensures
            r == self@.focused,
    {
        self.focused
    }

    /// A pointer click on the pane takes the focus.
    pub fn click(&mut self)
        ensures
            final(self)@ == (PaneModel { focused: true, ..old(self)@ }),
    {
        self.focused = true;
    }

    /// One frame's update: the grid size measured from the viewport is
    /// taken, then every chunk of output that arrived is fed, in order.
    pub fn frame(&mut self, cols: u16, rows: u16, chunks: &Vec<String>)
        requires
            old(self)@.screen.wf(),
        ensures
            final(self)@.screen == feed_chunks(
                old(self)@.screen.resize(cols as nat, rows as nat),
                texts(chunks@),
            ),
            final(self)@.screen.wf(),
            final(self)@.focused == old(self)@.focused,
    {
        self.screen.resize(cols, rows);
        let ghost s = self.screen@;
        let mut i: usize = 0;
        while i < chunks.len()
            invariant
                s.wf(),
                i <= chunks@.len(),
                self.screen@ == feed_chunks(s, texts(chunks@).take(i as int)),
                self.screen@.wf(),
                self.focused == old(self).focused,
            decreases chunks@.len() - i,
        {
            proof {
                assert(texts(chunks@).take(i + 1).drop_last() =~= texts(chunks@).take(i as int));
            }
            self.screen.feed(chunks[i].as_str());
            i = i + 1;
        }
        proof {
            assert(texts(chunks@).take(i as int) =~= texts(chunks@));
        }
    }

    /// The bytes to send to the shell for a frame's input events: only while
    /// the pane holds the focus (and the renderer agrees, `has_focus`), and
    /// only when the events give any bytes.
    pub fn take_input(&self, has_focus: bool, events: &Vec<InputEvent>) -> (r: Option<Vec<u8>>)
        ensures
            r is Some <==> (self@.focused && has_focus && events_bytes(events@).len() > 0),
            r is Some ==> r->0@ == events_bytes(events@),
    {
        if self.focused && has_focus {
            let bytes = encode_events(events);
            if bytes.len() > 0 {
                return Some(bytes);
            }
        }
        None
    }
}

} // verus!
