//! The owner of the parser and the screen: it feeds bytes through the
//! parser and applies the actions to the screen in the order emitted.
use vstd::prelude::*;
use crate::parser::{
    Action,
    EscapeParser,
    ParserView,
    actions_view,
    params_view,
    parser_wf,
    run,
    fresh,
    Mode,
};
use crate::screen::{
    ScreenBuffer,
    ScreenError,
    ScreenView,
    Cell,
    print,
    line_feed,
    carriage_return,
    tab,
    backspace,
    erase_display,
    erase_line,
    set_graphic_rendition,
    set_cursor_position,
    cursor_up,
    cursor_down,
    cursor_forward,
    cursor_back,
    resize,
    initial,
    grid_view,
    screen_wf,
};

verus! {

/// What the byte channel gave on one poll.
#[derive(Clone, Debug, PartialEq, Eq)]
pub enum ChannelEvent {
    /// A chunk of output of the shell.
    Data(Vec<u8>),
    /// Nothing is waiting; no update is due.
    Empty,
    /// The reader has stopped: the shell is gone.
    Closed,
}

/// The value of the `i`-th parameter, 0 where it is missing.
pub open spec fn param(ps: Seq<Seq<u16>>, i: int) -> u16 {
    if 0 <= i < ps.len() && ps[i].len() > 0 {
        ps[i][0]
    } else {
        0
    }
}

/// Line feed, carriage return, tab and backspace act; every other control
/// byte leaves the screen as it is.
pub open spec fn apply_control(v: ScreenView, b: u8) -> ScreenView {
    if b == 0x0A {
        line_feed(v)
    } else if b == 0x0D {
        carriage_return(v)
    } else if b == 0x09 {
        tab(v)
    } else if b == 0x08 {
        backspace(v)
    } else {
        v
    }
}

pub open spec fn apply_csi(v: ScreenView, ps: Seq<Seq<u16>>, f: u8) -> ScreenView {
    if f == 0x4A {
        erase_display(v, param(ps, 0))
    } else if f == 0x4B {
        erase_line(v, param(ps, 0))
    } else if f == 0x6D {
        set_graphic_rendition(v, ps)
    } else if f == 0x48 || f == 0x66 {
        set_cursor_position(v, param(ps, 0), param(ps, 1))
    } else if f == 0x41 {
        cursor_up(v, param(ps, 0))
    } else if f == 0x42 {
        cursor_down(v, param(ps, 0))
    } else if f == 0x43 {
        cursor_forward(v, param(ps, 0))
    } else if f == 0x44 {
        cursor_back(v, param(ps, 0))
    } else {
        v
    }
}

/// The effect of one action on the screen. Sequences with intermediate or
/// private-marker bytes, and those this screen has no use for, change
/// nothing.
pub open spec fn apply(v: ScreenView, a: Action) -> ScreenView {
    match a {
        Action::Print(c) => print(v, c),
        Action::Execute(b) => apply_control(v, b),
        Action::CsiDispatch { params, intermediates, final_byte } => if intermediates@.len() == 0 {
            apply_csi(v, params_view(params@), final_byte)
        } else {
            v
        },
        _ => v,
    }
}

/// The actions applied in order.
pub open spec fn apply_all(v: ScreenView, acts: Seq<Action>) -> ScreenView
    decreases acts.len(),
{
    if acts.len() == 0 {
        v
    } else {
        apply(apply_all(v, acts.drop_last()), acts.last())
    }
}

fn param_value(ps: &Vec<Vec<u16>>, i: usize) -> (r: u16)
    ensures
        r == param(params_view(ps@), i as int),
{
    if i < ps.len() && ps[i].len() > 0 {
        ps[i][0]
    } else {
        0
    }
}

pub struct Emulator {
    parser: EscapeParser,
    screen: ScreenBuffer,
    ended: bool,
}

impl Emulator {
    pub closed spec fn wf(&self) -> bool {
        self.parser.wf() && self.screen.wf()
    }

    pub closed spec fn parser_view(&self) -> ParserView {
        self.parser@
    }

    pub closed spec fn screen_view(&self) -> ScreenView {
        self.screen@
    }

    pub closed spec fn ended(&self) -> bool {
        self.ended
    }

    /// A well-formed emulator holds a well-formed screen and parser.
    pub proof fn lemma_wf(&self)
        requires
            self.wf(),
        ensures
            screen_wf(self.screen_view()),
            parser_wf(self.parser_view()),
    {
    }

    /// A session on a blank grid; a zero dimension is refused.
    pub fn new(rows: usize, cols: usize, scrollback_limit: usize) -> (r: Result<
        Emulator,
        ScreenError,
    >)
        ensures
            r is Ok <==> rows > 0 && cols > 0,
            r matches Ok(e) ==> {
                &&& e.wf()
                &&& e.screen_view() == initial(rows as nat, cols as nat, scrollback_limit as nat)
                &&& e.parser_view() == fresh(Mode::Ground)
                &&& !e.ended()
            },
    {
        match ScreenBuffer::new(rows, cols, scrollback_limit) {
            Ok(screen) => Ok(Emulator { parser: EscapeParser::new(), screen, ended: false }),
            Err(e) => Err(e),
        }
    }

    /// The screen, read-only, as the renderer sees it.
    pub fn screen(&self) -> (r: &ScreenBuffer)
        ensures
            r@ == self.screen_view(),
            self.wf() ==> r.wf(),
    {
        &self.screen
    }

    pub fn is_ended(&self) -> (r: bool)
        ensures
            r == self.ended(),
    {
        self.ended
    }

    /// The visible rows, top to bottom.
    pub fn snapshot(&self) -> (r: Vec<Vec<Cell>>)
        requires
            self.wf(),
        ensures
            grid_view(r@) == self.screen_view().grid,
    {
        self.screen.snapshot()
    }

    fn apply(&mut self, a: &Action)
        requires
            old(self).wf(),
        ensures
            final(self).wf(),
            final(self).screen_view() == apply(old(self).screen_view(), *a),
            final(self).parser_view() == old(self).parser_view(),
            final(self).ended() == old(self).ended(),
    {
        match a {
            Action::Print(c) => self.screen.print(*c),
            Action::Execute(b) => {
                let b = *b;
                if b == 0x0A {
                    self.screen.line_feed();
                } else if b == 0x0D {
                    self.screen.carriage_return();
                } else if b == 0x09 {
                    self.screen.tab();
                } else if b == 0x08 {
                    self.screen.backspace();
                }
            },
            Action::CsiDispatch { params, intermediates, final_byte } => {
                if intermediates.len() == 0 {
                    let first: u16 = param_value(params, 0);
                    let second: u16 = param_value(params, 1);
                    let f = *final_byte;
                    if f == 0x4A {
                        self.screen.erase_display(first);
                    } else if f == 0x4B {
                        self.screen.erase_line(first);
                    } else if f == 0x6D {
                        self.screen.set_graphic_rendition(params);
                    } else if f == 0x48 || f == 0x66 {
                        self.screen.set_cursor_position(first, second);
                    } else if f == 0x41 {
                        self.screen.cursor_up(first);
                    } else if f == 0x42 {
                        self.screen.cursor_down(first);
                    } else if f == 0x43 {
                        self.screen.cursor_forward(first);
                    } else if f == 0x44 {
                        self.screen.cursor_back(first);
                    }
                }
            },
            _ => {},
        }
    }

    /// Parses a chunk of shell output and applies what it means to the
    /// screen, in order; the actions come back as well.
    pub fn feed(&mut self, bytes: &[u8]) -> (r: Vec<Action>)
        requires
            old(self).wf(),
        ensures
            final(self).wf(),
            final(self).parser_view() == run(old(self).parser_view(), bytes@).0,
            actions_view(r@) == run(old(self).parser_view(), bytes@).1,
            final(self).screen_view() == apply_all(old(self).screen_view(), r@),
            final(self).ended() == old(self).ended(),
    {
        let acts = self.parser.advance(bytes);
        let ghost s0 = self.screen@;
        let mut i: usize = 0;
        assert(acts@.subrange(0, 0) =~= Seq::<Action>::empty());
        while i < acts.len()
            invariant
                self.wf(),
                i <= acts@.len(),
                self.screen@ == apply_all(s0, acts@.subrange(0, i as int)),
                self.parser@ == run(old(self).parser_view(), bytes@).0,
                self.ended == old(self).ended,
            decreases acts@.len() - i,
        {
            assert(acts@.subrange(0, i + 1).drop_last() =~= acts@.subrange(0, i as int));
            self.apply(&acts[i]);
            i = i + 1;
        }
        assert(acts@.subrange(0, i as int) =~= acts@);
        acts
    }

    /// Handles what one poll of the byte channel gave.
    pub fn on_event(&mut self, ev: ChannelEvent)
        requires
            old(self).wf(),
        ensures
            final(self).wf(),
            ev is Data ==> final(self).parser_view() == run(old(self).parser_view(), ev->Data_0@).0,
            ev is Data ==> exists|acts: Seq<Action>|
                actions_view(acts) == run(old(self).parser_view(), ev->Data_0@).1
                    && final(self).screen_view() == apply_all(old(self).screen_view(), acts),
            ev is Empty ==> final(self).screen_view() == old(self).screen_view()
                && final(self).parser_view() == old(self).parser_view() && final(self).ended()
                == old(self).ended(),
            ev is Closed ==> final(self).ended() && final(self).screen_view() == old(
                self,
            ).screen_view(),
            !(ev is Closed) ==> final(self).ended() == old(self).ended(),
    {
        match ev {
            ChannelEvent::Data(bytes) => {
                self.feed(&bytes);
            },
            ChannelEvent::Empty => {},
            ChannelEvent::Closed => {
                self.ended = true;
            },
        }
    }

    /// Resizes the grid; a zero dimension is refused and changes nothing.
    pub fn resize(&mut self, rows: usize, cols: usize) -> (r: Result<(), ScreenError>)
        requires
            old(self).wf(),
        ensures
            final(self).wf(),
            r is Ok <==> rows > 0 && cols > 0,
            r is Ok ==> final(self).screen_view() == resize(
                old(self).screen_view(),
                rows as nat,
                cols as nat,
            ),
            r is Err ==> final(self).screen_view() == old(self).screen_view(),
            final(self).parser_view() == old(self).parser_view(),
    {
        self.screen.resize(rows, cols)
    }
}

} // verus!
