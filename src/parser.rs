//! Byte-level escape-sequence parser.
//!
//! The parser is a state machine whose behaviour on one byte is the spec
//! function `step`; feeding a byte stream is `run`, the left fold of `step`.
//! Because the executable parser is proved to follow `run` exactly, the
//! action sequence does not depend on how the stream is split into chunks.
use vstd::prelude::*;

verus! {

/// Most parameters kept for one control sequence; further ones are dropped.
pub const MAX_PARAMS: usize = 16;

/// Most sub-parameters kept for one parameter, its leading value included.
pub const MAX_SUBPARAMS: usize = 6;

/// Most intermediate bytes kept for one sequence; further ones are dropped.
pub const MAX_INTERMEDIATES: usize = 2;

/// Most payload bytes kept for one operating-system command.
pub const MAX_OSC: usize = 1024;

/// Largest value a numeric parameter saturates at.
pub const MAX_PARAM_VALUE: u16 = 65535;

pub const ESC: u8 = 0x1b;

pub const BEL: u8 = 0x07;

/// The code point printed for a malformed UTF-8 sequence.
pub const REPLACEMENT: u32 = 0xFFFD;

#[derive(Clone, Copy, Debug, PartialEq, Eq, Structural)]
pub enum Mode {
    Ground,
    Escape,
    EscapeIntermediate,
    CsiEntry,
    CsiParam,
    CsiIntermediate,
    OscString,
    OscEnd,
}

/// What the parser asks its consumer to do.
#[derive(Debug, PartialEq, Eq)]
pub enum Action {
    Print(char),
    Execute(u8),
    /// Each parameter is its value followed by its colon-separated
    /// sub-parameters; an omitted value is 0.
    CsiDispatch { params: Vec<Vec<u16>>, intermediates: Vec<u8>, final_byte: u8 },
    OscDispatch { data: Vec<u8> },
    EscDispatch { intermediates: Vec<u8>, final_byte: u8 },
}

/// Mathematical form of an `Action`; a printed character is its code point.
pub enum ActionView {
    Print(u32),
    Execute(u8),
    CsiDispatch(Seq<Seq<u16>>, Seq<u8>, u8),
    OscDispatch(Seq<u8>),
    EscDispatch(Seq<u8>, u8),
}

impl View for Action {
    type V = ActionView;

    open spec fn view(&self) -> ActionView {
        match self {
            Action::Print(c) => ActionView::Print(*c as u32),
            Action::Execute(b) => ActionView::Execute(*b),
            Action::CsiDispatch { params, intermediates, final_byte } => ActionView::CsiDispatch(
                params_view(params@),
                intermediates@,
                *final_byte,
            ),
            Action::OscDispatch { data } => ActionView::OscDispatch(data@),
            Action::EscDispatch { intermediates, final_byte } => ActionView::EscDispatch(
                intermediates@,
                *final_byte,
            ),
        }
    }
}

pub open spec fn params_view(v: Seq<Vec<u16>>) -> Seq<Seq<u16>> {
    v.map_values(|p: Vec<u16>| p@)
}

pub open spec fn actions_view(v: Seq<Action>) -> Seq<ActionView> {
    v.map_values(|a: Action| a@)
}

/// The parser's whole state as plain values.
pub struct ParserView {
    pub mode: Mode,
    /// The parameters completed so far.
    pub params: Seq<Seq<u16>>,
    /// The sub-parameters of the current parameter completed so far.
    pub subs: Seq<u16>,
    pub cur: u16,
    pub started: bool,
    pub inter: Seq<u8>,
    pub osc: Seq<u8>,
    /// Continuation bytes still expected of a multi-byte character.
    pub need: u8,
    /// Bits of that character gathered so far.
    pub acc: u32,
    /// How many continuation bytes that character has in all.
    pub width: u8,
}

pub open spec fn fresh(mode: Mode) -> ParserView {
    ParserView {
        mode,
        params: Seq::empty(),
        subs: Seq::empty(),
        cur: 0,
        started: false,
        inter: Seq::empty(),
        osc: Seq::empty(),
        need: 0,
        acc: 0,
        width: 0,
    }
}

pub open spec fn push_capped<T>(s: Seq<T>, x: T, cap: nat) -> Seq<T> {
    if s.len() < cap {
        s.push(x)
    } else {
        s
    }
}

pub open spec fn is_scalar(v: u32) -> bool {
    v <= 0x10FFFF && !(0xD800 <= v && v <= 0xDFFF)
}

/// The least code point that needs `width` continuation bytes; a smaller
/// one so encoded is an overlong form.
pub open spec fn least_of_width(width: u8) -> u32 {
    if width == 1 {
        0x80
    } else if width == 2 {
        0x800
    } else {
        0x10000
    }
}

/// The code point printed for a completed multi-byte sequence: replaced
/// where it is no scalar value or is encoded overlong.
pub open spec fn decoded(v: u32, width: u8) -> u32 {
    if is_scalar(v) && v >= least_of_width(width) {
        v
    } else {
        REPLACEMENT
    }
}

pub open spec fn is_intermediate(b: u8) -> bool {
    0x20 <= b && b <= 0x2F
}

/// A byte in `Ground` with no multi-byte character pending.
pub open spec fn ground_byte(s: ParserView, b: u8) -> (ParserView, Seq<ActionView>) {
    if b == ESC {
        (fresh(Mode::Escape), Seq::empty())
    } else if b < 0x20 {
        (s, seq![ActionView::Execute(b)])
    } else if b < 0x7F {
        (s, seq![ActionView::Print(b as u32)])
    } else if b == 0x7F {
        (s, Seq::empty())
    } else if 0xC2 <= b && b <= 0xDF {
        (ParserView { need: 1, acc: (b - 0xC0) as u32, width: 1, ..s }, Seq::empty())
    } else if 0xE0 <= b && b <= 0xEF {
        (ParserView { need: 2, acc: (b - 0xE0) as u32, width: 2, ..s }, Seq::empty())
    } else if 0xF0 <= b && b <= 0xF4 {
        (ParserView { need: 3, acc: (b - 0xF0) as u32, width: 3, ..s }, Seq::empty())
    } else {
        (s, seq![ActionView::Print(REPLACEMENT)])
    }
}

/// A byte in `Ground` while a multi-byte character is pending.
pub open spec fn utf8_byte(s: ParserView, b: u8) -> (ParserView, Seq<ActionView>) {
    if 0x80 <= b && b <= 0xBF {
        let acc = (s.acc * 64 + (b - 0x80)) as u32;
        if s.need == 1 {
            (
                ParserView { need: 0, acc: 0, width: 0, ..s },
                seq![ActionView::Print(decoded(acc, s.width))],
            )
        } else {
            (ParserView { need: (s.need - 1) as u8, acc, ..s }, Seq::empty())
        }
    } else {
        let r = ground_byte(ParserView { need: 0, acc: 0, width: 0, ..s }, b);
        (r.0, seq![ActionView::Print(REPLACEMENT)] + r.1)
    }
}

pub open spec fn escape_byte(s: ParserView, b: u8) -> (ParserView, Seq<ActionView>) {
    if b == ESC {
        (fresh(Mode::Escape), Seq::empty())
    } else if is_intermediate(b) {
        (
            ParserView {
                mode: Mode::EscapeIntermediate,
                inter: push_capped(s.inter, b, MAX_INTERMEDIATES as nat),
                ..s
            },
            Seq::empty(),
        )
    } else if s.mode == Mode::Escape && b == 0x5B {
        (fresh(Mode::CsiEntry), Seq::empty())
    } else if s.mode == Mode::Escape && b == 0x5D {
        (fresh(Mode::OscString), Seq::empty())
    } else if 0x30 <= b && b <= 0x7E {
        (fresh(Mode::Ground), seq![ActionView::EscDispatch(s.inter, b)])
    } else {
        (fresh(Mode::Ground), Seq::empty())
    }
}

/// The parameter being read, with its value so far as the last entry.
pub open spec fn current_param(s: ParserView) -> Seq<u16> {
    push_capped(s.subs, s.cur, MAX_SUBPARAMS as nat)
}

/// The parameters of a control sequence at its final byte.
pub open spec fn final_params(s: ParserView) -> Seq<Seq<u16>> {
    if s.started {
        push_capped(s.params, current_param(s), MAX_PARAMS as nat)
    } else {
        s.params
    }
}

pub open spec fn csi_byte(s: ParserView, b: u8) -> (ParserView, Seq<ActionView>) {
    if b == ESC {
        (fresh(Mode::Escape), Seq::empty())
    } else if 0x40 <= b && b <= 0x7E {
        (fresh(Mode::Ground), seq![ActionView::CsiDispatch(final_params(s), s.inter, b)])
    } else if is_intermediate(b) {
        (
            ParserView {
                mode: Mode::CsiIntermediate,
                inter: push_capped(s.inter, b, MAX_INTERMEDIATES as nat),
                ..s
            },
            Seq::empty(),
        )
    } else if s.mode == Mode::CsiIntermediate {
        (fresh(Mode::Ground), Seq::empty())
    } else if 0x30 <= b && b <= 0x39 {
        let v = s.cur * 10 + (b - 0x30);
        let cur = if v > MAX_PARAM_VALUE { MAX_PARAM_VALUE } else { v as u16 };
        (ParserView { mode: Mode::CsiParam, cur, started: true, ..s }, Seq::empty())
    } else if b == 0x3A {
        (
            ParserView {
                mode: Mode::CsiParam,
                subs: push_capped(s.subs, s.cur, MAX_SUBPARAMS as nat),
                cur: 0,
                started: true,
                ..s
            },
            Seq::empty(),
        )
    } else if b == 0x3B {
        (
            ParserView {
                mode: Mode::CsiParam,
                params: push_capped(s.params, current_param(s), MAX_PARAMS as nat),
                subs: Seq::empty(),
                cur: 0,
                started: true,
                ..s
            },
            Seq::empty(),
        )
    } else if s.mode == Mode::CsiEntry && 0x3C <= b && b <= 0x3F {
        (
            ParserView {
                mode: Mode::CsiParam,
                inter: push_capped(s.inter, b, MAX_INTERMEDIATES as nat),
                ..s
            },
            Seq::empty(),
        )
    } else {
        (fresh(Mode::Ground), Seq::empty())
    }
}

pub open spec fn osc_byte(s: ParserView, b: u8) -> (ParserView, Seq<ActionView>) {
    if s.mode == Mode::OscEnd {
        if b == 0x5C {
            (fresh(Mode::Ground), seq![ActionView::OscDispatch(s.osc)])
        } else {
            escape_byte(fresh(Mode::Escape), b)
        }
    } else if b == BEL {
        (fresh(Mode::Ground), seq![ActionView::OscDispatch(s.osc)])
    } else if b == ESC {
        (ParserView { mode: Mode::OscEnd, ..s }, Seq::empty())
    } else if b >= 0x20 {
        (ParserView { osc: push_capped(s.osc, b, MAX_OSC as nat), ..s }, Seq::empty())
    } else {
        (fresh(Mode::Ground), Seq::empty())
    }
}

/// The parser's response to one byte: its next state and what it emits.
pub open spec fn step(s: ParserView, b: u8) -> (ParserView, Seq<ActionView>) {
    match s.mode {
        Mode::Ground => if s.need > 0 {
            utf8_byte(s, b)
        } else {
            ground_byte(s, b)
        },
        Mode::Escape | Mode::EscapeIntermediate => escape_byte(s, b),
        Mode::CsiEntry | Mode::CsiParam | Mode::CsiIntermediate => csi_byte(s, b),
        Mode::OscString | Mode::OscEnd => osc_byte(s, b),
    }
}

/// The parser's response to a byte stream, one byte after another.
pub open spec fn run(s: ParserView, bytes: Seq<u8>) -> (ParserView, Seq<ActionView>)
    decreases bytes.len(),
{
    if bytes.len() == 0 {
        (s, Seq::empty())
    } else {
        let r = run(s, bytes.drop_last());
        let t = step(r.0, bytes.last());
        (t.0, r.1 + t.1)
    }
}

/// Feeding a stream split in two, the second part to the state the first
/// left, gives the state and actions of feeding the stream whole.
pub proof fn lemma_run_split(s: ParserView, a: Seq<u8>, b: Seq<u8>)
    ensures
        run(s, a + b).0 == run(run(s, a).0, b).0,
        run(s, a + b).1 == run(s, a).1 + run(run(s, a).0, b).1,
    decreases b.len(),
{
    if b.len() == 0 {
        assert(a + b =~= a);
        assert(run(s, a).1 + Seq::<ActionView>::empty() =~= run(s, a).1);
    } else {
        lemma_run_split(s, a, b.drop_last());
        assert((a + b).drop_last() =~= a + b.drop_last());
        assert((a + b).last() == b.last());
        let ra = run(s, a);
        let rb = run(ra.0, b.drop_last());
        let t = step(rb.0, b.last());
        assert(ra.1 + rb.1 + t.1 =~= ra.1 + (rb.1 + t.1));
    }
}

/// Feeding chunks one after another, each to the state the previous one left.
pub open spec fn run_chunks(s: ParserView, chunks: Seq<Seq<u8>>) -> (ParserView, Seq<ActionView>)
    decreases chunks.len(),
{
    if chunks.len() == 0 {
        (s, Seq::empty())
    } else {
        let r = run_chunks(s, chunks.drop_last());
        let t = run(r.0, chunks.last());
        (t.0, r.1 + t.1)
    }
}

/// However a stream is cut into chunks, feeding them in turn gives the same
/// state and the same action sequence as feeding the whole stream at once.
pub proof fn lemma_fragmentation_invariance(s: ParserView, chunks: Seq<Seq<u8>>)
    ensures
        run_chunks(s, chunks) == run(s, chunks.flatten()),
    decreases chunks.len(),
{
    if chunks.len() == 0 {
        assert(chunks.flatten() =~= Seq::<u8>::empty());
    } else {
        let init = chunks.drop_last();
        lemma_fragmentation_invariance(s, init);
        assert(chunks =~= init.push(chunks.last()));
        init.lemma_flatten_push(chunks.last());
        lemma_run_split(s, init.flatten(), chunks.last());
    }
}

/// Inside an operating-system command, bytes from space upward (printable
/// ones included) are payload: however many come, nothing is emitted and
/// the command stays open.
pub proof fn lemma_unterminated_osc_emits_nothing(s: ParserView, bytes: Seq<u8>)
    requires
        s.mode == Mode::OscString,
        forall|i: int| 0 <= i < bytes.len() ==> #[trigger] bytes[i] >= 0x20,
    ensures
        run(s, bytes).0.mode == Mode::OscString,
        run(s, bytes).1 == Seq::<ActionView>::empty(),
    decreases bytes.len(),
{
    if bytes.len() > 0 {
        let init = bytes.drop_last();
        lemma_unterminated_osc_emits_nothing(s, init);
        assert(bytes.last() == bytes[bytes.len() - 1]);
        assert(run(s, bytes).1 =~= Seq::<ActionView>::empty());
    }
}

/// A control byte other than the two terminators aborts an open
/// operating-system command without emitting it, and the printable byte
/// that follows is printed.
pub proof fn lemma_osc_abort_then_print(s: ParserView, abort: u8, b: u8)
    requires
        s.mode == Mode::OscString,
        abort < 0x20,
        abort != BEL,
        abort != ESC,
        0x20 <= b < 0x7F,
    ensures
        step(s, abort) == (fresh(Mode::Ground), Seq::<ActionView>::empty()),
        step(step(s, abort).0, b).1 == seq![ActionView::Print(b as u32)],
{
}

/// Relies on char::from_u32: `Some` exactly for Unicode scalar values,
/// holding the character of that value.
#[verifier::external_body]
fn char_from_u32(v: u32) -> (r: Option<char>)
    ensures
        r.is_some() <==> is_scalar(v),
        r matches Some(c) ==> c as u32 == v,
{
    char::from_u32(v)
}

pub struct EscapeParser {
    mode: Mode,
    params: Vec<Vec<u16>>,
    subs: Vec<u16>,
    cur: u16,
    started: bool,
    inter: Vec<u8>,
    osc: Vec<u8>,
    need: u8,
    acc: u32,
    width: u8,
}

impl View for EscapeParser {
    type V = ParserView;

    closed spec fn view(&self) -> ParserView {
        ParserView {
            mode: self.mode,
            params: params_view(self.params@),
            subs: self.subs@,
            cur: self.cur,
            started: self.started,
            inter: self.inter@,
            osc: self.osc@,
            need: self.need,
            acc: self.acc,
            width: self.width,
        }
    }
}

/// The parser's invariant: bounded accumulators, and a pending multi-byte
/// character only in `Ground`, with no more bits than its length allows.
pub open spec fn parser_wf(s: ParserView) -> bool {
    &&& s.params.len() <= MAX_PARAMS
    &&& s.subs.len() <= MAX_SUBPARAMS
    &&& s.width <= 3
    &&& s.need == 0 ==> s.width == 0
    &&& s.inter.len() <= MAX_INTERMEDIATES
    &&& s.osc.len() <= MAX_OSC
    &&& s.need <= 3
    &&& s.need > 0 ==> s.mode == Mode::Ground
    &&& s.need == 0 ==> s.acc == 0
    &&& s.need == 3 ==> s.acc < 8
    &&& s.need == 2 ==> s.acc < 512
    &&& s.need == 1 ==> s.acc < 32768
}

proof fn lemma_push_view(v: Seq<Action>, a: Action)
    ensures
        actions_view(v.push(a)) == actions_view(v).push(a@),
{
    assert(actions_view(v.push(a)) =~= actions_view(v).push(a@));
}

impl EscapeParser {
    pub open spec fn wf(&self) -> bool {
        parser_wf(self@)
    }

    pub fn new() -> (r: EscapeParser)
        ensures
            r@ == fresh(Mode::Ground),
            r.wf(),
    {
        let r = EscapeParser {
            mode: Mode::Ground,
            params: Vec::new(),
            subs: Vec::new(),
            cur: 0,
            started: false,
            inter: Vec::new(),
            osc: Vec::new(),
            need: 0,
            acc: 0,
            width: 0,
        };
        assert(r@.params =~= Seq::<Seq<u16>>::empty());
        r
    }

    fn reset(&mut self, mode: Mode)
        ensures
            final(self)@ == fresh(mode),
    {
        self.mode = mode;
        self.params = Vec::new();
        self.subs = Vec::new();
        self.cur = 0;
        self.started = false;
        self.inter = Vec::new();
        self.osc = Vec::new();
        self.need = 0;
        self.acc = 0;
        self.width = 0;
        assert(final(self)@.params =~= Seq::<Seq<u16>>::empty());
    }

    fn emit(out: &mut Vec<Action>, a: Action)
        ensures
            actions_view(final(out)@) == actions_view(old(out)@).push(a@),
    {
        proof {
            lemma_push_view(out@, a);
        }
        out.push(a);
    }

    fn ground_byte(&mut self, b: u8, out: &mut Vec<Action>)
        requires
            parser_wf(old(self)@),
            old(self)@.need == 0,
            old(self)@.mode == Mode::Ground,
        ensures
            parser_wf(final(self)@),
            final(self)@ == ground_byte(old(self)@, b).0,
            actions_view(final(out)@) == actions_view(old(out)@) + ground_byte(old(self)@, b).1,
    {
        let ghost o = actions_view(out@);
        if b == ESC {
            self.reset(Mode::Escape);
        } else if b < 0x20 {
            Self::emit(out, Action::Execute(b));
        } else if b < 0x7F {
            Self::emit(out, Action::Print(b as char));
        } else if b == 0x7F {
        } else if 0xC2 <= b && b <= 0xDF {
            self.need = 1;
            self.acc = (b - 0xC0) as u32;
            self.width = 1;
        } else if 0xE0 <= b && b <= 0xEF {
            self.need = 2;
            self.acc = (b - 0xE0) as u32;
            self.width = 2;
        } else if 0xF0 <= b && b <= 0xF4 {
            self.need = 3;
            self.acc = (b - 0xF0) as u32;
            self.width = 3;
        } else {
            Self::emit(out, Action::Print('\u{FFFD}'));
        }
        proof {
            let r = ground_byte(old(self)@, b);
            if r.1.len() == 0 {
                assert(o + r.1 =~= o);
            } else {
                assert(o + r.1 =~= o.push(r.1[0]));
            }
        }
    }

    fn utf8_byte(&mut self, b: u8, out: &mut Vec<Action>)
        requires
            parser_wf(old(self)@),
            old(self)@.need > 0,
        ensures
            parser_wf(final(self)@),
            final(self)@ == utf8_byte(old(self)@, b).0,
            actions_view(final(out)@) == actions_view(old(out)@) + utf8_byte(old(self)@, b).1,
    {
        let ghost o = actions_view(out@);
        if 0x80 <= b && b <= 0xBF {
            let acc: u32 = self.acc * 64 + (b - 0x80) as u32;
            if self.need == 1 {
                let least: u32 = if self.width == 1 {
                    0x80
                } else if self.width == 2 {
                    0x800
                } else {
                    0x10000
                };
                let ghost width = self.width;
                self.need = 0;
                self.acc = 0;
                self.width = 0;
                let c = if acc < least {
                    '\u{FFFD}'
                } else {
                    match char_from_u32(acc) {
                        Some(c) => c,
                        None => '\u{FFFD}',
                    }
                };
                Self::emit(out, Action::Print(c));
                assert(o + seq![ActionView::Print(decoded(acc, width))] =~= o.push(
                    ActionView::Print(decoded(acc, width)),
                ));
            } else {
                self.need = self.need - 1;
                self.acc = acc;
                assert(o + Seq::<ActionView>::empty() =~= o);
            }
        } else {
            self.need = 0;
            self.acc = 0;
            self.width = 0;
            Self::emit(out, Action::Print('\u{FFFD}'));
            let ghost mid = actions_view(out@);
            self.ground_byte(b, out);
            proof {
                let r = ground_byte(ParserView { need: 0, acc: 0, width: 0, ..old(self)@ }, b);
                assert(mid + r.1 =~= o + (seq![ActionView::Print(REPLACEMENT)] + r.1));
            }
        }
    }

    /// Closes the current parameter and appends it to the list.
    fn end_param(&mut self)
        requires
            parser_wf(old(self)@),
        ensures
            parser_wf(final(self)@),
            final(self)@ == (ParserView {
                params: push_capped(old(self)@.params, current_param(old(self)@), MAX_PARAMS as nat),
                subs: Seq::empty(),
                cur: 0,
                ..old(self)@
            }),
    {
        let mut p: Vec<u16> = Vec::new();
        std::mem::swap(&mut p, &mut self.subs);
        if p.len() < MAX_SUBPARAMS {
            p.push(self.cur);
        }
        self.cur = 0;
        if self.params.len() < MAX_PARAMS {
            let ghost pv = self.params@;
            self.params.push(p);
            assert(params_view(self.params@) =~= params_view(pv).push(p@));
        }
        assert(self.subs@ =~= Seq::<u16>::empty());
    }

    fn push_inter(&mut self, b: u8)
        requires
            parser_wf(old(self)@),
        ensures
            final(self)@ == (ParserView {
                inter: push_capped(old(self)@.inter, b, MAX_INTERMEDIATES as nat),
                ..old(self)@
            }),
    {
        if self.inter.len() < MAX_INTERMEDIATES {
            self.inter.push(b);
        }
    }

    fn escape_byte(&mut self, b: u8, out: &mut Vec<Action>)
        requires
            parser_wf(old(self)@),
            old(self)@.mode == Mode::Escape || old(self)@.mode == Mode::EscapeIntermediate,
        ensures
            parser_wf(final(self)@),
            final(self)@ == escape_byte(old(self)@, b).0,
            actions_view(final(out)@) == actions_view(old(out)@) + escape_byte(old(self)@, b).1,
    {
        let ghost o = actions_view(out@);
        if b == ESC {
            self.reset(Mode::Escape);
        } else if 0x20 <= b && b <= 0x2F {
            self.push_inter(b);
            self.mode = Mode::EscapeIntermediate;
        } else if self.mode == Mode::Escape && b == 0x5B {
            self.reset(Mode::CsiEntry);
        } else if self.mode == Mode::Escape && b == 0x5D {
            self.reset(Mode::OscString);
        } else if 0x30 <= b && b <= 0x7E {
            let mut inter = Vec::new();
            std::mem::swap(&mut inter, &mut self.inter);
            let ghost iv = inter@;
            Self::emit(out, Action::EscDispatch { intermediates: inter, final_byte: b });
            self.reset(Mode::Ground);
            assert(o + seq![ActionView::EscDispatch(iv, b)] =~= o.push(
                ActionView::EscDispatch(iv, b),
            ));
        } else {
            self.reset(Mode::Ground);
        }
        proof {
            if escape_byte(old(self)@, b).1.len() == 0 {
                assert(o + escape_byte(old(self)@, b).1 =~= o);
            }
        }
    }

    fn csi_byte(&mut self, b: u8, out: &mut Vec<Action>)
        requires
            parser_wf(old(self)@),
            old(self)@.mode == Mode::CsiEntry || old(self)@.mode == Mode::CsiParam
                || old(self)@.mode == Mode::CsiIntermediate,
        ensures
            parser_wf(final(self)@),
            final(self)@ == csi_byte(old(self)@, b).0,
            actions_view(final(out)@) == actions_view(old(out)@) + csi_byte(old(self)@, b).1,
    {
        let ghost o = actions_view(out@);
        if b == ESC {
            self.reset(Mode::Escape);
        } else if 0x40 <= b && b <= 0x7E {
            let ghost fp = final_params(old(self)@);
            if self.started {
                self.end_param();
            }
            let mut params = Vec::new();
            std::mem::swap(&mut params, &mut self.params);
            let mut inter = Vec::new();
            std::mem::swap(&mut inter, &mut self.inter);
            let ghost a = ActionView::CsiDispatch(params_view(params@), inter@, b);
            assert(params_view(params@) == fp);
            Self::emit(out, Action::CsiDispatch { params, intermediates: inter, final_byte: b });
            self.reset(Mode::Ground);
            assert(o + seq![a] =~= o.push(a));
        } else if 0x20 <= b && b <= 0x2F {
            self.push_inter(b);
            self.mode = Mode::CsiIntermediate;
        } else if self.mode == Mode::CsiIntermediate {
            self.reset(Mode::Ground);
        } else if 0x30 <= b && b <= 0x39 {
            let v: u32 = self.cur as u32 * 10 + (b - 0x30) as u32;
            self.cur = if v > MAX_PARAM_VALUE as u32 { MAX_PARAM_VALUE } else { v as u16 };
            self.started = true;
            self.mode = Mode::CsiParam;
        } else if b == 0x3A {
            if self.subs.len() < MAX_SUBPARAMS {
                self.subs.push(self.cur);
            }
            self.cur = 0;
            self.started = true;
            self.mode = Mode::CsiParam;
        } else if b == 0x3B {
            self.end_param();
            self.started = true;
            self.mode = Mode::CsiParam;
        } else if self.mode == Mode::CsiEntry && 0x3C <= b && b <= 0x3F {
            self.push_inter(b);
            self.mode = Mode::CsiParam;
        } else {
            self.reset(Mode::Ground);
        }
        proof {
            if csi_byte(old(self)@, b).1.len() == 0 {
                assert(o + csi_byte(old(self)@, b).1 =~= o);
            }
        }
    }

    fn osc_byte(&mut self, b: u8, out: &mut Vec<Action>)
        requires
            parser_wf(old(self)@),
            old(self)@.mode == Mode::OscString || old(self)@.mode == Mode::OscEnd,
        ensures
            parser_wf(final(self)@),
            final(self)@ == osc_byte(old(self)@, b).0,
            actions_view(final(out)@) == actions_view(old(out)@) + osc_byte(old(self)@, b).1,
    {
        let ghost o = actions_view(out@);
        if (self.mode == Mode::OscEnd && b == 0x5C) || (self.mode == Mode::OscString && b == BEL) {
            let mut data = Vec::new();
            std::mem::swap(&mut data, &mut self.osc);
            let ghost a = ActionView::OscDispatch(data@);
            Self::emit(out, Action::OscDispatch { data });
            self.reset(Mode::Ground);
            assert(o + seq![a] =~= o.push(a));
        } else if self.mode == Mode::OscEnd {
            self.reset(Mode::Escape);
            self.escape_byte(b, out);
        } else if b == ESC {
            self.mode = Mode::OscEnd;
        } else if b >= 0x20 {
            if self.osc.len() < MAX_OSC {
                self.osc.push(b);
            }
        } else {
            self.reset(Mode::Ground);
        }
        proof {
            if osc_byte(old(self)@, b).1.len() == 0 {
                assert(o + osc_byte(old(self)@, b).1 =~= o);
            }
        }
    }

    /// Handles one byte, appending what it emits to `out`.
    pub fn step(&mut self, b: u8, out: &mut Vec<Action>)
        requires
            old(self).wf(),
        ensures
            final(self).wf(),
            final(self)@ == step(old(self)@, b).0,
            actions_view(final(out)@) == actions_view(old(out)@) + step(old(self)@, b).1,
    {
        match self.mode {
            Mode::Ground => if self.need > 0 {
                self.utf8_byte(b, out);
            } else {
                self.ground_byte(b, out);
            },
            Mode::Escape | Mode::EscapeIntermediate => self.escape_byte(b, out),
            Mode::CsiEntry | Mode::CsiParam | Mode::CsiIntermediate => self.csi_byte(b, out),
            Mode::OscString | Mode::OscEnd => self.osc_byte(b, out),
        }
    }

    /// Feeds a chunk of bytes; the actions it emits come back in order.
    pub fn advance(&mut self, bytes: &[u8]) -> (r: Vec<Action>)
        requires
            old(self).wf(),
        ensures
            final(self).wf(),
            final(self)@ == run(old(self)@, bytes@).0,
            actions_view(r@) == run(old(self)@, bytes@).1,
    {
        let mut out: Vec<Action> = Vec::new();
        let mut i: usize = 0;
        assert(bytes@.subrange(0, 0) =~= Seq::<u8>::empty());
        assert(actions_view(out@) =~= Seq::<ActionView>::empty());
        while i < bytes.len()
            invariant
                i <= bytes@.len(),
                self.wf(),
                self@ == run(old(self)@, bytes@.subrange(0, i as int)).0,
                actions_view(out@) == run(old(self)@, bytes@.subrange(0, i as int)).1,
            decreases bytes@.len() - i,
        {
            assert(bytes@.subrange(0, i + 1).drop_last() =~= bytes@.subrange(0, i as int));
            self.step(bytes[i], &mut out);
            i = i + 1;
        }
        assert(bytes@.subrange(0, i as int) =~= bytes@);
        out
    }
}

} // verus!
