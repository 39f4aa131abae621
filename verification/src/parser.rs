//! Incremental escape-sequence parser.
//!
//! Bytes arrive in arbitrary chunks, including mid-sequence; the parser
//! keeps its collecting state across calls and always returns to ground
//! on malformed input.  Its whole behaviour is defined by the per-byte
//! spec `step_spec`, folded over a chunk by `run_spec`; the executable
//! `Parser::advance` is proved to follow that fold exactly, which makes
//! chunk boundaries unobservable (see `lemma_parser_resumable`).

use vstd::prelude::*;

verus! {

/// Parameter count kept per CSI sequence; further parameters are
/// truncated silently.
pub const MAX_PARAMS: usize = 16;

/// Largest value a single CSI parameter may accumulate; larger values
/// saturate.
pub const PARAM_LIMIT: u16 = 9999;

/// Intermediate/private-marker bytes kept per CSI sequence; a longer
/// sequence is dispatched as ignored.
pub const MAX_INTERMEDIATES: usize = 4;

/// String budget for OSC and DCS payloads; a longer sequence is
/// dispatched as ignored.
pub const MAX_OSC: usize = 1024;

/// The replacement scalar printed for malformed UTF-8.
pub const REPLACEMENT: u32 = 0xFFFD;

/// Parser automaton state, persisted across chunk boundaries.
#[derive(Debug, Copy, Clone, Eq, PartialEq, Structural)]
pub enum ParseState {
    /// Plain text.
    Ground,
    /// Saw ESC.
    Escape,
    /// Collecting CSI parameter and intermediate bytes.
    Csi,
    /// Collecting an OSC string until BEL or ST.
    Osc,
    /// Saw ESC inside an OSC string (possible ST).
    OscEsc,
    /// Collecting a DCS string until ST.
    Dcs,
    /// Saw ESC inside a DCS string (possible ST).
    DcsEsc,
    /// Mid UTF-8 sequence: `need` continuation bytes remain, `acc` holds
    /// the scalar bits seen so far.
    Utf8 { need: u8, acc: u32 },
}

/// One discrete terminal action produced by the parser.
#[derive(Debug)]
pub enum Action {
    /// A printable glyph, as a Unicode scalar value.
    Print(u32),
    /// A C0 control byte (BS, TAB, LF, CR, BEL, ...).
    Control(u8),
    /// A two-byte escape sequence `ESC b`.
    EscDispatch(u8),
    /// A complete CSI sequence: parameters, intermediates, final byte.
    CsiDispatch(Vec<u16>, Vec<u8>, u8),
    /// A complete OSC string.
    OscDispatch(Vec<u8>),
    /// A complete DCS string.
    DcsDispatch(Vec<u8>),
    /// A malformed or over-budget sequence, discarded without effect.
    Ignored,
}

/// The mathematical image of an `Action`.
pub enum ActionV {
    Print(u32),
    Control(u8),
    EscDispatch(u8),
    CsiDispatch(Seq<u16>, Seq<u8>, u8),
    OscDispatch(Seq<u8>),
    DcsDispatch(Seq<u8>),
    Ignored,
}

impl View for Action {
    type V = ActionV;

    open spec fn view(&self) -> ActionV {
        match self {
            Action::Print(c) => ActionV::Print(*c),
            Action::Control(b) => ActionV::Control(*b),
            Action::EscDispatch(b) => ActionV::EscDispatch(*b),
            Action::CsiDispatch(p, i, f) => ActionV::CsiDispatch(p@, i@, *f),
            Action::OscDispatch(s) => ActionV::OscDispatch(s@),
            Action::DcsDispatch(s) => ActionV::DcsDispatch(s@),
            Action::Ignored => ActionV::Ignored,
        }
    }
}

/// The views of a vector of actions.
pub open spec fn acts(v: Seq<Action>) -> Seq<ActionV> {
    v.map_values(|a: Action| a@)
}

/// The mathematical image of the parser.
pub struct ParserV {
    pub state: ParseState,
    pub params: Seq<u16>,
    pub cur_param: u16,
    pub intermediates: Seq<u8>,
    pub osc: Seq<u8>,
    pub overflow: bool,
}

/// Result of one spec step or run: the parser after the bytes, and the
/// actions they produced.
pub struct ParseStep {
    pub st: ParserV,
    pub out: Seq<ActionV>,
}

impl ParserV {
    /// All collecting buffers are within their budgets and a mid-UTF-8
    /// accumulator is small enough that the next continuation byte
    /// cannot overflow it.
    pub open spec fn wf(self) -> bool {
        &&& self.params.len() <= MAX_PARAMS
        &&& self.cur_param <= PARAM_LIMIT
        &&& self.intermediates.len() <= MAX_INTERMEDIATES
        &&& self.osc.len() <= MAX_OSC
        &&& (self.state matches ParseState::Utf8 { need, acc } ==> 1 <= need <= 3 && (need
            == 3 ==> acc <= 0x07) && (need == 2 ==> acc <= 0x1ff) && (need == 1 ==> acc
            <= 0x7fff))
    }

    /// The state of a fresh parser.
    pub open spec fn init() -> ParserV {
        ParserV {
            state: ParseState::Ground,
            params: Seq::empty(),
            cur_param: 0,
            intermediates: Seq::empty(),
            osc: Seq::empty(),
            overflow: false,
        }
    }

    pub open spec fn with_state(self, st: ParseState) -> ParserV {
        ParserV {
            state: st,
            params: self.params,
            cur_param: self.cur_param,
            intermediates: self.intermediates,
            osc: self.osc,
            overflow: self.overflow,
        }
    }

    /// Entering a fresh collecting state clears every buffer.
    pub open spec fn cleared(st: ParseState) -> ParserV {
        ParserV {
            state: st,
            params: Seq::empty(),
            cur_param: 0,
            intermediates: Seq::empty(),
            osc: Seq::empty(),
            overflow: false,
        }
    }
}

/// A UTF-8 accumulator becomes a printable scalar: out-of-range values
/// and surrogates print the replacement scalar instead.
pub open spec fn utf8_scalar_spec(cp: u32) -> u32 {
    if cp >= 0x80 && cp <= 0x10FFFF && !(0xD800 <= cp && cp <= 0xDFFF) {
        cp
    } else {
        REPLACEMENT
    }
}

/// Ground state: plain text, C0 controls, ESC, and UTF-8 lead bytes.
pub open spec fn spec_ground(p: ParserV, b: u8) -> ParseStep {
    if b == 0x1b {
        ParseStep { st: ParserV::cleared(ParseState::Escape), out: seq![] }
    } else if b < 0x20 {
        ParseStep { st: p.with_state(ParseState::Ground), out: seq![ActionV::Control(b)] }
    } else if b <= 0x7e {
        ParseStep {
            st: p.with_state(ParseState::Ground),
            out: seq![ActionV::Print(b as u32)],
        }
    } else if b == 0x7f {
        ParseStep { st: p.with_state(ParseState::Ground), out: seq![] }
    } else if 0xc2 <= b && b <= 0xdf {
        ParseStep {
            st: p.with_state(ParseState::Utf8 { need: 1, acc: (b - 0xc0) as u32 }),
            out: seq![],
        }
    } else if 0xe0 <= b && b <= 0xef {
        ParseStep {
            st: p.with_state(ParseState::Utf8 { need: 2, acc: (b - 0xe0) as u32 }),
            out: seq![],
        }
    } else if 0xf0 <= b && b <= 0xf4 {
        ParseStep {
            st: p.with_state(ParseState::Utf8 { need: 3, acc: (b - 0xf0) as u32 }),
            out: seq![],
        }
    } else {
        ParseStep {
            st: p.with_state(ParseState::Ground),
            out: seq![ActionV::Print(REPLACEMENT)],
        }
    }
}

/// Escape state: sequence introducers, a second ESC restarts, C0
/// controls execute, other finals dispatch, anything else is discarded.
pub open spec fn spec_escape(p: ParserV, b: u8) -> ParseStep {
    if b == 0x5b {
        ParseStep { st: ParserV::cleared(ParseState::Csi), out: seq![] }
    } else if b == 0x5d {
        ParseStep { st: ParserV::cleared(ParseState::Osc), out: seq![] }
    } else if b == 0x50 {
        ParseStep { st: ParserV::cleared(ParseState::Dcs), out: seq![] }
    } else if b == 0x1b {
        ParseStep { st: ParserV::cleared(ParseState::Escape), out: seq![ActionV::Ignored] }
    } else if b < 0x20 {
        ParseStep { st: p.with_state(ParseState::Escape), out: seq![ActionV::Control(b)] }
    } else if 0x30 <= b && b <= 0x7e {
        ParseStep {
            st: p.with_state(ParseState::Ground),
            out: seq![ActionV::EscDispatch(b)],
        }
    } else {
        ParseStep { st: p.with_state(ParseState::Ground), out: seq![ActionV::Ignored] }
    }
}

/// CSI state: digits accumulate (saturating), `;` separates (extra
/// parameters truncate silently), intermediates collect (over budget
/// poisons the sequence), a final byte dispatches, ESC aborts.
pub open spec fn spec_csi(p: ParserV, b: u8) -> ParseStep {
    if b == 0x1b {
        ParseStep { st: ParserV::cleared(ParseState::Escape), out: seq![ActionV::Ignored] }
    } else if b < 0x20 {
        ParseStep { st: p.with_state(ParseState::Csi), out: seq![ActionV::Control(b)] }
    } else if 0x30 <= b && b <= 0x39 {
        let v: int = p.cur_param as int * 10 + (b - 0x30) as int;
        let cur: u16 = if v > PARAM_LIMIT as int {
            PARAM_LIMIT
        } else {
            v as u16
        };
        ParseStep {
            st: ParserV {
                state: ParseState::Csi,
                params: p.params,
                cur_param: cur,
                intermediates: p.intermediates,
                osc: p.osc,
                overflow: p.overflow,
            },
            out: seq![],
        }
    } else if b == 0x3b {
        let params = if p.params.len() < MAX_PARAMS {
            p.params.push(p.cur_param)
        } else {
            p.params
        };
        ParseStep {
            st: ParserV {
                state: ParseState::Csi,
                params,
                cur_param: 0,
                intermediates: p.intermediates,
                osc: p.osc,
                overflow: p.overflow,
            },
            out: seq![],
        }
    } else if b == 0x3a {
        ParseStep {
            st: ParserV {
                state: ParseState::Csi,
                params: p.params,
                cur_param: p.cur_param,
                intermediates: p.intermediates,
                osc: p.osc,
                overflow: true,
            },
            out: seq![],
        }
    } else if (0x20 <= b && b <= 0x2f) || (0x3c <= b && b <= 0x3f) {
        if p.intermediates.len() < MAX_INTERMEDIATES {
            ParseStep {
                st: ParserV {
                    state: ParseState::Csi,
                    params: p.params,
                    cur_param: p.cur_param,
                    intermediates: p.intermediates.push(b),
                    osc: p.osc,
                    overflow: p.overflow,
                },
                out: seq![],
            }
        } else {
            ParseStep {
                st: ParserV {
                    state: ParseState::Csi,
                    params: p.params,
                    cur_param: p.cur_param,
                    intermediates: p.intermediates,
                    osc: p.osc,
                    overflow: true,
                },
                out: seq![],
            }
        }
    } else if 0x40 <= b && b <= 0x7e {
        let params = if p.params.len() < MAX_PARAMS {
            p.params.push(p.cur_param)
        } else {
            p.params
        };
        let out = if p.overflow {
            seq![ActionV::Ignored]
        } else {
            seq![ActionV::CsiDispatch(params, p.intermediates, b)]
        };
        ParseStep { st: ParserV::cleared(ParseState::Ground), out }
    } else if b == 0x7f {
        ParseStep { st: p.with_state(ParseState::Csi), out: seq![] }
    } else {
        ParseStep { st: ParserV::cleared(ParseState::Ground), out: seq![ActionV::Ignored] }
    }
}

/// OSC string state: BEL terminates, ESC may begin an ST, all other
/// bytes collect within the budget.
pub open spec fn spec_osc(p: ParserV, b: u8) -> ParseStep {
    if b == 0x07 {
        let out = if p.overflow {
            seq![ActionV::Ignored]
        } else {
            seq![ActionV::OscDispatch(p.osc)]
        };
        ParseStep { st: ParserV::cleared(ParseState::Ground), out }
    } else if b == 0x1b {
        ParseStep { st: p.with_state(ParseState::OscEsc), out: seq![] }
    } else if p.osc.len() < MAX_OSC {
        ParseStep {
            st: ParserV {
                state: ParseState::Osc,
                params: p.params,
                cur_param: p.cur_param,
                intermediates: p.intermediates,
                osc: p.osc.push(b),
                overflow: p.overflow,
            },
            out: seq![],
        }
    } else {
        ParseStep {
            st: ParserV {
                state: ParseState::Osc,
                params: p.params,
                cur_param: p.cur_param,
                intermediates: p.intermediates,
                osc: p.osc,
                overflow: true,
            },
            out: seq![],
        }
    }
}

/// ESC seen inside an OSC string: `\` completes the ST and dispatches;
/// anything else abandons the string and is handled as a fresh escape.
pub open spec fn spec_osc_esc(p: ParserV, b: u8) -> ParseStep {
    if b == 0x5c {
        let out = if p.overflow {
            seq![ActionV::Ignored]
        } else {
            seq![ActionV::OscDispatch(p.osc)]
        };
        ParseStep { st: ParserV::cleared(ParseState::Ground), out }
    } else {
        let r = spec_escape(p, b);
        ParseStep { st: r.st, out: seq![ActionV::Ignored] + r.out }
    }
}

/// DCS passthrough state: only ST terminates, everything else collects
/// within the budget.
pub open spec fn spec_dcs(p: ParserV, b: u8) -> ParseStep {
    if b == 0x1b {
        ParseStep { st: p.with_state(ParseState::DcsEsc), out: seq![] }
    } else if p.osc.len() < MAX_OSC {
        ParseStep {
            st: ParserV {
                state: ParseState::Dcs,
                params: p.params,
                cur_param: p.cur_param,
                intermediates: p.intermediates,
                osc: p.osc.push(b),
                overflow: p.overflow,
            },
            out: seq![],
        }
    } else {
        ParseStep {
            st: ParserV {
                state: ParseState::Dcs,
                params: p.params,
                cur_param: p.cur_param,
                intermediates: p.intermediates,
                osc: p.osc,
                overflow: true,
            },
            out: seq![],
        }
    }
}

/// ESC seen inside a DCS string: `\` completes the ST and dispatches;
/// anything else abandons the string and is handled as a fresh escape.
pub open spec fn spec_dcs_esc(p: ParserV, b: u8) -> ParseStep {
    if b == 0x5c {
        let out = if p.overflow {
            seq![ActionV::Ignored]
        } else {
            seq![ActionV::DcsDispatch(p.osc)]
        };
        ParseStep { st: ParserV::cleared(ParseState::Ground), out }
    } else {
        let r = spec_escape(p, b);
        ParseStep { st: r.st, out: seq![ActionV::Ignored] + r.out }
    }
}

/// Mid UTF-8 sequence: a continuation byte extends the accumulator; a
/// non-continuation byte prints the replacement scalar and is then
/// handled from ground.
pub open spec fn spec_utf8(p: ParserV, need: u8, acc: u32, b: u8) -> ParseStep {
    if 0x80 <= b && b <= 0xbf {
        let acc2: u32 = (acc * 64 + (b - 0x80) as u32) as u32;
        if need == 1 {
            ParseStep {
                st: p.with_state(ParseState::Ground),
                out: seq![ActionV::Print(utf8_scalar_spec(acc2))],
            }
        } else {
            ParseStep {
                st: p.with_state(ParseState::Utf8 { need: (need - 1) as u8, acc: acc2 }),
                out: seq![],
            }
        }
    } else {
        let r = spec_ground(p.with_state(ParseState::Ground), b);
        ParseStep { st: r.st, out: seq![ActionV::Print(REPLACEMENT)] + r.out }
    }
}

/// One byte, from any state.  This function is the parser's definition.
pub open spec fn step_spec(p: ParserV, b: u8) -> ParseStep {
    match p.state {
        ParseState::Ground => spec_ground(p, b),
        ParseState::Escape => spec_escape(p, b),
        ParseState::Csi => spec_csi(p, b),
        ParseState::Osc => spec_osc(p, b),
        ParseState::OscEsc => spec_osc_esc(p, b),
        ParseState::Dcs => spec_dcs(p, b),
        ParseState::DcsEsc => spec_dcs_esc(p, b),
        ParseState::Utf8 { need, acc } => spec_utf8(p, need, acc, b),
    }
}

/// A whole chunk: `step_spec` folded over the bytes, outputs concatenated.
pub open spec fn run_spec(p: ParserV, bytes: Seq<u8>) -> ParseStep
    decreases bytes.len(),
{
    if bytes.len() == 0 {
        ParseStep { st: p, out: seq![] }
    } else {
        let first = step_spec(p, bytes[0]);
        let rest = run_spec(first.st, bytes.skip(1));
        ParseStep { st: rest.st, out: first.out + rest.out }
    }
}

/// Parser resumability: feeding a byte stream in one chunk and feeding
/// it split at any point yield the same final parser and the same
/// actions.  By induction this extends to any number of chunks, so chunk
/// boundaries are unobservable.
pub proof fn lemma_parser_resumable(p: ParserV, a: Seq<u8>, b: Seq<u8>)
    ensures
        run_spec(p, a + b).st == run_spec(run_spec(p, a).st, b).st,
        run_spec(p, a + b).out == run_spec(p, a).out + run_spec(run_spec(p, a).st, b).out,
    decreases a.len(),
{
    if a.len() == 0 {
        assert(a + b =~= b);
        assert(run_spec(p, a).out + run_spec(run_spec(p, a).st, b).out =~= run_spec(
            p,
            b,
        ).out);
    } else {
        let first = step_spec(p, (a + b)[0]);
        assert((a + b)[0] == a[0]);
        assert((a + b).skip(1) =~= a.skip(1) + b);
        lemma_parser_resumable(first.st, a.skip(1), b);
        assert(run_spec(p, a + b).out =~= run_spec(p, a).out + run_spec(
            run_spec(p, a).st,
            b,
        ).out);
    }
}

/// The executable parser.  Its fields mirror `ParserV` exactly.
#[derive(Debug)]
pub struct Parser {
    pub state: ParseState,
    pub params: Vec<u16>,
    pub cur_param: u16,
    pub intermediates: Vec<u8>,
    pub osc: Vec<u8>,
    pub overflow: bool,
}

impl View for Parser {
    type V = ParserV;

    open spec fn view(&self) -> ParserV {
        ParserV {
            state: self.state,
            params: self.params@,
            cur_param: self.cur_param,
            intermediates: self.intermediates@,
            osc: self.osc@,
            overflow: self.overflow,
        }
    }
}

impl Parser {
    pub open spec fn wf(self) -> bool {
        self@.wf()
    }

    /// A fresh parser in ground state.
    pub fn new() -> (r: Parser)
        ensures
            r@ == ParserV::init(),
            r.wf(),
    {
        Parser {
            state: ParseState::Ground,
            params: Vec::new(),
            cur_param: 0,
            intermediates: Vec::new(),
            osc: Vec::new(),
            overflow: false,
        }
    }

    /// Reset every buffer and enter `st`.
    fn clear_to(&mut self, st: ParseState)
        ensures
            final(self)@ == ParserV::cleared(st),
    {
        self.state = st;
        self.params = Vec::new();
        self.cur_param = 0;
        self.intermediates = Vec::new();
        self.osc = Vec::new();
        self.overflow = false;
    }

    /// Handle one byte from the escape state (also reached when an OSC
    /// or DCS string is abandoned by a stray ESC).
    fn do_escape(&mut self, b: u8, out: &mut Vec<Action>)
        requires
            old(self).wf(),
        ensures
            final(self).wf(),
            final(self)@ == spec_escape(old(self)@, b).st,
            acts(final(out)@) == acts(old(out)@) + spec_escape(old(self)@, b).out,
    {
        let ghost out0 = out@;
        if b == 0x5b {
            self.clear_to(ParseState::Csi);
        } else if b == 0x5d {
            self.clear_to(ParseState::Osc);
        } else if b == 0x50 {
            self.clear_to(ParseState::Dcs);
        } else if b == 0x1b {
            self.clear_to(ParseState::Escape);
            out.push(Action::Ignored);
        } else if b < 0x20 {
            self.state = ParseState::Escape;
            out.push(Action::Control(b));
        } else if 0x30 <= b && b <= 0x7e {
            self.state = ParseState::Ground;
            out.push(Action::EscDispatch(b));
        } else {
            self.state = ParseState::Ground;
            out.push(Action::Ignored);
        }
        proof {
            assert(acts(out@) =~= acts(out0) + spec_escape(old(self)@, b).out);
        }
    }

    /// Handle one byte from the ground state (also reached when a UTF-8
    /// sequence is abandoned by a non-continuation byte).
    fn do_ground(&mut self, b: u8, out: &mut Vec<Action>)
        requires
            old(self).wf(),
            old(self)@.state == ParseState::Ground,
        ensures
            final(self).wf(),
            final(self)@ == spec_ground(old(self)@, b).st,
            acts(final(out)@) == acts(old(out)@) + spec_ground(old(self)@, b).out,
    {
        let ghost out0 = out@;
        if b == 0x1b {
            self.clear_to(ParseState::Escape);
        } else if b < 0x20 {
            out.push(Action::Control(b));
        } else if b <= 0x7e {
            out.push(Action::Print(b as u32));
        } else if b == 0x7f {
            // DEL: silently ignored
        } else if 0xc2 <= b && b <= 0xdf {
            self.state = ParseState::Utf8 { need: 1, acc: (b - 0xc0) as u32 };
        } else if 0xe0 <= b && b <= 0xef {
            self.state = ParseState::Utf8 { need: 2, acc: (b - 0xe0) as u32 };
        } else if 0xf0 <= b && b <= 0xf4 {
            self.state = ParseState::Utf8 { need: 3, acc: (b - 0xf0) as u32 };
        } else {
            out.push(Action::Print(REPLACEMENT));
        }
        proof {
            assert(acts(out@) =~= acts(out0) + spec_ground(old(self)@, b).out);
        }
    }

    /// Feed one byte; append the resulting actions to `out`.
    fn step_byte(&mut self, b: u8, out: &mut Vec<Action>)
        requires
            old(self).wf(),
        ensures
            final(self).wf(),
            final(self)@ == step_spec(old(self)@, b).st,
            acts(final(out)@) == acts(old(out)@) + step_spec(old(self)@, b).out,
    {
        let ghost out0 = out@;
        match self.state {
            ParseState::Ground => {
                self.do_ground(b, out);
            },
            ParseState::Escape => {
                self.do_escape(b, out);
            },
            ParseState::Csi => {
                if b == 0x1b {
                    self.clear_to(ParseState::Escape);
                    out.push(Action::Ignored);
                } else if b < 0x20 {
                    out.push(Action::Control(b));
                } else if 0x30 <= b && b <= 0x39 {
                    let v: u32 = self.cur_param as u32 * 10 + (b - 0x30) as u32;
                    self.cur_param = if v > PARAM_LIMIT as u32 {
                        PARAM_LIMIT
                    } else {
                        v as u16
                    };
                } else if b == 0x3b {
                    if self.params.len() < MAX_PARAMS {
                        let cur = self.cur_param;
                        self.params.push(cur);
                    }
                    self.cur_param = 0;
                } else if b == 0x3a {
                    self.overflow = true;
                } else if (0x20 <= b && b <= 0x2f) || (0x3c <= b && b <= 0x3f) {
                    if self.intermediates.len() < MAX_INTERMEDIATES {
                        self.intermediates.push(b);
                    } else {
                        self.overflow = true;
                    }
                } else if 0x40 <= b && b <= 0x7e {
                    if self.params.len() < MAX_PARAMS {
                        let cur = self.cur_param;
                        self.params.push(cur);
                    }
                    if self.overflow {
                        out.push(Action::Ignored);
                    } else {
                        let mut params: Vec<u16> = Vec::new();
                        let mut inter: Vec<u8> = Vec::new();
                        core::mem::swap(&mut params, &mut self.params);
                        core::mem::swap(&mut inter, &mut self.intermediates);
                        out.push(Action::CsiDispatch(params, inter, b));
                    }
                    self.clear_to(ParseState::Ground);
                } else if b == 0x7f {
                    // ignored during CSI collection
                } else {
                    self.clear_to(ParseState::Ground);
                    out.push(Action::Ignored);
                }
            },
            ParseState::Osc => {
                if b == 0x07 {
                    if self.overflow {
                        out.push(Action::Ignored);
                    } else {
                        let mut osc: Vec<u8> = Vec::new();
                        core::mem::swap(&mut osc, &mut self.osc);
                        out.push(Action::OscDispatch(osc));
                    }
                    self.clear_to(ParseState::Ground);
                } else if b == 0x1b {
                    self.state = ParseState::OscEsc;
                } else if self.osc.len() < MAX_OSC {
                    self.osc.push(b);
                } else {
                    self.overflow = true;
                }
            },
            ParseState::OscEsc => {
                if b == 0x5c {
                    if self.overflow {
                        out.push(Action::Ignored);
                    } else {
                        let mut osc: Vec<u8> = Vec::new();
                        core::mem::swap(&mut osc, &mut self.osc);
                        out.push(Action::OscDispatch(osc));
                    }
                    self.clear_to(ParseState::Ground);
                } else {
                    out.push(Action::Ignored);
                    self.do_escape(b, out);
                }
            },
            ParseState::Dcs => {
                if b == 0x1b {
                    self.state = ParseState::DcsEsc;
                } else if self.osc.len() < MAX_OSC {
                    self.osc.push(b);
                } else {
                    self.overflow = true;
                }
            },
            ParseState::DcsEsc => {
                if b == 0x5c {
                    if self.overflow {
                        out.push(Action::Ignored);
                    } else {
                        let mut osc: Vec<u8> = Vec::new();
                        core::mem::swap(&mut osc, &mut self.osc);
                        out.push(Action::DcsDispatch(osc));
                    }
                    self.clear_to(ParseState::Ground);
                } else {
                    out.push(Action::Ignored);
                    self.do_escape(b, out);
                }
            },
            ParseState::Utf8 { need, acc } => {
                if 0x80 <= b && b <= 0xbf {
                    let acc2: u32 = acc * 64 + (b - 0x80) as u32;
                    if need == 1 {
                        self.state = ParseState::Ground;
                        let cp = if acc2 >= 0x80 && acc2 <= 0x10FFFF && !(0xD800 <= acc2
                            && acc2 <= 0xDFFF) {
                            acc2
                        } else {
                            REPLACEMENT
                        };
                        out.push(Action::Print(cp));
                    } else {
                        self.state = ParseState::Utf8 { need: need - 1, acc: acc2 };
                    }
                } else {
                    self.state = ParseState::Ground;
                    out.push(Action::Print(REPLACEMENT));
                    self.do_ground(b, out);
                }
            },
        }
        proof {
            assert(acts(out@) =~= acts(out0) + step_spec(old(self)@, b).out);
        }
    }

    /// Feed one chunk of bytes and return the actions it produced.  The
    /// contract says exactly that the chunk is processed by the per-byte
    /// fold `run_spec`, which is what makes the parser resumable.
    pub fn advance(&mut self, bytes: &[u8]) -> (out: Vec<Action>)
        requires
            old(self).wf(),
        ensures
            final(self).wf(),
            final(self)@ == run_spec(old(self)@, bytes@).st,
            acts(out@) == run_spec(old(self)@, bytes@).out,
    {
        let mut out: Vec<Action> = Vec::new();
        let mut i: usize = 0;
        proof {
            assert(bytes@.take(0) =~= Seq::<u8>::empty());
            assert(acts(out@) =~= Seq::<ActionV>::empty());
        }
        while i < bytes.len()
            invariant
                self.wf(),
                i <= bytes@.len(),
                self@ == run_spec(old(self)@, bytes@.take(i as int)).st,
                acts(out@) == run_spec(old(self)@, bytes@.take(i as int)).out,
            decreases bytes@.len() - i,
        {
            let ghost pre = self@;
            let ghost taken = bytes@.take(i as int);
            let b = bytes[i];
            self.step_byte(b, &mut out);
            proof {
                let single = seq![b];
                assert(bytes@.take(i as int + 1) =~= taken + single);
                lemma_parser_resumable(old(self)@, taken, single);
                assert(single.skip(1) =~= Seq::<u8>::empty());
                let fst = step_spec(pre, b);
                assert(single[0] == b);
                assert(run_spec(fst.st, single.skip(1)).st == fst.st);
                assert(run_spec(fst.st, single.skip(1)).out == Seq::<ActionV>::empty());
                assert(run_spec(pre, single).st == fst.st);
                assert(run_spec(pre, single).out =~= fst.out);
            }
            i = i + 1;
        }
        proof {
            assert(bytes@.take(bytes@.len() as int) =~= bytes@);
        }
        out
    }
}

} // verus!
