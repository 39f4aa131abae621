use termcore::cell::{glyph_width, Cell, CellAttributes, ColorRef};
use termcore::in_range;
use termcore::device_ident;
use termcore::parser::{Action, Parser};
use termcore::screen::Screen;
use termcore::selection::{Granularity, ScrollIntent, Selection, SelectionCoordinate};
use termcore::terminal::TerminalState;
use termcore::{Position, TermError};

fn term(rows: usize, cols: usize) -> TerminalState {
    TerminalState::new(rows, cols, 100, Vec::new()).unwrap()
}

fn row_text(t: &TerminalState, y: i64) -> String {
    let phys = t.screen.phys_row(y);
    let mut s = String::new();
    for x in 0..t.screen.cols {
        let c = t.screen.get_cell(phys, x);
        if c.width > 0 {
            s.push(char::from_u32(c.cp).unwrap_or('?'));
        }
    }
    s
}

#[test]
fn in_range_works() {
    assert!(in_range(5u32, &(1u32..10u32)));
    assert!(!in_range(10u32, &(1u32..10u32)));
    assert!(!in_range(0u32, &(1u32..10u32)));
}

#[test]
fn device_ident_is_vt102() {
    assert_eq!(device_ident(), b"\x1b[?6c".to_vec());
}

#[test]
fn glyph_widths() {
    assert_eq!(glyph_width(0x61), 1); // 'a'
    assert_eq!(glyph_width(0x4E00), 2); // CJK
    assert_eq!(glyph_width(0x3042), 2); // hiragana
    assert_eq!(glyph_width(0x0301), 0); // combining acute
}

#[test]
fn zero_geometry_is_loud() {
    assert!(matches!(
        TerminalState::new(0, 80, 100, Vec::new()),
        Err(TermError::ZeroRows)
    ));
    assert!(matches!(
        TerminalState::new(24, 0, 100, Vec::new()),
        Err(TermError::ZeroCols)
    ));
    let mut t = term(4, 6);
    assert!(matches!(t.resize(0, 6), Err(TermError::ZeroRows)));
    assert!(matches!(t.resize(4, 0), Err(TermError::ZeroCols)));
}

#[test]
fn print_and_cursor() {
    let mut t = term(5, 10);
    t.advance_bytes(b"ab");
    assert_eq!(row_text(&t, 0), "ab        ");
    let c = t.cursor_position();
    assert_eq!((c.x, c.y), (2, 0));
}

// Writing "ab", then cursor-left 2 (clamped), then erase to end of line
// leaves the row as default-attribute blanks.
#[test]
fn erase_to_end_after_cursor_left() {
    let mut t = term(5, 10);
    t.advance_bytes(b"ab\x1b[2D\x1b[K");
    let phys = t.screen.phys_row(0);
    for x in 0..2 {
        let c = t.screen.get_cell(phys, x);
        assert_eq!(c.cp, 0x20);
        assert_eq!(c.width, 1);
        assert_eq!(c.attrs, CellAttributes::plain());
        assert_eq!(c.link, None);
    }
    assert_eq!(t.cursor_position().x, 0);
}

// A full-width glyph written at the last column with autowrap on wraps
// whole to the next row; it is never split across rows.
#[test]
fn wide_glyph_wraps_whole() {
    let mut t = term(5, 4);
    t.advance_bytes(b"abc");
    assert_eq!(t.cursor_position().x, 3);
    t.advance_bytes("\u{3042}".as_bytes());
    let p0 = t.screen.phys_row(0);
    let p1 = t.screen.phys_row(1);
    // the first row keeps "abc" and a blank; nothing of the glyph is there
    assert_eq!(t.screen.get_cell(p0, 3).cp, 0x20);
    // the glyph sits whole at the start of the next row
    let lead = t.screen.get_cell(p1, 0);
    let trailer = t.screen.get_cell(p1, 1);
    assert_eq!(lead.cp, 0x3042);
    assert_eq!(lead.width, 2);
    assert_eq!(trailer.width, 0);
    assert!(t.screen.is_soft_wrapped(p1));
}

#[test]
fn overwriting_half_a_wide_glyph_blanks_the_other_half() {
    let mut t = term(5, 10);
    t.advance_bytes("\u{4E00}".as_bytes());
    // overwrite the placeholder column: the lead must be blanked
    t.advance_bytes(b"\x1b[1;2Hx");
    let p0 = t.screen.phys_row(0);
    assert_eq!(t.screen.get_cell(p0, 0).cp, 0x20);
    assert_eq!(t.screen.get_cell(p0, 0).width, 1);
    assert_eq!(t.screen.get_cell(p0, 1).cp, 0x78);
}

#[test]
fn cursor_motions_clamp() {
    let mut t = term(5, 10);
    t.advance_bytes(b"\x1b[999;999H");
    let c = t.cursor_position();
    assert_eq!((c.x, c.y), (9, 4));
    t.advance_bytes(b"\x1b[99D\x1b[99A");
    let c = t.cursor_position();
    assert_eq!((c.x, c.y), (0, 0));
}

#[test]
fn scroll_region_clamps_inverted_operands() {
    let mut t = term(10, 20);
    t.advance_bytes(b"\x1b[5;2r");
    assert!(t.scroll_top <= t.scroll_bottom);
    assert!(t.scroll_bottom < 10);
}

#[test]
fn device_attributes_answered() {
    let mut t = term(5, 10);
    t.advance_bytes(b"\x1b[c");
    assert_eq!(t.take_answerback(), b"\x1b[?6c".to_vec());
    assert_eq!(t.take_answerback(), Vec::<u8>::new());
}

#[test]
fn resolve_position_clamps() {
    let t = term(5, 10);
    assert_eq!(t.resolve_position(&Position::Relative(-100)), 0);
    assert_eq!(t.resolve_position(&Position::Relative(100)), 4);
    assert_eq!(t.resolve_position(&Position::Absolute(2)), 2);
    assert_eq!(t.resolve_position(&Position::Absolute(-7)), 0);
}

fn acts_digest(v: &[Action]) -> String {
    format!("{:?}", v)
}

// Feeding an escape sequence in one chunk and split at every byte
// boundary yields identical actions.
#[test]
fn parser_resumes_across_chunk_boundaries() {
    let stream: &[u8] = b"hi\x1b[1;31mred\x1b]8;;http://e\x07x\x1b[0m\xe3\x81\x82!";
    let mut whole = Parser::new();
    let expected = acts_digest(&whole.advance(stream));
    for split in 0..stream.len() {
        let mut p = Parser::new();
        let mut got = p.advance(&stream[..split]);
        got.extend(p.advance(&stream[split..]));
        assert_eq!(acts_digest(&got), expected, "split at {}", split);
    }
}

#[test]
fn parser_truncates_excess_params() {
    let mut p = Parser::new();
    let out = p.advance(b"\x1b[1;2;3;4;5;6;7;8;9;10;11;12;13;14;15;16;17;18;19;20m");
    match &out[0] {
        Action::CsiDispatch(params, _, fin) => {
            assert_eq!(*fin, b'm');
            assert_eq!(params.len(), 16);
            assert_eq!(params[0], 1);
            assert_eq!(params[15], 16);
        }
        other => panic!("unexpected action {:?}", other),
    }
}

#[test]
fn parser_recovers_from_malformed_sequences() {
    let mut t = term(5, 10);
    // an aborted CSI, a stray ESC, invalid UTF-8: all absorbed
    t.advance_bytes(b"\x1b[12\x1b\xff\xc3(ok");
    assert!(row_text(&t, 0).contains("ok"));
}

#[test]
fn scrollback_trims_to_limit() {
    let mut t = TerminalState::new(2, 5, 3, Vec::new()).unwrap();
    for _ in 0..10 {
        t.advance_bytes(b"x\n");
    }
    assert!(t.screen.lines.len() <= 2 + 3);
    assert!(t.screen.lines.len() >= 2);
}

#[test]
fn sgr_sets_pen() {
    let mut t = term(5, 10);
    t.advance_bytes(b"\x1b[1;4;31mZ");
    let p0 = t.screen.phys_row(0);
    let c = t.screen.get_cell(p0, 0);
    assert!(c.attrs.bold);
    assert!(c.attrs.underline);
    assert_eq!(c.attrs.fg, ColorRef::Indexed(1));
    t.advance_bytes(b"\x1b[0mz");
    let c2 = t.screen.get_cell(p0, 1);
    assert_eq!(c2.attrs, CellAttributes::plain());
}

#[test]
fn tabs_stop_every_eight() {
    let mut t = term(5, 20);
    t.advance_bytes(b"\tX");
    let p0 = t.screen.phys_row(0);
    assert_eq!(t.screen.get_cell(p0, 8).cp, b'X' as u32);
}

// Resizing to a narrower width and back preserves the logical text.
#[test]
fn reflow_round_trip_preserves_text() {
    let mut t = term(4, 6);
    t.advance_bytes(b"hello\r\nworld");
    assert_eq!(row_text(&t, 0), "hello ");
    assert_eq!(row_text(&t, 1), "world ");
    t.resize(4, 3).unwrap();
    t.resize(4, 6).unwrap();
    assert_eq!(row_text(&t, 0), "hello ");
    assert_eq!(row_text(&t, 1), "world ");
}

#[test]
fn reflow_rewraps_soft_lines() {
    let mut t = term(4, 6);
    t.advance_bytes(b"abcdefgh");
    // autowrap split it as "abcdef" / "gh"
    assert_eq!(row_text(&t, 0), "abcdef");
    assert_eq!(row_text(&t, 1), "gh    ");
    t.resize(4, 4).unwrap();
    assert_eq!(row_text(&t, 0), "abcd");
    assert_eq!(row_text(&t, 1), "efgh");
}

#[test]
fn resize_clears_selection_and_region() {
    let mut t = term(6, 10);
    t.selection.begin(SelectionCoordinate { x: 1, y: 1 }, Granularity::Character);
    t.advance_bytes(b"\x1b[2;4r");
    t.resize(8, 12).unwrap();
    assert!(t.selection.anchor.is_none());
    assert_eq!(t.scroll_top, 0);
    assert_eq!(t.scroll_bottom, 7);
}

// Whatever the order of begin and extend coordinates, the reported range
// runs start-before-end.
#[test]
fn selection_normalizes_direction() {
    let screen = Screen::new(5, 10, 10).unwrap();
    let mut sel = Selection::new();
    sel.begin(SelectionCoordinate { x: 3, y: 2 }, Granularity::Character);
    let intent = sel.extend(SelectionCoordinate { x: 1, y: 1 }, 5);
    assert_eq!(intent, ScrollIntent::Stay);
    let r = sel.current_range(&screen).unwrap();
    assert_eq!((r.start.x, r.start.y), (1, 1));
    assert_eq!((r.end.x, r.end.y), (3, 2));
    // same row, dragged right-to-left
    sel.begin(SelectionCoordinate { x: 7, y: 0 }, Granularity::Character);
    sel.extend(SelectionCoordinate { x: 2, y: 0 }, 5);
    let r = sel.current_range(&screen).unwrap();
    assert!(r.start.x <= r.end.x);
}

#[test]
fn selection_reports_scroll_intent() {
    let mut sel = Selection::new();
    sel.begin(SelectionCoordinate { x: 0, y: 0 }, Granularity::Character);
    assert_eq!(sel.extend(SelectionCoordinate { x: 0, y: -3 }, 5), ScrollIntent::Up(3));
    assert_eq!(sel.extend(SelectionCoordinate { x: 0, y: 9 }, 5), ScrollIntent::Down(5));
}

#[test]
fn selection_word_expansion() {
    let mut t = term(5, 12);
    t.advance_bytes(b"foo bar baz");
    let mut sel = Selection::new();
    sel.begin(SelectionCoordinate { x: 5, y: 0 }, Granularity::Word);
    sel.extend(SelectionCoordinate { x: 5, y: 0 }, 5);
    let r = sel.current_range(&t.screen).unwrap();
    assert_eq!(r.start.x, 4);
    assert_eq!(r.end.x, 6);
}

#[test]
fn selection_block_orders_both_axes() {
    let screen = Screen::new(5, 10, 10).unwrap();
    let mut sel = Selection::new();
    sel.begin(SelectionCoordinate { x: 8, y: 1 }, Granularity::Block);
    sel.extend(SelectionCoordinate { x: 2, y: 3 }, 5);
    let r = sel.current_range(&screen).unwrap();
    assert_eq!((r.start.x, r.start.y), (2, 1));
    assert_eq!((r.end.x, r.end.y), (8, 3));
}

#[test]
fn explicit_hyperlinks_attach_to_cells() {
    let mut t = term(5, 10);
    t.advance_bytes(b"\x1b]8;;http://e\x07hi\x1b]8;;\x07!");
    let p0 = t.screen.phys_row(0);
    let c0 = t.screen.get_cell(p0, 0);
    let c1 = t.screen.get_cell(p0, 1);
    let c2 = t.screen.get_cell(p0, 2);
    let id = c0.link.expect("first cell should carry the link");
    assert_eq!(c1.link, Some(id));
    assert_eq!(c2.link, None);
    assert_eq!(t.links.uri_of(id).unwrap(), b"http://e".to_vec());
}

#[test]
fn implicit_pattern_links_modified_line() {
    let pattern: Vec<u32> = "www".chars().map(|c| c as u32).collect();
    let mut t = TerminalState::new(5, 16, 10, vec![pattern]).unwrap();
    t.advance_bytes(b"go www now");
    let p0 = t.screen.phys_row(0);
    for x in 3..6 {
        assert!(t.screen.get_cell(p0, x).link.is_some(), "column {}", x);
    }
    assert!(t.screen.get_cell(p0, 0).link.is_none());
}

#[test]
fn insert_mode_shifts_right() {
    let mut t = term(5, 8);
    t.advance_bytes(b"abcd\x1b[1;1H\x1b[4hX");
    assert_eq!(row_text(&t, 0), "Xabcd   ");
    t.advance_bytes(b"\x1b[4l");
    let mut u = term(5, 8);
    u.advance_bytes(b"abcd\x1b[1;1HX");
    assert_eq!(row_text(&u, 0), "Xbcd    ");
}

#[test]
fn erase_display_clears_rows() {
    let mut t = term(3, 5);
    t.advance_bytes(b"aaaa\r\nbbbb\r\ncccc\x1b[2;2H\x1b[J");
    assert_eq!(row_text(&t, 0), "aaaa ");
    assert_eq!(row_text(&t, 1), "b    ");
    assert_eq!(row_text(&t, 2), "     ");
}

#[test]
fn default_cursor_is_origin() {
    let c = termcore::CursorPosition::default();
    assert_eq!((c.x, c.y), (0, 0));
}

#[test]
fn cell_blank_is_default_space() {
    let b = Cell::blank();
    assert_eq!(b.cp, 0x20);
    assert_eq!(b.width, 1);
    assert_eq!(b.attrs, CellAttributes::default());
}

#[test]
fn line_feed_scrolls_inside_region() {
    let mut t = term(5, 4);
    t.advance_bytes(b"a\r\nb\r\nc");
    // region rows 2..3 (1-based), cursor home, then LF from region bottom
    t.advance_bytes(b"\x1b[2;3r");
    t.advance_bytes(b"\x1b[3;1H\n");
    // row 1 ("b") scrolled out of the region, row 2 became blank
    assert_eq!(row_text(&t, 0), "a   ");
    assert_eq!(row_text(&t, 1), "c   ");
    assert_eq!(row_text(&t, 2), "    ");
}

#[test]
fn reverse_index_scrolls_down_at_top() {
    let mut t = term(3, 4);
    t.advance_bytes(b"a\r\nb\r\nc\x1b[1;1H\x1bM");
    assert_eq!(row_text(&t, 0), "    ");
    assert_eq!(row_text(&t, 1), "a   ");
    assert_eq!(row_text(&t, 2), "b   ");
}

#[test]
fn origin_mode_homes_to_region() {
    let mut t = term(10, 20);
    t.advance_bytes(b"\x1b[3;6r\x1b[?6h\x1b[1;1H");
    let c = t.cursor_position();
    assert_eq!(c.y, 2); // region top (row 3, 1-based)
    t.advance_bytes(b"\x1b[99;1H");
    assert_eq!(t.cursor_position().y, 5); // clamped to region bottom
}

#[test]
fn insert_and_delete_chars() {
    let mut t = term(3, 8);
    t.advance_bytes(b"abcdef\x1b[1;2H\x1b[2@");
    assert_eq!(row_text(&t, 0), "a  bcdef"[..8].to_string());
    t.advance_bytes(b"\x1b[1;2H\x1b[2P");
    assert_eq!(row_text(&t, 0), "abcdef  ");
}

#[test]
fn reflow_handles_wide_glyphs_cleanly() {
    let mut t = term(4, 8);
    t.advance_bytes("\u{4E00}\u{4E8C}ab".as_bytes());
    t.resize(4, 4).unwrap();
    // two columns per glyph: the pair fills the oldest row exactly, and
    // the overflow moved to a soft continuation row
    assert_eq!(t.screen.get_cell(0, 0).cp, 0x4E00);
    assert_eq!(t.screen.get_cell(0, 0).width, 2);
    assert_eq!(t.screen.get_cell(0, 1).width, 0);
    assert_eq!(t.screen.get_cell(0, 2).cp, 0x4E8C);
    assert_eq!(t.screen.get_cell(1, 0).cp, b'a' as u32);
    assert!(t.screen.is_soft_wrapped(1));
    t.resize(4, 8).unwrap();
    assert_eq!(t.screen.get_cell(0, 0).cp, 0x4E00);
    assert_eq!(t.screen.get_cell(0, 4).cp, b'a' as u32);
    assert_eq!(t.screen.get_cell(0, 5).cp, b'b' as u32);
}

#[test]
fn osc_without_terminator_stays_pending() {
    let mut t = term(3, 10);
    t.advance_bytes(b"\x1b]0;title");
    // nothing printed yet: the OSC string is still collecting
    assert_eq!(row_text(&t, 0), "          ");
    t.advance_bytes(b"\x07ok");
    assert_eq!(row_text(&t, 0), "ok        ");
}

#[test]
fn tab_stops_can_be_set_and_cleared() {
    let mut t = term(3, 20);
    // clear all stops, set one at column 5, tab reaches it
    t.advance_bytes(b"\x1b[3g\x1b[1;6H\x1bH\x1b[1;1H\tY");
    let p0 = t.screen.phys_row(0);
    assert_eq!(t.screen.get_cell(p0, 5).cp, b'Y' as u32);
}

#[test]
fn save_and_restore_cursor() {
    let mut t = term(5, 10);
    t.advance_bytes(b"\x1b[3;4H\x1b7\x1b[1;1H\x1b8");
    let c = t.cursor_position();
    assert_eq!((c.x, c.y), (3, 2));
}

#[test]
fn hyperlinks_reclaimed_when_rows_scroll_out() {
    let mut t = TerminalState::new(2, 10, 0, Vec::new()).unwrap();
    t.advance_bytes(b"\x1b]8;;http://gone\x07L\x1b]8;;\x07");
    let p0 = t.screen.phys_row(0);
    let id = t.screen.get_cell(p0, 0).link.unwrap();
    assert!(t.links.uri_of(id).is_some());
    // scroll the linked row out of the zero-depth scrollback
    t.advance_bytes(b"\n\n\n");
    assert!(t.links.uri_of(id).is_none());
}

#[test]
fn line_selection_follows_soft_wrap_seam() {
    let mut t = term(4, 4);
    t.advance_bytes(b"abcdef");
    // "abcdef" wrapped as "abcd" / "ef": one logical line
    let mut sel = Selection::new();
    sel.begin(SelectionCoordinate { x: 1, y: 1 }, Granularity::Line);
    sel.extend(SelectionCoordinate { x: 1, y: 1 }, 4);
    let r = sel.current_range(&t.screen).unwrap();
    assert_eq!((r.start.x, r.start.y), (0, 0));
    assert_eq!((r.end.x, r.end.y), (3, 1));
}

#[test]
fn scrollback_rows_stay_addressable() {
    let mut t = TerminalState::new(2, 4, 5, Vec::new()).unwrap();
    t.advance_bytes(b"one\r\ntwo\r\nthr");
    // "one" is above the window now: negative scrollback coordinates
    let p = t.screen.phys_row_from_scrollback(-1);
    let mut s = String::new();
    for x in 0..3 {
        s.push(char::from_u32(t.screen.get_cell(p, x).cp).unwrap());
    }
    assert_eq!(s, "one");
}
