use xml_prettifier::event::{Event, EventKind};
use xml_prettifier::machine::{Formatter, FormatterState};

fn event(kind: EventKind, payload: &str) -> Event {
    Event { kind, payload: payload.as_bytes().to_vec() }
}

fn fed(events: &[(EventKind, &str)]) -> Formatter {
    let mut formatter = Formatter::new();
    for (kind, payload) in events {
        assert!(formatter.accepts(*kind));
        formatter.handle(&event(*kind, payload));
    }
    formatter
}

fn after(events: &[(EventKind, &str)]) -> (FormatterState, usize, String) {
    let formatter = fed(events);
    let state = formatter.state();
    let depth = formatter.depth();
    (state, depth, String::from_utf8(formatter.finish()).unwrap())
}

const OPEN_A: (EventKind, &str) = (EventKind::Open, "a");
const OPEN_B: (EventKind, &str) = (EventKind::Open, "b");
const CLOSE_A: (EventKind, &str) = (EventKind::Close, "a");
const CLOSE_B: (EventKind, &str) = (EventKind::Close, "b");
const EMPTY_C: (EventKind, &str) = (EventKind::SelfClosing, "c");
const TEXT: (EventKind, &str) = (EventKind::Text, "t");
const DECL: (EventKind, &str) = (EventKind::Declaration, "xml version=\"1.0\"");
const COMMENT: (EventKind, &str) = (EventKind::Comment, " note ");

#[test]
fn new_formatter_has_seen_nothing() {
    assert_eq!(after(&[]), (FormatterState::Init, 0, String::new()));
}

#[test]
fn end_of_input_changes_nothing_in_any_state() {
    let prefixes: [&[(EventKind, &str)]; 6] = [
        &[],
        &[OPEN_A],
        &[OPEN_A, TEXT],
        &[OPEN_A, CLOSE_A],
        &[OPEN_A, EMPTY_C],
        &[TEXT],
    ];
    for prefix in prefixes {
        let mut with_end = prefix.to_vec();
        with_end.push((EventKind::EndOfInput, ""));
        assert_eq!(after(&with_end), after(prefix));
    }
}

#[test]
fn comment_changes_nothing_in_any_state() {
    let prefixes: [&[(EventKind, &str)]; 6] = [
        &[],
        &[OPEN_A],
        &[OPEN_A, TEXT],
        &[OPEN_A, CLOSE_A],
        &[OPEN_A, EMPTY_C],
        &[TEXT],
    ];
    for prefix in prefixes {
        let mut with_comment = prefix.to_vec();
        with_comment.push(COMMENT);
        assert_eq!(after(&with_comment), after(prefix));
    }
}

#[test]
fn declaration_at_the_start_is_written_as_it_is() {
    assert_eq!(
        after(&[DECL]),
        (FormatterState::Init, 0, "<?xml version=\"1.0\"?>".to_string())
    );
    assert_eq!(
        after(&[DECL, DECL]),
        (FormatterState::Init, 0, "<?xml version=\"1.0\"?><?xml version=\"1.0\"?>".to_string())
    );
}

#[test]
fn declaration_elsewhere_is_not_covered() {
    assert_eq!(
        after(&[OPEN_A, DECL]),
        (FormatterState::Unknown, 1, "\n<a><?xml version=\"1.0\"?>".to_string())
    );
}

#[test]
fn open_starts_a_line_in_every_state() {
    assert_eq!(after(&[OPEN_A]), (FormatterState::AfterOpen, 1, "\n<a>".to_string()));
    assert_eq!(after(&[OPEN_A, OPEN_B]), (FormatterState::AfterOpen, 2, "\n<a>\n  <b>".to_string()));
    assert_eq!(
        after(&[OPEN_A, TEXT, OPEN_B]),
        (FormatterState::AfterOpen, 2, "\n<a>t\n  <b>".to_string())
    );
    assert_eq!(
        after(&[OPEN_A, CLOSE_A, OPEN_B]),
        (FormatterState::AfterOpen, 1, "\n<a></a>\n<b>".to_string())
    );
    assert_eq!(
        after(&[OPEN_A, EMPTY_C, OPEN_B]),
        (FormatterState::AfterOpen, 2, "\n<a>\n  <c/>\n  <b>".to_string())
    );
    assert_eq!(after(&[TEXT, OPEN_A]), (FormatterState::AfterOpen, 1, "t\n<a>".to_string()));
    assert_eq!(
        after(&[DECL, OPEN_A]),
        (FormatterState::AfterOpen, 1, "<?xml version=\"1.0\"?>\n<a>".to_string())
    );
}

#[test]
fn text_after_open_stays_inline() {
    assert_eq!(after(&[OPEN_A, TEXT]), (FormatterState::AfterText, 1, "\n<a>t".to_string()));
}

#[test]
fn close_after_text_stays_inline() {
    assert_eq!(
        after(&[OPEN_A, TEXT, CLOSE_A]),
        (FormatterState::AfterClose, 0, "\n<a>t</a>".to_string())
    );
}

#[test]
fn close_after_close_gets_its_own_line_at_the_parent_depth() {
    assert_eq!(
        after(&[OPEN_A, OPEN_B, CLOSE_B, CLOSE_A]),
        (FormatterState::AfterClose, 0, "\n<a>\n  <b></b>\n</a>".to_string())
    );
}

#[test]
fn self_closing_after_open_gets_its_own_line() {
    assert_eq!(
        after(&[OPEN_A, EMPTY_C]),
        (FormatterState::AfterInline, 1, "\n<a>\n  <c/>".to_string())
    );
}

#[test]
fn close_after_open_stays_inline() {
    assert_eq!(after(&[OPEN_A, CLOSE_A]), (FormatterState::AfterClose, 0, "\n<a></a>".to_string()));
}

#[test]
fn self_closing_after_close_gets_its_own_line() {
    assert_eq!(
        after(&[OPEN_A, OPEN_B, CLOSE_B, EMPTY_C]),
        (FormatterState::AfterInline, 1, "\n<a>\n  <b></b>\n  <c/>".to_string())
    );
}

#[test]
fn close_after_self_closing_gets_its_own_line() {
    assert_eq!(
        after(&[OPEN_A, EMPTY_C, CLOSE_A]),
        (FormatterState::AfterClose, 0, "\n<a>\n  <c/>\n</a>".to_string())
    );
}

#[test]
fn self_closing_after_self_closing_gets_its_own_line() {
    assert_eq!(
        after(&[OPEN_A, EMPTY_C, EMPTY_C]),
        (FormatterState::AfterInline, 1, "\n<a>\n  <c/>\n  <c/>".to_string())
    );
}

#[test]
fn anything_else_is_written_as_it_is() {
    assert_eq!(after(&[TEXT]), (FormatterState::Unknown, 0, "t".to_string()));
    assert_eq!(after(&[EMPTY_C]), (FormatterState::Unknown, 0, "<c/>".to_string()));
    assert_eq!(after(&[CLOSE_A]), (FormatterState::Unknown, 0, "</a>".to_string()));
    assert_eq!(
        after(&[OPEN_A, TEXT, TEXT]),
        (FormatterState::Unknown, 1, "\n<a>tt".to_string())
    );
    assert_eq!(
        after(&[OPEN_A, TEXT, EMPTY_C]),
        (FormatterState::Unknown, 1, "\n<a>t<c/>".to_string())
    );
    assert_eq!(
        after(&[OPEN_A, CLOSE_A, TEXT]),
        (FormatterState::Unknown, 0, "\n<a></a>t".to_string())
    );
    assert_eq!(
        after(&[OPEN_A, EMPTY_C, TEXT]),
        (FormatterState::Unknown, 1, "\n<a>\n  <c/>t".to_string())
    );
    assert_eq!(
        after(&[OPEN_A, (EventKind::CData, "x")]),
        (FormatterState::Unknown, 1, "\n<a><![CDATA[x]]>".to_string())
    );
    assert_eq!(
        after(&[(EventKind::Instruction, "go now")]),
        (FormatterState::Unknown, 0, "<?go now?>".to_string())
    );
    assert_eq!(
        after(&[(EventKind::DocType, " html")]),
        (FormatterState::Unknown, 0, "<!DOCTYPE html>".to_string())
    );
}

#[test]
fn close_without_layout_leaves_the_depth() {
    assert_eq!(
        after(&[OPEN_A, TEXT, EMPTY_C, CLOSE_A]),
        (FormatterState::Unknown, 1, "\n<a>t<c/></a>".to_string())
    );
    assert_eq!(
        after(&[OPEN_A, TEXT, EMPTY_C, CLOSE_A, CLOSE_A]),
        (FormatterState::Unknown, 1, "\n<a>t<c/></a></a>".to_string())
    );
}

#[test]
fn close_is_refused_only_where_it_would_leave_no_element() {
    assert!(!fed(&[OPEN_A, CLOSE_A]).accepts(EventKind::Close));
    assert!(!fed(&[OPEN_A, OPEN_B, CLOSE_B, CLOSE_A]).accepts(EventKind::Close));
    assert!(fed(&[OPEN_A]).accepts(EventKind::Close));
    assert!(fed(&[OPEN_A, TEXT]).accepts(EventKind::Close));
    assert!(fed(&[OPEN_A, EMPTY_C]).accepts(EventKind::Close));
    assert!(fed(&[OPEN_A, OPEN_B, CLOSE_B]).accepts(EventKind::Close));
    assert!(fed(&[]).accepts(EventKind::Close));
    assert!(fed(&[TEXT]).accepts(EventKind::Close));
}

#[test]
fn every_other_kind_is_always_taken() {
    let kinds = [
        EventKind::Declaration,
        EventKind::Open,
        EventKind::SelfClosing,
        EventKind::Text,
        EventKind::Comment,
        EventKind::CData,
        EventKind::Instruction,
        EventKind::DocType,
        EventKind::EndOfInput,
    ];
    for kind in kinds {
        assert!(fed(&[]).accepts(kind));
        assert!(fed(&[OPEN_A, CLOSE_A]).accepts(kind));
        assert!(fed(&[TEXT]).accepts(kind));
    }
}

#[test]
fn depth_follows_the_nesting_and_ends_at_zero() {
    let events = [
        OPEN_A, OPEN_B, TEXT, CLOSE_B, OPEN_B, EMPTY_C, COMMENT, CLOSE_B, CLOSE_A,
    ];
    let expected = [1, 2, 2, 1, 2, 2, 2, 1, 0];
    let mut formatter = Formatter::new();
    assert_eq!(formatter.depth(), 0);
    for (step, (kind, payload)) in events.iter().enumerate() {
        assert!(formatter.accepts(*kind));
        formatter.handle(&event(*kind, payload));
        assert_eq!(formatter.depth(), expected[step]);
    }
}

#[test]
fn deep_nesting_indents_two_spaces_a_level() {
    let mut formatter = Formatter::new();
    for _ in 0..40 {
        formatter.handle(&event(EventKind::Open, "n"));
    }
    assert_eq!(formatter.depth(), 40);
    let text = String::from_utf8(formatter.finish()).unwrap();
    let last = text.lines().last().unwrap();
    assert_eq!(last, format!("{}<n>", " ".repeat(78)));
}
