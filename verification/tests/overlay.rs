use iota_core::Key;
use iota_core::Overlay;
use iota_core::OverlayEvent;
use iota_core::OverlayType;
use iota_core::UIBuffer;

fn cursor_col(o: &mut Overlay) -> isize {
    o.get_cursor_pos(0).expect("active overlay has a cursor").0
}

#[test]
fn prompt_scenario_hi_backspace_o_enter() {
    let mut o = Overlay::new(OverlayType::Prompt, "> ");
    assert_eq!(o.handle_key_event(Key::Char('h')), OverlayEvent::Editing);
    assert_eq!(cursor_col(&mut o), 1);
    assert_eq!(o.handle_key_event(Key::Char('i')), OverlayEvent::Editing);
    assert_eq!(cursor_col(&mut o), 2);
    assert_eq!(o.handle_key_event(Key::Backspace), OverlayEvent::Editing);
    assert_eq!(cursor_col(&mut o), 1);
    assert_eq!(o.handle_key_event(Key::Char('o')), OverlayEvent::Editing);
    assert_eq!(cursor_col(&mut o), 2);
    let ev = o.handle_key_event(Key::Enter);
    assert_eq!(ev, OverlayEvent::Finished(Some(String::from("ho"))));
}

#[test]
fn backspace_on_empty_value_changes_nothing() {
    let mut o = Overlay::new(OverlayType::Prompt, "> ");
    assert_eq!(o.handle_key_event(Key::Backspace), OverlayEvent::Editing);
    assert_eq!(cursor_col(&mut o), 0);
    let ev = o.handle_key_event(Key::Enter);
    assert_eq!(ev, OverlayEvent::Finished(Some(String::new())));
}

#[test]
fn escape_cancels_and_discards_the_value() {
    let mut o = Overlay::new(OverlayType::SelectFile, "open: ");
    o.handle_key_event(Key::Char('a'));
    o.handle_key_event(Key::Char('b'));
    let ev = o.handle_key_event(Key::Esc);
    assert_eq!(ev, OverlayEvent::Finished(None));
    // the overlay is inactive now: the discarded text is not retrievable
    assert_eq!(o.get_cursor_pos(7), None);
    assert_eq!(o.handle_key_event(Key::Enter), OverlayEvent::Editing);
}

#[test]
fn enter_commits_exactly_the_accumulated_text() {
    let mut o = Overlay::new(OverlayType::SavePrompt, "Save as: ");
    o.handle_key_event(Key::Char('a'));
    o.handle_key_event(Key::Char('b'));
    o.handle_key_event(Key::Char('c'));
    o.handle_key_event(Key::Backspace);
    o.handle_key_event(Key::Char('d'));
    let ev = o.handle_key_event(Key::Enter);
    assert_eq!(ev, OverlayEvent::Finished(Some(String::from("abd"))));
}

#[test]
fn wide_character_moves_cursor_two_columns() {
    let mut o = Overlay::new(OverlayType::Prompt, "> ");
    o.handle_key_event(Key::Char('\u{597d}'));
    assert_eq!(cursor_col(&mut o), 2);
    o.handle_key_event(Key::Char('x'));
    assert_eq!(cursor_col(&mut o), 3);
    o.handle_key_event(Key::Backspace);
    assert_eq!(cursor_col(&mut o), 2);
    o.handle_key_event(Key::Backspace);
    assert_eq!(cursor_col(&mut o), 0);
}

#[test]
fn unmeasurable_character_is_kept_but_cursor_stays() {
    let mut o = Overlay::new(OverlayType::Prompt, "> ");
    o.handle_key_event(Key::Char('\u{1}'));
    assert_eq!(cursor_col(&mut o), 0);
    let ev = o.handle_key_event(Key::Enter);
    assert_eq!(ev, OverlayEvent::Finished(Some(String::from("\u{1}"))));
}

#[test]
fn other_keys_are_ignored() {
    let mut o = Overlay::new(OverlayType::Prompt, "> ");
    o.handle_key_event(Key::Char('z'));
    assert_eq!(o.handle_key_event(Key::Up), OverlayEvent::Editing);
    assert_eq!(o.handle_key_event(Key::Tab), OverlayEvent::Editing);
    assert_eq!(o.handle_key_event(Key::Ctrl('c')), OverlayEvent::Editing);
    assert_eq!(cursor_col(&mut o), 1);
    let ev = o.handle_key_event(Key::Enter);
    assert_eq!(ev, OverlayEvent::Finished(Some(String::from("z"))));
}

#[test]
fn inactive_overlay_consumes_nothing() {
    let mut o = Overlay::Inactive;
    assert_eq!(o.handle_key_event(Key::Char('a')), OverlayEvent::Editing);
    assert_eq!(o.handle_key_event(Key::Enter), OverlayEvent::Editing);
    assert_eq!(o.get_cursor_pos(3), None);
}

#[test]
fn cursor_is_pinned_to_the_given_row() {
    let mut o = Overlay::new(OverlayType::Prompt, "> ");
    o.handle_key_event(Key::Char('q'));
    assert_eq!(o.get_cursor_pos(23), Some((1, 23)));
}

#[test]
fn draw_writes_prefix_then_value_on_one_row() {
    let mut buf = UIBuffer::new(20, 5);
    let mut o = Overlay::new(OverlayType::SavePrompt, "Save as: ");
    for c in "f.txt".chars() {
        o.handle_key_event(Key::Char(c));
    }
    o.draw(&mut buf, 4);
    let expected: Vec<char> = "Save as: f.txt".chars().collect();
    for (col, want) in expected.iter().enumerate() {
        let cell = buf.get_cell(col, 4);
        assert_eq!(cell.ch, *want);
        assert!(cell.dirty);
    }
    // the rest of the target row is untouched
    for col in expected.len()..20 {
        let cell = buf.get_cell(col, 4);
        assert_eq!(cell.ch, ' ');
        assert!(!cell.dirty);
    }
    // no other row is modified
    for row in 0..4 {
        for col in 0..20 {
            let cell = buf.get_cell(col, row);
            assert_eq!(cell.ch, ' ');
            assert!(!cell.dirty);
        }
    }
}

#[test]
fn draw_skips_columns_outside_the_grid() {
    let mut buf = UIBuffer::new(4, 2);
    let mut o = Overlay::new(OverlayType::Prompt, "> ");
    for c in "abcdef".chars() {
        o.handle_key_event(Key::Char(c));
    }
    o.draw(&mut buf, 1);
    assert_eq!(buf.get_cell(0, 1).ch, '>');
    assert_eq!(buf.get_cell(1, 1).ch, ' ');
    assert_eq!(buf.get_cell(2, 1).ch, 'a');
    assert_eq!(buf.get_cell(3, 1).ch, 'b');
    for col in 0..4 {
        assert!(!buf.get_cell(col, 0).dirty);
    }
}

#[test]
fn draw_of_inactive_overlay_changes_nothing() {
    let mut buf = UIBuffer::new(6, 3);
    let o = Overlay::Inactive;
    o.draw(&mut buf, 2);
    for row in 0..3 {
        for col in 0..6 {
            let cell = buf.get_cell(col, row);
            assert_eq!(cell.ch, ' ');
            assert!(!cell.dirty);
        }
    }
}

#[test]
fn purposes_share_behaviour_and_keep_their_tag() {
    for purpose in [OverlayType::Prompt, OverlayType::SavePrompt, OverlayType::SelectFile] {
        let mut o = Overlay::new(purpose, "p: ");
        match &o {
            Overlay::Prompt { .. } => assert_eq!(purpose, OverlayType::Prompt),
            Overlay::SavePrompt { .. } => assert_eq!(purpose, OverlayType::SavePrompt),
            Overlay::SelectFile { .. } => assert_eq!(purpose, OverlayType::SelectFile),
            Overlay::Inactive => panic!("a fresh overlay is active"),
        }
        o.handle_key_event(Key::Char('y'));
        let ev = o.handle_key_event(Key::Enter);
        assert_eq!(ev, OverlayEvent::Finished(Some(String::from("y"))));
    }
}
