//! Key presses and what they ask for.

use termpdf::commands::Command;
use termpdf::input::{
    map_event, EventMapper, InputEvent, InputMode, KeyCode, KeyInput, KeyModifiers, UiEvent,
    MOD_ALT, MOD_CONTROL, MOD_NONE, MOD_SHIFT, PAN_STEP, ZOOM_IN, ZOOM_OUT,
};

fn key_event(code: KeyCode) -> InputEvent {
    key_event_with_modifiers(code, KeyModifiers { bits: MOD_NONE })
}

fn key_event_with_modifiers(code: KeyCode, modifiers: KeyModifiers) -> InputEvent {
    InputEvent::Key(KeyInput { code, modifiers })
}

#[test]
fn event_mapper_uses_numeric_prefix_for_next_page() {
    let mut mapper = EventMapper::new();
    assert!(matches!(
        mapper.map_event(key_event(KeyCode::Char('1'))),
        UiEvent::Nothing
    ));
    assert!(matches!(
        mapper.map_event(key_event(KeyCode::Char('2'))),
        UiEvent::Nothing
    ));

    match mapper.map_event(key_event(KeyCode::Char('j'))) {
        UiEvent::Command(Command::NextPage { count }) => assert_eq!(count, 12),
        other => panic!("unexpected event: {:?}", other),
    }
}

#[test]
fn event_mapper_resets_prefix_after_use() {
    let mut mapper = EventMapper::new();
    assert!(matches!(
        mapper.map_event(key_event(KeyCode::Char('3'))),
        UiEvent::Nothing
    ));

    match mapper.map_event(key_event(KeyCode::Char('k'))) {
        UiEvent::Command(Command::PrevPage { count }) => assert_eq!(count, 3),
        other => panic!("unexpected event: {:?}", other),
    }

    match mapper.map_event(key_event(KeyCode::Char('k'))) {
        UiEvent::Command(Command::PrevPage { count }) => assert_eq!(count, 1),
        other => panic!("unexpected event: {:?}", other),
    }
}

#[test]
fn event_mapper_drops_prefix_on_other_command() {
    let mut mapper = EventMapper::new();
    assert!(matches!(
        mapper.map_event(key_event(KeyCode::Char('4'))),
        UiEvent::Nothing
    ));
    assert!(matches!(
        mapper.map_event(key_event(KeyCode::Char('q'))),
        UiEvent::Quit
    ));

    match mapper.map_event(key_event(KeyCode::Char('j'))) {
        UiEvent::Command(Command::NextPage { count }) => assert_eq!(count, 1),
        other => panic!("unexpected event: {:?}", other),
    }
}

#[test]
fn event_mapper_pending_input_shows_digits_until_consumed() {
    let mut mapper = EventMapper::new();
    assert!(mapper.pending_input().is_none());
    assert!(matches!(
        mapper.map_event(key_event(KeyCode::Char('1'))),
        UiEvent::Nothing
    ));
    assert!(matches!(
        mapper.map_event(key_event(KeyCode::Char('2'))),
        UiEvent::Nothing
    ));
    assert_eq!(mapper.pending_input().as_deref(), Some("12"));

    match mapper.map_event(key_event(KeyCode::Char('j'))) {
        UiEvent::Command(Command::NextPage { count }) => assert_eq!(count, 12),
        other => panic!("unexpected event: {:?}", other),
    }
    assert!(mapper.pending_input().is_none());
}

#[test]
fn event_mapper_enters_command_mode_with_colon() {
    let mut mapper = EventMapper::new();
    match mapper.map_event(key_event_with_modifiers(
        KeyCode::Char(':'),
        KeyModifiers { bits: MOD_SHIFT },
    )) {
        UiEvent::CommandModeBegin { buffer, cursor } => {
            assert!(buffer.is_empty());
            assert_eq!(cursor, 0);
        }
        other => panic!("unexpected event: {:?}", other),
    }
    assert_eq!(mapper.pending_input().as_deref(), Some(":"));
}

#[test]
fn event_mapper_command_mode_supports_editing_and_submit() {
    let mut mapper = EventMapper::new();
    assert!(matches!(
        mapper.map_event(key_event_with_modifiers(
            KeyCode::Char(':'),
            KeyModifiers { bits: MOD_SHIFT }
        )),
        UiEvent::CommandModeBegin { .. }
    ));

    match mapper.map_event(key_event(KeyCode::Char('q'))) {
        UiEvent::CommandModeChanged { buffer, cursor } => {
            assert_eq!(buffer, "q");
            assert_eq!(cursor, "q".len());
        }
        other => panic!("unexpected event: {:?}", other),
    }

    match mapper.map_event(key_event(KeyCode::Backspace)) {
        UiEvent::CommandModeChanged { buffer, cursor } => {
            assert!(buffer.is_empty());
            assert_eq!(cursor, 0);
        }
        other => panic!("unexpected event: {:?}", other),
    }

    match mapper.map_event(key_event(KeyCode::Char('w'))) {
        UiEvent::CommandModeChanged { buffer, cursor } => {
            assert_eq!(buffer, "w");
            assert_eq!(cursor, 1);
        }
        other => panic!("unexpected event: {:?}", other),
    }

    match mapper.map_event(key_event(KeyCode::Enter)) {
        UiEvent::CommandModeSubmit { command } => assert_eq!(command, "w"),
        other => panic!("unexpected event: {:?}", other),
    }
}

#[test]
fn event_mapper_command_mode_recalls_history() {
    let mut mapper = EventMapper::new();
    mapper.push_command_history("q");
    mapper.push_command_history("wq");

    assert!(matches!(
        mapper.map_event(key_event_with_modifiers(
            KeyCode::Char(':'),
            KeyModifiers { bits: MOD_SHIFT }
        )),
        UiEvent::CommandModeBegin { .. }
    ));

    match mapper.map_event(key_event(KeyCode::Up)) {
        UiEvent::CommandModeChanged { buffer, cursor } => {
            assert_eq!(buffer, "wq");
            assert_eq!(cursor, 2);
        }
        other => panic!("unexpected event: {:?}", other),
    }

    match mapper.map_event(key_event(KeyCode::Up)) {
        UiEvent::CommandModeChanged { buffer, cursor } => {
            assert_eq!(buffer, "q");
            assert_eq!(cursor, 1);
        }
        other => panic!("unexpected event: {:?}", other),
    }

    match mapper.map_event(key_event(KeyCode::Down)) {
        UiEvent::CommandModeChanged { buffer, cursor } => {
            assert_eq!(buffer, "wq");
            assert_eq!(cursor, 2);
        }
        other => panic!("unexpected event: {:?}", other),
    }

    match mapper.map_event(key_event(KeyCode::Down)) {
        UiEvent::CommandModeChanged { buffer, cursor } => {
            assert!(buffer.is_empty());
            assert_eq!(cursor, 0);
        }
        other => panic!("unexpected event: {:?}", other),
    }
}

#[test]
fn event_mapper_pending_input_shows_char_stack_until_completed() {
    let mut mapper = EventMapper::new();
    assert!(mapper.pending_input().is_none());
    assert!(matches!(
        mapper.map_event(key_event(KeyCode::Char('m'))),
        UiEvent::Nothing
    ));
    assert_eq!(mapper.pending_input().as_deref(), Some("m"));

    match mapper.map_event(key_event(KeyCode::Char('G'))) {
        UiEvent::Command(Command::PutMark { key }) => assert_eq!(key, 'G'),
        other => panic!("unexpected event: {:?}", other),
    }
    assert!(mapper.pending_input().is_none());
}

#[test]
fn event_mapper_maps_ctrl_arrows_to_viewport_adjustment() {
    let mut mapper = EventMapper::new();

    match mapper.map_event(key_event_with_modifiers(
        KeyCode::Right,
        KeyModifiers { bits: MOD_CONTROL },
    )) {
        UiEvent::Command(Command::AdjustViewport { delta_x, delta_y }) => {
            assert_eq!(delta_x, PAN_STEP);
            assert_eq!(delta_y, 0);
        }
        other => panic!("unexpected event: {:?}", other),
    }

    match mapper.map_event(key_event_with_modifiers(KeyCode::Up, KeyModifiers { bits: MOD_CONTROL })) {
        UiEvent::Command(Command::AdjustViewport { delta_x, delta_y }) => {
            assert_eq!(delta_x, 0);
            assert_eq!(delta_y, -PAN_STEP);
        }
        other => panic!("unexpected event: {:?}", other),
    }
}

#[test]
fn event_mapper_maps_equal_to_reset_scale() {
    let mut mapper = EventMapper::new();
    match mapper.map_event(key_event(KeyCode::Char('='))) {
        UiEvent::Command(Command::ResetScale) => {}
        other => panic!("unexpected event: {:?}", other),
    }
}

#[test]
fn event_mapper_maps_letter_shortcuts_to_viewport_adjustment() {
    let mut mapper = EventMapper::new();

    match mapper.map_event(key_event(KeyCode::Char('h'))) {
        UiEvent::Command(Command::AdjustViewport { delta_x, delta_y }) => {
            assert_eq!(delta_x, -PAN_STEP);
            assert_eq!(delta_y, 0);
        }
        other => panic!("unexpected event: {:?}", other),
    }

    match mapper.map_event(key_event_with_modifiers(
        KeyCode::Char('J'),
        KeyModifiers { bits: MOD_SHIFT },
    )) {
        UiEvent::Command(Command::AdjustViewport { delta_x, delta_y }) => {
            assert_eq!(delta_x, 0);
            assert_eq!(delta_y, PAN_STEP);
        }
        other => panic!("unexpected event: {:?}", other),
    }
}

#[test]
fn event_mapper_numeric_prefix_scales_pan_distance() {
    let mut mapper = EventMapper::new();
    assert!(matches!(
        mapper.map_event(key_event(KeyCode::Char('3'))),
        UiEvent::Nothing
    ));
    match mapper.map_event(key_event_with_modifiers(
        KeyCode::Char('L'),
        KeyModifiers { bits: MOD_SHIFT },
    )) {
        UiEvent::Command(Command::AdjustViewport { delta_x, delta_y }) => {
            assert_eq!(delta_x, 3 * PAN_STEP);
            assert_eq!(delta_y, 0);
        }
        other => panic!("unexpected event: {:?}", other),
    }
}

#[test]
fn event_mapper_maps_t_to_open_toc() {
    let mut mapper = EventMapper::new();
    match mapper.map_event(key_event(KeyCode::Char('t'))) {
        UiEvent::OpenTableOfContents => {}
        other => panic!("unexpected event: {:?}", other),
    }
}

#[test]
fn event_mapper_maps_ctrl_o_to_jump_backward() {
    let mut mapper = EventMapper::new();
    match mapper.map_event(key_event_with_modifiers(
        KeyCode::Char('o'),
        KeyModifiers { bits: MOD_CONTROL },
    )) {
        UiEvent::Command(Command::JumpBackward) => {}
        other => panic!("unexpected event: {:?}", other),
    }
}

#[test]
fn event_mapper_maps_ctrl_i_variants_to_jump_forward() {
    let mut mapper = EventMapper::new();
    match mapper.map_event(key_event_with_modifiers(
        KeyCode::Char('i'),
        KeyModifiers { bits: MOD_CONTROL },
    )) {
        UiEvent::Command(Command::JumpForward) => {}
        other => panic!("unexpected event: {:?}", other),
    }

    match mapper.map_event(key_event_with_modifiers(
        KeyCode::Tab,
        KeyModifiers { bits: MOD_CONTROL },
    )) {
        UiEvent::Command(Command::JumpForward) => {}
        other => panic!("unexpected event: {:?}", other),
    }

    match mapper.map_event(key_event_with_modifiers(KeyCode::Tab, KeyModifiers { bits: MOD_NONE })) {
        UiEvent::Command(Command::JumpForward) => {}
        other => panic!("unexpected event: {:?}", other),
    }
}

#[test]
fn event_mapper_maps_n_and_uppercase_n_to_search_navigation() {
    let mut mapper = EventMapper::new();

    match mapper.map_event(key_event(KeyCode::Char('n'))) {
        UiEvent::Command(Command::SearchNext { count }) => assert_eq!(count, 1),
        other => panic!("unexpected event: {:?}", other),
    }

    match mapper.map_event(key_event_with_modifiers(
        KeyCode::Char('N'),
        KeyModifiers { bits: MOD_SHIFT },
    )) {
        UiEvent::Command(Command::SearchPrev { count }) => assert_eq!(count, 1),
        other => panic!("unexpected event: {:?}", other),
    }

    assert!(matches!(
        mapper.map_event(key_event(KeyCode::Char('3'))),
        UiEvent::Nothing
    ));

    match mapper.map_event(key_event(KeyCode::Char('n'))) {
        UiEvent::Command(Command::SearchNext { count }) => assert_eq!(count, 3),
        other => panic!("unexpected event: {:?}", other),
    }
}

#[test]
fn event_mapper_slash_enters_search_mode_and_collects_input() {
    let mut mapper = EventMapper::new();

    match mapper.map_event(key_event(KeyCode::Char('/'))) {
        UiEvent::BeginSearch => {}
        other => panic!("unexpected event: {:?}", other),
    }
    assert_eq!(mapper.pending_input().as_deref(), Some("/"));

    match mapper.map_event(key_event(KeyCode::Char('f'))) {
        UiEvent::SearchQueryChanged { ref query } => assert_eq!(query, "f"),
        other => panic!("unexpected event: {:?}", other),
    }
    assert_eq!(mapper.pending_input().as_deref(), Some("/f"));

    match mapper.map_event(key_event(KeyCode::Backspace)) {
        UiEvent::SearchQueryChanged { ref query } => assert!(query.is_empty()),
        other => panic!("unexpected event: {:?}", other),
    }
    assert_eq!(mapper.pending_input().as_deref(), Some("/"));

    match mapper.map_event(key_event(KeyCode::Char('g'))) {
        UiEvent::SearchQueryChanged { ref query } => assert_eq!(query, "g"),
        other => panic!("unexpected event: {:?}", other),
    }

    match mapper.map_event(key_event(KeyCode::Enter)) {
        UiEvent::SearchSubmit { ref query } => assert_eq!(query, "g"),
        other => panic!("unexpected event: {:?}", other),
    }
    assert!(mapper.pending_input().is_none());
}

#[test]
fn event_mapper_l_enters_link_mode() {
    let mut mapper = EventMapper::new();
    assert!(matches!(
        mapper.map_event(key_event(KeyCode::Char('l'))),
        UiEvent::Command(Command::EnterLinkMode)
    ));
    assert_eq!(mapper.mode(), InputMode::Link);
    assert_eq!(mapper.pending_input().as_deref(), Some("link"));
}

#[test]
fn event_mapper_link_mode_accepts_prefix_for_navigation() {
    let mut mapper = EventMapper::new();
    mapper.set_mode(InputMode::Link);
    assert!(matches!(
        mapper.map_event(key_event(KeyCode::Char('3'))),
        UiEvent::Nothing
    ));
    match mapper.map_event(key_event(KeyCode::Char('n'))) {
        UiEvent::Command(Command::LinkNext { count }) => assert_eq!(count, 3),
        other => panic!("unexpected event: {:?}", other),
    }
}

#[test]
fn event_mapper_link_mode_supports_previous_navigation() {
    let mut mapper = EventMapper::new();
    mapper.set_mode(InputMode::Link);
    match mapper.map_event(key_event(KeyCode::Char('N'))) {
        UiEvent::Command(Command::LinkPrev { count }) => assert_eq!(count, 1),
        other => panic!("unexpected event: {:?}", other),
    }
}

#[test]
fn event_mapper_link_mode_follows_active_link() {
    let mut mapper = EventMapper::new();
    mapper.set_mode(InputMode::Link);
    assert!(matches!(
        mapper.map_event(key_event(KeyCode::Char('g'))),
        UiEvent::Command(Command::ActivateLink)
    ));
}

#[test]
fn event_mapper_link_mode_exit_on_escape() {
    let mut mapper = EventMapper::new();
    mapper.set_mode(InputMode::Link);
    assert!(matches!(
        mapper.map_event(key_event(KeyCode::Esc)),
        UiEvent::Command(Command::LeaveLinkMode)
    ));
    assert_eq!(mapper.mode(), InputMode::Normal);
}

#[test]
fn event_mapper_toc_mode_maps_navigation_keys() {
    let mut mapper = EventMapper::new();
    mapper.set_mode(InputMode::Toc);

    assert!(matches!(
        mapper.map_event(key_event(KeyCode::Char('1'))),
        UiEvent::Nothing
    ));
    assert!(matches!(
        mapper.map_event(key_event(KeyCode::Char('2'))),
        UiEvent::Nothing
    ));

    match mapper.map_event(key_event(KeyCode::Char('j'))) {
        UiEvent::TocMoveSelection { delta } => assert_eq!(delta, 12),
        other => panic!("unexpected event: {:?}", other),
    }

    match mapper.map_event(key_event(KeyCode::Char('k'))) {
        UiEvent::TocMoveSelection { delta } => assert_eq!(delta, -1),
        other => panic!("unexpected event: {:?}", other),
    }

    match mapper.map_event(key_event(KeyCode::Char('n'))) {
        UiEvent::TocSearchNext { count } => assert_eq!(count, 1),
        other => panic!("unexpected event: {:?}", other),
    }

    match mapper.map_event(key_event_with_modifiers(
        KeyCode::Char('N'),
        KeyModifiers { bits: MOD_SHIFT },
    )) {
        UiEvent::TocSearchPrev { count } => assert_eq!(count, 1),
        other => panic!("unexpected event: {:?}", other),
    }

    match mapper.map_event(key_event(KeyCode::Char('g'))) {
        UiEvent::TocGotoStart => {}
        other => panic!("unexpected event: {:?}", other),
    }

    match mapper.map_event(key_event_with_modifiers(
        KeyCode::Char('G'),
        KeyModifiers { bits: MOD_SHIFT },
    )) {
        UiEvent::TocGotoEnd => {}
        other => panic!("unexpected event: {:?}", other),
    }

    match mapper.map_event(key_event(KeyCode::Char('/'))) {
        UiEvent::TocBeginSearch => {}
        other => panic!("unexpected event: {:?}", other),
    }
    assert_eq!(mapper.mode(), InputMode::TocSearch);
    assert_eq!(mapper.pending_input().as_deref(), Some("/"));

    match mapper.map_event(key_event(KeyCode::Char('f'))) {
        UiEvent::TocSearchQueryChanged { query } => assert_eq!(query, "f"),
        other => panic!("unexpected event: {:?}", other),
    }
    assert_eq!(mapper.pending_input().as_deref(), Some("/f"));

    match mapper.map_event(key_event(KeyCode::Enter)) {
        UiEvent::TocSearchSubmit { query } => assert_eq!(query, "f"),
        other => panic!("unexpected event: {:?}", other),
    }
    assert_eq!(mapper.mode(), InputMode::Toc);
    assert!(mapper.pending_input().is_none());

    match mapper.map_event(key_event(KeyCode::Enter)) {
        UiEvent::TocActivateSelection => {}
        other => panic!("unexpected event: {:?}", other),
    }

    match mapper.map_event(key_event(KeyCode::Esc)) {
        UiEvent::CloseOverlay => {}
        other => panic!("unexpected event: {:?}", other),
    }
}

#[test]
fn event_mapper_switching_modes_clears_pending_state() {
    let mut mapper = EventMapper::new();
    assert!(matches!(
        mapper.map_event(key_event(KeyCode::Char('1'))),
        UiEvent::Nothing
    ));
    assert_eq!(mapper.pending_input().as_deref(), Some("1"));

    mapper.set_mode(InputMode::Toc);
    assert!(mapper.pending_input().is_none());
    mapper.set_mode(InputMode::Normal);
    assert!(mapper.pending_input().is_none());

    assert!(matches!(
        mapper.map_event(key_event(KeyCode::Char('/'))),
        UiEvent::BeginSearch
    ));
    assert_eq!(mapper.pending_input().as_deref(), Some("/"));

    mapper.set_mode(InputMode::Normal);
    assert!(mapper.pending_input().is_none());
}

#[test]
fn event_mapper_toc_search_handles_cancel() {
    let mut mapper = EventMapper::new();
    mapper.set_mode(InputMode::Toc);

    assert!(matches!(
        mapper.map_event(key_event(KeyCode::Char('/'))),
        UiEvent::TocBeginSearch
    ));
    assert_eq!(mapper.mode(), InputMode::TocSearch);

    match mapper.map_event(key_event(KeyCode::Char('a'))) {
        UiEvent::TocSearchQueryChanged { query } => assert_eq!(query, "a"),
        other => panic!("unexpected event: {:?}", other),
    }

    match mapper.map_event(key_event(KeyCode::Esc)) {
        UiEvent::TocSearchCancel => {}
        other => panic!("unexpected event: {:?}", other),
    }
    assert_eq!(mapper.mode(), InputMode::Toc);
    assert!(mapper.pending_input().is_none());
}

#[test]
fn zoom_keys_scale_by_a_tenth() {
    let mut mapper = EventMapper::new();
    match mapper.map_event(key_event(KeyCode::Char('+'))) {
        UiEvent::Command(Command::ScaleBy { factor }) => assert_eq!(factor, ZOOM_IN),
        other => panic!("unexpected event: {:?}", other),
    }
    match mapper.map_event(key_event(KeyCode::Char('-'))) {
        UiEvent::Command(Command::ScaleBy { factor }) => assert_eq!(factor, ZOOM_OUT),
        other => panic!("unexpected event: {:?}", other),
    }
    assert_eq!(ZOOM_IN, 1100);
    assert_eq!(ZOOM_OUT, 900);
    assert_eq!(PAN_STEP, 100_000);
}

#[test]
fn goto_keys_name_first_and_last_page() {
    let mut mapper = EventMapper::new();
    match mapper.map_event(key_event(KeyCode::Char('g'))) {
        UiEvent::Command(Command::GotoPage { page }) => assert_eq!(page, 0),
        other => panic!("unexpected event: {:?}", other),
    }
    match mapper.map_event(key_event_with_modifiers(
        KeyCode::Char('G'),
        KeyModifiers { bits: MOD_SHIFT },
    )) {
        UiEvent::Command(Command::GotoPage { page }) => assert_eq!(page, usize::MAX),
        other => panic!("unexpected event: {:?}", other),
    }
    match mapper.map_event(key_event(KeyCode::End)) {
        UiEvent::Command(Command::GotoPage { page }) => assert_eq!(page, usize::MAX),
        other => panic!("unexpected event: {:?}", other),
    }
}

#[test]
fn mark_chords_take_any_second_key() {
    let mut mapper = EventMapper::new();
    assert!(matches!(mapper.map_event(key_event(KeyCode::Char('\''))), UiEvent::Nothing));
    assert_eq!(mapper.pending_input().as_deref(), Some("'"));
    match mapper.map_event(key_event(KeyCode::Char('a'))) {
        UiEvent::Command(Command::GotoMark { key }) => assert_eq!(key, 'a'),
        other => panic!("unexpected event: {:?}", other),
    }
    assert!(mapper.pending_input().is_none());
}

#[test]
fn events_that_are_no_keys_ask_for_nothing() {
    let mut mapper = EventMapper::new();
    assert!(matches!(mapper.map_event(key_event(KeyCode::Char('7'))), UiEvent::Nothing));
    assert!(matches!(mapper.map_event(InputEvent::Other), UiEvent::Nothing));
    assert_eq!(mapper.pending_input().as_deref(), Some("7"));
    assert!(matches!(map_event(key_event(KeyCode::Char('q'))), UiEvent::Quit));
}

#[test]
fn alt_does_not_count_as_plain() {
    let mut mapper = EventMapper::new();
    let alt = KeyModifiers { bits: MOD_ALT };
    assert!(!alt.is_empty());
    assert!(!alt.is_plain());
    assert!(!alt.has_control());
    assert!(KeyModifiers { bits: MOD_CONTROL | MOD_SHIFT }.has_control());
    assert!(matches!(
        mapper.map_event(key_event_with_modifiers(KeyCode::Char('j'), alt)),
        UiEvent::Nothing
    ));
    mapper.set_mode(InputMode::Search);
    assert!(matches!(
        mapper.map_event(key_event_with_modifiers(KeyCode::Char('x'), alt)),
        UiEvent::Nothing
    ));
    assert_eq!(mapper.pending_input().as_deref(), Some("/"));
}

#[test]
fn numeric_prefix_saturates() {
    let mut mapper = EventMapper::new();
    for _ in 0..40 {
        assert!(matches!(mapper.map_event(key_event(KeyCode::Char('9'))), UiEvent::Nothing));
    }
    match mapper.map_event(key_event(KeyCode::Char('j'))) {
        UiEvent::Command(Command::NextPage { count }) => assert_eq!(count, usize::MAX),
        other => panic!("unexpected event: {:?}", other),
    }
    for _ in 0..40 {
        assert!(matches!(mapper.map_event(key_event(KeyCode::Char('9'))), UiEvent::Nothing));
    }
    match mapper.map_event(key_event_with_modifiers(
        KeyCode::Char('H'),
        KeyModifiers { bits: MOD_SHIFT },
    )) {
        UiEvent::Command(Command::AdjustViewport { delta_x, delta_y }) => {
            assert_eq!(delta_x, i32::MIN);
            assert_eq!(delta_y, 0);
        }
        other => panic!("unexpected event: {:?}", other),
    }
    mapper.set_mode(InputMode::Toc);
    for _ in 0..40 {
        assert!(matches!(mapper.map_event(key_event(KeyCode::Char('9'))), UiEvent::Nothing));
    }
    match mapper.map_event(key_event(KeyCode::Up)) {
        UiEvent::TocMoveSelection { delta } => assert_eq!(delta, -isize::MAX),
        other => panic!("unexpected event: {:?}", other),
    }
}

#[test]
fn prefix_zero_counts_as_one() {
    let mut mapper = EventMapper::new();
    assert!(matches!(mapper.map_event(key_event(KeyCode::Char('0'))), UiEvent::Nothing));
    assert_eq!(mapper.pending_input().as_deref(), Some("0"));
    match mapper.map_event(key_event(KeyCode::Down)) {
        UiEvent::Command(Command::NextPage { count }) => assert_eq!(count, 1),
        other => panic!("unexpected event: {:?}", other),
    }
}

#[test]
fn command_cursor_counts_bytes() {
    let mut mapper = EventMapper::new();
    mapper.set_mode(InputMode::Command);
    match mapper.map_event(key_event(KeyCode::Char('é'))) {
        UiEvent::CommandModeChanged { buffer, cursor } => {
            assert_eq!(buffer, "é");
            assert_eq!(cursor, 2);
        }
        other => panic!("unexpected event: {:?}", other),
    }
    match mapper.map_event(key_event(KeyCode::Char('漢'))) {
        UiEvent::CommandModeChanged { buffer, cursor } => {
            assert_eq!(buffer, "é漢");
            assert_eq!(cursor, 5);
        }
        other => panic!("unexpected event: {:?}", other),
    }
    match mapper.map_event(key_event(KeyCode::Left)) {
        UiEvent::CommandModeChanged { buffer, cursor } => {
            assert_eq!(buffer, "é漢");
            assert_eq!(cursor, 2);
        }
        other => panic!("unexpected event: {:?}", other),
    }
    match mapper.map_event(key_event(KeyCode::Char('x'))) {
        UiEvent::CommandModeChanged { buffer, cursor } => {
            assert_eq!(buffer, "éx漢");
            assert_eq!(cursor, 3);
        }
        other => panic!("unexpected event: {:?}", other),
    }
    match mapper.map_event(key_event(KeyCode::Right)) {
        UiEvent::CommandModeChanged { cursor, .. } => assert_eq!(cursor, 6),
        other => panic!("unexpected event: {:?}", other),
    }
    assert!(matches!(mapper.map_event(key_event(KeyCode::Right)), UiEvent::Nothing));
    match mapper.map_event(key_event(KeyCode::Backspace)) {
        UiEvent::CommandModeChanged { buffer, cursor } => {
            assert_eq!(buffer, "éx");
            assert_eq!(cursor, 3);
        }
        other => panic!("unexpected event: {:?}", other),
    }
    assert_eq!(mapper.pending_input().as_deref(), Some(":éx"));
    match mapper.map_event(key_event(KeyCode::Esc)) {
        UiEvent::CommandModeCancel => {}
        other => panic!("unexpected event: {:?}", other),
    }
    assert_eq!(mapper.mode(), InputMode::Normal);
}

#[test]
fn command_history_skips_blanks_and_repeats_and_is_bounded() {
    let mut mapper = EventMapper::new();
    mapper.push_command_history("   ");
    mapper.push_command_history("w");
    mapper.push_command_history("w");
    mapper.set_mode(InputMode::Command);
    match mapper.map_event(key_event(KeyCode::Up)) {
        UiEvent::CommandModeChanged { buffer, .. } => assert_eq!(buffer, "w"),
        other => panic!("unexpected event: {:?}", other),
    }
    assert!(matches!(mapper.map_event(key_event(KeyCode::Up)), UiEvent::Nothing));

    let mut full = EventMapper::new();
    for i in 0..150 {
        full.push_command_history(&format!("cmd{}", i));
    }
    full.set_mode(InputMode::Command);
    let mut seen = 0;
    let mut oldest = String::new();
    loop {
        match full.map_event(key_event(KeyCode::Up)) {
            UiEvent::CommandModeChanged { buffer, .. } => {
                seen += 1;
                oldest = buffer;
            }
            UiEvent::Nothing => break,
            other => panic!("unexpected event: {:?}", other),
        }
    }
    assert_eq!(seen, 100);
    assert_eq!(oldest, "cmd50");
}

#[test]
fn history_recall_keeps_the_draft() {
    let mut mapper = EventMapper::new();
    mapper.push_command_history("open");
    mapper.set_mode(InputMode::Command);
    assert!(matches!(mapper.map_event(key_event(KeyCode::Down)), UiEvent::Nothing));
    let _ = mapper.map_event(key_event(KeyCode::Char('d')));
    match mapper.map_event(key_event(KeyCode::Up)) {
        UiEvent::CommandModeChanged { buffer, cursor } => {
            assert_eq!(buffer, "open");
            assert_eq!(cursor, 4);
        }
        other => panic!("unexpected event: {:?}", other),
    }
    match mapper.map_event(key_event(KeyCode::Down)) {
        UiEvent::CommandModeChanged { buffer, cursor } => {
            assert_eq!(buffer, "d");
            assert_eq!(cursor, 1);
        }
        other => panic!("unexpected event: {:?}", other),
    }
}

#[test]
fn link_mode_shows_prefix_behind_its_label() {
    let mut mapper = EventMapper::new();
    mapper.set_mode(InputMode::Link);
    let _ = mapper.map_event(key_event(KeyCode::Char('4')));
    let _ = mapper.map_event(key_event(KeyCode::Char('2')));
    assert_eq!(mapper.pending_input().as_deref(), Some("link 42"));
    assert!(matches!(mapper.map_event(key_event(KeyCode::Char('x'))), UiEvent::Nothing));
    assert_eq!(mapper.pending_input().as_deref(), Some("link"));
}
