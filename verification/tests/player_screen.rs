use hifi_core::models::Track;
use hifi_core::ui::{
    progress_bar, result_style, Action, AppState, Colour, Key, PlayRequest, StyledLine, TextStyle,
    BAR_WIDTH,
};

fn track(title: &str, artist: Option<&str>) -> Track {
    Track {
        id: format!("id-{}", title),
        title: title.to_string(),
        artist: artist.map(|a| a.to_string()),
        album: None,
        year: None,
        artwork: Some(format!("{}.jpg", title)),
    }
}

fn typed(state: &mut AppState, text: &str) {
    for c in text.chars() {
        assert_eq!(state.handle_key(Key::Char(c)), Action::Nothing);
    }
}

#[test]
fn starts_empty() {
    let s = AppState::new();
    assert_eq!(s.query, "");
    assert!(s.results.is_empty());
    assert_eq!(s.selected, 0);
    assert!(!s.search_active);
    assert!(s.now_playing.is_none());
}

#[test]
fn search_box_edits_and_searches_trimmed_text() {
    let mut s = AppState::new();
    s.query = "old".to_string();
    assert_eq!(s.handle_key(Key::Char('/')), Action::Nothing);
    assert!(s.search_active);
    assert_eq!(s.query, "");
    typed(&mut s, "  air q/ ");
    assert_eq!(s.query, "  air q/ ");
    assert_eq!(s.search_box_text(), "  air q/ |");
    assert_eq!(s.handle_key(Key::Backspace), Action::Nothing);
    assert_eq!(s.query, "  air q/");
    assert_eq!(s.handle_key(Key::Left), Action::Nothing);
    assert_eq!(s.handle_key(Key::Enter), Action::Search("air q/".to_string()));
    assert!(!s.search_active);
    assert_eq!(s.query, "  air q/");
    assert_eq!(s.search_box_text(), "  air q/");
}

#[test]
fn escape_leaves_the_search_box() {
    let mut s = AppState::new();
    s.handle_key(Key::Char('/'));
    typed(&mut s, "x");
    assert_eq!(s.handle_key(Key::Esc), Action::Nothing);
    assert!(!s.search_active);
    assert_eq!(s.query, "x");
}

#[test]
fn playback_keys() {
    let mut s = AppState::new();
    assert_eq!(s.handle_key(Key::Char(' ')), Action::TogglePause);
    assert_eq!(s.handle_key(Key::Left), Action::Seek(-5));
    assert_eq!(s.handle_key(Key::Right), Action::Seek(5));
    assert_eq!(s.handle_key(Key::Char('q')), Action::Quit);
    assert_eq!(s.handle_key(Key::Esc), Action::Nothing);
    assert_eq!(s.handle_key(Key::Enter), Action::Nothing);
    assert!(s.now_playing.is_none());
}

#[test]
fn typing_outside_the_search_box_edits_the_query() {
    let mut s = AppState::new();
    typed(&mut s, "ab");
    assert_eq!(s.query, "ab");
    s.handle_key(Key::Backspace);
    s.handle_key(Key::Backspace);
    s.handle_key(Key::Backspace);
    assert_eq!(s.query, "");
}

#[test]
fn selection_moves_within_results() {
    let mut s = AppState::new();
    s.handle_key(Key::Down);
    assert_eq!(s.selected, 0);
    s.receive_results(vec![track("a", None), track("b", None), track("c", None)]);
    s.handle_key(Key::Up);
    assert_eq!(s.selected, 0);
    s.handle_key(Key::Down);
    s.handle_key(Key::Down);
    s.handle_key(Key::Down);
    assert_eq!(s.selected, 2);
    s.handle_key(Key::Up);
    assert_eq!(s.selected, 1);
    s.receive_results(vec![track("d", None)]);
    assert_eq!(s.selected, 0);
}

#[test]
fn enter_plays_the_selected_result() {
    let mut s = AppState::new();
    s.receive_results(vec![track("One", Some("Air")), track("Two", None)]);
    let a = s.handle_key(Key::Enter);
    assert_eq!(
        a,
        Action::Play(PlayRequest {
            artist: "Air".to_string(),
            title: "One".to_string(),
            artwork: Some("One.jpg".to_string()),
        })
    );
    assert_eq!(s.now_playing, Some(track("One", Some("Air"))));
    s.handle_key(Key::Down);
    let a = s.handle_key(Key::Enter);
    assert_eq!(
        a,
        Action::Play(PlayRequest {
            artist: "Unknown Artist".to_string(),
            title: "Two".to_string(),
            artwork: Some("Two.jpg".to_string()),
        })
    );
}

fn plain(text: &str) -> StyledLine {
    StyledLine { text: text.to_string(), style: None }
}

#[test]
fn results_list_lines() {
    let dim = TextStyle { colour: Colour::DarkGray, bold: false, italic: true };
    let bright = TextStyle { colour: Colour::White, bold: true, italic: false };
    assert_eq!(result_style(true), bright);
    assert_eq!(result_style(false), dim);
    let mut s = AppState::new();
    assert_eq!(
        s.result_lines(),
        vec![plain(""), StyledLine { text: "no results".to_string(), style: Some(dim) }, plain("")]
    );
    s.receive_results(vec![track("One", Some("Air")), track("Two", None)]);
    s.handle_key(Key::Down);
    assert_eq!(
        s.result_lines(),
        vec![
            plain(""),
            StyledLine { text: "  Air - One  ".to_string(), style: Some(dim) },
            plain(""),
            StyledLine { text: "  unknown artist - Two  ".to_string(), style: Some(bright) },
            plain(""),
        ]
    );
}

#[test]
fn progress_bar_has_fixed_width() {
    assert_eq!(progress_bar(0), "─".repeat(BAR_WIDTH));
    assert_eq!(progress_bar(3), format!("{}{}", "█".repeat(3), "─".repeat(BAR_WIDTH - 3)));
    assert_eq!(progress_bar(100), "█".repeat(BAR_WIDTH));
    for f in 0..40 {
        assert_eq!(progress_bar(f).chars().count(), BAR_WIDTH);
    }
}

#[test]
fn info_lines() {
    let mut s = AppState::new();
    assert_eq!(
        s.info_lines(0, 0, 0, false),
        vec![
            "nothing playing".to_string(),
            "-".to_string(),
            "".to_string(),
            format!("[{}]", "─".repeat(BAR_WIDTH)),
            "00:00 / 00:00".to_string(),
        ]
    );
    s.now_playing = Some(track("One", Some("Air")));
    let lines = s.info_lines(12, 61, 200, true);
    assert_eq!(lines[0], "paused");
    assert_eq!(lines[1], "");
    assert_eq!(lines[2], "One");
    assert_eq!(lines[3], "Air");
    assert_eq!(lines[5], format!("[{}{}]", "█".repeat(12), "─".repeat(12)));
    assert_eq!(lines[6], "01:01 / 03:20");
    assert_eq!(s.now_playing_title(), "One");
    assert_eq!(s.now_playing_artist(), "Air");
}

#[test]
fn backspace_undoes_a_typed_character() {
    for search in [false, true] {
        let mut s = AppState::new();
        s.receive_results(vec![track("a", None), track("b", None)]);
        s.handle_key(Key::Down);
        if search {
            s.handle_key(Key::Char('/'));
            typed(&mut s, "ab");
        }
        let before = (s.query.clone(), s.selected, s.search_active);
        assert_eq!(s.handle_key(Key::Char('x')), Action::Nothing);
        assert_eq!(s.handle_key(Key::Backspace), Action::Nothing);
        assert_eq!((s.query.clone(), s.selected, s.search_active), before);
    }
}

#[test]
fn up_undoes_down() {
    let mut s = AppState::new();
    s.receive_results(vec![track("a", None), track("b", None), track("c", None)]);
    s.handle_key(Key::Down);
    s.handle_key(Key::Down);
    s.handle_key(Key::Up);
    assert_eq!(s.selected, 1);
}
