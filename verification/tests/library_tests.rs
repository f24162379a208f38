use gtfo_codefilter::{
    classify_prompt_pattern, keep_nonempty_words, load_words_from_str, match_pattern,
    read_prompt_input, CodeFilterApp, FilterStatus,
    HotkeyOption, HotkeyPlan, PromptInput, WindowCommand,
};

fn strings(words: &[&str]) -> Vec<String> {
    words.iter().map(|w| w.to_string()).collect()
}

// --- loading ---

#[test]
fn load_handles_windows_line_endings() {
    let words = load_words_from_str("AB\r\ncd\r\n").expect("never fails");
    assert_eq!(words, vec!["ab", "cd"]);
}

#[test]
fn load_trims_surrounding_white_space() {
    let words = load_words_from_str("  ab \t\n\u{3000}cd\u{a0}\n").expect("never fails");
    assert_eq!(words, vec!["ab", "cd"]);
}

#[test]
fn load_skips_blank_lines() {
    let words = load_words_from_str("ab\n\n   \n\t\ncd").expect("never fails");
    assert_eq!(words, vec!["ab", "cd"]);
}

#[test]
fn load_strips_every_leading_byte_order_mark() {
    let words = load_words_from_str("\u{FEFF}\u{FEFF}able\n").expect("never fails");
    assert_eq!(words, vec!["able"]);
}

#[test]
fn load_strips_the_byte_order_mark_after_trimming() {
    // The white space after the mark is inside the trimmed line, so it stays.
    let words = load_words_from_str(" \u{FEFF} ab\n").expect("never fails");
    assert_eq!(words, vec![" ab"]);
}

#[test]
fn load_keeps_a_lone_carriage_return_inside_a_line() {
    let words = load_words_from_str("a\rb\n").expect("never fails");
    assert_eq!(words, vec!["a\rb"]);
}

#[test]
fn load_uses_unicode_lowercase() {
    let words = load_words_from_str("ÄBC\nΣΑΣ\n").expect("never fails");
    assert_eq!(words, vec!["äbc", "σας"]);
}

#[test]
fn load_final_line_ending_is_optional() {
    let with = load_words_from_str("ab\ncd\r\n").expect("never fails");
    let without = load_words_from_str("ab\ncd\r").expect("never fails");
    assert_eq!(with, without);
    assert_eq!(with, vec!["ab", "cd"]);
}

#[test]
fn load_gives_at_most_one_word_per_line() {
    let words = load_words_from_str("a b\nc\n").expect("never fails");
    assert_eq!(words, vec!["a b", "c"]);
}

// --- matching ---

#[test]
fn match_keeps_order_and_duplicates() {
    let words = strings(&["abcd", "xbcd", "abcd", "abce"]);
    assert_eq!(match_pattern("-bcd", &words), vec!["abcd", "xbcd", "abcd"]);
}

#[test]
fn match_wildcards_only_keep_everything() {
    let words = strings(&["abcd", "q", "", "wxyz12"]);
    assert_eq!(match_pattern("--", &words), words);
}

#[test]
fn match_longer_pattern_narrows() {
    let words = strings(&["abcd", "abzz", "acdd", "xxxx"]);
    let short = match_pattern("a", &words);
    let long = match_pattern("ab-d", &words);
    assert_eq!(short, vec!["abcd", "abzz", "acdd"]);
    assert_eq!(long, vec!["abcd"]);
    assert_eq!(match_pattern("ab-d", &short), long);
}

#[test]
fn match_filtering_twice_is_filtering_once() {
    let words = strings(&["abcd", "abzz", "xbcd"]);
    let once = match_pattern("-bc-", &words);
    assert_eq!(match_pattern("-bc-", &once), once);
}

#[test]
fn match_compares_characters_not_bytes() {
    let words = strings(&["äbcd", "abcd"]);
    assert_eq!(match_pattern("ä---", &words), vec!["äbcd"]);
}

// --- hotkeys ---

#[test]
fn hotkey_labels() {
    let labels: Vec<&str> = HotkeyOption::all().iter().map(|h| h.label()).collect();
    assert_eq!(
        labels,
        vec!["F1", "F2", "F3", "F4", "F5", "F6", "F7", "F8", "F9", "F10", "F11", "F12"]
    );
    assert_eq!(HotkeyOption::default_option(), HotkeyOption::F2);
}

// --- the prompt ---

#[test]
fn prompt_quits_on_hash() {
    assert!(matches!(read_prompt_input(" #\n"), PromptInput::Quit));
}

#[test]
fn prompt_rejects_wrong_lengths() {
    assert!(matches!(read_prompt_input("abc\n"), PromptInput::WrongLength));
    assert!(matches!(read_prompt_input("abcde\n"), PromptInput::WrongLength));
    // Four characters, but more than four bytes.
    assert!(matches!(read_prompt_input("äbcd\n"), PromptInput::WrongLength));
}

#[test]
fn prompt_gives_the_trimmed_lowercase_pattern() {
    match read_prompt_input("  AB-D\r\n") {
        PromptInput::Pattern(p) => assert_eq!(p, "ab-d"),
        other => panic!("unexpected {:?}", other),
    }
}

// --- the window ---

fn window() -> CodeFilterApp {
    CodeFilterApp::new(strings(&["able", "acid", "bake"]), true)
}

#[test]
fn window_starts_expanded_and_listening() {
    let app = window();
    assert!(app.is_expanded());
    assert!(app.always_on_top());
    assert!(app.auto_clear());
    assert!(app.listening());
    assert_eq!(app.selected_hotkey(), HotkeyOption::F2);
    assert_eq!(app.registered_hotkey(), Some(HotkeyOption::F2));
    assert_eq!(app.status(), FilterStatus::Prompt);
    let unregistered = CodeFilterApp::new(Vec::new(), false);
    assert_eq!(unregistered.registered_hotkey(), None);
}

#[test]
fn window_edit_updates_results_and_status() {
    let mut app = window();
    app.edit_pattern("a---".to_string());
    assert_eq!(app.results(), &vec!["able".to_string(), "acid".to_string()]);
    assert_eq!(app.status(), FilterStatus::Matches(2));
    app.edit_pattern("zz".to_string());
    assert_eq!(app.status(), FilterStatus::NoMatches);
    app.edit_pattern(String::new());
    assert_eq!(app.results().len(), 3);
    assert_eq!(app.status(), FilterStatus::Prompt);
}

#[test]
fn window_losing_focus_collapses_and_clears() {
    let mut app = window();
    app.edit_pattern("a".to_string());
    let commands = app.on_frame(None, false, false);
    assert_eq!(
        commands,
        vec![WindowCommand::Collapse, WindowCommand::SetAlwaysOnTop(true)]
    );
    assert!(!app.is_expanded());
    assert_eq!(app.pattern(), "");
    assert!(app.results().is_empty());
}

#[test]
fn window_losing_focus_keeps_pattern_without_auto_clear() {
    let mut app = window();
    app.set_auto_clear(false);
    app.edit_pattern("a".to_string());
    app.on_frame(None, false, false);
    assert_eq!(app.pattern(), "a");
    assert_eq!(app.results().len(), 2);
}

#[test]
fn window_gaining_focus_expands_and_asks_for_input_focus() {
    let mut app = window();
    app.on_frame(None, false, false);
    app.set_always_on_top(false);
    let commands = app.on_frame(None, true, false);
    assert_eq!(
        commands,
        vec![WindowCommand::Expand, WindowCommand::SetAlwaysOnTop(false)]
    );
    assert!(app.is_expanded());
    assert!(app.take_input_focus(true));
    app.edit_pattern("a".to_string());
    assert!(!app.take_input_focus(true));
}

#[test]
fn window_escape_collapses_and_minimises() {
    let mut app = window();
    app.edit_pattern("ab".to_string());
    let commands = app.on_frame(None, true, true);
    assert_eq!(
        commands,
        vec![
            WindowCommand::Collapse,
            WindowCommand::Minimize,
            WindowCommand::SetAlwaysOnTop(true)
        ]
    );
    assert!(!app.is_expanded());
    assert_eq!(app.pattern(), "");
    // Escape on a collapsed window does nothing more.
    let again = app.on_frame(None, true, true);
    assert_eq!(again, vec![WindowCommand::SetAlwaysOnTop(true)]);
}

#[test]
fn window_registered_hotkey_summons() {
    let mut app = window();
    let commands = app.on_frame(Some(HotkeyOption::F2), true, false);
    assert_eq!(
        commands,
        vec![WindowCommand::Focus, WindowCommand::SetAlwaysOnTop(true)]
    );
    let other = app.on_frame(Some(HotkeyOption::F3), true, false);
    assert_eq!(other, vec![WindowCommand::SetAlwaysOnTop(true)]);
}

#[test]
fn window_selecting_a_hotkey_reregisters() {
    let mut app = window();
    let same = app.select_hotkey(HotkeyOption::F2);
    assert_eq!(same, HotkeyPlan { unregister: None, register: None });
    let plan = app.select_hotkey(HotkeyOption::F5);
    assert_eq!(
        plan,
        HotkeyPlan { unregister: Some(HotkeyOption::F2), register: Some(HotkeyOption::F5) }
    );
    assert_eq!(app.registered_hotkey(), None);
    app.registration_done(true);
    assert_eq!(app.registered_hotkey(), Some(HotkeyOption::F5));
}

#[test]
fn window_failed_registration_leaves_none() {
    let mut app = window();
    app.select_hotkey(HotkeyOption::F7);
    app.registration_done(false);
    assert_eq!(app.registered_hotkey(), None);
}

#[test]
fn window_listening_toggle() {
    let mut app = window();
    let off = app.set_listening(false);
    assert_eq!(off, HotkeyPlan { unregister: Some(HotkeyOption::F2), register: None });
    assert_eq!(app.registered_hotkey(), None);
    // While sleeping, a new selection registers nothing.
    let plan = app.select_hotkey(HotkeyOption::F9);
    assert_eq!(plan, HotkeyPlan { unregister: None, register: None });
    app.registration_done(true);
    assert_eq!(app.registered_hotkey(), None);
    let on = app.set_listening(true);
    assert_eq!(on, HotkeyPlan { unregister: None, register: Some(HotkeyOption::F9) });
    app.registration_done(true);
    assert_eq!(app.registered_hotkey(), Some(HotkeyOption::F9));
    let again = app.set_listening(true);
    assert_eq!(again, HotkeyPlan { unregister: None, register: None });
}

#[test]
fn keep_nonempty_words_drops_only_empty_words() {
    let kept = keep_nonempty_words(strings(&["", "ab", "", " ", "cd", ""]));
    assert_eq!(kept, vec!["ab", " ", "cd"]);
    assert!(keep_nonempty_words(Vec::new()).is_empty());
}

#[test]
fn classify_prompt_pattern_cases() {
    assert!(matches!(classify_prompt_pattern("#".to_string()), PromptInput::Quit));
    assert!(matches!(classify_prompt_pattern("##".to_string()), PromptInput::WrongLength));
    assert!(matches!(classify_prompt_pattern(String::new()), PromptInput::WrongLength));
    match classify_prompt_pattern("a-c-".to_string()) {
        PromptInput::Pattern(p) => assert_eq!(p, "a-c-"),
        other => panic!("unexpected {:?}", other),
    }
}

#[test]
fn load_joined_texts_give_joined_words() {
    let first = "AB\n\n cd\r";
    let second = "\u{FEFF}ef\n\ngh";
    let joined = format!("{}\n{}", first, second);
    let mut expected = load_words_from_str(first).expect("never fails");
    expected.extend(load_words_from_str(second).expect("never fails"));
    assert_eq!(load_words_from_str(&joined).expect("never fails"), expected);
    assert_eq!(expected, vec!["ab", "cd", "ef", "gh"]);
}

#[test]
fn load_blank_text_gives_no_word() {
    let words = load_words_from_str(" \n\t\r\n\u{FEFF}\n\n").expect("never fails");
    assert!(words.is_empty());
}

#[test]
fn window_listening_switch_twice_is_once() {
    let mut app = window();
    let first = app.set_listening(true);
    assert_eq!(first, HotkeyPlan { unregister: None, register: None });
    app.set_listening(false);
    let again = app.set_listening(false);
    assert_eq!(again, HotkeyPlan { unregister: None, register: None });
    assert!(!app.listening());
    assert_eq!(app.registered_hotkey(), None);
}

#[test]
fn load_reloading_ascii_words_changes_nothing() {
    let data = "\u{0009} ABLE \r\n\n Acid\nbA-Ke\r\nx y\n";
    let words = load_words_from_str(data).expect("never fails");
    assert_eq!(words, vec!["able", "acid", "ba-ke", "x y"]);
    let again = load_words_from_str(&words.join("\n")).expect("never fails");
    assert_eq!(again, words);
    assert!(words.iter().all(|w| !w.chars().any(|c| c.is_ascii_uppercase())));
}

#[test]
fn match_wildcard_never_drops_a_word() {
    let words = strings(&["abcd", "abzd", "xbcd"]);
    let strict = match_pattern("abcd", &words);
    let loose = match_pattern("ab-d", &words);
    assert_eq!(strict, vec!["abcd"]);
    assert_eq!(loose, vec!["abcd", "abzd"]);
    assert!(strict.iter().all(|w| loose.contains(w)));
}
