use altshift::buffer::Buffer;
use altshift::guards::{Context, Reason};
use altshift::platform_macos::{active_window, hook, layout as mac_layout, password};
use altshift::key::{Key, Stroke};
use altshift::layout::LayoutId;
use altshift::platform_windows::active_window::{
    exe_name_from_path, is_active_app_blocked, update_blacklist, Blacklist,
};
use altshift::platform_windows::app_memory::{
    clear_memory, get_learned_layout, learn_app_layout, AppMemory,
};
use altshift::platform_windows::hook::{
    acquire_injection_lock, apply_to_buffer, begin_word_end, classify_key_event, finish_word,
    is_modifier, layout_to_switch, note_focus, release_injection_lock_and_flush, vk_to_key,
    word_end_summary, DecisionNote, HeldKey, HookAction, InjectionLock, WordOutcome,
};
use altshift::platform_windows::injector::{
    injection_plan, injection_result, utf16_units, InjectedKey, InjectionShortfall, Keystroke,
    ALTSHIFT_MAGIC_INFO,
};
use altshift::platform_windows::layout::{
    check_window, get_installed_layouts, layout_for_language, layout_handle_for, post_outcome,
    SwitchError,
};
use altshift::platform_windows::password::{after_win32_probe, style_marks_password, PasswordProbe};
use altshift::platform_windows::undo::{cancel_undo_window, record_correction, try_undo, UndoSlot};

#[test]
fn the_default_block_list_covers_terminals_and_password_managers() {
    let b = Blacklist::new();
    assert!(is_active_app_blocked(&b, Some("CMD.EXE".to_string())));
    assert!(is_active_app_blocked(&b, Some("KeePassXC.exe".to_string())));
    assert!(!is_active_app_blocked(&b, Some("notepad.exe".to_string())));
    assert!(!is_active_app_blocked(&b, None));
}

#[test]
fn an_updated_block_list_replaces_the_old_one() {
    let mut b = Blacklist::new();
    update_blacklist(&mut b, vec!["Telegram.EXE".to_string()]);
    assert!(is_active_app_blocked(&b, Some("telegram.exe".to_string())));
    assert!(!is_active_app_blocked(&b, Some("cmd.exe".to_string())));
}

#[test]
fn the_exe_name_is_the_last_path_component() {
    assert_eq!(exe_name_from_path("C:\\Windows\\System32\\cmd.exe"), "cmd.exe");
    assert_eq!(exe_name_from_path("code.exe"), "code.exe");
    assert_eq!(exe_name_from_path("C:\\dir\\"), "");
}

#[test]
fn a_learned_layout_is_recalled_case_insensitively() {
    let mut m = AppMemory::new();
    assert_eq!(get_learned_layout(&m, "telegram.exe"), None);
    learn_app_layout(&mut m, "Telegram.exe", LayoutId::RuYcuken);
    assert_eq!(get_learned_layout(&m, "TELEGRAM.EXE"), Some(LayoutId::RuYcuken));
    learn_app_layout(&mut m, "telegram.exe", LayoutId::UsQwerty);
    assert_eq!(get_learned_layout(&m, "telegram.exe"), Some(LayoutId::UsQwerty));
    assert_eq!(get_learned_layout(&m, "code.exe"), None);
    learn_app_layout(&mut m, "", LayoutId::RuYcuken);
    assert_eq!(get_learned_layout(&m, ""), None);
    clear_memory(&mut m);
    assert_eq!(get_learned_layout(&m, "telegram.exe"), None);
}

#[test]
fn installed_layouts_come_from_the_language_of_each_handle() {
    let hkls = [0x0409_0409usize, 0x041F_041F, 0xF0A8_0419, 0x0409_0409];
    assert_eq!(get_installed_layouts(&hkls), vec![LayoutId::UsQwerty, LayoutId::RuYcuken]);
    assert!(get_installed_layouts(&[]).is_empty());
    assert_eq!(layout_for_language(0x0419), Some(LayoutId::RuYcuken));
    assert_eq!(layout_for_language(0x041F), None);
}

#[test]
fn switching_requests_the_first_handle_of_the_language() {
    let hkls = [0x0409_0409usize, 0xF0A8_0419, 0x0419_0419];
    assert_eq!(layout_handle_for(3, &hkls, LayoutId::RuYcuken), Ok(0xF0A8_0419));
    assert_eq!(layout_handle_for(1, &hkls[..1], LayoutId::RuYcuken), Err(SwitchError::NotInstalled));
    assert_eq!(layout_handle_for(0, &[], LayoutId::UsQwerty), Err(SwitchError::NoLayouts));
    assert_eq!(SwitchError::InvalidWindow.message(), "Geçersiz HWND");
}

#[test]
fn a_correction_is_backspaces_then_unicode() {
    let plan = injection_plan(2, "я😀");
    let units = utf16_units("я😀");
    assert_eq!(units, vec![0x044F, 0xD83D, 0xDE00]);
    let mut expected = Vec::new();
    for stroke in [Keystroke::Backspace, Keystroke::Backspace, Keystroke::Unit(0x044F), Keystroke::Unit(0xD83D), Keystroke::Unit(0xDE00)] {
        expected.push(InjectedKey { stroke, key_up: false, extra_info: ALTSHIFT_MAGIC_INFO });
        expected.push(InjectedKey { stroke, key_up: true, extra_info: ALTSHIFT_MAGIC_INFO });
    }
    assert_eq!(plan, expected);
    assert!(injection_plan(0, "").is_empty());
    assert_eq!(ALTSHIFT_MAGIC_INFO, 0x1234_5678);
}

#[test]
fn password_detection_fails_closed() {
    assert!(style_marks_password(0x0020 | 0x0080));
    assert!(!style_marks_password(0x0080));
    assert_eq!(after_win32_probe(false, Some(false)), PasswordProbe::Settled(None));
    assert_eq!(after_win32_probe(true, Some(true)), PasswordProbe::Settled(Some(true)));
    assert_eq!(after_win32_probe(true, Some(false)), PasswordProbe::AskAutomation);
    assert_eq!(after_win32_probe(true, None), PasswordProbe::AskAutomation);
}

#[test]
fn a_correction_can_be_undone_once_and_only_soon() {
    let mut slot = UndoSlot::new();
    assert!(try_undo(&mut slot, 0).is_none());
    record_correction(&mut slot, 1_000, "ghbdtn".to_string(), LayoutId::UsQwerty, 6);
    let rec = try_undo(&mut slot, 1_000 + 800_000_000).unwrap();
    assert_eq!(rec.original_text, "ghbdtn");
    assert_eq!(rec.original_layout, LayoutId::UsQwerty);
    assert_eq!(rec.injected_length, 6);
    assert!(try_undo(&mut slot, 1_000).is_none());
    record_correction(&mut slot, 1_000, "ghbdtn".to_string(), LayoutId::UsQwerty, 6);
    assert!(try_undo(&mut slot, 1_001 + 800_000_000).is_none());
    record_correction(&mut slot, 1_000, "ghbdtn".to_string(), LayoutId::UsQwerty, 6);
    cancel_undo_window(&mut slot);
    assert!(try_undo(&mut slot, 1_000).is_none());
}

#[test]
fn key_events_are_classified() {
    assert_eq!(vk_to_key(0x47), Some(Key::KeyG));
    assert_eq!(vk_to_key(0xC0), Some(Key::Backquote));
    assert_eq!(vk_to_key(0x25), None);
    assert!(is_modifier(0x10) && is_modifier(0xA5) && !is_modifier(0x25));
    assert_eq!(classify_key_event(-1, 0, false, false, 0x47, Some(Key::KeyG)), HookAction::PassThrough);
    assert_eq!(classify_key_event(0, ALTSHIFT_MAGIC_INFO, true, false, 0x47, Some(Key::KeyG)), HookAction::PassThrough);
    assert_eq!(classify_key_event(0, 0, true, false, 0x47, Some(Key::KeyG)), HookAction::HoldAndSwallow);
    assert_eq!(classify_key_event(0, 0, false, true, 0x47, Some(Key::KeyG)), HookAction::PassThrough);
    assert_eq!(classify_key_event(0, 0, false, false, 0x20, None), HookAction::WordEnd);
    assert_eq!(classify_key_event(0, 0, false, false, 0x08, None), HookAction::Backspace);
    assert_eq!(classify_key_event(0, 0, false, false, 0x47, Some(Key::KeyG)), HookAction::Type(Key::KeyG));
    assert_eq!(classify_key_event(0, 0, false, false, 0x25, None), HookAction::CaretMoved);
    assert_eq!(classify_key_event(0, 0, false, false, 0x10, None), HookAction::PassThrough);
}

#[test]
fn key_actions_update_the_buffer() {
    let mut b = Buffer::new();
    apply_to_buffer(&mut b, HookAction::Type(Key::KeyG), true);
    apply_to_buffer(&mut b, HookAction::Type(Key::KeyH), false);
    apply_to_buffer(&mut b, HookAction::PassThrough, false);
    assert_eq!(b.strokes(), &[Stroke::new(Key::KeyG, true), Stroke::new(Key::KeyH, false)][..]);
    apply_to_buffer(&mut b, HookAction::Backspace, false);
    assert_eq!(b.len(), 1);
    apply_to_buffer(&mut b, HookAction::CaretMoved, false);
    assert!(b.is_empty());
}

#[test]
fn focus_changes_are_noticed() {
    let mut last = 0isize;
    assert!(note_focus(&mut last, 42));
    assert!(!note_focus(&mut last, 42));
    assert!(note_focus(&mut last, 7));
    assert_eq!(last, 7);
}

#[test]
fn keys_pressed_during_a_correction_are_replayed_in_order() {
    let mut lock = InjectionLock::new();
    assert!(!lock.locked());
    acquire_injection_lock(&mut lock);
    assert!(lock.locked());
    let a = HeldKey { vk: 0x41, scan: 30, flags: 0, time: 1 };
    let b = HeldKey { vk: 0x42, scan: 48, flags: 0, time: 2 };
    lock.hold(a);
    lock.hold(b);
    assert_eq!(release_injection_lock_and_flush(&mut lock), vec![a, b]);
    assert!(!lock.locked());
    assert!(release_injection_lock_and_flush(&mut lock).is_empty());
}

#[test]
fn the_macos_backend_is_inert() {
    assert!(active_window::get_active_window_info().is_none());
    active_window::update_blacklist(vec!["code.exe".to_string()]);
    assert_eq!(mac_layout::get_installed_layouts(), vec![LayoutId::UsQwerty, LayoutId::RuYcuken]);
    assert!(mac_layout::switch_layout(LayoutId::RuYcuken).is_ok());
    assert_eq!(password::is_focused_field_password(), None);
    let mut locked = false;
    hook::acquire_injection_lock(&mut locked);
    assert!(locked);
    hook::release_injection_lock_and_flush(&mut locked);
    assert!(!locked);
    assert_eq!(hook::run_hook_loop(), Err("macOS hook cannot run on this platform".to_string()));
}

#[test]
fn default_settings_match_a_fresh_install() {
    let s = altshift::ui::AppSettings::default();
    assert!(s.enabled);
    assert_eq!(s.default_layout, "us-qwerty");
    assert_eq!(s.aggressiveness, 65);
    assert_eq!(s.blacklist, vec!["code.exe", "wezterm.exe", "1password.exe"]);
}

#[test]
fn a_focus_change_forgets_the_word_and_its_layout() {
    let mut b = Buffer::new();
    b.push(Stroke::new(Key::KeyG, false));
    let mut recent = Some(LayoutId::RuYcuken);
    let mut last = 1isize;
    assert!(!begin_word_end(&mut b, &mut recent, &mut last, 1));
    assert_eq!(b.len(), 1);
    assert_eq!(recent, Some(LayoutId::RuYcuken));
    assert!(begin_word_end(&mut b, &mut recent, &mut last, 2));
    assert!(b.is_empty());
    assert_eq!(recent, None);
    assert_eq!(last, 2);
}

#[test]
fn a_finished_word_updates_the_expected_layout() {
    let mut b = Buffer::new();
    let mut recent = None;
    b.push(Stroke::new(Key::KeyG, false));
    assert!(!finish_word(&mut b, &mut recent, WordOutcome::Left { current: LayoutId::UsQwerty }));
    assert!(b.is_empty());
    assert_eq!(recent, Some(LayoutId::UsQwerty));
    b.push(Stroke::new(Key::KeyG, false));
    assert!(finish_word(&mut b, &mut recent, WordOutcome::Corrected { target: LayoutId::RuYcuken, injected: true }));
    assert!(b.is_empty());
    assert_eq!(recent, Some(LayoutId::RuYcuken));
    assert!(finish_word(&mut b, &mut recent, WordOutcome::Corrected { target: LayoutId::UsQwerty, injected: false }));
    assert_eq!(recent, Some(LayoutId::RuYcuken));
    assert!(!finish_word(&mut b, &mut recent, WordOutcome::Unsupported));
    assert_eq!(recent, Some(LayoutId::RuYcuken));
}

#[test]
fn a_switch_needs_a_window_and_a_posted_request() {
    assert_eq!(check_window(0), Err(SwitchError::InvalidWindow));
    assert_eq!(check_window(0x1234), Ok(()));
    assert_eq!(check_window(-1), Ok(()));
    assert_eq!(post_outcome(true), Ok(()));
    assert_eq!(post_outcome(false), Err(SwitchError::NotPosted));
}

#[test]
fn an_injection_succeeds_only_when_every_event_was_sent() {
    assert_eq!(injection_result(8, 8), Ok(()));
    assert_eq!(injection_result(0, 0), Ok(()));
    assert_eq!(injection_result(8, 3), Err(InjectionShortfall { expected: 8, sent: 3 }));
    assert_eq!(injection_result(2, 0), Err(InjectionShortfall { expected: 2, sent: 0 }));
}

#[test]
fn an_empty_application_name_neither_teaches_nor_recalls() {
    let mut m = AppMemory::new();
    learn_app_layout(&mut m, "", LayoutId::RuYcuken);
    assert_eq!(get_learned_layout(&m, ""), None);
    learn_app_layout(&mut m, "Ü.EXE", LayoutId::RuYcuken);
    assert_eq!(get_learned_layout(&m, "ü.exe"), Some(LayoutId::RuYcuken));
    assert_eq!(get_learned_layout(&m, ""), None);
}

#[test]
fn the_layout_switches_only_after_a_correction_went_out() {
    assert_eq!(
        layout_to_switch(WordOutcome::Corrected { target: LayoutId::RuYcuken, injected: true }),
        Some(LayoutId::RuYcuken)
    );
    assert_eq!(layout_to_switch(WordOutcome::Corrected { target: LayoutId::RuYcuken, injected: false }), None);
    assert_eq!(layout_to_switch(WordOutcome::Left { current: LayoutId::UsQwerty }), None);
    assert_eq!(layout_to_switch(WordOutcome::Unsupported), None);
}

#[test]
fn the_word_end_summary_holds_only_counts_and_flags() {
    let mut buf = Buffer::new();
    for k in [Key::KeyG, Key::KeyH, Key::KeyB] {
        buf.push(Stroke::new(k, false));
    }
    let ctx = Context { is_password_field: Some(false), app_blocked: true, sentence_initial: false };
    let s = word_end_summary(
        &buf,
        LayoutId::UsQwerty,
        &[LayoutId::UsQwerty, LayoutId::RuYcuken],
        &ctx,
        DecisionNote::Left(Reason::BlockedApp),
    );
    assert_eq!(s.word_len, 3);
    assert_eq!(s.layout, LayoutId::UsQwerty);
    assert_eq!(s.available, vec![LayoutId::UsQwerty, LayoutId::RuYcuken]);
    assert_eq!(s.password_field, Some(false));
    assert!(s.app_blocked);
    assert_eq!(s.note, DecisionNote::Left(Reason::BlockedApp));
    let unknown = Context::default();
    let s = word_end_summary(&Buffer::new(), LayoutId::RuYcuken, &[], &unknown, DecisionNote::BelowThreshold);
    assert_eq!(s.word_len, 0);
    assert!(s.available.is_empty());
    assert_eq!(s.password_field, None);
    assert_eq!(s.note, DecisionNote::BelowThreshold);
}

#[test]
fn injected_keys_are_tagged_and_never_read_back() {
    let plan = injection_plan(2, "привет ");
    assert!(!plan.is_empty());
    for k in &plan {
        assert_eq!(k.extra_info, ALTSHIFT_MAGIC_INFO);
        for injecting in [false, true] {
            assert_eq!(
                classify_key_event(0, k.extra_info, injecting, k.key_up, 0x47, Some(Key::KeyG)),
                HookAction::PassThrough
            );
        }
    }
}
