use vidio::app::{Action, App, AppState};
use vidio::input::InputField;
use vidio::keys::{AppEvent, EventHandler, Key, MouseKind, POLL_INTERVAL_MS};
use vidio::pipeline::{Job, JobMessage, JobStage, JobWork, ProgressMessage};
use vidio::progress::ProgressBar;
use vidio::scroll::ScrollWindow;
use vidio::viewer::Viewer;

fn type_text(app: &mut App, s: &str) {
    for c in s.chars() {
        app.handle_key(Key::Char(c));
    }
}

fn to_form(app: &mut App) {
    app.handle_key(Key::Enter);
    assert!(matches!(app.state, AppState::NewTranscript));
}

#[test]
fn valid_request_starts_job_and_failure_returns_to_form() {
    let mut app = App::new(vec![]);
    to_form(&mut app);
    type_text(&mut app, "abc_DEF-123");
    assert_eq!(app.languages_input.value, "en,es");
    app.handle_key(Key::Enter);
    app.handle_key(Key::Enter);
    assert_eq!(app.input_focus, 2);
    let action = app.handle_key(Key::Enter);
    let job = match action {
        Action::Spawn { job_id, video_id, request } => {
            assert_eq!(video_id, "abc_DEF-123");
            assert_eq!(request.languages, vec!["en".to_string(), "es".to_string()]);
            assert_eq!(request.video_url, "abc_DEF-123");
            job_id
        }
        other => panic!("expected a spawn, got {other:?}"),
    };
    assert!(matches!(app.state, AppState::Processing { job_id, .. } if job_id == job));
    let msgs = vec![
        JobMessage { job_id: job, message: ProgressMessage::Progress(250) },
        JobMessage { job_id: job, message: ProgressMessage::Failed("network error".to_string()) },
    ];
    let action = app.handle_tick_at(&msgs, "12:00:00");
    assert!(matches!(action, Action::Nothing));
    assert!(matches!(app.state, AppState::NewTranscript));
    assert_eq!(app.progress_bar.logs, vec!["[12:00:00] Error: network error".to_string()]);
    assert_eq!(app.progress_bar.message, "network error");
}

#[test]
fn invalid_identifier_is_rejected_without_a_job() {
    let mut app = App::new(vec![]);
    to_form(&mut app);
    type_text(&mut app, "../etc/passwd");
    app.input_focus = 2;
    let action = app.handle_key(Key::Enter);
    assert!(matches!(action, Action::Nothing));
    assert!(matches!(app.state, AppState::NewTranscript));
    assert_eq!(app.next_job_id, 0);
}

#[test]
fn completion_returns_home_and_stale_jobs_are_ignored() {
    let mut app = App::new(vec![]);
    to_form(&mut app);
    type_text(&mut app, "abc");
    app.input_focus = 2;
    let _ = app.handle_key(Key::Enter);
    let msgs = vec![
        JobMessage { job_id: 7, message: ProgressMessage::Complete },
        JobMessage { job_id: 0, message: ProgressMessage::Log("Fetching".to_string()) },
        JobMessage { job_id: 0, message: ProgressMessage::Status("Downloading".to_string()) },
    ];
    assert!(matches!(app.handle_tick_at(&msgs, "01:02:03"), Action::Nothing));
    assert!(matches!(app.state, AppState::Processing { .. }));
    assert_eq!(app.progress_bar.logs, vec!["[01:02:03] Fetching".to_string()]);
    assert_eq!(app.progress_bar.message, "Downloading");
    let done = vec![JobMessage { job_id: 0, message: ProgressMessage::Complete }];
    assert!(matches!(app.handle_tick_at(&done, "01:02:04"), Action::RefreshFiles));
    assert!(matches!(app.state, AppState::Home));
    assert!(app.progress_bar.logs.is_empty());
}

#[test]
fn cancel_returns_to_form() {
    let mut app = App::new(vec![]);
    to_form(&mut app);
    type_text(&mut app, "abc");
    app.input_focus = 2;
    let _ = app.handle_key(Key::Enter);
    app.handle_key(Key::Esc);
    assert!(matches!(app.state, AppState::NewTranscript));
    app.handle_key(Key::Esc);
    assert!(matches!(app.state, AppState::Home));
    app.handle_event(AppEvent::Quit);
    assert!(app.should_quit);
}

#[test]
fn home_menu_navigation() {
    let mut app = App::new(vec![]);
    app.handle_key(Key::Down);
    app.handle_key(Key::Down);
    app.handle_key(Key::Down);
    app.handle_key(Key::Down);
    assert_eq!(app.selected_option, 3);
    assert!(matches!(app.handle_key(Key::Enter), Action::Nothing));
    assert!(matches!(app.state, AppState::Settings));
    app.handle_key(Key::Esc);
    app.handle_key(Key::Char('2'));
    assert!(matches!(app.handle_key(Key::Enter), Action::RefreshFiles));
    assert!(matches!(app.state, AppState::Browser { .. }));
    app.open_viewer("# Hi".to_string(), "reports/report_a.md".to_string());
    assert!(matches!(app.state, AppState::Viewer { .. }));
    app.handle_key(Key::Esc);
    assert!(matches!(app.state, AppState::Browser { .. }));
}

#[test]
fn progress_is_clamped_on_receipt() {
    let mut p = ProgressBar::new();
    p.set_progress(-500);
    assert_eq!(p.progress, 0);
    p.set_progress(1700);
    assert_eq!(p.progress, 1000);
    p.set_progress(250);
    assert_eq!(p.progress, 250);
}

#[test]
fn log_ring_drops_oldest() {
    let mut p = ProgressBar::new();
    for i in 0..12 {
        p.add_log_at("t", &format!("line {i}"));
    }
    assert_eq!(p.logs.len(), 10);
    assert_eq!(p.logs[0], "[t] line 2");
    assert_eq!(p.logs[9], "[t] line 11");
    p.reset();
    assert!(p.logs.is_empty() && p.progress == 0 && p.message.is_empty());
}

#[test]
fn replacing_items_reclamps_selection() {
    let mut w = ScrollWindow::new((0..10).collect::<Vec<u32>>());
    w.set_viewport_size(4);
    w.go_end();
    assert_eq!(w.selected, Some(9));
    w.update_items(vec![1u32, 2, 3]);
    assert_eq!(w.selected, Some(2));
    assert_eq!(w.offset, 0);
    assert_eq!(w.selected_items, vec![false; 3]);
    w.update_items(vec![]);
    assert_eq!(w.selected, None);
}

fn visible(w: &ScrollWindow<u32>) -> bool {
    let n = w.items.len();
    match w.selected {
        None => n == 0,
        Some(s) => {
            s < n
                && w.offset <= s
                && s < w.offset + w.viewport_size
                && w.offset + w.viewport_size <= n.max(w.viewport_size)
        }
    }
}

#[test]
fn selection_stays_visible() {
    let mut w = ScrollWindow::new((0..25).collect::<Vec<u32>>());
    w.set_viewport_size(6);
    let keys = [Key::Down, Key::PageDown, Key::PageDown, Key::End, Key::Up, Key::Home, Key::Up];
    for k in keys {
        assert!(w.handle_key(k));
        assert!(visible(&w));
    }
    assert_eq!(w.selected, Some(24));
    w.next();
    assert_eq!(w.selected, Some(0));
    w.page_down();
    assert_eq!(w.selected, Some(6));
    w.page_up();
    assert_eq!(w.selected, Some(0));
    w.set_viewport_size(0);
    assert!(visible(&w));
    w.handle_mouse(MouseKind::ScrollDown);
    assert_eq!(w.selected, Some(1));
    w.toggle_selected();
    w.toggle_mark(3);
    assert_eq!(w.selected_indices(), vec![1, 3]);
    assert_eq!(w.get_selected_items(), vec![&1u32, &3u32]);
    assert!(!w.handle_key(Key::Char('x')));
}

#[test]
fn input_field_editing() {
    let mut f = InputField::new("Label", "hint");
    assert!(!f.is_valid());
    for c in "héllo".chars() {
        f.handle_key(Key::Char(c));
    }
    f.handle_key(Key::Left);
    f.handle_key(Key::Backspace);
    assert_eq!(f.value, "hélo");
    f.handle_key(Key::Home);
    f.handle_key(Key::Delete);
    assert_eq!(f.value, "élo");
    f.handle_key(Key::End);
    assert_eq!(f.cursor, 3);
    assert!(f.is_valid());
    assert!(!f.handle_key(Key::Tab));
    f.clear();
    assert_eq!(f.value, "");
}

#[test]
fn job_pipeline_runs_in_order_and_stops_on_failure() {
    let (mut job, msgs, work) = Job::start(false, false, true);
    assert_eq!(work, JobWork::FetchTranscript);
    assert_eq!(msgs[0], ProgressMessage::Status("Starting processing...".to_string()));
    let (_, work) = job.advance(Ok(()));
    assert_eq!(work, JobWork::SaveTranscript);
    let (_, work) = job.advance(Ok(()));
    assert_eq!(work, JobWork::GenerateReport);
    let (msgs, work) = job.advance(Err("quota".to_string()));
    assert_eq!(work, JobWork::Nothing);
    assert_eq!(job.stage, JobStage::Finished);
    assert_eq!(msgs.last(), Some(&ProgressMessage::Failed("quota".to_string())));
    assert_eq!(msgs[0], ProgressMessage::Log("Error generating report: quota".to_string()));
    let (msgs, _) = job.advance(Ok(()));
    assert!(msgs.is_empty());

    let (job, msgs, work) = Job::start(true, true, true);
    assert_eq!(job.stage, JobStage::Finished);
    assert_eq!(work, JobWork::Nothing);
    assert_eq!(msgs.last(), Some(&ProgressMessage::Complete));
    let (_, _, work) = Job::start(true, false, true);
    assert_eq!(work, JobWork::GenerateReport);
    let (mut job, _, _) = Job::start(false, false, false);
    job.advance(Ok(()));
    let (msgs, work) = job.advance(Ok(()));
    assert_eq!(work, JobWork::Nothing);
    assert_eq!(msgs.last(), Some(&ProgressMessage::Complete));
}

#[test]
fn viewer_scrolls_and_relayouts() {
    let text = (0..30).map(|i| format!("line {i}\n\n")).collect::<String>();
    let mut v = Viewer::new(text, "t".to_string());
    v.ensure_layout(40, 12);
    let n = v.wrapped_lines.len();
    assert_eq!(n, 60);
    v.handle_key(Key::End, 12);
    assert_eq!(v.scroll, n - 10);
    v.handle_key(Key::Down, 12);
    assert_eq!(v.scroll, n - 10);
    v.handle_key(Key::PageUp, 12);
    assert_eq!(v.scroll, n - 20);
    v.handle_mouse(MouseKind::ScrollUp, 12);
    assert_eq!(v.scroll, n - 21);
    v.handle_key(Key::Char('g'), 12);
    assert_eq!(v.scroll, 0);
    v.scroll = 1000;
    v.ensure_layout(50, 12);
    assert_eq!(v.scroll, n - 10);
    assert_eq!(EventHandler::new().poll_interval_ms, POLL_INTERVAL_MS);
}

#[test]
fn form_is_reset_on_entry_and_controls_cycle() {
    let mut app = App::new(vec![]);
    app.preserve_formatting = false;
    app.generate_report = false;
    to_form(&mut app);
    assert!(app.preserve_formatting && app.generate_report);
    assert!(app.url_input.focused && !app.languages_input.focused);
    app.handle_key(Key::Tab);
    assert_eq!(app.input_focus, 1);
    assert!(!app.url_input.focused && app.languages_input.focused);
    app.handle_key(Key::Char(' '));
    assert_eq!(app.languages_input.value, "en,es ");
    app.handle_key(Key::Tab);
    app.handle_key(Key::Char(' '));
    assert!(!app.preserve_formatting);
    app.handle_key(Key::Tab);
    app.handle_key(Key::Char(' '));
    assert!(!app.generate_report);
    app.handle_key(Key::Char('x'));
    assert_eq!(app.url_input.value, "");
    app.handle_key(Key::Tab);
    assert_eq!(app.input_focus, 0);
    assert!(app.url_input.focused);
}

#[test]
fn rejected_submit_keeps_progress_and_other_jobs_change_nothing() {
    let mut app = App::new(vec![]);
    app.progress_bar.add_log_at("t", "kept");
    to_form(&mut app);
    type_text(&mut app, "bad id!");
    app.input_focus = 2;
    assert!(matches!(app.handle_key(Key::Enter), Action::Nothing));
    assert_eq!(app.progress_bar.logs, vec!["[t] kept".to_string()]);
    app.handle_key(Key::Esc);
    app.handle_key(Key::Char('2'));
    app.handle_key(Key::Enter);
    let msgs = vec![
        JobMessage { job_id: 3, message: ProgressMessage::Complete },
        JobMessage { job_id: 3, message: ProgressMessage::Failed("x".to_string()) },
    ];
    assert!(matches!(app.handle_tick_at(&msgs, "t"), Action::Nothing));
    assert!(matches!(app.state, AppState::Browser { .. }));
    assert_eq!(app.progress_bar.logs, vec!["[t] kept".to_string()]);
    assert!(matches!(app.handle_event(AppEvent::Tick), Action::Nothing));
    assert!(matches!(app.handle_event(AppEvent::Key(Key::Esc)), Action::Nothing));
    assert!(matches!(app.state, AppState::Home));
}
