//! The screen state machine: one live screen, the editing state of each
//! screen, key handling, and folding job messages into the processing view.
//! Work it cannot do itself (listing, opening and deleting files, running a
//! job) comes back to the caller as an `Action`.
use vstd::prelude::*;
use crate::ident::{extract_video_id, raw_id_of, sanitized};
use crate::input::{edited, InputField};
use crate::keys::{AppEvent, Key, MouseKind};
use crate::pipeline::{JobMessage, ProgressMessage};
use crate::progress::{clamped, log_entry, ring_push, ProgressBar};
use crate::report::{lower_of, lowercase};
use crate::storage::{FileEntry, FileList, FileType};
use crate::text::{chars_of, contains, contains_seq, push_str, trim};
use crate::transcript::{languages_of, parse_languages};
use crate::viewer::{page_size, scrolled, Viewer};

verus! {

/// Which artifacts the browse list shows.
#[derive(Debug, Clone, Copy, PartialEq, Eq, Structural)]
pub enum FileFilter {
    All,
    Transcripts,
    Reports,
}

/// What a background job is asked to do.
#[derive(Debug, Clone)]
pub struct TranscriptRequest {
    pub video_url: String,
    pub languages: Vec<String>,
    pub preserve_formatting: bool,
    pub generate_report: bool,
}

/// The live screen.
#[derive(Debug, Clone)]
pub enum AppState {
    Home,
    NewTranscript,
    Processing { video_id: String, job_id: u64 },
    Browser { filter: FileFilter, search: String },
    Viewer { file_path: String },
    Settings,
}

/// Work the caller performs after an event.
#[derive(Debug, Clone)]
pub enum Action {
    Nothing,
    /// Start a background job.
    Spawn { job_id: u64, video_id: String, request: TranscriptRequest },
    /// List storage again and hand the listing back.
    RefreshFiles,
    /// Read a file and hand its content back.
    OpenFile { path: String },
    /// Delete these files (each checked against the managed directories),
    /// then list storage again.
    DeleteFiles { paths: Vec<String> },
}

/// Number of options on the home screen.
pub const HOME_OPTIONS: usize = 4;

/// Number of focusable controls on the request form.
pub const FORM_CONTROLS: usize = 4;

/// Languages the request form starts with.
pub const DEFAULT_LANGUAGES: &'static str = "en,es";

pub struct App {
    pub state: AppState,
    pub should_quit: bool,
    pub selected_option: usize,
    pub url_input: InputField,
    pub languages_input: InputField,
    pub preserve_formatting: bool,
    pub generate_report: bool,
    pub input_focus: usize,
    pub file_list: FileList,
    pub search_input: InputField,
    pub filter: FileFilter,
    pub content_viewer: Option<Viewer>,
    pub viewer_height: u16,
    pub progress_bar: ProgressBar,
    /// Identifier the next job gets.
    pub next_job_id: u64,
}

/// Whether an artifact of this kind passes the filter.
pub open spec fn passes_filter(f: FileFilter, t: FileType) -> bool {
    match f {
        FileFilter::All => true,
        FileFilter::Transcripts => t == FileType::Transcript,
        FileFilter::Reports => t == FileType::Report,
    }
}

/// Whether an artifact stays in the browse list: it passes the filter and,
/// when a search is typed, its lowercased name contains the lowercased search.
pub open spec fn listed(e: FileEntry, f: FileFilter, search: Seq<char>) -> bool {
    passes_filter(f, e.file_type) && (lower_of(search).len() == 0 || contains_seq(
        lower_of(e.name@),
        lower_of(search),
    ))
}

/// The artifacts of a listing that the browse list shows, in listing order.
pub open spec fn filtered(all: Seq<FileEntry>, f: FileFilter, search: Seq<char>) -> Seq<FileEntry>
    decreases all.len(),
{
    if all.len() == 0 {
        Seq::empty()
    } else {
        let rest = filtered(all.drop_last(), f, search);
        if listed(all.last(), f, search) {
            rest.push(all.last())
        } else {
            rest
        }
    }
}

/// The identifier a URL yields when it is accepted.
pub open spec fn accepted_id(url: Seq<char>) -> Option<Seq<char>> {
    if trim(url).len() == 0 {
        None
    } else {
        match sanitized(raw_id_of(url)) {
            Ok(id) => Some(id),
            Err(_) => None,
        }
    }
}

pub open spec fn next_id(j: u64) -> u64 {
    if j < u64::MAX {
        (j + 1) as u64
    } else {
        0
    }
}

/// What ticks can change, as values.
pub struct TickView {
    /// The job being shown, when the processing screen is live.
    pub job: Option<u64>,
    pub home: bool,
    pub form: bool,
    pub progress: u32,
    pub message: Seq<char>,
    pub logs: Seq<Seq<char>>,
    pub refresh: bool,
}

/// One job message folded into the view: messages of the shown job update
/// progress, status and log; `Complete` returns home (and asks for a fresh
/// listing), `Failed` returns to the form with the error logged. Messages of
/// any other job are ignored.
pub open spec fn tick_step(v: TickView, m: JobMessage, stamp: Seq<char>, max_logs: nat) -> TickView {
    if v.job == Some(m.job_id) {
        match m.message {
            ProgressMessage::Progress(p) => TickView { progress: clamped(p), ..v },
            ProgressMessage::Status(s) => TickView { message: s@, ..v },
            ProgressMessage::Log(l) => TickView {
                logs: ring_push(v.logs, log_entry(stamp, l@), max_logs),
                ..v
            },
            ProgressMessage::Complete => TickView {
                job: None,
                home: true,
                form: false,
                progress: 0,
                message: Seq::empty(),
                logs: Seq::empty(),
                refresh: true,
            },
            ProgressMessage::Failed(e) => TickView {
                job: None,
                home: false,
                form: true,
                message: e@,
                logs: ring_push(v.logs, log_entry(stamp, "Error: "@ + e@), max_logs),
                ..v
            },
        }
    } else {
        v
    }
}

pub open spec fn tick_fold(v: TickView, ms: Seq<JobMessage>, stamp: Seq<char>, max_logs: nat) -> TickView
    decreases ms.len(),
{
    if ms.len() == 0 {
        v
    } else {
        tick_step(tick_fold(v, ms.drop_last(), stamp, max_logs), ms.last(), stamp, max_logs)
    }
}

/// Whether an input field consumes a key (see `edited`).
pub open spec fn field_handles(key: Key) -> bool {
    match key {
        Key::Char(_) | Key::Backspace | Key::Delete | Key::Left | Key::Right | Key::Home
        | Key::End => true,
        _ => false,
    }
}

/// Whether the browse list consumes a key (see `ScrollWindow::after_key`).
pub open spec fn list_handles(key: Key) -> bool {
    match key {
        Key::Up | Key::Down | Key::PageDown | Key::PageUp | Key::Home | Key::End => true,
        Key::Char(c) => c == ' ',
        _ => false,
    }
}

/// The request form as it is on entry: empty identifier field with focus,
/// default languages, both toggles on, focus on the first control.
pub open spec fn form_entered(o: App, n: App) -> bool {
    &&& n.state == AppState::NewTranscript
    &&& n.url_input.value@ == Seq::<char>::empty()
    &&& n.url_input.cursor == 0
    &&& n.url_input.focused
    &&& n.url_input.label == o.url_input.label
    &&& n.url_input.placeholder == o.url_input.placeholder
    &&& n.languages_input.value@ == DEFAULT_LANGUAGES@
    &&& n.languages_input.cursor == DEFAULT_LANGUAGES@.len()
    &&& !n.languages_input.focused
    &&& n.languages_input.label == o.languages_input.label
    &&& n.languages_input.placeholder == o.languages_input.placeholder
    &&& n == (App {
        state: n.state,
        url_input: n.url_input,
        languages_input: n.languages_input,
        input_focus: 0,
        preserve_formatting: true,
        generate_report: true,
        ..o
    })
}

/// Focus moved to the next form control, wrapping around.
pub open spec fn focus_cycled(o: App, n: App) -> bool {
    let f = ((o.input_focus + 1) % (FORM_CONTROLS as int)) as usize;
    n == (App {
        input_focus: f,
        url_input: InputField { focused: f == 0, ..o.url_input },
        languages_input: InputField { focused: f == 1, ..o.languages_input },
        ..o
    })
}

/// The progress view cleared.
pub open spec fn progress_cleared(o: ProgressBar, n: ProgressBar) -> bool {
    &&& n.progress == 0
    &&& n.message@ == Seq::<char>::empty()
    &&& n.logs@.len() == 0
    &&& n.max_logs == o.max_logs
}

/// Submitting the form: an accepted identifier enters the processing screen
/// for a new job and asks for it to be spawned; anything else changes nothing
/// and spawns nothing.
pub open spec fn submitted(o: App, n: App, r: Action) -> bool {
    match accepted_id(o.url_input.value@) {
        Some(id) => {
            &&& n.state matches AppState::Processing { video_id, job_id } && video_id@ == id
                && job_id == o.next_job_id
            &&& n.progress_bar.progress == 0
            &&& n.progress_bar.message@ == "Starting..."@
            &&& n.progress_bar.logs@.len() == 0
            &&& n.progress_bar.max_logs == o.progress_bar.max_logs
            &&& n == (App {
                state: n.state,
                progress_bar: n.progress_bar,
                next_job_id: next_id(o.next_job_id),
                ..o
            })
            &&& r matches Action::Spawn { job_id, video_id, request } && job_id == o.next_job_id
                && video_id@ == id && request.video_url@ == o.url_input.value@
                && request.languages@.map_values(|x: String| x@) == languages_of(
                o.languages_input.value@,
            ) && request.preserve_formatting == o.preserve_formatting && request.generate_report
                == o.generate_report
        },
        None => n == o && r is Nothing,
    }
}

/// A key typed into the focused form field (identifier or languages); with
/// a toggle focused, keys other than space change nothing.
pub open spec fn form_typed(o: App, n: App, key: Key, r: Action) -> bool {
    &&& r is Nothing
    &&& if o.input_focus == 0 {
        edited(o.url_input, n.url_input, key, field_handles(key)) && n == (App {
            url_input: n.url_input,
            ..o
        })
    } else if o.input_focus == 1 {
        edited(o.languages_input, n.languages_input, key, field_handles(key)) && n == (App {
            languages_input: n.languages_input,
            ..o
        })
    } else {
        n == o
    }
}

/// A key on the home menu.
pub open spec fn home_post(o: App, n: App, key: Key, r: Action) -> bool {
    match key {
        Key::Up => r is Nothing && n == (App {
            selected_option: if o.selected_option > 0 {
                (o.selected_option - 1) as usize
            } else {
                o.selected_option
            },
            ..o
        }),
        Key::Down => r is Nothing && n == (App {
            selected_option: if o.selected_option < HOME_OPTIONS - 1 {
                (o.selected_option + 1) as usize
            } else {
                o.selected_option
            },
            ..o
        }),
        Key::Char(c) => r is Nothing && if c == '1' {
            n == (App { selected_option: 0, ..o })
        } else if c == '2' {
            n == (App { selected_option: 1, ..o })
        } else if c == '3' {
            n == (App { selected_option: 2, ..o })
        } else if c == '4' {
            n == (App { selected_option: 3, ..o })
        } else if c == 'q' {
            n == (App { should_quit: true, ..o })
        } else {
            n == o
        },
        Key::Enter => if o.selected_option == 0 {
            form_entered(o, n) && r is Nothing
        } else if o.selected_option == 1 || o.selected_option == 2 {
            let f = if o.selected_option == 1 {
                FileFilter::Transcripts
            } else {
                FileFilter::Reports
            };
            &&& n.state matches AppState::Browser { filter, search } && filter == f && search@.len()
                == 0
            &&& n == (App { state: n.state, filter: f, ..o })
            &&& r is RefreshFiles
        } else {
            n == (App { state: AppState::Settings, ..o }) && r is Nothing
        },
        _ => n == o && r is Nothing,
    }
}

/// A key on the request form.
pub open spec fn form_post(o: App, n: App, key: Key, r: Action) -> bool {
    match key {
        Key::Esc => n == (App { state: AppState::Home, ..o }) && r is Nothing,
        Key::Tab => focus_cycled(o, n) && r is Nothing,
        Key::Enter => if o.input_focus < 2 {
            focus_cycled(o, n) && r is Nothing
        } else {
            submitted(o, n, r)
        },
        Key::Char(c) => if c == ' ' && o.input_focus == 2 {
            n == (App { preserve_formatting: !o.preserve_formatting, ..o }) && r is Nothing
        } else if c == ' ' && o.input_focus == 3 {
            n == (App { generate_report: !o.generate_report, ..o }) && r is Nothing
        } else {
            form_typed(o, n, key, r)
        },
        _ => form_typed(o, n, key, r),
    }
}

/// A key on the browse screen that is not one of its own commands: typed
/// into the search field when it has focus (asking for a fresh listing),
/// otherwise navigation of the list.
pub open spec fn browse_other(o: App, n: App, key: Key, r: Action) -> bool {
    if o.search_input.focused {
        &&& edited(o.search_input, n.search_input, key, field_handles(key))
        &&& n == (App { search_input: n.search_input, ..o })
        &&& r is RefreshFiles
    } else {
        &&& n.file_list.after_key(&o.file_list, key, list_handles(key))
        &&& n == (App { file_list: n.file_list, ..o })
        &&& r is Nothing
    }
}

/// A key on the browse screen.
pub open spec fn browse_post(o: App, n: App, key: Key, r: Action) -> bool {
    match key {
        Key::Esc => n == (App { state: AppState::Home, ..o }) && r is Nothing,
        Key::Enter => n == o && match o.file_list.selected {
            Some(i) => r matches Action::OpenFile { path } && path == o.file_list.items@[i as int].path,
            None => r is Nothing,
        },
        Key::Delete => n == o && (r matches Action::DeleteFiles { paths } && paths@.len()
            == o.file_list.selected_indices_spec().len() && forall|k: int|
            0 <= k < paths@.len() ==> paths@[k] == o.file_list.items@[o.file_list.selected_indices_spec()[k]].path),
        Key::Char(c) => if c == '/' {
            n == (App { search_input: InputField { focused: true, ..o.search_input }, ..o })
                && r is Nothing
        } else if c == '1' {
            n == (App { filter: FileFilter::All, ..o }) && r is RefreshFiles
        } else if c == '2' {
            n == (App { filter: FileFilter::Transcripts, ..o }) && r is RefreshFiles
        } else if c == '3' {
            n == (App { filter: FileFilter::Reports, ..o }) && r is RefreshFiles
        } else {
            browse_other(o, n, key, r)
        },
        _ => browse_other(o, n, key, r),
    }
}

/// A key on the viewer: Esc returns to the browse screen with the current
/// filter; other keys scroll the open viewer.
pub open spec fn viewer_post(o: App, n: App, key: Key, r: Action) -> bool {
    &&& r is Nothing
    &&& if key == Key::Esc {
        &&& n.state matches AppState::Browser { filter, search } && filter == o.filter
            && search@.len() == 0
        &&& n == (App { state: n.state, ..o })
    } else {
        match o.content_viewer {
            Some(v) => n == (App {
                content_viewer: Some(
                    Viewer {
                        scroll: scrolled(
                            v.scroll,
                            key,
                            v.wrapped_lines@.len() as usize,
                            page_size(o.viewer_height),
                        ),
                        ..v
                    },
                ),
                ..o
            }),
            None => n == o,
        }
    }
}

/// A key on the processing screen: Esc returns to the form and clears the
/// progress view (the job itself runs on); other keys change nothing.
pub open spec fn processing_post(o: App, n: App, key: Key, r: Action) -> bool {
    &&& r is Nothing
    &&& if key == Key::Esc {
        &&& progress_cleared(o.progress_bar, n.progress_bar)
        &&& n == (App { state: AppState::NewTranscript, progress_bar: n.progress_bar, ..o })
    } else {
        n == o
    }
}

/// What a key does on the live screen.
pub open spec fn key_post(o: App, n: App, key: Key, r: Action) -> bool {
    match o.state {
        AppState::Home => home_post(o, n, key, r),
        AppState::NewTranscript => form_post(o, n, key, r),
        AppState::Processing { .. } => processing_post(o, n, key, r),
        AppState::Browser { .. } => browse_post(o, n, key, r),
        AppState::Viewer { .. } => viewer_post(o, n, key, r),
        AppState::Settings => r is Nothing && if key == Key::Esc {
            n == (App { state: AppState::Home, ..o })
        } else {
            n == o
        },
    }
}

/// What a mouse event does: the wheel moves the browse list's selection or
/// scrolls the open viewer; elsewhere nothing changes.
pub open spec fn mouse_post(o: App, n: App, kind: MouseKind) -> bool {
    match o.state {
        AppState::Browser { .. } => n.file_list.after_mouse(&o.file_list, kind, !(kind is Other))
            && n == (App { file_list: n.file_list, ..o }),
        AppState::Viewer { .. } => match o.content_viewer {
            Some(v) => n == (App {
                content_viewer: Some(
                    Viewer {
                        scroll: match kind {
                            MouseKind::ScrollUp => scrolled(
                                v.scroll,
                                Key::Up,
                                v.wrapped_lines@.len() as usize,
                                page_size(o.viewer_height),
                            ),
                            MouseKind::ScrollDown => scrolled(
                                v.scroll,
                                Key::Down,
                                v.wrapped_lines@.len() as usize,
                                page_size(o.viewer_height),
                            ),
                            MouseKind::Other => v.scroll,
                        },
                        ..v
                    },
                ),
                ..o
            }),
            None => n == o,
        },
        _ => n == o,
    }
}

impl App {
    pub open spec fn wf(&self) -> bool {
        &&& self.url_input.wf()
        &&& self.languages_input.wf()
        &&& self.search_input.wf()
        &&& self.file_list.wf()
        &&& self.progress_bar.wf()
        &&& self.selected_option < HOME_OPTIONS
        &&& self.input_focus < FORM_CONTROLS
    }

    pub open spec fn tick_view(&self, refresh: bool) -> TickView {
        TickView {
            job: match self.state {
                AppState::Processing { job_id, .. } => Some(job_id),
                _ => None,
            },
            home: self.state is Home,
            form: self.state is NewTranscript,
            progress: self.progress_bar.progress,
            message: self.progress_bar.message@,
            logs: self.progress_bar.logs_view(),
            refresh,
        }
    }

    /// The application at start: home screen, the given listing in the
    /// browse list.
    pub fn new(files: Vec<FileEntry>) -> (r: App)
        ensures
            r.wf(),
            r.state is Home,
            !r.should_quit,
            r.file_list.items@ == files@,
    {
        App {
            state: AppState::Home,
            should_quit: false,
            selected_option: 0,
            url_input: InputField::new("Video URL", "https://youtu.be/..."),
            languages_input: InputField::new("Languages", DEFAULT_LANGUAGES),
            preserve_formatting: true,
            generate_report: true,
            input_focus: 0,
            file_list: FileList::new(files),
            search_input: InputField::new("Search", "Filter files..."),
            filter: FileFilter::All,
            content_viewer: None,
            viewer_height: 0,
            progress_bar: ProgressBar::new(),
            next_job_id: 0,
        }
    }

    /// Handles one input event.
    pub fn handle_event(&mut self, event: AppEvent) -> (r: Action)
        requires
            old(self).wf(),
        ensures
            final(self).wf(),
            match event {
                AppEvent::Quit => *final(self) == (App { should_quit: true, ..*old(self) })
                    && r is Nothing,
                AppEvent::Key(k) => key_post(*old(self), *final(self), k, r),
                AppEvent::Mouse(m) => mouse_post(*old(self), *final(self), m) && r is Nothing,
                AppEvent::Tick => *final(self) == *old(self) && r is Nothing,
            },
    {
        match event {
            AppEvent::Quit => {
                self.should_quit = true;
                Action::Nothing
            },
            AppEvent::Key(key) => self.handle_key(key),
            AppEvent::Mouse(kind) => {
                self.handle_mouse(kind);
                Action::Nothing
            },
            AppEvent::Tick => Action::Nothing,
        }
    }

    fn handle_mouse(&mut self, kind: MouseKind)
        requires
            old(self).wf(),
        ensures
            final(self).wf(),
            mouse_post(*old(self), *final(self), kind),
    {
        match self.state {
            AppState::Browser { .. } => {
                self.file_list.handle_mouse(kind);
            },
            AppState::Viewer { .. } => {
                let h = self.viewer_height;
                match &mut self.content_viewer {
                    Some(v) => v.handle_mouse(kind, h),
                    None => {},
                }
            },
            _ => {},
        }
    }

    /// Handles a key press on the live screen (see `key_post`).
    pub fn handle_key(&mut self, key: Key) -> (r: Action)
        requires
            old(self).wf(),
        ensures
            final(self).wf(),
            key_post(*old(self), *final(self), key, r),
    {
        match self.state {
            AppState::Home => self.handle_home_key(key),
            AppState::NewTranscript => self.handle_new_transcript_key(key),
            AppState::Browser { .. } => self.handle_browser_key(key),
            AppState::Viewer { .. } => {
                if key == Key::Esc {
                    self.state = AppState::Browser { filter: self.filter, search: String::new() };
                } else {
                    let h = self.viewer_height;
                    match &mut self.content_viewer {
                        Some(v) => v.handle_key(key, h),
                        None => {},
                    }
                }
                Action::Nothing
            },
            AppState::Processing { .. } => {
                if key == Key::Esc {
                    self.state = AppState::NewTranscript;
                    self.progress_bar.reset();
                }
                Action::Nothing
            },
            AppState::Settings => {
                if key == Key::Esc {
                    self.state = AppState::Home;
                }
                Action::Nothing
            },
        }
    }

    fn handle_home_key(&mut self, key: Key) -> (r: Action)
        requires
            old(self).wf(),
            old(self).state is Home,
        ensures
            final(self).wf(),
            home_post(*old(self), *final(self), key, r),
    {
        match key {
            Key::Up => {
                if self.selected_option > 0 {
                    self.selected_option = self.selected_option - 1;
                }
                Action::Nothing
            },
            Key::Down => {
                if self.selected_option < HOME_OPTIONS - 1 {
                    self.selected_option = self.selected_option + 1;
                }
                Action::Nothing
            },
            Key::Char(c) => {
                if c == '1' {
                    self.selected_option = 0;
                } else if c == '2' {
                    self.selected_option = 1;
                } else if c == '3' {
                    self.selected_option = 2;
                } else if c == '4' {
                    self.selected_option = 3;
                } else if c == 'q' {
                    self.should_quit = true;
                }
                Action::Nothing
            },
            Key::Enter => {
                if self.selected_option == 0 {
                    self.state = AppState::NewTranscript;
                    self.url_input.clear();
                    self.languages_input.set_value(DEFAULT_LANGUAGES);
                    self.url_input.focused = true;
                    self.languages_input.focused = false;
                    self.input_focus = 0;
                    self.preserve_formatting = true;
                    self.generate_report = true;
                    Action::Nothing
                } else if self.selected_option == 1 {
                    self.filter = FileFilter::Transcripts;
                    self.state = AppState::Browser {
                        filter: FileFilter::Transcripts,
                        search: String::new(),
                    };
                    Action::RefreshFiles
                } else if self.selected_option == 2 {
                    self.filter = FileFilter::Reports;
                    self.state = AppState::Browser {
                        filter: FileFilter::Reports,
                        search: String::new(),
                    };
                    Action::RefreshFiles
                } else {
                    self.state = AppState::Settings;
                    Action::Nothing
                }
            },
            _ => Action::Nothing,
        }
    }

    /// Moves focus to the next form control, wrapping around.
    pub fn cycle_input_focus(&mut self)
        requires
            old(self).wf(),
        ensures
            final(self).wf(),
            focus_cycled(*old(self), *final(self)),
    {
        self.url_input.focused = false;
        self.languages_input.focused = false;
        self.input_focus = (self.input_focus + 1) % FORM_CONTROLS;
        if self.input_focus == 0 {
            self.url_input.focused = true;
        } else if self.input_focus == 1 {
            self.languages_input.focused = true;
        }
    }

    fn handle_new_transcript_key(&mut self, key: Key) -> (r: Action)
        requires
            old(self).wf(),
            old(self).state is NewTranscript,
        ensures
            final(self).wf(),
            form_post(*old(self), *final(self), key, r),
    {
        match key {
            Key::Esc => {
                self.state = AppState::Home;
                Action::Nothing
            },
            Key::Tab => {
                self.cycle_input_focus();
                Action::Nothing
            },
            Key::Enter => {
                if self.input_focus < 2 {
                    self.cycle_input_focus();
                    Action::Nothing
                } else {
                    self.start_processing()
                }
            },
            _ => {
                let space = match key {
                    Key::Char(c) => c == ' ',
                    _ => false,
                };
                if space && self.input_focus == 2 {
                    self.preserve_formatting = !self.preserve_formatting;
                } else if space && self.input_focus == 3 {
                    self.generate_report = !self.generate_report;
                } else if self.input_focus == 0 {
                    self.url_input.handle_key(key);
                } else if self.input_focus == 1 {
                    self.languages_input.handle_key(key);
                }
                Action::Nothing
            },
        }
    }

    /// Validates the form and, for an accepted identifier, enters the
    /// processing screen and asks for a job (see `submitted`).
    fn start_processing(&mut self) -> (r: Action)
        requires
            old(self).wf(),
            old(self).state is NewTranscript,
        ensures
            final(self).wf(),
            submitted(*old(self), *final(self), r),
    {
        if !self.url_input.is_valid() {
            return Action::Nothing;
        }
        let id = match extract_video_id(self.url_input.value.as_str()) {
            Some(id) => id,
            None => {
                return Action::Nothing;
            },
        };
        let request = TranscriptRequest {
            video_url: self.url_input.value.clone(),
            languages: parse_languages(self.languages_input.value.as_str()),
            preserve_formatting: self.preserve_formatting,
            generate_report: self.generate_report,
        };
        let job_id = self.next_job_id;
        self.next_job_id = if self.next_job_id < u64::MAX {
            self.next_job_id + 1
        } else {
            0
        };
        self.state = AppState::Processing { video_id: id.clone(), job_id };
        self.progress_bar.reset();
        self.progress_bar.set_message("Starting...".to_owned());
        Action::Spawn { job_id, video_id: id, request }
    }

    fn handle_browser_key(&mut self, key: Key) -> (r: Action)
        requires
            old(self).wf(),
            old(self).state is Browser,
        ensures
            final(self).wf(),
            browse_post(*old(self), *final(self), key, r),
    {
        match key {
            Key::Esc => {
                self.state = AppState::Home;
                Action::Nothing
            },
            Key::Enter => match self.file_list.get_selected() {
                Some(file) => Action::OpenFile { path: file.path.clone() },
                None => Action::Nothing,
            },
            Key::Delete => {
                let items = self.file_list.get_selected_items();
                let mut paths: Vec<String> = Vec::new();
                let mut k: usize = 0;
                while k < items.len()
                    invariant
                        k <= items@.len(),
                        paths@.len() == k,
                        forall|j: int| 0 <= j < k ==> paths@[j] == items@[j].path,
                    decreases items@.len() - k,
                {
                    paths.push(items[k].path.clone());
                    k = k + 1;
                }
                Action::DeleteFiles { paths }
            },
            Key::Char('/') => {
                self.search_input.focused = true;
                Action::Nothing
            },
            Key::Char('1') => {
                self.filter = FileFilter::All;
                Action::RefreshFiles
            },
            Key::Char('2') => {
                self.filter = FileFilter::Transcripts;
                Action::RefreshFiles
            },
            Key::Char('3') => {
                self.filter = FileFilter::Reports;
                Action::RefreshFiles
            },
            _ => {
                if self.search_input.focused {
                    self.search_input.handle_key(key);
                    Action::RefreshFiles
                } else {
                    self.file_list.handle_key(key);
                    Action::Nothing
                }
            },
        }
    }

    /// Replaces the browse list with the artifacts of a fresh storage
    /// listing that pass the filter and the search.
    pub fn receive_listing(&mut self, all: Vec<FileEntry>)
        requires
            old(self).wf(),
        ensures
            final(self).wf(),
            final(self).file_list.items@ == filtered(
                all@,
                old(self).filter,
                old(self).search_input.value@,
            ),
            *final(self) == (App { file_list: final(self).file_list, ..*old(self) }),
            final(self).file_list.selected_items@ == Seq::new(
                final(self).file_list.items@.len(),
                |_i: int| false,
            ),
            final(self).file_list.viewport_size == old(self).file_list.viewport_size,
            ({
                let n = final(self).file_list.items@.len();
                &&& n == 0 ==> final(self).file_list.selected is None
                &&& n > 0 ==> final(self).file_list.selected == Some(
                    match old(self).file_list.selected {
                        Some(s) => if s < n {
                            s
                        } else {
                            (n - 1) as usize
                        },
                        None => 0usize,
                    },
                )
            }),
    {
        let term = lowercase(self.search_input.value.as_str());
        let tv = chars_of(term.as_str());
        let ghost f = self.filter;
        let ghost search = self.search_input.value@;
        let mut out: Vec<FileEntry> = Vec::new();
        assert(out@ =~= filtered(all@.subrange(0, 0), self.filter, self.search_input.value@));
        let mut rest = all;
        let ghost full = rest@;
        let n = rest.len();
        let mut k: usize = 0;
        while k < n
            invariant
                k <= n == full.len(),
                rest@ == full.subrange(k as int, n as int),
                tv@ == lower_of(search),
                f == self.filter,
                search == self.search_input.value@,
                out@ == filtered(full.subrange(0, k as int), f, search),
            decreases n - k,
        {
            assert(full.subrange(0, k + 1).drop_last() =~= full.subrange(0, k as int));
            let e = rest.remove(0);
            assert(rest@ =~= full.subrange(k + 1, n as int));
            let pass = match self.filter {
                FileFilter::All => true,
                FileFilter::Transcripts => matches!(e.file_type, FileType::Transcript),
                FileFilter::Reports => matches!(e.file_type, FileType::Report),
            };
            let keep = if !pass {
                false
            } else if tv.len() == 0 {
                true
            } else {
                let name = lowercase(e.name.as_str());
                let nv = chars_of(name.as_str());
                contains(&nv, &tv)
            };
            if keep {
                out.push(e);
            }
            k = k + 1;
        }
        assert(full.subrange(0, n as int) =~= full);
        self.file_list.update_items(out);
    }

    /// Shows a file's content in the viewer.
    pub fn open_viewer(&mut self, content: String, path: String)
        requires
            old(self).wf(),
        ensures
            final(self).wf(),
            final(self).state matches AppState::Viewer { file_path } && file_path == path,
            final(self).content_viewer matches Some(v) && v.content == content && v.scroll == 0,
    {
        let viewer = Viewer::new(content, path.clone());
        self.content_viewer = Some(viewer);
        self.state = AppState::Viewer { file_path: path };
    }

    /// Folds one job message into the processing view (see `tick_step`).
    fn apply_message(&mut self, m: &JobMessage, stamp: &str) -> (refresh: bool)
        requires
            old(self).wf(),
        ensures
            final(self).wf(),
            final(self).tick_view(refresh) == tick_step(
                old(self).tick_view(false),
                *m,
                stamp@,
                old(self).progress_bar.max_logs as nat,
            ),
            final(self).progress_bar.max_logs == old(self).progress_bar.max_logs,
            *final(self) == (App {
                state: final(self).state,
                progress_bar: final(self).progress_bar,
                ..*old(self)
            }),
            !(old(self).state is Processing) ==> *final(self) == *old(self),
            final(self).state is Processing ==> final(self).state == old(self).state,
            final(self).state == old(self).state || final(self).state is Home
                || final(self).state is NewTranscript,
    {
        let current = match self.state {
            AppState::Processing { job_id, .. } => job_id == m.job_id,
            _ => false,
        };
        if !current {
            return false;
        }
        match &m.message {
            ProgressMessage::Progress(p) => {
                self.progress_bar.set_progress(*p);
                false
            },
            ProgressMessage::Status(s) => {
                self.progress_bar.set_message(s.clone());
                false
            },
            ProgressMessage::Log(l) => {
                self.progress_bar.add_log_at(stamp, l.as_str());
                false
            },
            ProgressMessage::Complete => {
                self.state = AppState::Home;
                self.progress_bar.reset();
                assert(self.progress_bar.logs_view() =~= Seq::<Seq<char>>::empty());
                true
            },
            ProgressMessage::Failed(e) => {
                self.state = AppState::NewTranscript;
                let mut entry = String::new();
                push_str(&mut entry, "Error: ");
                push_str(&mut entry, e.as_str());
                self.progress_bar.add_log_at(stamp, entry.as_str());
                self.progress_bar.set_message(e.clone());
                false
            },
        }
    }

    /// Drains one tick's job messages, in order, stamping log lines with
    /// `stamp`. Asks for a fresh listing when a job completed.
    pub fn handle_tick_at(&mut self, messages: &Vec<JobMessage>, stamp: &str) -> (r: Action)
        requires
            old(self).wf(),
        ensures
            final(self).wf(),
            final(self).tick_view(r is RefreshFiles) == tick_fold(
                old(self).tick_view(false),
                messages@,
                stamp@,
                old(self).progress_bar.max_logs as nat,
            ),
            *final(self) == (App {
                state: final(self).state,
                progress_bar: final(self).progress_bar,
                ..*old(self)
            }),
            !(old(self).state is Processing) ==> *final(self) == *old(self),
            final(self).state is Processing ==> final(self).state == old(self).state,
            final(self).state == old(self).state || final(self).state is Home
                || final(self).state is NewTranscript,
    {
        let ghost o: App = *self;
        let ghost start = self.tick_view(false);
        let ghost max = self.progress_bar.max_logs as nat;
        let mut refresh = false;
        let mut k: usize = 0;
        while k < messages.len()
            invariant
                k <= messages@.len(),
                self.wf(),
                max == self.progress_bar.max_logs as nat,
                self.tick_view(refresh) == tick_fold(start, messages@.subrange(0, k as int), stamp@, max),
                *self == (App { state: self.state, progress_bar: self.progress_bar, ..o }),
                !(o.state is Processing) ==> *self == o,
                self.state is Processing ==> self.state == o.state,
                self.state == o.state || self.state is Home || self.state is NewTranscript,
            decreases messages@.len() - k,
        {
            assert(messages@.subrange(0, k + 1).drop_last() =~= messages@.subrange(0, k as int));
            let ghost before = self.tick_view(refresh);
            let ghost before_false = self.tick_view(false);
            let done = self.apply_message(&messages[k], stamp);
            proof {
                lemma_tick_refresh(before, before_false, messages@[k as int], stamp@, max, refresh);
            }
            refresh = refresh || done;
            k = k + 1;
        }
        assert(messages@.subrange(0, k as int) =~= messages@);
        if refresh {
            Action::RefreshFiles
        } else {
            Action::Nothing
        }
    }
}

/// Folding a message keeps an earlier request for a fresh listing.
proof fn lemma_tick_refresh(
    before: TickView,
    before_false: TickView,
    m: JobMessage,
    stamp: Seq<char>,
    max: nat,
    refresh: bool,
)
    requires
        before == (TickView { refresh, ..before_false }),
        !before_false.refresh,
    ensures
        ({
            let a = tick_step(before_false, m, stamp, max);
            let b = tick_step(before, m, stamp, max);
            b == (TickView { refresh: a.refresh || refresh, ..a })
        }),
{
}

} // verus!
