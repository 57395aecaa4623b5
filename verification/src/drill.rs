//! Keys on the pipeline drill-in: the tree, the log pane beside it, and which of them has
//! the keys. What a key asks of the rest of the app (leave, trigger, approve, cancel, open
//! in a browser, a toast) comes back as an action.
use vstd::prelude::*;

use crate::keys::Key;
use crate::logs::{
    at_bottom, error_jumped, log_polled, match_stepped, scrolled, search_committed, text_set, LogView,
    LOG_INFLIGHT_TIMEOUT_TICKS,
};
use crate::pipes::{log_fetch_key, log_fetch_key_spec};
use crate::pipeline::{is_active_spec, job_status_or_run, logs_retargeted, sel_moved, sel_toggled, PipelineView};
use crate::text::push_str;
use crate::text::{chars_of, push_char};

verus! {

/// What a key on the drill-in asks of the app around it.
pub enum DrillAction {
    /// Handled here; nothing more to do.
    Stay,
    /// Say this in the status line.
    Toast(String),
    /// Leave the drill-in for where it was opened from.
    Leave,
    /// Offer to trigger a new run of this pipeline.
    Trigger,
    /// Offer the pending gates to approve or reject.
    Approve,
    /// Offer to cancel the run.
    Cancel,
    /// Open the selected node in the browser.
    OpenSelected,
}

pub open spec fn lit_no_search() -> Seq<char> {
    "No search yet \u{2014} press / to search the log"@
}

pub open spec fn lit_no_matches() -> Seq<char> {
    "No matches"@
}

pub open spec fn lit_widen() -> Seq<char> {
    "Widen the terminal to 90+ columns to see the tree beside the logs"@
}

pub open spec fn lit_select_job() -> Seq<char> {
    "Select a job or step to view its logs"@
}

/// The view is `o` with only its log pane changed.
pub open spec fn pane_changed(o: PipelineView, n: PipelineView) -> bool {
    n == (PipelineView { logs: n.logs, ..o })
}

/// What a key does to the open log pane `l` (no search being typed), as pane `m`.
pub open spec fn pane_key(l: LogView, m: LogView, key: Key) -> bool {
    match key {
        Key::Up | Key::Char('k') => scrolled(l, m, -1),
        Key::Down | Key::Char('j') => scrolled(l, m, 1),
        Key::PageUp | Key::Char('b') => scrolled(l, m, -15),
        Key::PageDown | Key::Char(' ') => scrolled(l, m, 15),
        Key::Home | Key::Char('g') => m == (LogView { scroll: 0, follow: false, ..l }),
        Key::End | Key::Char('G') => at_bottom(l, m),
        Key::Char('f') => if l.follow {
            m == (LogView { follow: false, scroll: l.max_scroll_spec() as u16, ..l })
        } else {
            at_bottom(l, m)
        },
        Key::Char('E') => error_jumped(l, m),
        Key::Char('/') => m.search_input matches Some(t) && t@.len() == 0 && m == (LogView {
            search_input: m.search_input,
            ..l
        }),
        _ => m == l,
    }
}

/// What a key does to the search being typed into pane `l`, as pane `m`.
pub open spec fn input_key(l: LogView, input: Seq<char>, m: LogView, key: Key) -> bool {
    match key {
        Key::Escape => m == (LogView { search_input: None, ..l }),
        Key::Enter => search_committed(l, m),
        Key::Backspace => m.search_input matches Some(t) && t@ == (if input.len() > 0 {
            input.drop_last()
        } else {
            input
        }) && m == (LogView { search_input: m.search_input, ..l }),
        Key::Char(c) => m.search_input matches Some(t) && t@ == input.push(c) && m == (LogView {
            search_input: m.search_input,
            ..l
        }),
        _ => m == l,
    }
}

/// What a key does while the log pane has the keys: `o` becomes `n`, saying `toast`.
pub open spec fn log_key_done(o: PipelineView, n: PipelineView, key: Key, toast: Option<Seq<char>>) -> bool {
    match o.logs {
        None => n == o && toast is None,
        Some(l) => match l.search_input {
            Some(input) => {
                &&& toast is None
                &&& pane_changed(o, n)
                &&& n.logs matches Some(m) && input_key(l, input@, m, key)
            },
            None => match key {
                Key::Char('n') | Key::Char('N') => if l.query is None {
                    n == o && toast == Some(lit_no_search())
                } else if l.matches@.len() == 0 {
                    n == o && toast == Some(lit_no_matches())
                } else {
                    &&& toast is None
                    &&& pane_changed(o, n)
                    &&& n.logs matches Some(m) && match_stepped(l, m, key == Key::Char('n'))
                },
                Key::Escape | Key::Char('q') | Key::Char('L') => toast is None && n == (PipelineView {
                    logs: None,
                    log_focus: true,
                    ..o
                }),
                _ => {
                    &&& toast is None
                    &&& pane_changed(o, n)
                    &&& n.logs matches Some(m) && pane_key(l, m, key)
                },
            },
        },
    }
}

/// `t` with its last character removed (unchanged when empty).
fn pop_last(t: &String) -> (r: String)
    ensures
        r@ == (if t@.len() > 0 {
            t@.drop_last()
        } else {
            t@
        }),
{
    let v = chars_of(t.as_str());
    let mut out = String::new();
    if v.len() == 0 {
        return out;
    }
    let mut i: usize = 0;
    while i < v.len() - 1
        invariant
            v@ == t@,
            v@.len() > 0,
            i <= v@.len() - 1,
            out@ == t@.take(i as int),
        decreases v@.len() - 1 - i,
    {
        push_char(&mut out, v[i]);
        i += 1;
        assert(out@ =~= t@.take(i as int));
    }
    assert(t@.take(i as int) =~= t@.drop_last());
    out
}

fn toast_of(t: &str) -> (r: Option<String>)
    ensures
        r matches Some(s) && s@ == t@,
{
    Some(t.to_owned())
}

/// Applies a key to the search being typed into `log`.
fn input_key_exec(log: &mut LogView, key: Key)
    requires
        old(log).search_input is Some,
    ensures
        input_key(*old(log), old(log).search_input->0@, *final(log), key),
{
    let input = match &log.search_input {
        Some(i) => i.clone(),
        None => return,
    };
    match key {
        Key::Escape => log.search_input = None,
        Key::Enter => log.commit_search(),
        Key::Backspace => {
            let t = pop_last(&input);
            log.search_input = Some(t);
        },
        Key::Char(c) => {
            let mut t = input;
            push_char(&mut t, c);
            log.search_input = Some(t);
        },
        _ => {},
    }
}

/// Applies a scrolling, follow, error or search-prompt key to `log`.
fn pane_key_exec(log: &mut LogView, key: Key)
    ensures
        pane_key(*old(log), *final(log), key),
{
    proof {
        assert(log.effective_scroll_spec() <= log.max_scroll_spec());
        assert(log.max_scroll_spec() <= u16::MAX);
    }
    match key {
        Key::Up | Key::Char('k') => log.scroll_by(-1),
        Key::Down | Key::Char('j') => log.scroll_by(1),
        Key::PageUp | Key::Char('b') => log.scroll_by(-15),
        Key::PageDown | Key::Char(' ') => log.scroll_by(15),
        Key::Home | Key::Char('g') => log.scroll_top(),
        Key::End | Key::Char('G') => log.scroll_bottom(),
        Key::Char('f') => {
            if log.follow {
                log.follow = false;
                log.scroll = log.max_scroll();
            } else {
                log.scroll_bottom();
            }
        },
        Key::Char('E') => log.jump_first_error(),
        Key::Char('/') => log.search_input = Some(String::new()),
        _ => {},
    }
}

impl PipelineView {
    /// Keys while the log pane holds them: scroll, follow, search, jump to the first error,
    /// close. Returns what to say in the status line, if anything.
    pub fn on_logs_key(&mut self, key: Key) -> (toast: Option<String>)
        ensures
            log_key_done(*old(self), *final(self), key, match toast {
                Some(t) => Some(t@),
                None => None,
            }),
    {
        let mut log = match self.logs.take() {
            Some(l) => l,
            None => return None,
        };
        if log.search_input.is_some() {
            input_key_exec(&mut log, key);
            self.logs = Some(log);
            return None;
        }
        match key {
            Key::Char('n') | Key::Char('N') => {
                if log.query.is_none() {
                    self.logs = Some(log);
                    toast_of("No search yet \u{2014} press / to search the log")
                } else if log.matches.len() == 0 {
                    self.logs = Some(log);
                    toast_of("No matches")
                } else {
                    log.step_match(key == Key::Char('n'));
                    self.logs = Some(log);
                    None
                }
            },
            Key::Escape | Key::Char('q') | Key::Char('L') => {
                self.log_focus = true;
                None
            },
            _ => {
                pane_key_exec(&mut log, key);
                self.logs = Some(log);
                None
            },
        }
    }
}

/// The toast a log-pane action carries, if it is one.
pub open spec fn toast_of_action(a: DrillAction) -> Option<Seq<char>> {
    match a {
        DrillAction::Toast(t) => Some(t@),
        _ => None,
    }
}

/// What a tree key does before the pane follows the cursor: the action, and the view as
/// `mid`.
pub open spec fn tree_key(o: PipelineView, mid: PipelineView, key: Key, a: DrillAction) -> bool {
    match key {
        Key::Escape | Key::Char('q') => a is Leave && mid == o,
        Key::Char('T') => a is Trigger && mid == o,
        Key::Char('A') => a is Approve && mid == o,
        Key::Char('X') => a is Cancel && mid == o,
        Key::Char('o') => a is OpenSelected && mid == o,
        Key::Up | Key::Char('k') => a is Stay && sel_moved(o, mid, -1),
        Key::Down | Key::Char('j') => a is Stay && sel_moved(o, mid, 1),
        Key::Enter | Key::Char(' ') | Key::Right | Key::Left => a is Stay && sel_toggled(o, mid),
        _ => a is Stay && mid == o,
    }
}

/// An open pane follows the cursor to its job (see `logs_retargeted`); a closed one stays
/// closed.
pub open spec fn pane_follows(mid: PipelineView, n: PipelineView) -> bool {
    if mid.logs is Some {
        exists|opened: bool| #[trigger] logs_retargeted(mid, n, opened)
    } else {
        n == mid
    }
}

/// What a key on the drill-in does: `o` becomes `n`, asking `a` of the app.
pub open spec fn screen_key_done(o: PipelineView, n: PipelineView, key: Key, a: DrillAction) -> bool {
    let logs_open = o.logs is Some;
    if logs_open && key == Key::Char('w') {
        if o.log_split {
            a is Stay && n == (PipelineView { log_focus: !o.log_focus, ..o })
        } else {
            a matches DrillAction::Toast(t) && t@ == lit_widen() && n == o
        }
    } else if logs_open && (o.log_focus || !o.log_split) {
        (a is Stay || a is Toast) && log_key_done(o, n, key, toast_of_action(a))
    } else if logs_open && (key == Key::Char('L') || key == Key::Escape) {
        a is Stay && n == (PipelineView { logs: None, ..o })
    } else if key == Key::Char('L') {
        exists|mid: PipelineView, opened: bool|
            #[trigger] logs_retargeted(o, mid, opened) && if opened {
                a is Stay && n == (PipelineView { log_focus: true, ..mid })
            } else {
                a matches DrillAction::Toast(t) && t@ == lit_select_job() && n == mid
            }
    } else if key == Key::Escape || key == Key::Char('q') {
        a is Leave && n == o
    } else {
        exists|mid: PipelineView| #[trigger] tree_key(o, mid, key, a) && pane_follows(mid, n)
    }
}

impl PipelineView {
    /// Keys on the drill-in. With logs open, `w` moves the keys between the tree and the
    /// log pane; the tree keeps its own keys and points the pane at each job the cursor
    /// crosses.
    pub fn on_screen_key(&mut self, key: Key) -> (a: DrillAction)
        requires
            old(self).selected < isize::MAX,
        ensures
            screen_key_done(*old(self), *final(self), key, a),
    {
        let logs_open = self.logs.is_some();
        if logs_open && key == Key::Char('w') {
            if self.log_split {
                self.log_focus = !self.log_focus;
                return DrillAction::Stay;
            }
            return DrillAction::Toast("Widen the terminal to 90+ columns to see the tree beside the logs".to_owned());
        }
        if self.logs_have_keys() {
            return match self.on_logs_key(key) {
                Some(t) => DrillAction::Toast(t),
                None => DrillAction::Stay,
            };
        }
        if logs_open && (key == Key::Char('L') || key == Key::Escape) {
            self.logs = None;
            return DrillAction::Stay;
        }
        if key == Key::Char('L') {
            let ghost o = *self;
            let opened = self.open_logs_for_selection();
            let ghost mid = *self;
            assert(logs_retargeted(o, mid, opened));
            if !opened {
                return DrillAction::Toast("Select a job or step to view its logs".to_owned());
            }
            self.log_focus = true;
            return DrillAction::Stay;
        }
        let ghost o = *self;
        let a = match key {
            Key::Escape | Key::Char('q') => {
                return DrillAction::Leave;
            },
            Key::Char('T') => DrillAction::Trigger,
            Key::Char('A') => DrillAction::Approve,
            Key::Char('X') => DrillAction::Cancel,
            Key::Char('o') => DrillAction::OpenSelected,
            Key::Up | Key::Char('k') => {
                self.move_sel(-1);
                DrillAction::Stay
            },
            Key::Down | Key::Char('j') => {
                self.move_sel(1);
                DrillAction::Stay
            },
            Key::Enter | Key::Char(' ') | Key::Right | Key::Left => {
                self.toggle_selected();
                DrillAction::Stay
            },
            _ => DrillAction::Stay,
        };
        let ghost mid = *self;
        assert(tree_key(o, mid, key, a));
        if self.logs.is_some() {
            let opened = self.open_logs_for_selection();
            assert(logs_retargeted(mid, *self, opened));
        }
        a
    }
}

// ---------------------------------------------------------------------------
// Feeding the log pane
// ---------------------------------------------------------------------------

/// The log fetch in flight, if any: its key (see `log_fetch_key`) and the anim ticks it has
/// been waiting.
pub struct LogPump {
    pub inflight: Option<(String, u16)>,
}

/// A fetch the pane wants sent: connection, run and job.
pub struct LogFetch {
    pub conn_id: String,
    pub run_id: String,
    pub job_id: String,
}

pub open spec fn lit_fetch_failed() -> Seq<char> {
    "Couldn't fetch logs: "@
}

impl LogPump {
    pub fn new() -> (p: LogPump)
        ensures
            p.inflight is None,
    {
        LogPump { inflight: None }
    }

    /// One anim tick for the fetch in flight: one that has waited
    /// `LOG_INFLIGHT_TIMEOUT_TICKS` is given up, so the pane can ask again.
    pub fn tick(&mut self)
        ensures
            match old(self).inflight {
                None => final(self).inflight is None,
                Some((k, t)) => {
                    let t2: int = if t == u16::MAX {
                        u16::MAX as int
                    } else {
                        t + 1
                    };
                    if t2 >= LOG_INFLIGHT_TIMEOUT_TICKS {
                        final(self).inflight is None
                    } else {
                        final(self).inflight matches Some((k2, t3)) && k2 == k && t3 == t2
                    }
                },
            },
    {
        let current = self.inflight.take();
        self.inflight = match current {
            None => None,
            Some((k, t)) => {
                let t2 = t.saturating_add(1);
                if t2 >= LOG_INFLIGHT_TIMEOUT_TICKS {
                    None
                } else {
                    Some((k, t2))
                }
            },
        };
    }

    /// The fetch the drill-in's pane wants, unless one is already in flight. Sending it is
    /// the caller's; this records it as in flight and clears the pane's request.
    pub fn next_fetch(&mut self, view: &mut PipelineView) -> (f: Option<LogFetch>)
        ensures
            ({
                let wants = old(self).inflight is None && (old(view).logs matches Some(l) && l.want_fetch);
                if wants {
                    let l = old(view).logs->0;
                    &&& f matches Some(x) && x.conn_id@ == old(view).connection_id@ && x.run_id@
                        == old(view).run.id@ && x.job_id@ == l.job_id@
                    &&& final(self).inflight matches Some((k, t)) && t == 0 && k@ == log_fetch_key_spec(
                        old(view).connection_id@,
                        old(view).run.id@,
                        l.job_id@,
                    )
                    &&& *final(view) == (PipelineView {
                        logs: Some(LogView { want_fetch: false, ..l }),
                        ..*old(view)
                    })
                } else {
                    &&& f is None
                    &&& final(self).inflight == old(self).inflight
                    &&& *final(view) == *old(view)
                }
            }),
    {
        if self.inflight.is_some() {
            return None;
        }
        let mut log = match view.logs.take() {
            Some(l) => l,
            None => return None,
        };
        if !log.want_fetch {
            view.logs = Some(log);
            return None;
        }
        log.want_fetch = false;
        let job_id = log.job_id.clone();
        view.logs = Some(log);
        let key = log_fetch_key(view.connection_id.as_str(), view.run.id.as_str(), job_id.as_str());
        self.inflight = Some((key, 0));
        Some(LogFetch { conn_id: view.connection_id.clone(), run_id: view.run.id.clone(), job_id })
    }

    /// Folds a log answer for `(conn_id, run_id, job_id)` into the drill-in `view` (when it
    /// is the screen, `on_screen`), if its pane still shows that job of that run. A first
    /// fetch that fails closes the pane and says why; a failed poll keeps the last good
    /// lines and only marks the pane. Returns what to say in the status line.
    pub fn land(
        &mut self,
        view: &mut PipelineView,
        on_screen: bool,
        conn_id: &str,
        run_id: &str,
        job_id: &str,
        text: Result<String, String>,
    ) -> (toast: Option<String>)
        ensures
            ({
                let key = log_fetch_key_spec(conn_id@, run_id@, job_id@);
                match old(self).inflight {
                    Some((k, t)) => if k@ == key {
                        final(self).inflight is None
                    } else {
                        final(self).inflight == old(self).inflight
                    },
                    None => final(self).inflight is None,
                }
            }),
            ({
                let ours = on_screen && old(view).connection_id@ == conn_id@ && old(view).run.id@ == run_id@
                    && (old(view).logs matches Some(l) && l.job_id@ == job_id@);
                if !ours {
                    toast is None && *final(view) == *old(view)
                } else {
                    let l = old(view).logs->0;
                    match text {
                        Ok(t) => {
                            &&& toast is None
                            &&& final(view).logs matches Some(m) && text_set(l, LogView { loaded: l.loaded, fetch_failed: l.fetch_failed, ..m }, t@) && m.loaded && !m.fetch_failed
                            &&& *final(view) == (PipelineView { logs: final(view).logs, ..*old(view) })
                        },
                        Err(e) => if !l.loaded {
                            &&& toast matches Some(s) && s@ == lit_fetch_failed() + e@
                            &&& *final(view) == (PipelineView { logs: None, ..*old(view) })
                        } else {
                            &&& toast is None
                            &&& *final(view) == (PipelineView {
                                logs: Some(LogView { fetch_failed: true, ..l }),
                                ..*old(view)
                            })
                        },
                    }
                }
            }),
    {
        let key = log_fetch_key(conn_id, run_id, job_id);
        let clear = match &self.inflight {
            Some((k, _)) => *k == key,
            None => false,
        };
        if clear {
            self.inflight = None;
        }
        if !on_screen || !crate::text::str_eq(view.connection_id.as_str(), conn_id) || !crate::text::str_eq(
            view.run.id.as_str(),
            run_id,
        ) {
            return None;
        }
        let mut log = match view.logs.take() {
            Some(l) => l,
            None => return None,
        };
        if !crate::text::str_eq(log.job_id.as_str(), job_id) {
            view.logs = Some(log);
            return None;
        }
        let (pane, toast) = answer_pane(log, text);
        view.logs = pane;
        toast
    }
}

/// What an answer for the job `log` shows leaves of the pane, and what to say.
fn answer_pane(log: LogView, text: Result<String, String>) -> (r: (Option<LogView>, Option<String>))
    ensures
        match text {
            Ok(t) => {
                &&& r.1 is None
                &&& r.0 matches Some(m) && text_set(log, LogView { loaded: log.loaded, fetch_failed: log.fetch_failed, ..m }, t@)
                    && m.loaded && !m.fetch_failed
            },
            Err(e) => if !log.loaded {
                r.0 is None && (r.1 matches Some(s) && s@ == lit_fetch_failed() + e@)
            } else {
                r.1 is None && r.0 == Some(LogView { fetch_failed: true, ..log })
            },
        },
{
    let mut log = log;
    match text {
        Ok(t) => {
            log.set_text(t.as_str());
            log.loaded = true;
            log.fetch_failed = false;
            (Some(log), None)
        },
        Err(e) => {
            if !log.loaded {
                let mut msg = String::new();
                push_str(&mut msg, "Couldn't fetch logs: ");
                push_str(&mut msg, e.as_str());
                (None, Some(msg))
            } else {
                log.fetch_failed = true;
                (Some(log), None)
            }
        },
    }
}

/// The pane is pointed at the selected job from `base` (see `logs_retargeted`) and, when
/// that opened it, focused.
pub open spec fn opened_focused(base: PipelineView, n: PipelineView) -> bool {
    exists|mid: PipelineView, opened: bool|
        #[trigger] logs_retargeted(base, mid, opened) && n == (if opened {
            PipelineView { log_focus: true, ..mid }
        } else {
            mid
        })
}

impl PipelineView {
    /// One anim tick of the open pane's poll schedule (while the drill-in is the screen):
    /// a live job's pane asks for a fetch every `LOG_POLL_TICKS`, and once more when the job
    /// finishes.
    pub fn poll_tick(&mut self)
        ensures
            match old(self).logs {
                None => *final(self) == *old(self),
                Some(l) => {
                    let active = is_active_spec(job_status_or_run(old(self).run, l.job_id@));
                    let (p, fetch) = log_polled(l, active);
                    *final(self) == (PipelineView {
                        logs: Some(if fetch {
                            LogView { want_fetch: true, ..p }
                        } else {
                            p
                        }),
                        ..*old(self)
                    })
                },
            },
    {
        let active = self.log_target_active();
        match self.logs.take() {
            Some(mut log) => {
                if log.poll_step(active) {
                    log.want_fetch = true;
                }
                self.logs = Some(log);
            },
            None => {},
        }
    }

    /// Opens the pane a failed run's first load asked for, once: focused, on the selected
    /// job.
    pub fn open_auto_logs(&mut self)
        ensures
            !old(self).auto_logs ==> *final(self) == *old(self),
            old(self).auto_logs && old(self).logs is Some ==> *final(self) == (PipelineView {
                auto_logs: false,
                ..*old(self)
            }),
            old(self).auto_logs && old(self).logs is None ==> opened_focused(
                PipelineView { auto_logs: false, ..*old(self) },
                *final(self),
            ),
    {
        if !self.auto_logs {
            return;
        }
        self.auto_logs = false;
        if self.logs.is_some() {
            return;
        }
        let ghost o = *self;
        let opened = self.open_logs_for_selection();
        let ghost mid = *self;
        assert(logs_retargeted(o, mid, opened));
        if opened {
            self.log_focus = true;
        }
    }
}

} // verus!
