//! Opening the web dashboard and the feedback form in the browser: the address handed to
//! the browser, and what the status line and the diagnostics log say of the outcome.
use vstd::prelude::*;

use crate::sections::{before_hash, dashboard_target};
use crate::state::AppState;
use crate::text::push_str;

verus! {

/// Where the feedback form lives: the project's issue template.
pub open spec fn lit_feedback_url() -> Seq<char> {
    "https://github.com/magna-nz/forgetop/issues/new?template=feedback.yml"@
}

/// The context and message a failed browser launch is logged with. They never hold the
/// address: the dashboard's carries a per-session access token.
pub open spec fn lit_open_context() -> Seq<char> {
    "action"@
}

pub open spec fn lit_feedback_failed() -> Seq<char> {
    "failed to open GitHub feedback form in browser"@
}

pub open spec fn lit_dashboard_failed() -> Seq<char> {
    "failed to open local dashboard in browser"@
}

pub open spec fn lit_dashboard_down() -> Seq<char> {
    "Web dashboard isn't running \u{2014} start it with `forgetop --dashboard`"@
}

/// What the status line says once the browser was asked to open the feedback form, and
/// whether the failure goes to the diagnostics log.
pub open spec fn feedback_said(r: Result<(), String>) -> (Seq<char>, bool) {
    match r {
        Ok(()) => ("Opening feedback form in your browser\u{2026}"@, false),
        Err(e) => ("Couldn't open feedback form: "@ + e@, true),
    }
}

/// The same for the dashboard.
pub open spec fn dashboard_said(r: Result<(), String>) -> (Seq<char>, bool) {
    match r {
        Ok(()) => ("Opening dashboard in your browser\u{2026}"@, false),
        Err(e) => ("Couldn't open dashboard: "@ + e@, true),
    }
}

/// The feedback form's address.
pub fn feedback_url() -> (u: &'static str)
    ensures
        u@ == lit_feedback_url(),
{
    let u = "https://github.com/magna-nz/forgetop/issues/new?template=feedback.yml";
    proof {
        reveal_strlit("https://github.com/magna-nz/forgetop/issues/new?template=feedback.yml");
    }
    u
}

/// The status line after the browser was asked for the feedback form (`r` is what the
/// browser launch answered), and whether the failure is logged.
pub fn feedback_outcome(r: Result<(), String>) -> (out: (String, bool))
    ensures
        (out.0@, out.1) == feedback_said(r),
{
    match r {
        Ok(()) => {
            let mut t = String::new();
            push_str(&mut t, "Opening feedback form in your browser\u{2026}");
            proof {
                reveal_strlit("Opening feedback form in your browser\u{2026}");
            }
            (t, false)
        },
        Err(e) => {
            let mut t = String::new();
            push_str(&mut t, "Couldn't open feedback form: ");
            push_str(&mut t, e.as_str());
            (t, true)
        },
    }
}

/// The status line after the browser was asked for the dashboard, and whether the failure
/// is logged.
pub fn dashboard_outcome(r: Result<(), String>) -> (out: (String, bool))
    ensures
        (out.0@, out.1) == dashboard_said(r),
{
    match r {
        Ok(()) => {
            let mut t = String::new();
            push_str(&mut t, "Opening dashboard in your browser\u{2026}");
            proof {
                reveal_strlit("Opening dashboard in your browser\u{2026}");
            }
            (t, false)
        },
        Err(e) => {
            let mut t = String::new();
            push_str(&mut t, "Couldn't open dashboard: ");
            push_str(&mut t, e.as_str());
            (t, true)
        },
    }
}

impl<D> AppState<D> {
    /// Opens the feedback form: the browser is handed its address; the status line then
    /// says whether it opened, and a failure is logged with fixed words only.
    pub fn open_feedback_with<F, L>(&mut self, opener: F, log_failure: L)
        where
            F: FnOnce(&str) -> Result<(), String>,
            L: FnOnce(&str, &str),
        requires
            forall|u: &str| #[trigger] opener.requires((u,)),
            forall|c: &str, m: &str| #[trigger] log_failure.requires((c, m)),
        ensures
            exists|u: &str, r: Result<(), String>|
                {
                    &&& u@ == lit_feedback_url()
                    &&& #[trigger] opener.ensures((u,), r)
                    &&& final(self).toast matches Some(t) && t@ == feedback_said(r).0
                    &&& r is Err ==> exists|c: &str, m: &str|
                        {
                            &&& c@ == lit_open_context()
                            &&& m@ == lit_feedback_failed()
                            &&& #[trigger] log_failure.ensures((c, m), ())
                        }
                },
            *final(self) == (AppState { toast: final(self).toast, ..*old(self) }),
    {
        let r = opener(feedback_url());
        let (t, failed) = feedback_outcome(r);
        if failed {
            let c = "action";
            let m = "failed to open GitHub feedback form in browser";
            proof {
                reveal_strlit("action");
                reveal_strlit("failed to open GitHub feedback form in browser");
            }
            log_failure(c, m);
        }
        self.toast = Some(t);
    }

    /// Opens the web dashboard at the route `hash`, when its server runs (`dashboard_url`):
    /// the browser is handed the address without any earlier fragment, then the status line
    /// says whether it opened, and a failure is logged with fixed words only (the address
    /// carries an access token). With no server the status line says how to start one.
    pub fn open_dashboard_at_with<F, L>(&mut self, dashboard_url: Option<&str>, hash: &str, opener: F, log_failure: L)
        where
            F: FnOnce(&str) -> Result<(), String>,
            L: FnOnce(&str, &str),
        requires
            forall|u: &str| #[trigger] opener.requires((u,)),
            forall|c: &str, m: &str| #[trigger] log_failure.requires((c, m)),
        ensures
            dashboard_url is None ==> (final(self).toast matches Some(t) && t@ == lit_dashboard_down()),
            dashboard_url matches Some(base) ==> exists|u: &str, r: Result<(), String>|
                {
                    &&& u@ == before_hash(base@) + hash@
                    &&& #[trigger] opener.ensures((u,), r)
                    &&& final(self).toast matches Some(t) && t@ == dashboard_said(r).0
                    &&& r is Err ==> exists|c: &str, m: &str|
                        {
                            &&& c@ == lit_open_context()
                            &&& m@ == lit_dashboard_failed()
                            &&& #[trigger] log_failure.ensures((c, m), ())
                        }
                },
            *final(self) == (AppState { toast: final(self).toast, ..*old(self) }),
    {
        match dashboard_url {
            None => {
                let mut t = String::new();
                push_str(&mut t, "Web dashboard isn't running \u{2014} start it with `forgetop --dashboard`");
                proof {
                    reveal_strlit("Web dashboard isn't running \u{2014} start it with `forgetop --dashboard`");
                }
                self.toast = Some(t);
            },
            Some(base) => {
                let target = dashboard_target(base, hash);
                let r = opener(target.as_str());
                let (t, failed) = dashboard_outcome(r);
                if failed {
                    let c = "action";
                    let m = "failed to open local dashboard in browser";
                    proof {
                        reveal_strlit("action");
                        reveal_strlit("failed to open local dashboard in browser");
                    }
                    log_failure(c, m);
                }
                self.toast = Some(t);
            },
        }
    }
}

} // verus!
