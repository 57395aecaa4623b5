//! Finishing the add-a-connection wizard: the connection it builds from the draft (or why
//! none), and what is said and done once the connection is saved and its sections bound.
use vstd::prelude::*;

use crate::reload::{error_views, joined_by};
use crate::sections::Section;
use crate::text::{dec_nat, push_str, push_u64};

verus! {

/// What the wizard collected.
pub struct WizardDraft {
    /// The provider chosen, by the name `ProviderType::as_str` gives it; `None` until one is.
    pub provider: Option<String>,
    pub display_name: String,
    pub base_url: Option<String>,
    pub organization: Option<String>,
    pub project: Option<String>,
    pub repository: Option<String>,
    pub username: Option<String>,
    /// The sections ticked to bind the connection to.
    pub bind_sections: Vec<Section>,
}

/// A connection about to be saved.
pub struct NewConnection {
    pub id: String,
    pub provider: String,
    pub display_name: String,
    pub base_url: Option<String>,
    pub organization: Option<String>,
    pub project: Option<String>,
    pub repository: Option<String>,
    pub username: Option<String>,
    /// A brand-new connection has no repository scope yet.
    pub repo_scope: Option<Vec<String>>,
}

pub open spec fn lit_no_provider() -> Seq<char> {
    "No provider chosen"@
}

fn clone_opt(o: &Option<String>) -> (r: Option<String>)
    ensures
        r == *o,
{
    match o {
        Some(s) => Some(s.clone()),
        None => None,
    }
}

/// The connection the draft describes, under `id`: named by the draft, or by its provider
/// when the draft left the name empty. Without a provider there is none.
pub fn wizard_connection(draft: &WizardDraft, id: String) -> (r: Result<NewConnection, String>)
    ensures
        (r is Err) == (draft.provider is None),
        r matches Err(m) ==> m@ == lit_no_provider(),
        r matches Ok(c) ==> ({
            &&& c.id == id
            &&& Some(c.provider) == draft.provider
            &&& c.display_name@ == (if draft.display_name@.len() == 0 {
                draft.provider->0@
            } else {
                draft.display_name@
            })
            &&& c.base_url == draft.base_url
            &&& c.organization == draft.organization
            &&& c.project == draft.project
            &&& c.repository == draft.repository
            &&& c.username == draft.username
            &&& c.repo_scope is None
        }),
{
    let provider = match &draft.provider {
        Some(p) => p,
        None => return Err("No provider chosen".to_owned()),
    };
    let display_name = if draft.display_name.as_str().is_empty() {
        provider.clone()
    } else {
        draft.display_name.clone()
    };
    Ok(
        NewConnection {
            id,
            provider: provider.clone(),
            display_name,
            base_url: clone_opt(&draft.base_url),
            organization: clone_opt(&draft.organization),
            project: clone_opt(&draft.project),
            repository: clone_opt(&draft.repository),
            username: clone_opt(&draft.username),
            repo_scope: None,
        },
    )
}

/// What the app does once the connection is saved and its sections bound.
pub struct WizardOutcome {
    pub toast: String,
    /// The toast reports a failure.
    pub error: bool,
    /// A reload is due (always: the connection exists).
    pub reload: bool,
    /// Offer the notifications checklist (after the very first connection).
    pub open_notifications: bool,
}

/// " · N section(s)" after the count of sections bound; nothing for none.
pub open spec fn sections_suffix(bound: nat) -> Seq<char> {
    if bound == 0 {
        Seq::empty()
    } else if bound == 1 {
        " \u{b7} 1 section"@
    } else {
        " \u{b7} "@ + dec_nat(bound) + " sections"@
    }
}

pub open spec fn lit_choose_notifications() -> Seq<char> {
    "Choose which notifications you want"@
}

/// The toast once every ticked section was bound: the provider, the repositories the scope
/// was seeded with (when discovery seeded one), and how many sections were bound.
pub open spec fn added_text(provider: Seq<char>, bound: nat, seeded: Option<nat>) -> Seq<char> {
    "Added "@ + provider + " connection"@ + match seeded {
        Some(n) => " \u{b7} "@ + dec_nat(n) + " repositories"@,
        None => Seq::empty(),
    } + sections_suffix(bound)
}

/// What the app does after the wizard saved a `provider` connection and bound `bound`
/// sections, `failed` holding a line per section that could not be bound, `seeded` the
/// number of repositories discovery started the scope on, and `first_run` whether it is
/// the very first connection. A failed binding is reported (the connection stays); else
/// the addition is, and on a first run the notifications checklist is offered instead.
pub fn wizard_outcome(provider: &str, bound: usize, failed: &Vec<String>, seeded: Option<usize>, first_run: bool) -> (r: WizardOutcome)
    ensures
        r.reload,
        failed@.len() > 0 ==> r.error && !r.open_notifications && r.toast@ == "Added, but binding failed \u{2014} "@
            + joined_by(error_views(failed@), "; "@),
        failed@.len() == 0 && first_run ==> !r.error && r.open_notifications && r.toast@ == lit_choose_notifications(),
        failed@.len() == 0 && !first_run ==> !r.error && !r.open_notifications && r.toast@ == added_text(
            provider@,
            bound as nat,
            match seeded {
                Some(n) => Some(n as nat),
                None => None,
            },
        ),
{
    if failed.len() > 0 {
        let mut t = String::new();
        push_str(&mut t, "Added, but binding failed \u{2014} ");
        let ghost ev = error_views(failed@);
        let ghost start = t@;
        let mut i: usize = 0;
        while i < failed.len()
            invariant
                i <= failed@.len(),
                failed@.len() > 0,
                ev == error_views(failed@),
                i == 0 ==> t@ == start,
                i > 0 ==> t@ == start + joined_by(ev.take(i as int), "; "@),
            decreases failed@.len() - i,
        {
            if i > 0 {
                push_str(&mut t, "; ");
            }
            push_str(&mut t, failed[i].as_str());
            proof {
                let tk = ev.take(i + 1);
                assert(tk.drop_last() =~= ev.take(i as int));
                assert(tk.last() == failed@[i as int]@);
                if i == 0 {
                    assert(tk.len() == 1);
                    assert(t@ =~= start + tk[0]);
                } else {
                    assert(t@ =~= start + joined_by(tk, "; "@));
                }
            }
            i += 1;
        }
        assert(ev.take(i as int) =~= ev);
        return WizardOutcome { toast: t, error: true, reload: true, open_notifications: false };
    }
    if first_run {
        return WizardOutcome {
            toast: "Choose which notifications you want".to_owned(),
            error: false,
            reload: true,
            open_notifications: true,
        };
    }
    let mut t = String::new();
    push_str(&mut t, "Added ");
    push_str(&mut t, provider);
    push_str(&mut t, " connection");
    match seeded {
        Some(n) => {
            push_str(&mut t, " \u{b7} ");
            push_u64(&mut t, n as u64);
            push_str(&mut t, " repositories");
        },
        None => {
            proof {
                reveal_strlit("");
            }
        },
    }
    if bound == 1 {
        push_str(&mut t, " \u{b7} 1 section");
    } else if bound > 1 {
        push_str(&mut t, " \u{b7} ");
        push_u64(&mut t, bound as u64);
        push_str(&mut t, " sections");
    }
    proof {
        assert(Seq::<char>::empty() + Seq::<char>::empty() =~= Seq::<char>::empty());
    }
    assert(t@ =~= added_text(
        provider@,
        bound as nat,
        match seeded {
            Some(n) => Some(n as nat),
            None => None,
        },
    ));
    WizardOutcome { toast: t, error: false, reload: true, open_notifications: false }
}

} // verus!
