//! The connections screen: one row per configured connection with its health and the
//! sections it feeds, the section bindings by name, and the keys that move and act on it.
use vstd::prelude::*;

use crate::cursor::{wrap_add, wrapped};
use crate::keys::Key;
use crate::sections::Section;
use crate::text::{push_str, str_eq};

verus! {

/// A configured connection, as the connections screen reads it.
pub struct ConnInfo {
    pub id: String,
    pub display_name: String,
    /// The provider's name, as `ProviderType::as_str` spells it.
    pub provider: String,
}

/// One row of the connections screen.
pub struct ConnRow {
    pub id: String,
    pub display: String,
    pub provider: String,
    pub healthy: bool,
    /// Which sections this connection is currently bound to.
    pub bindings: Vec<&'static str>,
}

/// Snapshot state for the connections screen. Rebuilt after each change.
pub struct ConfigView {
    pub connections: Vec<ConnRow>,
    pub pr_binding: Option<String>,
    pub wi_binding: Option<String>,
    pub pipeline_subs: Vec<String>,
    pub selected: usize,
}

/// The name a connection id is shown by: the first configured connection with that id,
/// else the id itself.
pub open spec fn display_spec(conns: Seq<ConnInfo>, id: Seq<char>) -> Seq<char>
    decreases conns.len(),
{
    if conns.len() == 0 {
        id
    } else if conns[0].id@ == id {
        conns[0].display_name@
    } else {
        display_spec(conns.drop_first(), id)
    }
}

/// `parts` joined with ", ".
pub open spec fn joined(parts: Seq<Seq<char>>) -> Seq<char>
    decreases parts.len(),
{
    if parts.len() == 0 {
        seq![]
    } else if parts.len() == 1 {
        parts[0]
    } else {
        joined(parts.drop_last()) + ", "@ + parts.last()
    }
}

/// The names of `ids`, in order.
pub open spec fn names_of(conns: Seq<ConnInfo>, ids: Seq<String>) -> Seq<Seq<char>> {
    ids.map_values(|id: String| display_spec(conns, id@))
}

/// Whether `id` is among `ids`.
pub open spec fn listed(ids: Seq<String>, id: Seq<char>) -> bool {
    exists|i: int| 0 <= i < ids.len() && #[trigger] ids[i]@ == id
}

/// The sections a connection feeds, as the row labels them.
pub open spec fn bindings_spec(
    id: Seq<char>,
    pr: Option<Seq<String>>,
    wi: Option<Seq<String>>,
    subs: Option<Seq<String>>,
) -> Seq<Seq<char>> {
    (if pr matches Some(p) && listed(p, id) {
        seq!["PR"@]
    } else {
        seq![]
    }) + (if wi matches Some(w) && listed(w, id) {
        seq!["WI"@]
    } else {
        seq![]
    }) + (if subs matches Some(s) && listed(s, id) {
        seq!["Pipe"@]
    } else {
        seq![]
    })
}

/// The health of `id`: its first report, else unhealthy.
pub open spec fn health_of(health: Seq<(String, bool)>, id: Seq<char>) -> bool
    decreases health.len(),
{
    if health.len() == 0 {
        false
    } else if health[0].0@ == id {
        health[0].1
    } else {
        health_of(health.drop_first(), id)
    }
}

/// A binding as the screen shows it: the names of its connections, or nothing when it
/// names none.
pub open spec fn binding_spec(conns: Seq<ConnInfo>, ids: Option<Seq<String>>) -> Option<Seq<char>> {
    match ids {
        Some(v) => if v.len() > 0 {
            Some(joined(names_of(conns, v)))
        } else {
            None
        },
        None => None,
    }
}

pub open spec fn opt_ids(o: Option<Vec<String>>) -> Option<Seq<String>> {
    match o {
        Some(v) => Some(v@),
        None => None,
    }
}

pub open spec fn opt_text(o: Option<String>) -> Option<Seq<char>> {
    match o {
        Some(s) => Some(s@),
        None => None,
    }
}

/// Row `r` shows connection `c`.
pub open spec fn row_shows(
    r: ConnRow,
    c: ConnInfo,
    pr: Option<Seq<String>>,
    wi: Option<Seq<String>>,
    subs: Option<Seq<String>>,
    health: Seq<(String, bool)>,
) -> bool {
    &&& r.id@ == c.id@
    &&& r.display@ == c.display_name@
    &&& r.provider@ == c.provider@
    &&& r.healthy == health_of(health, c.id@)
    &&& r.bindings@.map_values(|b: &'static str| b@) == bindings_spec(c.id@, pr, wi, subs)
}

/// The name a connection id is shown by.
pub fn display_of(conns: &[ConnInfo], id: &str) -> (r: String)
    ensures
        r@ == display_spec(conns@, id@),
{
    let mut i: usize = 0;
    assert(conns@.skip(0) =~= conns@);
    while i < conns.len()
        invariant
            i <= conns@.len(),
            display_spec(conns@, id@) == display_spec(conns@.skip(i as int), id@),
        decreases conns@.len() - i,
    {
        assert(conns@.skip(i as int).drop_first() =~= conns@.skip(i + 1));
        assert(conns@.skip(i as int)[0] == conns@[i as int]);
        if str_eq(conns[i].id.as_str(), id) {
            return conns[i].display_name.clone();
        }
        i += 1;
    }
    id.to_owned()
}

/// The names of `ids`, joined with ", ".
pub fn binding_names(conns: &[ConnInfo], ids: &Vec<String>) -> (r: String)
    ensures
        r@ == joined(names_of(conns@, ids@)),
{
    let mut out = String::new();
    let mut i: usize = 0;
    while i < ids.len()
        invariant
            i <= ids@.len(),
            out@ == joined(names_of(conns@, ids@.take(i as int))),
        decreases ids@.len() - i,
    {
        let name = display_of(conns, ids[i].as_str());
        let ghost before = names_of(conns@, ids@.take(i as int));
        let ghost after = names_of(conns@, ids@.take(i + 1));
        assert(after =~= before.push(name@));
        assert(after.drop_last() =~= before);
        if i > 0 {
            push_str(&mut out, ", ");
            proof {
                reveal_strlit(", ");
            }
        }
        push_str(&mut out, name.as_str());
        i += 1;
        proof {
            if i == 1 {
                assert(out@ =~= after[0]);
            } else {
                assert(out@ =~= joined(before) + ", "@ + name@);
            }
        }
    }
    assert(ids@.take(ids@.len() as int) =~= ids@);
    out
}

fn listed_exec(ids: &Vec<String>, id: &str) -> (r: bool)
    ensures
        r == listed(ids@, id@),
{
    let mut i: usize = 0;
    while i < ids.len()
        invariant
            i <= ids@.len(),
            forall|j: int| 0 <= j < i ==> ids@[j]@ != id@,
        decreases ids@.len() - i,
    {
        if str_eq(ids[i].as_str(), id) {
            return true;
        }
        i += 1;
    }
    false
}

fn listed_in(ids: &Option<Vec<String>>, id: &str) -> (r: bool)
    ensures
        r == (opt_ids(*ids) matches Some(v) && listed(v, id@)),
{
    match ids {
        Some(v) => listed_exec(v, id),
        None => false,
    }
}

fn health_exec(health: &[(String, bool)], id: &str) -> (r: bool)
    ensures
        r == health_of(health@, id@),
{
    let mut i: usize = 0;
    assert(health@.skip(0) =~= health@);
    while i < health.len()
        invariant
            i <= health@.len(),
            health_of(health@, id@) == health_of(health@.skip(i as int), id@),
        decreases health@.len() - i,
    {
        assert(health@.skip(i as int).drop_first() =~= health@.skip(i + 1));
        assert(health@.skip(i as int)[0] == health@[i as int]);
        if str_eq(health[i].0.as_str(), id) {
            return health[i].1;
        }
        i += 1;
    }
    false
}

fn binding_of(conns: &[ConnInfo], ids: &Option<Vec<String>>) -> (r: Option<String>)
    ensures
        opt_text(r) == binding_spec(conns@, opt_ids(*ids)),
{
    match ids {
        Some(v) => if v.len() > 0 {
            Some(binding_names(conns, v))
        } else {
            None
        },
        None => None,
    }
}

/// The connections screen: a row per configured connection (its health from `health`,
/// the sections `pr`, `wi` and the pipeline subscriptions `subs` bind it to), each
/// section binding by its connections' names, and the cursor on the first row.
pub fn build_config_view(
    conns: &[ConnInfo],
    pr: &Option<Vec<String>>,
    wi: &Option<Vec<String>>,
    subs: &Option<Vec<String>>,
    health: &[(String, bool)],
) -> (v: ConfigView)
    ensures
        v.connections@.len() == conns@.len(),
        forall|i: int|
            0 <= i < conns@.len() ==> row_shows(
                #[trigger] v.connections@[i],
                conns@[i],
                opt_ids(*pr),
                opt_ids(*wi),
                opt_ids(*subs),
                health@,
            ),
        opt_text(v.pr_binding) == binding_spec(conns@, opt_ids(*pr)),
        opt_text(v.wi_binding) == binding_spec(conns@, opt_ids(*wi)),
        v.pipeline_subs@.map_values(|s: String| s@) == (match opt_ids(*subs) {
            Some(s) => names_of(conns@, s),
            None => seq![],
        }),
        v.selected == 0,
{
    let mut rows: Vec<ConnRow> = Vec::new();
    let mut i: usize = 0;
    while i < conns.len()
        invariant
            i <= conns@.len(),
            rows@.len() == i,
            forall|j: int|
                0 <= j < i ==> row_shows(
                    #[trigger] rows@[j],
                    conns@[j],
                    opt_ids(*pr),
                    opt_ids(*wi),
                    opt_ids(*subs),
                    health@,
                ),
        decreases conns@.len() - i,
    {
        let c = &conns[i];
        let mut bindings: Vec<&'static str> = Vec::new();
        let in_pr = listed_in(pr, c.id.as_str());
        let in_wi = listed_in(wi, c.id.as_str());
        let in_subs = listed_in(subs, c.id.as_str());
        if in_pr {
            bindings.push("PR");
        }
        if in_wi {
            bindings.push("WI");
        }
        if in_subs {
            bindings.push("Pipe");
        }
        proof {
            reveal_strlit("PR");
            reveal_strlit("WI");
            reveal_strlit("Pipe");
            assert(bindings@.map_values(|b: &'static str| b@) =~= bindings_spec(
                c.id@,
                opt_ids(*pr),
                opt_ids(*wi),
                opt_ids(*subs),
            ));
        }
        let row = ConnRow {
            id: c.id.clone(),
            display: c.display_name.clone(),
            provider: c.provider.clone(),
            healthy: health_exec(health, c.id.as_str()),
            bindings,
        };
        rows.push(row);
        i += 1;
    }
    let mut pipeline_subs: Vec<String> = Vec::new();
    match subs {
        Some(s) => {
            let mut k: usize = 0;
            while k < s.len()
                invariant
                    k <= s@.len(),
                    pipeline_subs@.map_values(|x: String| x@) == names_of(conns@, s@.take(k as int)),
                decreases s@.len() - k,
            {
                let name = display_of(conns, s[k].as_str());
                let ghost before = pipeline_subs@;
                let ghost nm = name@;
                pipeline_subs.push(name);
                assert(s@.take(k + 1) =~= s@.take(k as int).push(s@[k as int]));
                assert(names_of(conns@, s@.take(k + 1)) =~= names_of(conns@, s@.take(k as int)).push(nm));
                assert(pipeline_subs@ =~= before.push(pipeline_subs@[k as int]));
                assert(pipeline_subs@.map_values(|x: String| x@) =~= before.map_values(|x: String| x@).push(nm));
                k += 1;
            }
            assert(s@.take(s@.len() as int) =~= s@);
        },
        None => {
            assert(pipeline_subs@.map_values(|x: String| x@) =~= seq![]);
        },
    }
    ConfigView {
        connections: rows,
        pr_binding: binding_of(conns, pr),
        wi_binding: binding_of(conns, wi),
        pipeline_subs,
        selected: 0,
    }
}

/// What a key on the connections screen asks of the app.
#[derive(Debug, Clone, Copy, PartialEq, Eq, Structural)]
pub enum ConfigKeyAction {
    /// Handled here (or ignored).
    Stay,
    /// Back to the section list.
    Leave,
    /// Start the add-connection wizard.
    AddConnection,
    /// Pick the connections that feed a section.
    BindSection(Section),
    /// Pick the pipeline subscriptions.
    PipelineSubs,
    /// Ask before removing the selected connection.
    RemoveSelected,
}

impl ConfigView {
    /// The selected connection, if the cursor is on one.
    pub fn selected_conn(&self) -> (r: Option<&ConnRow>)
        ensures
            self.selected < self.connections@.len() ==> r == Some(&self.connections@[self.selected as int]),
            self.selected >= self.connections@.len() ==> r is None,
    {
        if self.selected < self.connections.len() {
            Some(&self.connections[self.selected])
        } else {
            None
        }
    }

    /// The id and name of the selected connection, for the removal prompt.
    pub fn config_selected_id(&self) -> (r: Option<(String, String)>)
        ensures
            self.selected < self.connections@.len() ==> (r matches Some((i, d)) && i@
                == self.connections@[self.selected as int].id@ && d@ == self.connections@[self.selected as int].display@),
            self.selected >= self.connections@.len() ==> r is None,
    {
        match self.selected_conn() {
            Some(c) => Some((c.id.clone(), c.display.clone())),
            None => None,
        }
    }

    /// Moves the cursor by `delta` rows, wrapping at both ends (no rows: no move).
    pub fn config_move(&mut self, delta: isize)
        requires
            old(self).selected <= isize::MAX,
            isize::MIN <= old(self).selected + delta <= isize::MAX,
        ensures
            old(self).connections@.len() == 0 ==> *final(self) == *old(self),
            old(self).connections@.len() > 0 ==> *final(self) == (ConfigView {
                selected: wrapped(old(self).selected as int, delta as int, old(self).connections@.len() as int)
                    as usize,
                ..*old(self)
            }),
    {
        let n = self.connections.len();
        if n == 0 {
            return;
        }
        self.selected = wrap_add(self.selected, delta, n);
    }

    /// Keeps the cursor on a row after the view was rebuilt from `old_selected`.
    pub fn keep_selection(&mut self, old_selected: usize)
        ensures
            *final(self) == (ConfigView {
                selected: if old_selected as int >= old(self).connections@.len() - 1 {
                    if old(self).connections@.len() == 0 {
                        0
                    } else {
                        (old(self).connections@.len() - 1) as usize
                    }
                } else {
                    old_selected
                },
                ..*old(self)
            }),
    {
        let last = if self.connections.len() == 0 {
            0
        } else {
            self.connections.len() - 1
        };
        self.selected = if old_selected >= last {
            last
        } else {
            old_selected
        };
    }

    /// Keys on the connections screen: leave, add, bind a section, the pipeline
    /// subscriptions, remove the selected connection, and the arrows.
    pub fn on_config_key(&mut self, key: Key) -> (a: ConfigKeyAction)
        requires
            (key == Key::Up || key == Key::Char('k')) ==> old(self).selected <= isize::MAX,
            (key == Key::Down || key == Key::Char('j')) ==> old(self).selected < isize::MAX,
        ensures
            (key == Key::Up || key == Key::Char('k')) ==> a == ConfigKeyAction::Stay && (old(
                self,
            ).connections@.len() == 0 ==> *final(self) == *old(self)) && (old(self).connections@.len() > 0
                ==> final(self).selected == wrapped(old(self).selected as int, -1, old(self).connections@.len() as int) as usize),
            (key == Key::Down || key == Key::Char('j')) ==> a == ConfigKeyAction::Stay && (old(
                self,
            ).connections@.len() == 0 ==> *final(self) == *old(self)) && (old(self).connections@.len() > 0
                ==> final(self).selected == wrapped(old(self).selected as int, 1, old(self).connections@.len() as int) as usize),
            !(key == Key::Up || key == Key::Char('k') || key == Key::Down || key == Key::Char('j')) ==> *final(self)
                == *old(self) && a == (if key == Key::Escape || key == Key::Char('q') {
                ConfigKeyAction::Leave
            } else if key == Key::Char('a') {
                ConfigKeyAction::AddConnection
            } else if key == Key::Char('p') {
                ConfigKeyAction::BindSection(Section::PullRequests)
            } else if key == Key::Char('w') {
                ConfigKeyAction::BindSection(Section::WorkItems)
            } else if key == Key::Char('s') {
                ConfigKeyAction::PipelineSubs
            } else if key == Key::Char('x') || key == Key::Char('d') {
                ConfigKeyAction::RemoveSelected
            } else {
                ConfigKeyAction::Stay
            }),
            final(self).connections == old(self).connections,
    {
        match key {
            Key::Escape | Key::Char('q') => ConfigKeyAction::Leave,
            Key::Char('a') => ConfigKeyAction::AddConnection,
            Key::Char('p') => ConfigKeyAction::BindSection(Section::PullRequests),
            Key::Char('w') => ConfigKeyAction::BindSection(Section::WorkItems),
            Key::Char('s') => ConfigKeyAction::PipelineSubs,
            Key::Char('x') | Key::Char('d') => ConfigKeyAction::RemoveSelected,
            Key::Up | Key::Char('k') => {
                self.config_move(-1);
                ConfigKeyAction::Stay
            },
            Key::Down | Key::Char('j') => {
                self.config_move(1);
                ConfigKeyAction::Stay
            },
            _ => ConfigKeyAction::Stay,
        }
    }
}

} // verus!
