//! Run-level summaries and start-up: the configuration inspection report
//! and the daemon start-up handshake.

use crate::config::{
    action_resolvers, event_resolvers, registered_action_resolvers, registered_event_resolvers,
    ActionFacts, ConfigFacts,
};
use crate::config::{normalize_locale_key, Manifest};
use crate::text::{decimal, lex_lt, lemma_lex_trichotomy, push_decimal, push_str, replaced, str_eq, str_lt};
use std::sync::mpsc::{Receiver, RecvTimeoutError};
use std::time::Duration;
use vstd::prelude::*;

verus! {

/// A summary of a loaded scenario configuration.
#[derive(Debug, Clone, PartialEq, Eq)]
pub struct ConfigInspection {
    pub scenario_id: String,
    pub version: String,
    pub default_locale: String,
    pub config_hash: String,
    pub stats: usize,
    pub resources: usize,
    pub actions: usize,
    pub enabled_actions: usize,
    pub events: usize,
    pub panels: usize,
    pub prompts: usize,
    pub balance_keys: usize,
    /// Each locale with the number of its texts, by locale name.
    pub locales: Vec<(String, usize)>,
    pub registered_action_resolvers: usize,
    pub registered_event_resolvers: usize,
}

/// `name=count`.
pub open spec fn count_item(name: Seq<char>, count: usize) -> Seq<char> {
    name + seq!['='] + decimal(count as nat)
}

/// The locale items joined by single spaces.
pub open spec fn locale_items(locales: Seq<(String, usize)>) -> Seq<char>
    decreases locales.len(),
{
    if locales.len() == 0 {
        Seq::empty()
    } else if locales.len() == 1 {
        count_item(locales[0].0@, locales[0].1)
    } else {
        locale_items(locales.drop_last()) + seq![' '] + count_item(locales.last().0@, locales.last().1)
    }
}

/// The report lines of an inspection.
pub open spec fn inspection_lines(i: ConfigInspection) -> Seq<Seq<char>> {
    seq![
        "scenario: "@ + i.scenario_id@,
        "version: "@ + i.version@,
        "default_locale: "@ + i.default_locale@,
        "config_hash: "@ + i.config_hash@,
        "tables: stats="@ + decimal(i.stats as nat) + " resources="@ + decimal(i.resources as nat)
            + " actions="@ + decimal(i.actions as nat) + " enabled_actions="@ + decimal(
            i.enabled_actions as nat,
        ) + " events="@ + decimal(i.events as nat) + " panels="@ + decimal(i.panels as nat)
            + " prompts="@ + decimal(i.prompts as nat) + " balance_keys="@ + decimal(
            i.balance_keys as nat,
        ),
        "locales: "@ + locale_items(i.locales@),
        "resolvers: actions="@ + decimal(i.registered_action_resolvers as nat) + " events="@
            + decimal(i.registered_event_resolvers as nat),
    ]
}

fn push_count(s: &mut String, label: &str, n: usize)
    ensures
        final(s)@ == old(s)@ + label@ + decimal(n as nat),
{
    push_str(s, label);
    push_decimal(s, n as u64);
}

impl ConfigInspection {
    /// The report, one line per aspect.
    pub fn lines(&self) -> (v: Vec<String>)
        ensures
            v@.map_values(|s: String| s@) == inspection_lines(*self),
    {
        let mut v: Vec<String> = Vec::new();
        let mut l0 = "scenario: ".to_string();
        push_str(&mut l0, self.scenario_id.as_str());
        v.push(l0);
        let mut l1 = "version: ".to_string();
        push_str(&mut l1, self.version.as_str());
        v.push(l1);
        let mut l2 = "default_locale: ".to_string();
        push_str(&mut l2, self.default_locale.as_str());
        v.push(l2);
        let mut l3 = "config_hash: ".to_string();
        push_str(&mut l3, self.config_hash.as_str());
        v.push(l3);
        let mut l4 = String::new();
        push_count(&mut l4, "tables: stats=", self.stats);
        push_count(&mut l4, " resources=", self.resources);
        push_count(&mut l4, " actions=", self.actions);
        push_count(&mut l4, " enabled_actions=", self.enabled_actions);
        push_count(&mut l4, " events=", self.events);
        push_count(&mut l4, " panels=", self.panels);
        push_count(&mut l4, " prompts=", self.prompts);
        push_count(&mut l4, " balance_keys=", self.balance_keys);
        v.push(l4);
        let mut l5 = "locales: ".to_string();
        let mut i: usize = 0;
        let ghost prefix = l5@;
        assert(self.locales@.take(0) =~= Seq::<(String, usize)>::empty());
        while i < self.locales.len()
            invariant
                i <= self.locales@.len(),
                l5@ == prefix + locale_items(self.locales@.take(i as int)),
            decreases self.locales.len() - i,
        {
            let ghost t = self.locales@.take(i + 1);
            assert(t.drop_last() =~= self.locales@.take(i as int));
            if i > 0 {
                push_str(&mut l5, " ");
            }
            push_str(&mut l5, self.locales[i].0.as_str());
            push_str(&mut l5, "=");
            push_decimal(&mut l5, self.locales[i].1 as u64);
            proof {
                reveal_strlit(" ");
                reveal_strlit("=");
                if i == 0 {
                    assert(self.locales@.take(0) =~= Seq::<(String, usize)>::empty());
                }
            }
            assert(l5@ =~= prefix + locale_items(t));
            i += 1;
        }
        assert(self.locales@.take(self.locales@.len() as int) =~= self.locales@);
        v.push(l5);
        let mut l6 = String::new();
        push_count(&mut l6, "resolvers: actions=", self.registered_action_resolvers);
        push_count(&mut l6, " events=", self.registered_event_resolvers);
        v.push(l6);
        assert(v@.map_values(|s: String| s@) =~= inspection_lines(*self));
        v
    }
}


/// How many of the actions are enabled.
pub open spec fn enabled_count(actions: Seq<ActionFacts>) -> nat
    decreases actions.len(),
{
    if actions.len() == 0 {
        0
    } else {
        enabled_count(actions.drop_last()) + if actions.last().enabled {
            1nat
        } else {
            0nat
        }
    }
}

/// The locale names that a manifest's locale keys stand for (`zh_CN` is
/// `zh-CN`).
pub open spec fn manifest_locale_names(m: Manifest) -> Seq<Seq<char>> {
    m.locales@.map_values(|p: (String, String)| replaced(p.0@, seq!['_'], seq!['-']))
}

/// Locale entries ordered strictly by locale name.
pub open spec fn strictly_by_name(v: Seq<(String, usize)>) -> bool {
    forall|i: int, j: int| 0 <= i < j < v.len() ==> lex_lt(#[trigger] v[i].0@, #[trigger] v[j].0@)
}

/// `v` lists the loaded locale tables that the manifest names, once each
/// and ordered by name, each with the number of texts its table holds.
pub open spec fn locale_sizes_of(config: &ConfigFacts, v: Seq<(String, usize)>) -> bool {
    let names = manifest_locale_names(config.manifest);
    &&& strictly_by_name(v)
    &&& forall|i: int|
        0 <= i < v.len() ==> names.contains(#[trigger] v[i].0@) && config.locales@.contains_key(v[i].0@)
            && v[i].1 == config.locales@[v[i].0@].entries@.len()
    &&& forall|k: int|
        0 <= k < names.len() && config.locales@.contains_key(#[trigger] names[k]) ==> exists|i: int|
            0 <= i < v.len() && v[i].0@ == names[k]
}

/// Inserts `(name, n)` into a list ordered strictly by name, unless the name
/// is already there.
fn insert_by_name(v: &mut Vec<(String, usize)>, name: String, n: usize)
    requires
        strictly_by_name(old(v)@),
    ensures
        strictly_by_name(final(v)@),
        exists|i: int| 0 <= i < final(v)@.len() && final(v)@[i].0@ == name@,
        forall|i: int|
            #![trigger final(v)@[i]]
            0 <= i < final(v)@.len() ==> (exists|j: int| #![trigger old(v)@[j]] 0 <= j < old(v)@.len() && old(v)@[j] == final(v)@[i])
                || (final(v)@[i].0@ == name@ && final(v)@[i].1 == n),
        forall|j: int|
            #![trigger old(v)@[j]]
            0 <= j < old(v)@.len() ==> exists|i: int| #![trigger final(v)@[i]] 0 <= i < final(v)@.len() && final(v)@[i] == old(v)@[j],
{
    let mut p: usize = 0;
    while p < v.len() && str_lt(v[p].0.as_str(), name.as_str())
        invariant
            p <= v@.len(),
            v@ == old(v)@,
            forall|j: int| 0 <= j < p ==> lex_lt(#[trigger] v@[j].0@, name@),
        decreases v.len() - p,
    {
        p += 1;
    }
    if p < v.len() && str_eq(v[p].0.as_str(), name.as_str()) {
        assert(v@[p as int].0@ == name@);
        assert forall|i: int| #![trigger v@[i]] 0 <= i < v@.len() implies (exists|j: int| #![trigger old(v)@[j]] 0 <= j < old(v)@.len() && old(v)@[j] == v@[i]) by {
            assert(old(v)@[i] == v@[i]);
        }
        assert forall|j: int| #![trigger old(v)@[j]] 0 <= j < old(v)@.len() implies exists|i: int| #![trigger v@[i]] 0 <= i < v@.len() && v@[i] == old(v)@[j] by {
            assert(v@[j] == old(v)@[j]);
        }
        return;
    }
    let ghost before = v@;
    if p < v.len() {
        proof {
            lemma_lex_trichotomy(name@, before[p as int].0@);
        }
    }
    let ghost x = (name, n);
    v.insert(p, (name, n));
    proof {
        assert(v@ == before.insert(p as int, x));
        lemma_insert_by_name(before, p as int, x);
    }
}

proof fn lemma_insert_by_name(before: Seq<(String, usize)>, p: int, x: (String, usize))
    requires
        strictly_by_name(before),
        0 <= p <= before.len(),
        forall|j: int| 0 <= j < p ==> lex_lt(#[trigger] before[j].0@, x.0@),
        p < before.len() ==> lex_lt(x.0@, before[p].0@),
    ensures
        strictly_by_name(before.insert(p, x)),
        before.insert(p, x)[p] == x,
        forall|i: int|
            #![trigger before.insert(p, x)[i]]
            0 <= i < before.insert(p, x).len() ==> (exists|j: int| #![trigger before[j]] 0 <= j < before.len() && before[j] == before.insert(p, x)[i])
                || before.insert(p, x)[i] == x,
        forall|j: int|
            #![trigger before[j]]
            0 <= j < before.len() ==> exists|i: int| #![trigger before.insert(p, x)[i]] 0 <= i < before.insert(p, x).len() && before.insert(p, x)[i] == before[j],
{
    let v = before.insert(p, x);
    assert forall|a: int, b: int| 0 <= a < b < v.len() implies lex_lt(#[trigger] v[a].0@, #[trigger] v[b].0@) by {
        if b < p {
            assert(v[a] == before[a] && v[b] == before[b]);
        } else if b == p {
            assert(v[a] == before[a]);
        } else if a == p {
            assert(v[b] == before[b - 1]);
            if b - 1 > p {
                assert(lex_lt(before[p].0@, before[b - 1].0@));
                crate::text::lemma_lex_transitive(x.0@, before[p].0@, before[b - 1].0@);
            }
        } else if a < p {
            assert(v[a] == before[a] && v[b] == before[b - 1]);
        } else {
            assert(v[a] == before[a - 1] && v[b] == before[b - 1]);
        }
    }
    assert forall|i: int| #![trigger v[i]] 0 <= i < v.len() implies (exists|j: int| #![trigger before[j]] 0 <= j < before.len() && before[j] == v[i])
        || v[i] == x by {
        if i < p {
            assert(before[i] == v[i]);
        } else if i > p {
            assert(before[i - 1] == v[i]);
        }
    }
    assert forall|j: int| #![trigger before[j]] 0 <= j < before.len() implies exists|i: int| #![trigger v[i]] 0 <= i < v.len() && v[i] == before[j] by {
        if j < p {
            assert(v[j] == before[j]);
        } else {
            assert(v[j + 1] == before[j]);
        }
    }
}

/// The loaded locale tables that the manifest names, once each and ordered
/// by name, each with the number of its texts.
pub fn locale_sizes(config: &ConfigFacts) -> (v: Vec<(String, usize)>)
    ensures
        locale_sizes_of(config, v@),
{
    let ghost names = manifest_locale_names(config.manifest);
    let mut out: Vec<(String, usize)> = Vec::new();
    let mut k: usize = 0;
    while k < config.manifest.locales.len()
        invariant
            k <= config.manifest.locales@.len(),
            names == manifest_locale_names(config.manifest),
            names.len() == config.manifest.locales@.len(),
            strictly_by_name(out@),
            forall|i: int|
                0 <= i < out@.len() ==> names.contains(#[trigger] out@[i].0@) && config.locales@.contains_key(out@[i].0@)
                    && out@[i].1 == config.locales@[out@[i].0@].entries@.len(),
            forall|m: int|
                0 <= m < k && config.locales@.contains_key(#[trigger] names[m]) ==> exists|i: int|
                    0 <= i < out@.len() && out@[i].0@ == names[m],
        decreases config.manifest.locales.len() - k,
    {
        let name = normalize_locale_key(config.manifest.locales[k].0.as_str());
        assert(name@ == names[k as int]);
        proof {
            reveal_strlit("_");
            reveal_strlit("-");
        }
        match config.locales.get(name.as_str()) {
            Some(t) => {
                let n = t.entries.len();
                let ghost before = out@;
                insert_by_name(&mut out, name, n);
                assert forall|i: int| 0 <= i < out@.len() implies names.contains(#[trigger] out@[i].0@)
                    && config.locales@.contains_key(out@[i].0@) && out@[i].1 == config.locales@[out@[i].0@].entries@.len() by {
                    if exists|j: int| #![trigger before[j]] 0 <= j < before.len() && before[j] == out@[i] {
                        let j = choose|j: int| #![trigger before[j]] 0 <= j < before.len() && before[j] == out@[i];
                        assert(names.contains(before[j].0@));
                    } else {
                        assert(names[k as int] == out@[i].0@);
                    }
                }
                assert forall|m: int| 0 <= m < k + 1 && config.locales@.contains_key(#[trigger] names[m]) implies exists|i: int|
                    0 <= i < out@.len() && out@[i].0@ == names[m] by {
                    if m < k {
                        let i0 = choose|i: int| 0 <= i < before.len() && before[i].0@ == names[m];
                        assert(before[i0] == before[i0]);
                        let i1 = choose|i: int| #![trigger out@[i]] 0 <= i < out@.len() && out@[i] == before[i0];
                        assert(out@[i1].0@ == names[m]);
                    }
                }
            },
            None => {},
        }
        k += 1;
    }
    out
}

fn count_enabled(actions: &Vec<ActionFacts>) -> (n: usize)
    ensures
        n == enabled_count(actions@),
{
    let mut n: usize = 0;
    let mut i: usize = 0;
    assert(actions@.take(0) =~= Seq::<ActionFacts>::empty());
    while i < actions.len()
        invariant
            i <= actions@.len(),
            n == enabled_count(actions@.take(i as int)),
            n <= i,
        decreases actions.len() - i,
    {
        assert(actions@.take(i + 1).drop_last() =~= actions@.take(i as int));
        if actions[i].enabled {
            n += 1;
        }
        i += 1;
    }
    assert(actions@.take(actions@.len() as int) =~= actions@);
    n
}

/// The inspection of a loaded configuration whose balance table has
/// `balance_keys` keys.
pub fn inspect_config_facts(
    config: &ConfigFacts,
    config_hash: String,
    balance_keys: usize,
) -> (r: ConfigInspection)
    ensures
        r.scenario_id@ == config.manifest.id@,
        r.version@ == config.manifest.version@,
        r.default_locale@ == config.manifest.default_locale@,
        r.config_hash@ == config_hash@,
        r.stats == config.stats@.len(),
        r.resources == config.resources@.len(),
        r.actions == config.actions@.len(),
        r.enabled_actions == enabled_count(config.actions@),
        r.events == config.events@.len(),
        r.panels == config.panels@.len(),
        r.prompts == config.prompts@.len(),
        r.balance_keys == balance_keys,
        locale_sizes_of(config, r.locales@),
        r.registered_action_resolvers == action_resolvers().len(),
        r.registered_event_resolvers == event_resolvers().len(),
{
    let actions = registered_action_resolvers();
    let events = registered_event_resolvers();
    ConfigInspection {
        scenario_id: config.manifest.id.clone(),
        version: config.manifest.version.clone(),
        default_locale: config.manifest.default_locale.clone(),
        config_hash,
        stats: config.stats.len(),
        resources: config.resources.len(),
        actions: config.actions.len(),
        enabled_actions: count_enabled(&config.actions),
        events: config.events.len(),
        panels: config.panels.len(),
        prompts: config.prompts.len(),
        balance_keys,
        locales: locale_sizes(config),
        registered_action_resolvers: actions.len(),
        registered_event_resolvers: events.len(),
    }
}


#[verifier::external_type_specification]
#[verifier::external_body]
#[verifier::reject_recursive_types(T)]
pub struct ExReceiver<T>(Receiver<T>);

/// What the daemon reported about its start-up, or why nothing came.
#[derive(Debug, Clone, PartialEq, Eq)]
pub enum StartupStatus {
    Started,
    Failed(String),
    TimedOut,
    Disconnected,
}

/// Waits up to `timeout_secs` seconds for the daemon's start-up report.
///
/// Trusted: calls `Receiver::recv_timeout` and tells its outcomes apart.
/// What comes back depends on the other thread and on time, so nothing is
/// claimed of it.
#[verifier::external_body]
fn receive_startup(startup_rx: &Receiver<Result<(), String>>, timeout_secs: u64) -> (s: StartupStatus) {
    match startup_rx.recv_timeout(Duration::from_secs(timeout_secs)) {
        Ok(Ok(())) => StartupStatus::Started,
        Ok(Err(error)) => StartupStatus::Failed(error),
        Err(RecvTimeoutError::Timeout) => StartupStatus::TimedOut,
        Err(RecvTimeoutError::Disconnected) => StartupStatus::Disconnected,
    }
}

/// What a start-up report means for the caller: nothing on success, else
/// the error to report.
pub open spec fn startup_outcome(status: StartupStatus, timeout_secs: u64, socket_path: Seq<char>) -> Result<(), Seq<char>> {
    match status {
        StartupStatus::Started => Ok(()),
        StartupStatus::Failed(error) => Err("daemon failed to start: "@ + error@),
        StartupStatus::TimedOut => Err(
            "daemon did not start within "@ + decimal(timeout_secs as nat) + " seconds (socket: "@
                + socket_path + ")"@,
        ),
        StartupStatus::Disconnected => Err(
            "daemon exited before reporting startup status (socket: "@ + socket_path + ")"@,
        ),
    }
}

/// The caller's result for a start-up report.
pub fn startup_result(status: StartupStatus, timeout_secs: u64, socket_path: &str) -> (r: Result<(), String>)
    ensures
        match r {
            Ok(()) => startup_outcome(status, timeout_secs, socket_path@) == Ok::<(), Seq<char>>(()),
            Err(e) => startup_outcome(status, timeout_secs, socket_path@) == Err::<(), Seq<char>>(e@),
        },
{
    match status {
        StartupStatus::Started => Ok(()),
        StartupStatus::Failed(error) => {
            let mut m = "daemon failed to start: ".to_string();
            push_str(&mut m, error.as_str());
            Err(m)
        },
        StartupStatus::TimedOut => {
            let mut m = "daemon did not start within ".to_string();
            push_decimal(&mut m, timeout_secs);
            push_str(&mut m, " seconds (socket: ");
            push_str(&mut m, socket_path);
            push_str(&mut m, ")");
            Err(m)
        },
        StartupStatus::Disconnected => {
            let mut m = "daemon exited before reporting startup status (socket: ".to_string();
            push_str(&mut m, socket_path);
            push_str(&mut m, ")");
            Err(m)
        },
    }
}

/// Waits for the daemon's start-up report and turns it into the caller's
/// result: whatever the report, the result is the one [`startup_outcome`]
/// gives for it.
pub fn wait_for_daemon_start(
    startup_rx: &Receiver<Result<(), String>>,
    socket_path: &str,
    timeout_secs: u64,
) -> (r: Result<(), String>)
    ensures
        exists|status: StartupStatus|
            match r {
                Ok(()) => startup_outcome(status, timeout_secs, socket_path@) == Ok::<(), Seq<char>>(()),
                Err(e) => startup_outcome(status, timeout_secs, socket_path@) == Err::<(), Seq<char>>(e@),
            },
{
    let status = receive_startup(startup_rx, timeout_secs);
    let r = startup_result(status, timeout_secs, socket_path);
    let ghost s = status;
    assert(match r {
        Ok(()) => startup_outcome(s, timeout_secs, socket_path@) == Ok::<(), Seq<char>>(()),
        Err(e) => startup_outcome(s, timeout_secs, socket_path@) == Err::<(), Seq<char>>(e@),
    });
    r
}

/// A relative path made of plain components: not empty, not starting with
/// `/`, with no empty component and no component that starts with `.` (so
/// neither `.` nor `..`).
pub open spec fn plain_relative(p: Seq<char>) -> bool {
    &&& p.len() > 0
    &&& p[0] != '/'
    &&& forall|i: int| 0 <= i < p.len() - 1 && #[trigger] p[i] == '/' ==> p[i + 1] != '/'
    &&& forall|i: int| 0 <= i < p.len() && #[trigger] p[i] == '.' ==> i > 0 && p[i - 1] != '/'
}

/// Whether `p` ends with a `/` followed by `tail`.
pub open spec fn ends_with_component(p: Seq<char>, tail: Seq<char>) -> bool {
    p.len() > tail.len() && p.skip(p.len() - tail.len() - 1) == seq!['/'] + tail
}

/// `path` made absolute against the working directory, or the text of the
/// error that the working directory gave.
///
/// Trusted: calls `std::path::absolute` and renders the path. It depends
/// on the working directory, so only this is claimed: a result starts with
/// `/`, the mark of an absolute path on Unix, and for a plain relative path
/// it ends with `/` and that path (the working directory is put in front of
/// it; such a path has no `.`, `..` or doubled `/` for the call to remove).
#[verifier::external_body]
fn absolute_path(path: &str) -> (r: Result<String, String>)
    ensures
        r matches Ok(p) ==> p@.len() > 0 && p@[0] == '/',
        r matches Ok(p) ==> (plain_relative(path@) ==> ends_with_component(p@, path@)),
{
    match std::path::absolute(path) {
        Ok(resolved) => Ok(resolved.display().to_string()),
        Err(error) => Err(error.to_string()),
    }
}

/// The error of a socket path that could not be made absolute.
pub open spec fn socket_path_error(socket_path: Seq<char>, cause: Seq<char>) -> Seq<char> {
    "resolving socket path "@ + socket_path + ": "@ + cause
}

/// `socket_path` made absolute against the working directory: an absolute
/// path, which for a plain relative path ends with `/` and that path; or,
/// when the working directory cannot be read, the error naming the path.
pub fn absolute_socket_path(socket_path: &str) -> (r: Result<String, String>)
    ensures
        r matches Ok(p) ==> p@.len() > 0 && p@[0] == '/',
        r matches Ok(p) ==> (plain_relative(socket_path@) ==> ends_with_component(p@, socket_path@)),
        r matches Err(e) ==> exists|cause: Seq<char>| e@ == #[trigger] socket_path_error(socket_path@, cause),
{
    match absolute_path(socket_path) {
        Ok(p) => Ok(p),
        Err(cause) => {
            let mut message = "resolving socket path ".to_string();
            push_str(&mut message, socket_path);
            push_str(&mut message, ": ");
            push_str(&mut message, cause.as_str());
            assert(message@ == socket_path_error(socket_path@, cause@));
            Err(message)
        },
    }
}

/// The connection hint shown to the player: the socket path itself.
pub fn play_connection_hint(abs_socket: &str) -> (s: String)
    ensures
        s@ == abs_socket@,
{
    abs_socket.to_string()
}

} // verus!
