use vstd::prelude::*;
use crate::analyzer::{analysis, analyzable, analyze, Diagnostic};
use crate::store::{DocState, Snapshot};

verus! {

/// A publication waiting for its debounce interval to pass: the version that asked
/// for it, and the time from which it may go out.
#[derive(Clone, Copy, Debug, PartialEq, Eq, Structural)]
pub struct PendingPublish {
    pub version: i32,
    pub due: u64,
}

/// A diagnostic set to push to the client for one document. It replaces whatever
/// set was pushed before for that document.
pub struct Publication {
    pub version: i32,
    pub diagnostics: Vec<Diagnostic>,
}

/// The debounce and publication state of one open document.
pub struct Debouncer {
    /// The minimum time between a change and the publication it causes.
    pub interval: u64,
    pub pending: Option<PendingPublish>,
    /// The version of the last set published, if any was.
    pub last_published: Option<i32>,
    /// The set the client holds now: the last one published.
    pub shown: Vec<Diagnostic>,
}

pub struct DebouncerView {
    pub interval: int,
    pub pending: Option<(int, int)>,
    pub last_published: Option<int>,
    pub shown: Seq<Diagnostic>,
}

impl View for Debouncer {
    type V = DebouncerView;

    open spec fn view(&self) -> DebouncerView {
        DebouncerView {
            interval: self.interval as int,
            pending: match self.pending {
                Some(p) => Some((p.version as int, p.due as int)),
                None => None,
            },
            last_published: match self.last_published {
                Some(v) => Some(v as int),
                None => None,
            },
            shown: self.shown@,
        }
    }
}

/// The diagnostics published for a text: those of its model, or none where the
/// text cannot be analyzed.
pub open spec fn diagnostics_of(t: Seq<char>) -> Seq<Diagnostic> {
    if analyzable(t) {
        analysis(t, 0).diagnostics
    } else {
        Seq::empty()
    }
}

/// The time at which a change made at `now` may be published.
pub open spec fn due_after(now: int, interval: int) -> int {
    if now + interval <= u64::MAX {
        now + interval
    } else {
        u64::MAX as int
    }
}

/// A change to version `version` at time `now`: it takes the place of any
/// publication still pending, so that rapid changes coalesce into one.
pub open spec fn on_change_spec(d: DebouncerView, version: int, now: int) -> DebouncerView {
    DebouncerView { pending: Some((version, due_after(now, d.interval))), ..d }
}

/// A poll at time `now`, the document being in state `s`. A pending publication
/// that is due goes out for the current version, unless a later version has
/// already been published; it then replaces the shown set.
pub open spec fn poll_spec(d: DebouncerView, now: int, s: DocState) -> (
    DebouncerView,
    Option<(int, Seq<Diagnostic>)>,
) {
    match d.pending {
        Some(p) => if p.1 <= now {
            if d.last_published is None || d.last_published->0 <= s.version {
                (
                    DebouncerView {
                        pending: None,
                        last_published: Some(s.version),
                        shown: diagnostics_of(s.text),
                        ..d
                    },
                    Some((s.version, diagnostics_of(s.text))),
                )
            } else {
                (DebouncerView { pending: None, ..d }, None)
            }
        } else {
            (d, None)
        },
        None => (d, None),
    }
}

pub open spec fn publication_view(r: Option<Publication>) -> Option<(int, Seq<Diagnostic>)> {
    match r {
        Some(p) => Some((p.version as int, p.diagnostics@)),
        None => None,
    }
}

fn copy_diagnostics(v: &Vec<Diagnostic>) -> (r: Vec<Diagnostic>)
    ensures
        r@ == v@,
{
    let mut r: Vec<Diagnostic> = Vec::new();
    let mut i: usize = 0;
    while i < v.len()
        invariant
            i <= v@.len(),
            r@ == v@.take(i as int),
        decreases v@.len() - i,
    {
        r.push(v[i]);
        i = i + 1;
        assert(r@ =~= v@.take(i as int));
    }
    assert(v@.take(i as int) =~= v@);
    r
}

impl Debouncer {
    /// A document that has nothing pending and has had nothing published.
    pub fn new(interval: u64) -> (r: Debouncer)
        ensures
            r@ == (DebouncerView {
                interval: interval as int,
                pending: None,
                last_published: None,
                shown: Seq::empty(),
            }),
    {
        Debouncer { interval, pending: None, last_published: None, shown: Vec::new() }
    }

    /// Records a change to `version` at time `now`, replacing any pending publication.
    pub fn on_change(&mut self, version: i32, now: u64)
        ensures
            final(self)@ == on_change_spec(old(self)@, version as int, now as int),
    {
        let due = now.saturating_add(self.interval);
        self.pending = Some(PendingPublish { version, due });
    }

    /// At time `now`, with `snap` the document's current snapshot, hands out the
    /// publication that is due, if one is.
    pub fn poll(&mut self, now: u64, snap: &Snapshot) -> (r: Option<Publication>)
        ensures
            (final(self)@, publication_view(r)) == poll_spec(old(self)@, now as int, snap.state()),
    {
        match self.pending {
            Some(p) => {
                if p.due > now {
                    return None;
                }
                self.pending = None;
                let fresh = match self.last_published {
                    Some(l) => l <= snap.version,
                    None => true,
                };
                if !fresh {
                    return None;
                }
                let diagnostics = match analyze(snap.text.as_str(), snap.version) {
                    Ok(m) => m.diagnostics,
                    Err(_) => Vec::new(),
                };
                proof {
                    crate::analyzer::lemma_analysis_deterministic(
                        snap.text@,
                        snap.version as int,
                        0,
                    );
                }
                self.last_published = Some(snap.version);
                self.shown = copy_diagnostics(&diagnostics);
                Some(Publication { version: snap.version, diagnostics })
            },
            None => None,
        }
    }

    /// On close: drops what is pending and returns the empty set that clears the
    /// client's diagnostics for the document.
    pub fn on_close(&mut self) -> (r: Vec<Diagnostic>)
        ensures
            r@ == Seq::<Diagnostic>::empty(),
            final(self)@ == (DebouncerView {
                pending: None,
                shown: Seq::empty(),
                ..old(self)@
            }),
    {
        self.pending = None;
        self.shown = Vec::new();
        Vec::new()
    }
}

/// Monotonicity: a poll never lowers the last published version, and what it
/// publishes is never older than what was published before.
pub proof fn lemma_published_versions_monotone(d: DebouncerView, now: int, s: DocState)
    ensures
        ({
            let (next, out) = poll_spec(d, now, s);
            &&& d.last_published is Some ==> next.last_published is Some
                && d.last_published->0 <= next.last_published->0
            &&& forall|v: int, ds: Seq<Diagnostic>|
                out == Some((v, ds)) && d.last_published is Some ==> d.last_published->0 <= v
        }),
        on_change_spec(d, s.version, now).last_published == d.last_published,
{
}

/// Replace semantics: a publication becomes the whole shown set; nothing shown for
/// an earlier version is kept or merged into it.
pub proof fn lemma_replace_semantics(d1: DebouncerView, d2: DebouncerView, now: int, s: DocState)
    requires
        d1.pending == d2.pending,
        d1.last_published == d2.last_published,
    ensures
        ({
            let (next1, out1) = poll_spec(d1, now, s);
            let (next2, out2) = poll_spec(d2, now, s);
            &&& out1 == out2
            &&& forall|v: int, ds: Seq<Diagnostic>|
                out1 == Some((v, ds)) ==> next1.shown == ds && next2.shown == ds
        }),
{
}

/// Debounce: a second change before the first is due leaves only the second
/// pending; a poll before the second is due publishes nothing; and what goes out
/// is the diagnostic set of the document's current version.
pub proof fn lemma_rapid_changes_coalesce(
    d: DebouncerView,
    v1: int,
    t1: int,
    v2: int,
    t2: int,
    now: int,
    s: DocState,
)
    ensures
        on_change_spec(on_change_spec(d, v1, t1), v2, t2) == on_change_spec(d, v2, t2),
        ({
            let (_, out) = poll_spec(on_change_spec(on_change_spec(d, v1, t1), v2, t2), now, s);
            &&& now < due_after(t2, d.interval) ==> out is None
            &&& out is Some ==> out == Some((s.version, diagnostics_of(s.text)))
        }),
{
}

} // verus!
