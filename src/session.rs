use vstd::prelude::*;
use crate::analyzer::Diagnostic;
use crate::dispatcher::{is_answer, dispatch, Answer, DispatchError, Request, response_view};
use crate::publisher::{
    on_change_spec, poll_spec, publication_view, Debouncer, DebouncerView, Publication,
};
use crate::store::{DocState, DocumentStore, StoreError};

verus! {

/// The debounce state kept for one open document.
pub struct OpenDoc {
    pub uri: String,
    pub debouncer: Debouncer,
}

/// A language-server session: the open documents and, for each of them, its
/// diagnostics publication state. Every document change schedules a publication.
pub struct Session {
    store: DocumentStore,
    open_docs: Vec<OpenDoc>,
    interval: u64,
    pubs: Ghost<Map<Seq<char>, DebouncerView>>,
}

/// The state of a document's publications when it has just been opened at
/// `version` at time `now`.
pub open spec fn opened_spec(interval: int, version: int, now: int) -> DebouncerView {
    on_change_spec(
        DebouncerView { interval, pending: None, last_published: None, shown: Seq::empty() },
        version,
        now,
    )
}

impl Session {
    pub closed spec fn documents(&self) -> Map<Seq<char>, DocState> {
        self.store@
    }

    pub closed spec fn publications(&self) -> Map<Seq<char>, DebouncerView> {
        self.pubs@
    }

    pub closed spec fn interval(&self) -> int {
        self.interval as int
    }

    pub closed spec fn wf(&self) -> bool {
        &&& self.store.wf()
        &&& self.store@.dom() == self.pubs@.dom()
        &&& forall|i: int, j: int|
            0 <= i < j < self.open_docs@.len() ==> self.open_docs@[i].uri@ != self.open_docs@[j].uri@
        &&& forall|i: int|
            0 <= i < self.open_docs@.len() ==> #[trigger] self.pubs@.contains_key(
                self.open_docs@[i].uri@,
            ) && self.pubs@[self.open_docs@[i].uri@] == self.open_docs@[i].debouncer@
        &&& forall|k: Seq<char>|
            #[trigger] self.pubs@.contains_key(k) ==> exists|i: int|
                0 <= i < self.open_docs@.len() && self.open_docs@[i].uri@ == k
    }

    /// A session with no open document, whose changes wait `interval` before their
    /// diagnostics are published.
    pub fn new(interval: u64) -> (r: Session)
        ensures
            r.wf(),
            r.documents() == Map::<Seq<char>, DocState>::empty(),
            r.publications() == Map::<Seq<char>, DebouncerView>::empty(),
            r.interval() == interval,
    {
        let s = Session {
            store: DocumentStore::new(),
            open_docs: Vec::new(),
            interval,
            pubs: Ghost(Map::empty()),
        };
        assert(s.store@.dom() =~= s.pubs@.dom());
        s
    }

    fn index_of(&self, uri: &String) -> (r: Option<usize>)
        requires
            self.wf(),
        ensures
            match r {
                Some(i) => i < self.open_docs@.len() && self.open_docs@[i as int].uri@ == uri@,
                None => !self.pubs@.contains_key(uri@),
            },
    {
        let mut i: usize = 0;
        while i < self.open_docs.len()
            invariant
                self.wf(),
                i <= self.open_docs@.len(),
                forall|j: int| 0 <= j < i ==> self.open_docs@[j].uri@ != uri@,
            decreases self.open_docs@.len() - i,
        {
            if self.open_docs[i].uri == *uri {
                return Some(i);
            }
            i = i + 1;
        }
        None
    }

    /// Opens a document at time `now` and schedules its first publication. Fails
    /// with `AlreadyOpen`, changing nothing, when the URI is open.
    pub fn did_open(&mut self, uri: String, text: String, version: i32, now: u64) -> (r: Result<
        (),
        StoreError,
    >)
        requires
            old(self).wf(),
        ensures
            final(self).wf(),
            final(self).interval() == old(self).interval(),
            match r {
                Ok(()) => !old(self).documents().contains_key(uri@) && final(self).documents()
                    == old(self).documents().insert(
                    uri@,
                    DocState { text: text@, version: version as int },
                ) && final(self).publications() == old(self).publications().insert(
                    uri@,
                    opened_spec(old(self).interval(), version as int, now as int),
                ),
                Err(e) => old(self).documents().contains_key(uri@) && e == StoreError::AlreadyOpen
                    && final(self).documents() == old(self).documents() && final(self).publications() == old(self).publications(),
            },
    {
        let key = uri.clone();
        match self.store.open(uri, text, version) {
            Err(e) => Err(e),
            Ok(()) => {
                let mut d = Debouncer::new(self.interval);
                d.on_change(version, now);
                let ghost k = key@;
                let ghost dv = d@;
                self.open_docs.push(OpenDoc { uri: key, debouncer: d });
                self.pubs = Ghost(self.pubs@.insert(k, dv));
                assert(self.store@.dom() =~= self.pubs@.dom());
                assert forall|kk: Seq<char>| #[trigger] self.pubs@.contains_key(kk) implies exists|
                    i: int,
                |
                    0 <= i < self.open_docs@.len() && self.open_docs@[i].uri@ == kk by {
                    if kk != k {
                        let j = choose|j: int|
                            0 <= j < old(self).open_docs@.len() && old(self).open_docs@[j].uri@ == kk;
                        assert(self.open_docs@[j] == old(self).open_docs@[j]);
                    } else {
                        assert(self.open_docs@[self.open_docs@.len() - 1].uri@ == kk);
                    }
                }
                Ok(())
            },
        }
    }

    /// Replaces a document's text at time `now` and schedules a publication, which
    /// takes the place of any still pending. Fails as the store's change does,
    /// changing nothing.
    pub fn did_change(&mut self, uri: &String, text: String, version: i32, now: u64) -> (r: Result<
        (),
        StoreError,
    >)
        requires
            old(self).wf(),
        ensures
            final(self).wf(),
            final(self).interval() == old(self).interval(),
            match r {
                Ok(()) => old(self).documents().contains_key(uri@)
                    && old(self).documents()[uri@].version < version && final(self).documents()
                    == old(self).documents().insert(
                    uri@,
                    DocState { text: text@, version: version as int },
                ) && final(self).publications() == old(self).publications().insert(
                    uri@,
                    on_change_spec(old(self).publications()[uri@], version as int, now as int),
                ),
                Err(e) => final(self).documents() == old(self).documents() && final(self).publications() == old(self).publications() && (if !old(self).documents().contains_key(uri@) {
                    e == StoreError::UnknownDocument
                } else {
                    e == StoreError::VersionRegression && version <= old(self).documents()[uri@].version
                }),
            },
    {
        let found = self.index_of(uri);
        match self.store.apply_full_change(uri, text, version) {
            Err(e) => Err(e),
            Ok(()) => {
                let i = match found {
                    Some(i) => i,
                    None => {
                        proof {
                            assert(old(self).store@.dom().contains(uri@));
                        }
                        return Err(StoreError::UnknownDocument);
                    },
                };
                proof {
                    assert(self.pubs@.contains_key(self.open_docs@[i as int].uri@));
                }
                let mut t = self.open_docs.remove(i);
                t.debouncer.on_change(version, now);
                let ghost tv = t.debouncer@;
                self.open_docs.insert(i, t);
                assert(self.open_docs@ =~= old(self).open_docs@.update(i as int, self.open_docs@[i as int]));
                self.pubs = Ghost(self.pubs@.insert(uri@, tv));
                assert(self.open_docs@[i as int].uri@ == uri@);
                assert(self.store@.dom() =~= self.pubs@.dom());
                assert forall|kk: Seq<char>| #[trigger] self.pubs@.contains_key(kk) implies exists|
                    j: int,
                |
                    0 <= j < self.open_docs@.len() && self.open_docs@[j].uri@ == kk by {
                    let j = choose|j: int|
                        0 <= j < old(self).open_docs@.len() && old(self).open_docs@[j].uri@ == kk;
                    assert(self.open_docs@[j].uri@ == kk);
                }
                Ok(())
            },
        }
    }

    /// Closes a document: it is no longer tracked here, and the empty set returned is to
    /// be published to clear its diagnostics. Fails with `UnknownDocument` when it
    /// is not open, changing nothing.
    pub fn did_close(&mut self, uri: &String) -> (r: Result<Vec<Diagnostic>, StoreError>)
        requires
            old(self).wf(),
        ensures
            final(self).wf(),
            final(self).interval() == old(self).interval(),
            match r {
                Ok(cleared) => old(self).documents().contains_key(uri@) && cleared@.len() == 0
                    && final(self).documents() == old(self).documents().remove(uri@) && final(self).publications() == old(self).publications().remove(uri@),
                Err(e) => !old(self).documents().contains_key(uri@) && e
                    == StoreError::UnknownDocument && final(self).documents() == old(self).documents() && final(self).publications() == old(self).publications(),
            },
    {
        let found = self.index_of(uri);
        match self.store.close(uri) {
            Err(e) => Err(e),
            Ok(()) => {
                let i = match found {
                    Some(i) => i,
                    None => {
                        proof {
                            assert(old(self).store@.dom().contains(uri@));
                        }
                        return Err(StoreError::UnknownDocument);
                    },
                };
                let ghost od = self.open_docs@;
                let mut t = self.open_docs.remove(i);
                let cleared = t.debouncer.on_close();
                self.pubs = Ghost(self.pubs@.remove(uri@));
                assert(self.store@.dom() =~= self.pubs@.dom());
                assert forall|a: int|
                    0 <= a < self.open_docs@.len() implies #[trigger] self.pubs@.contains_key(
                    self.open_docs@[a].uri@,
                ) && self.pubs@[self.open_docs@[a].uri@] == self.open_docs@[a].debouncer@ by {
                    if a < i {
                        assert(self.open_docs@[a] == od[a]);
                        assert(od[a].uri@ != od[i as int].uri@);
                        assert(old(self).pubs@.contains_key(od[a].uri@));
                    } else {
                        assert(self.open_docs@[a] == od[a + 1]);
                        assert(od[a + 1].uri@ != od[i as int].uri@);
                        assert(old(self).pubs@.contains_key(od[a + 1].uri@));
                    }
                }
                assert forall|k: Seq<char>| #[trigger] self.pubs@.contains_key(k) implies exists|
                    j: int,
                |
                    0 <= j < self.open_docs@.len() && self.open_docs@[j].uri@ == k by {
                    let j = choose|j: int| 0 <= j < od.len() && od[j].uri@ == k;
                    if j < i {
                        assert(self.open_docs@[j] == od[j]);
                    } else {
                        assert(j != i);
                        assert(self.open_docs@[j - 1] == od[j]);
                    }
                }
                Ok(cleared)
            },
        }
    }

    /// At time `now`, the publication for `uri` that has come due, if any: the
    /// diagnostics of the document's current text at its current version.
    pub fn poll(&mut self, uri: &String, now: u64) -> (r: Option<Publication>)
        requires
            old(self).wf(),
        ensures
            final(self).wf(),
            final(self).interval() == old(self).interval(),
            final(self).documents() == old(self).documents(),
            !old(self).documents().contains_key(uri@) ==> r is None && final(self).publications()
                == old(self).publications(),
            old(self).documents().contains_key(uri@) ==> ({
                let (next, out) = poll_spec(
                    old(self).publications()[uri@],
                    now as int,
                    old(self).documents()[uri@],
                );
                &&& publication_view(r) == out
                &&& final(self).publications() == old(self).publications().insert(uri@, next)
            }),
    {
        let snap = match self.store.snapshot(uri) {
            Ok(s) => s,
            Err(_) => {
                return None;
            },
        };
        let i = match self.index_of(uri) {
            Some(i) => i,
            None => {
                return None;
            },
        };
        proof {
            assert(self.pubs@.contains_key(self.open_docs@[i as int].uri@));
        }
        let mut t = self.open_docs.remove(i);
        let out = t.debouncer.poll(now, &snap);
        let ghost tv = t.debouncer@;
        self.open_docs.insert(i, t);
        assert(self.open_docs@ =~= old(self).open_docs@.update(i as int, self.open_docs@[i as int]));
        self.pubs = Ghost(self.pubs@.insert(uri@, tv));
        assert(self.open_docs@[i as int].uri@ == uri@);
        assert(self.store@ == old(self).store@);
        assert forall|a: int|
            0 <= a < self.open_docs@.len() implies #[trigger] self.pubs@.contains_key(
            self.open_docs@[a].uri@,
        ) && self.pubs@[self.open_docs@[a].uri@] == self.open_docs@[a].debouncer@ by {
            if a != i {
                assert(self.open_docs@[a] == old(self).open_docs@[a]);
                assert(old(self).pubs@.contains_key(old(self).open_docs@[a].uri@));
            }
        }
        assert(self.store@.dom() =~= self.pubs@.dom());
        assert forall|kk: Seq<char>| #[trigger] self.pubs@.contains_key(kk) implies exists|
            j: int,
        |
            0 <= j < self.open_docs@.len() && self.open_docs@[j].uri@ == kk by {
            let j = choose|j: int|
                0 <= j < old(self).open_docs@.len() && old(self).open_docs@[j].uri@ == kk;
            assert(self.open_docs@[j].uri@ == kk);
        }
        out
    }

    /// Answers a request against the current state of its document, as `dispatch`.
    pub fn request(&self, req: &Request) -> (r: Result<Answer, DispatchError>)
        requires
            self.wf(),
        ensures
            req.cancelled ==> r == Err::<Answer, DispatchError>(DispatchError::Cancelled),
            !req.cancelled && !self.documents().contains_key(req.uri@) ==> r == Err::<
                Answer,
                DispatchError,
            >(DispatchError::UnknownDocument),
            !req.cancelled && self.documents().contains_key(req.uri@) ==> (r matches Ok(a)
                && is_answer(
                self.documents()[req.uri@],
                req.kind,
                req.position,
                a.version as int,
                response_view(a.response),
            )),
    {
        dispatch(&self.store, req)
    }

    /// The current version of a document, if it is open.
    pub fn version_of(&self, uri: &String) -> (r: Option<i32>)
        requires
            self.wf(),
        ensures
            match r {
                Some(v) => self.documents().contains_key(uri@) && v == self.documents()[uri@].version,
                None => !self.documents().contains_key(uri@),
            },
    {
        match self.store.snapshot(uri) {
            Ok(s) => Some(s.version),
            Err(_) => None,
        }
    }
}

} // verus!
