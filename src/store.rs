use vstd::prelude::*;

verus! {

/// An open document: its identity, the client's version number and its full text.
pub struct Document {
    pub uri: String,
    pub text: String,
    pub version: i32,
}

/// What the store knows of one document: its text and version.
pub struct DocState {
    pub text: Seq<char>,
    pub version: int,
}

impl Document {
    pub open spec fn state(&self) -> DocState {
        DocState { text: self.text@, version: self.version as int }
    }
}

/// An immutable copy of a document's text and version, taken at one moment.
#[derive(Clone, Debug)]
pub struct Snapshot {
    pub text: String,
    pub version: i32,
}

impl Snapshot {
    pub open spec fn state(&self) -> DocState {
        DocState { text: self.text@, version: self.version as int }
    }
}

#[derive(Clone, Copy, Debug, PartialEq, Eq, Structural)]
pub enum StoreError {
    UnknownDocument,
    AlreadyOpen,
    VersionRegression,
}

/// The authoritative text and version of every open document, keyed by URI.
pub struct DocumentStore {
    docs: Vec<Document>,
    model: Ghost<Map<Seq<char>, DocState>>,
}

impl View for DocumentStore {
    type V = Map<Seq<char>, DocState>;

    closed spec fn view(&self) -> Map<Seq<char>, DocState> {
        self.model@
    }
}

impl DocumentStore {
    /// No two entries share a URI, and the map holds exactly the entries.
    pub closed spec fn wf(&self) -> bool {
        &&& forall|i: int, j: int|
            0 <= i < j < self.docs@.len() ==> self.docs@[i].uri@ != self.docs@[j].uri@
        &&& forall|i: int|
            0 <= i < self.docs@.len() ==> #[trigger] self.model@.contains_key(self.docs@[i].uri@)
                && self.model@[self.docs@[i].uri@] == self.docs@[i].state()
        &&& forall|k: Seq<char>|
            #[trigger] self.model@.contains_key(k) ==> exists|i: int|
                0 <= i < self.docs@.len() && self.docs@[i].uri@ == k
    }

    pub fn new() -> (r: DocumentStore)
        ensures
            r.wf(),
            r@ == Map::<Seq<char>, DocState>::empty(),
    {
        DocumentStore { docs: Vec::new(), model: Ghost(Map::empty()) }
    }

    fn index_of(&self, uri: &String) -> (r: Option<usize>)
        requires
            self.wf(),
        ensures
            match r {
                Some(i) => i < self.docs@.len() && self.docs@[i as int].uri@ == uri@,
                None => !self@.contains_key(uri@),
            },
    {
        let mut i: usize = 0;
        while i < self.docs.len()
            invariant
                self.wf(),
                i <= self.docs@.len(),
                forall|j: int| 0 <= j < i ==> self.docs@[j].uri@ != uri@,
            decreases self.docs@.len() - i,
        {
            if self.docs[i].uri == *uri {
                return Some(i);
            }
            i = i + 1;
        }
        None
    }

    /// Starts tracking a document; fails with `AlreadyOpen` when the URI is tracked.
    pub fn open(&mut self, uri: String, text: String, version: i32) -> (r: Result<(), StoreError>)
        requires
            old(self).wf(),
        ensures
            final(self).wf(),
            match r {
                Ok(()) => !old(self)@.contains_key(uri@) && final(self)@ == old(self)@.insert(
                    uri@,
                    DocState { text: text@, version: version as int },
                ),
                Err(e) => old(self)@.contains_key(uri@) && e == StoreError::AlreadyOpen
                    && final(self)@ == old(self)@,
            },
    {
        match self.index_of(&uri) {
            Some(_) => Err(StoreError::AlreadyOpen),
            None => {
                let ghost key = uri@;
                let doc = Document { uri, text, version };
                let ghost st = doc.state();
                self.docs.push(doc);
                self.model = Ghost(self.model@.insert(key, st));
                assert forall|k: Seq<char>| #[trigger] self.model@.contains_key(k) implies exists|
                    i: int,
                |
                    0 <= i < self.docs@.len() && self.docs@[i].uri@ == k by {
                    if k != key {
                        let j = choose|j: int|
                            0 <= j < old(self).docs@.len() && old(self).docs@[j].uri@ == k;
                        assert(self.docs@[j] == old(self).docs@[j]);
                    } else {
                        assert(self.docs@[self.docs@.len() - 1].uri@ == k);
                    }
                }
                Ok(())
            },
        }
    }

    /// Replaces a document's text and sets its version to `version`. Fails with
    /// `UnknownDocument` when the URI is not open, and with `VersionRegression`
    /// when `version` is not greater than the stored one; the store is then
    /// unchanged.
    pub fn apply_full_change(&mut self, uri: &String, text: String, version: i32) -> (r: Result<
        (),
        StoreError,
    >)
        requires
            old(self).wf(),
        ensures
            final(self).wf(),
            match r {
                Ok(()) => old(self)@.contains_key(uri@) && old(self)@[uri@].version < version
                    && final(self)@ == old(self)@.insert(
                    uri@,
                    DocState { text: text@, version: version as int },
                ),
                Err(e) => final(self)@ == old(self)@ && (if !old(self)@.contains_key(uri@) {
                    e == StoreError::UnknownDocument
                } else {
                    e == StoreError::VersionRegression && version <= old(self)@[uri@].version
                }),
            },
    {
        match self.index_of(uri) {
            None => Err(StoreError::UnknownDocument),
            Some(i) => {
                proof {
                    assert(self.model@.contains_key(self.docs@[i as int].uri@));
                }
                if version <= self.docs[i].version {
                    return Err(StoreError::VersionRegression);
                }
                let ghost key = uri@;
                let doc = Document { uri: self.docs[i].uri.clone(), text, version };
                let ghost st = doc.state();
                self.docs.set(i, doc);
                self.model = Ghost(self.model@.insert(key, st));
                assert forall|k: Seq<char>| #[trigger] self.model@.contains_key(k) implies exists|
                    j: int,
                |
                    0 <= j < self.docs@.len() && self.docs@[j].uri@ == k by {
                    let j = choose|j: int|
                        0 <= j < old(self).docs@.len() && old(self).docs@[j].uri@ == k;
                    assert(self.docs@[j].uri@ == k);
                }
                Ok(())
            },
        }
    }

    /// Stops tracking a document; fails with `UnknownDocument` when it is not open.
    pub fn close(&mut self, uri: &String) -> (r: Result<(), StoreError>)
        requires
            old(self).wf(),
        ensures
            final(self).wf(),
            match r {
                Ok(()) => old(self)@.contains_key(uri@) && final(self)@ == old(self)@.remove(uri@),
                Err(e) => !old(self)@.contains_key(uri@) && e == StoreError::UnknownDocument
                    && final(self)@ == old(self)@,
            },
    {
        match self.index_of(uri) {
            None => Err(StoreError::UnknownDocument),
            Some(i) => {
                let ghost key = uri@;
                let ghost od = self.docs@;
                self.docs.remove(i);
                self.model = Ghost(self.model@.remove(key));
                assert forall|a: int|
                    0 <= a < self.docs@.len() implies #[trigger] self.model@.contains_key(
                    self.docs@[a].uri@,
                ) && self.model@[self.docs@[a].uri@] == self.docs@[a].state() by {
                    if a < i {
                        assert(self.docs@[a] == od[a]);
                        assert(od[a].uri@ != od[i as int].uri@);
                        assert(old(self).model@.contains_key(od[a].uri@));
                    } else {
                        assert(self.docs@[a] == od[a + 1]);
                        assert(od[a + 1].uri@ != od[i as int].uri@);
                        assert(old(self).model@.contains_key(od[a + 1].uri@));
                    }
                }
                assert forall|k: Seq<char>| #[trigger] self.model@.contains_key(k) implies exists|
                    j: int,
                |
                    0 <= j < self.docs@.len() && self.docs@[j].uri@ == k by {
                    let j = choose|j: int| 0 <= j < od.len() && od[j].uri@ == k;
                    if j < i {
                        assert(self.docs@[j] == od[j]);
                    } else {
                        assert(j != i);
                        assert(self.docs@[j - 1] == od[j]);
                    }
                }
                Ok(())
            },
        }
    }

    /// A read-only copy of a document's text and version, or `UnknownDocument`.
    pub fn snapshot(&self, uri: &String) -> (r: Result<Snapshot, StoreError>)
        requires
            self.wf(),
        ensures
            match r {
                Ok(s) => self@.contains_key(uri@) && s.state() == self@[uri@],
                Err(e) => !self@.contains_key(uri@) && e == StoreError::UnknownDocument,
            },
    {
        match self.index_of(uri) {
            None => Err(StoreError::UnknownDocument),
            Some(i) => {
                proof {
                    assert(self.model@.contains_key(self.docs@[i as int].uri@));
                }
                Ok(Snapshot { text: self.docs[i].text.clone(), version: self.docs[i].version })
            },
        }
    }
}

} // verus!
