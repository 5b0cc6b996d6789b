use vstd::prelude::*;
use crate::analyzer::{
    analysis, analyzable, analyze, copy_range, ConstructView, Position, Span, StructuralModel,
};
use crate::store::{DocState, DocumentStore};

verus! {

/// Whether position `a` comes at or before position `b` in a document.
pub open spec fn at_or_before(a: Position, b: Position) -> bool {
    a.line < b.line || (a.line == b.line && a.character <= b.character)
}

/// Whether a span covers a position.
pub open spec fn covers(span: Span, p: Position) -> bool {
    at_or_before(span.start, p) && !at_or_before(span.end, p)
}

/// The index of the first construct from index `i` on that covers `p`.
pub open spec fn first_covering(cs: Seq<ConstructView>, p: Position, i: int) -> Option<int>
    decreases cs.len() - i,
{
    if i < 0 || i >= cs.len() {
        None
    } else if covers(cs[i].span, p) {
        Some(i)
    } else {
        first_covering(cs, p, i + 1)
    }
}

/// What hovering over `p` shows: the span and text of the construct that covers
/// it, or nothing. Declarations do not nest, so the one found is the innermost.
pub open spec fn hover_spec(cs: Seq<ConstructView>, p: Position) -> Option<(Span, Seq<char>)> {
    match first_covering(cs, p, 0) {
        Some(i) => Some((cs[i].span, cs[i].header)),
        None => None,
    }
}

/// How many lines separate a construct's first line from the line of `p`.
pub open spec fn distance(c: ConstructView, p: Position) -> int {
    let d = c.span.start.line as int - p.line as int;
    if d < 0 {
        -d
    } else {
        d
    }
}

/// Whether a construct starts below the line of `p`.
pub open spec fn below(c: ConstructView, p: Position) -> bool {
    c.span.start.line > p.line
}

/// Whether construct `i` ranks before construct `j` as a completion source: the
/// nearer to `p` first; at equal distance, the one on or above `p`'s line first;
/// then the one earlier in the document.
pub open spec fn ranks_before(cs: Seq<ConstructView>, p: Position, i: int, j: int) -> bool {
    distance(cs[i], p) < distance(cs[j], p) || (distance(cs[i], p) == distance(cs[j], p) && (
    !below(cs[i], p) && below(cs[j], p))) || (distance(cs[i], p) == distance(cs[j], p) && below(
        cs[i],
        p,
    ) == below(cs[j], p) && i < j)
}

/// Whether construct `b` is the declaration of its name that ranks first.
pub open spec fn nearest_declaration(cs: Seq<ConstructView>, p: Position, b: int) -> bool {
    &&& 0 <= b < cs.len()
    &&& forall|c: int|
        0 <= c < cs.len() && c != b && #[trigger] cs[c].name == cs[b].name ==> ranks_before(
            cs,
            p,
            b,
            c,
        )
}

/// Whether `name` has a nearest declaration among `cs`.
pub open spec fn declared_near(cs: Seq<ConstructView>, p: Position, name: Seq<char>) -> bool {
    exists|b: int| nearest_declaration(cs, p, b) && cs[b].name == name
}

/// Whether `r` is the completion list at `p`: every declared name exactly once,
/// ordered by the rank of each name's nearest declaration, so by its distance
/// from `p` first.
pub open spec fn completion_ok(cs: Seq<ConstructView>, p: Position, r: Seq<Seq<char>>) -> bool {
    &&& forall|i: int, j: int| 0 <= i < j < r.len() ==> r[i] != r[j]
    &&& forall|c: int| 0 <= c < cs.len() ==> r.contains(#[trigger] cs[c].name)
    &&& forall|i: int| 0 <= i < r.len() ==> #[trigger] declared_near(cs, p, r[i])
    &&& forall|i: int, j: int, bi: int, bj: int|
        #![trigger r[i], r[j], nearest_declaration(cs, p, bi), nearest_declaration(cs, p, bj)]
        0 <= i < j < r.len() && nearest_declaration(cs, p, bi) && nearest_declaration(cs, p, bj)
            && cs[bi].name == r[i] && cs[bj].name == r[j] ==> ranks_before(cs, p, bi, bj)
            && distance(cs[bi], p) <= distance(cs[bj], p)
}

/// What a hover shows.
pub struct HoverInfo {
    pub span: Span,
    /// The declaration's text from `fn` through its parameter list.
    pub text: Vec<char>,
}

pub open spec fn hover_view(h: Option<HoverInfo>) -> Option<(Span, Seq<char>)> {
    match h {
        Some(i) => Some((i.span, i.text@)),
        None => None,
    }
}

pub open spec fn names_view(s: Seq<Vec<char>>) -> Seq<Seq<char>> {
    s.map_values(|v: Vec<char>| v@)
}

fn same_chars(a: &Vec<char>, b: &Vec<char>) -> (r: bool)
    ensures
        r == (a@ == b@),
{
    if a.len() != b.len() {
        return false;
    }
    let mut i: usize = 0;
    while i < a.len()
        invariant
            a@.len() == b@.len(),
            i <= a@.len(),
            forall|j: int| 0 <= j < i ==> a@[j] == b@[j],
        decreases a@.len() - i,
    {
        if a[i] != b[i] {
            return false;
        }
        i = i + 1;
    }
    assert(a@ =~= b@);
    true
}

fn contains_name(names: &Vec<Vec<char>>, n: &Vec<char>) -> (r: bool)
    ensures
        r == names_view(names@).contains(n@),
{
    let mut i: usize = 0;
    while i < names.len()
        invariant
            i <= names@.len(),
            forall|j: int| 0 <= j < i ==> names@[j]@ != n@,
        decreases names@.len() - i,
    {
        if same_chars(&names[i], n) {
            assert(names_view(names@)[i as int] == n@);
            return true;
        }
        i = i + 1;
    }
    assert(!names_view(names@).contains(n@));
    false
}

/// What hovering at `p` shows in `model`: the covering construct's span and text,
/// or nothing where no construct covers `p`.
pub fn hover(model: &StructuralModel, p: Position) -> (r: Option<HoverInfo>)
    ensures
        hover_view(r) == hover_spec(model@.constructs, p),
{
    let ghost cv = model@.constructs;
    let mut i: usize = 0;
    while i < model.constructs.len()
        invariant
            cv == model@.constructs,
            cv.len() == model.constructs@.len(),
            i <= model.constructs@.len(),
            first_covering(cv, p, i as int) == first_covering(cv, p, 0),
        decreases model.constructs@.len() - i,
    {
        let s = model.constructs[i].span;
        assert(cv[i as int] == model.constructs@[i as int]@);
        let after_start = s.start.line < p.line || (s.start.line == p.line && s.start.character
            <= p.character);
        let after_end = s.end.line < p.line || (s.end.line == p.line && s.end.character
            <= p.character);
        if after_start && !after_end {
            let text = copy_range(&model.constructs[i].header, 0, model.constructs[i].header.len());
            assert(text@ =~= cv[i as int].header);
            return Some(HoverInfo { span: s, text });
        }
        i = i + 1;
    }
    None
}

/// Whether index `c` stands somewhere in `order`.
spec fn placed(order: Seq<usize>, c: int) -> bool {
    exists|s: int| 0 <= s < order.len() && order[s] == c
}

fn ranks_before_exec(model: &StructuralModel, p: Position, i: usize, j: usize) -> (r: bool)
    requires
        i < model.constructs@.len(),
        j < model.constructs@.len(),
    ensures
        r == ranks_before(model@.constructs, p, i as int, j as int),
{
    let li = model.constructs[i].span.start.line;
    let lj = model.constructs[j].span.start.line;
    let di = if li >= p.line {
        li - p.line
    } else {
        p.line - li
    };
    let dj = if lj >= p.line {
        lj - p.line
    } else {
        p.line - lj
    };
    let bi = li > p.line;
    let bj = lj > p.line;
    di < dj || (di == dj && !bi && bj) || (di == dj && bi == bj && i < j)
}

/// The construct indices of `model`, ordered by rank at `p`.
fn rank_order(model: &StructuralModel, p: Position) -> (order: Vec<usize>)
    ensures
        order@.len() == model@.constructs.len(),
        forall|s: int| 0 <= s < order@.len() ==> order@[s] < order@.len(),
        forall|c: int| 0 <= c < order@.len() ==> #[trigger] placed(order@, c),
        forall|s1: int, s2: int|
            0 <= s1 < s2 < order@.len() ==> ranks_before(
                model@.constructs,
                p,
                order@[s1] as int,
                order@[s2] as int,
            ),
{
    let ghost cv = model@.constructs;
    let n = model.constructs.len();
    let mut order: Vec<usize> = Vec::new();
    let mut m: usize = 0;
    while m < n
        invariant
            cv == model@.constructs,
            n == cv.len(),
            m <= n,
            order@.len() == m,
            forall|s: int| 0 <= s < m ==> order@[s] < m,
            forall|c: int| 0 <= c < m ==> #[trigger] placed(order@, c),
            forall|s1: int, s2: int|
                0 <= s1 < s2 < m ==> ranks_before(cv, p, order@[s1] as int, order@[s2] as int),
        decreases n - m,
    {
        let mut pos: usize = 0;
        while pos < m && !ranks_before_exec(model, p, m, order[pos])
            invariant
                cv == model@.constructs,
                n == cv.len(),
                m < n,
                order@.len() == m,
                forall|s: int| 0 <= s < m ==> order@[s] < m,
                pos <= m,
                forall|s: int| 0 <= s < pos ==> !ranks_before(cv, p, m as int, order@[s] as int),
            decreases m - pos,
        {
            pos = pos + 1;
        }
        let ghost old_order = order@;
        order.insert(pos, m);
        assert forall|s1: int, s2: int| 0 <= s1 < s2 < m + 1 implies ranks_before(
            cv,
            p,
            order@[s1] as int,
            order@[s2] as int,
        ) by {
            if s2 < pos {
                assert(order@[s1] == old_order[s1] && order@[s2] == old_order[s2]);
            } else if s2 == pos {
                assert(order@[s1] == old_order[s1]);
                assert(!ranks_before(cv, p, m as int, old_order[s1] as int));
            } else if s1 < pos {
                assert(order@[s1] == old_order[s1] && order@[s2] == old_order[s2 - 1]);
            } else if s1 == pos {
                assert(order@[s2] == old_order[s2 - 1]);
                assert(ranks_before(cv, p, m as int, old_order[pos as int] as int));
                if s2 - 1 > pos {
                    assert(ranks_before(
                        cv,
                        p,
                        old_order[pos as int] as int,
                        old_order[s2 - 1] as int,
                    ));
                }
            } else {
                assert(order@[s1] == old_order[s1 - 1] && order@[s2] == old_order[s2 - 1]);
            }
        }
        assert forall|c: int| 0 <= c < m + 1 implies #[trigger] placed(order@, c) by {
            if c == m {
                assert(order@[pos as int] == c);
            } else {
                assert(placed(old_order, c));
                let s = choose|s: int| 0 <= s < m && old_order[s] == c;
                if s < pos {
                    assert(order@[s] == c);
                } else {
                    assert(order@[s + 1] == c);
                }
            }
        }
        m = m + 1;
    }
    order
}

/// The candidate names at `p` in `model`: every declared name once, nearest
/// declarations first.
pub fn completion(model: &StructuralModel, p: Position) -> (r: Vec<Vec<char>>)
    ensures
        completion_ok(model@.constructs, p, names_view(r@)),
{
    let ghost cv = model@.constructs;
    let order = rank_order(model, p);
    let n = order.len();
    let mut out: Vec<Vec<char>> = Vec::new();
    let ghost mut bests: Seq<int> = Seq::empty();
    let ghost mut tpos: Seq<int> = Seq::empty();
    let mut t: usize = 0;
    while t < n
        invariant
            cv == model@.constructs,
            n == cv.len() == order@.len(),
            forall|s: int| 0 <= s < n ==> order@[s] < n,
            t <= n,
            out@.len() == bests.len() == tpos.len(),
            forall|i: int|
                0 <= i < out@.len() ==> 0 <= #[trigger] tpos[i] < t && bests[i] == order@[tpos[i]]
                    && names_view(out@)[i] == cv[bests[i]].name,
            forall|i: int, j: int| 0 <= i < j < out@.len() ==> tpos[i] < tpos[j],
            forall|i: int, s: int|
                #![trigger names_view(out@)[i], order@[s]]
                0 <= i < out@.len() && 0 <= s < tpos[i] ==> cv[order@[s] as int].name
                    != names_view(out@)[i],
            forall|s: int| 0 <= s < t ==> names_view(out@).contains(cv[order@[s] as int].name),
            forall|i: int, j: int|
                0 <= i < j < out@.len() ==> names_view(out@)[i] != names_view(out@)[j],
        decreases n - t,
    {
        let idx = order[t];
        let name = &model.constructs[idx].name;
        assert(cv[idx as int] == model.constructs@[idx as int]@);
        let ghost before = out@;
        if !contains_name(&out, name) {
            let copy = copy_range(name, 0, name.len());
            assert(copy@ =~= name@);
            out.push(copy);
            proof {
                bests = bests.push(idx as int);
                tpos = tpos.push(t as int);
                assert(names_view(out@) =~= names_view(before).push(name@));
                assert(names_view(out@)[out@.len() - 1] == name@);
            }
        }
        proof {
            assert forall|s: int| 0 <= s < t + 1 implies names_view(out@).contains(
                cv[order@[s] as int].name,
            ) by {
                if s < t {
                    let k = choose|k: int|
                        0 <= k < names_view(before).len() && names_view(before)[k] == cv[order@[s] as int].name;
                    assert(names_view(out@)[k] == names_view(before)[k]);
                } else {
                    if names_view(before).contains(name@) {
                        let k = choose|k: int|
                            0 <= k < names_view(before).len() && names_view(before)[k] == name@;
                        assert(names_view(out@)[k] == names_view(before)[k]);
                    } else {
                        assert(names_view(out@)[out@.len() - 1] == name@);
                    }
                }
            }
        }
        t = t + 1;
    }
    proof {
        let r = names_view(out@);
        assert forall|i: int| 0 <= i < r.len() implies nearest_declaration(cv, p, bests[i]) by {
            assert(0 <= tpos[i] < n);
            assert forall|c: int|
                0 <= c < cv.len() && c != bests[i] && #[trigger] cv[c].name
                    == cv[bests[i]].name implies ranks_before(cv, p, bests[i], c) by {
                assert(placed(order@, c));
                let s = choose|s: int| 0 <= s < n && order@[s] == c;
                if s < tpos[i] {
                    assert(cv[order@[s] as int].name != r[i]);
                } else {
                    assert(s != tpos[i]);
                }
            }
        }
        assert forall|i: int| 0 <= i < r.len() implies #[trigger] declared_near(cv, p, r[i]) by {
            assert(0 <= tpos[i] < n);
            assert(nearest_declaration(cv, p, bests[i]));
            assert(cv[bests[i]].name == r[i]);
        }
        assert forall|c: int| 0 <= c < cv.len() implies r.contains(#[trigger] cv[c].name) by {
            assert(placed(order@, c));
            let s = choose|s: int| 0 <= s < n && order@[s] == c;
            assert(r.contains(cv[order@[s] as int].name));
        }
        assert forall|i: int, j: int, bi: int, bj: int|
            0 <= i < j < r.len() && nearest_declaration(cv, p, bi) && nearest_declaration(cv, p, bj)
                && cv[bi].name == r[i] && cv[bj].name == r[j] implies ranks_before(cv, p, bi, bj)
            && distance(cv[bi], p) <= distance(cv[bj], p) by {
            assert(0 <= tpos[i] < n);
            assert(0 <= tpos[j] < n);
            assert(nearest_declaration(cv, p, bests[i]));
            assert(nearest_declaration(cv, p, bests[j]));
            if bi != bests[i] {
                assert(cv[bi].name == cv[bests[i]].name);
                assert(ranks_before(cv, p, bi, bests[i]));
                assert(ranks_before(cv, p, bests[i], bi));
            }
            if bj != bests[j] {
                assert(cv[bj].name == cv[bests[j]].name);
                assert(ranks_before(cv, p, bj, bests[j]));
                assert(ranks_before(cv, p, bests[j], bj));
            }
            assert(tpos[i] < tpos[j]);
        }
        assert(completion_ok(cv, p, r));
    }
    out
}

#[derive(Clone, Copy, Debug, PartialEq, Eq, Structural)]
pub enum RequestKind {
    Hover,
    Completion,
}

/// A request as received: what is asked, of which document, at which position,
/// the document's version when it arrived, and whether the client has cancelled it.
pub struct Request {
    pub kind: RequestKind,
    pub uri: String,
    pub version_at_receipt: i32,
    pub position: Position,
    pub cancelled: bool,
}

pub enum Response {
    Hover(Option<HoverInfo>),
    Completion(Vec<Vec<char>>),
}

pub enum ResponseView {
    Hover(Option<(Span, Seq<char>)>),
    Completion(Seq<Seq<char>>),
}

pub open spec fn response_view(r: Response) -> ResponseView {
    match r {
        Response::Hover(h) => ResponseView::Hover(hover_view(h)),
        Response::Completion(c) => ResponseView::Completion(names_view(c@)),
    }
}

/// An answer, with the version of the document it was derived from.
pub struct Answer {
    pub version: i32,
    pub response: Response,
}

#[derive(Clone, Copy, Debug, PartialEq, Eq, Structural)]
pub enum DispatchError {
    UnknownDocument,
    Cancelled,
}

/// Whether `resp`, derived at version `v`, is an answer owed to a request of `kind`
/// at `p` on a document in state `d`: it is derived from the model of `d`'s text at
/// `d`'s version. A text that cannot be analyzed gets an empty answer.
pub open spec fn is_answer(d: DocState, kind: RequestKind, p: Position, v: int, resp: ResponseView) -> bool {
    let cs = analysis(d.text, d.version).constructs;
    &&& v == d.version
    &&& match kind {
        RequestKind::Hover => resp == ResponseView::Hover(
            if analyzable(d.text) {
                hover_spec(cs, p)
            } else {
                None
            },
        ),
        RequestKind::Completion => match resp {
            ResponseView::Completion(names) => if analyzable(d.text) {
                completion_ok(cs, p, names)
            } else {
                names.len() == 0
            },
            _ => false,
        },
    }
}

fn respond(model: &StructuralModel, kind: RequestKind, p: Position) -> (r: Response)
    ensures
        match kind {
            RequestKind::Hover => response_view(r) == ResponseView::Hover(
                hover_spec(model@.constructs, p),
            ),
            RequestKind::Completion => match response_view(r) {
                ResponseView::Completion(names) => completion_ok(model@.constructs, p, names),
                _ => false,
            },
        },
{
    match kind {
        RequestKind::Hover => Response::Hover(hover(model, p)),
        RequestKind::Completion => Response::Completion(completion(model, p)),
    }
}

/// Answers a request against the document's current snapshot. A cancelled request
/// gets `Cancelled`; one for a document that is not open gets `UnknownDocument`.
/// Otherwise the answer is derived from the model of the document's current text
/// at its current version, whatever version the request arrived at.
pub fn dispatch(store: &DocumentStore, req: &Request) -> (r: Result<Answer, DispatchError>)
    requires
        store.wf(),
    ensures
        req.cancelled ==> r == Err::<Answer, DispatchError>(DispatchError::Cancelled),
        !req.cancelled && !store@.contains_key(req.uri@) ==> r == Err::<Answer, DispatchError>(
            DispatchError::UnknownDocument,
        ),
        !req.cancelled && store@.contains_key(req.uri@) ==> (r matches Ok(a) && is_answer(
            store@[req.uri@],
            req.kind,
            req.position,
            a.version as int,
            response_view(a.response),
        )),
{
    if req.cancelled {
        return Err(DispatchError::Cancelled);
    }
    let snap = match store.snapshot(&req.uri) {
        Ok(s) => s,
        Err(_) => {
            return Err(DispatchError::UnknownDocument);
        },
    };
    let response = match analyze(snap.text.as_str(), snap.version) {
        Ok(model) => respond(&model, req.kind, req.position),
        Err(_) => match req.kind {
            RequestKind::Hover => Response::Hover(None),
            RequestKind::Completion => Response::Completion(Vec::new()),
        },
    };
    proof {
        if !analyzable(snap.text@) {
            assert(names_view(Seq::<Vec<char>>::empty()) =~= Seq::<Seq<char>>::empty());
        }
    }
    Ok(Answer { version: snap.version, response })
}

/// No stale answers: once a change has raised a document's version, any answer to
/// a request on it is derived from the new text at the new version, never from the
/// model of the text before the change.
pub proof fn lemma_no_stale_answers(
    s: Map<Seq<char>, DocState>,
    uri: Seq<char>,
    text: Seq<char>,
    version: int,
    kind: RequestKind,
    p: Position,
    v: int,
    resp: ResponseView,
)
    requires
        s.contains_key(uri),
        s[uri].version < version,
        is_answer(s.insert(uri, DocState { text, version })[uri], kind, p, v, resp),
    ensures
        v == version,
        v != s[uri].version,
        is_answer(DocState { text, version }, kind, p, v, resp),
{
}

} // verus!
