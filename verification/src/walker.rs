//! Walking a tree of nodes that each declare their own size.
//!
//! Boxes, EBML elements and JPEG segments have this in common: a node has
//! a header that gives it a tag and a size, and a body that may be a row
//! of nodes again. A [`Container`] says how one header is read; everything
//! else, listing a row, finding a node, walking the tree depth first, is
//! the same for all of them and is done here. Nodes are described by the
//! ranges they occupy; no byte of a body is looked at unless the walk
//! descends into it.

use vstd::prelude::*;
use crate::error::Error;
use crate::span::Span;

verus! {

/// One node of a container: its tag and where it and its body lie.
#[derive(Clone, Copy, Debug, PartialEq, Eq, Structural)]
pub struct Node {
    /// What kind of node it is, in the numbering of its format.
    pub tag: u64,
    /// The range of the whole node, header included. Its length is the
    /// size that the header declares.
    pub whole: Span,
    /// The range of the body: what follows the header, up to the end of
    /// the node.
    pub body: Span,
}

/// Whether `n` is a sound result of reading at `at` in a row that ends at
/// `end`: it starts there, has a header that is not empty, and ends with
/// its body inside the row.
pub open spec fn spec_node_ok(n: Node, at: int, end: int) -> bool {
    n.whole.start == at && at < n.body.start <= n.body.end == n.whole.end <= end
}

/// A format made of nodes.
pub trait Container {
    /// The node whose header starts at `at`, in a row of nodes that ends
    /// at `end`.
    spec fn spec_node_at(&self, s: Seq<u8>, at: int, end: int) -> Result<Node, Error>;

    /// Whether a depth-first walk descends into the body of a node with
    /// this tag.
    spec fn spec_descends(&self, tag: u64) -> bool;

    /// A node that is read lies where it was read.
    proof fn lemma_node_ok(&self, s: Seq<u8>, at: int, end: int)
        requires
            0 <= at < end <= s.len() <= usize::MAX,
            self.spec_node_at(s, at, end).is_ok(),
        ensures
            spec_node_ok(self.spec_node_at(s, at, end).unwrap(), at, end),
    ;

    /// Reads the node whose header starts at `at` in a row that ends at
    /// `end`.
    fn node_at(&self, buf: &[u8], at: usize, end: usize) -> (r: Result<Node, Error>)
        requires
            at < end <= buf@.len(),
        ensures
            r == self.spec_node_at(buf@, at as int, end as int),
    ;

    /// Tells whether a depth-first walk descends into the body of a node
    /// with this tag.
    fn descends(&self, tag: u64) -> (r: bool)
        ensures
            r == self.spec_descends(tag),
    ;
}

/// The row of nodes that fills `at..end` exactly, or the first failure met
/// while reading it from left to right.
pub open spec fn spec_row<C: Container>(c: C, s: Seq<u8>, at: int, end: int) -> Result<
    Seq<Node>,
    Error,
>
    decreases end - at,
{
    if at >= end {
        Ok(Seq::empty())
    } else {
        match c.spec_node_at(s, at, end) {
            Err(e) => Err(e),
            Ok(n) => {
                if spec_node_ok(n, at, end) {
                    match spec_row(c, s, n.whole.end as int, end) {
                        Err(e) => Err(e),
                        Ok(rest) => Ok(seq![n] + rest),
                    }
                } else {
                    Err(Error::CorruptData)
                }
            },
        }
    }
}

/// The first node with tag `tag` in the row `at..end`, read from left to
/// right; `None` when the row ends without one. Nodes behind the one found
/// are not looked at.
pub open spec fn spec_find_in<C: Container>(c: C, s: Seq<u8>, at: int, end: int, tag: u64) -> Result<
    Option<Node>,
    Error,
>
    decreases end - at,
{
    if at >= end {
        Ok(None)
    } else {
        match c.spec_node_at(s, at, end) {
            Err(e) => Err(e),
            Ok(n) => {
                if n.tag == tag {
                    Ok(Some(n))
                } else if spec_node_ok(n, at, end) {
                    spec_find_in(c, s, n.whole.end as int, end, tag)
                } else {
                    Err(Error::CorruptData)
                }
            },
        }
    }
}

/// The nodes that fill `span`. A range that does not lie inside the
/// buffer is `CorruptData`.
pub open spec fn spec_children<C: Container>(c: C, s: Seq<u8>, span: Span) -> Result<
    Seq<Node>,
    Error,
> {
    if span.fits(s.len() as int) {
        spec_row(c, s, span.start as int, span.end as int)
    } else {
        Err(Error::CorruptData)
    }
}

/// The first node with tag `tag` among the nodes of `span`.
pub open spec fn spec_find<C: Container>(c: C, s: Seq<u8>, span: Span, tag: u64) -> Result<
    Option<Node>,
    Error,
> {
    if span.fits(s.len() as int) {
        spec_find_in(c, s, span.start as int, span.end as int, tag)
    } else {
        Err(Error::CorruptData)
    }
}

/// The node reached from `span` by following `path`: the first node with
/// tag `path[0]` among the nodes of `span`, then the first with tag
/// `path[1]` in its body, and so on. `None` when a step finds nothing, or
/// the path is empty.
pub open spec fn spec_find_path<C: Container>(c: C, s: Seq<u8>, span: Span, path: Seq<u64>) -> Result<
    Option<Node>,
    Error,
>
    decreases path.len(),
{
    if path.len() == 0 {
        Ok(None)
    } else {
        match spec_find(c, s, span, path[0]) {
            Err(e) => Err(e),
            Ok(None) => Ok(None),
            Ok(Some(n)) => {
                if path.len() == 1 {
                    Ok(Some(n))
                } else {
                    spec_find_path(c, s, n.body, path.skip(1))
                }
            },
        }
    }
}

/// The sum of the sizes that the headers of `nodes` declare.
pub open spec fn spec_total_size(nodes: Seq<Node>) -> int
    decreases nodes.len(),
{
    if nodes.len() == 0 {
        0
    } else {
        nodes[0].whole.spec_len() + spec_total_size(nodes.skip(1))
    }
}

/// Nodes handed out so far, and the failure that stopped the walk, if one
/// did.
pub type Trail = (Seq<Node>, Option<Error>);

/// The trail `a` followed by the trail `b`; nothing follows a failure.
pub open spec fn spec_join(a: Trail, b: Trail) -> Trail {
    match a.1 {
        Some(_) => a,
        None => (a.0 + b.0, b.1),
    }
}

/// The depth-first walk of the row `at..end`: each node, then the walk of
/// its body if the format descends into nodes of its tag, then the nodes
/// behind it. The walk stops at the first failure.
pub open spec fn spec_tree<C: Container>(c: C, s: Seq<u8>, at: int, end: int) -> Trail
    decreases end - at,
{
    if at >= end {
        (Seq::empty(), None)
    } else {
        match c.spec_node_at(s, at, end) {
            Err(e) => (Seq::empty(), Some(e)),
            Ok(n) => {
                if spec_node_ok(n, at, end) {
                    let inner = if c.spec_descends(n.tag) {
                        spec_tree(c, s, n.body.start as int, n.body.end as int)
                    } else {
                        (Seq::empty(), None)
                    };
                    let rest = spec_tree(c, s, n.whole.end as int, end);
                    spec_join((seq![n], None), spec_join(inner, rest))
                } else {
                    (Seq::empty(), Some(Error::CorruptData))
                }
            },
        }
    }
}

/// The walk of the rows on `stack`, the last one first.
pub open spec fn spec_forest<C: Container>(c: C, s: Seq<u8>, stack: Seq<Span>) -> Trail
    decreases stack.len(),
{
    if stack.len() == 0 {
        (Seq::empty(), None)
    } else {
        spec_join(
            spec_tree(c, s, stack.last().start as int, stack.last().end as int),
            spec_forest(c, s, stack.drop_last()),
        )
    }
}

/// Joining trails does not depend on how they are grouped.
pub proof fn lemma_join_assoc(a: Trail, b: Trail, c: Trail)
    ensures
        spec_join(spec_join(a, b), c) == spec_join(a, spec_join(b, c)),
{
    if a.1.is_none() && b.1.is_none() {
        assert((a.0 + b.0) + c.0 =~= a.0 + (b.0 + c.0));
    }
}

/// Reads the first node of `span`, which must not be empty.
pub fn first_node<C: Container>(c: &C, buf: &[u8], span: Span) -> (r: Result<Node, Error>)
    ensures
        span.fits(buf@.len() as int) && span.start < span.end ==> r == c.spec_node_at(
            buf@,
            span.start as int,
            span.end as int,
        ),
        !(span.fits(buf@.len() as int) && span.start < span.end) ==> r == Err::<Node, Error>(
            Error::CorruptData,
        ),
{
    if span.start < span.end && span.end <= buf.len() {
        c.node_at(buf, span.start, span.end)
    } else {
        Err(Error::CorruptData)
    }
}

/// Lists the nodes that fill `span`, without descending into any of them.
pub fn children<C: Container>(c: &C, buf: &[u8], span: Span) -> (r: Result<Vec<Node>, Error>)
    ensures
        match r {
            Ok(v) => spec_children(*c, buf@, span) == Ok::<Seq<Node>, Error>(v@),
            Err(e) => spec_children(*c, buf@, span) == Err::<Seq<Node>, Error>(e),
        },
{
    if !(span.start <= span.end && span.end <= buf.len()) {
        return Err(Error::CorruptData);
    }
    let end = span.end;
    let mut at: usize = span.start;
    let mut out: Vec<Node> = Vec::new();
    while at < end
        invariant
            span.start <= at <= end <= buf.len(),
            end == span.end,
            match spec_row(*c, buf@, at as int, end as int) {
                Ok(rest) => spec_row(*c, buf@, span.start as int, end as int) == Ok::<
                    Seq<Node>,
                    Error,
                >(out@ + rest),
                Err(e) => spec_row(*c, buf@, span.start as int, end as int) == Err::<
                    Seq<Node>,
                    Error,
                >(e),
            },
        decreases end - at,
    {
        match c.node_at(buf, at, end) {
            Err(e) => {
                return Err(e);
            },
            Ok(n) => {
                proof {
                    c.lemma_node_ok(buf@, at as int, end as int);
                    match spec_row(*c, buf@, n.whole.end as int, end as int) {
                        Ok(rest) => {
                            assert(out@ + (seq![n] + rest) =~= out@.push(n) + rest);
                        },
                        Err(_) => {},
                    }
                }
                out.push(n);
                at = n.whole.end;
            },
        }
    }
    assert(out@ + Seq::<Node>::empty() =~= out@);
    Ok(out)
}

/// Finds the first node with tag `tag` among the nodes of `span`.
pub fn find<C: Container>(c: &C, buf: &[u8], span: Span, tag: u64) -> (r: Result<
    Option<Node>,
    Error,
>)
    ensures
        r == spec_find(*c, buf@, span, tag),
{
    if !(span.start <= span.end && span.end <= buf.len()) {
        return Err(Error::CorruptData);
    }
    let end = span.end;
    let mut at: usize = span.start;
    while at < end
        invariant
            span.start <= at <= end <= buf.len(),
            end == span.end,
            spec_find_in(*c, buf@, span.start as int, end as int, tag) == spec_find_in(
                *c,
                buf@,
                at as int,
                end as int,
                tag,
            ),
        decreases end - at,
    {
        match c.node_at(buf, at, end) {
            Err(e) => {
                return Err(e);
            },
            Ok(n) => {
                proof {
                    c.lemma_node_ok(buf@, at as int, end as int);
                }
                if n.tag == tag {
                    return Ok(Some(n));
                }
                at = n.whole.end;
            },
        }
    }
    Ok(None)
}

/// Follows `path` from the nodes of `span` down into their bodies.
pub fn find_path<C: Container>(c: &C, buf: &[u8], span: Span, path: &[u64]) -> (r: Result<
    Option<Node>,
    Error,
>)
    ensures
        r == spec_find_path(*c, buf@, span, path@),
{
    if path.len() == 0 {
        return Ok(None);
    }
    let mut cur: Span = span;
    let mut i: usize = 0;
    assert(path@.skip(0) =~= path@);
    loop
        invariant
            i < path@.len(),
            path@.len() == path.len(),
            spec_find_path(*c, buf@, span, path@) == spec_find_path(
                *c,
                buf@,
                cur,
                path@.skip(i as int),
            ),
        decreases path@.len() - i,
    {
        let found = find(c, buf, cur, path[i]);
        proof {
            assert(path@.skip(i as int)[0] == path@[i as int]);
            assert(path@.skip(i as int).skip(1) =~= path@.skip(i + 1));
        }
        match found {
            Err(e) => {
                return Err(e);
            },
            Ok(None) => {
                return Ok(None);
            },
            Ok(Some(n)) => {
                if i + 1 == path.len() {
                    return Ok(Some(n));
                }
                cur = n.body;
                i += 1;
            },
        }
    }
}

/// A depth-first walk that hands out one node per call. It holds only the
/// ranges that are still to be walked; the buffer is passed to each call.
pub struct TreeWalker {
    stack: Vec<Span>,
}

impl TreeWalker {
    /// The rows that are still to be walked, the next one last.
    pub closed spec fn spec_stack(&self) -> Seq<Span> {
        self.stack@
    }

    /// Whether every row still to be walked lies inside a buffer of `len`
    /// bytes. A walker is sound for the buffer it was started on.
    pub open spec fn wf(&self, len: int) -> bool {
        forall|i: int|
            0 <= i < self.spec_stack().len() ==> (#[trigger] self.spec_stack()[i]).fits(len)
    }

    /// What the walker has still to hand out.
    pub open spec fn spec_ahead<C: Container>(&self, c: C, s: Seq<u8>) -> Trail {
        spec_forest(c, s, self.spec_stack())
    }

    /// Starts a walk of the nodes of `span` in `buf`. A range that does
    /// not lie inside the buffer is `CorruptData`.
    pub fn start(buf: &[u8], span: Span) -> (r: Result<TreeWalker, Error>)
        ensures
            match r {
                Ok(w) => span.fits(buf@.len() as int) && w.spec_stack() == seq![span] && w.wf(
                    buf@.len() as int,
                ),
                Err(e) => !span.fits(buf@.len() as int) && e == Error::CorruptData,
            },
    {
        if span.start <= span.end && span.end <= buf.len() {
            let mut stack: Vec<Span> = Vec::new();
            stack.push(span);
            assert(stack@ =~= seq![span]);
            Ok(TreeWalker { stack })
        } else {
            Err(Error::CorruptData)
        }
    }

    /// Hands out the next node of the walk, `None` when the walk is over.
    /// A failure ends the walk: the call after it returns `None`.
    pub fn next<C: Container>(&mut self, c: &C, buf: &[u8]) -> (r: Option<Result<Node, Error>>)
        requires
            old(self).wf(buf@.len() as int),
        ensures
            final(self).wf(buf@.len() as int),
            match r {
                None => old(self).spec_ahead(*c, buf@) == (Seq::<Node>::empty(), None::<Error>)
                    && final(self).spec_stack().len() == 0,
                Some(Err(e)) => old(self).spec_ahead(*c, buf@) == (Seq::<Node>::empty(), Some(e))
                    && final(self).spec_stack().len() == 0,
                Some(Ok(n)) => {
                    let before = old(self).spec_ahead(*c, buf@);
                    &&& before.0.len() > 0
                    &&& before.0[0] == n
                    &&& final(self).spec_ahead(*c, buf@) == (before.0.skip(1), before.1)
                },
            },
    {
        let ghost s = buf@;
        let ghost len = buf@.len() as int;
        let ghost first = self.stack@;
        loop
            invariant
                self.wf(len),
                s == buf@,
                len == buf.len(),
                first == old(self).spec_stack(),
                spec_forest(*c, s, first) == spec_forest(*c, s, self.stack@),
            decreases self.stack.len(),
        {
            let ghost stack0 = self.spec_stack();
            proof {
                assert forall|i: int| 0 <= i < stack0.len() implies (#[trigger] stack0[i]).fits(
                    len,
                ) by {
                    assert(self.spec_stack()[i].fits(len));
                }
            }
            let top = match self.stack.pop() {
                None => {
                    return None;
                },
                Some(t) => t,
            };
            let ghost base = self.stack@;
            assert(base =~= stack0.drop_last());
            assert(top == stack0.last());
            assert(stack0[stack0.len() - 1].fits(len));
            assert forall|i: int| 0 <= i < base.len() implies (#[trigger] base[i]).fits(len) by {
                assert(base[i] == stack0[i]);
            }
            let ghost below = spec_forest(*c, s, base);
            if top.start >= top.end {
                assert(Seq::<Node>::empty() + below.0 =~= below.0);
                continue ;
            }
            match c.node_at(buf, top.start, top.end) {
                Err(e) => {
                    self.stack.clear();
                    return Some(Err(e));
                },
                Ok(n) => {
                    proof {
                        c.lemma_node_ok(s, top.start as int, top.end as int);
                    }
                    let rest = Span { start: n.whole.end, end: top.end };
                    self.stack.push(rest);
                    let ghost with_rest = self.stack@;
                    let down = c.descends(n.tag);
                    if down {
                        self.stack.push(n.body);
                    }
                    proof {
                        let inner: Trail = if down {
                            spec_tree(*c, s, n.body.start as int, n.body.end as int)
                        } else {
                            (Seq::empty(), None)
                        };
                        let after = spec_tree(*c, s, rest.start as int, rest.end as int);
                        let ahead = spec_join(inner, spec_join(after, below));
                        assert(with_rest.drop_last() =~= base);
                        assert(spec_forest(*c, s, with_rest) == spec_join(after, below));
                        if down {
                            assert(self.stack@.drop_last() =~= with_rest);
                        } else {
                            assert(Seq::<Node>::empty() + spec_join(after, below).0 =~= spec_join(
                                after,
                                below,
                            ).0);
                        }
                        assert(spec_forest(*c, s, self.stack@) == ahead);
                        lemma_join_assoc(inner, after, below);
                        let single: Trail = (seq![n], None);
                        lemma_join_assoc(single, spec_join(inner, after), below);
                        let before = spec_forest(*c, s, stack0);
                        assert(before == spec_join(single, ahead));
                        assert(before.0 =~= seq![n] + ahead.0);
                        assert(before.0.skip(1) =~= ahead.0);
                        assert forall|i: int| 0 <= i < self.stack@.len() implies (
                        #[trigger] self.stack@[i]).fits(len) by {
                            if i < base.len() {
                                assert(self.stack@[i] == base[i]);
                            }
                        }
                    }
                    return Some(Ok(n));
                },
            }
        }
    }

    /// Runs the walk to its end and returns the nodes that it hands out,
    /// in order, and the failure that ended it, if one did.
    pub fn collect<C: Container>(&mut self, c: &C, buf: &[u8]) -> (r: (Vec<Node>, Option<Error>))
        requires
            old(self).wf(buf@.len() as int),
        ensures
            final(self).wf(buf@.len() as int),
            final(self).spec_stack().len() == 0,
            (r.0@, r.1) == old(self).spec_ahead(*c, buf@),
    {
        let mut out: Vec<Node> = Vec::new();
        let ghost all = self.spec_ahead(*c, buf@);
        assert(out@ + all.0 =~= all.0);
        loop
            invariant
                self.wf(buf@.len() as int),
                all == old(self).spec_ahead(*c, buf@),
                all == (out@ + self.spec_ahead(*c, buf@).0, self.spec_ahead(*c, buf@).1),
            decreases self.spec_ahead(*c, buf@).0.len(),
        {
            let ghost ahead = self.spec_ahead(*c, buf@);
            match self.next(c, buf) {
                None => {
                    assert(out@ + Seq::<Node>::empty() =~= out@);
                    return (out, None);
                },
                Some(Err(e)) => {
                    assert(out@ + Seq::<Node>::empty() =~= out@);
                    return (out, Some(e));
                },
                Some(Ok(n)) => {
                    proof {
                        assert(out@ + ahead.0 =~= out@.push(n) + ahead.0.skip(1));
                    }
                    out.push(n);
                },
            }
        }
    }
}

/// In a row of nodes that was read without failure, every node lies in the
/// row and holds its body, and the declared sizes add up to the length of
/// the row: the nodes fill it, one after the other, with nothing between
/// them and nothing left over.
pub proof fn lemma_row_fills<C: Container>(c: C, s: Seq<u8>, at: int, end: int)
    requires
        0 <= at <= end <= s.len() <= usize::MAX,
        spec_row(c, s, at, end).is_ok(),
    ensures
        ({
            let nodes = spec_row(c, s, at, end).unwrap();
            &&& spec_total_size(nodes) == end - at
            &&& forall|i: int|
                0 <= i < nodes.len() ==> at <= (#[trigger] nodes[i]).whole.start
                    <= nodes[i].whole.end <= end && nodes[i].body.within(nodes[i].whole)
            &&& forall|i: int|
                0 <= i < nodes.len() - 1 ==> (#[trigger] nodes[i]).whole.end == nodes[i
                    + 1].whole.start
        }),
    decreases end - at,
{
    if at < end {
        let n = c.spec_node_at(s, at, end).unwrap();
        let next = n.whole.end as int;
        lemma_row_fills(c, s, next, end);
        let rest = spec_row(c, s, next, end).unwrap();
        let nodes = spec_row(c, s, at, end).unwrap();
        assert(nodes == seq![n] + rest);
        assert(nodes.skip(1) =~= rest);
        assert(nodes[0] == n);
        assert forall|i: int| 0 <= i < nodes.len() implies at <= (#[trigger] nodes[i]).whole.start
            <= nodes[i].whole.end <= end && nodes[i].body.within(nodes[i].whole) by {
            if i > 0 {
                assert(nodes[i] == rest[i - 1]);
            }
        }
        assert forall|i: int| 0 <= i < nodes.len() - 1 implies (#[trigger] nodes[i]).whole.end
            == nodes[i + 1].whole.start by {
            assert(nodes[i + 1] == rest[i]);
            if i > 0 {
                assert(nodes[i] == rest[i - 1]);
            }
        }
    }
}

/// The children of a node never claim more than the node has: where the
/// body of `parent` reads as a row of nodes, their declared sizes add up
/// to no more than the declared size of `parent`, and the range of each
/// lies in the range of `parent`.
pub proof fn lemma_children_within_parent<C: Container>(c: C, s: Seq<u8>, parent: Node)
    requires
        s.len() <= usize::MAX,
        parent.body.within(parent.whole),
        parent.whole.fits(s.len() as int),
        spec_children(c, s, parent.body).is_ok(),
    ensures
        ({
            let kids = spec_children(c, s, parent.body).unwrap();
            &&& spec_total_size(kids) <= parent.whole.spec_len()
            &&& forall|i: int|
                0 <= i < kids.len() ==> (#[trigger] kids[i]).whole.within(parent.whole)
                    && kids[i].body.within(parent.whole)
        }),
{
    lemma_row_fills(c, s, parent.body.start as int, parent.body.end as int);
}

} // verus!
