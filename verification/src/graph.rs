//! The incremental ASCII-art graph drawer.
//!
//! The drawer tracks one open column per branch that has been announced (by
//! an edge) but not yet drawn. Its protocol is strict: for each entry the
//! caller queries [`GraphDrawer::width`] first and then calls
//! [`GraphDrawer::add_node`] with the identical entry and edge set, in
//! traversal order, and that pairing is enforced by contract through the
//! drawer's pending state — a second width query, a skipped query, or a
//! mismatched edge set does not verify.
//!
//! The drawing itself is deliberately simple: every open column is one `|`
//! stroke two cells wide, a node's glyph stands at its column, its content
//! follows on the same line, and new branches open on the right. Closing a
//! branch removes its column, so the width a later entry queries shrinks
//! again — the caller must re-derive its usable content width on every entry.

use vstd::prelude::*;
use crate::entry::{Edge, OpId};

verus! {

/// The first position of `id` among the open columns, or the count of open
/// columns when `id` has none yet (a new node is placed after them).
pub open spec fn find_col(cols: Seq<OpId>, id: OpId) -> int
    decreases cols.len(),
{
    if cols.len() == 0 {
        0
    } else if cols[0] == id {
        0
    } else {
        1 + find_col(cols.skip(1), id)
    }
}

/// Law: the found position is the first occurrence, or the column count for
/// an identifier with no open column.
pub proof fn lemma_find_col(cols: Seq<OpId>, id: OpId)
    ensures
        cols.contains(id) ==> {
            &&& 0 <= find_col(cols, id) < cols.len()
            &&& cols[find_col(cols, id)] == id
            &&& forall|j: int| 0 <= j < find_col(cols, id) ==> cols[j] != id
        },
        !cols.contains(id) ==> find_col(cols, id) == cols.len(),
    decreases cols.len(),
{
    if cols.len() > 0 && cols[0] != id {
        lemma_find_col(cols.skip(1), id);
        let tail = cols.skip(1);
        if cols.contains(id) {
            let w = choose|w: int| 0 <= w < cols.len() && cols[w] == id;
            assert(tail[w - 1] == id);
            assert(tail.contains(id));
            let fc = find_col(tail, id);
            assert(cols[1 + fc] == tail[fc]);
            assert forall|j: int| 0 <= j < 1 + fc implies cols[j] != id by {
                if j >= 1 {
                    assert(cols[j] == tail[j - 1]);
                }
            }
        } else {
            if tail.contains(id) {
                let w = choose|w: int| 0 <= w < tail.len() && tail[w] == id;
                assert(cols[w + 1] == id);
                assert(false);
            }
        }
    }
}

/// The columns left open after removing the drawn node's own column.
pub open spec fn remove_col(cols: Seq<OpId>, id: OpId) -> Seq<OpId> {
    if cols.contains(id) {
        cols.remove(find_col(cols, id))
    } else {
        cols
    }
}

/// Opens a column for each edge target that has none yet, in edge order.
pub open spec fn add_targets(cols: Seq<OpId>, edges: Seq<Edge>) -> Seq<OpId>
    decreases edges.len(),
{
    if edges.len() == 0 {
        cols
    } else {
        let opened = if cols.contains(edges[0].target()) {
            cols
        } else {
            cols.push(edges[0].target())
        };
        add_targets(opened, edges.skip(1))
    }
}

/// The open columns after one node is drawn: its own column closes and each
/// parent without a column gets one.
pub open spec fn next_cols(cols: Seq<OpId>, id: OpId, edges: Seq<Edge>) -> Seq<OpId> {
    add_targets(remove_col(cols, id), edges)
}

/// The graph cells the row of a node occupies: two per open column, plus two
/// for the column the node opens for itself if it has none, capped at the
/// largest representable width.
pub open spec fn width_cells(cols: Seq<OpId>, id: OpId) -> nat {
    let n: int = cols.len() + if cols.contains(id) {
        0int
    } else {
        1int
    };
    if 2 * n > usize::MAX {
        usize::MAX as nat
    } else {
        (2 * n) as nat
    }
}

/// `n` copies of one character.
pub open spec fn repeat_char(c: char, n: nat) -> Seq<char>
    decreases n,
{
    if n == 0 {
        Seq::<char>::empty()
    } else {
        repeat_char(c, (n - 1) as nat).push(c)
    }
}

/// The text one drawn node appends to the sink: a stroke per column left of
/// the node's own, the glyph, one space, then the entry's rendered block.
pub open spec fn row_text(cols: Seq<OpId>, id: OpId, symbol: Seq<char>, content: Seq<char>) -> Seq<
    char,
> {
    repeat_char('|', find_col(cols, id) as nat) + symbol + seq![' '] + content
}

pub struct GraphDrawer {
    /// The open columns, oldest first.
    columns: Vec<OpId>,
    /// The identifiers drawn so far, in drawing order.
    drawn: Vec<OpId>,
    /// The entry announced by a width query and not yet drawn.
    pending: Option<OpId>,
    /// The edge set that width query announced.
    pending_edges: Ghost<Seq<Edge>>,
}

impl GraphDrawer {
    /// The currently open columns.
    pub closed spec fn cols(self) -> Seq<OpId> {
        self.columns@
    }

    /// The identifiers drawn so far, in drawing order.
    pub closed spec fn drawn_ids(self) -> Seq<OpId> {
        self.drawn@
    }

    /// The entry a width query announced and `add_node` has yet to draw.
    pub closed spec fn pending_id(self) -> Option<OpId> {
        self.pending
    }

    /// The edge set the pending width query announced.
    pub closed spec fn pending_edge_seq(self) -> Seq<Edge> {
        self.pending_edges@
    }

    /// A fresh drawer: no columns, nothing drawn, no query pending.
    pub fn new() -> (d: Self)
        ensures
            d.cols() == Seq::<OpId>::empty(),
            d.drawn_ids() == Seq::<OpId>::empty(),
            d.pending_id() is None,
    {
        GraphDrawer {
            columns: Vec::new(),
            drawn: Vec::new(),
            pending: None,
            pending_edges: Ghost(Seq::empty()),
        }
    }

    fn find_index(&self, id: OpId) -> (r: usize)
        ensures
            r as int == find_col(self.cols(), id),
            r <= self.columns@.len(),
    {
        let mut i: usize = 0;
        while i < self.columns.len()
            invariant
                i <= self.columns@.len(),
                forall|j: int| 0 <= j < i ==> self.columns@[j] != id,
            decreases self.columns@.len() - i,
        {
            if self.columns[i] == id {
                proof {
                    assert(self.cols().contains(id));
                    lemma_find_col(self.cols(), id);
                    let fc = find_col(self.cols(), id);
                    assert(self.cols()[fc] == id);
                    if fc < i as int {
                        assert(self.cols()[fc] != id);
                    }
                    if (i as int) < fc {
                        assert(self.cols()[i as int] != id);
                    }
                }
                return i;
            }
            i = i + 1;
        }
        proof {
            lemma_find_col(self.cols(), id);
            if self.cols().contains(id) {
                let w = choose|w: int| 0 <= w < self.cols().len() && self.cols()[w] == id;
                assert(false);
            }
        }
        i
    }

    /// Reports the graph cells committed for the row about to be drawn, and
    /// pins the entry and edge set the next `add_node` must repeat.
    pub fn width(&mut self, id: OpId, edges: &Vec<Edge>) -> (w: usize)
        requires
            old(self).pending_id() is None,
        ensures
            final(self).cols() == old(self).cols(),
            final(self).drawn_ids() == old(self).drawn_ids(),
            final(self).pending_id() == Some(id),
            final(self).pending_edge_seq() == edges@,
            w as nat == width_cells(old(self).cols(), id),
    {
        let idx = self.find_index(id);
        proof {
            lemma_find_col(self.cols(), id);
        }
        let len = self.columns.len();
        self.pending = Some(id);
        self.pending_edges = Ghost(edges@);
        if idx < len {
            if len > usize::MAX / 2 {
                usize::MAX
            } else {
                2 * len
            }
        } else {
            if len >= usize::MAX / 2 {
                usize::MAX
            } else {
                2 * len + 2
            }
        }
    }

    /// Draws one node: closes its column, opens a column per new parent, and
    /// appends its row to the sink. Only callable to complete the width query
    /// made for the same entry with the same edges.
    pub fn add_node(
        &mut self,
        out: &mut String,
        id: OpId,
        edges: &Vec<Edge>,
        symbol: &String,
        content: &String,
    )
        requires
            old(self).pending_id() == Some(id),
            old(self).pending_edge_seq() == edges@,
        ensures
            final(self).pending_id() is None,
            final(self).cols() == next_cols(old(self).cols(), id, edges@),
            final(self).drawn_ids() == old(self).drawn_ids().push(id),
            final(out)@ == old(out)@ + row_text(old(self).cols(), id, symbol@, content@),
    {
        let ghost cols0 = self.cols();
        let idx = self.find_index(id);
        proof {
            lemma_find_col(cols0, id);
        }
        // The strokes for the columns left of the node's own.
        let mut j: usize = 0;
        while j < idx
            invariant
                j <= idx,
                out@ == old(out)@ + repeat_char('|', j as nat),
            decreases idx - j,
        {
            out.push('|');
            j = j + 1;
        }
        out.append(symbol.as_str());
        out.push(' ');
        out.append(content.as_str());
        proof {
            assert(out@ =~= old(out)@ + row_text(cols0, id, symbol@, content@));
        }
        // The node's own column closes.
        if idx < self.columns.len() {
            self.columns.remove(idx);
            proof {
                assert(self.columns@ =~= remove_col(cols0, id));
            }
        } else {
            proof {
                assert(self.columns@ =~= remove_col(cols0, id));
            }
        }
        // Each parent without a column opens one, in edge order.
        proof {
            assert(edges@.skip(0) =~= edges@);
        }
        let mut k: usize = 0;
        while k < edges.len()
            invariant
                k <= edges@.len(),
                add_targets(self.columns@, edges@.skip(k as int)) == next_cols(cols0, id, edges@),
                self.drawn@ == old(self).drawn_ids(),
                out@ == old(out)@ + row_text(cols0, id, symbol@, content@),
            decreases edges@.len() - k,
        {
            let ghost before = self.columns@;
            let target = match edges[k] {
                Edge::Direct(t) => t,
            };
            let mut found = false;
            let mut m: usize = 0;
            while m < self.columns.len()
                invariant
                    m <= self.columns@.len(),
                    self.columns@ == before,
                    found <==> exists|j: int| 0 <= j < m && before[j] == target,
                decreases self.columns@.len() - m,
            {
                if self.columns[m] == target {
                    found = true;
                }
                m = m + 1;
            }
            if !found {
                self.columns.push(target);
            }
            proof {
                assert(edges@.skip(k as int)[0] == edges@[k as int]);
                assert(edges@.skip(k as int).skip(1) =~= edges@.skip(k + 1 as int));
                assert(found <==> before.contains(target));
            }
            k = k + 1;
        }
        proof {
            assert(edges@.skip(edges@.len() as int) =~= Seq::<Edge>::empty());
        }
        self.drawn.push(id);
        self.pending = None;
        proof {
            assert(self.drawn@ =~= old(self).drawn_ids().push(id));
        }
    }

    /// Hands out the drawing order once the graph is complete.
    pub fn take_drawn(self) -> (v: Vec<OpId>)
        ensures
            v@ == self.drawn_ids(),
    {
        let GraphDrawer { columns: _, drawn, pending: _, pending_edges: _ } = self;
        drawn
    }
}

} // verus!
