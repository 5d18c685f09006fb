//! Move ranking: turning raw oracle evaluations of candidate moves into a
//! deterministically ordered, displayable list.
//!
//! Each oracle judgment is first re-expressed from the mover's perspective
//! (the oracle judges the hypothetical position after the move, one ply
//! deeper, from the opponent's side), then the list is ordered by
//! descending score with descending node count as the tie-break, stably:
//! entries the order cannot tell apart keep their input order.

use vstd::prelude::*;
use vstd::seq_lib::group_to_multiset_ensures;
use vstd::seq_lib::lemma_multiset_commutative;

verus! {

/// Judgment kind reported by the search oracle for a position.
#[derive(Clone, Copy, PartialEq, Eq, Structural, Debug)]
pub enum EvalKind {
    Win,
    Loss,
    Draw,
    TooFar,
    Unknown,
}

/// One oracle evaluation: a judgment kind, the search depth it rests on,
/// the elapsed search time in milliseconds, and the visited-node count.
#[derive(Clone, Copy, PartialEq, Eq, Structural, Debug)]
pub struct Evaluation {
    pub kind: EvalKind,
    pub depth: u32,
    pub time_ms: u64,
    pub nodes: u64,
}

/// A candidate move, opaque to this layer beyond display and identity:
/// either a new piece of `size` entering at cell `to`, or (when `is_new`
/// is false) a piece moving from cell `from` to cell `to`.  `from` is
/// meaningful only when `is_new` is false.
#[derive(Clone, Copy, PartialEq, Eq, Structural, Debug)]
pub struct Move {
    pub is_new: bool,
    pub size: u8,
    pub from: u8,
    pub to: u8,
}

/// A candidate move paired with its (already perspective-adjusted)
/// evaluation; the element of the ranked list.
#[derive(Clone, Copy, PartialEq, Eq, Structural, Debug)]
pub struct RankedMove {
    pub mv: Move,
    pub eval: Evaluation,
}

/// Score of an evaluation: quicker wins first, later losses less bad,
/// "too far to tell" better than a known loss, everything else by how
/// shallow the search stayed.
pub open spec fn score_spec(e: Evaluation) -> int {
    match e.kind {
        EvalKind::Win => 100 - e.depth,
        EvalKind::Loss => -100 + e.depth,
        EvalKind::TooFar => -50 + e.depth,
        _ => 0 - e.depth,
    }
}

/// `a` may stand at or before `b`: higher score first, and among equal
/// scores the larger node count (more search effort) first.
pub open spec fn key_geq(a: RankedMove, b: RankedMove) -> bool {
    score_spec(a.eval) > score_spec(b.eval) || (score_spec(a.eval) == score_spec(b.eval)
        && a.eval.nodes >= b.eval.nodes)
}

/// `a` must stand strictly after `b`.
pub open spec fn key_lt(a: RankedMove, b: RankedMove) -> bool {
    score_spec(a.eval) < score_spec(b.eval) || (score_spec(a.eval) == score_spec(b.eval)
        && a.eval.nodes < b.eval.nodes)
}

/// The sequence is ordered: no later entry outranks an earlier one.
pub open spec fn sorted_desc(s: Seq<RankedMove>) -> bool {
    forall|i: int, j: int| 0 <= i < j < s.len() ==> key_geq(#[trigger] s[i], #[trigger] s[j])
}

/// Stable insertion of `x` into `s`: `x` passes exactly the entries that
/// must stand strictly after it, so among entries the order cannot tell
/// apart the one already present stays first.
pub open spec fn insert_spec(x: RankedMove, s: Seq<RankedMove>) -> Seq<RankedMove>
    decreases s.len(),
{
    if s.len() == 0 {
        seq![x]
    } else if key_lt(s[0], x) {
        seq![x] + s
    } else {
        seq![s[0]] + insert_spec(x, s.drop_first())
    }
}

/// Stable insertion sort of the whole sequence, taking entries left to
/// right; the reference ordering of the ranked list.
pub open spec fn rank_spec(s: Seq<RankedMove>) -> Seq<RankedMove>
    decreases s.len(),
{
    if s.len() == 0 {
        s
    } else {
        insert_spec(s.last(), rank_spec(s.drop_last()))
    }
}

/// Executable score; matches `score_spec` exactly.
pub fn score(e: &Evaluation) -> (r: i64)
    ensures
        r == score_spec(*e),
{
    match e.kind {
        EvalKind::Win => 100 - (e.depth as i64),
        EvalKind::Loss => -100 + (e.depth as i64),
        EvalKind::TooFar => -50 + (e.depth as i64),
        _ => 0 - (e.depth as i64),
    }
}

/// Executable strict order test; matches `key_lt` exactly.
fn key_lt_exec(a: &RankedMove, b: &RankedMove) -> (r: bool)
    ensures
        r == key_lt(*a, *b),
{
    let sa = score(&a.eval);
    let sb = score(&b.eval);
    sa < sb || (sa == sb && a.eval.nodes < b.eval.nodes)
}

/// Helper: where the scan of a sorted prefix stops is where the stable
/// insertion places the new entry.
proof fn lemma_insert_spec_at(x: RankedMove, s: Seq<RankedMove>, p: int)
    requires
        0 <= p <= s.len(),
        forall|q: int| 0 <= q < p ==> !key_lt(#[trigger] s[q], x),
        p < s.len() ==> key_lt(s[p], x),
    ensures
        insert_spec(x, s) == s.insert(p, x),
    decreases p,
{
    if p == 0 {
        if s.len() == 0 {
            assert(insert_spec(x, s) =~= s.insert(0, x));
        } else {
            assert(insert_spec(x, s) =~= s.insert(0, x));
        }
    } else {
        let rest = s.drop_first();
        assert(forall|q: int| 0 <= q < p - 1 ==> !key_lt(#[trigger] rest[q], x));
        lemma_insert_spec_at(x, rest, p - 1);
        assert(seq![s[0]] + rest.insert(p - 1, x) =~= s.insert(p, x));
    }
}

/// Helper: inserting adds one entry, keeps the order, and introduces only
/// `x` beside the entries already present.
proof fn lemma_insert_spec_props(x: RankedMove, s: Seq<RankedMove>)
    requires
        sorted_desc(s),
    ensures
        insert_spec(x, s).len() == s.len() + 1,
        sorted_desc(insert_spec(x, s)),
        forall|i: int|
            0 <= i < insert_spec(x, s).len() ==> insert_spec(x, s)[i] == x || s.contains(
                #[trigger] insert_spec(x, s)[i],
            ),
    decreases s.len(),
{
    let r = insert_spec(x, s);
    if s.len() == 0 {
    } else if key_lt(s[0], x) {
        assert forall|i: int, j: int| 0 <= i < j < r.len() implies key_geq(
            #[trigger] r[i],
            #[trigger] r[j],
        ) by {
            if i == 0 {
                assert(r[j] == s[j - 1]);
                if j > 1 {
                    assert(key_geq(s[0], s[j - 1]));
                }
            } else {
                assert(r[i] == s[i - 1] && r[j] == s[j - 1]);
            }
        }
    } else {
        let rest = s.drop_first();
        assert(forall|i: int, j: int|
            0 <= i < j < rest.len() ==> key_geq(#[trigger] rest[i], #[trigger] rest[j]));
        lemma_insert_spec_props(x, rest);
        let sub = insert_spec(x, rest);
        assert forall|i: int, j: int| 0 <= i < j < r.len() implies key_geq(
            #[trigger] r[i],
            #[trigger] r[j],
        ) by {
            if i == 0 {
                assert(r[j] == sub[j - 1]);
                if sub[j - 1] == x {
                    assert(key_geq(s[0], x));
                } else {
                    assert(rest.contains(sub[j - 1]));
                    let k = choose|k: int| 0 <= k < rest.len() && rest[k] == sub[j - 1];
                    assert(key_geq(s[0], s[k + 1]));
                }
            } else {
                assert(r[i] == sub[i - 1] && r[j] == sub[j - 1]);
            }
        }
        assert forall|i: int| 0 <= i < r.len() implies r[i] == x || s.contains(
            #[trigger] r[i],
        ) by {
            if i == 0 {
                assert(s[0] == s[0] && s.contains(s[0]));
            } else {
                assert(r[i] == sub[i - 1]);
                if sub[i - 1] != x {
                    assert(rest.contains(sub[i - 1]));
                    let k = choose|k: int| 0 <= k < rest.len() && rest[k] == sub[i - 1];
                    assert(s[k + 1] == sub[i - 1]);
                }
            }
        }
    }
}

/// Helper: inserting `x` adds exactly `x` to the multiset of entries.
proof fn lemma_insert_spec_multiset(x: RankedMove, s: Seq<RankedMove>)
    ensures
        insert_spec(x, s).to_multiset() == s.to_multiset().insert(x),
    decreases s.len(),
{
    broadcast use group_to_multiset_ensures;

    if s.len() == 0 {
        assert(insert_spec(x, s) =~= Seq::<RankedMove>::empty().push(x));
        assert(s =~= Seq::<RankedMove>::empty());
        assert(insert_spec(x, s).to_multiset() =~= s.to_multiset().insert(x));
    } else if key_lt(s[0], x) {
        lemma_multiset_commutative(seq![x], s);
        assert(seq![x] =~= Seq::<RankedMove>::empty().push(x));
        assert(insert_spec(x, s).to_multiset() =~= s.to_multiset().insert(x));
    } else {
        let rest = s.drop_first();
        lemma_insert_spec_multiset(x, rest);
        lemma_multiset_commutative(seq![s[0]], insert_spec(x, rest));
        lemma_multiset_commutative(seq![s[0]], rest);
        assert(seq![s[0]] + rest =~= s);
        assert(seq![s[0]] =~= Seq::<RankedMove>::empty().push(s[0]));
        assert(insert_spec(x, s).to_multiset() =~= s.to_multiset().insert(x));
    }
}

/// The reference ordering is ordered: descending score, then descending
/// node count.
pub proof fn lemma_rank_sorted(s: Seq<RankedMove>)
    ensures
        sorted_desc(rank_spec(s)),
        rank_spec(s).len() == s.len(),
    decreases s.len(),
{
    if s.len() > 0 {
        lemma_rank_sorted(s.drop_last());
        lemma_insert_spec_props(s.last(), rank_spec(s.drop_last()));
    }
}

/// Ranking permutes its input: the multiset of entries is unchanged.
pub proof fn lemma_rank_permutes(s: Seq<RankedMove>)
    ensures
        rank_spec(s).to_multiset() == s.to_multiset(),
    decreases s.len(),
{
    broadcast use group_to_multiset_ensures;

    if s.len() > 0 {
        let init = s.drop_last();
        lemma_rank_permutes(init);
        lemma_insert_spec_multiset(s.last(), rank_spec(init));
        assert(init.push(s.last()) =~= s);
    }
}

/// An already ordered sequence is left exactly as it is: entries the order
/// cannot tell apart are never swapped.
pub proof fn lemma_rank_of_sorted_is_identity(s: Seq<RankedMove>)
    requires
        sorted_desc(s),
    ensures
        rank_spec(s) == s,
    decreases s.len(),
{
    if s.len() > 0 {
        let init = s.drop_last();
        assert(forall|i: int, j: int|
            0 <= i < j < init.len() ==> key_geq(#[trigger] init[i], #[trigger] init[j]));
        lemma_rank_of_sorted_is_identity(init);
        assert(forall|q: int| 0 <= q < init.len() ==> !key_lt(#[trigger] init[q], s.last()));
        lemma_insert_spec_at(s.last(), init, init.len() as int);
        assert(init.insert(init.len() as int, s.last()) =~= s);
    }
}

/// Ranking is idempotent: re-invoking it on its own output reorders
/// nothing.
pub proof fn lemma_rank_idempotent(s: Seq<RankedMove>)
    ensures
        rank_spec(rank_spec(s)) == rank_spec(s),
{
    lemma_rank_sorted(s);
    lemma_rank_of_sorted_is_identity(rank_spec(s));
}

/// Produces the ranked list: the stable reordering of `input` by
/// descending score, ties by descending node count.  The input itself is
/// left untouched; an empty input gives an empty list.
pub fn rank(input: &Vec<RankedMove>) -> (r: Vec<RankedMove>)
    ensures
        r@ == rank_spec(input@),
        sorted_desc(r@),
        r@.to_multiset() == input@.to_multiset(),
{
    let ghost full = input@;
    let mut out: Vec<RankedMove> = Vec::new();
    let mut i: usize = 0;
    proof {
        assert(full.subrange(0, 0) =~= Seq::<RankedMove>::empty());
    }
    while i < input.len()
        invariant
            i <= input.len(),
            full == input@,
            out@ == rank_spec(full.subrange(0, i as int)),
        decreases input.len() - i,
    {
        let x = input[i];
        let mut p: usize = 0;
        while p < out.len() && !key_lt_exec(&out[p], &x)
            invariant
                p <= out.len(),
                forall|q: int| 0 <= q < p ==> !key_lt(#[trigger] out@[q], x),
            decreases out.len() - p,
        {
            p = p + 1;
        }
        let ghost before = out@;
        out.insert(p, x);
        proof {
            lemma_insert_spec_at(x, before, p as int);
            assert(full.subrange(0, i + 1).drop_last() =~= full.subrange(0, i as int));
            assert(full.subrange(0, i + 1).last() == full[i as int]);
        }
        i = i + 1;
    }
    proof {
        assert(full.subrange(0, full.len() as int) =~= full);
        lemma_rank_sorted(full);
        lemma_rank_permutes(full);
    }
    out
}

/// Whether the game is still being played or has reached an end state.
#[derive(Clone, Copy, PartialEq, Eq, Structural, Debug)]
pub enum GameStatus {
    InProgress,
    Terminal,
}

/// Kind after the one-ply perspective flip: a position that is a win for
/// the opponent one ply deeper is a loss for the mover, and vice versa;
/// every other judgment passes through unchanged.
pub open spec fn flip_kind(k: EvalKind) -> EvalKind {
    match k {
        EvalKind::Win => EvalKind::Loss,
        EvalKind::Loss => EvalKind::Win,
        _ => k,
    }
}

/// An oracle evaluation of the hypothetical post-move position,
/// re-expressed from the mover's perspective: kind flipped, depth one ply
/// deeper, telemetry unchanged.
pub open spec fn adjusted_eval(e: Evaluation) -> Evaluation {
    Evaluation { kind: flip_kind(e.kind), depth: (e.depth + 1) as u32, ..e }
}

/// A raw oracle entry after the perspective adjustment of its evaluation.
pub open spec fn adjusted_entry(rm: RankedMove) -> RankedMove {
    RankedMove { mv: rm.mv, eval: adjusted_eval(rm.eval) }
}

/// Re-expresses an oracle judgment of the post-move position from the
/// mover's perspective: `Win` becomes `Loss` and `Loss` becomes `Win`,
/// and the reported depth grows by exactly one ply.
pub fn adjust_evaluation(e: &Evaluation) -> (r: Evaluation)
    requires
        e.depth < u32::MAX,
    ensures
        r == adjusted_eval(*e),
{
    let kind = match e.kind {
        EvalKind::Win => EvalKind::Loss,
        EvalKind::Loss => EvalKind::Win,
        k => k,
    };
    Evaluation { kind, depth: e.depth + 1, time_ms: e.time_ms, nodes: e.nodes }
}

/// Display tint for a ranked entry's judgment kind.
#[derive(Clone, Copy, PartialEq, Eq, Structural, Debug)]
pub enum LabelTint {
    Yellow,
    Orange,
    Gray,
    White,
}

/// Tint used when displaying an entry: wins yellow, losses orange, draws
/// gray, everything else white.
pub fn kind_tint(k: EvalKind) -> (r: LabelTint)
    ensures
        k is Win ==> r is Yellow,
        k is Loss ==> r is Orange,
        k is Draw ==> r is Gray,
        k is TooFar || k is Unknown ==> r is White,
{
    match k {
        EvalKind::Win => LabelTint::Yellow,
        EvalKind::Loss => LabelTint::Orange,
        EvalKind::Draw => LabelTint::Gray,
        _ => LabelTint::White,
    }
}

/// Holds the evaluated move list for the last seen game state, so the
/// oracle is consulted only when the state (compared by value, through an
/// opaque key) actually changed, and so a finished game shows no
/// candidate moves.
pub struct MoveRanker {
    /// Value key of the game state the current list belongs to, if any.
    pub last: Option<u128>,
    /// Perspective-adjusted evaluations, one per legal move of that state.
    pub evals: Vec<RankedMove>,
}

impl MoveRanker {
    /// A ranker that has seen no game state yet.
    pub fn new() -> (r: MoveRanker)
        ensures
            r.last is None,
            r.evals@ == Seq::<RankedMove>::empty(),
    {
        MoveRanker { last: None, evals: Vec::new() }
    }

    /// True when the given state key differs from the last seen one, so
    /// the oracle must be consulted again; re-ranking is skipped while
    /// the state is unchanged.
    pub fn needs_refresh(&self, key: u128) -> (r: bool)
        ensures
            r == (self.last != Some(key)),
    {
        match self.last {
            Some(k) => k != key,
            None => true,
        }
    }

    /// Takes the fresh oracle output for state `key`: in a running game
    /// every entry's evaluation is re-expressed from the mover's
    /// perspective and kept; a terminal status clears the list to empty
    /// unconditionally, whatever it held before.
    pub fn refresh(&mut self, key: u128, status: GameStatus, raw: &Vec<RankedMove>)
        requires
            forall|i: int| 0 <= i < raw@.len() ==> (#[trigger] raw@[i]).eval.depth < u32::MAX,
        ensures
            final(self).last == Some(key),
            status is InProgress ==> final(self).evals@ == raw@.map_values(
                |rm: RankedMove| adjusted_entry(rm),
            ),
            status is Terminal ==> final(self).evals@ == Seq::<RankedMove>::empty(),
    {
        self.last = Some(key);
        match status {
            GameStatus::InProgress => {
                let mut acc: Vec<RankedMove> = Vec::new();
                let mut i: usize = 0;
                while i < raw.len()
                    invariant
                        i <= raw.len(),
                        forall|k: int|
                            0 <= k < raw@.len() ==> (#[trigger] raw@[k]).eval.depth < u32::MAX,
                        acc@.len() == i,
                        forall|k: int| 0 <= k < i ==> #[trigger] acc@[k] == adjusted_entry(raw@[k]),
                    decreases raw.len() - i,
                {
                    let rm = raw[i];
                    let eval = adjust_evaluation(&rm.eval);
                    acc.push(RankedMove { mv: rm.mv, eval });
                    i = i + 1;
                }
                proof {
                    assert(acc@ =~= raw@.map_values(|rm: RankedMove| adjusted_entry(rm)));
                }
                self.evals = acc;
            },
            GameStatus::Terminal => {
                self.evals = Vec::new();
            },
        }
    }

    /// The displayable list for the current state: the held entries,
    /// stably ordered by descending score with descending node count as
    /// the tie-break.  The held entries themselves are not changed.
    pub fn ranked(&self) -> (r: Vec<RankedMove>)
        ensures
            r@ == rank_spec(self.evals@),
            sorted_desc(r@),
            r@.to_multiset() == self.evals@.to_multiset(),
    {
        rank(&self.evals)
    }
}

} // verus!
