use crate::compass_groups::{
    dir_at, dir_index, lemma_dir_at_index, lemma_direction_facts, opposite_of, Direction,
};
use crate::exchangers::{
    exchange_text, exchanger_seq, extract_pid_seq, line_view, opt_view, Exchange, ExchangeView, SeqKind,
};
use crate::occupied_squares::{
    bit_set, cast_ray, file_of, hits_upto, lemma_bit_clear, lemma_bit_set, lemma_bit_zero,
    lemma_hits_frame, lemma_ray_bounded, lemma_ray_len, lemma_ray_square,
    lemma_ray_symmetric, lemma_square_coordinates, occupancy, rank_of, ray_distant, ray_hits,
    ray_len, ray_length, ray_square, ray_square_at, square_of,
};
use crate::pid::{Pid, PidView};
use crate::pieces::{
    basic_of, PieceTypeData, type_of, no_exchangers, piece_text, side_of, type_char, BasicPieceType, Piece, PieceType,
    PieceView, Side,
};
use crate::pid::{is_pid_text, pid_of_text, pid_text};
use crate::text::{decimal, push_decimal, push_square_name, push_str, square_name};
pub use crate::squares::Square;
use crate::squares::{lemma_square_at_round_trip, lemma_square_index_round_trip, square_at, square_index};
use vstd::prelude::*;

verus! {

/// What a board denotes: the piece on each square (by bit index), the
/// occupancy word, the moves made, the side to move, the checking pieces,
/// the en-passant target square, and whether the cached exchanger sequences
/// are known to be current.
pub struct BoardView {
    pub pieces: Seq<Option<PieceView>>,
    pub occupied: u64,
    pub moves: Seq<(Square, Square)>,
    pub turn: Side,
    pub checks: Seq<PidView>,
    pub en_passant: Option<Square>,
    pub current: bool,
}

/// A chessboard position with, for every resident piece, its exchanger map.
#[derive(Debug)]
pub struct Board {
    pieces: Vec<Option<Piece>>,
    occupied: u64,
    moves: Vec<(Square, Square)>,
    turn: Side,
    checks: Vec<Pid>,
    capture_square_en_passant: Option<Square>,
    exchangers_current: bool,
}

/// The view of an optional piece.
pub open spec fn piece_opt_view(o: Option<Piece>) -> Option<PieceView> {
    match o {
        Some(p) => Some(p@),
        None => None,
    }
}

impl View for Board {
    type V = BoardView;

    closed spec fn view(&self) -> BoardView {
        BoardView {
            pieces: self.pieces@.map_values(|o: Option<Piece>| piece_opt_view(o)),
            occupied: self.occupied,
            moves: self.moves@,
            turn: self.turn,
            checks: self.checks@.map_values(|p: Pid| p@),
            en_passant: self.capture_square_en_passant,
            current: self.exchangers_current,
        }
    }
}

/// The piece type on each square.
pub open spec fn placement(pieces: Seq<Option<PieceView>>) -> Seq<Option<PieceType>> {
    pieces.map_values(
        |o: Option<PieceView>|
            match o {
                Some(p) => Some(p.pid.kind),
                None => None,
            },
    )
}

/// Which squares hold a piece.
pub open spec fn occupied_of(pl: Seq<Option<PieceType>>) -> Seq<bool> {
    pl.map_values(|o: Option<PieceType>| o is Some)
}

/// The pieces met on the ray from `s` along `d`, nearest first.
pub open spec fn ray_line(pl: Seq<Option<PieceType>>, s: int, d: Direction) -> Seq<PidView> {
    ray_hits(occupied_of(pl), s, d).map_values(|q: int| PidView { square: q, kind: pl[q]->0 })
}

/// The exchanger sequence that a piece of type `focus` on square `s` has along `d`.
pub open spec fn entry_of(pl: Seq<Option<PieceType>>, focus: PieceType, s: int, d: Direction) -> Option<
    ExchangeView,
> {
    exchanger_seq(focus, d, ray_distant(occupied_of(pl), s, d), ray_line(pl, s, d))
}

/// The exchanger sequences of a piece of type `focus` on `s`, in compass order.
pub open spec fn entries_of(pl: Seq<Option<PieceType>>, focus: PieceType, s: int) -> Seq<
    Option<ExchangeView>,
> {
    Seq::new(16, |j: int| entry_of(pl, focus, s, dir_at(j)))
}

/// Sixty-four squares, each piece on its own square with sixteen direction slots.
pub open spec fn pieces_wf(pieces: Seq<Option<PieceView>>) -> bool {
    &&& pieces.len() == 64
    &&& forall|i: int|
        0 <= i < 64 ==> (#[trigger] pieces[i] matches Some(p) ==> p.pid.square == i
            && p.exchangers.len() == 16)
}

/// Occupancy and piece map agree: bit `i` is set exactly when square `i` holds a piece.
pub open spec fn coherent(pieces: Seq<Option<PieceView>>, occ: u64) -> bool {
    forall|i: int| 0 <= i < 64 ==> bit_set(occ, i as u64) == (#[trigger] pieces[i] is Some)
}

/// Every piece's exchanger map is what the extractor computes afresh.
pub open spec fn exchangers_current(pieces: Seq<Option<PieceView>>) -> bool {
    forall|i: int|
        0 <= i < 64 ==> (#[trigger] pieces[i] matches Some(p) ==> p.exchangers == entries_of(
            placement(pieces),
            p.pid.kind,
            i,
        ))
}

/// The placement's invariant: well-formed pieces and a coherent occupancy word.
pub open spec fn layout_wf(v: BoardView) -> bool {
    pieces_wf(v.pieces) && coherent(v.pieces, v.occupied)
}

/// The board's invariant.
pub open spec fn board_wf(v: BoardView) -> bool {
    &&& pieces_wf(v.pieces)
    &&& coherent(v.pieces, v.occupied)
    &&& v.current ==> exchangers_current(v.pieces)
}

/// The board with every exchanger map computed afresh from the placement.
pub open spec fn rebuilt(v: BoardView) -> BoardView {
    BoardView {
        pieces: v.pieces.map(
            |i: int, o: Option<PieceView>|
                match o {
                    Some(p) => Some(
                        PieceView { pid: p.pid, exchangers: entries_of(placement(v.pieces), p.pid.kind, i) },
                    ),
                    None => None,
                },
        ),
        current: true,
        ..v
    }
}

/// With a coherent occupancy word, the word's bits are the occupied squares.
pub proof fn lemma_occupancy(pieces: Seq<Option<PieceView>>, occ: u64)
    requires
        pieces_wf(pieces),
        coherent(pieces, occ),
    ensures
        occupancy(occ) == occupied_of(placement(pieces)),
        placement(pieces).len() == 64,
{
    assert forall|i: int| 0 <= i < 64 implies occupancy(occ)[i] == occupied_of(
        placement(pieces),
    )[i] by {
        assert(pieces[i] is Some == bit_set(occ, i as u64));
    }
    assert(occupancy(occ) =~= occupied_of(placement(pieces)));
}

/// Coherence of occupancy and piece map: for a well-formed board, a bit is
/// set exactly when one piece stands on that square, the piece whose
/// identifier names it.
pub proof fn lemma_occupancy_coherent(v: BoardView, i: int)
    requires
        board_wf(v),
        0 <= i < 64,
    ensures
        bit_set(v.occupied, i as u64) <==> v.pieces[i] is Some,
        v.pieces[i] matches Some(p) ==> p.pid.square == i,
        forall|j: int| 0 <= j < 64 && j != i ==> !(#[trigger] v.pieces[j] matches Some(p)
            && p.pid.square == i),
{
}

/// Rebuilding yields a well-formed board whose maps are current, and it
/// leaves the placement alone.
pub proof fn lemma_rebuilt_wf(v: BoardView)
    requires
        pieces_wf(v.pieces),
        coherent(v.pieces, v.occupied),
    ensures
        board_wf(rebuilt(v)),
        placement(rebuilt(v).pieces) == placement(v.pieces),
{
    let r = rebuilt(v);
    assert(placement(r.pieces) =~= placement(v.pieces));
    assert forall|i: int| 0 <= i < 64 implies (#[trigger] r.pieces[i] matches Some(p) ==> p.pid.square
        == i && p.exchangers.len() == 16) by {}
}

/// Determinism of the full rebuild: rebuilding depends on the placement
/// alone, so rebuilding a rebuilt board changes nothing, and two boards with
/// one placement get identical exchanger maps.
pub proof fn lemma_rebuild_deterministic(v: BoardView, w: BoardView)
    requires
        pieces_wf(v.pieces),
        coherent(v.pieces, v.occupied),
    ensures
        rebuilt(rebuilt(v)) == rebuilt(v),
        w.pieces.len() == v.pieces.len() && placement(w.pieces) == placement(v.pieces) && (forall|
            i: int,
        |
            0 <= i < v.pieces.len() ==> (#[trigger] w.pieces[i] matches Some(p) ==> v.pieces[i]
                matches Some(q) && p.pid == q.pid)) ==> rebuilt(w).pieces == rebuilt(v).pieces,
{
    lemma_rebuilt_wf(v);
    let r = rebuilt(v);
    assert(rebuilt(r).pieces =~= r.pieces);
    if w.pieces.len() == v.pieces.len() && placement(w.pieces) == placement(v.pieces) && (forall|
        i: int,
    |
        0 <= i < v.pieces.len() ==> (#[trigger] w.pieces[i] matches Some(p) ==> v.pieces[i]
            matches Some(q) && p.pid == q.pid)) {
        assert forall|i: int| 0 <= i < v.pieces.len() implies #[trigger] rebuilt(w).pieces[i]
            == rebuilt(v).pieces[i] by {
            assert(placement(w.pieces)[i] == placement(v.pieces)[i]);
        }
        assert(rebuilt(w).pieces =~= rebuilt(v).pieces);
    }
}

/// The squares whose contents a ray from `s` along `d` reads, all kept alike
/// by two placements, give the same exchanger sequence.
pub proof fn lemma_entry_frame(
    a: Seq<Option<PieceType>>,
    b: Seq<Option<PieceType>>,
    focus: PieceType,
    s: int,
    d: Direction,
)
    requires
        a.len() == 64,
        b.len() == 64,
        0 <= s < 64,
        forall|k: int| 1 <= k <= ray_len(s, d) ==> a[#[trigger] ray_square(s, d, k)] == b[ray_square(s, d, k)],
    ensures
        entry_of(a, focus, s, d) == entry_of(b, focus, s, d),
{
    lemma_ray_len(s, d);
    let n = ray_len(s, d);
    assert forall|k: int| 1 <= k <= n implies occupied_of(a)[ray_square(s, d, k)] == occupied_of(
        b,
    )[ray_square(s, d, k)] by {
        lemma_ray_square(s, d, k);
        assert(a[ray_square(s, d, k)] == b[ray_square(s, d, k)]);
    }
    lemma_hits_frame(occupied_of(a), occupied_of(b), s, d, n);
    lemma_line_frame(a, b, s, d, n);
    if ray_hits(occupied_of(a), s, d).len() > 0 {
        assert(n >= 1);
        lemma_ray_square(s, d, 1);
        assert(a[ray_square(s, d, 1)] == b[ray_square(s, d, 1)]);
    }
    assert(ray_line(a, s, d) == ray_line(b, s, d));
}

/// The pieces read along the first `n` squares of a ray depend only on those squares.
proof fn lemma_line_frame(a: Seq<Option<PieceType>>, b: Seq<Option<PieceType>>, s: int, d: Direction, n: int)
    requires
        a.len() == 64,
        b.len() == 64,
        0 <= s < 64,
        n <= ray_len(s, d),
        forall|k: int| 1 <= k <= ray_len(s, d) ==> a[#[trigger] ray_square(s, d, k)] == b[ray_square(s, d, k)],
    ensures
        hits_upto(occupied_of(a), s, d, n).map_values(|q: int| PidView { square: q, kind: a[q]->0 })
            == hits_upto(occupied_of(b), s, d, n).map_values(
            |q: int| PidView { square: q, kind: b[q]->0 },
        ),
    decreases n,
{
    if n > 0 {
        lemma_line_frame(a, b, s, d, n - 1);
        lemma_ray_len(s, d);
        lemma_ray_square(s, d, n);
        let t = ray_square(s, d, n);
        assert(a[t] == b[t]);
        let ha = hits_upto(occupied_of(a), s, d, n);
        let hb = hits_upto(occupied_of(b), s, d, n);
        let pa = hits_upto(occupied_of(a), s, d, n - 1);
        let pb = hits_upto(occupied_of(b), s, d, n - 1);
        let fa = |q: int| PidView { square: q, kind: a[q]->0 };
        let fb = |q: int| PidView { square: q, kind: b[q]->0 };
        if occupied_of(a)[t] {
            assert(ha.map_values(fa) =~= pa.map_values(fa).push(fa(t)));
            assert(hb.map_values(fb) =~= pb.map_values(fb).push(fb(t)));
        }
    }
}

/// The square of the pawn taken en passant by a move from `from` to `to`:
/// a pawn moving onto the en-passant target square takes the pawn beside it.
pub open spec fn ep_victim(v: BoardView, from: int, to: int) -> Option<int> {
    if v.pieces[from] matches Some(p) && basic_of(p.pid.kind) == BasicPieceType::Pawn
        && v.en_passant == Some(square_at(to)) {
        Some(
            square_of(
                file_of(to),
                if rank_of(to) == 5 {
                    4
                } else {
                    3
                },
            ),
        )
    } else {
        None
    }
}

/// The mover after the move: its type on the destination square, with no exchangers yet.
pub open spec fn landed_piece(v: BoardView, from: int, to: int) -> PieceView {
    PieceView { pid: PidView { square: to, kind: v.pieces[from]->0.pid.kind }, exchangers: no_exchangers() }
}

/// The placement after a move, before any exchanger is recomputed: the pawn
/// taken en passant (if any) and the mover leave their squares and the mover
/// lands on the destination, replacing what stood there.
pub open spec fn naive_move(v: BoardView, from: int, to: int) -> BoardView {
    let c = ep_victim(v, from, to);
    let p1 = match c {
        Some(c) => v.pieces.update(c, None),
        None => v.pieces,
    };
    let o1 = match c {
        Some(c) => v.occupied & !(1u64 << (c as u64)),
        None => v.occupied,
    };
    BoardView {
        pieces: p1.update(from, None).update(to, Some(landed_piece(v, from, to))),
        occupied: (o1 & !(1u64 << (from as u64))) | (1u64 << (to as u64)),
        en_passant: if c is Some {
            None
        } else {
            v.en_passant
        },
        current: false,
        ..v
    }
}

/// The other side.
pub open spec fn other_side(s: Side) -> Side {
    match s {
        Side::White => Side::Black,
        Side::Black => Side::White,
    }
}

/// The checking piece that one exchanger sequence of a king shows: its first piece,
/// when the sequence is a plain exchanger sequence led by an enemy piece.
pub open spec fn check_in(x: Option<ExchangeView>, king: PieceType) -> Seq<PidView> {
    match x {
        Some(e) => if e.kind == SeqKind::Exchangers && e.pids.len() > 0 && side_of(e.pids[0].kind)
            != side_of(king) {
            seq![e.pids[0]]
        } else {
            Seq::empty()
        },
        None => Seq::empty(),
    }
}

/// The checking pieces that a king's first `n` exchanger sequences show, in compass order.
pub open spec fn king_checks(p: PieceView, n: int) -> Seq<PidView>
    decreases n,
{
    if n <= 0 {
        Seq::empty()
    } else {
        king_checks(p, n - 1) + check_in(p.exchangers[n - 1], p.pid.kind)
    }
}

/// The checking pieces of the kings of the side that did not just move, among the
/// first `n` squares.
pub open spec fn checks_upto(pieces: Seq<Option<PieceView>>, mover: Side, n: int) -> Seq<PidView>
    decreases n,
{
    if n <= 0 {
        Seq::empty()
    } else {
        checks_upto(pieces, mover, n - 1) + match pieces[n - 1] {
            Some(p) => if basic_of(p.pid.kind) == BasicPieceType::King && side_of(p.pid.kind)
                != mover {
                king_checks(p, 16)
            } else {
                Seq::empty()
            },
            None => Seq::empty(),
        }
    }
}

/// Whether square `q` holds a pawn of the side other than `mover`.
pub open spec fn enemy_pawn_at(v: BoardView, q: int, mover: Side) -> bool {
    v.pieces[q] matches Some(p) && basic_of(p.pid.kind) == BasicPieceType::Pawn && side_of(
        p.pid.kind,
    ) != mover
}

/// The en-passant target after a move: the square a pawn passed over in a
/// two-square advance, when an enemy pawn stands beside its landing square;
/// otherwise none.
pub open spec fn ep_target_after(v: BoardView, from: int, to: int, pc: char) -> Option<Square> {
    let two = rank_of(from) - rank_of(to) == 2 || rank_of(to) - rank_of(from) == 2;
    let beside = (file_of(to) != 0 && enemy_pawn_at(v, to - 1, v.turn)) || (file_of(to) != 7
        && enemy_pawn_at(v, to + 1, v.turn));
    if (pc == 'P' || pc == 'p') && two && beside {
        Some(
            square_at(
                square_of(
                    file_of(to),
                    if rank_of(to) == 4 {
                        5
                    } else {
                        2
                    },
                ),
            ),
        )
    } else {
        None
    }
}

/// The game state after the side to move has moved from `from` to `to` a
/// piece of letter `pc`: the checks on the other side's king, the new
/// en-passant target, and the turn passed on.
pub open spec fn status_after(v: BoardView, from: int, to: int, pc: char) -> BoardView {
    BoardView {
        checks: checks_upto(v.pieces, v.turn, 64),
        en_passant: ep_target_after(v, from, to, pc),
        turn: other_side(v.turn),
        ..v
    }
}

/// The board after a move: the naive move, a full rebuild of the exchanger
/// maps, the move recorded, and the game state updated.
pub open spec fn moved(v: BoardView, from: int, to: int) -> BoardView {
    let b = rebuilt(naive_move(v, from, to));
    status_after(
        BoardView { moves: b.moves.push((square_at(from), square_at(to))), ..b },
        from,
        to,
        type_char(v.pieces[from]->0.pid.kind),
    )
}

/// The view of a slot update.
pub open spec fn update_view(u: (Square, Direction, Option<Exchange>)) -> (Square, Direction, Option<ExchangeView>) {
    (u.0, u.1, opt_view(u.2))
}

/// The view of a batch of slot updates.
pub open spec fn updates_view(ups: Seq<(Square, Direction, Option<Exchange>)>) -> Seq<(Square, Direction, Option<ExchangeView>)> {
    ups.map_values(|u: (Square, Direction, Option<Exchange>)| update_view(u))
}

/// The exchanger sequence that the piece on `q` has along `d` when computed afresh.
pub open spec fn fresh_entry(v: BoardView, q: int, d: Direction) -> Option<ExchangeView> {
    entry_of(placement(v.pieces), v.pieces[q]->0.pid.kind, q, d)
}

/// Every update names a resident piece and carries its fresh sequence.
pub open spec fn updates_correct(v: BoardView, ups: Seq<(Square, Direction, Option<ExchangeView>)>) -> bool {
    forall|u: int|
        0 <= u < ups.len() ==> v.pieces[square_index((#[trigger] ups[u]).0)] is Some && ups[u].2
            == fresh_entry(v, square_index(ups[u].0), ups[u].1)
}

/// Some update in the batch names the slot of square `q` and direction `d`.
pub open spec fn has_update(ups: Seq<(Square, Direction, Option<ExchangeView>)>, q: int, d: Direction) -> bool {
    exists|u: int| 0 <= u < ups.len() && square_index((#[trigger] ups[u]).0) == q && ups[u].1 == d
}

/// Every piece on a line through `c` has an update for its slot facing `c`.
pub open spec fn lines_refreshed(v: BoardView, ups: Seq<(Square, Direction, Option<ExchangeView>)>, c: int) -> bool {
    forall|j: int, k: int|
        0 <= j < 16 && 1 <= k <= ray_len(c, dir_at(j)) && v.pieces[#[trigger] ray_square(
            c,
            dir_at(j),
            k,
        )] is Some ==> has_update(ups, ray_square(c, dir_at(j), k), opposite_of(dir_at(j)))
}

/// A batch keeps its updates when more are added after them.
proof fn lemma_has_update_extend(
    a: Seq<(Square, Direction, Option<ExchangeView>)>,
    b: Seq<(Square, Direction, Option<ExchangeView>)>,
    q: int,
    d: Direction,
)
    requires
        a.len() <= b.len(),
        forall|u: int| 0 <= u < a.len() ==> #[trigger] b[u] == a[u],
        has_update(a, q, d),
    ensures
        has_update(b, q, d),
{
    let u = choose|u: int| 0 <= u < a.len() && square_index((#[trigger] a[u]).0) == q && a[u].1 == d;
    assert(b[u] == a[u]);
}

/// The pieces after a batch of updates: each slot named in the batch holds
/// its fresh sequence, every other slot keeps its own.
pub open spec fn after_updates(v: BoardView, ups: Seq<(Square, Direction, Option<ExchangeView>)>) -> Seq<
    Option<PieceView>,
> {
    v.pieces.map(
        |q: int, o: Option<PieceView>|
            match o {
                Some(p) => Some(
                    PieceView {
                        pid: p.pid,
                        exchangers: p.exchangers.map(
                            |j: int, x: Option<ExchangeView>|
                                if has_update(ups, q, dir_at(j)) {
                                    fresh_entry(v, q, dir_at(j))
                                } else {
                                    x
                                },
                        ),
                    },
                ),
                None => None,
            },
    )
}

/// Joining two correct batches gives a correct batch that refreshes every
/// line either refreshed and names every slot either names.
proof fn lemma_updates_concat(
    v: BoardView,
    a: Seq<(Square, Direction, Option<ExchangeView>)>,
    b: Seq<(Square, Direction, Option<ExchangeView>)>,
)
    requires
        updates_correct(v, a),
        updates_correct(v, b),
    ensures
        updates_correct(v, a + b),
        forall|c: int| lines_refreshed(v, a, c) ==> lines_refreshed(v, a + b, c),
        forall|c: int| lines_refreshed(v, b, c) ==> lines_refreshed(v, a + b, c),
        forall|q: int, d: Direction| has_update(b, q, d) ==> #[trigger] has_update(a + b, q, d),
{
    let ab = a + b;
    assert forall|u: int| 0 <= u < ab.len() implies v.pieces[square_index((#[trigger] ab[u]).0)] is Some
        && ab[u].2 == fresh_entry(v, square_index(ab[u].0), ab[u].1) by {
        if u < a.len() {
            assert(ab[u] == a[u]);
        } else {
            assert(ab[u] == b[u - a.len()]);
        }
    }
    assert forall|q: int, d: Direction| has_update(a, q, d) implies has_update(ab, q, d) by {
        let u = choose|u: int| 0 <= u < a.len() && square_index((#[trigger] a[u]).0) == q && a[u].1 == d;
        assert(ab[u] == a[u]);
    }
    assert forall|q: int, d: Direction| has_update(b, q, d) implies #[trigger] has_update(ab, q, d) by {
        let u = choose|u: int| 0 <= u < b.len() && square_index((#[trigger] b[u]).0) == q && b[u].1 == d;
        assert(ab[u + a.len()] == b[u]);
    }
    assert forall|c: int| lines_refreshed(v, a, c) implies lines_refreshed(v, ab, c) by {
        assert forall|j: int, k: int|
            0 <= j < 16 && 1 <= k <= ray_len(c, dir_at(j)) && v.pieces[#[trigger] ray_square(
                c,
                dir_at(j),
                k,
            )] is Some implies has_update(ab, ray_square(c, dir_at(j), k), opposite_of(dir_at(j))) by {
            assert(has_update(a, ray_square(c, dir_at(j), k), opposite_of(dir_at(j))));
        }
    }
    assert forall|c: int| lines_refreshed(v, b, c) implies lines_refreshed(v, ab, c) by {
        assert forall|j: int, k: int|
            0 <= j < 16 && 1 <= k <= ray_len(c, dir_at(j)) && v.pieces[#[trigger] ray_square(
                c,
                dir_at(j),
                k,
            )] is Some implies has_update(ab, ray_square(c, dir_at(j), k), opposite_of(dir_at(j))) by {
            assert(has_update(b, ray_square(c, dir_at(j), k), opposite_of(dir_at(j))));
        }
    }
}

/// A move as its debug text, such as `(g2, f1)`.
pub open spec fn move_text(m: (Square, Square)) -> Seq<char> {
    "("@ + square_name(square_index(m.0)) + ", "@ + square_name(square_index(m.1)) + ")"@
}

/// The first `n` moves, joined by `, `.
pub open spec fn moves_items(m: Seq<(Square, Square)>, n: int) -> Seq<char>
    decreases n,
{
    if n <= 0 {
        Seq::empty()
    } else if n == 1 {
        move_text(m[0])
    } else {
        moves_items(m, n - 1) + ", "@ + move_text(m[n - 1])
    }
}

/// The first `n` checking pieces, joined by `,`.
pub open spec fn checks_items(c: Seq<PidView>, n: int) -> Seq<char>
    decreases n,
{
    if n <= 0 {
        Seq::empty()
    } else if n == 1 {
        pid_text(c[0])
    } else {
        checks_items(c, n - 1) + ","@ + pid_text(c[n - 1])
    }
}

/// The checking pieces in brackets, or nothing when there are none.
pub open spec fn checks_text(c: Seq<PidView>) -> Seq<char> {
    if c.len() == 0 {
        Seq::empty()
    } else {
        "["@ + checks_items(c, c.len() as int) + "]"@
    }
}

/// A side's name.
pub open spec fn side_text(s: Side) -> Seq<char> {
    match s {
        Side::White => "White"@,
        Side::Black => "Black"@,
    }
}

/// The en-passant target as its debug text.
pub open spec fn en_passant_text(e: Option<Square>) -> Seq<char> {
    match e {
        Some(q) => "Some("@ + square_name(square_index(q)) + ")"@,
        None => "None"@,
    }
}

/// The first line of the board's dump.
pub open spec fn header_text(v: BoardView) -> Seq<char> {
    "occupied: "@ + decimal(v.occupied as nat) + ", moves: ["@ + moves_items(
        v.moves,
        v.moves.len() as int,
    ) + "], turn: "@ + side_text(v.turn) + ", checks: "@ + checks_text(v.checks)
        + ", en_passant: "@ + en_passant_text(v.en_passant) + "\n"@
}

/// The lines of the pieces on the first `n` squares, in square order.
pub open spec fn pieces_text(pieces: Seq<Option<PieceView>>, n: int) -> Seq<char>
    decreases n,
{
    if n <= 0 {
        Seq::empty()
    } else {
        pieces_text(pieces, n - 1) + match pieces[n - 1] {
            Some(p) => piece_text(p) + "\n"@,
            None => Seq::empty(),
        }
    }
}

/// The ordered textual dump of a board: a header line, then one line per
/// piece in square order, `a1` first.
pub open spec fn board_text(v: BoardView) -> Seq<char> {
    header_text(v) + pieces_text(v.pieces, 64)
}

/// The board with a piece of the identifier `p` put on its square, without
/// exchanger sequences; the maps are no longer known to be current.
pub open spec fn placed(v: BoardView, p: PidView) -> BoardView {
    BoardView {
        pieces: v.pieces.update(p.square, Some(PieceView { pid: p, exchangers: no_exchangers() })),
        occupied: v.occupied | (1u64 << (p.square as u64)),
        current: false,
        ..v
    }
}

/// The board with no pieces.
pub open spec fn cleared(v: BoardView) -> BoardView {
    BoardView { pieces: Seq::new(64, |i: int| None), occupied: 0, current: true, ..v }
}

/// The board after placing, in order, the first `n` identifier texts; an
/// invalid text places nothing.
pub open spec fn placed_texts(v: BoardView, texts: Seq<Seq<char>>, n: int) -> BoardView
    decreases n,
{
    if n <= 0 {
        v
    } else {
        let w = placed_texts(v, texts, n - 1);
        if is_pid_text(texts[n - 1]) {
            placed(w, pid_of_text(texts[n - 1]))
        } else {
            w
        }
    }
}

/// The refusal message for an invalid identifier text.
pub open spec fn refusal_text(s: Seq<char>) -> Seq<char> {
    "'"@ + s + "' is not a valid 3-letter uppercase code."@
}

/// The refusal messages for the invalid texts among the first `n`, in order.
pub open spec fn refusals(texts: Seq<Seq<char>>, n: int) -> Seq<Seq<char>>
    decreases n,
{
    if n <= 0 {
        Seq::empty()
    } else if is_pid_text(texts[n - 1]) {
        refusals(texts, n - 1)
    } else {
        refusals(texts, n - 1).push(refusal_text(texts[n - 1]))
    }
}

/// The number of pieces on the first `n` squares.
pub open spec fn piece_count(pieces: Seq<Option<PieceView>>, n: int) -> nat
    decreases n,
{
    if n <= 0 {
        0
    } else {
        piece_count(pieces, n - 1) + if pieces[n - 1] is Some {
            1nat
        } else {
            0nat
        }
    }
}

/// The pieces on the first `n` squares, in square order.
pub open spec fn present_pieces(pieces: Seq<Option<PieceView>>, n: int) -> Seq<PieceView>
    decreases n,
{
    if n <= 0 {
        Seq::empty()
    } else {
        present_pieces(pieces, n - 1) + match pieces[n - 1] {
            Some(p) => seq![p],
            None => Seq::empty(),
        }
    }
}

/// A piece's entries as text along the first `n` directions: an empty text
/// where the ray meets no piece, the sequence's text where the extractor
/// finds one, and nothing where it finds none.
pub open spec fn per_piece_updates(pl: Seq<Option<PieceType>>, focus: PieceType, s: int, n: int) -> Seq<
    (Square, Direction, Seq<char>),
>
    decreases n,
{
    if n <= 0 {
        Seq::empty()
    } else {
        let d = dir_at(n - 1);
        per_piece_updates(pl, focus, s, n - 1) + if ray_hits(occupied_of(pl), s, d).len() == 0 {
            seq![(square_at(s), d, Seq::<char>::empty())]
        } else {
            match entry_of(pl, focus, s, d) {
                Some(x) => seq![(square_at(s), d, exchange_text(x))],
                None => Seq::empty(),
            }
        }
    }
}

/// Appends one move's debug text to `out`.
fn push_move(out: &mut String, mv: (Square, Square))
    ensures
        final(out)@ == old(out)@ + move_text(mv),
{
    push_str(out, "(");
    push_square_name(out, mv.0.index());
    push_str(out, ", ");
    push_square_name(out, mv.1.index());
    push_str(out, ")");
    proof {
        assert(final(out)@ =~= old(out)@ + move_text(mv));
    }
}

/// Appends the moves, joined by `, `, to `out`.
fn push_moves(out: &mut String, moves: &Vec<(Square, Square)>)
    ensures
        final(out)@ == old(out)@ + moves_items(moves@, moves@.len() as int),
{
    let ghost base = out@;
    let mut i: usize = 0;
    while i < moves.len()
        invariant
            i <= moves@.len(),
            out@ == base + moves_items(moves@, i as int),
        decreases moves@.len() - i,
    {
        if i > 0 {
            push_str(out, ", ");
        }
        push_move(out, moves[i]);
        proof {
            if i > 0 {
                assert(out@ =~= base + (moves_items(moves@, i as int) + ", "@ + move_text(moves@[i as int])));
            } else {
                assert(out@ =~= base + move_text(moves@[0]));
            }
        }
        i = i + 1;
    }
}

/// Appends the checking pieces in brackets, or nothing when there are none, to `out`.
fn push_checks(out: &mut String, checks: &Vec<Pid>)
    ensures
        final(out)@ == old(out)@ + checks_text(checks@.map_values(|p: Pid| p@)),
{
    let ghost c = checks@.map_values(|p: Pid| p@);
    if checks.len() == 0 {
        proof {
            assert(out@ =~= old(out)@ + checks_text(c));
        }
        return;
    }
    push_str(out, "[");
    let ghost base = out@;
    let mut i: usize = 0;
    while i < checks.len()
        invariant
            c == checks@.map_values(|p: Pid| p@),
            i <= c.len(),
            out@ == base + checks_items(c, i as int),
        decreases c.len() - i,
    {
        if i > 0 {
            push_str(out, ",");
        }
        push_str(out, checks[i].as_str());
        proof {
            if i > 0 {
                assert(out@ =~= base + (checks_items(c, i as int) + ","@ + pid_text(c[i as int])));
            } else {
                assert(out@ =~= base + pid_text(c[0]));
            }
        }
        i = i + 1;
    }
    push_str(out, "]");
    proof {
        assert(out@ =~= old(out)@ + checks_text(c));
    }
}

/// Incremental and full update agree. From a board whose maps are current,
/// after the naive move (the pawn taken en passant `victim` and the mover
/// leave, the mover lands), a batch of fresh updates that covers every line
/// through the changed squares and the landed piece's own slots leaves
/// exactly the maps that a full rebuild gives: a slot that no update names
/// has a ray that meets no changed square, so its old sequence is still the
/// fresh one.
#[verifier::rlimit(40)]
pub proof fn lemma_incremental_matches_rebuild(
    v: BoardView,
    w: BoardView,
    all: Seq<(Square, Direction, Option<ExchangeView>)>,
    fi: int,
    ti: int,
    victim: Option<u8>,
)
    requires
        board_wf(v),
        v.current,
        0 <= fi < 64,
        0 <= ti < 64,
        v.pieces[fi] is Some,
        w == naive_move(v, fi, ti),
        match victim {
            Some(c) => ep_victim(v, fi, ti) == Some(c as int) && c < 64,
            None => ep_victim(v, fi, ti) is None,
        },
        updates_correct(w, all),
        lines_refreshed(w, all, fi),
        lines_refreshed(w, all, ti),
        victim matches Some(c) ==> lines_refreshed(w, all, c as int),
        forall|j: int| 0 <= j < 16 ==> has_update(all, ti, #[trigger] dir_at(j)),
    ensures
        after_updates(w, all) == rebuilt(w).pieces,
{
    let plv = placement(v.pieces);
    let plw = placement(w.pieces);
    assert forall|t: int| 0 <= t < 64 && t != fi && t != ti && !(victim matches Some(c) && t == c as int)
        implies #[trigger] plw[t] == plv[t] && w.pieces[t] == v.pieces[t] by {}
    assert forall|q: int| 0 <= q < 64 implies #[trigger] after_updates(w, all)[q] == rebuilt(w).pieces[q] by {
        if let Some(p) = w.pieces[q] {
            assert forall|j: int| 0 <= j < 16 implies #[trigger] after_updates(w, all)[q]->0.exchangers[j]
                == entries_of(plw, p.pid.kind, q)[j] by {
                let e = dir_at(j);
                if !has_update(all, q, e) {
                    assert(q != ti);
                    assert(w.pieces[q] == v.pieces[q]);
                    assert forall|k: int| 1 <= k <= ray_len(q, e) implies plv[#[trigger] ray_square(q, e, k)]
                        == plw[ray_square(q, e, k)] by {
                        let t = ray_square(q, e, k);
                        lemma_ray_symmetric(q, e, k);
                        lemma_ray_len(q, e);
                        lemma_ray_square(q, e, k);
                        lemma_direction_facts(e);
                        let oe = opposite_of(e);
                        lemma_direction_facts(oe);
                        let jj = dir_index(oe);
                        assert(dir_at(jj) == oe);
                        assert(ray_square(t, dir_at(jj), k) == q);
                        if t == fi || t == ti || (victim matches Some(c) && t == c as int) {
                            assert(has_update(all, ray_square(t, dir_at(jj), k), opposite_of(dir_at(jj))));
                            assert(false);
                        }
                    }
                    lemma_entry_frame(plv, plw, p.pid.kind, q, e);
                    assert(v.pieces[q]->0.exchangers == entries_of(plv, p.pid.kind, q));
                }
            }
            assert(after_updates(w, all)[q]->0.exchangers =~= entries_of(plw, p.pid.kind, q));
        }
    }
    assert(after_updates(w, all) =~= rebuilt(w).pieces);
}

impl Board {
    /// The board's invariant holds.
    pub open spec fn wf(&self) -> bool {
        board_wf(self@)
    }

    /// An empty board, White to move.
    pub fn new() -> (r: Self)
        ensures
            r.wf(),
            r@ == (BoardView {
                pieces: Seq::new(64, |i: int| None),
                occupied: 0,
                moves: Seq::empty(),
                turn: Side::White,
                checks: Seq::empty(),
                en_passant: None,
                current: true,
            }),
    {
        let mut pieces: Vec<Option<Piece>> = Vec::new();
        let mut i: usize = 0;
        while i < 64
            invariant
                i <= 64,
                pieces@.len() == i,
                forall|j: int| 0 <= j < i ==> #[trigger] pieces@[j] is None,
            decreases 64 - i,
        {
            pieces.push(None);
            i = i + 1;
        }
        let r = Board {
            pieces,
            occupied: 0,
            moves: Vec::new(),
            turn: Side::White,
            checks: Vec::new(),
            capture_square_en_passant: None,
            exchangers_current: true,
        };
        proof {
            assert(r@.pieces =~= Seq::new(64, |i: int| None));
            assert(r@.checks =~= Seq::empty());
            assert forall|i: int| 0 <= i < 64 implies bit_set(0u64, i as u64) == (
            #[trigger] r@.pieces[i] is Some) by {
                lemma_bit_zero(i as u64);
            }
        }
        r
    }

    /// The piece on a square, if any.
    pub fn get_piece_on(&self, square: Square) -> (r: Option<&Piece>)
        requires
            self.wf(),
        ensures
            match r {
                Some(p) => self@.pieces[square_index(square)] == Some(p@),
                None => self@.pieces[square_index(square)] is None,
            },
    {
        let i = square.index() as usize;
        match &self.pieces[i] {
            Some(p) => Some(p),
            None => None,
        }
    }

    /// Whether a square holds a piece.
    pub fn is_square_occupied(&self, sq: Square) -> (r: bool)
        requires
            self.wf(),
        ensures
            r == self@.pieces[square_index(sq)] is Some,
    {
        self.pieces[sq.index() as usize].is_some()
    }

    /// The occupancy word: bit `i` set when square `i` holds a piece.
    pub fn get_occupied_bitboard(&self) -> (r: u64)
        ensures
            r == self@.occupied,
    {
        self.occupied
    }

    /// The side to move.
    pub fn turn(&self) -> (r: Side)
        ensures
            r == self@.turn,
    {
        self.turn
    }

    /// The en-passant target square, if the last move left one.
    pub fn en_passant_square(&self) -> (r: Option<Square>)
        ensures
            r == self@.en_passant,
    {
        self.capture_square_en_passant
    }

    /// The pieces giving check to the side to move, as the last move left them.
    pub fn checks(&self) -> (r: &Vec<Pid>)
        ensures
            r@.map_values(|p: Pid| p@) == self@.checks,
    {
        &self.checks
    }

    /// The moves made so far.
    pub fn moves(&self) -> (r: &Vec<(Square, Square)>)
        ensures
            r@ == self@.moves,
    {
        &self.moves
    }

    /// The exchanger sequence that a piece of type `focus` on square `s`
    /// would have along `d`: a fresh ray cast and extraction.
    #[verifier::rlimit(40)]
    fn entry_at(&self, s: u8, d: Direction, focus: PieceType) -> (r: Option<Exchange>)
        requires
            layout_wf(self@),
            s < 64,
        ensures
            opt_view(r) == entry_of(placement(self@.pieces), focus, s as int, d),
    {
        let ghost pl = placement(self@.pieces);
        proof {
            lemma_occupancy(self@.pieces, self.occupied);
            lemma_ray_bounded(occupied_of(pl), s as int, d);
        }
        match cast_ray(s, d, self.occupied) {
            None => {
                proof {
                    assert(ray_line(pl, s as int, d).len() == 0);
                }
                None
            },
            Some(path) => {
                let ghost hits = ray_hits(occupied_of(pl), s as int, d);
                let mut line: Vec<(u8, PieceType)> = Vec::new();
                let mut i: usize = 0;
                while i < path.squares.len()
                    invariant
                        layout_wf(self@),
                        pl == placement(self@.pieces),
                        path.squares@.map_values(|x: u8| x as int) == hits,
                        hits == ray_hits(occupied_of(pl), s as int, d),
                        ray_line(pl, s as int, d).len() == hits.len(),
                        hits.len() == path.squares@.len(),
                        forall|k: int| 0 <= k < hits.len() ==> 0 <= #[trigger] hits[k] < 64 && occupied_of(pl)[hits[k]],
                        i <= path.squares@.len(),
                        line_view(line@) == ray_line(pl, s as int, d).subrange(0, i as int),
                        forall|k: int| 0 <= k < line@.len() ==> #[trigger] line@[k].0 < 64,
                    decreases path.squares@.len() - i,
                {
                    let q = path.squares[i];
                    assert(hits[i as int] == q as int);
                    let kind = match &self.pieces[q as usize] {
                        Some(p) => p.pid().kind(),
                        None => {
                            proof {
                                assert(occupied_of(pl)[q as int]);
                                assert(false);
                            }
                            PieceType::WhiteKing
                        },
                    };
                    proof {
                        assert(pl[q as int] == Some(kind));
                        assert(hits == ray_hits(occupied_of(pl), s as int, d));
                        assert(ray_line(pl, s as int, d)[i as int] == PidView {
                            square: hits[i as int],
                            kind: pl[hits[i as int]]->0,
                        });
                        assert(ray_line(pl, s as int, d)[i as int] == PidView { square: q as int, kind });
                    }
                    let ghost prev = line@;
                    line.push((q, kind));
                    i = i + 1;
                    proof {
                        assert(line_view(line@) =~= line_view(prev).push(
                            PidView { square: q as int, kind },
                        ));
                        assert(line_view(line@) =~= ray_line(pl, s as int, d).subrange(0, i as int));
                    }
                }
                proof {
                    assert(line_view(line@) =~= ray_line(pl, s as int, d));
                }
                extract_pid_seq(focus, d, path.distant, &line)
            },
        }
    }

    /// The sixteen exchanger sequences, in compass order, that a piece of type
    /// `focus` on square `s` has.
    fn entries_for(&self, s: u8, focus: PieceType) -> (r: Vec<Option<Exchange>>)
        requires
            layout_wf(self@),
            s < 64,
        ensures
            r@.map_values(|o: Option<Exchange>| opt_view(o)) == entries_of(
                placement(self@.pieces),
                focus,
                s as int,
            ),
    {
        let ghost pl = placement(self@.pieces);
        let mut r: Vec<Option<Exchange>> = Vec::new();
        let mut j: u8 = 0;
        while j < 16
            invariant
                layout_wf(self@),
                s < 64,
                pl == placement(self@.pieces),
                j <= 16,
                r@.map_values(|o: Option<Exchange>| opt_view(o)) == entries_of(pl, focus, s as int).subrange(
                    0,
                    j as int,
                ),
            decreases 16 - j,
        {
            let d = Direction::from_index(j);
            let e = self.entry_at(s, d, focus);
            let ghost prev = r@;
            let ghost ev = opt_view(e);
            r.push(e);
            j = j + 1;
            proof {
                assert(r@.map_values(|o: Option<Exchange>| opt_view(o)) =~= prev.map_values(
                    |o: Option<Exchange>| opt_view(o),
                ).push(ev));
                assert(r@.map_values(|o: Option<Exchange>| opt_view(o)) =~= entries_of(
                    pl,
                    focus,
                    s as int,
                ).subrange(0, j as int));
            }
        }
        proof {
            assert(r@.map_values(|o: Option<Exchange>| opt_view(o)) =~= entries_of(pl, focus, s as int));
        }
        r
    }

    /// Rebuilds every piece's exchanger map from scratch: for each piece and
    /// each of the sixteen directions, a ray cast and an extraction.
    #[verifier::rlimit(40)]
    pub fn build_all_xchngrs(&mut self)
        requires
            old(self).wf(),
        ensures
            final(self).wf(),
            final(self)@ == rebuilt(old(self)@),
    {
        let ghost v = self@;
        let ghost pl = placement(self@.pieces);
        let mut fresh: Vec<Option<Piece>> = Vec::new();
        let mut i: u8 = 0;
        while i < 64
            invariant
                self.wf(),
                self@ == v,
                pl == placement(v.pieces),
                i <= 64,
                fresh@.map_values(|o: Option<Piece>| piece_opt_view(o)) == rebuilt(v).pieces.subrange(
                    0,
                    i as int,
                ),
            decreases 64 - i,
        {
            let slot = match &self.pieces[i as usize] {
                Some(p) => {
                    let es = self.entries_for(i, p.pid().kind());
                    Some(Piece::with_exchangers(p.pid().clone(), es))
                },
                None => None,
            };
            let ghost prev = fresh@;
            let ghost sv = piece_opt_view(slot);
            assert(sv == rebuilt(v).pieces[i as int]);
            fresh.push(slot);
            i = i + 1;
            proof {
                assert(fresh@.map_values(|o: Option<Piece>| piece_opt_view(o)) =~= prev.map_values(
                    |o: Option<Piece>| piece_opt_view(o),
                ).push(sv));
                assert(fresh@.map_values(|o: Option<Piece>| piece_opt_view(o)) =~= rebuilt(
                    v,
                ).pieces.subrange(0, i as int));
            }
        }
        self.pieces = fresh;
        self.exchangers_current = true;
        proof {
            assert(self@.pieces =~= rebuilt(v).pieces);
            assert(self@.checks =~= v.checks);
            lemma_rebuilt_wf(v);
        }
    }

    /// Puts a piece on its square, replacing whatever stood there. The
    /// exchanger maps are stale afterwards, until rebuilt.
    pub fn place_piece(&mut self, piece: Piece)
        requires
            old(self).wf(),
            piece.wf(),
        ensures
            final(self).wf(),
            final(self)@ == (BoardView {
                pieces: old(self)@.pieces.update(piece@.pid.square, Some(piece@)),
                occupied: old(self)@.occupied | (1u64 << (piece@.pid.square as u64)),
                current: false,
                ..old(self)@
            }),
    {
        let ghost v = self@;
        let ghost pv = piece@;
        let sq = piece.pid().square();
        self.pieces.set(sq as usize, Some(piece));
        self.occupied = self.occupied | (1u64 << sq);
        self.exchangers_current = false;
        proof {
            assert(self@.pieces =~= v.pieces.update(sq as int, Some(pv)));
            assert(self@.checks =~= v.checks);
            assert forall|j: int| 0 <= j < 64 implies bit_set(self.occupied, j as u64) == (
            #[trigger] self@.pieces[j] is Some) by {
                lemma_bit_set(v.occupied, sq as u64, j as u64);
            }
        }
    }

    /// Takes the piece off a square, if one stands there; the exchanger maps
    /// are stale afterwards, until rebuilt.
    pub fn remove_piece_from(&mut self, sq: Square)
        requires
            old(self).wf(),
        ensures
            final(self).wf(),
            final(self)@ == if old(self)@.pieces[square_index(sq)] is Some {
                BoardView {
                    pieces: old(self)@.pieces.update(square_index(sq), None),
                    occupied: old(self)@.occupied & !(1u64 << (square_index(sq) as u64)),
                    current: false,
                    ..old(self)@
                }
            } else {
                old(self)@
            },
    {
        let i = sq.index();
        if self.pieces[i as usize].is_some() {
            self.vacate(i);
            self.exchangers_current = false;
        }
    }

    /// Empties square `i` and clears its bit, leaving the exchanger maps as they are.
    fn vacate(&mut self, i: u8)
        requires
            layout_wf(old(self)@),
            i < 64,
        ensures
            pieces_wf(final(self)@.pieces),
            coherent(final(self)@.pieces, final(self)@.occupied),
            final(self)@ == (BoardView {
                pieces: old(self)@.pieces.update(i as int, None),
                occupied: old(self)@.occupied & !(1u64 << (i as u64)),
                ..old(self)@
            }),
    {
        let ghost v = self@;
        self.pieces.set(i as usize, None);
        self.occupied = self.occupied & !(1u64 << i);
        proof {
            assert(self@.pieces =~= v.pieces.update(i as int, None));
            assert(self@.checks =~= v.checks);
            assert forall|j: int| 0 <= j < 64 implies bit_set(self.occupied, j as u64) == (
            #[trigger] self@.pieces[j] is Some) by {
                lemma_bit_clear(v.occupied, i as u64, j as u64);
            }
        }
    }

    /// Removes every piece.
    pub fn clear(&mut self)
        requires
            old(self).wf(),
        ensures
            final(self).wf(),
            final(self)@ == (BoardView {
                pieces: Seq::new(64, |i: int| None),
                occupied: 0,
                current: true,
                ..old(self)@
            }),
    {
        let ghost v = self@;
        let mut i: u8 = 0;
        while i < 64
            invariant
                old(self).wf(),
                i <= 64,
                self.pieces@.len() == 64,
                self.moves@ == v.moves,
                self.turn == v.turn,
                self.checks@ == old(self).checks@,
                self.capture_square_en_passant == v.en_passant,
                v == old(self)@,
                forall|j: int| 0 <= j < i ==> #[trigger] self.pieces@[j] is None,
            decreases 64 - i,
        {
            self.pieces.set(i as usize, None);
            i = i + 1;
        }
        self.occupied = 0;
        self.exchangers_current = true;
        proof {
            assert(self@.pieces =~= Seq::new(64, |i: int| None));
            assert forall|j: int| 0 <= j < 64 implies bit_set(0u64, j as u64) == (
            #[trigger] self@.pieces[j] is Some) by {
                lemma_bit_zero(j as u64);
            }
        }
    }

    /// The square of the pawn that a move from `fi` to `ti` takes en passant, if any.
    fn en_passant_victim(&self, fi: u8, ti: u8) -> (r: Option<u8>)
        requires
            layout_wf(self@),
            fi < 64,
            ti < 64,
        ensures
            match r {
                Some(c) => ep_victim(self@, fi as int, ti as int) == Some(c as int) && c < 64,
                None => ep_victim(self@, fi as int, ti as int) is None,
            },
    {
        let is_pawn = match &self.pieces[fi as usize] {
            Some(p) => p.pid().kind().basic() == BasicPieceType::Pawn,
            None => false,
        };
        match self.capture_square_en_passant {
            Some(ep) => {
                proof {
                    lemma_square_index_round_trip(ep);
                    lemma_square_at_round_trip(ti as int);
                }
                if is_pawn && ep.index() == ti {
                    let rank: u8 = if ti / 8 == 5 {
                        4
                    } else {
                        3
                    };
                    proof {
                        lemma_square_coordinates(ti as int % 8, rank as int);
                    }
                    Some(rank * 8 + ti % 8)
                } else {
                    None
                }
            },
            None => None,
        }
    }

    /// Puts a piece on square `i`, which its identifier names, and sets its bit.
    fn occupy(&mut self, i: u8, piece: Piece)
        requires
            layout_wf(old(self)@),
            i < 64,
            piece@.pid.square == i,
            piece.wf(),
        ensures
            layout_wf(final(self)@),
            final(self)@ == (BoardView {
                pieces: old(self)@.pieces.update(i as int, Some(piece@)),
                occupied: old(self)@.occupied | (1u64 << (i as u64)),
                ..old(self)@
            }),
    {
        let ghost v = self@;
        let ghost pv = piece@;
        self.pieces.set(i as usize, Some(piece));
        self.occupied = self.occupied | (1u64 << i);
        proof {
            assert(self@.pieces =~= v.pieces.update(i as int, Some(pv)));
            assert(self@.checks =~= v.checks);
            assert forall|j: int| 0 <= j < 64 implies bit_set(self.occupied, j as u64) == (
            #[trigger] self@.pieces[j] is Some) by {
                lemma_bit_set(v.occupied, i as u64, j as u64);
            }
        }
    }

    /// Makes the move on the placement only: the pawn taken en passant and
    /// the mover leave, the mover lands. Returns the square of the pawn taken
    /// en passant, if any.
    fn apply_naive_move(&mut self, fi: u8, ti: u8) -> (r: Option<u8>)
        requires
            layout_wf(old(self)@),
            fi < 64,
            ti < 64,
            old(self)@.pieces[fi as int] is Some,
        ensures
            layout_wf(final(self)@),
            final(self)@ == naive_move(old(self)@, fi as int, ti as int),
            match r {
                Some(c) => ep_victim(old(self)@, fi as int, ti as int) == Some(c as int) && c < 64,
                None => ep_victim(old(self)@, fi as int, ti as int) is None,
            },
    {
        let ghost v = self@;
        let mover = match &self.pieces[fi as usize] {
            Some(p) => p.pid().kind(),
            None => PieceType::WhiteKing,
        };
        let victim = self.en_passant_victim(fi, ti);
        if let Some(c) = victim {
            self.vacate(c);
            self.capture_square_en_passant = None;
        }
        self.vacate(fi);
        let piece = Piece::new(Pid::from_parts(ti, mover));
        self.occupy(ti, piece);
        self.exchangers_current = false;
        proof {
            assert(self@.pieces =~= naive_move(v, fi as int, ti as int).pieces);
        }
        victim
    }

    /// Records the end of a move of a piece of letter `piece_type` from
    /// `from` to `to`: lists the pieces now giving check to the other side's
    /// king, sets the en-passant target, and passes the turn.
    #[verifier::rlimit(40)]
    pub fn update_status(&mut self, from: Square, to: Square, piece_type: char)
        requires
            old(self).wf(),
        ensures
            final(self).wf(),
            final(self)@ == status_after(
                old(self)@,
                square_index(from),
                square_index(to),
                piece_type,
            ),
    {
        let ghost v = self@;
        let mover = self.turn;
        let mut checks: Vec<Pid> = Vec::new();
        let mut i: u8 = 0;
        while i < 64
            invariant
                self@ == v,
                board_wf(v),
                mover == v.turn,
                i <= 64,
                checks@.map_values(|p: Pid| p@) == checks_upto(v.pieces, mover, i as int),
            decreases 64 - i,
        {
            let ghost prev = checks@.map_values(|p: Pid| p@);
            if let Some(p) = &self.pieces[i as usize] {
                let kind = p.pid().kind();
                if kind.basic() == BasicPieceType::King && kind.side() != mover {
                    let ghost start = checks@.map_values(|p: Pid| p@);
                    let mut j: u8 = 0;
                    while j < 16
                        invariant
                            board_wf(v),
                            v.pieces[i as int] == Some(p@),
                            kind == p@.pid.kind,
                            j <= 16,
                            i < 64,
                            checks@.map_values(|p: Pid| p@) == start + king_checks(p@, j as int),
                        decreases 16 - j,
                    {
                        let d = Direction::from_index(j);
                        let ghost before = checks@.map_values(|p: Pid| p@);
                        if let Some(x) = p.exchanger(d) {
                            if x.kind == SeqKind::Exchangers && x.pids.len() > 0 && x.pids[0].kind().side()
                                != kind.side() {
                                let c = x.pids[0].clone();
                                let ghost cv = c@;
                                checks.push(c);
                                proof {
                                    assert(checks@.map_values(|p: Pid| p@) =~= before.push(cv));
                                }
                            }
                        }
                        j = j + 1;
                        proof {
                            assert(checks@.map_values(|p: Pid| p@) =~= start + king_checks(p@, j as int));
                        }
                    }
                }
            }
            i = i + 1;
            proof {
                assert(checks@.map_values(|p: Pid| p@) =~= checks_upto(v.pieces, mover, i as int));
            }
        }
        self.checks = checks;
        self.capture_square_en_passant = self.en_passant_after(from, to, piece_type);
        self.turn = match mover {
            Side::White => Side::Black,
            Side::Black => Side::White,
        };
    }

    /// Whether square `q` holds a pawn of the side other than `mover`.
    fn has_enemy_pawn(&self, q: u8, mover: Side) -> (r: bool)
        requires
            layout_wf(self@),
            q < 64,
        ensures
            r == enemy_pawn_at(self@, q as int, mover),
    {
        match &self.pieces[q as usize] {
            Some(p) => p.pid().kind().basic() == BasicPieceType::Pawn && p.pid().kind().side() != mover,
            None => false,
        }
    }

    /// The en-passant target left by a move of a piece of letter `pc` from `from` to `to`.
    fn en_passant_after(&self, from: Square, to: Square, pc: char) -> (r: Option<Square>)
        requires
            layout_wf(self@),
        ensures
            r == ep_target_after(self@, square_index(from), square_index(to), pc),
    {
        let fi = from.index();
        let ti = to.index();
        let fr = fi / 8;
        let tr = ti / 8;
        let tf = ti % 8;
        let two = fr >= tr + 2 && fr - tr == 2 || tr >= fr + 2 && tr - fr == 2;
        if !((pc == 'P' || pc == 'p') && two) {
            return None;
        }
        let beside = (tf != 0 && self.has_enemy_pawn(ti - 1, self.turn)) || (tf != 7
            && self.has_enemy_pawn(ti + 1, self.turn));
        if !beside {
            return None;
        }
        let rank: u8 = if tr == 4 {
            5
        } else {
            2
        };
        proof {
            lemma_square_coordinates(tf as int, rank as int);
        }
        Some(Square::from_index(rank * 8 + tf))
    }

    /// Makes a move and rebuilds every exchanger map from scratch: the
    /// correctness baseline. No board results when `from` is empty.
    #[verifier::rlimit(40)]
    pub fn full_process_move(&self, from: Square, to: Square) -> (r: Option<Board>)
        requires
            self.wf(),
        ensures
            r is None <==> self@.pieces[square_index(from)] is None,
            r matches Some(b) ==> b.wf() && b@ == moved(self@, square_index(from), square_index(to)),
    {
        let fi = from.index();
        let ti = to.index();
        let mover = match &self.pieces[fi as usize] {
            Some(p) => p.pid().kind(),
            None => return None,
        };
        let mut nb = self.clone();
        nb.apply_naive_move(fi, ti);
        proof {
            lemma_rebuilt_wf(nb@);
        }
        nb.build_all_xchngrs();
        nb.finish_move(from, to, mover, Ghost(self@));
        Some(nb)
    }

    /// The vacate phase: for every piece on a line through `vacated`, the
    /// update of its slot facing that square, computed afresh on this board.
    pub fn assess_vacated(&self, vacated: Square) -> (r: Vec<(Square, Direction, Option<Exchange>)>)
        requires
            self.wf(),
        ensures
            updates_correct(self@, updates_view(r@)),
            lines_refreshed(self@, updates_view(r@), square_index(vacated)),
    {
        self.refresh_lines_through(vacated.index())
    }

    /// The land phase: the landed piece's own sequences in all sixteen
    /// directions, and for every piece on a line through `landed`, the update
    /// of its slot facing that square.
    #[verifier::rlimit(40)]
    pub fn assess_landed(&self, landed: Square) -> (r: Vec<(Square, Direction, Option<Exchange>)>)
        requires
            self.wf(),
        ensures
            updates_correct(self@, updates_view(r@)),
            lines_refreshed(self@, updates_view(r@), square_index(landed)),
            self@.pieces[square_index(landed)] is Some ==> forall|j: int|
                0 <= j < 16 ==> has_update(updates_view(r@), square_index(landed), #[trigger] dir_at(j)),
    {
        let t = landed.index();
        let ghost v = self@;
        let mut own: Vec<(Square, Direction, Option<Exchange>)> = Vec::new();
        if let Some(p) = &self.pieces[t as usize] {
            let kind = p.pid().kind();
            let mut j: u8 = 0;
            while j < 16
                invariant
                    layout_wf(v),
                    self@ == v,
                    t < 64,
                    t as int == square_index(landed),
                    v.pieces[t as int] == Some(p@),
                    kind == p@.pid.kind,
                    j <= 16,
                    own@.len() == j,
                    forall|u: int| 0 <= u < j ==> #[trigger] own@[u].0 == landed && own@[u].1 == dir_at(u),
                    updates_correct(v, updates_view(own@)),
                decreases 16 - j,
            {
                let d = Direction::from_index(j);
                let e = self.entry_at(t, d, kind);
                let ghost before = own@;
                own.push((landed, d, e));
                j = j + 1;
                proof {
                    assert forall|u: int| 0 <= u < updates_view(own@).len() implies v.pieces[square_index(
                        (#[trigger] updates_view(own@)[u]).0,
                    )] is Some && updates_view(own@)[u].2 == fresh_entry(
                        v,
                        square_index(updates_view(own@)[u].0),
                        updates_view(own@)[u].1,
                    ) by {
                        if u < before.len() {
                            assert(own@[u] == before[u]);
                            assert(updates_view(own@)[u] == updates_view(before)[u]);
                        }
                    }
                }
            }
            proof {
                assert forall|j: int| 0 <= j < 16 implies has_update(
                    updates_view(own@),
                    square_index(landed),
                    #[trigger] dir_at(j),
                ) by {
                    assert(updates_view(own@)[j].0 == landed);
                }
            }
        }
        let mut lines = self.refresh_lines_through(t);
        let ghost a = updates_view(own@);
        let ghost b = updates_view(lines@);
        own.append(&mut lines);
        proof {
            assert(updates_view(own@) =~= a + b);
            lemma_updates_concat(v, a, b);
            if v.pieces[t as int] is Some {
                assert forall|j: int| 0 <= j < 16 implies has_update(
                    updates_view(own@),
                    square_index(landed),
                    #[trigger] dir_at(j),
                ) by {
                    assert(has_update(a, square_index(landed), dir_at(j)));
                    let u = choose|u: int|
                        0 <= u < a.len() && square_index((#[trigger] a[u]).0) == square_index(landed)
                            && a[u].1 == dir_at(j);
                    assert((a + b)[u] == a[u]);
                }
            }
        }
        own
    }

    /// For every piece on a line through square `c`, the update of its slot
    /// facing `c`: the slots whose rays a change on `c` can alter.
    #[verifier::rlimit(40)]
    fn refresh_lines_through(&self, c: u8) -> (r: Vec<(Square, Direction, Option<Exchange>)>)
        requires
            layout_wf(self@),
            c < 64,
        ensures
            updates_correct(self@, updates_view(r@)),
            lines_refreshed(self@, updates_view(r@), c as int),
    {
        let ghost v = self@;
        let mut updates: Vec<(Square, Direction, Option<Exchange>)> = Vec::new();
        let mut j: u8 = 0;
        while j < 16
            invariant
                layout_wf(v),
                self@ == v,
                c < 64,
                j <= 16,
                updates_correct(v, updates_view(updates@)),
                forall|jj: int, k: int|
                    0 <= jj < j && 1 <= k <= ray_len(c as int, dir_at(jj)) && v.pieces[#[trigger] ray_square(
                        c as int,
                        dir_at(jj),
                        k,
                    )] is Some ==> has_update(
                        updates_view(updates@),
                        ray_square(c as int, dir_at(jj), k),
                        opposite_of(dir_at(jj)),
                    ),
            decreases 16 - j,
        {
            let d = Direction::from_index(j);
            let od = d.opposite();
            let n = ray_length(c, d);
            proof {
                lemma_ray_len(c as int, d);
            }
            let mut k: u8 = 1;
            while k <= n
                invariant
                    layout_wf(v),
                    self@ == v,
                    c < 64,
                    j < 16,
                    d == dir_at(j as int),
                    od == opposite_of(d),
                    n == ray_len(c as int, d),
                    n <= 7,
                    1 <= k <= n + 1,
                    updates_correct(v, updates_view(updates@)),
                    forall|jj: int, k: int|
                        0 <= jj < j && 1 <= k <= ray_len(c as int, dir_at(jj)) && v.pieces[#[trigger] ray_square(
                            c as int,
                            dir_at(jj),
                            k,
                        )] is Some ==> has_update(
                            updates_view(updates@),
                            ray_square(c as int, dir_at(jj), k),
                            opposite_of(dir_at(jj)),
                        ),
                    forall|kk: int|
                        1 <= kk < k && v.pieces[#[trigger] ray_square(c as int, d, kk)] is Some
                            ==> has_update(updates_view(updates@), ray_square(c as int, d, kk), od),
                decreases n + 1 - k,
            {
                let q = ray_square_at(c, d, k);
                if let Some(p) = &self.pieces[q as usize] {
                    let e = self.entry_at(q, od, p.pid().kind());
                    let sq = Square::from_index(q);
                    let ghost before = updates_view(updates@);
                    updates.push((sq, od, e));
                    proof {
                        let after = updates_view(updates@);
                        assert(after =~= before.push((sq, od, opt_view(e))));
                        assert forall|u: int| 0 <= u < before.len() implies #[trigger] after[u] == before[u] by {}
                        assert forall|u: int| 0 <= u < after.len() implies v.pieces[square_index(
                            (#[trigger] after[u]).0,
                        )] is Some && after[u].2 == fresh_entry(v, square_index(after[u].0), after[u].1) by {
                            if u < before.len() {
                                assert(after[u] == before[u]);
                            }
                        }
                        assert forall|jj: int, kk: int|
                            0 <= jj < j && 1 <= kk <= ray_len(c as int, dir_at(jj)) && v.pieces[#[trigger] ray_square(
                                c as int,
                                dir_at(jj),
                                kk,
                            )] is Some implies has_update(
                            after,
                            ray_square(c as int, dir_at(jj), kk),
                            opposite_of(dir_at(jj)),
                        ) by {
                            lemma_has_update_extend(before, after, ray_square(c as int, dir_at(jj), kk), opposite_of(dir_at(jj)));
                        }
                        assert forall|kk: int|
                            1 <= kk < k + 1 && v.pieces[#[trigger] ray_square(c as int, d, kk)] is Some
                                implies has_update(after, ray_square(c as int, d, kk), od) by {
                            if kk < k {
                                lemma_has_update_extend(before, after, ray_square(c as int, d, kk), od);
                            } else {
                                assert(after[before.len() as int].0 == sq);
                            }
                        }
                    }
                }
                k = k + 1;
            }
            j = j + 1;
            proof {
                assert forall|jj: int, kk: int|
                    0 <= jj < j && 1 <= kk <= ray_len(c as int, dir_at(jj)) && v.pieces[#[trigger] ray_square(
                        c as int,
                        dir_at(jj),
                        kk,
                    )] is Some implies has_update(
                    updates_view(updates@),
                    ray_square(c as int, dir_at(jj), kk),
                    opposite_of(dir_at(jj)),
                ) by {
                    if jj == j - 1 {
                        assert(dir_at(jj) == d);
                    }
                }
            }
        }
        updates
    }

    /// Replaces the exchanger sequence in slot `j` of the piece on square `q`.
    fn set_entry(&mut self, q: u8, j: usize, e: Option<Exchange>)
        requires
            layout_wf(old(self)@),
            q < 64,
            j < 16,
            old(self)@.pieces[q as int] is Some,
        ensures
            layout_wf(final(self)@),
            final(self)@ == (BoardView {
                pieces: old(self)@.pieces.update(
                    q as int,
                    Some(
                        PieceView {
                            pid: old(self)@.pieces[q as int]->0.pid,
                            exchangers: old(self)@.pieces[q as int]->0.exchangers.update(
                                j as int,
                                opt_view(e),
                            ),
                        },
                    ),
                ),
                ..old(self)@
            }),
    {
        let ghost v = self@;
        let mut slot: Option<Piece> = None;
        self.pieces.set_and_swap(q as usize, &mut slot);
        if let Some(mut p) = slot {
            p.set_exchanger(j, e);
            self.pieces.set(q as usize, Some(p));
        }
        proof {
            assert(self@.pieces =~= v.pieces.update(
                q as int,
                Some(
                    PieceView {
                        pid: v.pieces[q as int]->0.pid,
                        exchangers: v.pieces[q as int]->0.exchangers.update(j as int, opt_view(e)),
                    },
                ),
            ));
            assert(self@.checks =~= v.checks);
        }
    }

    /// Applies a batch of updates at once.
    #[verifier::rlimit(40)]
    fn apply_updates(&mut self, ups: Vec<(Square, Direction, Option<Exchange>)>)
        requires
            layout_wf(old(self)@),
            updates_correct(old(self)@, updates_view(ups@)),
        ensures
            layout_wf(final(self)@),
            final(self)@ == (BoardView {
                pieces: after_updates(old(self)@, updates_view(ups@)),
                ..old(self)@
            }),
    {
        let ghost v = self@;
        let ghost all = updates_view(ups@);
        let mut rest = ups;
        proof {
            assert(after_updates(v, all.subrange(all.len() as int, all.len() as int)) =~= v.pieces) by {
                assert forall|q: int| 0 <= q < 64 implies #[trigger] after_updates(v, all.subrange(all.len() as int, all.len() as int))[q] == v.pieces[q] by {
                    if let Some(p) = v.pieces[q] {
                        assert(p.exchangers.map(|j: int, x: Option<ExchangeView>| if has_update(all.subrange(all.len() as int, all.len() as int), q, dir_at(j)) { fresh_entry(v, q, dir_at(j)) } else { x }) =~= p.exchangers);
                    }
                }
            }
        }
        while rest.len() > 0
            invariant
                layout_wf(self@),
                v.pieces.len() == 64,
                updates_correct(v, all),
                updates_view(rest@) == all.subrange(0, rest@.len() as int),
                rest@.len() <= all.len(),
                self@ == (BoardView { pieces: after_updates(v, all.subrange(rest@.len() as int, all.len() as int)), ..v }),
            decreases rest@.len(),
        {
            let ghost m = rest@.len() as int;
            let ghost old_rest = rest@;
            let u = rest.pop().unwrap();
            let ghost uv = update_view(u);
            assert(u == old_rest[m - 1]);
            assert(updates_view(old_rest)[m - 1] == all.subrange(0, m)[m - 1]);
            assert(uv == all[m - 1]);
            let q = u.0.index();
            let j = u.1.index() as usize;
            proof {
                lemma_square_index_round_trip(u.0);
                assert(v.pieces[q as int] is Some);
                assert(updates_view(rest@) =~= all.subrange(0, rest@.len() as int));
            }
            self.set_entry(q, j, u.2);
            proof {
                let old_done = all.subrange(m, all.len() as int);
                let done = all.subrange(m - 1, all.len() as int);
                assert forall|qq: int, d: Direction| #[trigger] has_update(done, qq, d) == (has_update(old_done, qq, d) || (qq == q && d == u.1)) by {
                    if has_update(old_done, qq, d) {
                        let w = choose|w: int| 0 <= w < old_done.len() && square_index((#[trigger] old_done[w]).0) == qq && old_done[w].1 == d;
                        assert(done[w + 1] == old_done[w]);
                    }
                    if qq == q && d == u.1 {
                        assert(done[0] == uv);
                    }
                    if has_update(done, qq, d) {
                        let w = choose|w: int| 0 <= w < done.len() && square_index((#[trigger] done[w]).0) == qq && done[w].1 == d;
                        if w > 0 {
                            assert(old_done[w - 1] == done[w]);
                        }
                    }
                }
                assert forall|qq: int| 0 <= qq < 64 implies #[trigger] self@.pieces[qq] == after_updates(v, done)[qq] by {
                    lemma_dir_at_index(j as int);
                    lemma_direction_facts(u.1);
                    if let Some(p) = v.pieces[qq] {
                        if qq == q {
                            assert(self@.pieces[qq]->0.exchangers =~= after_updates(v, done)[qq]->0.exchangers);
                        } else {
                            assert(self@.pieces[qq]->0.exchangers =~= after_updates(v, done)[qq]->0.exchangers);
                        }
                    }
                }
                assert(self@.pieces =~= after_updates(v, done));
            }
        }
        proof {
            assert(all.subrange(0, all.len() as int) =~= all);
        }
    }

    /// Makes a move and brings the exchanger maps up to date incrementally:
    /// only the slots of pieces on lines through the vacated, captured and
    /// landing squares are recomputed, and the landed piece's own; all
    /// updates are collected first and applied as one batch. The result is
    /// exactly the board that a full rebuild gives. A board whose maps are not
    /// current is moved by full rebuild. No board results when `from` is empty.
    #[verifier::rlimit(40)]
    pub fn pre_processed_move(&self, from: Square, to: Square) -> (r: Option<Board>)
        requires
            self.wf(),
        ensures
            r is None <==> self@.pieces[square_index(from)] is None,
            r matches Some(b) ==> b.wf() && b@ == moved(self@, square_index(from), square_index(to)),
    {
        if !self.exchangers_current {
            return self.full_process_move(from, to);
        }
        let fi = from.index();
        let ti = to.index();
        let mover = match &self.pieces[fi as usize] {
            Some(p) => p.pid().kind(),
            None => return None,
        };
        let mut nb = self.clone();
        let victim = nb.apply_naive_move(fi, ti);
        proof {
            lemma_rebuilt_wf(nb@);
        }
        nb.refresh_after_move(from, to, victim, Ghost(self@));
        nb.finish_move(from, to, mover, Ghost(self@));
        Some(nb)
    }

    /// Records a move whose exchanger maps are already rebuilt, and updates
    /// the game state.
    fn finish_move(&mut self, from: Square, to: Square, mover: PieceType, Ghost(v): Ghost<BoardView>)
        requires
            pieces_wf(naive_move(v, square_index(from), square_index(to)).pieces),
            coherent(
                naive_move(v, square_index(from), square_index(to)).pieces,
                naive_move(v, square_index(from), square_index(to)).occupied,
            ),
            v.pieces[square_index(from)] matches Some(p) && p.pid.kind == mover,
            old(self)@ == rebuilt(naive_move(v, square_index(from), square_index(to))),
        ensures
            final(self).wf(),
            final(self)@ == moved(v, square_index(from), square_index(to)),
    {
        let ghost w = naive_move(v, square_index(from), square_index(to));
        proof {
            lemma_rebuilt_wf(w);
            lemma_square_index_round_trip(from);
            lemma_square_index_round_trip(to);
        }
        self.moves.push((from, to));
        proof {
            assert(self@.checks =~= rebuilt(w).checks);
            assert(self@ == BoardView {
                moves: rebuilt(w).moves.push((square_at(square_index(from)), square_at(square_index(to)))),
                ..rebuilt(w)
            });
        }
        self.update_status(from, to, mover.to_char());
    }

    /// The incremental update proper, on the board that the naive move left:
    /// the vacate phase for the mover's square and the square of a pawn taken
    /// en passant, the land phase for the destination, and one batch applied.
    #[verifier::rlimit(40)]
    fn refresh_after_move(&mut self, from: Square, to: Square, victim: Option<u8>, Ghost(v): Ghost<BoardView>)
        requires
            board_wf(v),
            v.current,
            v.pieces[square_index(from)] is Some,
            old(self)@ == naive_move(v, square_index(from), square_index(to)),
            layout_wf(old(self)@),
            match victim {
                Some(c) => ep_victim(v, square_index(from), square_index(to)) == Some(c as int) && c < 64,
                None => ep_victim(v, square_index(from), square_index(to)) is None,
            },
        ensures
            final(self)@ == rebuilt(naive_move(v, square_index(from), square_index(to))),
    {
        let ghost w = self@;
        let mut ups = self.assess_vacated(from);
        if let Some(c) = victim {
            let mut more = self.assess_vacated(Square::from_index(c));
            let ghost a = updates_view(ups@);
            let ghost b = updates_view(more@);
            ups.append(&mut more);
            proof {
                assert(updates_view(ups@) =~= a + b);
                lemma_updates_concat(w, a, b);
            }
        }
        let mut landed = self.assess_landed(to);
        let ghost a = updates_view(ups@);
        let ghost b = updates_view(landed@);
        ups.append(&mut landed);
        proof {
            assert(updates_view(ups@) =~= a + b);
            lemma_updates_concat(w, a, b);
        }
        let ghost all = updates_view(ups@);
        self.apply_updates(ups);
        self.exchangers_current = true;
        proof {
            lemma_incremental_matches_rebuild(v, w, all, square_index(from), square_index(to), victim);
            assert(self@.pieces == rebuilt(w).pieces);
            assert(self@ =~= rebuilt(w));
        }
    }

    /// The ordered textual dump of the board, used to compare boards reached
    /// by different routes.
    #[verifier::rlimit(40)]
    pub fn to_ordered_string(&self) -> (r: String)
        requires
            self.wf(),
        ensures
            r@ == board_text(self@),
    {
        let mut out = String::new();
        push_str(&mut out, "occupied: ");
        push_decimal(&mut out, self.occupied);
        push_str(&mut out, ", moves: [");
        push_moves(&mut out, &self.moves);
        push_str(&mut out, "], turn: ");
        match self.turn {
            Side::White => push_str(&mut out, "White"),
            Side::Black => push_str(&mut out, "Black"),
        }
        push_str(&mut out, ", checks: ");
        push_checks(&mut out, &self.checks);
        push_str(&mut out, ", en_passant: ");
        match self.capture_square_en_passant {
            Some(q) => {
                push_str(&mut out, "Some(");
                push_square_name(&mut out, q.index());
                push_str(&mut out, ")");
            },
            None => push_str(&mut out, "None"),
        }
        push_str(&mut out, "\n");
        proof {
            assert(out@ =~= header_text(self@));
        }
        let ghost head = out@;
        let mut q: usize = 0;
        while q < 64
            invariant
                board_wf(self@),
                q <= 64,
                out@ == head + pieces_text(self@.pieces, q as int),
            decreases 64 - q,
        {
            if let Some(p) = &self.pieces[q] {
                assert(self@.pieces[q as int] == Some(p@));
                p.push_display(&mut out);
                push_str(&mut out, "\n");
            }
            q = q + 1;
            proof {
                assert(out@ =~= head + pieces_text(self@.pieces, q as int));
            }
        }
        out
    }

    /// Places a piece given by its identifier text; an invalid text is
    /// refused with a message and the board is left unchanged.
    pub fn create_and_place_piece(&mut self, piece_identifier: &str) -> (r: Result<(), String>)
        requires
            old(self).wf(),
        ensures
            final(self).wf(),
            is_pid_text(piece_identifier@) ==> r is Ok && final(self)@ == placed(
                old(self)@,
                pid_of_text(piece_identifier@),
            ),
            !is_pid_text(piece_identifier@) ==> (r matches Err(e) && e@ == refusal_text(
                piece_identifier@,
            ) && final(self)@ == old(self)@),
    {
        match Pid::new(piece_identifier) {
            Ok(pid) => {
                let piece = Piece::new(pid);
                self.place_piece(piece);
                Ok(())
            },
            Err(e) => Err(e),
        }
    }

    /// Empties the board and places the pieces of the given identifier texts
    /// in order; returns the refusal messages of the invalid ones.
    #[verifier::rlimit(40)]
    pub fn init_from_pid_list(&mut self, pids: Vec<&str>) -> (r: Vec<String>)
        requires
            old(self).wf(),
        ensures
            final(self).wf(),
            final(self)@ == placed_texts(
                cleared(old(self)@),
                pids@.map_values(|s: &str| s@),
                pids@.len() as int,
            ),
            r@.map_values(|e: String| e@) == refusals(pids@.map_values(|s: &str| s@), pids@.len() as int),
    {
        let ghost texts = pids@.map_values(|s: &str| s@);
        self.clear();
        let ghost start = self@;
        let mut errors: Vec<String> = Vec::new();
        let mut i: usize = 0;
        while i < pids.len()
            invariant
                self.wf(),
                texts == pids@.map_values(|s: &str| s@),
                start == cleared(old(self)@),
                i <= pids@.len(),
                self@ == placed_texts(start, texts, i as int),
                errors@.map_values(|e: String| e@) == refusals(texts, i as int),
            decreases pids@.len() - i,
        {
            let res = self.create_and_place_piece(pids[i]);
            let ghost prev = errors@;
            if let Err(e) = res {
                let ghost ev = e@;
                errors.push(e);
                proof {
                    assert(errors@.map_values(|e: String| e@) =~= prev.map_values(|e: String| e@).push(ev));
                }
            }
            i = i + 1;
            proof {
                assert(texts[i - 1] == pids@[i - 1]@);
            }
        }
        errors
    }

    /// Sets up the position of a double discovered check.
    pub fn init_double_discovered_check(&mut self)
        requires
            old(self).wf(),
        ensures
            final(self).wf(),
            final(self)@ == placed_texts(
                cleared(old(self)@),
                seq!["e1K"@, "a6k"@, "a5P"@, "b7p"@, "a1R"@, "g2B"@, "g1B"@, "d8N"@],
                8,
            ),
    {
        let pids: Vec<&str> = vec!["e1K", "a6k", "a5P", "b7p", "a1R", "g2B", "g1B", "d8N"];
        proof {
            assert(pids@.map_values(|s: &str| s@) =~= seq!["e1K"@, "a6k"@, "a5P"@, "b7p"@, "a1R"@, "g2B"@, "g1B"@, "d8N"@]);
        }
        let _ = self.init_from_pid_list(pids);
    }

    /// Sets up a middle-game position with stacked attackers on the e-file.
    pub fn init_custom_from(&mut self)
        requires
            old(self).wf(),
        ensures
            final(self).wf(),
            final(self)@ == placed_texts(
                cleared(old(self)@),
                seq!["e1K"@, "e2Q"@, "e3R"@, "e4R"@, "b2B"@, "c6N"@, "e5P"@, "g4n"@, "g7b"@, "e6r"@, "e7r"@, "e8q"@, "f8k"@, "f6p"@],
                14,
            ),
    {
        let pids: Vec<&str> = vec!["e1K", "e2Q", "e3R", "e4R", "b2B", "c6N", "e5P", "g4n", "g7b", "e6r", "e7r", "e8q", "f8k", "f6p"];
        proof {
            assert(pids@.map_values(|s: &str| s@) =~= seq!["e1K"@, "e2Q"@, "e3R"@, "e4R"@, "b2B"@, "c6N"@, "e5P"@, "g4n"@, "g7b"@, "e6r"@, "e7r"@, "e8q"@, "f8k"@, "f6p"@]);
        }
        let _ = self.init_from_pid_list(pids);
    }

    /// Sets up a position with pins and skewers on several lines.
    pub fn init_custom1(&mut self)
        requires
            old(self).wf(),
        ensures
            final(self).wf(),
            final(self)@ == placed_texts(
                cleared(old(self)@),
                seq!["f7R"@, "e6p"@, "a5r"@, "b5B"@, "d5K"@, "d4P"@, "d3Q"@, "f3b"@, "c2n"@, "g2B"@, "a1k"@],
                11,
            ),
    {
        let pids: Vec<&str> = vec!["f7R", "e6p", "a5r", "b5B", "d5K", "d4P", "d3Q", "f3b", "c2n", "g2B", "a1k"];
        proof {
            assert(pids@.map_values(|s: &str| s@) =~= seq!["f7R"@, "e6p"@, "a5r"@, "b5B"@, "d5K"@, "d4P"@, "d3Q"@, "f3b"@, "c2n"@, "g2B"@, "a1k"@]);
        }
        let _ = self.init_from_pid_list(pids);
    }

    /// Sets up the standard starting position.
    pub fn init_standard(&mut self)
        requires
            old(self).wf(),
        ensures
            final(self).wf(),
            final(self)@ == placed_texts(
                cleared(old(self)@),
                seq!["a1R"@, "b1N"@, "c1B"@, "d1Q"@, "e1K"@, "f1B"@, "g1N"@, "h1R"@, "a2P"@, "b2P"@, "c2P"@, "d2P"@, "e2P"@, "f2P"@, "g2P"@, "h2P"@, "a8r"@, "b8n"@, "c8b"@, "d8q"@, "e8k"@, "f8b"@, "g8n"@, "h8r"@, "a7p"@, "b7p"@, "c7p"@, "d7p"@, "e7p"@, "f7p"@, "g7p"@, "h7p"@],
                32,
            ),
    {
        let pids: Vec<&str> = vec!["a1R", "b1N", "c1B", "d1Q", "e1K", "f1B", "g1N", "h1R", "a2P", "b2P", "c2P", "d2P", "e2P", "f2P", "g2P", "h2P", "a8r", "b8n", "c8b", "d8q", "e8k", "f8b", "g8n", "h8r", "a7p", "b7p", "c7p", "d7p", "e7p", "f7p", "g7p", "h7p"];
        proof {
            assert(pids@.map_values(|s: &str| s@) =~= seq!["a1R"@, "b1N"@, "c1B"@, "d1Q"@, "e1K"@, "f1B"@, "g1N"@, "h1R"@, "a2P"@, "b2P"@, "c2P"@, "d2P"@, "e2P"@, "f2P"@, "g2P"@, "h2P"@, "a8r"@, "b8n"@, "c8b"@, "d8q"@, "e8k"@, "f8b"@, "g8n"@, "h8r"@, "a7p"@, "b7p"@, "c7p"@, "d7p"@, "e7p"@, "f7p"@, "g7p"@, "h7p"@]);
        }
        let _ = self.init_from_pid_list(pids);
    }

    /// The number of pieces on the board.
    pub fn len(&self) -> (r: usize)
        requires
            self.wf(),
        ensures
            r == piece_count(self@.pieces, 64),
    {
        let mut n: usize = 0;
        let mut q: usize = 0;
        while q < 64
            invariant
                board_wf(self@),
                q <= 64,
                n == piece_count(self@.pieces, q as int),
                n <= q,
            decreases 64 - q,
        {
            if self.pieces[q].is_some() {
                n = n + 1;
            }
            q = q + 1;
        }
        n
    }

    /// Whether the board holds no piece.
    pub fn is_empty(&self) -> (r: bool)
        requires
            self.wf(),
        ensures
            r == (piece_count(self@.pieces, 64) == 0),
    {
        self.len() == 0
    }

    /// The pieces on the board in square order, `a1` first.
    pub fn iter_pieces(&self) -> (r: Vec<&Piece>)
        requires
            self.wf(),
        ensures
            r@.map_values(|p: &Piece| p@) == present_pieces(self@.pieces, 64),
    {
        let mut r: Vec<&Piece> = Vec::new();
        let mut q: usize = 0;
        while q < 64
            invariant
                board_wf(self@),
                q <= 64,
                r@.map_values(|p: &Piece| p@) == present_pieces(self@.pieces, q as int),
            decreases 64 - q,
        {
            if let Some(p) = &self.pieces[q] {
                let ghost prev = r@;
                r.push(p);
                proof {
                    assert(r@.map_values(|p: &Piece| p@) =~= prev.map_values(|p: &Piece| p@).push(p@));
                }
            }
            q = q + 1;
            proof {
                assert(r@.map_values(|p: &Piece| p@) =~= present_pieces(self@.pieces, q as int));
            }
        }
        r
    }

    /// The entries, as text, that a piece of the described type on `square`
    /// has, direction by direction in compass order: an empty text where the
    /// ray meets no piece, the sequence where the extractor finds one.
    #[verifier::rlimit(40)]
    pub fn updates_per_piece(&self, square: &Square, focus_piece_data: &PieceTypeData) -> (r: Vec<
        (Square, Direction, String),
    >)
        requires
            self.wf(),
        ensures
            r@.map_values(|u: (Square, Direction, String)| (u.0, u.1, u.2@)) == per_piece_updates(
                placement(self@.pieces),
                type_of(focus_piece_data.basic_piece_type, focus_piece_data.side),
                square_index(*square),
                16,
            ),
    {
        let ghost pl = placement(self@.pieces);
        let s = square.index();
        let focus = PieceType::of(focus_piece_data.basic_piece_type, focus_piece_data.side);
        proof {
            lemma_occupancy(self@.pieces, self.occupied);
            lemma_square_index_round_trip(*square);
        }
        let mut r: Vec<(Square, Direction, String)> = Vec::new();
        let mut j: u8 = 0;
        while j < 16
            invariant
                board_wf(self@),
                pl == placement(self@.pieces),
                occupancy(self.occupied) == occupied_of(pl),
                s < 64,
                s as int == square_index(*square),
                *square == square_at(s as int),
                j <= 16,
                r@.map_values(|u: (Square, Direction, String)| (u.0, u.1, u.2@)) == per_piece_updates(
                    pl,
                    focus,
                    s as int,
                    j as int,
                ),
            decreases 16 - j,
        {
            let d = Direction::from_index(j);
            let ghost prev = r@;
            if cast_ray(s, d, self.occupied).is_none() {
                r.push((*square, d, String::new()));
                proof {
                    assert(r@.map_values(|u: (Square, Direction, String)| (u.0, u.1, u.2@)) =~= prev.map_values(
                        |u: (Square, Direction, String)| (u.0, u.1, u.2@),
                    ).push((*square, d, Seq::<char>::empty())));
                }
            } else {
                match self.entry_at(s, d, focus) {
                    Some(x) => {
                        let t = x.to_text();
                        let ghost tv = t@;
                        r.push((*square, d, t));
                        proof {
                            assert(r@.map_values(|u: (Square, Direction, String)| (u.0, u.1, u.2@)) =~= prev.map_values(
                                |u: (Square, Direction, String)| (u.0, u.1, u.2@),
                            ).push((*square, d, tv)));
                        }
                    },
                    None => {},
                }
            }
            j = j + 1;
            proof {
                assert(r@.map_values(|u: (Square, Direction, String)| (u.0, u.1, u.2@)) =~= per_piece_updates(
                    pl,
                    focus,
                    s as int,
                    j as int,
                ));
            }
        }
        r
    }
}

impl Default for Board {
    fn default() -> (r: Self)
        ensures
            r.wf(),
            r@ == (BoardView {
                pieces: Seq::new(64, |i: int| None),
                occupied: 0,
                moves: Seq::empty(),
                turn: Side::White,
                checks: Seq::empty(),
                en_passant: None,
                current: true,
            }),
    {
        Board::new()
    }
}

impl Clone for Board {
    fn clone(&self) -> (r: Self)
        ensures
            r@ == self@,
    {
        let mut pieces: Vec<Option<Piece>> = Vec::new();
        let mut i: usize = 0;
        while i < self.pieces.len()
            invariant
                i <= self.pieces@.len(),
                pieces@.map_values(|o: Option<Piece>| piece_opt_view(o)) == self.pieces@.map_values(
                    |o: Option<Piece>| piece_opt_view(o),
                ).subrange(0, i as int),
            decreases self.pieces@.len() - i,
        {
            let slot = match &self.pieces[i] {
                Some(p) => Some(p.clone()),
                None => None,
            };
            let ghost prev = pieces@;
            let ghost sv = piece_opt_view(slot);
            pieces.push(slot);
            i = i + 1;
            proof {
                assert(pieces@.map_values(|o: Option<Piece>| piece_opt_view(o)) =~= prev.map_values(
                    |o: Option<Piece>| piece_opt_view(o),
                ).push(sv));
                assert(pieces@.map_values(|o: Option<Piece>| piece_opt_view(o)) =~= self.pieces@.map_values(
                    |o: Option<Piece>| piece_opt_view(o),
                ).subrange(0, i as int));
            }
        }
        let mut moves: Vec<(Square, Square)> = Vec::new();
        let mut i: usize = 0;
        while i < self.moves.len()
            invariant
                i <= self.moves@.len(),
                moves@ == self.moves@.subrange(0, i as int),
            decreases self.moves@.len() - i,
        {
            moves.push(self.moves[i]);
            i = i + 1;
            proof {
                assert(moves@ =~= self.moves@.subrange(0, i as int));
            }
        }
        let mut checks: Vec<Pid> = Vec::new();
        let mut i: usize = 0;
        while i < self.checks.len()
            invariant
                i <= self.checks@.len(),
                checks@.map_values(|p: Pid| p@) == self.checks@.map_values(|p: Pid| p@).subrange(
                    0,
                    i as int,
                ),
            decreases self.checks@.len() - i,
        {
            let c = self.checks[i].clone();
            let ghost prev = checks@;
            let ghost cv = c@;
            checks.push(c);
            i = i + 1;
            proof {
                assert(checks@.map_values(|p: Pid| p@) =~= prev.map_values(|p: Pid| p@).push(cv));
                assert(checks@.map_values(|p: Pid| p@) =~= self.checks@.map_values(|p: Pid| p@).subrange(
                    0,
                    i as int,
                ));
            }
        }
        let r = Board {
            pieces,
            occupied: self.occupied,
            moves,
            turn: self.turn,
            checks,
            capture_square_en_passant: self.capture_square_en_passant,
            exchangers_current: self.exchangers_current,
        };
        proof {
            assert(r@.pieces =~= self@.pieces);
            assert(r@.checks =~= self@.checks);
            assert(r@.moves =~= self@.moves);
        }
        r
    }
}
} // verus!
