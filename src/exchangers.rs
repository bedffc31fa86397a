use crate::compass_groups::{is_half_wind, is_vertical, opposite_of, Direction};
use crate::pid::{pid_text, Pid, PidView};
use crate::text::{push_char, push_str};
use crate::pieces::{basic_of, is_sliding, moves_along, side_of, BasicPieceType, PieceType};
use vstd::prelude::*;

verus! {

/// What an exchanger sequence records: the pieces that can exchange on the
/// focus square through one ray, or a pin (the shielding piece shares the
/// focus piece's side) or a skewer (it does not).
#[derive(Debug, PartialEq, Eq, Copy, Clone, Structural)]
pub enum SeqKind {
    Exchangers,
    Pin,
    Skewer,
}

/// What an exchanger sequence denotes: its kind and its pieces, outward from
/// the focus square.
pub struct ExchangeView {
    pub kind: SeqKind,
    pub pids: Seq<PidView>,
}

/// One ray's exchanger sequence, kept on the piece whose square the ray leaves from.
#[derive(Debug)]
pub struct Exchange {
    pub kind: SeqKind,
    pub pids: Vec<Pid>,
}

impl View for Exchange {
    type V = ExchangeView;

    open spec fn view(&self) -> ExchangeView {
        ExchangeView { kind: self.kind, pids: self.pids@.map_values(|p: Pid| p@) }
    }
}

impl Clone for Exchange {
    fn clone(&self) -> (r: Self)
        ensures
            r@ == self@,
    {
        let mut pids: Vec<Pid> = Vec::new();
        let mut i: usize = 0;
        while i < self.pids.len()
            invariant
                i <= self.pids@.len(),
                pids@.map_values(|p: Pid| p@) == self.pids@.map_values(|p: Pid| p@).subrange(
                    0,
                    i as int,
                ),
            decreases self.pids@.len() - i,
        {
            let p = self.pids[i].clone();
            let ghost prev = pids@;
            let ghost pv = p@;
            pids.push(p);
            i = i + 1;
            proof {
                assert(pids@ == prev.push(p));
                assert(pids@.map_values(|p: Pid| p@) =~= prev.map_values(|p: Pid| p@).push(pv));
                assert(pids@.map_values(|p: Pid| p@) =~= self.pids@.map_values(|p: Pid| p@).subrange(
                    0,
                    i as int,
                ));
            }
        }
        proof {
            assert(pids@.map_values(|p: Pid| p@) =~= self.pids@.map_values(|p: Pid| p@));
        }
        Exchange { kind: self.kind, pids }
    }
}

/// The texts of identifiers, one after another.
pub open spec fn pids_text(p: Seq<PidView>) -> Seq<char>
    decreases p.len(),
{
    if p.len() == 0 {
        Seq::empty()
    } else {
        pids_text(p.drop_last()) + pid_text(p.last())
    }
}

/// The text of an exchanger sequence: the identifiers in ray order, after `<`
/// for a pin or `>` for a skewer.
pub open spec fn exchange_text(x: ExchangeView) -> Seq<char> {
    match x.kind {
        SeqKind::Exchangers => pids_text(x.pids),
        SeqKind::Pin => seq!['<'] + pids_text(x.pids),
        SeqKind::Skewer => seq!['>'] + pids_text(x.pids),
    }
}

impl Exchange {
    /// Appends the text of this sequence to `out`.
    pub fn push_text(&self, out: &mut String)
        ensures
            final(out)@ == old(out)@ + exchange_text(self@),
    {
        let ghost start = out@;
        match self.kind {
            SeqKind::Exchangers => {},
            SeqKind::Pin => push_char(out, '<'),
            SeqKind::Skewer => push_char(out, '>'),
        }
        let ghost mid = out@;
        let ghost pv = self.pids@.map_values(|p: Pid| p@);
        let mut i: usize = 0;
        while i < self.pids.len()
            invariant
                i <= self.pids@.len(),
                pv == self.pids@.map_values(|p: Pid| p@),
                out@ == mid + pids_text(pv.subrange(0, i as int)),
            decreases self.pids@.len() - i,
        {
            push_str(out, self.pids[i].as_str());
            i = i + 1;
            proof {
                assert(pv.subrange(0, i as int).drop_last() =~= pv.subrange(0, i as int - 1));
            }
        }
        proof {
            assert(pv.subrange(0, i as int) =~= pv);
            assert(out@ =~= start + exchange_text(self@));
        }
    }

    /// The text of this sequence.
    pub fn to_text(&self) -> (r: String)
        ensures
            r@ == exchange_text(self@),
    {
        let mut r = String::new();
        self.push_text(&mut r);
        proof {
            assert(r@ =~= exchange_text(self@));
        }
        r
    }
}

/// The view of an optional exchanger sequence.
pub open spec fn opt_view(o: Option<Exchange>) -> Option<ExchangeView> {
    match o {
        Some(x) => Some(x@),
        None => None,
    }
}

/// How many pieces from position `i` of the line on are sliders that act back
/// along `od`, without a break.
pub open spec fn slide_run(line: Seq<PidView>, od: Direction, i: int) -> int
    decreases line.len() - i,
{
    if i < 0 || i >= line.len() || !(is_sliding(line[i].kind) && moves_along(line[i].kind, od)) {
        0
    } else {
        1 + slide_run(line, od, i + 1)
    }
}

/// The run never reaches past the end of the line.
pub proof fn lemma_slide_run(line: Seq<PidView>, od: Direction, i: int)
    requires
        0 <= i <= line.len(),
    ensures
        0 <= slide_run(line, od, i) <= line.len() - i,
    decreases line.len() - i,
{
    if i < line.len() {
        lemma_slide_run(line, od, i + 1);
    }
}

/// Whether the nearest piece on the ray could act on the focus square itself,
/// which rules it out as the shield of a pin.
pub open spec fn pin_candidate_excluded(t: PieceType, d: Direction, distant: bool) -> bool {
    let od = opposite_of(d);
    if !distant {
        moves_along(t, od) && (!(basic_of(t) == BasicPieceType::Pawn && is_vertical(od))
            || is_half_wind(d))
    } else {
        is_sliding(t) && moves_along(t, od)
    }
}

/// The pin detector. Looking from the focus piece along `d` at the pieces of
/// the ray (`line`, nearest first): the first piece shields the focus piece
/// and must not act on it itself; the second must be a slider of the other
/// side that acts back along the ray; further sliders acting back along the
/// ray extend the sequence.
pub open spec fn pin_seq(focus: PieceType, d: Direction, distant: bool, line: Seq<PidView>) -> Option<
    ExchangeView,
> {
    let od = opposite_of(d);
    if line.len() < 2 || pin_candidate_excluded(line[0].kind, d, distant) {
        None
    } else if !(moves_along(line[1].kind, od) && is_sliding(line[1].kind) && side_of(line[1].kind)
        != side_of(focus)) {
        None
    } else {
        Some(
            ExchangeView {
                kind: if side_of(line[0].kind) == side_of(focus) {
                    SeqKind::Pin
                } else {
                    SeqKind::Skewer
                },
                pids: line.subrange(0, 2 + slide_run(line, od, 2)),
            },
        )
    }
}

/// The exchanger extractor. The nearest piece on the ray is an exchanger if
/// it acts back along the ray, from next door or, being a slider, from a
/// distance, and is not a pawn on a file (which falls through to pin
/// detection); behind it every slider acting back along the ray joins until
/// the first that does not. Where the nearest piece cannot act, a king
/// looking along a full wind falls through to pin detection.
pub open spec fn exchanger_seq(
    focus: PieceType,
    d: Direction,
    distant: bool,
    line: Seq<PidView>,
) -> Option<ExchangeView> {
    let od = opposite_of(d);
    let king_looks_on = !is_half_wind(d) && basic_of(focus) == BasicPieceType::King;
    if line.len() == 0 {
        None
    } else if !distant && !moves_along(line[0].kind, od) {
        if king_looks_on {
            pin_seq(focus, d, distant, line)
        } else {
            None
        }
    } else if !distant && basic_of(line[0].kind) == BasicPieceType::Pawn && is_vertical(d) {
        pin_seq(focus, d, distant, line)
    } else if distant && !(is_sliding(line[0].kind) && moves_along(line[0].kind, od)) {
        if king_looks_on {
            pin_seq(focus, d, distant, line)
        } else {
            None
        }
    } else {
        Some(
            ExchangeView {
                kind: SeqKind::Exchangers,
                pids: line.subrange(0, 1 + slide_run(line, od, 1)),
            },
        )
    }
}

/// Soundness of pin detection: a pin or skewer is only found where at least
/// two pieces lie on the ray, the nearer cannot act on the focus square
/// itself, and the farther is a slider of the other side that acts back along
/// the ray; the sequence starts with those two.
pub proof fn lemma_pin_sound(focus: PieceType, d: Direction, distant: bool, line: Seq<PidView>)
    ensures
        pin_seq(focus, d, distant, line) matches Some(x) ==> {
            &&& line.len() >= 2
            &&& !pin_candidate_excluded(line[0].kind, d, distant)
            &&& is_sliding(line[1].kind)
            &&& moves_along(line[1].kind, opposite_of(d))
            &&& side_of(line[1].kind) != side_of(focus)
            &&& x.kind != SeqKind::Exchangers
            &&& x.pids.len() >= 2
            &&& x.pids[0] == line[0]
            &&& x.pids[1] == line[1]
        },
        exchanger_seq(focus, d, distant, line) matches Some(x) ==> x.kind != SeqKind::Exchangers
            ==> exchanger_seq(focus, d, distant, line) == pin_seq(focus, d, distant, line),
{
    if line.len() >= 2 {
        lemma_slide_run(line, opposite_of(d), 2);
    }
}

/// The line of pieces on a ray as values: square and piece type.
pub open spec fn line_view(line: Seq<(u8, PieceType)>) -> Seq<PidView> {
    line.map_values(|e: (u8, PieceType)| PidView { square: e.0 as int, kind: e.1 })
}

/// Counts the sliders acting back along `od` from position `start` on.
fn count_slide_run(line: &Vec<(u8, PieceType)>, od: Direction, start: usize) -> (n: usize)
    requires
        start <= line@.len(),
    ensures
        n == slide_run(line_view(line@), od, start as int),
        start + n <= line@.len(),
{
    let ghost lv = line_view(line@);
    let mut i = start;
    while i < line.len() && line[i].1.is_sliding() && line[i].1.moves_along(od)
        invariant
            start <= i <= line@.len(),
            lv == line_view(line@),
            slide_run(lv, od, start as int) == (i - start) + slide_run(lv, od, i as int),
        decreases line@.len() - i,
    {
        i = i + 1;
    }
    i - start
}

/// The pieces at positions `0..n` of the line, as identifiers.
fn line_pids(line: &Vec<(u8, PieceType)>, n: usize) -> (r: Vec<Pid>)
    requires
        n <= line@.len(),
        forall|i: int| 0 <= i < line@.len() ==> #[trigger] line@[i].0 < 64,
    ensures
        r@.map_values(|p: Pid| p@) == line_view(line@).subrange(0, n as int),
{
    let mut r: Vec<Pid> = Vec::new();
    let mut i: usize = 0;
    while i < n
        invariant
            i <= n <= line@.len(),
            forall|i: int| 0 <= i < line@.len() ==> #[trigger] line@[i].0 < 64,
            r@.map_values(|p: Pid| p@) == line_view(line@).subrange(0, i as int),
        decreases n - i,
    {
        let p = Pid::from_parts(line[i].0, line[i].1);
        let ghost prev = r@;
        let ghost pv = p@;
        r.push(p);
        i = i + 1;
        proof {
            assert(r@ == prev.push(p));
            assert(r@.map_values(|p: Pid| p@) =~= prev.map_values(|p: Pid| p@).push(pv));
            assert(r@.map_values(|p: Pid| p@) =~= line_view(line@).subrange(0, i as int));
        }
    }
    r
}

/// Pin detection over a ray's pieces, nearest first.
pub fn extract_pin_seq(focus: PieceType, d: Direction, distant: bool, line: &Vec<(u8, PieceType)>) -> (r:
    Option<Exchange>)
    requires
        forall|i: int| 0 <= i < line@.len() ==> #[trigger] line@[i].0 < 64,
    ensures
        opt_view(r) == pin_seq(focus, d, distant, line_view(line@)),
{
    let ghost lv = line_view(line@);
    let od = d.opposite();
    if line.len() < 2 {
        return None;
    }
    let first = line[0].1;
    let excluded = if !distant {
        first.moves_along(od) && (!(first.basic() == BasicPieceType::Pawn && od.is_vertical())
            || d.is_half_wind())
    } else {
        first.is_sliding() && first.moves_along(od)
    };
    if excluded {
        return None;
    }
    let second = line[1].1;
    if !(second.moves_along(od) && second.is_sliding() && second.side() != focus.side()) {
        return None;
    }
    let run = count_slide_run(line, od, 2);
    let pids = line_pids(line, 2 + run);
    let kind = if first.side() == focus.side() {
        SeqKind::Pin
    } else {
        SeqKind::Skewer
    };
    Some(Exchange { kind, pids })
}

/// The exchanger extractor over a ray's pieces, nearest first, falling through
/// to pin detection where the rules say so.
pub fn extract_pid_seq(focus: PieceType, d: Direction, distant: bool, line: &Vec<(u8, PieceType)>) -> (r:
    Option<Exchange>)
    requires
        forall|i: int| 0 <= i < line@.len() ==> #[trigger] line@[i].0 < 64,
    ensures
        opt_view(r) == exchanger_seq(focus, d, distant, line_view(line@)),
{
    let od = d.opposite();
    if line.len() == 0 {
        return None;
    }
    let king_looks_on = !d.is_half_wind() && focus.basic() == BasicPieceType::King;
    let first = line[0].1;
    if !distant && !first.moves_along(od) {
        if king_looks_on {
            extract_pin_seq(focus, d, distant, line)
        } else {
            None
        }
    } else if !distant && first.basic() == BasicPieceType::Pawn && d.is_vertical() {
        extract_pin_seq(focus, d, distant, line)
    } else if distant && !(first.is_sliding() && first.moves_along(od)) {
        if king_looks_on {
            extract_pin_seq(focus, d, distant, line)
        } else {
            None
        }
    } else {
        let run = count_slide_run(line, od, 1);
        let pids = line_pids(line, 1 + run);
        Some(Exchange { kind: SeqKind::Exchangers, pids })
    }
}

} // verus!
