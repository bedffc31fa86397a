use crate::pid::{matches_whole, SQUARE_PATTERN};
use crate::text::{
    file_from_letter, is_square_text, lemma_coordinate_chars, lemma_square_name_round_trip,
    push_char, push_square_name, rank_from_digit, square_name, square_of_text,
};
use vstd::prelude::*;
use crate::compass_groups::{file_step, is_half_wind, lemma_direction_facts, opposite_of, rank_step, Direction};

verus! {

/// The file of a square index, 0 for `a` to 7 for `h`.
pub open spec fn file_of(i: int) -> int {
    i % 8
}

/// The rank of a square index, 0 for rank 1 to 7 for rank 8.
pub open spec fn rank_of(i: int) -> int {
    i / 8
}

/// The index of the square on file `f` and rank `r`.
pub open spec fn square_of(f: int, r: int) -> int {
    r * 8 + f
}

/// File and rank determine a square index and are recovered from it.
pub proof fn lemma_square_coordinates(f: int, r: int)
    requires
        0 <= f < 8,
        0 <= r < 8,
    ensures
        file_of(square_of(f, r)) == f,
        rank_of(square_of(f, r)) == r,
        0 <= square_of(f, r) < 64,
{
    assert((r * 8 + f) % 8 == f && (r * 8 + f) / 8 == r) by (nonlinear_arith)
        requires
            0 <= f < 8,
            0 <= r < 8,
    ;
}

/// Every index on the board is the square of its own file and rank.
pub proof fn lemma_index_coordinates(i: int)
    requires
        0 <= i < 64,
    ensures
        0 <= file_of(i) < 8,
        0 <= rank_of(i) < 8,
        square_of(file_of(i), rank_of(i)) == i,
{
}

} // verus!

verus! {

/// Whether `k` steps from square `s` in direction `d` stay on the board.
pub open spec fn steps_ok(s: int, d: Direction, k: int) -> bool {
    &&& 0 <= file_of(s) + k * file_step(d) < 8
    &&& 0 <= rank_of(s) + k * rank_step(d) < 8
}

/// The square `k` steps from `s` in direction `d`.
pub open spec fn ray_square(s: int, d: Direction, k: int) -> int {
    square_of(file_of(s) + k * file_step(d), rank_of(s) + k * rank_step(d))
}

/// How many steps a coordinate can take before it leaves the board.
pub open spec fn reach_limit(x: int, step: int) -> int {
    if step > 0 {
        7 - x
    } else if step < 0 {
        x
    } else {
        7
    }
}

/// The number of squares on the ray from `s` in direction `d`: up to the edge
/// of the board along a full wind, the single leap (if it lands on the board)
/// along a half wind.
pub open spec fn ray_len(s: int, d: Direction) -> int {
    if is_half_wind(d) {
        if steps_ok(s, d, 1) {
            1
        } else {
            0
        }
    } else {
        let a = reach_limit(file_of(s), file_step(d));
        let b = reach_limit(rank_of(s), rank_step(d));
        if a <= b {
            a
        } else {
            b
        }
    }
}

/// The ray's squares stay on the board, and the ray ends at the edge: it has
/// at most seven squares along a full wind and at most one along a half wind.
pub proof fn lemma_ray_len(s: int, d: Direction)
    requires
        0 <= s < 64,
    ensures
        0 <= ray_len(s, d) <= 7,
        is_half_wind(d) ==> ray_len(s, d) <= 1,
        forall|k: int| 1 <= k <= ray_len(s, d) ==> #[trigger] steps_ok(s, d, k),
        !is_half_wind(d) ==> !steps_ok(s, d, ray_len(s, d) + 1),
{
    lemma_direction_facts(d);
    let n = ray_len(s, d);
    let f = file_of(s);
    let r = rank_of(s);
    let df = file_step(d);
    let dr = rank_step(d);
    assert forall|k: int| 1 <= k <= n implies #[trigger] steps_ok(s, d, k) by {
        if !is_half_wind(d) {
            assert(0 <= f + k * df < 8) by (nonlinear_arith)
                requires
                    -1 <= df <= 1,
                    0 <= f < 8,
                    1 <= k,
                    df > 0 ==> k <= 7 - f,
                    df < 0 ==> k <= f,
            ;
            assert(0 <= r + k * dr < 8) by (nonlinear_arith)
                requires
                    -1 <= dr <= 1,
                    0 <= r < 8,
                    1 <= k,
                    dr > 0 ==> k <= 7 - r,
                    dr < 0 ==> k <= r,
            ;
        }
    }
    if !is_half_wind(d) {
        let k = n + 1;
        assert(!steps_ok(s, d, k)) by (nonlinear_arith)
            requires
                -1 <= df <= 1,
                -1 <= dr <= 1,
                df != 0 || dr != 0,
                0 <= f < 8,
                0 <= r < 8,
                k == n + 1,
                n == if reach_limit(f, df) <= reach_limit(r, dr) {
                    reach_limit(f, df)
                } else {
                    reach_limit(r, dr)
                },
                reach_limit(f, df) == if df > 0 {
                    7 - f
                } else if df < 0 {
                    f
                } else {
                    7
                },
                reach_limit(r, dr) == if dr > 0 {
                    7 - r
                } else if dr < 0 {
                    r
                } else {
                    7
                },
                steps_ok(s, d, k) == (0 <= f + k * df < 8 && 0 <= r + k * dr < 8),
        ;
    }
}

/// A square on the ray keeps the file and rank that its steps give it.
pub proof fn lemma_ray_square(s: int, d: Direction, k: int)
    requires
        0 <= s < 64,
        steps_ok(s, d, k),
    ensures
        0 <= ray_square(s, d, k) < 64,
        file_of(ray_square(s, d, k)) == file_of(s) + k * file_step(d),
        rank_of(ray_square(s, d, k)) == rank_of(s) + k * rank_step(d),
{
    lemma_square_coordinates(file_of(s) + k * file_step(d), rank_of(s) + k * rank_step(d));
}

/// Rays are symmetric: if `c` lies `k` steps from `s` in direction `d`, then `s`
/// lies `k` steps from `c` in the opposite direction.
pub proof fn lemma_ray_symmetric(s: int, d: Direction, k: int)
    requires
        0 <= s < 64,
        1 <= k <= ray_len(s, d),
    ensures
        1 <= k <= ray_len(ray_square(s, d, k), opposite_of(d)),
        ray_square(ray_square(s, d, k), opposite_of(d), k) == s,
{
    lemma_direction_facts(d);
    lemma_ray_len(s, d);
    assert(steps_ok(s, d, k));
    lemma_ray_square(s, d, k);
    let c = ray_square(s, d, k);
    let od = opposite_of(d);
    let f = file_of(s);
    let r = rank_of(s);
    let df = file_step(d);
    let dr = rank_step(d);
    let cf = file_of(c);
    let cr = rank_of(c);
    assert(cf + k * file_step(od) == f && cr + k * rank_step(od) == r) by (nonlinear_arith)
        requires
            cf == f + k * df,
            cr == r + k * dr,
            file_step(od) == -df,
            rank_step(od) == -dr,
    ;
    lemma_index_coordinates(s);
    if !is_half_wind(d) {
        assert(k <= reach_limit(cf, file_step(od)) && k <= reach_limit(cr, rank_step(od)))
            by (nonlinear_arith)
            requires
                -1 <= df <= 1,
                -1 <= dr <= 1,
                0 <= f < 8,
                0 <= r < 8,
                1 <= k,
                cf == f + k * df,
                cr == r + k * dr,
                file_step(od) == -df,
                rank_step(od) == -dr,
                k <= reach_limit(f, df),
                k <= reach_limit(r, dr),
                reach_limit(f, df) == if df > 0 {
                    7 - f
                } else if df < 0 {
                    f
                } else {
                    7
                },
                reach_limit(r, dr) == if dr > 0 {
                    7 - r
                } else if dr < 0 {
                    r
                } else {
                    7
                },
                reach_limit(cf, -df) == if -df > 0 {
                    7 - cf
                } else if -df < 0 {
                    cf
                } else {
                    7
                },
                reach_limit(cr, -dr) == if -dr > 0 {
                    7 - cr
                } else if -dr < 0 {
                    cr
                } else {
                    7
                },
        ;
    } else {
        assert(k == 1);
        assert(steps_ok(c, od, 1));
    }
}

/// Whether bit `i` of an occupancy word is set.
pub open spec fn bit_set(occ: u64, i: u64) -> bool {
    (occ >> i) & 1u64 == 1u64
}

/// An occupancy word as one flag per square.
pub open spec fn occupancy(occ: u64) -> Seq<bool> {
    Seq::new(64, |i: int| bit_set(occ, i as u64))
}

/// Testing a bit with a one-bit mask reads the same bit.
pub proof fn lemma_bit_test(occ: u64, i: u64)
    requires
        i < 64,
    ensures
        ((occ & (1u64 << i)) != 0) == bit_set(occ, i),
{
    assert(((occ & (1u64 << i)) != 0) == ((occ >> i) & 1u64 == 1u64)) by (bit_vector)
        requires
            i < 64,
    ;
}

/// Setting one bit changes that bit only.
pub proof fn lemma_bit_set(occ: u64, i: u64, j: u64)
    requires
        i < 64,
        j < 64,
    ensures
        bit_set(occ | (1u64 << i), j) == (j == i || bit_set(occ, j)),
{
    assert(((((occ | (1u64 << i)) >> j) & 1u64) == 1u64) == (j == i || ((occ >> j) & 1u64)
        == 1u64)) by (bit_vector)
        requires
            i < 64,
            j < 64,
    ;
}

/// Clearing one bit changes that bit only.
pub proof fn lemma_bit_clear(occ: u64, i: u64, j: u64)
    requires
        i < 64,
        j < 64,
    ensures
        bit_set(occ & !(1u64 << i), j) == (j != i && bit_set(occ, j)),
{
    assert(((((occ & !(1u64 << i)) >> j) & 1u64) == 1u64) == (j != i && ((occ >> j) & 1u64)
        == 1u64)) by (bit_vector)
        requires
            i < 64,
            j < 64,
    ;
}

/// The empty word has no bit set.
pub proof fn lemma_bit_zero(j: u64)
    requires
        j < 64,
    ensures
        !bit_set(0u64, j),
{
    assert(((0u64 >> j) & 1u64) != 1u64) by (bit_vector);
}

/// The occupied squares among the first `n` squares of the ray, nearest first.
pub open spec fn hits_upto(occs: Seq<bool>, s: int, d: Direction, n: int) -> Seq<int>
    decreases n,
{
    if n <= 0 {
        Seq::empty()
    } else {
        let prev = hits_upto(occs, s, d, n - 1);
        let t = ray_square(s, d, n);
        if occs[t] {
            prev.push(t)
        } else {
            prev
        }
    }
}

/// The occupied squares on the ray from `s` in direction `d`, nearest first.
pub open spec fn ray_hits(occs: Seq<bool>, s: int, d: Direction) -> Seq<int> {
    hits_upto(occs, s, d, ray_len(s, d))
}

/// Whether the ray's first occupied square lies beyond an empty one.
pub open spec fn ray_distant(occs: Seq<bool>, s: int, d: Direction) -> bool {
    ray_hits(occs, s, d).len() > 0 && !occs[ray_square(s, d, 1)]
}

/// The hits are occupied squares on the board, at most one per ray square.
pub proof fn lemma_hits_upto(occs: Seq<bool>, s: int, d: Direction, n: int)
    requires
        0 <= s < 64,
        occs.len() == 64,
        0 <= n <= ray_len(s, d),
    ensures
        hits_upto(occs, s, d, n).len() <= n,
        forall|i: int|
            0 <= i < hits_upto(occs, s, d, n).len() ==> 0 <= #[trigger] hits_upto(
                occs,
                s,
                d,
                n,
            )[i] < 64 && occs[hits_upto(occs, s, d, n)[i]],
    decreases n,
{
    lemma_ray_len(s, d);
    if n > 0 {
        lemma_hits_upto(occs, s, d, n - 1);
        assert(steps_ok(s, d, n));
        lemma_ray_square(s, d, n);
        let prev = hits_upto(occs, s, d, n - 1);
        let cur = hits_upto(occs, s, d, n);
        assert forall|i: int| 0 <= i < cur.len() implies 0 <= #[trigger] cur[i] < 64 && occs[cur[i]] by {
            if i < prev.len() {
                assert(cur[i] == prev[i]);
            }
        }
    }
}

/// The hits of a ray depend only on whether the ray's own squares are occupied.
pub proof fn lemma_hits_frame(a: Seq<bool>, b: Seq<bool>, s: int, d: Direction, n: int)
    requires
        forall|k: int| 1 <= k <= n ==> a[ray_square(s, d, k)] == b[ray_square(s, d, k)],
    ensures
        hits_upto(a, s, d, n) == hits_upto(b, s, d, n),
    decreases n,
{
    if n > 0 {
        lemma_hits_frame(a, b, s, d, n - 1);
    }
}

/// Boundedness of the ray caster: a ray meets at most seven pieces along a
/// full wind and at most one along a half wind, all on the board.
pub proof fn lemma_ray_bounded(occs: Seq<bool>, s: int, d: Direction)
    requires
        0 <= s < 64,
        occs.len() == 64,
    ensures
        ray_hits(occs, s, d).len() <= 7,
        is_half_wind(d) ==> ray_hits(occs, s, d).len() <= 1,
        forall|i: int|
            0 <= i < ray_hits(occs, s, d).len() ==> 0 <= #[trigger] ray_hits(occs, s, d)[i] < 64
                && occs[ray_hits(occs, s, d)[i]],
{
    lemma_ray_len(s, d);
    lemma_hits_upto(occs, s, d, ray_len(s, d));
}

/// The result of casting a ray: whether the first occupied square lies beyond
/// an empty one, and the occupied squares in order of distance.
#[derive(Debug)]
pub struct RayPath {
    pub distant: bool,
    pub squares: Vec<u8>,
}

/// The number of squares on the ray from `origin` in direction `d`.
pub(crate) fn ray_length(origin: u8, d: Direction) -> (n: u8)
    requires
        origin < 64,
    ensures
        n == ray_len(origin as int, d),
{
    let f = (origin % 8) as i8;
    let r = (origin / 8) as i8;
    let df = d.file_step();
    let dr = d.rank_step();
    if d.is_half_wind() {
        let nf = f + df;
        let nr = r + dr;
        if 0 <= nf && nf < 8 && 0 <= nr && nr < 8 {
            1
        } else {
            0
        }
    } else {
        let a: i8 = if df > 0 {
            7 - f
        } else if df < 0 {
            f
        } else {
            7
        };
        let b: i8 = if dr > 0 {
            7 - r
        } else if dr < 0 {
            r
        } else {
            7
        };
        if a <= b {
            a as u8
        } else {
            b as u8
        }
    }
}

/// The square `k` steps from `origin` along `d`, for a step on the ray.
pub(crate) fn ray_square_at(origin: u8, d: Direction, k: u8) -> (q: u8)
    requires
        origin < 64,
        1 <= k <= ray_len(origin as int, d),
    ensures
        q as int == ray_square(origin as int, d, k as int),
        q < 64,
{
    proof {
        lemma_ray_len(origin as int, d);
        assert(steps_ok(origin as int, d, k as int));
        lemma_ray_square(origin as int, d, k as int);
        lemma_direction_facts(d);
        assert(-16 <= k * file_step(d) <= 16 && -16 <= k * rank_step(d) <= 16) by (nonlinear_arith)
            requires
                1 <= k <= 7,
                -2 <= file_step(d) <= 2,
                -2 <= rank_step(d) <= 2,
        ;
    }
    let f = (origin % 8) as i16 + (k as i16) * (d.file_step() as i16);
    let r = (origin / 8) as i16 + (k as i16) * (d.rank_step() as i16);
    (r * 8 + f) as u8
}

/// The ray caster: walks from `origin` in direction `d` over the occupancy
/// word and returns the occupied squares met, nearest first, or nothing when
/// the ray meets no piece.
pub fn cast_ray(origin: u8, d: Direction, occupied: u64) -> (r: Option<RayPath>)
    requires
        origin < 64,
    ensures
        r is None <==> ray_hits(occupancy(occupied), origin as int, d).len() == 0,
        r matches Some(p) ==> p.squares@.map_values(|x: u8| x as int) == ray_hits(
            occupancy(occupied),
            origin as int,
            d,
        ) && p.distant == ray_distant(occupancy(occupied), origin as int, d),
        r matches Some(p) ==> p.squares@.len() <= 7 && (is_half_wind(d) ==> p.squares@.len() <= 1)
            && forall|i: int| 0 <= i < p.squares@.len() ==> #[trigger] p.squares@[i] < 64,
{
    let ghost occs = occupancy(occupied);
    let ghost s = origin as int;
    let n = ray_length(origin, d);
    proof {
        lemma_ray_len(s, d);
        lemma_direction_facts(d);
    }
    let f = (origin % 8) as i8;
    let rk = (origin / 8) as i8;
    let df = d.file_step();
    let dr = d.rank_step();
    let mut squares: Vec<u8> = Vec::new();
    let mut k: u8 = 0;
    let mut cf: i8 = f;
    let mut cr: i8 = rk;
    while k < n
        invariant
            0 <= s < 64,
            f == file_of(s),
            rk == rank_of(s),
            df == file_step(d),
            dr == rank_step(d),
            n == ray_len(s, d),
            n <= 7,
            k <= n,
            cf == f + k * df,
            cr == rk + k * dr,
            forall|j: int| 1 <= j <= n ==> #[trigger] steps_ok(s, d, j),
            occs == occupancy(occupied),
            squares@.map_values(|x: u8| x as int) == hits_upto(occs, s, d, k as int),
        decreases n - k,
    {
        assert(cf + df == f + (k + 1) * df && cr + dr == rk + (k + 1) * dr) by (nonlinear_arith)
            requires
                cf == f + k * df,
                cr == rk + k * dr,
        ;
        k = k + 1;
        cf = cf + df;
        cr = cr + dr;
        assert(steps_ok(s, d, k as int));
        let t = (cr * 8 + cf) as u8;
        proof {
            lemma_ray_square(s, d, k as int);
            assert(t as int == ray_square(s, d, k as int));
            lemma_bit_test(occupied, t as u64);
        }
        if occupied & (1u64 << t) != 0 {
            squares.push(t);
        }
        proof {
            assert(squares@.map_values(|x: u8| x as int) =~= hits_upto(occs, s, d, k as int));
        }
    }
    if squares.len() == 0 {
        return None;
    }
    proof {
        lemma_ray_bounded(occs, s, d);
        assert forall|i: int| 0 <= i < squares@.len() implies #[trigger] squares@[i] < 64 by {
            assert(squares@.map_values(|x: u8| x as int)[i] == squares@[i] as int);
        }
    }
    let first = ((rk + dr) * 8 + (f + df)) as u8;
    proof {
        assert(steps_ok(s, d, 1));
        lemma_ray_square(s, d, 1);
        assert(first as int == ray_square(s, d, 1));
        lemma_bit_test(occupied, first as u64);
    }
    let distant = occupied & (1u64 << first) == 0;
    Some(RayPath { distant, squares })
}

/// The names of squares, one after another.
pub open spec fn squares_text(q: Seq<int>) -> Seq<char>
    decreases q.len(),
{
    if q.len() == 0 {
        Seq::empty()
    } else {
        squares_text(q.drop_last()) + square_name(q.last())
    }
}

/// The text of a ray path: `_` when the first piece met is not next door,
/// then the names of the occupied squares met, nearest first.
pub open spec fn ray_text(occs: Seq<bool>, s: int, d: Direction) -> Seq<char> {
    if ray_distant(occs, s, d) {
        seq!['_'] + squares_text(ray_hits(occs, s, d))
    } else {
        squares_text(ray_hits(occs, s, d))
    }
}

/// The bit index of a square given by its name, such as `e4`; none for any
/// other text.
pub fn square_to_bit(square: &str) -> (r: Option<u64>)
    ensures
        r == if is_square_text(square@) {
            Some(square_of_text(square@) as u64)
        } else {
            None::<u64>
        },
{
    if !matches_whole(SQUARE_PATTERN, square) {
        return None;
    }
    proof {
        lemma_square_name_round_trip(0, square@);
        lemma_coordinate_chars(0, square@[0]);
        lemma_coordinate_chars(0, square@[1]);
    }
    let f = file_from_letter(square.get_char(0)).unwrap();
    let r = rank_from_digit(square.get_char(1)).unwrap();
    Some((r * 8 + f) as u64)
}

/// The name of the square with bit index `bit`; none past the last square.
pub fn bit_to_square(bit: u64) -> (r: Option<String>)
    ensures
        bit > 63 ==> r is None,
        bit <= 63 ==> (r matches Some(t) && t@ == square_name(bit as int)),
{
    if bit > 63 {
        return None;
    }
    let mut t = String::new();
    push_square_name(&mut t, bit as u8);
    proof {
        assert(t@ =~= square_name(bit as int));
    }
    Some(t)
}

/// The ray path from the square named `origin` along `direction` over the
/// occupancy word, as text; none when the name is not a square's or the ray
/// meets no piece.
pub fn generate_ray_path(origin: &str, direction: Direction, occupied: u64) -> (r: Option<String>)
    ensures
        r is None <==> !is_square_text(origin@) || ray_hits(
            occupancy(occupied),
            square_of_text(origin@),
            direction,
        ).len() == 0,
        r matches Some(t) ==> t@ == ray_text(occupancy(occupied), square_of_text(origin@), direction),
{
    let start = match square_to_bit(origin) {
        Some(b) => b as u8,
        None => return None,
    };
    proof {
        lemma_square_name_round_trip(0, origin@);
    }
    let path = match cast_ray(start, direction, occupied) {
        Some(p) => p,
        None => return None,
    };
    let ghost hits = ray_hits(occupancy(occupied), start as int, direction);
    let mut t = String::new();
    if path.distant {
        push_char(&mut t, '_');
    }
    let ghost base = t@;
    proof {
        lemma_ray_bounded(occupancy(occupied), start as int, direction);
    }
    let mut i: usize = 0;
    while i < path.squares.len()
        invariant
            i <= path.squares@.len(),
            path.squares@.map_values(|x: u8| x as int) == hits,
            forall|k: int| 0 <= k < hits.len() ==> 0 <= #[trigger] hits[k] < 64,
            t@ == base + squares_text(hits.subrange(0, i as int)),
        decreases path.squares@.len() - i,
    {
        let q = path.squares[i];
        assert(hits[i as int] == q as int);
        push_square_name(&mut t, q);
        i = i + 1;
        proof {
            assert(hits.subrange(0, i as int).drop_last() =~= hits.subrange(0, i as int - 1));
        }
    }
    proof {
        assert(hits.subrange(0, i as int) =~= hits);
        if path.distant {
            assert(t@ =~= ray_text(occupancy(occupied), start as int, direction));
        }
    }
    Some(t)
}

/// The name of the square one step from the square named `osqid` along
/// `drctn`; none when the name is not a square's or the step leaves the board.
pub fn get_next_sqid(osqid: &str, drctn: Direction) -> (r: Option<String>)
    ensures
        r is Some <==> is_square_text(osqid@) && steps_ok(square_of_text(osqid@), drctn, 1),
        r matches Some(t) ==> t@ == square_name(ray_square(square_of_text(osqid@), drctn, 1)),
{
    let start = match square_to_bit(osqid) {
        Some(b) => b as u8,
        None => return None,
    };
    proof {
        lemma_square_name_round_trip(0, osqid@);
        lemma_direction_facts(drctn);
    }
    let f = (start % 8) as i8 + drctn.file_step();
    let r = (start / 8) as i8 + drctn.rank_step();
    if f < 0 || f >= 8 || r < 0 || r >= 8 {
        return None;
    }
    let q = (r * 8 + f) as u8;
    proof {
        lemma_square_coordinates(f as int, r as int);
    }
    let mut t = String::new();
    push_square_name(&mut t, q);
    proof {
        assert(t@ =~= square_name(ray_square(start as int, drctn, 1)));
    }
    Some(t)
}

} // verus!
