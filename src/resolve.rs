use vstd::prelude::*;

use crate::rect::Rect;
use crate::util::{overlaps, rects_overlap};

verus! {

/// Boxes of everything that takes part in one collision pass. Barrier
/// colliders are kept per barrier.
pub struct Layout {
    pub bullets: Seq<Rect>,
    pub invaders: Seq<Rect>,
    pub colliders: Seq<Seq<Rect>>,
    pub ufo: Rect,
    pub ufo_active: bool,
    pub shots: Seq<Rect>,
    pub ship: Rect,
}

/// Destroyed flags, laid out as in `Layout`.
pub struct Flags {
    pub bullets: Seq<bool>,
    pub invaders: Seq<bool>,
    pub colliders: Seq<Seq<bool>>,
    pub ufo: bool,
    pub shots: Seq<bool>,
    pub ship: bool,
}

/// Index of the first live box at or after `i` that overlaps `r`, or -1.
pub open spec fn first_live_from(rs: Seq<Rect>, dead: Seq<bool>, r: Rect, i: int) -> int
    decreases rs.len() - i,
{
    if i < 0 || i >= rs.len() {
        -1
    } else if !dead[i] && rects_overlap(rs[i], r) {
        i
    } else {
        first_live_from(rs, dead, r, i + 1)
    }
}

pub open spec fn first_live(rs: Seq<Rect>, dead: Seq<bool>, r: Rect) -> int {
    first_live_from(rs, dead, r, 0)
}

/// The first live collider overlapping `r`, barrier by barrier from barrier
/// `k` on: its barrier and its index, or `(-1, -1)`.
pub open spec fn first_collider_from(cs: Seq<Seq<Rect>>, dead: Seq<Seq<bool>>, r: Rect, k: int) -> (int, int)
    decreases cs.len() - k,
{
    if k < 0 || k >= cs.len() {
        (-1, -1)
    } else if first_live(cs[k], dead[k], r) >= 0 {
        (k, first_live(cs[k], dead[k], r))
    } else {
        first_collider_from(cs, dead, r, k + 1)
    }
}

pub open spec fn first_collider(cs: Seq<Seq<Rect>>, dead: Seq<Seq<bool>>, r: Rect) -> (int, int) {
    first_collider_from(cs, dead, r, 0)
}

pub open spec fn set_collider(dead: Seq<Seq<bool>>, hit: (int, int)) -> Seq<Seq<bool>> {
    dead.update(hit.0, dead[hit.0].update(hit.1, true))
}

/// Every collider overlapping `r` marked destroyed.
pub open spec fn mark_colliders(cs: Seq<Seq<Rect>>, dead: Seq<Seq<bool>>, r: Rect) -> Seq<Seq<bool>> {
    Seq::new(
        dead.len(),
        |k: int| Seq::new(dead[k].len(), |c: int| dead[k][c] || rects_overlap(cs[k][c], r)),
    )
}

/// A live player bullet hits the first live invader it overlaps; failing
/// that the first live collider; failing that the UFO while it is active.
/// Whatever it hits is destroyed with it.
pub open spec fn bullet_step(l: Layout, f: Flags, j: int) -> Flags {
    let b = l.bullets[j];
    let i = first_live(l.invaders, f.invaders, b);
    let c = first_collider(l.colliders, f.colliders, b);
    if f.bullets[j] {
        f
    } else if i >= 0 {
        Flags { invaders: f.invaders.update(i, true), bullets: f.bullets.update(j, true), ..f }
    } else if c.0 >= 0 {
        Flags { colliders: set_collider(f.colliders, c), bullets: f.bullets.update(j, true), ..f }
    } else if l.ufo_active && !f.ufo && rects_overlap(l.ufo, b) {
        Flags { ufo: true, bullets: f.bullets.update(j, true), ..f }
    } else {
        f
    }
}

/// An invader that was live when the pass began destroys the ship if it
/// touches it, and wears away every collider it touches; a bullet that hit
/// it earlier in the pass does not stop this. `start` holds the invaders'
/// destroyed flags at the start of the pass.
pub open spec fn invader_step(l: Layout, start: Seq<bool>, f: Flags, i: int) -> Flags {
    let v = l.invaders[i];
    if start[i] {
        f
    } else {
        Flags {
            ship: f.ship || rects_overlap(v, l.ship),
            colliders: mark_colliders(l.colliders, f.colliders, v),
            ..f
        }
    }
}

/// A live enemy shot touching the ship destroys the ship and keeps falling;
/// otherwise it cancels against the first live bullet it overlaps, or else
/// is stopped by the first live collider, destroying it.
pub open spec fn shot_step(l: Layout, f: Flags, s: int) -> Flags {
    let r = l.shots[s];
    let j = first_live(l.bullets, f.bullets, r);
    let c = first_collider(l.colliders, f.colliders, r);
    if f.shots[s] {
        f
    } else if rects_overlap(r, l.ship) {
        Flags { ship: true, ..f }
    } else if j >= 0 {
        Flags { shots: f.shots.update(s, true), bullets: f.bullets.update(j, true), ..f }
    } else if c.0 >= 0 {
        Flags { colliders: set_collider(f.colliders, c), shots: f.shots.update(s, true), ..f }
    } else {
        f
    }
}

pub open spec fn bullets_from(l: Layout, f: Flags, j: int) -> Flags
    decreases l.bullets.len() - j,
{
    if j < 0 || j >= l.bullets.len() {
        f
    } else {
        bullets_from(l, bullet_step(l, f, j), j + 1)
    }
}

pub open spec fn invaders_from(l: Layout, start: Seq<bool>, f: Flags, i: int) -> Flags
    decreases l.invaders.len() - i,
{
    if i < 0 || i >= l.invaders.len() {
        f
    } else {
        invaders_from(l, start, invader_step(l, start, f, i), i + 1)
    }
}

pub open spec fn shots_from(l: Layout, f: Flags, s: int) -> Flags
    decreases l.shots.len() - s,
{
    if s < 0 || s >= l.shots.len() {
        f
    } else {
        shots_from(l, shot_step(l, f, s), s + 1)
    }
}

/// One collision pass: all bullets in order, then all invaders, then all
/// enemy shots. Bullets and shots see what earlier checks destroyed;
/// invaders are taken as they were when the pass began.
pub open spec fn resolve(l: Layout, f: Flags) -> Flags {
    shots_from(l, invaders_from(l, f.invaders, bullets_from(l, f, 0), 0), 0)
}

/// Flags laid out as the layout's boxes are.
pub open spec fn fits(l: Layout, f: Flags) -> bool {
    &&& f.bullets.len() == l.bullets.len()
    &&& f.invaders.len() == l.invaders.len()
    &&& f.shots.len() == l.shots.len()
    &&& f.colliders.len() == l.colliders.len()
    &&& forall|k: int| 0 <= k < l.colliders.len() ==> (#[trigger] f.colliders[k]).len() == l.colliders[k].len()
}

pub struct Snapshot {
    pub bullets: Vec<Rect>,
    pub invaders: Vec<Rect>,
    pub colliders: Vec<Vec<Rect>>,
    pub ufo: Rect,
    pub ufo_active: bool,
    pub shots: Vec<Rect>,
    pub ship: Rect,
}

impl View for Snapshot {
    type V = Layout;

    open spec fn view(&self) -> Layout {
        Layout {
            bullets: self.bullets@,
            invaders: self.invaders@,
            colliders: self.colliders@.map_values(|v: Vec<Rect>| v@),
            ufo: self.ufo,
            ufo_active: self.ufo_active,
            shots: self.shots@,
            ship: self.ship,
        }
    }
}

pub struct Hits {
    pub bullets: Vec<bool>,
    pub invaders: Vec<bool>,
    pub colliders: Vec<Vec<bool>>,
    pub ufo: bool,
    pub shots: Vec<bool>,
    pub ship: bool,
}

impl View for Hits {
    type V = Flags;

    open spec fn view(&self) -> Flags {
        Flags {
            bullets: self.bullets@,
            invaders: self.invaders@,
            colliders: self.colliders@.map_values(|v: Vec<bool>| v@),
            ufo: self.ufo,
            shots: self.shots@,
            ship: self.ship,
        }
    }
}

fn find_live(rs: &Vec<Rect>, dead: &Vec<bool>, r: &Rect) -> (found: Option<usize>)
    requires
        rs@.len() == dead@.len(),
    ensures
        match found {
            Some(i) => first_live(rs@, dead@, *r) == i && i < rs@.len(),
            None => first_live(rs@, dead@, *r) == -1,
        },
{
    let mut i: usize = 0;
    while i < rs.len()
        invariant
            i <= rs@.len(),
            rs@.len() == dead@.len(),
            first_live(rs@, dead@, *r) == first_live_from(rs@, dead@, *r, i as int),
        decreases rs@.len() - i,
    {
        if !dead[i] && overlaps(&rs[i], r) {
            proof {
                first_live_range(rs@, dead@, *r, i as int);
            }
            return Some(i);
        }
        i = i + 1;
    }
    None
}

fn find_collider(cs: &Vec<Vec<Rect>>, dead: &Vec<Vec<bool>>, r: &Rect) -> (found: Option<(usize, usize)>)
    requires
        cs@.len() == dead@.len(),
        forall|k: int| 0 <= k < cs@.len() ==> (#[trigger] cs@[k])@.len() == dead@[k]@.len(),
    ensures
        ({
            let h = first_collider(cs@.map_values(|v: Vec<Rect>| v@), dead@.map_values(|v: Vec<bool>| v@), *r);
            match found {
                Some((k, c)) => h == (k as int, c as int) && k < cs@.len() && c < cs@[k as int]@.len(),
                None => h.0 == -1,
            }
        }),
{
    let ghost lc = cs@.map_values(|v: Vec<Rect>| v@);
    let ghost fc = dead@.map_values(|v: Vec<bool>| v@);
    let mut k: usize = 0;
    while k < cs.len()
        invariant
            k <= cs@.len(),
            cs@.len() == dead@.len(),
            lc == cs@.map_values(|v: Vec<Rect>| v@),
            fc == dead@.map_values(|v: Vec<bool>| v@),
            forall|k: int| 0 <= k < cs@.len() ==> (#[trigger] cs@[k])@.len() == dead@[k]@.len(),
            first_collider(lc, fc, *r) == first_collider_from(lc, fc, *r, k as int),
        decreases cs@.len() - k,
    {
        let c = find_live(&cs[k], &dead[k], r);
        assert(lc[k as int] == cs@[k as int]@);
        assert(fc[k as int] == dead@[k as int]@);
        match c {
            Some(c) => {
                proof {
                    first_live_range(cs@[k as int]@, dead@[k as int]@, *r, 0);
                }
                return Some((k, c));
            },
            None => {},
        }
        k = k + 1;
    }
    None
}

proof fn first_live_range(rs: Seq<Rect>, dead: Seq<bool>, r: Rect, i: int)
    ensures
        -1 <= first_live_from(rs, dead, r, i) < rs.len(),
        first_live_from(rs, dead, r, i) >= 0 ==> first_live_from(rs, dead, r, i) >= i,
    decreases rs.len() - i,
{
    if 0 <= i < rs.len() {
        first_live_range(rs, dead, r, i + 1);
    }
}

fn copy_flags(v: &Vec<bool>) -> (r: Vec<bool>)
    ensures
        r@ == v@,
{
    let mut r: Vec<bool> = Vec::new();
    let mut i: usize = 0;
    while i < v.len()
        invariant
            i <= v@.len(),
            r@ == v@.subrange(0, i as int),
        decreases v@.len() - i,
    {
        r.push(v[i]);
        i = i + 1;
        assert(r@ =~= v@.subrange(0, i as int));
    }
    assert(v@.subrange(0, v@.len() as int) =~= v@);
    r
}

fn mark_all(cs: &Vec<Vec<Rect>>, dead: &mut Vec<Vec<bool>>, r: &Rect)
    requires
        cs@.len() == old(dead)@.len(),
        forall|k: int| 0 <= k < cs@.len() ==> (#[trigger] cs@[k])@.len() == old(dead)@[k]@.len(),
    ensures
        final(dead)@.map_values(|v: Vec<bool>| v@) == mark_colliders(
            cs@.map_values(|v: Vec<Rect>| v@),
            old(dead)@.map_values(|v: Vec<bool>| v@),
            *r,
        ),
        final(dead)@.len() == cs@.len(),
        forall|k: int| 0 <= k < cs@.len() ==> (#[trigger] cs@[k])@.len() == final(dead)@[k]@.len(),
{
    let ghost lc = cs@.map_values(|v: Vec<Rect>| v@);
    let ghost fc = dead@.map_values(|v: Vec<bool>| v@);
    let ghost target = mark_colliders(lc, fc, *r);
    let n = cs.len();
    let mut k: usize = 0;
    while k < n
        invariant
            k <= n,
            n == cs@.len(),
            dead@.len() == n,
            lc == cs@.map_values(|v: Vec<Rect>| v@),
            fc.len() == n,
            target == mark_colliders(lc, fc, *r),
            forall|j: int| 0 <= j < n ==> (#[trigger] cs@[j])@.len() == fc[j].len(),
            forall|j: int| 0 <= j < n ==> (#[trigger] dead@[j])@.len() == fc[j].len(),
            forall|j: int| 0 <= j < k ==> (#[trigger] dead@[j])@ == target[j],
            forall|j: int| k <= j < n ==> (#[trigger] dead@[j])@ == fc[j],
        decreases n - k,
    {
        let m = cs[k].len();
        let mut c: usize = 0;
        assert(lc[k as int] == cs@[k as int]@);
        while c < m
            invariant
                k < n,
                c <= m,
                n == cs@.len(),
                m == cs@[k as int]@.len(),
                dead@.len() == n,
                lc == cs@.map_values(|v: Vec<Rect>| v@),
                fc.len() == n,
                target == mark_colliders(lc, fc, *r),
                forall|j: int| 0 <= j < n ==> (#[trigger] cs@[j])@.len() == fc[j].len(),
                forall|j: int| 0 <= j < n ==> (#[trigger] dead@[j])@.len() == fc[j].len(),
                forall|j: int| 0 <= j < k ==> (#[trigger] dead@[j])@ == target[j],
                forall|j: int| k < j < n ==> (#[trigger] dead@[j])@ == fc[j],
                forall|q: int| 0 <= q < c ==> (#[trigger] dead@[k as int]@[q]) == (fc[k as int][q] || rects_overlap(cs@[k as int]@[q], *r)),
                forall|q: int| c <= q < m ==> (#[trigger] dead@[k as int]@[q]) == fc[k as int][q],
            decreases m - c,
        {
            if !dead[k][c] && overlaps(&cs[k][c], r) {
                dead[k].set(c, true);
            }
            c = c + 1;
        }
        assert(dead@[k as int]@ =~= target[k as int]);
        k = k + 1;
    }
    assert(dead@.map_values(|v: Vec<bool>| v@) =~= target);
}

proof fn fits_unfolded(s: &Snapshot, h: &Hits)
    requires
        fits(s@, h@),
    ensures
        s.colliders@.len() == h.colliders@.len(),
        forall|k: int| 0 <= k < s.colliders@.len() ==> (#[trigger] s.colliders@[k])@.len() == h.colliders@[k]@.len(),
        s.bullets@.len() == h.bullets@.len(),
        s.invaders@.len() == h.invaders@.len(),
        s.shots@.len() == h.shots@.len(),
{
    assert forall|k: int| 0 <= k < s.colliders@.len() implies (#[trigger] s.colliders@[k])@.len()
        == h.colliders@[k]@.len() by {
        assert(s@.colliders[k] == s.colliders@[k]@);
        assert(h@.colliders[k] == h.colliders@[k]@);
    }
}

/// One collision pass over the boxes in `s`, recording in `h` what it
/// destroys.
pub fn resolve_hits(s: &Snapshot, h: &mut Hits)
    requires
        fits(s@, old(h)@),
    ensures
        final(h)@ == resolve(s@, old(h)@),
        fits(s@, final(h)@),
{
    let ghost l = s@;
    let ghost f0 = h@;
    let start = copy_flags(&h.invaders);
    assert(start@.len() == l.invaders.len());

    let nb = s.bullets.len();
    let mut j: usize = 0;
    while j < nb
        invariant
            j <= nb,
            nb == l.bullets.len(),
            l == s@,
            fits(l, h@),
            bullets_from(l, h@, j as int) == bullets_from(l, f0, 0),
        decreases nb - j,
    {
        let ghost before = h@;
        proof {
            fits_unfolded(s, h);
        }
        if !h.bullets[j] {
            let b = s.bullets[j];
            match find_live(&s.invaders, &h.invaders, &b) {
                Some(i) => {
                    h.invaders.set(i, true);
                    h.bullets.set(j, true);
                },
                None => {
                    match find_collider(&s.colliders, &h.colliders, &b) {
                        Some((k, c)) => {
                            h.colliders[k].set(c, true);
                            h.bullets.set(j, true);
                        },
                        None => {
                            if s.ufo_active && !h.ufo && overlaps(&s.ufo, &b) {
                                h.ufo = true;
                                h.bullets.set(j, true);
                            }
                        },
                    }
                },
            }
        }
        proof {
            let t = bullet_step(l, before, j as int);
            assert(h@.bullets =~= t.bullets);
            assert(h@.invaders =~= t.invaders);
            assert(h@.colliders =~= t.colliders);
            assert(h@.shots =~= t.shots);
            assert(h@ == t);
        }
        j = j + 1;
    }

    let ni = s.invaders.len();
    let mut i: usize = 0;
    let ghost f1 = h@;
    while i < ni
        invariant
            i <= ni,
            ni == l.invaders.len(),
            l == s@,
            fits(l, h@),
            start@ == f0.invaders,
            start@.len() == ni,
            invaders_from(l, start@, h@, i as int) == invaders_from(l, start@, f1, 0),
        decreases ni - i,
    {
        let ghost before = h@;
        proof {
            fits_unfolded(s, h);
        }
        if !start[i] {
            let v = s.invaders[i];
            if overlaps(&v, &s.ship) {
                h.ship = true;
            }
            mark_all(&s.colliders, &mut h.colliders, &v);
        }
        proof {
            let t = invader_step(l, start@, before, i as int);
            assert(h@.colliders =~= t.colliders);
            assert(h@ == t);
        }
        i = i + 1;
    }

    let ns = s.shots.len();
    let mut q: usize = 0;
    let ghost f2 = h@;
    while q < ns
        invariant
            q <= ns,
            ns == l.shots.len(),
            l == s@,
            fits(l, h@),
            shots_from(l, h@, q as int) == shots_from(l, f2, 0),
        decreases ns - q,
    {
        let ghost before = h@;
        proof {
            fits_unfolded(s, h);
        }
        if !h.shots[q] {
            let r = s.shots[q];
            if overlaps(&r, &s.ship) {
                h.ship = true;
            } else {
                match find_live(&s.bullets, &h.bullets, &r) {
                    Some(j) => {
                        h.shots.set(q, true);
                        h.bullets.set(j, true);
                    },
                    None => {
                        match find_collider(&s.colliders, &h.colliders, &r) {
                            Some((k, c)) => {
                                h.colliders[k].set(c, true);
                                h.shots.set(q, true);
                            },
                            None => {},
                        }
                    },
                }
            }
        }
        proof {
            let t = shot_step(l, before, q as int);
            assert(h@.bullets =~= t.bullets);
            assert(h@.colliders =~= t.colliders);
            assert(h@.shots =~= t.shots);
            assert(h@ == t);
        }
        q = q + 1;
    }
}

} // verus!

verus! {

proof fn invaders_from_keeps(l: Layout, start: Seq<bool>, f: Flags, i: int)
    ensures
        invaders_from(l, start, f, i).bullets == f.bullets,
        invaders_from(l, start, f, i).invaders == f.invaders,
        f.ship ==> invaders_from(l, start, f, i).ship,
    decreases l.invaders.len() - i,
{
    if 0 <= i < l.invaders.len() {
        invaders_from_keeps(l, start, invader_step(l, start, f, i), i + 1);
    }
}

proof fn invaders_from_hit_ship(l: Layout, start: Seq<bool>, f: Flags, k: int, i: int)
    requires
        0 <= k <= i < l.invaders.len(),
        !start[i],
        rects_overlap(l.invaders[i], l.ship),
    ensures
        invaders_from(l, start, f, k).ship,
    decreases i - k,
{
    let g = invader_step(l, start, f, k);
    if k == i {
        invaders_from_keeps(l, start, g, k + 1);
    } else {
        invaders_from_hit_ship(l, start, g, k + 1, i);
    }
}

proof fn shots_from_keep_ship(l: Layout, f: Flags, s: int)
    ensures
        f.ship ==> shots_from(l, f, s).ship,
    decreases l.shots.len() - s,
{
    if 0 <= s < l.shots.len() {
        shots_from_keep_ship(l, shot_step(l, f, s), s + 1);
    }
}

/// Invader against ship: an invader live when the pass begins that touches
/// the ship destroys it, even when a bullet destroys that invader in the
/// same pass.
pub proof fn invader_destroys_ship(l: Layout, f: Flags, i: int)
    requires
        0 <= i < l.invaders.len(),
        !f.invaders[i],
        rects_overlap(l.invaders[i], l.ship),
    ensures
        resolve(l, f).ship,
{
    let f1 = bullets_from(l, f, 0);
    invaders_from_hit_ship(l, f.invaders, f1, 0, i);
    shots_from_keep_ship(l, invaders_from(l, f.invaders, f1, 0), 0);
}

proof fn shots_from_keeps(l: Layout, f: Flags, s: int)
    requires
        f.bullets.len() == l.bullets.len(),
    ensures
        shots_from(l, f, s).invaders == f.invaders,
        shots_from(l, f, s).bullets.len() == f.bullets.len(),
        forall|j: int| 0 <= j < f.bullets.len() && f.bullets[j] ==> #[trigger] shots_from(l, f, s).bullets[j],
    decreases l.shots.len() - s,
{
    if 0 <= s < l.shots.len() {
        let g = shot_step(l, f, s);
        first_live_range(l.bullets, f.bullets, l.shots[s], 0);
        assert(g.bullets.len() == f.bullets.len());
        shots_from_keeps(l, g, s + 1);
        assert forall|j: int| 0 <= j < f.bullets.len() && f.bullets[j] implies #[trigger] g.bullets[j] by {
        }
    }
}

proof fn first_live_is(rs: Seq<Rect>, dead: Seq<bool>, r: Rect, k: int, i: int)
    requires
        0 <= k <= i < rs.len(),
        !dead[i] && rects_overlap(rs[i], r),
        forall|j: int| k <= j < i ==> dead[j] || !rects_overlap(#[trigger] rs[j], r),
    ensures
        first_live_from(rs, dead, r, k) == i,
    decreases i - k,
{
    if k < i {
        first_live_is(rs, dead, r, k + 1, i);
    }
}

proof fn first_live_overlaps(rs: Seq<Rect>, dead: Seq<bool>, r: Rect, k: int)
    requires
        0 <= k,
    ensures
        first_live_from(rs, dead, r, k) >= 0 ==> rects_overlap(rs[first_live_from(rs, dead, r, k)], r),
    decreases rs.len() - k,
{
    if k < rs.len() {
        first_live_overlaps(rs, dead, r, k + 1);
    }
}

/// Bullet against invader: with one live player bullet, whatever else the
/// pass holds, a bullet overlapping live invader `i` (for instance at exactly
/// its position) destroys it and is destroyed with it, provided no live
/// invader listed before `i` overlaps the bullet too; and a bullet lying
/// entirely below invader `i` never destroys it.
pub proof fn bullet_against_invader(l: Layout, f: Flags, i: int)
    requires
        fits(l, f),
        l.bullets.len() == 1,
        !f.bullets[0],
        0 <= i < l.invaders.len(),
        !f.invaders[i],
    ensures
        rects_overlap(l.bullets[0], l.invaders[i]) && (forall|j: int|
            0 <= j < i ==> f.invaders[j] || !rects_overlap(#[trigger] l.invaders[j], l.bullets[0]))
            ==> resolve(l, f).bullets[0] && resolve(l, f).invaders[i],
        l.bullets[0].y >= l.invaders[i].y_max() ==> !resolve(l, f).invaders[i],
{
    let b = l.bullets[0];
    let f1 = bullet_step(l, f, 0);
    assert(bullets_from(l, f1, 1) == f1);
    assert(bullets_from(l, f, 0) == f1);
    let f2 = invaders_from(l, f.invaders, f1, 0);
    invaders_from_keeps(l, f.invaders, f1, 0);
    shots_from_keeps(l, f2, 0);
    first_live_range(l.invaders, f.invaders, b, 0);
    first_live_overlaps(l.invaders, f.invaders, b, 0);
    if rects_overlap(b, l.invaders[i]) && (forall|j: int|
        0 <= j < i ==> f.invaders[j] || !rects_overlap(#[trigger] l.invaders[j], b)) {
        first_live_is(l.invaders, f.invaders, b, 0, i);
        assert(f1.invaders[i]);
        assert(f1.bullets[0]);
    }
    if b.y >= l.invaders[i].y_max() {
        assert(!rects_overlap(l.invaders[i], b));
        assert(first_live(l.invaders, f.invaders, b) != i);
        assert(f1.invaders[i] == f.invaders[i]);
    }
}

} // verus!
