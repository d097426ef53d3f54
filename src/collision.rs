use vstd::prelude::*;

use crate::barrier::{Barrier, Collider};
use crate::game::{Game, GameObject};
use crate::invader::Invader;
use crate::player::Player;
use crate::rect::Rect;
use crate::resolve::{resolve, resolve_hits, Flags, Hits, Layout, Snapshot};
use crate::ufo::UFO;

verus! {

pub open spec fn object_rects(s: Seq<GameObject>) -> Seq<Rect> {
    Seq::new(s.len(), |j: int| s[j].rect)
}

pub open spec fn object_flags(s: Seq<GameObject>) -> Seq<bool> {
    Seq::new(s.len(), |j: int| s[j].is_destroyed)
}

pub open spec fn invader_rects(s: Seq<Invader>) -> Seq<Rect> {
    Seq::new(s.len(), |j: int| s[j].game_object.rect)
}

pub open spec fn invader_flags(s: Seq<Invader>) -> Seq<bool> {
    Seq::new(s.len(), |j: int| s[j].game_object.is_destroyed)
}

pub open spec fn collider_boxes(bs: Seq<Barrier>) -> Seq<Seq<Rect>> {
    Seq::new(bs.len(), |k: int| Seq::new(bs[k].colliders@.len(), |c: int| bs[k].colliders@[c].rect))
}

pub open spec fn collider_flags(bs: Seq<Barrier>) -> Seq<Seq<bool>> {
    Seq::new(
        bs.len(),
        |k: int| Seq::new(bs[k].colliders@.len(), |c: int| bs[k].colliders@[c].is_destroyed),
    )
}

/// The boxes the collision pass looks at.
pub open spec fn layout_of(p: Player, g: Game) -> Layout {
    Layout {
        bullets: object_rects(p.bullets@),
        invaders: invader_rects(g.invaders@),
        colliders: collider_boxes(g.barrier_row@),
        ufo: g.ufo.game_object.rect,
        ufo_active: g.ufo_active,
        shots: object_rects(g.invader_shots@),
        ship: p.game_object.rect,
    }
}

/// The destroyed flags the collision pass reads and writes.
pub open spec fn flags_of(p: Player, g: Game) -> Flags {
    Flags {
        bullets: object_flags(p.bullets@),
        invaders: invader_flags(g.invaders@),
        colliders: collider_flags(g.barrier_row@),
        ufo: g.ufo.game_object.is_destroyed,
        shots: object_flags(g.invader_shots@),
        ship: p.game_object.is_destroyed,
    }
}

pub open spec fn with_object_flags(s: Seq<GameObject>, f: Seq<bool>) -> Seq<GameObject> {
    Seq::new(s.len(), |j: int| GameObject { is_destroyed: f[j], ..s[j] })
}

pub open spec fn with_invader_flags(s: Seq<Invader>, f: Seq<bool>) -> Seq<Invader> {
    Seq::new(
        s.len(),
        |j: int| Invader { game_object: GameObject { is_destroyed: f[j], ..s[j].game_object }, ..s[j] },
    )
}

pub open spec fn with_collider_flags(s: Seq<Collider>, f: Seq<bool>) -> Seq<Collider> {
    Seq::new(s.len(), |j: int| Collider { is_destroyed: f[j], ..s[j] })
}

fn objects_snapshot(v: &Vec<GameObject>) -> (r: (Vec<Rect>, Vec<bool>))
    ensures
        r.0@ == object_rects(v@),
        r.1@ == object_flags(v@),
{
    let mut rs: Vec<Rect> = Vec::new();
    let mut fs: Vec<bool> = Vec::new();
    let mut j: usize = 0;
    while j < v.len()
        invariant
            j <= v@.len(),
            rs@ =~= object_rects(v@).subrange(0, j as int),
            fs@ =~= object_flags(v@).subrange(0, j as int),
        decreases v@.len() - j,
    {
        rs.push(v[j].rect);
        fs.push(v[j].is_destroyed);
        j = j + 1;
    }
    (rs, fs)
}

fn invaders_snapshot(v: &Vec<Invader>) -> (r: (Vec<Rect>, Vec<bool>))
    ensures
        r.0@ == invader_rects(v@),
        r.1@ == invader_flags(v@),
{
    let mut rs: Vec<Rect> = Vec::new();
    let mut fs: Vec<bool> = Vec::new();
    let mut j: usize = 0;
    while j < v.len()
        invariant
            j <= v@.len(),
            rs@ =~= invader_rects(v@).subrange(0, j as int),
            fs@ =~= invader_flags(v@).subrange(0, j as int),
        decreases v@.len() - j,
    {
        rs.push(v[j].game_object.rect);
        fs.push(v[j].game_object.is_destroyed);
        j = j + 1;
    }
    (rs, fs)
}

fn colliders_snapshot(bs: &Vec<Barrier>) -> (r: (Vec<Vec<Rect>>, Vec<Vec<bool>>))
    ensures
        r.0@.map_values(|v: Vec<Rect>| v@) == collider_boxes(bs@),
        r.1@.map_values(|v: Vec<bool>| v@) == collider_flags(bs@),
{
    let mut rs: Vec<Vec<Rect>> = Vec::new();
    let mut fs: Vec<Vec<bool>> = Vec::new();
    let mut k: usize = 0;
    while k < bs.len()
        invariant
            k <= bs@.len(),
            rs@.len() == k,
            fs@.len() == k,
            forall|q: int| 0 <= q < k ==> (#[trigger] rs@[q])@ == collider_boxes(bs@)[q],
            forall|q: int| 0 <= q < k ==> (#[trigger] fs@[q])@ == collider_flags(bs@)[q],
        decreases bs@.len() - k,
    {
        let cs = &bs[k].colliders;
        let mut r1: Vec<Rect> = Vec::new();
        let mut f1: Vec<bool> = Vec::new();
        let mut c: usize = 0;
        while c < cs.len()
            invariant
                k < bs@.len(),
                *cs == bs@[k as int].colliders,
                c <= cs@.len(),
                r1@ =~= collider_boxes(bs@)[k as int].subrange(0, c as int),
                f1@ =~= collider_flags(bs@)[k as int].subrange(0, c as int),
            decreases cs@.len() - c,
        {
            r1.push(cs[c].rect);
            f1.push(cs[c].is_destroyed);
            c = c + 1;
        }
        assert(r1@ =~= collider_boxes(bs@)[k as int]);
        assert(f1@ =~= collider_flags(bs@)[k as int]);
        rs.push(r1);
        fs.push(f1);
        k = k + 1;
    }
    assert(rs@.map_values(|v: Vec<Rect>| v@) =~= collider_boxes(bs@));
    assert(fs@.map_values(|v: Vec<bool>| v@) =~= collider_flags(bs@));
    (rs, fs)
}

fn write_object_flags(v: &mut Vec<GameObject>, f: &Vec<bool>)
    requires
        old(v)@.len() == f@.len(),
    ensures
        final(v)@ == with_object_flags(old(v)@, f@),
{
    let ghost orig = v@;
    let mut j: usize = 0;
    while j < v.len()
        invariant
            j <= v@.len(),
            v@.len() == orig.len(),
            orig.len() == f@.len(),
            forall|q: int| 0 <= q < j ==> #[trigger] v@[q] == with_object_flags(orig, f@)[q],
            forall|q: int| j <= q < v@.len() ==> #[trigger] v@[q] == orig[q],
        decreases v@.len() - j,
    {
        v[j].is_destroyed = f[j];
        j = j + 1;
    }
    assert(v@ =~= with_object_flags(orig, f@));
}

fn write_invader_flags(v: &mut Vec<Invader>, f: &Vec<bool>)
    requires
        old(v)@.len() == f@.len(),
    ensures
        final(v)@ == with_invader_flags(old(v)@, f@),
{
    let ghost orig = v@;
    let mut j: usize = 0;
    while j < v.len()
        invariant
            j <= v@.len(),
            v@.len() == orig.len(),
            orig.len() == f@.len(),
            forall|q: int| 0 <= q < j ==> #[trigger] v@[q] == with_invader_flags(orig, f@)[q],
            forall|q: int| j <= q < v@.len() ==> #[trigger] v@[q] == orig[q],
        decreases v@.len() - j,
    {
        v[j].game_object.is_destroyed = f[j];
        j = j + 1;
    }
    assert(v@ =~= with_invader_flags(orig, f@));
}

fn write_collider_flags(bs: &mut Vec<Barrier>, f: &Vec<Vec<bool>>)
    requires
        old(bs)@.len() == f@.len(),
        forall|k: int| 0 <= k < f@.len() ==> (#[trigger] f@[k])@.len() == old(bs)@[k].colliders@.len(),
    ensures
        final(bs)@.len() == old(bs)@.len(),
        forall|k: int|
            0 <= k < final(bs)@.len() ==> (#[trigger] final(bs)@[k]).game_object == old(bs)@[k].game_object
                && final(bs)@[k].colliders@ == with_collider_flags(old(bs)@[k].colliders@, f@[k]@),
{
    let ghost orig = bs@;
    let mut k: usize = 0;
    while k < bs.len()
        invariant
            k <= bs@.len(),
            bs@.len() == orig.len(),
            orig.len() == f@.len(),
            forall|q: int| 0 <= q < f@.len() ==> (#[trigger] f@[q])@.len() == orig[q].colliders@.len(),
            forall|q: int|
                0 <= q < k ==> (#[trigger] bs@[q]).game_object == orig[q].game_object
                    && bs@[q].colliders@ == with_collider_flags(orig[q].colliders@, f@[q]@),
            forall|q: int| k <= q < bs@.len() ==> #[trigger] bs@[q] == orig[q],
        decreases bs@.len() - k,
    {
        let n = bs[k].colliders.len();
        let mut c: usize = 0;
        while c < n
            invariant
                k < bs@.len(),
                bs@.len() == orig.len(),
                orig.len() == f@.len(),
                n == orig[k as int].colliders@.len(),
                f@[k as int]@.len() == n,
                c <= n,
                bs@[k as int].game_object == orig[k as int].game_object,
                bs@[k as int].colliders@.len() == n,
                forall|q: int| 0 <= q < f@.len() ==> (#[trigger] f@[q])@.len() == orig[q].colliders@.len(),
                forall|q: int|
                    0 <= q < k ==> (#[trigger] bs@[q]).game_object == orig[q].game_object
                        && bs@[q].colliders@ == with_collider_flags(orig[q].colliders@, f@[q]@),
                forall|q: int| k < q < bs@.len() ==> #[trigger] bs@[q] == orig[q],
                forall|q: int|
                    0 <= q < c ==> #[trigger] bs@[k as int].colliders@[q] == with_collider_flags(
                        orig[k as int].colliders@,
                        f@[k as int]@,
                    )[q],
                forall|q: int| c <= q < n ==> #[trigger] bs@[k as int].colliders@[q] == orig[k as int].colliders@[q],
            decreases n - c,
        {
            bs[k].colliders[c].is_destroyed = f[k][c];
            c = c + 1;
        }
        assert(bs@[k as int].colliders@ =~= with_collider_flags(orig[k as int].colliders@, f@[k as int]@));
        k = k + 1;
    }
}

/// One collision pass over the player's bullets and ship and the game's
/// invaders, barrier colliders, UFO and enemy shots. Only destroyed flags
/// change, and they become what `resolve` gives on the positions at the
/// start of the pass.
pub fn update(player: &mut Player, game: &mut Game)
    ensures
        ({
            let r = resolve(layout_of(*old(player), *old(game)), flags_of(*old(player), *old(game)));
            &&& final(player).bullets@ == with_object_flags(old(player).bullets@, r.bullets)
            &&& *final(player) == (Player {
                bullets: final(player).bullets,
                game_object: GameObject { is_destroyed: r.ship, ..old(player).game_object },
                ..*old(player)
            })
            &&& final(game).invaders@ == with_invader_flags(old(game).invaders@, r.invaders)
            &&& final(game).invader_shots@ == with_object_flags(old(game).invader_shots@, r.shots)
            &&& final(game).barrier_row@.len() == old(game).barrier_row@.len()
            &&& forall|k: int|
                0 <= k < final(game).barrier_row@.len() ==> (#[trigger] final(game).barrier_row@[k]).game_object
                    == old(game).barrier_row@[k].game_object && final(game).barrier_row@[k].colliders@
                    == with_collider_flags(old(game).barrier_row@[k].colliders@, r.colliders[k])
            &&& *final(game) == (Game {
                invaders: final(game).invaders,
                barrier_row: final(game).barrier_row,
                invader_shots: final(game).invader_shots,
                ufo: UFO {
                    game_object: GameObject { is_destroyed: r.ufo, ..old(game).ufo.game_object },
                    ..old(game).ufo
                },
                ..*old(game)
            })
        }),
{
    let ghost l = layout_of(*player, *game);
    let ghost f = flags_of(*player, *game);

    let (bullet_rects, bullet_flags) = objects_snapshot(&player.bullets);
    let (invader_boxes, invader_dead) = invaders_snapshot(&game.invaders);
    let (collider_rects, collider_dead) = colliders_snapshot(&game.barrier_row);
    let (shot_rects, shot_flags) = objects_snapshot(&game.invader_shots);

    let snapshot = Snapshot {
        bullets: bullet_rects,
        invaders: invader_boxes,
        colliders: collider_rects,
        ufo: game.ufo.game_object.rect,
        ufo_active: game.ufo_active,
        shots: shot_rects,
        ship: player.game_object.rect,
    };
    let mut hits = Hits {
        bullets: bullet_flags,
        invaders: invader_dead,
        colliders: collider_dead,
        ufo: game.ufo.game_object.is_destroyed,
        shots: shot_flags,
        ship: player.game_object.is_destroyed,
    };
    proof {
        assert(snapshot@ == l);
        assert(hits@ == f);
        assert forall|k: int| 0 <= k < l.colliders.len() implies (#[trigger] f.colliders[k]).len()
            == l.colliders[k].len() by {
        }
    }

    resolve_hits(&snapshot, &mut hits);
    let ghost r = hits@;
    assert(r == resolve(l, f));

    proof {
        assert forall|k: int| 0 <= k < hits.colliders@.len() implies (#[trigger] hits.colliders@[k])@.len()
            == game.barrier_row@[k].colliders@.len() by {
            assert(r.colliders[k] == hits.colliders@[k]@);
            assert(l.colliders[k] == snapshot.colliders@[k]@);
        }
        assert forall|k: int| 0 <= k < hits.colliders@.len() implies (#[trigger] hits.colliders@[k])@ == r.colliders[k] by {
        }
    }

    write_object_flags(&mut player.bullets, &hits.bullets);
    player.game_object.is_destroyed = hits.ship;
    write_invader_flags(&mut game.invaders, &hits.invaders);
    write_collider_flags(&mut game.barrier_row, &hits.colliders);
    write_object_flags(&mut game.invader_shots, &hits.shots);
    game.ufo.game_object.is_destroyed = hits.ufo;
}

} // verus!
