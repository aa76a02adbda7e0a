//! Batching of screen-space sprites: sprites are ordered by layer and then
//! texture name, and consecutive sprites with the same texture share a batch.

use vstd::prelude::*;
use vstd::string::StrSliceExecFns;
use crate::text::str_equal;

verus! {

/// The character codes of a text.
pub open spec fn codes(s: Seq<char>) -> Seq<u32> {
    s.map_values(|c: char| c as u32)
}

/// Lexicographic order of code sequences.
pub open spec fn codes_less(a: Seq<u32>, b: Seq<u32>) -> bool
    decreases a.len(),
{
    if a.len() == 0 {
        b.len() > 0
    } else if b.len() == 0 {
        false
    } else if a[0] == b[0] {
        codes_less(a.drop_first(), b.drop_first())
    } else {
        a[0] < b[0]
    }
}

/// Lexicographic order of texts by character codes, which for UTF-8 is the
/// byte order `String`'s `Ord` uses.
pub open spec fn text_less(a: Seq<char>, b: Seq<char>) -> bool {
    codes_less(codes(a), codes(b))
}

/// The (layer, texture name) of each sprite.
pub open spec fn sprite_keys(keys: Seq<(i32, String)>) -> Seq<(i32, Seq<char>)> {
    keys.map_values(|k: (i32, String)| (k.0, k.1@))
}

/// Whether sprite `a` comes before sprite `b`: lower layer first, then texture
/// name, then the order the sprites were collected in (the sort is stable).
pub open spec fn sprite_before(keys: Seq<(i32, Seq<char>)>, a: int, b: int) -> bool {
    let (la, ta) = keys[a];
    let (lb, tb) = keys[b];
    la < lb || (la == lb && (text_less(ta, tb) || (codes(ta) == codes(tb) && a < b)))
}

/// `order` lists each sprite index once, in draw order.
pub open spec fn is_draw_order(keys: Seq<(i32, Seq<char>)>, order: Seq<usize>) -> bool {
    &&& order.len() == keys.len()
    &&& forall|p: int| 0 <= p < order.len() ==> #[trigger] order[p] < keys.len()
    &&& order.no_duplicates()
    &&& forall|p: int, q: int|
        0 <= p < q < order.len() ==> sprite_before(keys, #[trigger] order[p] as int, #[trigger] order[q] as int)
}

/// `batches` splits positions `0..n` of the draw order into consecutive
/// ranges, each a maximal run of sprites with the same texture.
pub open spec fn is_batching(textures: Seq<Seq<char>>, batches: Seq<(usize, usize)>) -> bool {
    let n = textures.len();
    &&& n == 0 <==> batches.len() == 0
    &&& batches.len() > 0 ==> batches[0].0 == 0 && batches.last().1 == n
    &&& forall|k: int| 0 <= k < batches.len() ==> #[trigger] batches[k].0 < batches[k].1 <= n
    &&& forall|k: int| 0 <= k < batches.len() - 1 ==> #[trigger] batches[k].1 == batches[k + 1].0
    &&& forall|k: int, p: int|
        0 <= k < batches.len() && batches[k].0 <= p < batches[k].1 ==> #[trigger] textures[p]
            == #[trigger] textures[batches[k].0 as int]
    &&& forall|k: int|
        0 <= k < batches.len() && batches[k].1 < n ==> textures[#[trigger] batches[k].1 as int]
            != textures[batches[k].0 as int]
}

proof fn lemma_codes_less_irreflexive(a: Seq<u32>)
    ensures
        !codes_less(a, a),
    decreases a.len(),
{
    if a.len() > 0 {
        lemma_codes_less_irreflexive(a.drop_first());
    }
}

proof fn lemma_codes_less_transitive(a: Seq<u32>, b: Seq<u32>, c: Seq<u32>)
    requires
        codes_less(a, b),
        codes_less(b, c),
    ensures
        codes_less(a, c),
    decreases a.len(),
{
    if a.len() > 0 && b.len() > 0 && c.len() > 0 {
        if a[0] == b[0] && b[0] == c[0] {
            lemma_codes_less_transitive(a.drop_first(), b.drop_first(), c.drop_first());
        }
    }
}

proof fn lemma_codes_less_total(a: Seq<u32>, b: Seq<u32>)
    ensures
        codes_less(a, b) || codes_less(b, a) || a == b,
    decreases a.len(),
{
    if a.len() > 0 && b.len() > 0 && a[0] == b[0] {
        lemma_codes_less_total(a.drop_first(), b.drop_first());
        if a.drop_first() == b.drop_first() {
            assert(a =~= seq![a[0]] + a.drop_first());
            assert(b =~= seq![b[0]] + b.drop_first());
        }
    } else if a.len() == 0 && b.len() == 0 {
        assert(a =~= b);
    }
}

proof fn lemma_before_transitive(keys: Seq<(i32, Seq<char>)>, a: int, b: int, c: int)
    requires
        sprite_before(keys, a, b),
        sprite_before(keys, b, c),
    ensures
        sprite_before(keys, a, c),
{
    let (la, ta) = keys[a];
    let (lb, tb) = keys[b];
    let (lc, tc) = keys[c];
    if la == lb && lb == lc {
        if text_less(ta, tb) && text_less(tb, tc) {
            lemma_codes_less_transitive(codes(ta), codes(tb), codes(tc));
        }
    }
}

/// Whether text `a` orders before text `b`.
pub fn text_precedes(a: &str, b: &str) -> (r: bool)
    ensures
        r == text_less(a@, b@),
{
    let na = a.unicode_len();
    let nb = b.unicode_len();
    let mut i: usize = 0;
    assert(codes(a@).skip(0) =~= codes(a@));
    assert(codes(b@).skip(0) =~= codes(b@));
    while i < na && i < nb
        invariant
            na == a@.len(),
            nb == b@.len(),
            i <= na,
            i <= nb,
            text_less(a@, b@) == codes_less(codes(a@).skip(i as int), codes(b@).skip(i as int)),
        decreases na - i,
    {
        let ca = a.get_char(i);
        let cb = b.get_char(i);
        assert(codes(a@).skip(i as int)[0] == ca as u32);
        assert(codes(b@).skip(i as int)[0] == cb as u32);
        if (ca as u32) != (cb as u32) {
            return (ca as u32) < (cb as u32);
        }
        assert(codes(a@).skip(i as int).drop_first() =~= codes(a@).skip(i + 1));
        assert(codes(b@).skip(i as int).drop_first() =~= codes(b@).skip(i + 1));
        i = i + 1;
    }
    assert(codes(a@).skip(i as int).len() == na - i);
    assert(codes(b@).skip(i as int).len() == nb - i);
    i < nb
}

fn sprite_precedes(keys: &Vec<(i32, String)>, a: usize, b: usize) -> (r: bool)
    requires
        a < keys@.len(),
        b < keys@.len(),
    ensures
        r == sprite_before(sprite_keys(keys@), a as int, b as int),
{
    let ghost sk = sprite_keys(keys@);
    assert(sk[a as int] == (keys@[a as int].0, keys@[a as int].1@));
    assert(sk[b as int] == (keys@[b as int].0, keys@[b as int].1@));
    let la = keys[a].0;
    let lb = keys[b].0;
    if la < lb {
        return true;
    }
    if la > lb {
        return false;
    }
    if text_precedes(keys[a].1.as_str(), keys[b].1.as_str()) {
        return true;
    }
    if text_precedes(keys[b].1.as_str(), keys[a].1.as_str()) {
        return false;
    }
    proof {
        lemma_codes_less_total(codes(keys@[a as int].1@), codes(keys@[b as int].1@));
    }
    a < b
}

/// The draw order of sprites given their (layer, texture name): sorted by
/// layer, then texture name, stable for equal keys.
pub fn sprite_draw_order(keys: &Vec<(i32, String)>) -> (order: Vec<usize>)
    ensures
        is_draw_order(sprite_keys(keys@), order@),
{
    let ghost sk = sprite_keys(keys@);
    let n = keys.len();
    let mut order: Vec<usize> = Vec::new();
    let mut i: usize = 0;
    while i < n
        invariant
            n == keys@.len(),
            sk == sprite_keys(keys@),
            i <= n,
            order@.len() == i,
            forall|p: int| 0 <= p < order@.len() ==> #[trigger] order@[p] < i,
            order@.no_duplicates(),
            forall|p: int, q: int|
                0 <= p < q < order@.len() ==> sprite_before(sk, #[trigger] order@[p] as int, #[trigger] order@[q] as int),
        decreases n - i,
    {
        // Find the insertion point: after every sprite that comes before i.
        let mut pos: usize = order.len();
        while pos > 0 && !sprite_precedes(keys, order[pos - 1], i)
            invariant
                n == keys@.len(),
                sk == sprite_keys(keys@),
                i < n,
                pos <= order@.len(),
                order@.len() == i,
                forall|p: int| 0 <= p < order@.len() ==> #[trigger] order@[p] < i,
                forall|p: int| pos <= p < order@.len() ==> !sprite_before(sk, #[trigger] order@[p] as int, i as int),
            decreases pos,
        {
            pos = pos - 1;
        }
        proof {
            // Sprites before the insertion point come before i; those after do not.
            assert forall|p: int| 0 <= p < pos implies sprite_before(sk, #[trigger] order@[p] as int, i as int) by {
                if p < pos - 1 {
                    let last = order@[pos - 1] as int;
                    assert(sprite_before(sk, order@[p] as int, last));
                    lemma_before_transitive(sk, order@[p] as int, last, i as int);
                }
            }
            assert forall|p: int| pos <= p < order@.len() implies sprite_before(sk, i as int, #[trigger] order@[p] as int) by {
                let j = order@[p] as int;
                let (li, ti) = sk[i as int];
                let (lj, tj) = sk[j];
                lemma_codes_less_total(codes(ti), codes(tj));
                if codes(ti) == codes(tj) {
                    lemma_codes_less_irreflexive(codes(ti));
                }
            }
        }
        let ghost old_order = order@;
        order.insert(pos, i);
        proof {
            let o = order@;
            assert(o == old_order.insert(pos as int, i));
            assert forall|p: int| 0 <= p < o.len() implies #[trigger] o[p] < i + 1 by {
                if p < pos {
                    assert(o[p] == old_order[p]);
                } else if p > pos {
                    assert(o[p] == old_order[p - 1]);
                }
            }
            assert forall|p: int, q: int| 0 <= p < q < o.len() implies sprite_before(sk, #[trigger] o[p] as int, #[trigger] o[q] as int) by {
                if p < pos && q < pos {
                    assert(o[p] == old_order[p] && o[q] == old_order[q]);
                } else if p < pos && q == pos {
                    assert(o[p] == old_order[p]);
                } else if p < pos {
                    assert(o[p] == old_order[p] && o[q] == old_order[q - 1]);
                } else if p == pos {
                    assert(o[q] == old_order[q - 1]);
                } else {
                    assert(o[p] == old_order[p - 1] && o[q] == old_order[q - 1]);
                }
            }
            assert forall|p: int, q: int| 0 <= p < o.len() && 0 <= q < o.len() && p != q implies o[p] != o[q] by {
                if o[p] == o[q] {
                    if p < q {
                        assert(sprite_before(sk, o[p] as int, o[q] as int));
                    } else {
                        assert(sprite_before(sk, o[q] as int, o[p] as int));
                    }
                    lemma_codes_less_irreflexive(codes(sk[o[p] as int].1));
                }
            }
        }
        i = i + 1;
    }
    order
}

/// Split a draw order into batches: maximal runs of consecutive sprites that
/// share a texture. Returns `[start, end)` position ranges.
pub fn sprite_batches(textures: &Vec<String>) -> (batches: Vec<(usize, usize)>)
    ensures
        is_batching(textures@.map_values(|t: String| t@), batches@),
{
    let ghost tv = textures@.map_values(|t: String| t@);
    let n = textures.len();
    let mut batches: Vec<(usize, usize)> = Vec::new();
    let mut start: usize = 0;
    while start < n
        invariant
            n == textures@.len(),
            tv == textures@.map_values(|t: String| t@),
            start <= n,
            batches@.len() == 0 <==> start == 0,
            batches@.len() > 0 ==> batches@[0].0 == 0 && batches@.last().1 == start,
            forall|k: int| 0 <= k < batches@.len() ==> #[trigger] batches@[k].0 < batches@[k].1 <= start,
            forall|k: int| 0 <= k < batches@.len() - 1 ==> #[trigger] batches@[k].1 == batches@[k + 1].0,
            forall|k: int, p: int|
                0 <= k < batches@.len() && batches@[k].0 <= p < batches@[k].1 ==> #[trigger] tv[p]
                    == #[trigger] tv[batches@[k].0 as int],
            forall|k: int|
                0 <= k < batches@.len() && batches@[k].1 < n ==> tv[#[trigger] batches@[k].1 as int]
                    != tv[batches@[k].0 as int],
        decreases n - start,
    {
        let mut end: usize = start + 1;
        while end < n && str_equal(textures[end].as_str(), textures[start].as_str())
            invariant
                n == textures@.len(),
                tv == textures@.map_values(|t: String| t@),
                start < end <= n,
                forall|p: int| start <= p < end ==> #[trigger] tv[p] == tv[start as int],
            decreases n - end,
        {
            end = end + 1;
        }
        let ghost old_batches = batches@;
        batches.push((start, end));
        proof {
            let b = batches@;
            assert(b == old_batches.push((start, end)));
            assert forall|k: int, p: int|
                0 <= k < b.len() && b[k].0 <= p < b[k].1 implies #[trigger] tv[p] == #[trigger] tv[b[k].0 as int] by {
                if k < old_batches.len() {
                    assert(b[k] == old_batches[k]);
                }
            }
            assert forall|k: int| 0 <= k < b.len() && b[k].1 < n implies tv[#[trigger] b[k].1 as int] != tv[b[k].0 as int] by {
                if k < old_batches.len() {
                    assert(b[k] == old_batches[k]);
                }
            }
        }
        start = end;
    }
    batches
}

/// The texture names of sprites taken in a given order.
pub open spec fn textures_in_order(keys: Seq<(i32, String)>, order: Seq<usize>) -> Seq<Seq<char>> {
    order.map_values(|i: usize| keys[i as int].1@)
}

/// Plan the sprite batches of a frame from each sprite's (layer, texture
/// name): the draw order, and the `[start, end)` ranges of that order that
/// form one batch each.
pub fn batch_sprite2d_instances(keys: &Vec<(i32, String)>) -> (plan: (Vec<usize>, Vec<(usize, usize)>))
    ensures
        is_draw_order(sprite_keys(keys@), plan.0@),
        is_batching(textures_in_order(keys@, plan.0@), plan.1@),
{
    let order = sprite_draw_order(keys);
    let mut textures: Vec<String> = Vec::new();
    let mut p: usize = 0;
    while p < order.len()
        invariant
            is_draw_order(sprite_keys(keys@), order@),
            p <= order@.len(),
            textures@.len() == p,
            forall|q: int| 0 <= q < p ==> #[trigger] textures@[q]@ == keys@[order@[q] as int].1@,
        decreases order@.len() - p,
    {
        assert(order@[p as int] < keys@.len());
        textures.push(keys[order[p]].1.clone());
        p = p + 1;
    }
    let batches = sprite_batches(&textures);
    assert(textures@.map_values(|t: String| t@) =~= textures_in_order(keys@, order@));
    (order, batches)
}

/// `n` distinct indices below `n` are all of them.
proof fn lemma_order_covers(order: Seq<usize>, n: nat)
    requires
        order.len() == n,
        forall|p: int| 0 <= p < order.len() ==> #[trigger] order[p] < n,
        order.no_duplicates(),
    ensures
        forall|i: int| 0 <= i < n ==> #[trigger] order.contains(i as usize),
{
    let ords = order.map_values(|x: usize| x as int);
    assert forall|a: int, b: int| 0 <= a < ords.len() && 0 <= b < ords.len() && a != b implies ords[a]
        != ords[b] by {
        assert(order[a] != order[b]);
    }
    assert(ords.no_duplicates());
    ords.unique_seq_to_set();
    let range = vstd::set_lib::set_int_range(0, n as int);
    vstd::set_lib::lemma_int_range(0, n as int);
    assert forall|x: int| #[trigger] ords.to_set().contains(x) implies range.contains(x) by {
        let p = choose|p: int| 0 <= p < ords.len() && ords[p] == x;
        assert(order[p] < n);
    }
    vstd::seq_lib::seq_to_set_is_finite(ords);
    vstd::set_lib::lemma_subset_equality(ords.to_set(), range);
    assert forall|i: int| 0 <= i < n implies #[trigger] order.contains(i as usize) by {
        assert(range.contains(i));
        assert(ords.to_set().contains(i));
        let p = choose|p: int| 0 <= p < ords.len() && ords[p] == i;
        assert(order[p] == i as usize);
    }
}

/// Every sprite is drawn exactly once; within one layer, sprites of one
/// texture are drawn together; every batch holds sprites of one texture.
pub proof fn law_batches_group_textures(keys: Seq<(i32, String)>, order: Seq<usize>, batches: Seq<(usize, usize)>)
    requires
        is_draw_order(sprite_keys(keys), order),
        is_batching(textures_in_order(keys, order), batches),
    ensures
        forall|i: int| 0 <= i < keys.len() ==> #[trigger] order.contains(i as usize),
        forall|p: int, q: int, r: int|
            #![trigger order[p], order[q], order[r]]
            0 <= p < q < r < order.len() && sprite_keys(keys)[order[p] as int].0 == sprite_keys(keys)[order[r] as int].0
                && codes(keys[order[p] as int].1@) == codes(keys[order[r] as int].1@)
                ==> codes(keys[order[q] as int].1@) == codes(keys[order[p] as int].1@) && sprite_keys(keys)[order[q] as int].0 == sprite_keys(keys)[order[p] as int].0,
{
    let sk = sprite_keys(keys);
    lemma_order_covers(order, keys.len());
    assert forall|p: int, q: int, r: int|
        #![trigger order[p], order[q], order[r]]
        0 <= p < q < r < order.len() && sk[order[p] as int].0 == sk[order[r] as int].0
            && codes(keys[order[p] as int].1@) == codes(keys[order[r] as int].1@)
            implies codes(keys[order[q] as int].1@) == codes(keys[order[p] as int].1@) && sk[order[q] as int].0 == sk[order[p] as int].0 by {
        let (a, b, c) = (order[p] as int, order[q] as int, order[r] as int);
        assert(sprite_before(sk, a, b));
        assert(sprite_before(sk, b, c));
        assert(sk[a] == (keys[a].0, keys[a].1@));
        assert(sk[b] == (keys[b].0, keys[b].1@));
        assert(sk[c] == (keys[c].0, keys[c].1@));
        let (ta, tb, tc) = (codes(keys[a].1@), codes(keys[b].1@), codes(keys[c].1@));
        if codes_less(ta, tb) {
            if codes_less(tb, tc) {
                lemma_codes_less_transitive(ta, tb, tc);
            }
            lemma_codes_less_irreflexive(ta);
        } else if codes_less(tb, tc) {
            lemma_codes_less_irreflexive(tc);
        }
    }
}

} // verus!
