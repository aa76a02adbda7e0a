//! Display formatting of per-frame rendering counts.

use vstd::prelude::*;
use crate::text::push_char;

verus! {

/// The decimal digit character for `d` (`d < 10`).
pub open spec fn digit_char(d: nat) -> char {
    if d == 0 {
        '0'
    } else if d == 1 {
        '1'
    } else if d == 2 {
        '2'
    } else if d == 3 {
        '3'
    } else if d == 4 {
        '4'
    } else if d == 5 {
        '5'
    } else if d == 6 {
        '6'
    } else if d == 7 {
        '7'
    } else if d == 8 {
        '8'
    } else {
        '9'
    }
}

/// The decimal rendering of `n`, without leading zeros.
pub open spec fn decimal_digits(n: nat) -> Seq<char>
    decreases n,
{
    if n < 10 {
        seq![digit_char(n)]
    } else {
        decimal_digits(n / 10).push(digit_char(n % 10))
    }
}

/// `2` raised to `k`.
pub open spec fn two_pow(k: nat) -> nat
    decreases k,
{
    if k == 0 {
        1
    } else {
        2 * two_pow((k - 1) as nat)
    }
}

/// `a / b` rounded to the nearest integer, ties to the even one.
pub open spec fn round_half_even(a: nat, b: nat) -> nat
    recommends
        b > 0,
{
    let q = a / b;
    let r = a % b;
    if 2 * r < b {
        q
    } else if 2 * r > b {
        q + 1
    } else if q % 2 == 0 {
        q
    } else {
        q + 1
    }
}

/// The largest `e` (searched upward from `e`, below 64) with `d * 2^e <= n`,
/// given `d * 2^e <= n` or `e == 0`.
pub open spec fn exponent_from(n: nat, d: nat, e: nat) -> nat
    decreases 64 - e,
{
    if e >= 64 || n < d * two_pow(e + 1) {
        e
    } else {
        exponent_from(n, d, e + 1)
    }
}

/// The binary exponent of `n / d` (for `d <= n`): the largest `e` with `d * 2^e <= n`.
pub open spec fn binary_exponent(n: nat, d: nat) -> nat {
    exponent_from(n, d, 0)
}

/// `n / d` as the nearest `f64` and then rounded to tenths, as Rust's `{:.1}`
/// prints it: the quotient is rounded to 53 significant bits (ties to even),
/// and that binary value is rounded to one decimal place (ties to even).
/// The result counts tenths.
pub open spec fn rounded_tenths(n: nat, d: nat) -> nat {
    let k = (52 - binary_exponent(n, d)) as nat;
    let mantissa = round_half_even(n * two_pow(k), d);
    round_half_even(10 * mantissa, two_pow(k))
}

/// `n / d` shown with one decimal place and a unit suffix.
pub open spec fn scaled_text(n: nat, d: nat, suffix: char) -> Seq<char> {
    let t = rounded_tenths(n, d);
    decimal_digits(t / 10) + seq!['.', digit_char(t % 10), suffix]
}

/// The display form of a count: below a thousand the plain number, then
/// thousands with a `K` and millions with an `M`, each with one decimal place.
pub open spec fn count_text(n: u32) -> Seq<char> {
    if n >= 1_000_000 {
        scaled_text(n as nat, 1_000_000, 'M')
    } else if n >= 1_000 {
        scaled_text(n as nat, 1_000, 'K')
    } else {
        decimal_digits(n as nat)
    }
}

proof fn lemma_two_pow_positive(k: nat)
    ensures
        two_pow(k) >= 1,
    decreases k,
{
    if k > 0 {
        lemma_two_pow_positive((k - 1) as nat);
    }
}

proof fn lemma_two_pow_monotonic(a: nat, b: nat)
    requires
        a <= b,
    ensures
        two_pow(a) <= two_pow(b),
    decreases b,
{
    if a < b {
        lemma_two_pow_monotonic(a, (b - 1) as nat);
        lemma_two_pow_positive((b - 1) as nat);
    }
}

proof fn lemma_two_pow_32()
    ensures
        two_pow(32) == 0x1_0000_0000,
{
    reveal_with_fuel(two_pow, 33);
}

proof fn lemma_two_pow_52()
    ensures
        two_pow(52) == 0x10_0000_0000_0000,
{
    reveal_with_fuel(two_pow, 53);
}

fn digit_to_char(d: u128) -> (c: char)
    requires
        d < 10,
    ensures
        c == digit_char(d as nat),
{
    if d == 0 {
        '0'
    } else if d == 1 {
        '1'
    } else if d == 2 {
        '2'
    } else if d == 3 {
        '3'
    } else if d == 4 {
        '4'
    } else if d == 5 {
        '5'
    } else if d == 6 {
        '6'
    } else if d == 7 {
        '7'
    } else if d == 8 {
        '8'
    } else {
        '9'
    }
}

/// Appends the decimal digits of `n` to `s`.
fn push_decimal(s: &mut String, n: u128)
    ensures
        final(s)@ == old(s)@ + decimal_digits(n as nat),
    decreases n,
{
    if n >= 10 {
        push_decimal(s, n / 10);
    }
    push_char(s, digit_to_char(n % 10));
    proof {
        if n >= 10 {
            assert(final(s)@ =~= old(s)@ + decimal_digits(n as nat));
        } else {
            assert(final(s)@ =~= old(s)@ + decimal_digits(n as nat));
        }
    }
}

/// `2^k` as a machine integer.
fn two_pow_exec(k: u32) -> (p: u128)
    requires
        k <= 52,
    ensures
        p == two_pow(k as nat),
{
    let mut p: u128 = 1;
    let mut i: u32 = 0;
    while i < k
        invariant
            i <= k <= 52,
            p == two_pow(i as nat),
        decreases k - i,
    {
        proof {
            lemma_two_pow_monotonic((i + 1) as nat, 52);
            lemma_two_pow_52();
            reveal_with_fuel(two_pow, 2);
        }
        p = p * 2;
        i = i + 1;
    }
    p
}

/// `a / b` rounded to nearest, ties to even.
fn round_half_even_exec(a: u128, b: u128) -> (r: u128)
    requires
        b > 0,
        a < 0x1_0000_0000_0000_0000_0000_0000_0000_0000 - 1,
    ensures
        r == round_half_even(a as nat, b as nat),
{
    let q = a / b;
    let rem = a % b;
    assert(q <= a) by (nonlinear_arith)
        requires
            q == a / b,
            b > 0,
    ;
    if rem < b - rem {
        q
    } else if rem > b - rem {
        q + 1
    } else if q % 2 == 0 {
        q
    } else {
        q + 1
    }
}

/// The binary exponent of `n / d`.
fn binary_exponent_exec(n: u32, d: u32) -> (e: u32)
    requires
        d > 0,
    ensures
        e == binary_exponent(n as nat, d as nat),
        e < 32,
{
    let mut e: u32 = 0;
    let mut p: u128 = 2;
    proof {
        reveal_with_fuel(two_pow, 2);
        lemma_two_pow_32();
    }
    loop
        invariant
            e < 32,
            p == two_pow((e + 1) as nat),
            p <= 0x2_0000_0000,
            d > 0,
            exponent_from(n as nat, d as nat, 0) == exponent_from(n as nat, d as nat, e as nat),
        ensures
            e < 32,
            exponent_from(n as nat, d as nat, 0) == e,
        decreases 64 - e,
    {
        assert((d as u128) * p <= 0x1_0000_0000 * 0x2_0000_0000) by (nonlinear_arith)
            requires
                d < 0x1_0000_0000,
                p <= 0x2_0000_0000,
        ;
        if (n as u128) < (d as u128) * p {
            break;
        }
        proof {
            assert(p <= (d as u128) * p) by (nonlinear_arith)
                requires
                    d > 0,
                    p >= 0,
            ;
            lemma_two_pow_32();
            if e + 1 >= 32 {
                lemma_two_pow_monotonic(32, (e + 1) as nat);
            }
        }
        e = e + 1;
        p = p * 2;
        proof {
            reveal_with_fuel(two_pow, 2);
        }
    }
    e
}

/// Tenths of `n / d` as printed by `{:.1}` of the `f64` quotient.
fn rounded_tenths_exec(n: u32, d: u32) -> (t: u128)
    requires
        d > 0,
    ensures
        t == rounded_tenths(n as nat, d as nat),
{
    let e = binary_exponent_exec(n, d);
    let k = 52 - e;
    let pk = two_pow_exec(k);
    proof {
        lemma_two_pow_monotonic(k as nat, 52);
        lemma_two_pow_52();
        lemma_two_pow_positive(k as nat);
        assert((n as u128) * pk <= 0x1_0000_0000 * 0x10_0000_0000_0000) by (nonlinear_arith)
            requires
                n < 0x1_0000_0000,
                pk <= 0x10_0000_0000_0000,
        ;
    }
    let num = (n as u128) * pk;
    let m = round_half_even_exec(num, d as u128);
    round_half_even_exec(10 * m, pk)
}

/// Format a count for display: 1234 becomes "1.2K", 1234567 becomes "1.2M", 42 stays "42".
pub fn format_count(n: u32) -> (s: String)
    ensures
        s@ == count_text(n),
{
    let mut s = String::new();
    if n >= 1_000_000 {
        let t = rounded_tenths_exec(n, 1_000_000);
        push_decimal(&mut s, t / 10);
        push_char(&mut s, '.');
        push_char(&mut s, digit_to_char(t % 10));
        push_char(&mut s, 'M');
    } else if n >= 1_000 {
        let t = rounded_tenths_exec(n, 1_000);
        push_decimal(&mut s, t / 10);
        push_char(&mut s, '.');
        push_char(&mut s, digit_to_char(t % 10));
        push_char(&mut s, 'K');
    } else {
        push_decimal(&mut s, n as u128);
    }
    assert(s@ =~= count_text(n));
    s
}

proof fn lemma_exponent_from(n: nat, d: nat, e: nat)
    requires
        d > 0,
        d * two_pow(e) <= n,
    ensures
        d * two_pow(exponent_from(n, d, e)) <= n,
    decreases 64 - e,
{
    if !(e >= 64 || n < d * two_pow(e + 1)) {
        lemma_exponent_from(n, d, e + 1);
    }
}

/// Rounding `x / k` to nearest lands on `t` when `2x` lies strictly between
/// `(2t - 1)k` and `(2t + 1)k`.
proof fn lemma_round_between(x: int, k: int, t: int)
    requires
        x >= 0,
        k > 0,
        (2 * t - 1) * k < 2 * x < (2 * t + 1) * k,
    ensures
        round_half_even(x as nat, k as nat) == t,
{
    vstd::arithmetic::div_mod::lemma_fundamental_div_mod(x, k);
    let q = x / k;
    let r = x % k;
    assert(0 <= r < k);
    assert(x == k * q + r);
    assert(q == t || q == t - 1) by (nonlinear_arith)
        requires
            x == k * q + r,
            0 <= r < k,
            (2 * t - 1) * k < 2 * x < (2 * t + 1) * k,
            k > 0,
    ;
    if q == t {
        assert(2 * r < k) by (nonlinear_arith)
            requires
                x == k * q + r,
                q == t,
                2 * x < (2 * t + 1) * k,
        ;
    } else {
        assert(2 * r > k) by (nonlinear_arith)
            requires
                x == k * q + r,
                q == t - 1,
                (2 * t - 1) * k < 2 * x,
        ;
    }
}

proof fn lemma_exponent_small(n: u32, d: nat)
    requires
        1000 <= d <= n,
    ensures
        binary_exponent(n as nat, d) < 23,
        two_pow((52 - binary_exponent(n as nat, d)) as nat) >= 1073741824,
{
    let e = binary_exponent(n as nat, d);
    assert(two_pow(0) == 1);
    assert(d * two_pow(0) == d);
    lemma_exponent_from(n as nat, d, 0);
    assert(two_pow(23) == 8388608 && two_pow(30) == 1073741824) by {
        reveal_with_fuel(two_pow, 31);
    }
    if e >= 23 {
        lemma_two_pow_monotonic(23, e);
        assert(d * two_pow(e) >= 1000 * 8388608) by (nonlinear_arith)
            requires
                d >= 1000,
                two_pow(e) >= 8388608,
        ;
    }
    lemma_two_pow_monotonic(30, (52 - e) as nat);
}

proof fn lemma_mantissa_close(a: nat, d: nat)
    requires
        d > 0,
    ensures
        -(d as int) <= 2 * (round_half_even(a, d) * d - a) <= d,
{
    vstd::arithmetic::div_mod::lemma_fundamental_div_mod(a as int, d as int);
    let q0 = a as int / (d as int);
    let r0 = a as int % (d as int);
    let m = round_half_even(a, d);
    assert(a == d * q0 + r0);
    assert(0 <= r0 < d);
    assert(d * q0 == q0 * d) by (nonlinear_arith);
    assert((q0 + 1) * d == q0 * d + d) by (nonlinear_arith);
    if 2 * r0 < d {
        assert(m == q0);
    } else if 2 * r0 > d {
        assert(m == q0 + 1);
    } else {
        assert(m == q0 || m == q0 + 1);
    }
}

proof fn lemma_tenths_gap(n: u32, d: nat)
    requires
        d == 1000 || d == 1_000_000,
        (10 * n) % (d as int) != d / 2,
    ensures
        (10 * n) as int == d * ((10 * n) / (d as int)) + (10 * n) % (d as int),
        2 * ((10 * n) % (d as int)) <= d - 20 || 2 * ((10 * n) % (d as int)) >= d + 20,
{
    let n10 = (10 * n) as int;
    vstd::arithmetic::div_mod::lemma_fundamental_div_mod(n10, d as int);
    let qq = n10 / (d as int);
    let rr = n10 % (d as int);
    if d == 1000 {
        assert(rr == 10 * (n - 100 * qq));
    } else {
        assert(rr == 10 * (n - 100000 * qq));
    }
    assert(2 * rr <= d - 20 || 2 * rr >= d + 20) by (nonlinear_arith)
        requires
            rr % 10 == 0,
            rr != d / 2,
            d == 1000 || d == 1_000_000,
    ;
}

/// Away from an exact tie in tenths, the shown value is the count rounded to
/// the nearest tenth of a thousand (or of a million): the intermediate binary
/// rounding never changes the result, only the direction taken at exact ties.
pub proof fn law_tenths_round_to_nearest(n: u32, d: nat)
    requires
        d == 1000 || d == 1_000_000,
        d <= n,
        (10 * n) % (d as int) != d / 2,
    ensures
        rounded_tenths(n as nat, d) == (10 * n) / (d as int) + (if 2 * ((10 * n) % (d as int)) < d {
            0int
        } else {
            1int
        }),
{
    lemma_exponent_small(n, d);
    let k = (52 - binary_exponent(n as nat, d)) as nat;
    let big_k = two_pow(k);
    let m = round_half_even((n as nat) * big_k, d);
    lemma_mantissa_close((n as nat) * big_k, d);
    lemma_tenths_gap(n, d);
    let x = 10 * m;
    let qq = (10 * n) / (d as int);
    let rr = (10 * n) % (d as int);
    let t = qq + (if 2 * rr < d { 0int } else { 1int });
    assert(0 <= rr < d);
    assert((2 * t - 1) * big_k < 2 * x < (2 * t + 1) * big_k) by (nonlinear_arith)
        requires
            -(d as int) <= 2 * (m * d - n * big_k) <= d,
            x == 10 * m,
            10 * n == d * qq + rr,
            0 <= rr < d,
            2 * rr <= d - 20 || 2 * rr >= d + 20,
            t == qq + (if 2 * rr < d { 0int } else { 1int }),
            big_k >= 1073741824,
            d <= 1_000_000,
            d > 0,
    ;
    lemma_round_between(x as int, big_k as int, t);
}

/// Index buffers hold three indices per triangle.
pub open spec fn triangles_in(index_count: u32) -> nat {
    (index_count / 3) as nat
}

/// The sum of a list of counts.
pub open spec fn seq_sum(s: Seq<u32>) -> nat
    decreases s.len(),
{
    if s.len() == 0 {
        0
    } else {
        seq_sum(s.drop_last()) + (s.last() as nat)
    }
}

/// The triangles of a list of indexed draws.
pub open spec fn seq_triangles(s: Seq<u32>) -> nat
    decreases s.len(),
{
    if s.len() == 0 {
        0
    } else {
        seq_triangles(s.drop_last()) + triangles_in(s.last())
    }
}

/// Indices of one grass blade.
pub const BLADE_INDEX_COUNT: u32 = 36;

/// Shadow cascades each shadow caster is drawn into.
pub const CASCADE_COUNT: u32 = 3;

/// The draws recorded for one frame, as the counts statistics are made of.
pub struct FrameDraws {
    /// Index counts of the opaque entity draws
    pub entity_index_counts: Vec<u32>,
    /// Index counts of the opaque skinned draws
    pub skinned_index_counts: Vec<u32>,
    /// Index counts of the transparent entity draws
    pub transparent_index_counts: Vec<u32>,
    /// Index counts of the transparent skinned draws
    pub transparent_skinned_index_counts: Vec<u32>,
    /// Index counts of the terrain chunk draws
    pub terrain_index_counts: Vec<u32>,
    /// Terrain chunks that passed culling
    pub terrain_visible_chunks: u32,
    /// Terrain chunks in total
    pub terrain_total_chunks: u32,
    /// Number of billboard draws
    pub billboard_draws: u32,
    /// Instance counts of the particle draws
    pub particle_instance_counts: Vec<u32>,
    /// Instance counts of the sprite batches
    pub sprite_instance_counts: Vec<u32>,
    /// Grass blades produced by the grass compute pass
    pub grass_instance_count: u32,
}

/// The integer statistics of a frame.
#[derive(Debug, Clone, Copy, PartialEq, Eq)]
pub struct DrawStats {
    pub draw_calls: u32,
    pub triangles: u32,
    pub entity_draws: u32,
    pub skinned_draws: u32,
    pub terrain_draws: u32,
    pub terrain_total_chunks: u32,
    pub transparent_draws: u32,
    pub billboard_draws: u32,
    pub particle_draws: u32,
    pub particle_instances: u32,
    pub sprite_batches: u32,
    pub grass_instances: u32,
    pub grass_draw_calls: u32,
    pub shadow_draw_calls: u32,
    pub shadow_triangles: u32,
}

impl FrameDraws {
    /// Draw calls of the frame: one per draw of each kind, one per sprite
    /// batch, and one for the grass when any blade was produced.
    pub open spec fn spec_draw_calls(&self) -> nat {
        ((self.entity_index_counts@.len() as u32) + (self.skinned_index_counts@.len() as u32)
            + self.terrain_visible_chunks + ((self.transparent_index_counts@.len()
            + self.transparent_skinned_index_counts@.len()) as u32) + self.billboard_draws
            + (self.particle_instance_counts@.len() as u32) + (self.sprite_instance_counts@.len() as u32)
            + (if self.grass_instance_count > 0 { 1int } else { 0int })) as nat
    }

    /// Triangles of the shadow casters (entities, skinned meshes, terrain) in one cascade.
    pub open spec fn spec_caster_triangles(&self) -> nat {
        seq_triangles(self.entity_index_counts@) + seq_triangles(self.skinned_index_counts@)
            + seq_triangles(self.terrain_index_counts@)
    }

    /// Triangles of the frame: indexed draws by their index counts, two per
    /// billboard, particle and sprite quad, and the grass blades' triangles.
    pub open spec fn spec_triangles(&self) -> nat {
        self.spec_caster_triangles() + seq_triangles(self.transparent_index_counts@) + seq_triangles(
            self.transparent_skinned_index_counts@,
        ) + 2 * (self.billboard_draws as nat) + 2 * seq_sum(self.particle_instance_counts@) + 2
            * seq_sum(self.sprite_instance_counts@) + ((self.grass_instance_count as nat)
            * (BLADE_INDEX_COUNT as nat)) / 3
    }

    /// Whether every count fits the `u32` statistics.
    pub open spec fn fits(&self) -> bool {
        &&& self.transparent_index_counts@.len() + self.transparent_skinned_index_counts@.len()
            <= usize::MAX
        &&& self.spec_draw_calls() <= u32::MAX
        &&& self.spec_triangles() <= u32::MAX
        &&& self.grass_instance_count * BLADE_INDEX_COUNT <= u32::MAX
        &&& CASCADE_COUNT * ((self.entity_index_counts@.len() as u32) + (
        self.skinned_index_counts@.len() as u32) + self.terrain_visible_chunks) <= u32::MAX
        &&& CASCADE_COUNT * self.spec_caster_triangles() <= u32::MAX
    }
}

proof fn lemma_seq_sum_prefix(s: Seq<u32>, i: int)
    requires
        0 <= i <= s.len(),
    ensures
        seq_sum(s.take(i)) <= seq_sum(s),
        seq_triangles(s.take(i)) <= seq_triangles(s),
    decreases s.len(),
{
    if i < s.len() {
        assert(s.drop_last().take(i) =~= s.take(i));
        lemma_seq_sum_prefix(s.drop_last(), i);
    } else {
        assert(s.take(i) =~= s);
    }
}

proof fn lemma_seq_sum_bound(s: Seq<u32>)
    ensures
        seq_sum(s) <= s.len() * 0xFFFF_FFFF,
        seq_triangles(s) <= seq_sum(s),
    decreases s.len(),
{
    if s.len() > 0 {
        lemma_seq_sum_bound(s.drop_last());
    }
}

/// The sum of a list of counts, without overflow.
fn wide_sum(v: &Vec<u32>) -> (total: u128)
    ensures
        total == seq_sum(v@),
        total <= 0x1_0000_0000_0000_0000_0000_0000,
{
    let mut total: u128 = 0;
    let mut i: usize = 0;
    while i < v.len()
        invariant
            i <= v@.len(),
            total == seq_sum(v@.take(i as int)),
            total <= i * 0xFFFF_FFFF,
        decreases v@.len() - i,
    {
        assert(v@.take(i + 1).drop_last() =~= v@.take(i as int));
        total = total + v[i] as u128;
        i = i + 1;
    }
    assert(v@.take(v@.len() as int) =~= v@);
    assert(total <= 0x1_0000_0000_0000_0000_0000_0000) by (nonlinear_arith)
        requires
            total <= i * 0xFFFF_FFFF,
            i <= 0xFFFF_FFFF_FFFF_FFFF,
    ;
    total
}

/// The triangles of a list of index counts, without overflow.
fn wide_triangles(v: &Vec<u32>) -> (total: u128)
    ensures
        total == seq_triangles(v@),
        total <= 0x1_0000_0000_0000_0000_0000_0000,
{
    let mut total: u128 = 0;
    let mut i: usize = 0;
    while i < v.len()
        invariant
            i <= v@.len(),
            total == seq_triangles(v@.take(i as int)),
            total <= i * 0xFFFF_FFFF,
        decreases v@.len() - i,
    {
        assert(v@.take(i + 1).drop_last() =~= v@.take(i as int));
        total = total + (v[i] / 3) as u128;
        i = i + 1;
    }
    assert(v@.take(v@.len() as int) =~= v@);
    assert(total <= 0x1_0000_0000_0000_0000_0000_0000) by (nonlinear_arith)
        requires
            total <= i * 0xFFFF_FFFF,
            i <= 0xFFFF_FFFF_FFFF_FFFF,
    ;
    total
}

fn sum_counts(v: &Vec<u32>) -> (total: u32)
    requires
        seq_sum(v@) <= u32::MAX,
    ensures
        total == seq_sum(v@),
{
    let mut total: u32 = 0;
    let mut i: usize = 0;
    while i < v.len()
        invariant
            i <= v@.len(),
            seq_sum(v@) <= u32::MAX,
            total == seq_sum(v@.take(i as int)),
        decreases v@.len() - i,
    {
        assert(v@.take(i + 1).drop_last() =~= v@.take(i as int));
        proof {
            lemma_seq_sum_prefix(v@, i + 1);
        }
        total = total + v[i];
        i = i + 1;
    }
    assert(v@.take(v@.len() as int) =~= v@);
    total
}

fn sum_triangles(v: &Vec<u32>) -> (total: u32)
    requires
        seq_triangles(v@) <= u32::MAX,
    ensures
        total == seq_triangles(v@),
{
    let mut total: u32 = 0;
    let mut i: usize = 0;
    while i < v.len()
        invariant
            i <= v@.len(),
            seq_triangles(v@) <= u32::MAX,
            total == seq_triangles(v@.take(i as int)),
        decreases v@.len() - i,
    {
        assert(v@.take(i + 1).drop_last() =~= v@.take(i as int));
        proof {
            lemma_seq_sum_prefix(v@, i + 1);
        }
        total = total + v[i] / 3;
        i = i + 1;
    }
    assert(v@.take(v@.len() as int) =~= v@);
    total
}

impl FrameDraws {
    /// Whether every count fits the `u32` statistics ([`FrameDraws::fits`]).
    pub fn counts_fit(&self) -> (r: bool)
        ensures
            r == self.fits(),
    {
        let e_len = self.entity_index_counts.len();
        let s_len = self.skinned_index_counts.len();
        let t_len = self.transparent_index_counts.len();
        let ts_len = self.transparent_skinned_index_counts.len();
        let p_len = self.particle_instance_counts.len();
        let sp_len = self.sprite_instance_counts.len();
        if t_len > usize::MAX - ts_len {
            return false;
        }
        let grass_calls: u128 = if self.grass_instance_count > 0 {
            1
        } else {
            0
        };
        let draw_calls: u128 = (e_len as u32) as u128 + (s_len as u32) as u128
            + self.terrain_visible_chunks as u128 + ((t_len + ts_len) as u32) as u128
            + self.billboard_draws as u128 + (p_len as u32) as u128 + (sp_len as u32) as u128
            + grass_calls;
        let e_tris = wide_triangles(&self.entity_index_counts);
        let s_tris = wide_triangles(&self.skinned_index_counts);
        let terrain_tris = wide_triangles(&self.terrain_index_counts);
        let t_tris = wide_triangles(&self.transparent_index_counts);
        let ts_tris = wide_triangles(&self.transparent_skinned_index_counts);
        let p_sum = wide_sum(&self.particle_instance_counts);
        let sp_sum = wide_sum(&self.sprite_instance_counts);
        let grass_indices = (self.grass_instance_count as u128) * (BLADE_INDEX_COUNT as u128);
        let caster_tris = e_tris + s_tris + terrain_tris;
        let triangles = caster_tris + t_tris + ts_tris + 2 * (self.billboard_draws as u128) + 2
            * p_sum + 2 * sp_sum + grass_indices / 3;
        let casters: u128 = (e_len as u32) as u128 + (s_len as u32) as u128
            + self.terrain_visible_chunks as u128;
        draw_calls <= 0xFFFF_FFFF && triangles <= 0xFFFF_FFFF && grass_indices <= 0xFFFF_FFFF
            && casters * 3 <= 0xFFFF_FFFF && caster_tris * 3 <= 0xFFFF_FFFF
    }

    /// The draw-call and triangle statistics of the frame. Shadow figures are
    /// estimates: every shadow caster drawn once per cascade.
    pub fn collect_stats(&self) -> (st: DrawStats)
        requires
            self.fits(),
        ensures
            st.draw_calls == self.spec_draw_calls(),
            st.triangles == self.spec_triangles(),
            st.entity_draws == self.entity_index_counts@.len() as u32,
            st.skinned_draws == self.skinned_index_counts@.len() as u32,
            st.terrain_draws == self.terrain_visible_chunks,
            st.terrain_total_chunks == self.terrain_total_chunks,
            st.transparent_draws == (self.transparent_index_counts@.len()
                + self.transparent_skinned_index_counts@.len()) as u32,
            st.billboard_draws == self.billboard_draws,
            st.particle_draws == self.particle_instance_counts@.len() as u32,
            st.particle_instances == seq_sum(self.particle_instance_counts@),
            st.sprite_batches == self.sprite_instance_counts@.len() as u32,
            st.grass_instances == self.grass_instance_count,
            st.grass_draw_calls == (if self.grass_instance_count > 0 { 1u32 } else { 0u32 }),
            st.shadow_draw_calls == CASCADE_COUNT * (st.entity_draws + st.skinned_draws
                + st.terrain_draws),
            st.shadow_triangles == CASCADE_COUNT * self.spec_caster_triangles(),
    {
        let entity_draws = self.entity_index_counts.len() as u32;
        let skinned_draws = self.skinned_index_counts.len() as u32;
        let terrain_draws = self.terrain_visible_chunks;
        let transparent_draws = (self.transparent_index_counts.len()
            + self.transparent_skinned_index_counts.len()) as u32;
        let billboard_draws = self.billboard_draws;
        let particle_draws = self.particle_instance_counts.len() as u32;
        let sprite_batches = self.sprite_instance_counts.len() as u32;
        let grass_draw_calls: u32 = if self.grass_instance_count > 0 {
            1
        } else {
            0
        };
        let draw_calls = entity_draws + skinned_draws + terrain_draws + transparent_draws
            + billboard_draws + particle_draws + sprite_batches + grass_draw_calls;

        let entity_tris = sum_triangles(&self.entity_index_counts);
        let skinned_tris = sum_triangles(&self.skinned_index_counts);
        let transparent_tris = sum_triangles(&self.transparent_index_counts);
        let transparent_skinned_tris = sum_triangles(&self.transparent_skinned_index_counts);
        let terrain_tris = sum_triangles(&self.terrain_index_counts);
        let particle_instances = sum_counts(&self.particle_instance_counts);
        let sprite_instances = sum_counts(&self.sprite_instance_counts);
        let mut triangles: u32 = 0;
        triangles = triangles + entity_tris;
        triangles = triangles + skinned_tris;
        triangles = triangles + transparent_tris;
        triangles = triangles + transparent_skinned_tris;
        triangles = triangles + terrain_tris;
        triangles = triangles + billboard_draws * 2;
        triangles = triangles + particle_instances * 2;
        triangles = triangles + sprite_instances * 2;
        triangles = triangles + self.grass_instance_count * BLADE_INDEX_COUNT / 3;

        let shadow_entity_draws = entity_draws + skinned_draws + terrain_draws;
        let shadow_draw_calls = shadow_entity_draws * CASCADE_COUNT;
        let shadow_triangles = (entity_tris + skinned_tris + terrain_tris) * CASCADE_COUNT;

        DrawStats {
            draw_calls,
            triangles,
            entity_draws,
            skinned_draws,
            terrain_draws,
            terrain_total_chunks: self.terrain_total_chunks,
            transparent_draws,
            billboard_draws,
            particle_draws,
            particle_instances,
            sprite_batches,
            grass_instances: self.grass_instance_count,
            grass_draw_calls,
            shadow_draw_calls,
            shadow_triangles,
        }
    }
}

/// The five lists of indexed draws of a frame: entities, skinned meshes,
/// transparent entities, transparent skinned meshes, terrain chunks.
pub open spec fn indexed_lists(f: &FrameDraws) -> Seq<Seq<u32>> {
    seq![
        f.entity_index_counts@,
        f.skinned_index_counts@,
        f.transparent_index_counts@,
        f.transparent_skinned_index_counts@,
        f.terrain_index_counts@,
    ]
}

/// Adding one indexed draw of `n` indices, of any kind, to a frame raises its
/// triangle total by `n / 3` (whole triangles), and leaves everything else.
pub proof fn law_indexed_draw_adds_triangles(f: &FrameDraws, g: &FrameDraws, kind: int, n: u32)
    requires
        0 <= kind < 5,
        forall|i: int| 0 <= i < 5 && i != kind ==> #[trigger] indexed_lists(g)[i] == indexed_lists(f)[i],
        indexed_lists(g)[kind] == indexed_lists(f)[kind].push(n),
        g.billboard_draws == f.billboard_draws,
        g.particle_instance_counts@ == f.particle_instance_counts@,
        g.sprite_instance_counts@ == f.sprite_instance_counts@,
        g.grass_instance_count == f.grass_instance_count,
    ensures
        g.spec_triangles() == f.spec_triangles() + n / 3,
{
    let lf = indexed_lists(f);
    let lg = indexed_lists(g);
    assert(lg[kind].drop_last() =~= lf[kind]);
    assert(seq_triangles(lg[kind]) == seq_triangles(lf[kind]) + n / 3);
    assert(lg[0] == lf[0] || kind == 0);
    assert(lg[1] == lf[1] || kind == 1);
    assert(lg[2] == lf[2] || kind == 2);
    assert(lg[3] == lf[3] || kind == 3);
    assert(lg[4] == lf[4] || kind == 4);
}

/// A frame whose only draws are indexed ones has exactly the sum over all of
/// them of `index_count / 3` triangles; in particular one transparent skinned
/// draw of `n` indices alone gives `n / 3` triangles.
pub proof fn law_single_transparent_skinned_draw(f: &FrameDraws, n: u32)
    requires
        f.entity_index_counts@.len() == 0,
        f.skinned_index_counts@.len() == 0,
        f.transparent_index_counts@.len() == 0,
        f.transparent_skinned_index_counts@ == seq![n],
        f.terrain_index_counts@.len() == 0,
        f.billboard_draws == 0,
        f.particle_instance_counts@.len() == 0,
        f.sprite_instance_counts@.len() == 0,
        f.grass_instance_count == 0,
    ensures
        f.spec_triangles() == n / 3,
{
    let ts = f.transparent_skinned_index_counts@;
    assert(ts.drop_last() =~= Seq::<u32>::empty());
    assert(seq_triangles(ts.drop_last()) == 0);
    assert(ts.last() == n);
    assert(seq_triangles(ts) == seq_triangles(ts.drop_last()) + triangles_in(ts.last()));
    assert(seq_triangles(ts) == n / 3);
    assert(seq_triangles(f.entity_index_counts@) == 0);
    assert(seq_triangles(f.skinned_index_counts@) == 0);
    assert(seq_triangles(f.transparent_index_counts@) == 0);
    assert(seq_triangles(f.terrain_index_counts@) == 0);
    assert(seq_sum(f.particle_instance_counts@) == 0);
    assert(seq_sum(f.sprite_instance_counts@) == 0);
    assert(((f.grass_instance_count as nat) * (BLADE_INDEX_COUNT as nat)) / 3 == 0);
}

} // verus!
