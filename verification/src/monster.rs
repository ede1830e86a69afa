//! The Monster group cut into its prime-power components: the factors of
//! its order, the size of the data chunk of each component, and the record
//! of which components were composed together.
use vstd::prelude::*;

verus! {

/// One prime-power factor of the Monster's order and the chunk it is
/// computed in.
#[derive(Debug, Clone, Copy, PartialEq, Eq, Structural)]
pub struct MonsterComponent {
    pub prime: u64,
    pub power: u32,
    pub gpu_chunk_id: usize,
}

/// `b` to the power `e`.
pub open spec fn pow_nat(b: nat, e: nat) -> nat
    decreases e,
{
    if e == 0 {
        1
    } else {
        b * pow_nat(b, (e - 1) as nat)
    }
}

/// The factors of the order of the Monster group, smallest prime first.
pub open spec fn monster_factors() -> Seq<(u64, u32)> {
    seq![
        (2u64, 46u32),
        (3, 20),
        (5, 9),
        (7, 6),
        (11, 2),
        (13, 3),
        (17, 1),
        (19, 1),
        (23, 1),
        (29, 1),
        (31, 1),
        (41, 1),
        (47, 1),
        (59, 1),
        (71, 1),
    ]
}

/// The product of the prime powers.
pub open spec fn factor_product(s: Seq<(u64, u32)>) -> nat
    decreases s.len(),
{
    if s.len() == 0 {
        1
    } else {
        factor_product(s.drop_last()) * pow_nat(s.last().0 as nat, s.last().1 as nat)
    }
}

/// The order of the Monster group,
/// 808017424794512875886459904961710757005754368000000000.
pub open spec fn monster_order() -> nat {
    808017424794512875886459904nat * 1000000000000000000000000000nat + 961710757005754368000000000nat
}

/// Powers of two, three, five and seven used by the factorisation.
proof fn lemma_powers()
    ensures
        pow_nat(2, 46) == 70368744177664,
        pow_nat(3, 20) == 3486784401,
        pow_nat(5, 9) == 1953125,
        pow_nat(7, 6) == 117649,
        pow_nat(11, 2) == 121,
        pow_nat(13, 3) == 2197,
        forall|p: nat| #[trigger] pow_nat(p, 1) == p,
{
    reveal_with_fuel(pow_nat, 47);
    assert forall|p: nat| #[trigger] pow_nat(p, 1) == p by {
        assert(pow_nat(p, 0) == 1);
        assert(pow_nat(p, 1) == p * pow_nat(p, 0));
        assert(p * 1 == p) by (nonlinear_arith);
    }
}

/// The components multiply out to the order of the Monster group.
pub proof fn lemma_factors_give_order()
    ensures
        factor_product(monster_factors()) == monster_order(),
{
    lemma_powers();
    let s = monster_factors();
    reveal_with_fuel(factor_product, 16);
    assert(s.drop_last() =~= s.take(14));
    assert(factor_product(s.take(0)) == 1) by {
        assert(s.take(0) =~= Seq::<(u64, u32)>::empty());
    }
    assert forall|i: int| 0 <= i < 15 implies #[trigger] s.take(i + 1).drop_last() == s.take(i) by {
        assert(s.take(i + 1).drop_last() =~= s.take(i));
    }
    assert(factor_product(s.take(1)) == 70368744177664);
    assert(factor_product(s.take(2)) == 70368744177664 * 3486784401);
    assert(factor_product(s.take(3)) == 70368744177664 * 3486784401 * 1953125);
    assert(factor_product(s.take(4)) == 70368744177664 * 3486784401 * 1953125 * 117649);
    assert(factor_product(s.take(5)) == 70368744177664 * 3486784401 * 1953125 * 117649 * 121);
    assert(factor_product(s.take(6)) == 70368744177664 * 3486784401 * 1953125 * 117649 * 121 * 2197);
    assert(factor_product(s.take(7)) == 70368744177664 * 3486784401 * 1953125 * 117649 * 121 * 2197 * 17);
    assert(factor_product(s.take(8)) == 70368744177664 * 3486784401 * 1953125 * 117649 * 121 * 2197 * 17 * 19);
    assert(factor_product(s.take(9)) == 70368744177664 * 3486784401 * 1953125 * 117649 * 121 * 2197 * 17 * 19
        * 23);
    assert(factor_product(s.take(10)) == 70368744177664 * 3486784401 * 1953125 * 117649 * 121 * 2197 * 17 * 19
        * 23 * 29);
    assert(factor_product(s.take(11)) == 70368744177664 * 3486784401 * 1953125 * 117649 * 121 * 2197 * 17 * 19
        * 23 * 29 * 31);
    assert(factor_product(s.take(12)) == 70368744177664 * 3486784401 * 1953125 * 117649 * 121 * 2197 * 17 * 19
        * 23 * 29 * 31 * 41);
    assert(factor_product(s.take(13)) == 70368744177664 * 3486784401 * 1953125 * 117649 * 121 * 2197 * 17 * 19
        * 23 * 29 * 31 * 41 * 47);
    assert(factor_product(s.take(14)) == 70368744177664 * 3486784401 * 1953125 * 117649 * 121 * 2197 * 17 * 19
        * 23 * 29 * 31 * 41 * 47 * 59);
    assert(s.take(15) =~= s);
    assert(factor_product(s) == 70368744177664 * 3486784401 * 1953125 * 117649 * 121 * 2197 * 17 * 19 * 23
        * 29 * 31 * 41 * 47 * 59 * 71);
}

/// The components, and the compositions made so far (each a list of
/// component positions, numbered in the order they were made).
pub struct TruncatedMonster {
    components: Vec<MonsterComponent>,
    composition_map: Vec<Vec<usize>>,
}

impl TruncatedMonster {
    /// The components in order.
    pub closed spec fn component_seq(&self) -> Seq<MonsterComponent> {
        self.components@
    }

    /// The compositions, by number.
    pub closed spec fn compositions(&self) -> Seq<Seq<usize>> {
        self.composition_map@.map_values(|v: Vec<usize>| v@)
    }

    /// One component per prime factor of the Monster's order, in order,
    /// the `i`-th computed in chunk `i`; no compositions yet.
    pub fn new() -> (m: Self)
        ensures
            m.component_seq().len() == 15,
            forall|i: int|
                0 <= i < 15 ==> #[trigger] m.component_seq()[i] == (MonsterComponent {
                    prime: monster_factors()[i].0,
                    power: monster_factors()[i].1,
                    gpu_chunk_id: i as usize,
                }),
            m.compositions().len() == 0,
    {
        let factors: [(u64, u32); 15] = [
            (2, 46),
            (3, 20),
            (5, 9),
            (7, 6),
            (11, 2),
            (13, 3),
            (17, 1),
            (19, 1),
            (23, 1),
            (29, 1),
            (31, 1),
            (41, 1),
            (47, 1),
            (59, 1),
            (71, 1),
        ];
        assert(factors@ =~= monster_factors());
        let mut components: Vec<MonsterComponent> = Vec::new();
        let mut i: usize = 0;
        while i < 15
            invariant
                factors@ == monster_factors(),
                i <= 15,
                components@.len() == i,
                forall|j: int|
                    0 <= j < i ==> #[trigger] components@[j] == (MonsterComponent {
                        prime: monster_factors()[j].0,
                        power: monster_factors()[j].1,
                        gpu_chunk_id: j as usize,
                    }),
            decreases 15 - i,
        {
            let (prime, power) = factors[i];
            components.push(MonsterComponent { prime, power, gpu_chunk_id: i });
            i = i + 1;
        }
        let m = TruncatedMonster { components, composition_map: Vec::new() };
        assert(m.compositions() =~= Seq::<Seq<usize>>::empty());
        m
    }

    /// Number of components.
    pub fn component_count(&self) -> (n: usize)
        ensures
            n == self.component_seq().len(),
    {
        self.components.len()
    }

    /// The component at position `i`.
    pub fn component(&self, i: usize) -> (c: MonsterComponent)
        requires
            i < self.component_seq().len(),
        ensures
            c == self.component_seq()[i as int],
    {
        self.components[i]
    }

    /// Records a composition of the given components; its number is the
    /// number of compositions made before it.
    pub fn record_composition(&mut self, parts: &[usize]) -> (id: usize)
        requires
            forall|i: int| 0 <= i < parts@.len() ==> #[trigger] parts@[i] < old(self).component_seq().len(),
        ensures
            id == old(self).compositions().len(),
            final(self).compositions() == old(self).compositions().push(parts@),
            final(self).component_seq() == old(self).component_seq(),
    {
        let id = self.composition_map.len();
        let ghost before = self.compositions();
        let mut v: Vec<usize> = Vec::new();
        let mut i: usize = 0;
        while i < parts.len()
            invariant
                i <= parts@.len(),
                v@ == parts@.take(i as int),
            decreases parts@.len() - i,
        {
            v.push(parts[i]);
            assert(parts@.take(i + 1) =~= parts@.take(i as int).push(parts@[i as int]));
            i = i + 1;
        }
        assert(parts@.take(parts@.len() as int) =~= parts@);
        self.composition_map.push(v);
        assert(self.compositions() =~= before.push(parts@));
        id
    }

    /// Number of compositions.
    pub fn composition_count(&self) -> (n: usize)
        ensures
            n == self.compositions().len(),
    {
        self.composition_map.len()
    }

    /// The primes of the components of composition `id`.
    pub fn composition_primes(&self, id: usize) -> (r: Vec<u64>)
        requires
            id < self.compositions().len(),
            forall|j: int|
                0 <= j < self.compositions()[id as int].len() ==> #[trigger] self.compositions()[id as int][j]
                    < self.component_seq().len(),
        ensures
            r@ == self.compositions()[id as int].map_values(|i: usize| self.component_seq()[i as int].prime),
    {
        let parts = &self.composition_map[id];
        assert(parts@ == self.compositions()[id as int]);
        let mut r: Vec<u64> = Vec::new();
        let mut j: usize = 0;
        while j < parts.len()
            invariant
                parts@ == self.compositions()[id as int],
                forall|q: int| 0 <= q < parts@.len() ==> #[trigger] parts@[q] < self.component_seq().len(),
                j <= parts@.len(),
                r@ == parts@.take(j as int).map_values(|i: usize| self.component_seq()[i as int].prime),
            decreases parts@.len() - j,
        {
            let k = parts[j];
            r.push(self.components[k].prime);
            assert(parts@.take(j + 1) =~= parts@.take(j as int).push(k));
            assert(r@ =~= parts@.take(j + 1).map_values(|i: usize| self.component_seq()[i as int].prime));
            j = j + 1;
        }
        assert(parts@.take(parts@.len() as int) =~= parts@);
        r
    }
}

/// The number of data points of a component's chunk: its prime, at most
/// 1024.
pub fn chunk_size(comp: &MonsterComponent) -> (n: u64)
    ensures
        n == (if comp.prime < 1024 { comp.prime } else { 1024 }),
{
    if comp.prime < 1024 {
        comp.prime
    } else {
        1024
    }
}

} // verus!
