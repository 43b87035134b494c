use vstd::prelude::*;
use vstd::multiset::Multiset;
use rand::rngs::ThreadRng;
use rand::seq::SliceRandom;
use crate::piece::{PieceType, ALL_PIECE_TYPES};

verus! {

/// The generator of random numbers that each thread has for itself.
#[verifier::external_type_specification]
#[verifier::external_body]
pub struct ExThreadRng(ThreadRng);

/// Calls `rand::thread_rng`, which hands out the calling thread's generator.
/// Nothing is claimed of it. It panics where the operating system gives the
/// generator no seed.
#[verifier::external_body]
fn local_rng() -> ThreadRng {
    rand::thread_rng()
}

/// Calls `SliceRandom::shuffle` on the pieces of `bag`. The call only swaps
/// entries of the slice, so the bag holds afterwards what it held before,
/// each piece as often as before, in an order that nothing is claimed of.
#[verifier::external_body]
fn shuffle(bag: &mut Vec<PieceType>, rng: &mut ThreadRng)
    ensures
        final(bag)@.to_multiset() == old(bag)@.to_multiset(),
{
    bag.shuffle(rng);
}

/// Every piece type, once, in catalog order.
pub open spec fn catalog() -> Seq<PieceType> {
    seq![
        PieceType::Stick,
        PieceType::Box,
        PieceType::Jay,
        PieceType::Zee,
        PieceType::Tee,
        PieceType::Chi,
        PieceType::Ral,
        PieceType::Legs,
    ]
}

/// The pieces `m` and one more of every type.
pub open spec fn one_round(m: Multiset<PieceType>) -> Multiset<PieceType> {
    m.insert(PieceType::Stick).insert(PieceType::Box).insert(PieceType::Jay).insert(
        PieceType::Zee,
    ).insert(PieceType::Tee).insert(PieceType::Chi).insert(PieceType::Ral).insert(PieceType::Legs)
}

/// What a freshly filled bag holds: `repeats` pieces of every type.
pub open spec fn full_bag(repeats: nat) -> Multiset<PieceType>
    decreases repeats,
{
    if repeats == 0 {
        Multiset::empty()
    } else {
        one_round(full_bag((repeats - 1) as nat))
    }
}

/// The pieces that the first `k` draws take from a bag that holds `s`: the
/// last piece of `s` first.
pub open spec fn draws(s: Seq<PieceType>, k: nat) -> Seq<PieceType> {
    Seq::new(k, |i: int| s[s.len() - 1 - i])
}

/// A full bag holds eight pieces for each repeat, and each type as often as
/// there are repeats.
pub proof fn lemma_full_bag(repeats: nat)
    ensures
        full_bag(repeats).len() == 8 * repeats,
        forall|t: PieceType| full_bag(repeats).count(t) == repeats,
    decreases repeats,
{
    broadcast use vstd::multiset::group_multiset_axioms;

    if repeats > 0 {
        lemma_full_bag((repeats - 1) as nat);
        assert forall|t: PieceType| full_bag(repeats).count(t) == repeats by {
            match t {
                PieceType::Stick => {},
                PieceType::Box => {},
                PieceType::Jay => {},
                PieceType::Zee => {},
                PieceType::Tee => {},
                PieceType::Chi => {},
                PieceType::Ral => {},
                PieceType::Legs => {},
            }
        }
    }
}

/// Drawing a freshly filled bag empty takes `8 * repeats` draws and yields
/// every piece type exactly `repeats` times.
pub proof fn lemma_whole_bag_is_fair(s: Seq<PieceType>, repeats: nat)
    requires
        s.to_multiset() == full_bag(repeats),
    ensures
        s.len() == 8 * repeats,
        draws(s, s.len()).to_multiset() == full_bag(repeats),
        forall|t: PieceType| #[trigger] draws(s, s.len()).to_multiset().count(t) == repeats,
{
    broadcast use vstd::seq_lib::to_multiset_len;

    lemma_full_bag(repeats);
    assert(s.len() == s.to_multiset().len());
    assert(draws(s, s.len()) =~= s.reverse());
    s.lemma_reverse_to_multiset();
}

proof fn lemma_round_added(start: Seq<PieceType>)
    ensures
        (start + catalog()).to_multiset() == one_round(start.to_multiset()),
{
    broadcast use vstd::seq_lib::to_multiset_build;

    assert(start + catalog() =~= start.push(PieceType::Stick).push(PieceType::Box).push(
        PieceType::Jay,
    ).push(PieceType::Zee).push(PieceType::Tee).push(PieceType::Chi).push(PieceType::Ral).push(
        PieceType::Legs,
    ));
}

/// A bag of pieces that hands them out in random order, and that holds every
/// type equally often whenever it has just been filled.
pub struct GrabBag {
    repeats_per_bag: usize,
    bag: Vec<PieceType>,
}

impl View for GrabBag {
    type V = Seq<PieceType>;

    /// The pieces that are left, the next one to be drawn last.
    closed spec fn view(&self) -> Seq<PieceType> {
        self.bag@
    }
}

impl GrabBag {
    /// How many pieces of each type a full bag holds.
    pub closed spec fn repeats(&self) -> nat {
        self.repeats_per_bag as nat
    }

    /// A full bag is not empty and can be stored, and the bag holds no more
    /// than a full bag.
    pub open spec fn wf(&self) -> bool {
        &&& 1 <= self.repeats()
        &&& 8 * self.repeats() <= usize::MAX
        &&& self@.to_multiset().subset_of(full_bag(self.repeats()))
    }

    /// Whether a bag with `repeats_per_bag` pieces of every type can be
    /// built: it is not empty, and its pieces can be counted.
    pub fn repeats_fit(repeats_per_bag: usize) -> (fits: bool)
        ensures
            fits == (1 <= repeats_per_bag && 8 * repeats_per_bag <= usize::MAX),
    {
        1 <= repeats_per_bag && repeats_per_bag <= usize::MAX / 8
    }

    /// A freshly filled bag with `repeats_per_bag` pieces of every type.
    pub fn new(repeats_per_bag: usize) -> (bag: Self)
        requires
            1 <= repeats_per_bag,
            8 * repeats_per_bag <= usize::MAX,
        ensures
            bag.wf(),
            bag.repeats() == repeats_per_bag,
            bag@.to_multiset() == full_bag(repeats_per_bag as nat),
    {
        let mut bag = Self { repeats_per_bag, bag: Vec::new() };
        bag.refill();

        bag
    }

    /// How many pieces of each type a full bag holds.
    pub fn repeats_per_bag(&self) -> (n: usize)
        ensures
            n == self.repeats(),
    {
        self.repeats_per_bag
    }

    /// How many pieces are left before the bag is filled again.
    pub fn remaining(&self) -> (n: usize)
        ensures
            n == self@.len(),
    {
        self.bag.len()
    }

    /// Fills the bag with `repeats` pieces of every type and shuffles them.
    fn refill(&mut self)
        requires
            8 * old(self).repeats() <= usize::MAX,
        ensures
            final(self).repeats() == old(self).repeats(),
            final(self)@.to_multiset() == full_bag(old(self).repeats()),
    {
        let mut bag: Vec<PieceType> = Vec::new();
        let mut round: usize = 0;
        assert(bag@.to_multiset() =~= full_bag(0)) by {
            broadcast use vstd::seq_lib::to_multiset_len;

            assert(bag@.to_multiset().len() == 0);
        }
        while round < self.repeats_per_bag
            invariant
                self.repeats_per_bag == old(self).repeats_per_bag,
                8 * self.repeats_per_bag <= usize::MAX,
                round <= self.repeats_per_bag,
                bag@.len() == 8 * round,
                bag@.to_multiset() == full_bag(round as nat),
            decreases self.repeats_per_bag - round,
        {
            let ghost start = bag@;
            let mut k: usize = 0;
            while k < 8
                invariant
                    k <= 8,
                    bag@ == start + catalog().take(k as int),
                decreases 8 - k,
            {
                bag.push(ALL_PIECE_TYPES[k]);
                k += 1;
                assert(bag@ =~= start + catalog().take(k as int));
            }
            proof {
                assert(catalog().take(8) =~= catalog());
                lemma_round_added(start);
            }
            round += 1;
        }
        let mut rng = local_rng();
        shuffle(&mut bag, &mut rng);
        self.bag = bag;
    }

    /// Draws the next piece. An empty bag is filled first.
    pub fn choose_next_piece_type(&mut self) -> (next_type: PieceType)
        requires
            old(self).wf(),
        ensures
            final(self).wf(),
            final(self).repeats() == old(self).repeats(),
            old(self)@.len() > 0 ==> next_type == old(self)@.last() && final(self)@ == old(
                self,
            )@.drop_last(),
            old(self)@.len() == 0 ==> final(self)@.push(next_type).to_multiset() == full_bag(
                old(self).repeats(),
            ),
    {
        broadcast use {vstd::seq_lib::to_multiset_build, vstd::seq_lib::to_multiset_len};

        if self.bag.len() == 0 {
            self.refill();
            proof {
                lemma_full_bag(self.repeats());
                assert(self@.len() == self@.to_multiset().len());
            }
        }
        let ghost before = self@;
        let next_type = self.bag.pop().unwrap();
        proof {
            assert(before =~= self@.push(next_type));
            assert(self@.to_multiset().subset_of(before.to_multiset())) by {
                broadcast use vstd::multiset::group_multiset_axioms;

            }
            assert(self@.to_multiset().subset_of(full_bag(self.repeats()))) by {
                broadcast use vstd::multiset::group_multiset_axioms;

            }
        }
        next_type
    }
}

} // verus!
