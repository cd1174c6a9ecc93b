//! The generator pool: independent text generators ("chains"), found by a
//! small index. Each chain learns from the texts it is fed and makes up
//! utterances from them.

use rustkov::prelude::Brain;
use vstd::prelude::*;

verus! {

#[verifier::external_type_specification]
#[verifier::external_body]
pub struct ExBrain(rustkov::prelude::Brain);

#[verifier::external_type_specification]
#[verifier::external_body]
pub struct ExBrainError(rustkov::prelude::Error);

/// The texts that a brain has learned from, oldest first.
pub uninterp spec fn brain_corpus(brain: Brain) -> Seq<Seq<char>>;

/// Whether a brain's switch `training` is on: it then learns from every
/// seed it is asked about.
pub uninterp spec fn brain_trains(brain: Brain) -> bool;

/// Whether a brain's switch `mute` is on: it then makes up nothing.
pub uninterp spec fn brain_is_mute(brain: Brain) -> bool;

/// Whether a brain is configured as `Brain::new` leaves it, the two
/// switches aside: it always replies where it can, and it learns single
/// words.
pub uninterp spec fn brain_is_plain(brain: Brain) -> bool;

/// The number of distinct words that a brain knows which has learned from
/// the texts of `corpus`.
pub uninterp spec fn vocabulary_size(corpus: Seq<Seq<char>>) -> nat;

/// Makes a brain with `Brain::new`. Trusted: it has learned from nothing,
/// both switches are off, and the rest of its configuration is the plain
/// one.
#[verifier::external_body]
fn new_brain() -> (brain: Brain)
    ensures
        brain_corpus(brain) == Seq::<Seq<char>>::empty(),
        !brain_trains(brain),
        !brain_is_mute(brain),
        brain_is_plain(brain),
{
    Brain::new()
}

/// Sets the field `config.training` of a brain. Trusted: the switch is as
/// set, and nothing else about the brain has changed.
#[verifier::external_body]
fn set_training(brain: &mut Brain, on: bool)
    ensures
        brain_trains(*final(brain)) == on,
        brain_is_mute(*final(brain)) == brain_is_mute(*old(brain)),
        brain_is_plain(*final(brain)) == brain_is_plain(*old(brain)),
        brain_corpus(*final(brain)) == brain_corpus(*old(brain)),
{
    brain.config.training = on;
}

/// Sets the field `config.mute` of a brain. Trusted: the switch is as set,
/// and nothing else about the brain has changed.
#[verifier::external_body]
fn set_mute(brain: &mut Brain, on: bool)
    ensures
        brain_is_mute(*final(brain)) == on,
        brain_trains(*final(brain)) == brain_trains(*old(brain)),
        brain_is_plain(*final(brain)) == brain_is_plain(*old(brain)),
        brain_corpus(*final(brain)) == brain_corpus(*old(brain)),
{
    brain.config.mute = on;
}

/// Calls `Brain::generate`. Trusted, of a brain that is configured plainly:
/// the configuration stays as it is; the brain learns from the seed where
/// `training` is on, and from nothing else; it answers `Ok(None)` where it
/// had learned from nothing or `mute` is on, and `Ok(Some(..))` otherwise.
/// Which utterance that is is up to the brain, which rolls dice of its own.
#[verifier::external_body]
fn brain_generate(brain: &mut Brain, seed: &str) -> (out: Result<
    Option<String>,
    rustkov::prelude::Error,
>)
    requires
        brain_is_plain(*old(brain)),
    ensures
        brain_is_plain(*final(brain)),
        brain_trains(*final(brain)) == brain_trains(*old(brain)),
        brain_is_mute(*final(brain)) == brain_is_mute(*old(brain)),
        brain_corpus(*final(brain)) == if brain_trains(*old(brain)) {
            brain_corpus(*old(brain)).push(seed@)
        } else {
            brain_corpus(*old(brain))
        },
        brain_corpus(*old(brain)).len() == 0 || brain_is_mute(*old(brain)) ==> out is Ok
            && out->Ok_0 is None,
        brain_corpus(*old(brain)).len() > 0 && !brain_is_mute(*old(brain)) ==> out is Ok
            && out->Ok_0 is Some,
{
    brain.generate(seed)
}

/// Counts the words a brain knows with `BrainStats::get_total_words`.
/// Trusted: for a brain that is configured plainly the count depends on the
/// texts it has learned from alone, and is zero where there are none.
#[verifier::external_body]
fn brain_total_words(brain: &Brain) -> (count: usize)
    requires
        brain_is_plain(*brain),
    ensures
        count == vocabulary_size(brain_corpus(*brain)),
        brain_corpus(*brain).len() == 0 ==> count == 0,
{
    brain.stats().get_total_words()
}

/// Teaches a brain one text. The brain learns only while it is asked, so
/// it is asked about the text with `training` on, and with `mute` on so
/// that it makes up nothing; then both switches are put back.
fn teach(brain: &mut Brain, text: &str)
    requires
        brain_is_plain(*old(brain)),
        !brain_trains(*old(brain)),
        !brain_is_mute(*old(brain)),
    ensures
        brain_is_plain(*final(brain)),
        !brain_trains(*final(brain)),
        !brain_is_mute(*final(brain)),
        brain_corpus(*final(brain)) == brain_corpus(*old(brain)).push(text@),
{
    set_training(brain, true);
    set_mute(brain, true);
    let _ = brain_generate(brain, text);
    set_mute(brain, false);
    set_training(brain, false);
}

/// What a chain answered, whatever went on inside it: the utterance, or
/// nothing where there was none or the generator failed.
pub fn utterance_of(out: Result<Option<String>, rustkov::prelude::Error>) -> (said: Option<
    String,
>)
    ensures
        out is Ok ==> said == out->Ok_0,
        out is Err ==> said is None,
{
    match out {
        Ok(said) => said,
        Err(_) => None,
    }
}

/// One question put to a chain: which chain, and the seed it was asked
/// about.
pub struct Ask {
    pub chain: int,
    pub seed: Seq<char>,
}

/// A brain at rest: configured plainly, with both switches off.
pub open spec fn rests(brain: Brain) -> bool {
    brain_is_plain(brain) && !brain_trains(brain) && !brain_is_mute(brain)
}

/// The chains. Chain 0 always exists. The pool remembers, for the proofs
/// only, what its chains have been asked.
pub struct GeneratorPool {
    brains: Vec<Brain>,
    asked: Ghost<Seq<Ask>>,
}

impl View for GeneratorPool {
    type V = Seq<Seq<Seq<char>>>;

    /// For each chain, the texts it has learned from, oldest first.
    closed spec fn view(&self) -> Seq<Seq<Seq<char>>> {
        Seq::new(self.brains@.len(), |i: int| brain_corpus(self.brains@[i]))
    }
}

impl GeneratorPool {
    /// Every question put to a chain of this pool so far, oldest first.
    pub closed spec fn asked(&self) -> Seq<Ask> {
        self.asked@
    }

    /// Chain 0 exists, and every chain is configured plainly, with both
    /// switches off.
    pub closed spec fn wf(&self) -> bool {
        &&& self.brains@.len() >= 1
        &&& forall|i: int| 0 <= i < self.brains@.len() ==> rests(#[trigger] self.brains@[i])
    }

    /// A pool of `size` chains that have learned nothing; of one chain
    /// where `size` is zero.
    pub fn new(size: usize) -> (pool: GeneratorPool)
        ensures
            pool.wf(),
            pool@.len() == if size == 0 { 1 } else { size as int },
            forall|i: int| 0 <= i < pool@.len() ==> (#[trigger] pool@[i]).len() == 0,
            pool.asked() == Seq::<Ask>::empty(),
    {
        let mut brains: Vec<Brain> = Vec::new();
        brains.push(new_brain());
        while brains.len() < size
            invariant
                brains@.len() >= 1,
                brains@.len() <= size || brains@.len() == 1,
                forall|i: int| 0 <= i < brains@.len() ==> rests(#[trigger] brains@[i]),
                forall|i: int|
                    0 <= i < brains@.len() ==> brain_corpus(#[trigger] brains@[i]).len() == 0,
            decreases size - brains.len(),
        {
            brains.push(new_brain());
        }
        GeneratorPool { brains, asked: Ghost(Seq::empty()) }
    }

    /// The number of chains.
    pub fn len(&self) -> (n: usize)
        ensures
            n == self@.len(),
            self.wf() ==> n >= 1,
    {
        self.brains.len()
    }

    /// Feeds `text` to chain `index`.
    pub fn ingest(&mut self, index: usize, text: &str)
        requires
            old(self).wf(),
            index < old(self)@.len(),
        ensures
            final(self).wf(),
            final(self)@ == old(self)@.update(index as int, old(self)@[index as int].push(text@)),
            final(self).asked() == old(self).asked(),
    {
        teach(&mut self.brains[index], text);
    }

    /// Asks chain `index` for an utterance on `seed`. A chain that has
    /// learned from anything answers; one that has learned nothing has
    /// nothing to say. Which utterance it is is up to the chain. The chain
    /// learns nothing from being asked.
    pub fn generate(&mut self, index: usize, seed: &str) -> (said: Option<String>)
        requires
            old(self).wf(),
            index < old(self)@.len(),
        ensures
            final(self).wf(),
            final(self)@ == old(self)@,
            final(self).asked() == old(self).asked().push(
                Ask { chain: index as int, seed: seed@ },
            ),
            said is Some <==> old(self)@[index as int].len() > 0,
    {
        let out = brain_generate(&mut self.brains[index], seed);
        self.asked = Ghost(self.asked@.push(Ask { chain: index as int, seed: seed@ }));
        utterance_of(out)
    }

    /// The number of distinct words that chain `index` knows.
    pub fn word_count(&self, index: usize) -> (count: usize)
        requires
            self.wf(),
            index < self@.len(),
        ensures
            count == vocabulary_size(self@[index as int]),
            self@[index as int].len() == 0 ==> count == 0,
    {
        brain_total_words(&self.brains[index])
    }
}

} // verus!
