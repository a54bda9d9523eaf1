use vstd::prelude::*;

verus! {

/// The thread-local generator of the `rand` crate.  Nothing is known of what
/// is inside; values of it are only created and handed on.
#[verifier::external_type_specification]
#[verifier::external_body]
pub struct ExThreadRng(rand::rngs::ThreadRng);

/// `rand::thread_rng` hands out a handle to the calling thread's generator.
/// Nothing is claimed of the handle.  (The generator is seeded from the
/// operating system on first use in a thread; `rand` aborts the thread with a
/// panic if the operating system has no entropy to give.)
pub assume_specification[ rand::thread_rng ]() -> (rng: rand::rngs::ThreadRng);

/// `rand::Rng::gen_ratio` on the thread-local generator: a boolean that is
/// `true` with probability `numerator / denominator`.  `rand` panics on a zero
/// denominator and on a numerator above the denominator, so both are excluded.
/// Of the outcome only the two certain cases are claimed, as `rand` documents
/// them: a ratio of one always yields `true`, a ratio of zero always `false`.
#[verifier::external_body]
fn sample_ratio(rng: &mut rand::rngs::ThreadRng, numerator: u32, denominator: u32) -> (hit: bool)
    requires
        denominator > 0,
        numerator <= denominator,
    ensures
        numerator == denominator ==> hit,
        numerator == 0 ==> !hit,
{
    rand::Rng::gen_ratio(rng, numerator, denominator)
}

/// A source of coin flips, used to seed a grid.
///
/// The grid asks for one flip per cell.  Nothing is assumed of the answers, so
/// a deterministic source is as good as a random one.  A source keeps a
/// record of what it has handed out, so that a contract can say which flips
/// a call has drawn and what it has made of them.
pub trait CoinSource {
    /// Every flip the source has handed out so far, oldest first.
    spec fn flips(&self) -> Seq<bool>;

    /// Hands out the next flip, which joins the record as its newest entry.
    fn flip(&mut self) -> (heads: bool)
        ensures
            final(self).flips() == old(self).flips().push(heads),
    ;
}

/// The fair coin backed by the thread-local random number generator.
pub struct ThreadCoin {
    rng: rand::rngs::ThreadRng,
    handed_out: Ghost<Seq<bool>>,
}

impl ThreadCoin {
    /// A coin on the calling thread's generator that has not been flipped
    /// yet.
    pub fn new() -> (coin: ThreadCoin)
        ensures
            coin.flips() == Seq::<bool>::empty(),
    {
        ThreadCoin { rng: rand::thread_rng(), handed_out: Ghost(Seq::empty()) }
    }
}

impl CoinSource for ThreadCoin {
    closed spec fn flips(&self) -> Seq<bool> {
        self.handed_out@
    }

    /// Heads with probability one half.  Whatever comes up joins the record.
    fn flip(&mut self) -> (heads: bool)
        ensures
            final(self).flips() == old(self).flips().push(heads),
    {
        let heads = sample_ratio(&mut self.rng, 1, 2);
        proof {
            self.handed_out@ = self.handed_out@.push(heads);
        }
        heads
    }
}

/// What the flip with the number `k` is when it is read off `script`: what
/// the script says while it lasts, and tails once it is used up.
pub open spec fn scripted(script: Seq<bool>, k: int) -> bool {
    0 <= k < script.len() && script[k]
}

/// How far a scripted coin has read, and what it has handed out on the way.
struct Progress {
    next: usize,
    handed_out: Ghost<Seq<bool>>,
}

/// A coin that reads its flips off a script, one entry per flip, and shows
/// tails once the script is used up.  It seeds a grid with cells that are
/// known beforehand.
pub struct ScriptedCoin {
    script: Vec<bool>,
    progress: Progress,
}

impl ScriptedCoin {
    #[verifier::type_invariant]
    spec fn inv(self) -> bool {
        let read = self.progress.handed_out@;
        &&& self.progress.next <= self.script@.len()
        &&& self.progress.next <= read.len()
        &&& self.progress.next < self.script@.len() ==> self.progress.next == read.len()
        &&& forall|k: int| 0 <= k < read.len() ==> read[k] == scripted(self.script@, k)
    }

    /// The script that the coin reads from.
    pub closed spec fn script(&self) -> Seq<bool> {
        self.script@
    }

    /// A coin at the start of `script`.
    pub fn new(script: Vec<bool>) -> (coin: ScriptedCoin)
        ensures
            coin.script() == script@,
            coin.flips() == Seq::<bool>::empty(),
    {
        ScriptedCoin { script, progress: Progress { next: 0, handed_out: Ghost(Seq::empty()) } }
    }
}

impl CoinSource for ScriptedCoin {
    closed spec fn flips(&self) -> Seq<bool> {
        self.progress.handed_out@
    }

    /// The next entry of the script, or tails after its end.
    fn flip(&mut self) -> (heads: bool)
        ensures
            final(self).script() == old(self).script(),
            heads == scripted(old(self).script(), old(self).flips().len() as int),
    {
        proof {
            use_type_invariant(&*self);
        }
        let next: usize = self.progress.next;
        let ghost read = self.progress.handed_out@;
        if next < self.script.len() {
            let heads = self.script[next];
            self.progress = Progress { next: next + 1, handed_out: Ghost(read.push(heads)) };
            heads
        } else {
            self.progress = Progress { next, handed_out: Ghost(read.push(false)) };
            false
        }
    }
}

} // verus!
