use vstd::prelude::*;

verus! {

/// The three phases of the process-wide initialization protocol.
///
/// The state only ever moves forward: `Uninitialized` to `Initializing`
/// (claimed by exactly one caller) and `Initializing` to `Ready`. No
/// transition ever returns to `Uninitialized`, which is what makes the
/// claim operation a single-winner race.
#[derive(Clone, Copy, Debug, PartialEq, Eq, Structural)]
pub enum GuardState {
    Uninitialized,
    Initializing,
    Ready,
}

/// Errors reported by the one-time initialization entry point.
#[derive(Clone, Copy, Debug, PartialEq, Eq, Structural)]
pub enum InitError {
    /// Some caller has already claimed the one-time initialization.
    Initialized,
    /// The native validation found no usable engine environment.
    NonGitDirectory,
}

/// An owned handle to the engine's initialized global structures.
///
/// Exactly one value is produced per process, by the winning caller of the
/// initialization protocol. The handle gives shared read access only; the
/// guard makes no promise about concurrent mutation of the engine's state.
#[derive(Debug)]
pub struct Git {
    handle: (),
}

/// Whether a claim arriving at state `s` wins the one-time transition.
pub open spec fn claim_wins(s: GuardState) -> bool {
    s == GuardState::Uninitialized
}

/// The guard state after a claim arriving at state `s`.
pub open spec fn claim_next(s: GuardState) -> GuardState {
    if claim_wins(s) {
        GuardState::Initializing
    } else {
        s
    }
}

/// How many of `n` back-to-back claims win, starting from state `s`.
pub open spec fn wins_among(s: GuardState, n: nat) -> nat
    decreases n,
{
    if n == 0 {
        0
    } else {
        (if claim_wins(s) {
            1nat
        } else {
            0nat
        }) + wins_among(claim_next(s), (n - 1) as nat)
    }
}

/// Once the guard has left `Uninitialized`, no later claim ever wins.
pub proof fn lemma_no_late_winner(s: GuardState, n: nat)
    requires
        s != GuardState::Uninitialized,
    ensures
        wins_among(s, n) == 0,
    decreases n,
{
    if n > 0 {
        lemma_no_late_winner(claim_next(s), (n - 1) as nat);
    }
}

/// Exactly one of any number of claims on a fresh guard wins: however many
/// callers race for the one-time initialization, precisely one of them is
/// told to run the native initialization sequence.
pub proof fn lemma_single_winner(n: nat)
    requires
        n > 0,
    ensures
        wins_among(GuardState::Uninitialized, n) == 1,
{
    lemma_no_late_winner(GuardState::Initializing, (n - 1) as nat);
}

/// The one-time initialization guard for the engine's process-wide
/// global state.
///
/// A caller first claims the guard; exactly the one caller that finds it
/// `Uninitialized` wins and must then run the native initialization
/// sequence and report its outcome through [`InitGuard::complete`]. Every
/// other caller loses the claim and is owed `InitError::Initialized`.
pub struct InitGuard {
    state: GuardState,
}

impl View for InitGuard {
    type V = GuardState;

    closed spec fn view(&self) -> GuardState {
        self.state
    }
}

impl InitGuard {
    /// A fresh guard; the engine's globals are untouched.
    pub fn new() -> (g: InitGuard)
        ensures
            g@ == GuardState::Uninitialized,
    {
        InitGuard { state: GuardState::Uninitialized }
    }

    /// Race for the one-time transition. The single caller that finds the
    /// guard `Uninitialized` wins and owns the `Initializing` phase; all
    /// others leave the state as they found it.
    pub fn claim(&mut self) -> (won: bool)
        ensures
            won == claim_wins(old(self)@),
            final(self)@ == claim_next(old(self)@),
    {
        match self.state {
            GuardState::Uninitialized => {
                self.state = GuardState::Initializing;
                true
            },
            _ => false,
        }
    }

    /// The winning caller reports the outcome of the native initialization
    /// sequence: `nongit` is the engine's flag telling whether the working
    /// directory failed validation (nonzero means it is not an instance of
    /// the engine's expected environment).
    pub fn complete(&mut self, nongit: i32) -> (r: Result<Git, InitError>)
        requires
            old(self)@ == GuardState::Initializing,
        ensures
            nongit == 0 ==> r is Ok && final(self)@ == GuardState::Ready,
            nongit != 0 ==> r == Err::<Git, InitError>(InitError::NonGitDirectory)
                && final(self)@ == GuardState::Initializing,
    {
        if nongit == 0 {
            self.state = GuardState::Ready;
            Ok(Git { handle: () })
        } else {
            Err(InitError::NonGitDirectory)
        }
    }

    /// The current phase of the protocol.
    pub fn state(&self) -> (s: GuardState)
        ensures
            s == self@,
    {
        self.state
    }
}

/// The cache state after one caller offers a freshly read value `reading`:
/// only the first offer is kept.
pub open spec fn offer_next(c: Option<Seq<char>>, reading: Seq<char>) -> Option<Seq<char>> {
    match c {
        None => Some(reading),
        Some(v) => Some(v),
    }
}

/// What a caller offering `reading` is handed back: the cached value if one
/// exists, else its own reading.
pub open spec fn offer_result(c: Option<Seq<char>>, reading: Seq<char>) -> Seq<char> {
    match c {
        None => reading,
        Some(v) => v,
    }
}

/// The values handed back when the readings in `rs` are offered in order,
/// starting from cache state `c`.
pub open spec fn offer_results(c: Option<Seq<char>>, rs: Seq<Seq<char>>) -> Seq<Seq<char>>
    decreases rs.len(),
{
    if rs.len() == 0 {
        Seq::empty()
    } else {
        seq![offer_result(c, rs.first())] + offer_results(offer_next(c, rs.first()), rs.drop_first())
    }
}

/// Once a value `v` is cached, every later caller is handed `v`.
pub proof fn lemma_offers_after_first(v: Seq<char>, rs: Seq<Seq<char>>)
    ensures
        offer_results(Some(v), rs).len() == rs.len(),
        forall|i: int| 0 <= i < rs.len() ==> offer_results(Some(v), rs)[i] == v,
    decreases rs.len(),
{
    if rs.len() > 0 {
        lemma_offers_after_first(v, rs.drop_first());
    }
}

/// All callers converge on the first reading: whatever values later callers
/// read, everyone is handed the value read by the first caller.
pub proof fn lemma_version_converges(rs: Seq<Seq<char>>)
    requires
        rs.len() > 0,
    ensures
        offer_results(None, rs).len() == rs.len(),
        forall|i: int| 0 <= i < rs.len() ==> offer_results(None, rs)[i] == rs.first(),
{
    lemma_offers_after_first(rs.first(), rs.drop_first());
    assert forall|i: int| 0 <= i < rs.len() implies offer_results(None, rs)[i] == rs.first() by {
        if i > 0 {
            let j = i - 1;
            assert(offer_results(None, rs)[i] == offer_results(
                Some(rs.first()),
                rs.drop_first(),
            )[j]);
        }
    }
}

/// The independent one-time-read cache behind the version accessor.
///
/// The native constant is read at most once: a caller asks whether a read
/// is still needed, performs the read only then, and stores the result.
/// Every later caller gets the identical cached text.
pub struct VersionGuard {
    cached: Option<String>,
}

impl View for VersionGuard {
    type V = Option<Seq<char>>;

    closed spec fn view(&self) -> Option<Seq<char>> {
        match self.cached {
            None => None,
            Some(ref s) => Some(s@),
        }
    }
}

impl VersionGuard {
    /// A fresh cache; the native constant has not been read.
    pub fn new() -> (g: VersionGuard)
        ensures
            g@ is None,
    {
        VersionGuard { cached: None }
    }

    /// Whether the native constant still has to be read.
    pub fn needs_read(&self) -> (b: bool)
        ensures
            b == (self@ is None),
    {
        self.cached.is_none()
    }

    /// Store the one native reading. Allowed exactly once.
    pub fn store(&mut self, reading: String)
        requires
            old(self)@ is None,
        ensures
            final(self)@ == Some(reading@),
    {
        self.cached = Some(reading);
    }

    /// Offer a freshly read value: only the first offer is kept, and
    /// every caller is handed the value the cache converged on.
    pub fn offer(&mut self, reading: String) -> (r: &String)
        ensures
            final(self)@ == offer_next(old(self)@, reading@),
            r@ == offer_result(old(self)@, reading@),
    {
        if self.cached.is_none() {
            self.cached = Some(reading);
        }
        self.cached.as_ref().unwrap()
    }

    /// The cached text; identical on every call once stored.
    pub fn get(&self) -> (r: &String)
        requires
            self@ is Some,
        ensures
            r@ == self@->0,
    {
        self.cached.as_ref().unwrap()
    }
}

} // verus!
