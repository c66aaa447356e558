//! The bulls-and-cows game: the sequence scorer and the per-session state
//! machine that validates guesses, records history and enforces win/loss
//! termination.

use vstd::prelude::*;

verus! {

/// An ordered list of symbols. Secrets and guesses are sequences whose
/// symbols are pairwise distinct.
pub type Sequence = Vec<char>;

/// A rejected secret or guess.
#[derive(Clone, Copy, Debug, PartialEq, Eq, Structural)]
pub enum Error {
    /// The guess does not have the secret's length.
    LenMismatch,
    /// The sequence contains a repeated symbol.
    NonUnique,
}

/// The lifecycle of one game. `Win` and `Loss` are terminal.
#[derive(Clone, Copy, Debug, PartialEq, Eq, Structural)]
pub enum GameState {
    InProgress,
    Win,
    Loss,
}

/// One accepted guess together with the feedback it earned. Entries are
/// appended in guess order and never mutated afterwards.
#[derive(Debug)]
pub struct HistoryEntry {
    pub sequence: String,
    pub bulls: u32,
    pub cows: u32,
}

/// One bulls-and-cows game: a fixed secret, an attempt budget, the accepted
/// guesses so far, and the lifecycle state.
pub struct Game {
    pub sequence: Sequence,
    pub max_attempts: u32,
    pub history: Vec<HistoryEntry>,
    pub state: GameState,
}

/// The outcome of an accepted guess.
#[derive(Clone, Copy, Debug, PartialEq, Eq, Structural)]
pub enum GameResult {
    Feedback { bulls: u32, cows: u32 },
    Win,
    Loss,
}

/// Number of positions `i < n` where the guess matches the secret exactly.
pub open spec fn bulls_count(secret: Seq<char>, guess: Seq<char>, n: int) -> int
    decreases n,
{
    if n <= 0 {
        0
    } else {
        bulls_count(secret, guess, n - 1) + if guess[n - 1] == secret[n - 1] {
            1int
        } else {
            0int
        }
    }
}

/// Number of positions `i < n` whose guess symbol occurs in the secret, but
/// not at position `i`.
pub open spec fn cows_count(secret: Seq<char>, guess: Seq<char>, n: int) -> int
    decreases n,
{
    if n <= 0 {
        0
    } else {
        cows_count(secret, guess, n - 1) + if secret.contains(guess[n - 1]) && guess[n - 1]
            != secret[n - 1] {
            1int
        } else {
            0int
        }
    }
}

/// Bulls for a whole guess: symbols matching the secret in value and position.
pub open spec fn bulls_of(secret: Seq<char>, guess: Seq<char>) -> int {
    bulls_count(secret, guess, guess.len() as int)
}

/// Cows for a whole guess: symbols present in the secret at another position.
pub open spec fn cows_of(secret: Seq<char>, guess: Seq<char>) -> int {
    cows_count(secret, guess, guess.len() as int)
}

/// Why a guess against `pre` is rejected, if it is. Rejected guesses leave the
/// game untouched; the length check comes first.
pub open spec fn guess_error(pre: Game, guess: Seq<char>) -> Option<Error> {
    if guess.len() != pre.sequence@.len() {
        Some(Error::LenMismatch)
    } else if !guess.no_duplicates() {
        Some(Error::NonUnique)
    } else {
        None
    }
}

/// The transition an accepted (well-shaped) guess makes from `pre` to `post`,
/// returning `r`. In a terminal state the game is untouched and the terminal
/// result is replayed; in progress, exactly one history entry is appended and
/// the state advances by the win/loss rule. The loss rule deliberately allows
/// `max_attempts + 1` recorded guesses before a loss is declared.
pub open spec fn guess_accepted(pre: Game, post: Game, guess: Seq<char>, r: GameResult) -> bool {
    &&& post.sequence == pre.sequence
    &&& post.max_attempts == pre.max_attempts
    &&& match pre.state {
        GameState::Win => post == pre && r == GameResult::Win,
        GameState::Loss => post == pre && r == GameResult::Loss,
        GameState::InProgress => {
            let b = bulls_of(pre.sequence@, guess);
            let c = cows_of(pre.sequence@, guess);
            &&& post.history@ =~= pre.history@.push(post.history@.last())
            &&& post.history@.last().sequence@ == guess
            &&& post.history@.last().bulls == b
            &&& post.history@.last().cows == c
            &&& if b == pre.sequence@.len() {
                post.state is Win && r == GameResult::Win
            } else if pre.history@.len() + 1 > pre.max_attempts {
                post.state is Loss && r == GameResult::Loss
            } else {
                post.state is InProgress && r == (GameResult::Feedback {
                    bulls: b as u32,
                    cows: c as u32,
                })
            }
        },
    }
}

/// Feedback counts over the first `n` positions are non-negative, together
/// never exceed `n`, and the bulls reach `n` exactly when the first `n`
/// positions all match.
proof fn lemma_counts_bounds(secret: Seq<char>, guess: Seq<char>, n: int)
    requires
        secret.len() == guess.len(),
        0 <= n <= guess.len(),
    ensures
        0 <= bulls_count(secret, guess, n),
        0 <= cows_count(secret, guess, n),
        bulls_count(secret, guess, n) + cows_count(secret, guess, n) <= n,
        bulls_count(secret, guess, n) == n <==> (forall|i: int| 0 <= i < n ==> guess[i] == secret[i]),
    decreases n,
{
    if n > 0 {
        lemma_counts_bounds(secret, guess, n - 1);
    }
}

/// Law: for equal-length sequences, `bulls + cows` never exceeds the length,
/// and the bulls reach the length exactly when the guess equals the secret —
/// the condition on which `guess_accepted` turns an in-progress game to `Win`.
pub proof fn lemma_feedback_bounds(secret: Seq<char>, guess: Seq<char>)
    requires
        secret.len() == guess.len(),
    ensures
        0 <= bulls_of(secret, guess),
        0 <= cows_of(secret, guess),
        bulls_of(secret, guess) + cows_of(secret, guess) <= secret.len(),
        bulls_of(secret, guess) == secret.len() <==> guess =~= secret,
{
    lemma_counts_bounds(secret, guess, guess.len() as int);
}

/// An accepted in-progress guess appends exactly one history entry and keeps
/// the earlier entries as they were.
pub open spec fn records_one_guess(pre: Game, post: Game) -> bool {
    &&& pre.state is InProgress
    &&& post.history@.len() == pre.history@.len() + 1
    &&& pre.history@.is_prefix_of(post.history@)
}

/// The transition an accepted guess makes from an in-progress game records
/// exactly that guess.
pub proof fn lemma_accepted_guess_records(pre: Game, post: Game, guess: Seq<char>, r: GameResult)
    requires
        pre.state is InProgress,
        guess_accepted(pre, post, guess, r),
    ensures
        records_one_guess(pre, post),
{
    assert(pre.history@ =~= post.history@.subrange(0, pre.history@.len() as int));
}

/// Law: starting from a fresh game, a run of accepted in-progress guesses
/// leaves one history entry per guess, in call order. `trace[0]` is the fresh
/// game and each later element the game after one more accepted guess: every
/// game in the run then holds exactly as many entries as guesses came before
/// it, and each earlier history is a prefix of each later one.
pub proof fn lemma_history_counts_guesses(trace: Seq<Game>)
    requires
        trace.len() > 0,
        trace[0].history@.len() == 0,
        forall|i: int| 0 <= i < trace.len() - 1 ==> #[trigger] records_one_guess(
            trace[i],
            trace[i + 1],
        ),
    ensures
        trace.last().history@.len() == trace.len() - 1,
        forall|i: int| 0 <= i < trace.len() ==> #[trigger] trace[i].history@.len() == i,
        forall|i: int, j: int| 0 <= i <= j < trace.len() ==> trace[i].history@.is_prefix_of(
            trace[j].history@,
        ),
    decreases trace.len(),
{
    if trace.len() > 1 {
        let front = trace.drop_last();
        assert(forall|i: int| 0 <= i < front.len() - 1 ==> #[trigger] records_one_guess(
            front[i],
            front[i + 1],
        ));
        lemma_history_counts_guesses(front);
        assert(records_one_guess(trace[trace.len() - 2], trace[trace.len() - 2 + 1]));
        assert forall|i: int| 0 <= i < trace.len() implies #[trigger] trace[i].history@.len()
            == i by {
            if i < trace.len() - 1 {
                assert(front[i] == trace[i]);
                assert(front[i].history@.len() == i);
            } else {
                assert(front[i - 1].history@.len() == i - 1);
            }
        }
        assert forall|i: int, j: int| 0 <= i <= j < trace.len() implies trace[i].history@
            .is_prefix_of(trace[j].history@) by {
            if j < trace.len() - 1 {
                assert(front[i].history@.is_prefix_of(front[j].history@));
            } else if i < j {
                assert(front[i].history@.is_prefix_of(front[j - 1].history@));
                assert(records_one_guess(trace[j - 1], trace[j - 1 + 1]));
                assert(trace[i].history@ =~= trace[j].history@.subrange(
                    0,
                    trace[i].history@.len() as int,
                ));
            }
        }
    }
}

/// The game `pre` stays as it is over one accepted guess once terminal.
proof fn lemma_terminal_stable_upto(
    trace: Seq<Game>,
    guesses: Seq<Seq<char>>,
    results: Seq<GameResult>,
    i: int,
)
    requires
        trace.len() == results.len() + 1,
        guesses.len() == results.len(),
        !(trace[0].state is InProgress),
        forall|k: int| 0 <= k < results.len() ==> #[trigger] guess_accepted(
            trace[k],
            trace[k + 1],
            guesses[k],
            results[k],
        ),
        0 <= i < trace.len(),
    ensures
        trace[i] == trace[0],
    decreases i,
{
    if i > 0 {
        lemma_terminal_stable_upto(trace, guesses, results, i - 1);
        assert(guess_accepted(trace[i - 1], trace[i - 1 + 1], guesses[i - 1], results[i - 1]));
    }
}

/// Law: once a game is terminal, a run of accepted guesses — however long —
/// leaves it untouched and replays the same terminal result every time.
/// `trace[0]` is the terminal game, and each `results[k]` the result of the
/// accepted guess `guesses[k]` taking `trace[k]` to `trace[k + 1]`.
pub proof fn lemma_terminal_replay(
    trace: Seq<Game>,
    guesses: Seq<Seq<char>>,
    results: Seq<GameResult>,
)
    requires
        trace.len() == results.len() + 1,
        guesses.len() == results.len(),
        !(trace[0].state is InProgress),
        forall|k: int| 0 <= k < results.len() ==> #[trigger] guess_accepted(
            trace[k],
            trace[k + 1],
            guesses[k],
            results[k],
        ),
    ensures
        forall|i: int| 0 <= i < trace.len() ==> #[trigger] trace[i] == trace[0],
        forall|k: int| 0 <= k < results.len() ==> #[trigger] results[k] == (if trace[0].state is Win {
            GameResult::Win
        } else {
            GameResult::Loss
        }),
{
    assert forall|i: int| 0 <= i < trace.len() implies #[trigger] trace[i] == trace[0] by {
        lemma_terminal_stable_upto(trace, guesses, results, i);
    }
    assert forall|k: int| 0 <= k < results.len() implies #[trigger] results[k] == (if trace[0].state is Win {
        GameResult::Win
    } else {
        GameResult::Loss
    }) by {
        lemma_terminal_stable_upto(trace, guesses, results, k);
        assert(guess_accepted(trace[k], trace[k + 1], guesses[k], results[k]));
    }
}

/// Returns whether all symbols of the sequence are pairwise distinct.
pub fn unique(seq: &Sequence) -> (r: bool)
    ensures
        r == seq@.no_duplicates(),
{
    let n = seq.len();
    let mut i: usize = 0;
    while i < n
        invariant
            n == seq@.len(),
            i <= n,
            forall|p: int, q: int| 0 <= p < q < n && p < i ==> seq@[p] != seq@[q],
        decreases n - i,
    {
        let mut j: usize = i + 1;
        while j < n
            invariant
                n == seq@.len(),
                i < n,
                i < j <= n,
                forall|q: int| i < q < j ==> seq@[i as int] != seq@[q],
            decreases n - j,
        {
            if seq[i] == seq[j] {
                proof {
                    assert(seq@[i as int] == seq@[j as int] && i != j);
                }
                return false;
            }
            j += 1;
        }
        i += 1;
    }
    true
}

/// Returns whether `c` occurs somewhere in the sequence.
fn contains_symbol(seq: &Sequence, c: char) -> (r: bool)
    ensures
        r == seq@.contains(c),
{
    let n = seq.len();
    let mut j: usize = 0;
    while j < n
        invariant
            n == seq@.len(),
            j <= n,
            forall|k: int| 0 <= k < j ==> seq@[k] != c,
        decreases n - j,
    {
        if seq[j] == c {
            proof {
                assert(seq@.contains(c)) by {
                    assert(seq@[j as int] == c);
                }
            }
            return true;
        }
        j += 1;
    }
    false
}

/// The sequence scorer: compares a guess against an equal-length secret and
/// counts bulls (right symbol, right position) and cows (right symbol, wrong
/// position). Symbols absent from the secret count for neither.
pub fn score(secret: &Sequence, guess: &Sequence) -> (r: (u32, u32))
    requires
        secret@.len() == guess@.len(),
        guess@.len() <= u32::MAX,
    ensures
        r.0 == bulls_of(secret@, guess@),
        r.1 == cows_of(secret@, guess@),
{
    let n = guess.len();
    let mut bulls: u32 = 0;
    let mut cows: u32 = 0;
    let mut i: usize = 0;
    while i < n
        invariant
            n == guess@.len(),
            secret@.len() == n,
            n <= u32::MAX,
            i <= n,
            bulls == bulls_count(secret@, guess@, i as int),
            cows == cows_count(secret@, guess@, i as int),
            bulls + cows <= i,
        decreases n - i,
    {
        let g = guess[i];
        if secret[i] == g {
            bulls += 1;
        } else if contains_symbol(secret, g) {
            cows += 1;
        }
        i += 1;
    }
    (bulls, cows)
}

/// Relies on `String::push`: appends exactly one character at the end.
#[verifier::external_body]
fn push_char(s: &mut String, c: char)
    ensures
        final(s)@ == old(s)@.push(c),
{
    s.push(c);
}

/// Builds the `String` holding exactly the given symbols, in order.
fn chars_to_string(chars: &Vec<char>) -> (r: String)
    ensures
        r@ == chars@,
{
    let n = chars.len();
    let mut s = String::new();
    let mut i: usize = 0;
    while i < n
        invariant
            n == chars@.len(),
            i <= n,
            s@ =~= chars@.subrange(0, i as int),
        decreases n - i,
    {
        push_char(&mut s, chars[i]);
        proof {
            assert(chars@.subrange(0, i as int).push(chars@[i as int]) =~= chars@.subrange(
                0,
                i as int + 1,
            ));
        }
        i += 1;
    }
    proof {
        assert(chars@.subrange(0, n as int) =~= chars@);
    }
    s
}

impl Game {
    /// A game is well formed when its secret has pairwise-distinct symbols
    /// and its length fits the `u32` feedback counters.
    pub open spec fn wf(self) -> bool {
        &&& self.sequence@.no_duplicates()
        &&& self.sequence@.len() <= u32::MAX
    }

    /// Starts a game: succeeds exactly when the secret has no repeated
    /// symbol, with an empty history and the in-progress state.
    pub fn new(sequence: Sequence, max_attempts: u32) -> (result: Result<Game, Error>)
        requires
            sequence@.len() <= u32::MAX,
        ensures
            result is Ok <==> sequence@.no_duplicates(),
            result matches Ok(g) ==> {
                &&& g.wf()
                &&& g.sequence@ == sequence@
                &&& g.max_attempts == max_attempts
                &&& g.history@ =~= Seq::<HistoryEntry>::empty()
                &&& g.state is InProgress
            },
            result matches Err(e) ==> e is NonUnique,
    {
        if unique(&sequence) {
            Ok(
                Game {
                    sequence,
                    max_attempts,
                    history: Vec::new(),
                    state: GameState::InProgress,
                },
            )
        } else {
            Err(Error::NonUnique)
        }
    }

    /// The secret, read-only; exposed so a loss can reveal the answer.
    pub fn sequence(&self) -> (r: &Sequence)
        ensures
            *r == self.sequence,
    {
        &self.sequence
    }

    /// The accepted guesses so far, read-only, in guess order.
    pub fn history(&self) -> (r: &Vec<HistoryEntry>)
        ensures
            *r == self.history,
    {
        &self.history
    }

    /// Plays one guess. A mis-shaped guess (wrong length, or a repeated
    /// symbol) is rejected and leaves the game untouched; an accepted guess
    /// makes exactly the transition `guess_accepted` describes.
    pub fn guess(&mut self, sequence: Sequence) -> (result: Result<GameResult, Error>)
        requires
            old(self).wf(),
        ensures
            final(self).wf(),
            match guess_error(*old(self), sequence@) {
                Some(e) => result == Err::<GameResult, Error>(e) && *final(self) == *old(self),
                None => result matches Ok(r) && guess_accepted(
                    *old(self),
                    *final(self),
                    sequence@,
                    r,
                ),
            },
    {
        if self.sequence.len() != sequence.len() {
            return Err(Error::LenMismatch);
        }
        if !unique(&sequence) {
            return Err(Error::NonUnique);
        }
        let res = match self.state {
            GameState::InProgress => {
                let (bulls, cows) = score(&self.sequence, &sequence);
                let text = chars_to_string(&sequence);
                self.history.push(HistoryEntry { sequence: text, bulls: bulls, cows: cows });
                if bulls as usize == self.sequence.len() {
                    self.state = GameState::Win;
                    GameResult::Win
                } else if self.history.len() > self.max_attempts as usize {
                    self.state = GameState::Loss;
                    GameResult::Loss
                } else {
                    GameResult::Feedback { bulls: bulls, cows: cows }
                }
            },
            GameState::Win => GameResult::Win,
            GameState::Loss => GameResult::Loss,
        };
        Ok(res)
    }
}

} // verus!
