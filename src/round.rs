use vstd::prelude::*;
use crate::message::{PlayerState, RoundView, ViewModel, players_model};
use crate::text::{eq_ignore_ascii_case, equal_ignoring_ascii_case};

verus! {

/// Length of one drawing turn, in seconds.
pub const ROUND_DURATION: u64 = 120;

/// Points a player earns for guessing the word.
pub const SOLVE_POINTS: u64 = 100;

/// No two players share a name.
pub open spec fn names_unique(ps: Seq<PlayerState>) -> bool {
    forall|i: int, j: int|
        #![trigger ps[i], ps[j]]
        0 <= i < ps.len() && 0 <= j < ps.len() && i != j ==> ps[i].username@ != ps[j].username@
}

/// No name occurs twice.
pub open spec fn strings_unique(s: Seq<String>) -> bool {
    forall|i: int, j: int|
        #![trigger s[i], s[j]]
        0 <= i < s.len() && 0 <= j < s.len() && i != j ==> s[i]@ != s[j]@
}

/// A solve rank, if any, lies in `1..=solves`.
pub open spec fn rank_within(r: Option<usize>, solves: usize) -> bool {
    match r {
        Some(x) => 1 <= x <= solves,
        None => true,
    }
}

/// Stepping once around a cycle of length `n`.
proof fn lemma_step_mod(x: int, n: int)
    requires
        0 <= x < n,
    ensures
        (x + 1) % n == if x + 1 < n {
            x + 1
        } else {
            0
        },
{
    if x + 1 < n {
        vstd::arithmetic::div_mod::lemma_small_mod((x + 1) as nat, n as nat);
    } else {
        vstd::arithmetic::div_mod::lemma_mod_self_0(n);
    }
}

/// `new` holds the players of `old`, in the same order, with their scores,
/// and nobody has solved yet.
pub open spec fn players_reset(old: Seq<PlayerState>, new: Seq<PlayerState>) -> bool {
    &&& new.len() == old.len()
    &&& forall|i: int|
        0 <= i < new.len() ==> {
            &&& (#[trigger] new[i]).username@ == old[i].username@
            &&& new[i].score == old[i].score
            &&& new[i].solved_rank is None
        }
}

/// The first index in `lo..hi` whose word differs from `w` ignoring ASCII
/// case, or `hi` if there is none.
pub open spec fn first_fresh(words: Seq<String>, w: Seq<char>, lo: int, hi: int) -> int
    decreases hi - lo,
{
    if lo >= hi {
        hi
    } else if !equal_ignoring_ascii_case(words[lo]@, w) {
        lo
    } else {
        first_fresh(words, w, lo + 1, hi)
    }
}

proof fn lemma_first_fresh(words: Seq<String>, w: Seq<char>, lo: int, hi: int)
    requires
        0 <= lo <= hi <= words.len(),
    ensures
        lo <= first_fresh(words, w, lo, hi) <= hi,
        first_fresh(words, w, lo, hi) < hi ==> !equal_ignoring_ascii_case(
            words[first_fresh(words, w, lo, hi)]@,
            w,
        ),
        forall|k: int|
            lo <= k < first_fresh(words, w, lo, hi) ==> equal_ignoring_ascii_case(
                #[trigger] words[k]@,
                w,
            ),
    decreases hi - lo,
{
    if lo < hi {
        lemma_first_fresh(words, w, lo + 1, hi);
    }
}

/// The next turn's word index is in range, and its word differs from the
/// current one whenever the list holds a word that does.
proof fn lemma_next_word(st: SkribblState)
    requires
        st.words@.len() > 0,
        st.word_index < st.words@.len(),
    ensures
        0 <= st.next_word_index() < st.words@.len(),
        st.has_fresh_word() ==> !equal_ignoring_ascii_case(
            st.words@[st.next_word_index()]@,
            st.word(),
        ),
{
    let n = st.words@.len() as int;
    let cur = st.word_index as int;
    let w = st.word();
    lemma_first_fresh(st.words@, w, cur + 1, n);
    lemma_first_fresh(st.words@, w, 0, cur);
    if st.has_fresh_word() && st.next_word_index() == cur {
        let k = choose|k: int|
            0 <= k < st.words@.len() && !equal_ignoring_ascii_case(#[trigger] st.words@[k]@, w);
        if k == cur {
            assert(equal_ignoring_ascii_case(w, w));
        }
    }
}

/// `new` is `old` with player `i` given the points of a solve; names and the
/// other scores stay.
pub open spec fn awarded(old: Seq<PlayerState>, new: Seq<PlayerState>, i: int) -> bool {
    &&& new.len() == old.len()
    &&& forall|k: int|
        0 <= k < new.len() ==> {
            &&& (#[trigger] new[k]).username@ == old[k].username@
            &&& new[k].score == if k == i {
                old[k].score.saturating_add(SOLVE_POINTS)
            } else {
                old[k].score
            }
        }
}

/// What a guess did to the game.
#[derive(Debug, Clone, Copy, PartialEq, Eq, Structural)]
pub enum GuessOutcome {
    /// Not a solve: the text is to be shown as chat.
    Missed,
    /// A solve; others still have to guess.
    Solved,
    /// A solve by the last player who had to guess; a new turn began.
    SolvedAndRotated,
}

/// A scored game: rotation of drawers, secret word, round timer and scores.
#[derive(Debug)]
pub struct SkribblState {
    /// Players in rotation order.
    pub players: Vec<PlayerState>,
    /// Index of the drawing player in `players`.
    pub drawer: usize,
    /// The configured word list; the secret word is `words[word_index]`.
    pub words: Vec<String>,
    pub word_index: usize,
    /// Time at which the current turn began, in seconds.
    pub round_start_time: u64,
    /// Solves in the current turn so far; each solve takes the next rank.
    pub solves: usize,
}

impl SkribblState {
    pub open spec fn wf(&self) -> bool {
        &&& self.words@.len() > 0
        &&& self.word_index < self.words@.len()
        &&& if self.players@.len() == 0 {
            self.drawer == 0
        } else {
            self.drawer < self.players@.len()
        }
        &&& names_unique(self.players@)
        &&& forall|k: int|
            0 <= k < self.players@.len() ==> rank_within(
                (#[trigger] self.players@[k]).solved_rank,
                self.solves,
            )
    }

    /// The secret word of the current turn.
    pub open spec fn word(&self) -> Seq<char> {
        self.words@[self.word_index as int]@
    }

    /// The list holds a word that differs from the current one, ignoring ASCII case.
    pub open spec fn has_fresh_word(&self) -> bool {
        exists|k: int|
            0 <= k < self.words@.len() && !equal_ignoring_ascii_case(
                #[trigger] self.words@[k]@,
                self.word(),
            )
    }

    /// Index of the next turn's word: the first word after the current one in
    /// list order, wrapping round, that differs from it ignoring ASCII case;
    /// the current index if there is none.
    pub open spec fn next_word_index(&self) -> int {
        let n = self.words@.len() as int;
        let cur = self.word_index as int;
        let a = first_fresh(self.words@, self.word(), cur + 1, n);
        if a < n {
            a
        } else {
            let b = first_fresh(self.words@, self.word(), 0, cur);
            if b < cur {
                b
            } else {
                cur
            }
        }
    }

    /// `self` holds the word list of `old`, moved on to the next turn's word,
    /// which differs from the old word whenever the list allows it.
    pub open spec fn word_advanced(&self, old: SkribblState) -> bool {
        &&& self.words@ == old.words@
        &&& self.word_index == old.next_word_index()
        &&& (old.has_fresh_word() ==> !equal_ignoring_ascii_case(self.word(), old.word()))
    }

    pub open spec fn has_drawer(&self) -> bool {
        self.players@.len() > 0
    }

    pub open spec fn drawer_name(&self) -> Seq<char> {
        self.players@[self.drawer as int].username@
    }

    pub open spec fn is_at(&self, i: int, name: Seq<char>) -> bool {
        0 <= i < self.players@.len() && self.players@[i].username@ == name
    }

    pub open spec fn is_player(&self, name: Seq<char>) -> bool {
        exists|i: int| self.is_at(i, name)
    }

    /// `name` is a player who neither draws nor has solved this turn.
    pub open spec fn may_guess(&self, name: Seq<char>) -> bool {
        exists|i: int|
            self.is_at(i, name) && i != self.drawer && (#[trigger] self.players@[i]).solved_rank is None
    }

    /// Every player but the drawer has solved this turn.
    pub open spec fn all_solved(&self) -> bool {
        forall|i: int|
            0 <= i < self.players@.len() && i != self.drawer ==> (#[trigger] self.players@[i]).solved_rank is Some
    }

    /// What the user `name` is shown of the game: the word only if they draw.
    pub open spec fn seen_by(&self, name: Seq<char>) -> ViewModel {
        ViewModel {
            players: players_model(self.players@),
            drawing_user: if self.has_drawer() {
                Some(self.drawer_name())
            } else {
                None
            },
            word: if self.has_drawer() && self.drawer_name() == name {
                Some(self.word())
            } else {
                None
            },
            round_start_time: self.round_start_time,
        }
    }

    /// Seconds left in the current turn at time `now`; zero once the turn is over.
    pub open spec fn remaining(&self, now: u64) -> u64 {
        if now <= self.round_start_time {
            ROUND_DURATION
        } else if now - self.round_start_time >= ROUND_DURATION {
            0
        } else {
            (ROUND_DURATION - (now - self.round_start_time)) as u64
        }
    }

    /// The turn has lasted its full duration at time `now`.
    pub open spec fn is_over(&self, now: u64) -> bool {
        now >= self.round_start_time && now - self.round_start_time >= ROUND_DURATION
    }

    /// Index of the player called `name`.
    pub open spec fn index_of(&self, name: Seq<char>) -> int {
        choose|i: int| self.is_at(i, name)
    }

    /// Drawer of the turn after this one.
    pub open spec fn next_drawer(&self) -> int {
        if self.players@.len() == 0 {
            0
        } else {
            (self.drawer + 1) % (self.players@.len() as int)
        }
    }

    /// Every player other than the drawer and player `i` has solved.
    pub open spec fn others_solved(&self, i: int) -> bool {
        forall|k: int|
            0 <= k < self.players@.len() && k != self.drawer && k != i ==> (#[trigger] self.players@[k]).solved_rank is Some
    }

    /// `text` is a solve for `name`: they may guess and it is the word, ignoring ASCII case.
    pub open spec fn is_hit(&self, name: Seq<char>, text: Seq<char>) -> bool {
        self.may_guess(name) && equal_ignoring_ascii_case(text, self.word())
    }

    /// `self` is what a guess of `text` by `name` at `now` makes of `old`, with outcome `r`.
    pub open spec fn guessed(&self, old: SkribblState, name: Seq<char>, text: Seq<char>, now: u64, r: GuessOutcome) -> bool {
        let i = old.index_of(name);
        if !old.is_hit(name, text) {
            r == GuessOutcome::Missed && *self == old
        } else if old.others_solved(i) {
            &&& r == GuessOutcome::SolvedAndRotated
            &&& awarded(old.players@, self.players@, i)
            &&& forall|k: int| 0 <= k < self.players@.len() ==> (#[trigger] self.players@[k]).solved_rank is None
            &&& self.drawer == old.next_drawer()
            &&& self.word_advanced(old)
            &&& self.round_start_time == now
            &&& self.solves == 0
        } else {
            &&& r == GuessOutcome::Solved
            &&& awarded(old.players@, self.players@, i)
            &&& self.solves == old.solves.saturating_add(1)
            &&& self.players@[i].solved_rank == Some(self.solves)
            &&& forall|k: int| 0 <= k < self.players@.len() && k != i ==> (#[trigger] self.players@[k]).solved_rank == old.players@[k].solved_rank
            &&& self.drawer == old.drawer
            &&& self.words@ == old.words@
            &&& self.word_index == old.word_index
            &&& self.round_start_time == old.round_start_time
        }
    }

    /// `self` is `old` after `name` left at `now`.
    pub open spec fn left(&self, old: SkribblState, name: Seq<char>, now: u64) -> bool {
        &&& !self.is_player(name)
        &&& (!old.is_player(name) ==> *self == old)
        &&& forall|i: int|
                old.is_at(i, name) && i != old.drawer ==> {
                    &&& self.players@ == old.players@.remove(i)
                    &&& self.drawer == if i < old.drawer {
                        old.drawer - 1
                    } else {
                        old.drawer as int
                    }
                    &&& self.words@ == old.words@
                    &&& self.word_index == old.word_index
                    &&& self.round_start_time == old.round_start_time
                    &&& self.solves == old.solves
                }
        &&& forall|i: int|
                old.is_at(i, name) && i == old.drawer ==> {
                    &&& players_reset(old.players@.remove(i), self.players@)
                    &&& self.drawer == if i < old.players@.len() - 1 {
                        i
                    } else {
                        0
                    }
                    &&& self.word_advanced(old)
                    &&& self.round_start_time == now
                    &&& self.solves == 0
                }
    }

    /// `self` is `old` after `name` joined.
    pub open spec fn added(&self, old: SkribblState, name: Seq<char>) -> bool {
        if old.is_player(name) {
            *self == old
        } else {
            &&& self.players@.len() == old.players@.len() + 1
            &&& self.players@.drop_last() == old.players@
            &&& self.players@.last().username@ == name
            &&& self.players@.last().score == 0
            &&& self.players@.last().solved_rank is None
            &&& self.drawer == old.drawer
            &&& self.words@ == old.words@
            &&& self.word_index == old.word_index
            &&& self.round_start_time == old.round_start_time
            &&& self.solves == old.solves
        }
    }

    /// `self` is a fresh game of `users`, the first one drawing the first word.
    pub open spec fn started_with(&self, users: Seq<String>, words: Seq<String>, now: u64) -> bool {
        &&& self.players@.len() == users.len()
        &&& forall|i: int|
            0 <= i < users.len() ==> {
                &&& (#[trigger] self.players@[i]).username@ == users[i]@
                &&& self.players@[i].score == 0
                &&& self.players@[i].solved_rank is None
            }
        &&& self.drawer == 0
        &&& self.words@ == words
        &&& self.word_index == 0
        &&& self.round_start_time == now
        &&& self.solves == 0
    }

    /// `self` is `old` after a new turn began at `now` with drawer index `d`.
    pub open spec fn turn_started(&self, old: SkribblState, d: int, now: u64) -> bool {
        &&& players_reset(old.players@, self.players@)
        &&& self.drawer == d
        &&& self.word_advanced(old)
        &&& self.round_start_time == now
        &&& self.solves == 0
    }

    /// Starts a scored game with `users` as players, the first one drawing.
    pub fn with_users(users: &Vec<String>, words: Vec<String>, now: u64) -> (r: SkribblState)
        requires
            words@.len() > 0,
            strings_unique(users@),
        ensures
            r.wf(),
            r.started_with(users@, words@, now),
    {
        let mut players: Vec<PlayerState> = Vec::new();
        let mut i: usize = 0;
        while i < users.len()
            invariant
                i <= users@.len(),
                strings_unique(users@),
                players@.len() == i,
                forall|k: int|
                    0 <= k < i ==> {
                        &&& (#[trigger] players@[k]).username@ == users@[k]@
                        &&& players@[k].score == 0
                        &&& players@[k].solved_rank is None
                    },
            decreases users@.len() - i,
        {
            players.push(PlayerState { username: users[i].clone(), score: 0, solved_rank: None });
            i = i + 1;
        }
        SkribblState { players, drawer: 0, words, word_index: 0, round_start_time: now, solves: 0 }
    }

    /// Index of the player called `name`, if there is one.
    pub fn find_player(&self, name: &String) -> (r: Option<usize>)
        ensures
            match r {
                Some(i) => self.is_at(i as int, name@),
                None => !self.is_player(name@),
            },
    {
        let mut i: usize = 0;
        while i < self.players.len()
            invariant
                i <= self.players@.len(),
                forall|k: int| 0 <= k < i ==> !self.is_at(k, name@),
            decreases self.players@.len() - i,
        {
            if self.players[i].username == *name {
                return Some(i);
            }
            i = i + 1;
        }
        None
    }

    /// Whether `name` may still guess the word this turn.
    pub fn can_guess(&self, name: &String) -> (r: bool)
        requires
            self.wf(),
        ensures
            r == self.may_guess(name@),
    {
        match self.find_player(name) {
            Some(i) => {
                let r = i != self.drawer && self.players[i].solved_rank.is_none();
                assert(r ==> self.may_guess(name@));
                r
            },
            None => false,
        }
    }

    /// Whether every player but the drawer has solved this turn.
    pub fn did_all_solve(&self) -> (r: bool)
        ensures
            r == self.all_solved(),
    {
        let mut i: usize = 0;
        while i < self.players.len()
            invariant
                i <= self.players@.len(),
                forall|k: int|
                    0 <= k < i && k != self.drawer ==> (#[trigger] self.players@[k]).solved_rank is Some,
            decreases self.players@.len() - i,
        {
            if i != self.drawer && self.players[i].solved_rank.is_none() {
                return false;
            }
            i = i + 1;
        }
        true
    }

    /// Records a correct guess by player `i`: the next solve rank and the points.
    pub fn on_solve(&mut self, i: usize)
        requires
            old(self).wf(),
            i < old(self).players@.len(),
            i != old(self).drawer,
            old(self).players@[i as int].solved_rank is None,
        ensures
            final(self).wf(),
            final(self).players@.len() == old(self).players@.len(),
            final(self).players@[i as int].username@ == old(self).players@[i as int].username@,
            final(self).players@[i as int].score == old(self).players@[i as int].score.saturating_add(
                SOLVE_POINTS,
            ),
            final(self).solves == old(self).solves.saturating_add(1),
            final(self).players@[i as int].solved_rank == Some(final(self).solves),
            forall|k: int|
                0 <= k < old(self).players@.len() && k != i ==> #[trigger] final(self).players@[k]
                    == old(self).players@[k],
            final(self).drawer == old(self).drawer,
            final(self).words@ == old(self).words@,
            final(self).word_index == old(self).word_index,
            final(self).round_start_time == old(self).round_start_time,
    {
        self.solves = self.solves.saturating_add(1);
        let rank = self.solves;
        let old_score = self.players[i].score;
        let name = self.players[i].username.clone();
        let p = PlayerState {
            username: name,
            score: old_score.saturating_add(SOLVE_POINTS),
            solved_rank: Some(rank),
        };
        self.players.set(i, p);
    }

    /// Index of the next turn's word.
    fn choose_next_word(&self) -> (r: usize)
        requires
            self.words@.len() > 0,
            self.word_index < self.words@.len(),
        ensures
            r == self.next_word_index(),
    {
        let cur = self.word_index;
        let n = self.words.len();
        let w: &str = self.words[cur].as_str();
        let mut k: usize = cur + 1;
        while k < n && eq_ignore_ascii_case(self.words[k].as_str(), w)
            invariant
                cur < n == self.words@.len(),
                cur == self.word_index,
                cur + 1 <= k <= n,
                w@ == self.word(),
                first_fresh(self.words@, self.word(), cur + 1, n as int) == first_fresh(
                    self.words@,
                    self.word(),
                    k as int,
                    n as int,
                ),
            decreases n - k,
        {
            k = k + 1;
        }
        if k < n {
            return k;
        }
        let mut j: usize = 0;
        while j < cur && eq_ignore_ascii_case(self.words[j].as_str(), w)
            invariant
                cur < n == self.words@.len(),
                cur == self.word_index,
                j <= cur,
                w@ == self.word(),
                first_fresh(self.words@, self.word(), 0, cur as int) == first_fresh(
                    self.words@,
                    self.word(),
                    j as int,
                    cur as int,
                ),
            decreases cur - j,
        {
            j = j + 1;
        }
        if j < cur {
            j
        } else {
            cur
        }
    }

    /// Begins a new turn at `now` with `d` drawing: next word, solve flags
    /// cleared, timer restarted.
    fn start_turn(&mut self, d: usize, now: u64)
        requires
            old(self).words@.len() > 0,
            old(self).word_index < old(self).words@.len(),
            names_unique(old(self).players@),
            if old(self).players@.len() == 0 {
                d == 0
            } else {
                d < old(self).players@.len()
            },
        ensures
            final(self).wf(),
            final(self).turn_started(*old(self), d as int, now),
    {
        let next_word = self.choose_next_word();
        let mut i: usize = 0;
        let ghost start = self.players@;
        while i < self.players.len()
            invariant
                i <= self.players@.len(),
                self.players@.len() == start.len(),
                forall|k: int|
                    0 <= k < i ==> {
                        &&& (#[trigger] self.players@[k]).username@ == start[k].username@
                        &&& self.players@[k].score == start[k].score
                        &&& self.players@[k].solved_rank is None
                    },
                forall|k: int| i <= k < start.len() ==> #[trigger] self.players@[k] == start[k],
                start == old(self).players@,
                self.words@ == old(self).words@,
                self.word_index == old(self).word_index,
                self.word_index < self.words@.len(),
            decreases start.len() - i,
        {
            let name = self.players[i].username.clone();
            let score = self.players[i].score;
            self.players.set(i, PlayerState { username: name, score, solved_rank: None });
            i = i + 1;
        }
        self.drawer = d;
        self.word_index = next_word;
        self.round_start_time = now;
        self.solves = 0;
        proof {
            lemma_next_word(*old(self));
            assert(names_unique(self.players@)) by {
                assert forall|a: int, b: int|
                    0 <= a < self.players@.len() && 0 <= b < self.players@.len() && a != b implies
                    self.players@[a].username@ != self.players@[b].username@ by {
                    assert(start[a] == old(self).players@[a]);
                    assert(start[b] == old(self).players@[b]);
                }
            }
        }
    }

    /// Passes the turn to the next player in rotation order.
    pub fn next_turn(&mut self, now: u64)
        requires
            old(self).wf(),
        ensures
            final(self).wf(),
            final(self).turn_started(
                *old(self),
                if old(self).players@.len() == 0 {
                    0
                } else {
                    (old(self).drawer + 1) % (old(self).players@.len() as int)
                },
                now,
            ),
    {
        let d = if self.players.len() == 0 || self.drawer + 1 == self.players.len() {
            0
        } else {
            self.drawer + 1
        };
        proof {
            if self.players@.len() > 0 {
                lemma_step_mod(self.drawer as int, self.players@.len() as int);
            }
        }
        self.start_turn(d, now);
    }

    /// Adds `name` at the end of the rotation, unless already playing.
    pub fn add_player(&mut self, name: String)
        requires
            old(self).wf(),
        ensures
            final(self).wf(),
            final(self).added(*old(self), name@),
    {
        match self.find_player(&name) {
            Some(_) => {},
            None => {
                let ghost n = name;
                self.players.push(PlayerState { username: name, score: 0, solved_rank: None });
                let ghost last = self.players@.len() - 1;
                assert(self.is_at(last, n@));
                assert(self.players@.drop_last() =~= old(self).players@);
                assert(names_unique(self.players@)) by {
                    assert forall|a: int, b: int|
                        0 <= a < self.players@.len() && 0 <= b < self.players@.len() && a != b implies
                        self.players@[a].username@ != self.players@[b].username@ by {
                        if a < last && b < last {
                            assert(self.players@[a] == old(self).players@[a]);
                            assert(self.players@[b] == old(self).players@[b]);
                        } else if a == last {
                            assert(!old(self).is_at(b, n@));
                        } else {
                            assert(!old(self).is_at(a, n@));
                        }
                    }
                }
            },
        }
    }

    /// Removes `name` from the rotation. If they were drawing, the next player
    /// in rotation order starts a new turn at `now` at once.
    pub fn remove_user(&mut self, name: &String, now: u64)
        requires
            old(self).wf(),
        ensures
            final(self).wf(),
            final(self).left(*old(self), name@, now),
    {
        match self.find_player(name) {
            None => {},
            Some(i) => {
                let ghost before = *self;
                self.players.remove(i);
                let ghost removed = self.players@;
                assert(names_unique(self.players@)) by {
                    assert forall|a: int, b: int|
                        0 <= a < removed.len() && 0 <= b < removed.len() && a != b implies
                        removed[a].username@ != removed[b].username@ by {
                        let oa = if a < i { a } else { a + 1 };
                        let ob = if b < i { b } else { b + 1 };
                        assert(removed[a] == before.players@[oa]);
                        assert(removed[b] == before.players@[ob]);
                    }
                }
                assert forall|k: int| 0 <= k < removed.len() implies removed[k].username@ != name@ by {
                    let ok = if k < i { k } else { k + 1 };
                    assert(removed[k] == before.players@[ok]);
                }
                if i == self.drawer {
                    let d = if i < self.players.len() {
                        i
                    } else {
                        0
                    };
                    self.start_turn(d, now);
                    assert forall|k: int| 0 <= k < self.players@.len() implies
                        self.players@[k].username@ != name@ by {
                        assert(self.players@[k].username@ == removed[k].username@);
                    }
                } else if i < self.drawer {
                    self.drawer = self.drawer - 1;
                }
                proof {
                    assert forall|j: int| before.is_at(j, name@) implies j == i by {}
                }
            },
        }
    }

    /// The game as the user `name` may see it.
    pub fn view_for(&self, name: &String) -> (r: RoundView)
        requires
            self.wf(),
        ensures
            r@ == self.seen_by(name@),
    {
        let players = crate::message::copy_players(&self.players);
        if self.players.len() == 0 {
            RoundView { players, drawing_user: None, word: None, round_start_time: self.round_start_time }
        } else {
            let drawing = self.players[self.drawer].username.clone();
            let word = if drawing == *name {
                Some(self.words[self.word_index].clone())
            } else {
                None
            };
            RoundView {
                players,
                drawing_user: Some(drawing),
                word,
                round_start_time: self.round_start_time,
            }
        }
    }

    /// Evaluates a chat text of `name` as a guess at `now`: a solve records the
    /// rank and points, and when nobody is left to guess the turn passes on.
    pub fn on_guess(&mut self, name: &String, text: &String, now: u64) -> (r: GuessOutcome)
        requires
            old(self).wf(),
        ensures
            final(self).wf(),
            final(self).guessed(*old(self), name@, text@, now, r),
    {
        let found = self.find_player(name);
        let i = match found {
            None => {
                return GuessOutcome::Missed;
            },
            Some(i) => i,
        };
        proof {
            assert forall|j: int| self.is_at(j, name@) implies j == i by {}
            assert(self.is_at(self.index_of(name@), name@));
        }
        if i == self.drawer || self.players[i].solved_rank.is_some() {
            return GuessOutcome::Missed;
        }
        if !eq_ignore_ascii_case(text.as_str(), self.words[self.word_index].as_str()) {
            return GuessOutcome::Missed;
        }
        let ghost before = *self;
        self.on_solve(i);
        let ghost mid = *self;
        if self.did_all_solve() {
            assert(before.others_solved(i as int)) by {
                assert forall|k: int|
                    0 <= k < before.players@.len() && k != before.drawer && k != i implies
                    (#[trigger] before.players@[k]).solved_rank is Some by {
                    assert(mid.players@[k] == before.players@[k]);
                }
            }
            self.next_turn(now);
            GuessOutcome::SolvedAndRotated
        } else {
            assert(!before.others_solved(i as int));
            GuessOutcome::Solved
        }
    }

    /// Seconds left in the current turn at time `now`.
    pub fn remaining_time(&self, now: u64) -> (r: u64)
        ensures
            r == self.remaining(now),
            r <= ROUND_DURATION,
            r == 0 <==> self.is_over(now),
    {
        if now <= self.round_start_time {
            ROUND_DURATION
        } else if now - self.round_start_time >= ROUND_DURATION {
            0
        } else {
            ROUND_DURATION - (now - self.round_start_time)
        }
    }
}

} // verus!
