use vstd::prelude::*;
use crate::message::MsgModel;
use crate::round::{GuessOutcome, SkribblState, ROUND_DURATION, SOLVE_POINTS, strings_unique};
use crate::server::{GameState, Note, ServerState, state_to_all, to_all, word_was_text};
use crate::text::{equal_ignoring_ascii_case, same_ignoring_ascii_case};

verus! {

/// A change of the registry: a user connects or disconnects.
pub enum RegistryEvent {
    Joined(Seq<char>),
    Left(Seq<char>),
}

/// `t` is what `e` makes of `s`: a join of a new name, a refused join of a
/// connected name, or a leave at some time.
pub open spec fn registry_step(s: ServerState, e: RegistryEvent, t: ServerState) -> bool {
    match e {
        RegistryEvent::Joined(n) => if s.has_session(n) {
            t == s
        } else {
            exists|out: Seq<Note>| s.join_step(n, t, out)
        },
        RegistryEvent::Left(n) => exists|now: u64, out: Seq<Note>| s.leave_step(n, now, t, out),
    }
}

/// Accepted joins minus leaves of connected users, over the first `k` events.
pub open spec fn net_joins(states: Seq<ServerState>, events: Seq<RegistryEvent>, k: nat) -> int
    decreases k,
{
    if k == 0 {
        0
    } else {
        let j = (k - 1) as int;
        net_joins(states, events, (k - 1) as nat) + match events[j] {
            RegistryEvent::Joined(n) => if states[j].has_session(n) {
                0int
            } else {
                1int
            },
            RegistryEvent::Left(n) => if states[j].has_session(n) {
                -1int
            } else {
                0int
            },
        }
    }
}

/// Whether `n` is registered after the first `k` events, starting from `s0`.
pub open spec fn registered(s0: ServerState, events: Seq<RegistryEvent>, k: nat, n: Seq<char>) -> bool
    decreases k,
{
    if k == 0 {
        s0.has_session(n)
    } else {
        match events[k - 1] {
            RegistryEvent::Joined(m) => registered(s0, events, (k - 1) as nat, n) || n == m,
            RegistryEvent::Left(m) => registered(s0, events, (k - 1) as nat, n) && n != m,
        }
    }
}

proof fn lemma_registry_step(s: ServerState, e: RegistryEvent, t: ServerState)
    requires
        strings_unique(s.sessions@),
        registry_step(s, e, t),
    ensures
        strings_unique(t.sessions@),
        forall|x: Seq<char>|
            #[trigger] t.has_session(x) == match e {
                RegistryEvent::Joined(n) => s.has_session(x) || x == n,
                RegistryEvent::Left(n) => s.has_session(x) && x != n,
            },
        t.sessions@.len() == s.sessions@.len() + match e {
            RegistryEvent::Joined(n) => if s.has_session(n) {
                0int
            } else {
                1int
            },
            RegistryEvent::Left(n) => if s.has_session(n) {
                -1int
            } else {
                0int
            },
        },
{
    match e {
        RegistryEvent::Joined(n) => {
            if !s.has_session(n) {
                let out = choose|out: Seq<Note>| s.join_step(n, t, out);
                let a = s.sessions@;
                let b = t.sessions@;
                assert forall|x: int, y: int| 0 <= x < b.len() && 0 <= y < b.len() && x != y implies b[x]@ != b[y]@ by {
                    if x < a.len() {
                        assert(b[x] == b.drop_last()[x]);
                    }
                    if y < a.len() {
                        assert(b[y] == b.drop_last()[y]);
                    }
                    if x == a.len() {
                        assert(!(0 <= y < a.len() && a[y]@ == n));
                    }
                    if y == a.len() {
                        assert(!(0 <= x < a.len() && a[x]@ == n));
                    }
                }
                assert forall|x: Seq<char>| #[trigger] t.has_session(x) == (s.has_session(x) || x == n) by {
                    if s.has_session(x) {
                        let i = choose|i: int| 0 <= i < a.len() && (#[trigger] a[i])@ == x;
                        assert(b[i] == b.drop_last()[i]);
                    }
                    if x == n {
                        assert(b[b.len() - 1]@ == n);
                    }
                    if t.has_session(x) {
                        let i = choose|i: int| 0 <= i < b.len() && (#[trigger] b[i])@ == x;
                        if i < a.len() {
                            assert(b[i] == b.drop_last()[i]);
                        }
                    }
                }
            }
        },
        RegistryEvent::Left(n) => {
            let (now, out) = choose|now: u64, out: Seq<Note>| s.leave_step(n, now, t, out);
            if s.has_session(n) {
                let i = choose|i: int|
                    0 <= i < s.sessions@.len() && (#[trigger] s.sessions@[i])@ == n
                        && t.sessions@ == s.sessions@.remove(i);
                let a = s.sessions@;
                let b = t.sessions@;
                assert forall|x: int, y: int| 0 <= x < b.len() && 0 <= y < b.len() && x != y implies b[x]@ != b[y]@ by {
                    let ox = if x < i { x } else { x + 1 };
                    let oy = if y < i { y } else { y + 1 };
                    assert(b[x] == a[ox]);
                    assert(b[y] == a[oy]);
                }
                assert forall|x: Seq<char>| #[trigger] t.has_session(x) == (s.has_session(x) && x != n) by {
                    if t.has_session(x) {
                        let j = choose|j: int| 0 <= j < b.len() && (#[trigger] b[j])@ == x;
                        let oj = if j < i { j } else { j + 1 };
                        assert(b[j] == a[oj]);
                    }
                    if s.has_session(x) && x != n {
                        let j = choose|j: int| 0 <= j < a.len() && (#[trigger] a[j])@ == x;
                        assert(j != i);
                        let nj = if j < i { j } else { j - 1 };
                        assert(b[nj] == a[j]);
                    }
                }
            }
        },
    }
}

/// Over any run of joins and leaves, the registry holds as many users as it
/// started with plus the accepted joins minus the leaves of connected users;
/// it holds exactly the names that joined and did not leave after, and no
/// name twice.
pub proof fn lemma_registry_count(states: Seq<ServerState>, events: Seq<RegistryEvent>)
    requires
        states.len() == events.len() + 1,
        strings_unique(states[0].sessions@),
        forall|k: int| 0 <= k < events.len() ==> registry_step(states[k], #[trigger] events[k], states[k + 1]),
    ensures
        states.last().sessions@.len() == states[0].sessions@.len() + net_joins(states, events, events.len()),
        strings_unique(states.last().sessions@),
        forall|n: Seq<char>|
            #[trigger] states.last().has_session(n) == registered(states[0], events, events.len(), n),
    decreases events.len(),
{
    if events.len() > 0 {
        let k = events.len() - 1;
        let ps = states.drop_last();
        let pe = events.drop_last();
        assert forall|j: int| 0 <= j < pe.len() implies registry_step(ps[j], #[trigger] pe[j], ps[j + 1]) by {
            assert(registry_step(states[j], events[j], states[j + 1]));
        }
        lemma_registry_count(ps, pe);
        assert(registry_step(states[k], events[k], states[k + 1]));
        lemma_registry_step(states[k], events[k], states[k + 1]);
        assert forall|kk: nat| kk <= pe.len() implies net_joins(ps, pe, kk) == net_joins(states, events, kk) by {
            lemma_net_joins_prefix(states, events, ps, pe, kk);
        }
        assert forall|kk: nat, n: Seq<char>| kk <= pe.len() implies #[trigger] registered(states[0], pe, kk, n)
            == registered(states[0], events, kk, n) by {
            lemma_registered_prefix(states[0], events, pe, kk, n);
        }
        assert(ps[0] == states[0]);
    }
}

proof fn lemma_registered_prefix(
    s0: ServerState,
    events: Seq<RegistryEvent>,
    pe: Seq<RegistryEvent>,
    k: nat,
    n: Seq<char>,
)
    requires
        events.len() > 0,
        pe == events.drop_last(),
        k <= pe.len(),
    ensures
        registered(s0, pe, k, n) == registered(s0, events, k, n),
    decreases k,
{
    if k > 0 {
        lemma_registered_prefix(s0, events, pe, (k - 1) as nat, n);
        assert(pe[k - 1] == events[k - 1]);
    }
}

proof fn lemma_net_joins_prefix(
    states: Seq<ServerState>,
    events: Seq<RegistryEvent>,
    ps: Seq<ServerState>,
    pe: Seq<RegistryEvent>,
    k: nat,
)
    requires
        events.len() > 0,
        ps == states.drop_last(),
        pe == events.drop_last(),
        states.len() == events.len() + 1,
        k <= pe.len(),
    ensures
        net_joins(ps, pe, k) == net_joins(states, events, k),
    decreases k,
{
    if k > 0 {
        lemma_net_joins_prefix(states, events, ps, pe, (k - 1) as nat);
        assert(ps[k - 1] == states[k - 1]);
        assert(pe[k - 1] == events[k - 1]);
    }
}

/// When the drawer leaves, the game state that everyone is sent next already
/// names a new drawer, who is someone else; the new turn starts at once, on
/// a cleared canvas.
pub proof fn lemma_drawer_leaving(s: ServerState, name: Seq<char>, now: u64, t: ServerState, out: Seq<Note>)
    requires
        s.wf(),
        s.leave_step(name, now, t, out),
        s.game_state matches GameState::Skribbl(st) && st.has_drawer() && st.drawer_name() == name,
    ensures
        t.game_state matches GameState::Skribbl(st2) && {
            &&& !st2.is_player(name)
            &&& st2.has_drawer() ==> st2.drawer_name() != name
            &&& st2.round_start_time == now
            &&& out.len() == 2 * t.sessions@.len()
            &&& forall|k: int| 0 <= k < t.sessions@.len() ==> (#[trigger] out[k]).1 == MsgModel::StateChanged(
                st2.seen_by(out[k].0),
            )
        },
        t.lines@.len() == 0,
{
    let st = s.game_state->Skribbl_0;
    let st2 = t.game_state->Skribbl_0;
    assert(st.is_at(st.drawer as int, name));
    if st2.has_drawer() {
        assert(st2.is_at(st2.drawer as int, st2.drawer_name()));
    }
    assert forall|k: int| 0 <= k < t.sessions@.len() implies (#[trigger] out[k]).1 == MsgModel::StateChanged(
        st2.seen_by(out[k].0),
    ) by {
        assert(out[k] == state_to_all(t.sessions@, st2)[k]);
    }
}

/// A correct guess by a player who may guess raises their score by the
/// points of a solve, and the text is not shown as chat.
pub proof fn lemma_correct_guess_scores(
    s: ServerState,
    name: Seq<char>,
    m: MsgModel,
    now: u64,
    t: ServerState,
    out: Seq<Note>,
)
    requires
        s.wf(),
        s.message_step(name, m, now, t, out),
        s.game_state matches GameState::Skribbl(st) && st.is_hit(name, crate::message::message_text(m))
            && st.players@[st.index_of(name)].score + SOLVE_POINTS <= u64::MAX,
    ensures
        ({
            let st = s.game_state->Skribbl_0;
            let i = st.index_of(name);
            &&& t.game_state matches GameState::Skribbl(st2)
            &&& st2.players@[i].username@ == name
            &&& st2.players@[i].score == st.players@[i].score + SOLVE_POINTS
        }),
        forall|k: int| 0 <= k < out.len() ==> !((#[trigger] out[k]).1 is Chat),
{
    let st = s.game_state->Skribbl_0;
    let i = st.index_of(name);
    assert(st.is_at(i, name));
    let sess = s.sessions@;
    assert forall|k: int| 0 <= k < out.len() implies !((#[trigger] out[k]).1 is Chat) by {
        let n = sess.len() as int;
        if k < n {
            assert(out[k] == state_to_all(sess, t.game_state->Skribbl_0)[k]);
        } else if k < 2 * n {
            assert(out[k] == to_all(sess, MsgModel::System(crate::server::guessed_text(name)))[k - n]);
        } else if k < 3 * n {
            assert(out[k] == to_all(sess, MsgModel::Clear)[k - 2 * n]);
        } else {
            assert(out[k] == to_all(sess, MsgModel::System(word_was_text(st.word())))[k - 3 * n]);
        }
    }
}

/// A guess by the drawer, by someone who has solved already, or by a
/// non-player, changes nothing and is shown to everyone as chat.
pub proof fn lemma_ineligible_guess_is_chat(
    s: ServerState,
    name: Seq<char>,
    m: MsgModel,
    now: u64,
    t: ServerState,
    out: Seq<Note>,
)
    requires
        s.message_step(name, m, now, t, out),
        s.game_state matches GameState::Skribbl(st) && !st.may_guess(name),
    ensures
        t.game_state == s.game_state,
        t.lines@ == s.lines@,
        out == to_all(s.sessions@, m),
{
}

proof fn lemma_same_case_char(t: char, a: char, b: char)
    requires
        same_ignoring_ascii_case(t, a),
        same_ignoring_ascii_case(t, b),
    ensures
        same_ignoring_ascii_case(a, b),
{
}

proof fn lemma_same_case_text(t: Seq<char>, a: Seq<char>, b: Seq<char>)
    requires
        equal_ignoring_ascii_case(t, a),
        equal_ignoring_ascii_case(t, b),
    ensures
        equal_ignoring_ascii_case(a, b),
{
    assert forall|i: int| 0 <= i < a.len() implies same_ignoring_ascii_case(#[trigger] a[i], b[i]) by {
        lemma_same_case_char(t[i], a[i], b[i]);
    }
}

/// The solve that completes a turn rotates exactly once: the canvas is
/// cleared, the word revealed last, and the new word differs from the old one
/// ignoring ASCII case; so any later guess of the old word, by anyone, is
/// plain chat that changes nothing. This needs a word list that holds some
/// word differing from the old one.
pub proof fn lemma_last_solve_rotates_once(
    s: ServerState,
    name: Seq<char>,
    m: MsgModel,
    now: u64,
    s1: ServerState,
    out1: Seq<Note>,
    name2: Seq<char>,
    m2: MsgModel,
    now2: u64,
    s2: ServerState,
    out2: Seq<Note>,
)
    requires
        s.wf(),
        s.message_step(name, m, now, s1, out1),
        s1.message_step(name2, m2, now2, s2, out2),
        equal_ignoring_ascii_case(
            crate::message::message_text(m2),
            (s.game_state->Skribbl_0).word(),
        ),
        s.game_state matches GameState::Skribbl(st) && st.is_hit(name, crate::message::message_text(m))
            && st.others_solved(st.index_of(name)),
        (s.game_state->Skribbl_0).has_fresh_word(),
    ensures
        s1.lines@.len() == 0,
        !equal_ignoring_ascii_case(
            (s1.game_state->Skribbl_0).word(),
            (s.game_state->Skribbl_0).word(),
        ),
        (s1.game_state->Skribbl_0).drawer == (s.game_state->Skribbl_0).next_drawer(),
        (s1.game_state->Skribbl_0).round_start_time == now,
        forall|k: int|
            0 <= k < (s1.game_state->Skribbl_0).players@.len() ==> (#[trigger] (s1.game_state->Skribbl_0).players@[k]).solved_rank is None,
        s.sessions@.len() > 0 ==> out1.last() == (
            s.sessions@.last()@,
            MsgModel::System(word_was_text((s.game_state->Skribbl_0).word())),
        ),
        s2.game_state == s1.game_state,
        out2 == to_all(s1.sessions@, m2),
{
    let st = s.game_state->Skribbl_0;
    let st1 = s1.game_state->Skribbl_0;
    let text2 = crate::message::message_text(m2);
    if st1.is_hit(name2, text2) {
        lemma_same_case_text(text2, st.word(), st1.word());
    }
    let sess = s.sessions@;
    if sess.len() > 0 {
        let reveal = to_all(sess, MsgModel::System(word_was_text(st.word())));
        assert(out1.last() == reveal.last());
    }
}

/// The remaining time of a turn never goes up as time goes on, and never
/// exceeds the turn's length.
pub proof fn lemma_remaining_non_increasing(st: SkribblState, t1: u64, t2: u64)
    requires
        t1 <= t2,
    ensures
        st.remaining(t2) <= st.remaining(t1),
        st.remaining(t1) <= ROUND_DURATION,
{
}

/// A tick that ends a turn starts the next one, and the time it reports is
/// the full length of a turn.
pub proof fn lemma_rotation_resets_timer(s: ServerState, now: u64, t: ServerState, out: Seq<Note>)
    requires
        s.tick_step(now, t, out),
        s.game_state matches GameState::Skribbl(st) && st.is_over(now),
    ensures
        t.game_state matches GameState::Skribbl(st2) && st2.remaining(now) == ROUND_DURATION,
        s.sessions@.len() > 0 ==> out.last() == (s.sessions@.last()@, MsgModel::Time(ROUND_DURATION as u32)),
{
    let sess = s.sessions@;
    if sess.len() > 0 {
        let times = to_all(sess, MsgModel::Time(ROUND_DURATION as u32));
        assert(out.last() == times.last());
    }
}

/// Within one turn, successive ticks report non-increasing remaining times.
pub proof fn lemma_ticks_count_down(
    s: ServerState,
    t1: u64,
    s1: ServerState,
    out1: Seq<Note>,
    t2: u64,
    s2: ServerState,
    out2: Seq<Note>,
)
    requires
        s.tick_step(t1, s1, out1),
        s1.tick_step(t2, s2, out2),
        t1 <= t2,
        s.game_state matches GameState::Skribbl(st) && !st.is_over(t1) && !st.is_over(t2),
    ensures
        ({
            let st = s.game_state->Skribbl_0;
            &&& out1 == to_all(s.sessions@, MsgModel::Time(st.remaining(t1) as u32))
            &&& out2 == to_all(s.sessions@, MsgModel::Time(st.remaining(t2) as u32))
            &&& st.remaining(t2) <= st.remaining(t1)
        }),
{
}

/// A tick at or after the end of a turn rotates it, and the ticks that follow
/// within the new turn's length do not rotate it again.
pub proof fn lemma_tick_rotates_once(
    s: ServerState,
    t1: u64,
    s1: ServerState,
    out1: Seq<Note>,
    t2: u64,
    s2: ServerState,
    out2: Seq<Note>,
)
    requires
        s.tick_step(t1, s1, out1),
        s1.tick_step(t2, s2, out2),
        s.game_state matches GameState::Skribbl(st) && st.is_over(t1),
        t1 <= t2 < t1 + ROUND_DURATION,
    ensures
        s1.game_state matches GameState::Skribbl(st1) && st1.turn_started(
            s.game_state->Skribbl_0,
            (s.game_state->Skribbl_0).next_drawer(),
            t1,
        ),
        s2.game_state == s1.game_state,
        s2.lines@ == s1.lines@,
{
}

/// A new solver ranks after every player who solved earlier in the turn,
/// as long as the turn's solve count has not reached its bound.
pub proof fn lemma_solver_ranks_last(
    st: SkribblState,
    name: Seq<char>,
    text: Seq<char>,
    now: u64,
    st2: SkribblState,
)
    requires
        st.wf(),
        st2.guessed(st, name, text, now, GuessOutcome::Solved),
        st.solves < usize::MAX,
    ensures
        ({
            let i = st.index_of(name);
            forall|k: int|
                0 <= k < st2.players@.len() && k != i && (#[trigger] st2.players@[k]).solved_rank is Some
                    ==> st2.players@[k].solved_rank->0 < st2.players@[i].solved_rank->0
        }),
{
    let i = st.index_of(name);
    assert forall|k: int|
        0 <= k < st2.players@.len() && k != i && (#[trigger] st2.players@[k]).solved_rank is Some
            implies st2.players@[k].solved_rank->0 < st2.players@[i].solved_rank->0 by {
        assert(crate::round::rank_within(st.players@[k].solved_rank, st.solves));
    }
}

} // verus!
