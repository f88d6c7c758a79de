use vstd::prelude::*;
use crate::message::{
    Delivery, InitialState, Line, Message, MsgModel, RoundView, ToClientMsg, ToServerMsg, CommandMsg,
    deliveries_model, emit, emit_all, message_text, copy_lines,
};
use crate::round::{GuessOutcome, SkribblState, ROUND_DURATION, strings_unique};

verus! {

/// One delivery as the contracts see it: recipient and message.
pub type Note = (Seq<char>, MsgModel);

/// The mode of a room: a plain shared whiteboard, or a scored game.
#[derive(Debug)]
pub enum GameState {
    FreeDraw,
    Skribbl(SkribblState),
}

impl GameState {
    pub open spec fn wf(&self) -> bool {
        match self {
            GameState::Skribbl(st) => st.wf(),
            GameState::FreeDraw => true,
        }
    }

    /// The scored game, if one is running.
    pub fn skribbl_state(&self) -> (r: Option<&SkribblState>)
        ensures
            match self {
                GameState::Skribbl(st) => r == Some(st),
                GameState::FreeDraw => r is None,
            },
    {
        match self {
            GameState::Skribbl(state) => Some(state),
            _ => None,
        }
    }
}

/// Why the room refused a request.
#[derive(Debug)]
pub enum ServerError {
    /// No session is registered under this name.
    UserNotFound(String),
    /// A session is already registered under this name.
    UserAlreadyJoined(String),
}

/// What happens to a room, one event at a time.
#[derive(Debug)]
pub enum ServerEvent {
    ToServerMsg(String, ToServerMsg),
    UserJoined(String),
    UserLeft(String),
    Tick,
}

/// Every registered user receives `m`, in registry order.
pub open spec fn to_all(sessions: Seq<String>, m: MsgModel) -> Seq<Note> {
    sessions.map_values(|s: String| (s@, m))
}

/// Every registered user receives the game state as they may see it.
pub open spec fn state_to_all(sessions: Seq<String>, st: SkribblState) -> Seq<Note> {
    sessions.map_values(|s: String| (s@, MsgModel::StateChanged(st.seen_by(s@))))
}

pub open spec fn joined_text(name: Seq<char>) -> Seq<char> {
    name + " joined"@
}

pub open spec fn guessed_text(name: Seq<char>) -> Seq<char> {
    name + " guessed it!"@
}

pub open spec fn word_was_text(word: Seq<char>) -> Seq<char> {
    "The word was: \""@ + word + "\""@
}

/// Authoritative state of one room, changed by one event at a time.
#[derive(Debug)]
pub struct ServerState {
    /// Names of the connected users, in order of joining.
    pub sessions: Vec<String>,
    /// Canvas history.
    pub lines: Vec<Line>,
    pub dimensions: (usize, usize),
    pub game_state: GameState,
    /// Words for scored games; without them the room stays a whiteboard.
    pub words: Option<Vec<String>>,
}

impl ServerState {
    pub open spec fn wf(&self) -> bool {
        &&& strings_unique(self.sessions@)
        &&& self.game_state.wf()
    }

    pub open spec fn has_session(&self, name: Seq<char>) -> bool {
        exists|i: int| 0 <= i < self.sessions@.len() && (#[trigger] self.sessions@[i])@ == name
    }

    /// A first chat text turns the whiteboard into a scored game.
    pub open spec fn can_start_game(&self) -> bool {
        &&& self.game_state is FreeDraw
        &&& (self.words matches Some(w) && w@.len() > 0)
    }

    /// `new.sessions` is `self.sessions` without `name`.
    pub open spec fn session_removed(&self, name: Seq<char>, new: ServerState) -> bool {
        if self.has_session(name) {
            exists|i: int|
                0 <= i < self.sessions@.len() && (#[trigger] self.sessions@[i])@ == name
                    && new.sessions@ == self.sessions@.remove(i)
        } else {
            new.sessions@ == self.sessions@
        }
    }

    /// `new` and `out` are what `name` leaving (or being kicked) at `now` makes of `self`.
    pub open spec fn leave_step(&self, name: Seq<char>, now: u64, new: ServerState, out: Seq<Note>) -> bool {
        &&& self.session_removed(name, new)
        &&& new.dimensions == self.dimensions
        &&& new.words == self.words
        &&& match self.game_state {
            GameState::FreeDraw => {
                &&& new.game_state is FreeDraw
                &&& new.lines@ == self.lines@
                &&& out == Seq::<Note>::empty()
            },
            GameState::Skribbl(st) => {
                &&& new.game_state matches GameState::Skribbl(st2)
                &&& st2.left(st, name, now)
                &&& if st.has_drawer() && st.drawer_name() == name {
                    // the drawer left: a new turn, on a clean canvas
                    &&& new.lines@ == Seq::<Line>::empty()
                    &&& out == state_to_all(new.sessions@, st2) + to_all(new.sessions@, MsgModel::Clear)
                } else {
                    &&& new.lines@ == self.lines@
                    &&& out == state_to_all(new.sessions@, st2)
                }
            },
        }
    }

    /// `new` and `out` are what a chat message `m` of `name` at `now` makes of `self`.
    pub open spec fn message_step(&self, name: Seq<char>, m: MsgModel, now: u64, new: ServerState, out: Seq<Note>) -> bool {
        &&& new.sessions@ == self.sessions@
        &&& new.dimensions == self.dimensions
        &&& new.words == self.words
        &&& match self.game_state {
            GameState::FreeDraw => {
                &&& new.lines@ == self.lines@
                &&& if self.can_start_game() {
                    &&& new.game_state matches GameState::Skribbl(st)
                    &&& st.started_with(self.sessions@, self.words->0@, now)
                    &&& out == state_to_all(self.sessions@, st) + to_all(self.sessions@, m)
                } else {
                    new.game_state is FreeDraw && out == to_all(self.sessions@, m)
                }
            },
            GameState::Skribbl(st) => {
                &&& new.game_state matches GameState::Skribbl(st2)
                &&& if !st.is_hit(name, message_text(m)) {
                    &&& st2 == st
                    &&& new.lines@ == self.lines@
                    &&& out == to_all(self.sessions@, m)
                } else if st.others_solved(st.index_of(name)) {
                    &&& st2.guessed(st, name, message_text(m), now, GuessOutcome::SolvedAndRotated)
                    &&& new.lines@ == Seq::<Line>::empty()
                    &&& out == state_to_all(self.sessions@, st2)
                        + to_all(self.sessions@, MsgModel::System(guessed_text(name)))
                        + to_all(self.sessions@, MsgModel::Clear)
                        + to_all(self.sessions@, MsgModel::System(word_was_text(st.word())))
                } else {
                    &&& st2.guessed(st, name, message_text(m), now, GuessOutcome::Solved)
                    &&& new.lines@ == self.lines@
                    &&& out == state_to_all(self.sessions@, st2)
                        + to_all(self.sessions@, MsgModel::System(guessed_text(name)))
                }
            },
        }
    }

    /// `new` and `out` are what a timer tick at `now` makes of `self`.
    pub open spec fn tick_step(&self, now: u64, new: ServerState, out: Seq<Note>) -> bool {
        &&& new.sessions@ == self.sessions@
        &&& new.dimensions == self.dimensions
        &&& new.words == self.words
        &&& match self.game_state {
            GameState::FreeDraw => new == *self && out == Seq::<Note>::empty(),
            GameState::Skribbl(st) => {
                &&& new.game_state matches GameState::Skribbl(st2)
                &&& if st.is_over(now) {
                    &&& st2.turn_started(st, st.next_drawer(), now)
                    &&& new.lines@ == Seq::<Line>::empty()
                    &&& out == state_to_all(self.sessions@, st2)
                        + to_all(self.sessions@, MsgModel::Clear)
                        + to_all(self.sessions@, MsgModel::System(word_was_text(st.word())))
                        + to_all(self.sessions@, MsgModel::Time(ROUND_DURATION as u32))
                } else {
                    &&& st2 == st
                    &&& new.lines@ == self.lines@
                    &&& out == to_all(self.sessions@, MsgModel::Time(st.remaining(now) as u32))
                }
            },
        }
    }

    /// `new` and `out` are what a message `msg` of the client `name` at `now` makes of `self`.
    pub open spec fn client_step(&self, name: Seq<char>, msg: ToServerMsg, now: u64, new: ServerState, out: Seq<Note>) -> bool {
        match msg {
            ToServerMsg::CommandMsg(CommandMsg::KickPlayer(kicked)) => self.leave_step(kicked@, now, new, out),
            ToServerMsg::NewMessage(m) => self.message_step(name, m@, now, new, out),
            ToServerMsg::NewLine(l) => {
                &&& new.lines@ == self.lines@.push(l)
                &&& new.sessions@ == self.sessions@
                &&& new.game_state == self.game_state
                &&& new.dimensions == self.dimensions
                &&& new.words == self.words
                &&& out == to_all(self.sessions@, MsgModel::NewLine(l))
            },
            ToServerMsg::ClearCanvas => {
                &&& new.lines@ == Seq::<Line>::empty()
                &&& new.sessions@ == self.sessions@
                &&& new.game_state == self.game_state
                &&& new.dimensions == self.dimensions
                &&& new.words == self.words
                &&& out == to_all(self.sessions@, MsgModel::Clear)
            },
        }
    }

    /// `new` and `out` are what `name` joining makes of `self`, when nobody
    /// of that name is connected.
    pub open spec fn join_step(&self, name: Seq<char>, new: ServerState, out: Seq<Note>) -> bool {
        &&& new.sessions@.len() == self.sessions@.len() + 1
        &&& new.sessions@.drop_last() == self.sessions@
        &&& new.sessions@.last()@ == name
        &&& new.lines@ == self.lines@
        &&& new.dimensions == self.dimensions
        &&& new.words == self.words
        &&& match self.game_state {
            GameState::FreeDraw => {
                &&& new.game_state is FreeDraw
                &&& out == seq![(name, MsgModel::Initial { lines: self.lines@, round: None, dimensions: self.dimensions })]
            },
            GameState::Skribbl(st) => {
                &&& new.game_state matches GameState::Skribbl(st2)
                &&& st2.added(st, name)
                &&& out == state_to_all(self.sessions@, st2)
                    + to_all(self.sessions@, MsgModel::System(joined_text(name)))
                    + seq![(name, MsgModel::Initial {
                        lines: self.lines@,
                        round: Some(st2.seen_by(name)),
                        dimensions: self.dimensions,
                    })]
            },
        }
    }

    /// An empty room with the given mode, canvas size and word list.
    pub fn new(game_state: GameState, dimensions: (usize, usize), words: Option<Vec<String>>) -> (r: ServerState)
        requires
            game_state.wf(),
        ensures
            r.wf(),
            r.sessions@.len() == 0,
            r.lines@.len() == 0,
            r.dimensions == dimensions,
            r.game_state == game_state,
            r.words == words,
    {
        ServerState { sessions: Vec::new(), lines: Vec::new(), dimensions, game_state, words }
    }

    /// Index of the session registered as `name`, if there is one.
    fn find_session(&self, name: &String) -> (r: Option<usize>)
        ensures
            match r {
                Some(i) => i < self.sessions@.len() && self.sessions@[i as int]@ == name@,
                None => !self.has_session(name@),
            },
    {
        let mut i: usize = 0;
        while i < self.sessions.len()
            invariant
                i <= self.sessions@.len(),
                forall|k: int| 0 <= k < i ==> (#[trigger] self.sessions@[k])@ != name@,
            decreases self.sessions@.len() - i,
        {
            if self.sessions[i] == *name {
                return Some(i);
            }
            i = i + 1;
        }
        None
    }

    /// Addresses `msg` to every registered user.
    pub fn broadcast(&self, msg: &ToClientMsg) -> (out: Vec<Delivery>)
        ensures
            deliveries_model(out@) == to_all(self.sessions@, msg@),
    {
        let mut out: Vec<Delivery> = Vec::new();
        let mut i: usize = 0;
        while i < self.sessions.len()
            invariant
                i <= self.sessions@.len(),
                deliveries_model(out@) == to_all(self.sessions@.subrange(0, i as int), msg@),
            decreases self.sessions@.len() - i,
        {
            let d = Delivery { to: self.sessions[i].clone(), msg: msg.copy() };
            emit(&mut out, d);
            assert(to_all(self.sessions@.subrange(0, i + 1), msg@) =~= to_all(
                self.sessions@.subrange(0, i as int),
                msg@,
            ).push((self.sessions@[i as int]@, msg@)));
            i = i + 1;
        }
        assert(self.sessions@.subrange(0, i as int) =~= self.sessions@);
        out
    }

    /// Addresses a server-generated chat message to every registered user.
    pub fn broadcast_system_msg(&self, text: String) -> (out: Vec<Delivery>)
        ensures
            deliveries_model(out@) == to_all(self.sessions@, MsgModel::System(text@)),
    {
        self.broadcast(&ToClientMsg::NewMessage(Message::SystemMsg(text)))
    }

    /// Addresses the game state to every registered user, each seeing it as
    /// they may: only the drawer gets the word.
    pub fn broadcast_state(&self, st: &SkribblState) -> (out: Vec<Delivery>)
        requires
            st.wf(),
        ensures
            deliveries_model(out@) == state_to_all(self.sessions@, *st),
    {
        let mut out: Vec<Delivery> = Vec::new();
        let mut i: usize = 0;
        while i < self.sessions.len()
            invariant
                i <= self.sessions@.len(),
                st.wf(),
                deliveries_model(out@) == state_to_all(self.sessions@.subrange(0, i as int), *st),
            decreases self.sessions@.len() - i,
        {
            let name = &self.sessions[i];
            let d = Delivery { to: name.clone(), msg: ToClientMsg::SkribblStateChanged(st.view_for(name)) };
            emit(&mut out, d);
            assert(state_to_all(self.sessions@.subrange(0, i + 1), *st) =~= state_to_all(
                self.sessions@.subrange(0, i as int),
                *st,
            ).push((self.sessions@[i as int]@, MsgModel::StateChanged(st.seen_by(self.sessions@[i as int]@)))));
            i = i + 1;
        }
        assert(self.sessions@.subrange(0, i as int) =~= self.sessions@);
        out
    }

    /// Addresses `msg` to the user `user` alone.
    pub fn send_to(&self, user: &String, msg: ToClientMsg) -> (r: Result<Delivery, ServerError>)
        ensures
            match r {
                Ok(d) => self.has_session(user@) && d@ == (user@, msg@),
                Err(e) => !self.has_session(user@) && (e matches ServerError::UserNotFound(u) && u@ == user@),
            },
    {
        match self.find_session(user) {
            Some(_) => Ok(Delivery { to: user.clone(), msg }),
            None => Err(ServerError::UserNotFound(user.clone())),
        }
    }

    /// Registers the user `username`. The new user gets a snapshot of the
    /// room; in a scored game they join the rotation and everyone is told.
    /// A name that is already connected is refused.
    pub fn on_user_joined(&mut self, username: String) -> (r: Result<Vec<Delivery>, ServerError>)
        requires
            old(self).wf(),
        ensures
            final(self).wf(),
            match r {
                Ok(out) => !old(self).has_session(username@) && old(self).join_step(
                    username@,
                    *final(self),
                    deliveries_model(out@),
                ),
                Err(e) => old(self).has_session(username@) && *final(self) == *old(self) && (
                e matches ServerError::UserAlreadyJoined(u) && u@ == username@),
            },
    {
        if self.find_session(&username).is_some() {
            return Err(ServerError::UserAlreadyJoined(username));
        }
        match &mut self.game_state {
            GameState::Skribbl(st) => {
                st.add_player(username.clone());
            },
            GameState::FreeDraw => {},
        }
        let mut out: Vec<Delivery>;
        let round: Option<RoundView>;
        match &self.game_state {
            GameState::Skribbl(st) => {
                out = self.broadcast_state(st);
                let batch = self.broadcast_system_msg(joined_msg(&username));
                emit_all(&mut out, batch);
                round = Some(st.view_for(&username));
            },
            GameState::FreeDraw => {
                out = Vec::new();
                round = None;
                assert(deliveries_model(out@) =~= Seq::<Note>::empty());
            },
        }
        let initial = InitialState {
            lines: copy_lines(&self.lines),
            skribbl_state: round,
            dimensions: self.dimensions,
        };
        emit(&mut out, Delivery { to: username.clone(), msg: ToClientMsg::InitialState(initial) });
        let ghost before = self.sessions@;
        self.sessions.push(username);
        proof {
            assert(self.sessions@.drop_last() =~= before);
            assert(strings_unique(self.sessions@)) by {
                assert forall|a: int, b: int|
                    0 <= a < self.sessions@.len() && 0 <= b < self.sessions@.len() && a != b implies
                    self.sessions@[a]@ != self.sessions@[b]@ by {
                    if a < before.len() && b < before.len() {
                        assert(self.sessions@[a] == before[a]);
                        assert(self.sessions@[b] == before[b]);
                    } else if a < before.len() {
                        assert(self.sessions@[a] == before[a]);
                    } else {
                        assert(self.sessions@[b] == before[b]);
                    }
                }
            }
        }
        Ok(out)
    }

    /// Unregisters `username` and takes them out of the rotation; if they were
    /// drawing, the next player starts a turn at `now` on a cleared canvas
    /// before anyone is told.
    pub fn remove_player(&mut self, username: &String, now: u64) -> (out: Vec<Delivery>)
        requires
            old(self).wf(),
        ensures
            final(self).wf(),
            old(self).leave_step(username@, now, *final(self), deliveries_model(out@)),
    {
        match self.find_session(username) {
            Some(i) => {
                let ghost before = self.sessions@;
                self.sessions.remove(i);
                proof {
                    let after = self.sessions@;
                    assert(strings_unique(after)) by {
                        assert forall|a: int, b: int|
                            0 <= a < after.len() && 0 <= b < after.len() && a != b implies
                            after[a]@ != after[b]@ by {
                            let oa = if a < i { a } else { a + 1 };
                            let ob = if b < i { b } else { b + 1 };
                            assert(after[a] == before[oa]);
                            assert(after[b] == before[ob]);
                        }
                    }
                    assert(0 <= i < before.len() && before[i as int]@ == username@ && after == before.remove(i as int));
                }
            },
            None => {},
        }
        let mut drawer_left = false;
        match &mut self.game_state {
            GameState::Skribbl(st) => {
                drawer_left = st.players.len() > 0 && st.players[st.drawer].username == *username;
                st.remove_user(username, now);
            },
            GameState::FreeDraw => {},
        }
        let mut out = match &self.game_state {
            GameState::Skribbl(st) => self.broadcast_state(st),
            GameState::FreeDraw => {
                let out: Vec<Delivery> = Vec::new();
                assert(deliveries_model(out@) =~= Seq::<Note>::empty());
                out
            },
        };
        if drawer_left {
            self.lines.clear();
            let batch = self.broadcast(&ToClientMsg::ClearCanvas);
            emit_all(&mut out, batch);
        }
        out
    }

    /// Handles an administrative command sent by `_username`.
    pub fn on_command_msg(&mut self, _username: &String, msg: &CommandMsg, now: u64) -> (out: Vec<Delivery>)
        requires
            old(self).wf(),
        ensures
            final(self).wf(),
            match msg {
                CommandMsg::KickPlayer(kicked) => old(self).leave_step(
                    kicked@,
                    now,
                    *final(self),
                    deliveries_model(out@),
                ),
            },
    {
        match msg {
            CommandMsg::KickPlayer(kicked) => self.remove_player(kicked, now),
        }
    }

    /// Handles a chat message of `username` at `now`. In a scored game it is
    /// a guess: a solve is announced instead of the text, and the last solve
    /// of a turn clears the canvas and reveals the word. On a whiteboard with
    /// words configured, the first message starts a scored game with everyone
    /// connected.
    pub fn on_new_message(&mut self, username: String, msg: Message, now: u64) -> (out: Vec<Delivery>)
        requires
            old(self).wf(),
        ensures
            final(self).wf(),
            old(self).message_step(username@, msg@, now, *final(self), deliveries_model(out@)),
    {
        let start = match &self.words {
            Some(w) => self.game_state.skribbl_state().is_none() && w.len() > 0,
            None => false,
        };
        if start {
            let words = match &self.words {
                Some(w) => copy_words(w),
                None => Vec::new(),
            };
            let st = SkribblState::with_users(&self.sessions, words, now);
            let mut out = self.broadcast_state(&st);
            self.game_state = GameState::Skribbl(st);
            let batch = self.broadcast(&ToClientMsg::NewMessage(msg));
            emit_all(&mut out, batch);
            return out;
        }
        let mut outcome = GuessOutcome::Missed;
        let mut old_word = String::new();
        match &mut self.game_state {
            GameState::Skribbl(st) => {
                old_word = st.words[st.word_index].clone();
                outcome = st.on_guess(&username, msg.text(), now);
            },
            GameState::FreeDraw => {},
        }
        if outcome == GuessOutcome::Missed {
            return self.broadcast(&ToClientMsg::NewMessage(msg));
        }
        let mut out = match &self.game_state {
            GameState::Skribbl(st) => self.broadcast_state(st),
            GameState::FreeDraw => Vec::new(),
        };
        let batch = self.broadcast_system_msg(guessed_msg(&username));
        emit_all(&mut out, batch);
        if outcome == GuessOutcome::SolvedAndRotated {
            self.lines.clear();
            let batch = self.broadcast(&ToClientMsg::ClearCanvas);
            emit_all(&mut out, batch);
            let batch = self.broadcast_system_msg(word_was_msg(&old_word));
            emit_all(&mut out, batch);
        }
        out
    }

    /// Handles a timer tick at `now`: the remaining time of the turn, or,
    /// once it has run out, a new turn with a cleared canvas and the word revealed.
    pub fn on_tick(&mut self, now: u64) -> (out: Vec<Delivery>)
        requires
            old(self).wf(),
        ensures
            final(self).wf(),
            old(self).tick_step(now, *final(self), deliveries_model(out@)),
    {
        let mut remaining: u64 = 0;
        let mut old_word = String::new();
        match &mut self.game_state {
            GameState::Skribbl(st) => {
                remaining = st.remaining_time(now);
                if remaining == 0 {
                    old_word = st.words[st.word_index].clone();
                    st.next_turn(now);
                }
            },
            GameState::FreeDraw => {
                let out: Vec<Delivery> = Vec::new();
                assert(deliveries_model(out@) =~= Seq::<Note>::empty());
                return out;
            },
        }
        if remaining == 0 {
            let mut out = match &self.game_state {
                GameState::Skribbl(st) => self.broadcast_state(st),
                GameState::FreeDraw => Vec::new(),
            };
            self.lines.clear();
            let batch = self.broadcast(&ToClientMsg::ClearCanvas);
            emit_all(&mut out, batch);
            let batch = self.broadcast_system_msg(word_was_msg(&old_word));
            emit_all(&mut out, batch);
            let batch = self.broadcast(&ToClientMsg::TimeChanged(ROUND_DURATION as u32));
            emit_all(&mut out, batch);
            out
        } else {
            self.broadcast(&ToClientMsg::TimeChanged(remaining as u32))
        }
    }

    /// Handles one message of a client.
    pub fn on_to_srv_msg(&mut self, username: String, msg: ToServerMsg, now: u64) -> (out: Vec<Delivery>)
        requires
            old(self).wf(),
        ensures
            final(self).wf(),
            old(self).client_step(username@, msg, now, *final(self), deliveries_model(out@)),
    {
        match msg {
            ToServerMsg::CommandMsg(cmd) => self.on_command_msg(&username, &cmd, now),
            ToServerMsg::NewMessage(message) => self.on_new_message(username, message, now),
            ToServerMsg::NewLine(line) => {
                self.lines.push(line);
                self.broadcast(&ToClientMsg::NewLine(line))
            },
            ToServerMsg::ClearCanvas => {
                self.lines.clear();
                self.broadcast(&ToClientMsg::ClearCanvas)
            },
        }
    }

    /// Applies one event of the room at time `now`.
    pub fn handle_event(&mut self, evt: ServerEvent, now: u64) -> (r: Result<Vec<Delivery>, ServerError>)
        requires
            old(self).wf(),
        ensures
            final(self).wf(),
            match evt {
                ServerEvent::UserJoined(name) => match r {
                    Ok(out) => !old(self).has_session(name@) && old(self).join_step(
                        name@,
                        *final(self),
                        deliveries_model(out@),
                    ),
                    Err(e) => old(self).has_session(name@) && *final(self) == *old(self) && (
                    e matches ServerError::UserAlreadyJoined(u) && u@ == name@),
                },
                ServerEvent::UserLeft(name) => r matches Ok(out) && old(self).leave_step(
                    name@,
                    now,
                    *final(self),
                    deliveries_model(out@),
                ),
                ServerEvent::Tick => r matches Ok(out) && old(self).tick_step(
                    now,
                    *final(self),
                    deliveries_model(out@),
                ),
                ServerEvent::ToServerMsg(name, msg) => r matches Ok(out) && old(self).client_step(
                    name@,
                    msg,
                    now,
                    *final(self),
                    deliveries_model(out@),
                ),
            },
    {
        match evt {
            ServerEvent::ToServerMsg(name, msg) => Ok(self.on_to_srv_msg(name, msg, now)),
            ServerEvent::UserJoined(name) => self.on_user_joined(name),
            ServerEvent::UserLeft(name) => Ok(self.remove_player(&name, now)),
            ServerEvent::Tick => Ok(self.on_tick(now)),
        }
    }
}

fn joined_msg(name: &String) -> (r: String)
    ensures
        r@ == joined_text(name@),
{
    let mut s = name.clone();
    s.append(" joined");
    s
}

fn guessed_msg(name: &String) -> (r: String)
    ensures
        r@ == guessed_text(name@),
{
    let mut s = name.clone();
    s.append(" guessed it!");
    s
}

fn word_was_msg(word: &String) -> (r: String)
    ensures
        r@ == word_was_text(word@),
{
    let mut s = String::new();
    s.append("The word was: \"");
    s.append(word.as_str());
    s.append("\"");
    proof {
        assert(s@ =~= word_was_text(word@));
    }
    s
}

fn copy_words(words: &Vec<String>) -> (r: Vec<String>)
    ensures
        r@ == words@,
{
    let mut r: Vec<String> = Vec::new();
    let mut i: usize = 0;
    while i < words.len()
        invariant
            i <= words@.len(),
            r@ == words@.subrange(0, i as int),
        decreases words@.len() - i,
    {
        r.push(words[i].clone());
        i = i + 1;
    }
    assert(r@ =~= words@);
    r
}

} // verus!
