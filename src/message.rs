use vstd::prelude::*;

verus! {

/// One stroke segment of the shared canvas.
#[derive(Clone, Copy, Debug, PartialEq, Eq, Structural)]
pub struct Line {
    pub from_x: u32,
    pub from_y: u32,
    pub to_x: u32,
    pub to_y: u32,
    pub color: u32,
    pub width: u32,
}

/// A chat-channel message: written by a user, or generated by the server.
#[derive(Debug)]
pub enum Message {
    UserMsg { user: String, text: String },
    SystemMsg(String),
}

/// Administrative commands that any client may send.
#[derive(Debug)]
pub enum CommandMsg {
    KickPlayer(String),
}

/// What a client sends to the room.
#[derive(Debug)]
pub enum ToServerMsg {
    CommandMsg(CommandMsg),
    NewMessage(Message),
    NewLine(Line),
    ClearCanvas,
}

/// Score and solve status of one player in a scored game.
#[derive(Debug)]
pub struct PlayerState {
    pub username: String,
    pub score: u64,
    /// Position in the solve order of the current turn (1 for the first solver).
    pub solved_rank: Option<usize>,
}

/// The scored game as one recipient may see it: the word is only present
/// in the copy sent to the drawer.
#[derive(Debug)]
pub struct RoundView {
    pub players: Vec<PlayerState>,
    pub drawing_user: Option<String>,
    pub word: Option<String>,
    pub round_start_time: u64,
}

/// Everything a newly joined client needs to catch up with the room.
#[derive(Debug)]
pub struct InitialState {
    pub lines: Vec<Line>,
    pub skribbl_state: Option<RoundView>,
    pub dimensions: (usize, usize),
}

/// What the room sends to a client.
#[derive(Debug)]
pub enum ToClientMsg {
    InitialState(InitialState),
    SkribblStateChanged(RoundView),
    NewMessage(Message),
    NewLine(Line),
    ClearCanvas,
    TimeChanged(u32),
}

/// One message addressed to one connected user.
#[derive(Debug)]
pub struct Delivery {
    pub to: String,
    pub msg: ToClientMsg,
}

pub struct PlayerModel {
    pub name: Seq<char>,
    pub score: u64,
    pub solved_rank: Option<usize>,
}

pub struct ViewModel {
    pub players: Seq<PlayerModel>,
    pub drawing_user: Option<Seq<char>>,
    pub word: Option<Seq<char>>,
    pub round_start_time: u64,
}

pub enum MsgModel {
    Initial { lines: Seq<Line>, round: Option<ViewModel>, dimensions: (usize, usize) },
    StateChanged(ViewModel),
    Chat { user: Seq<char>, text: Seq<char> },
    System(Seq<char>),
    NewLine(Line),
    Clear,
    Time(u32),
}

impl View for PlayerState {
    type V = PlayerModel;

    open spec fn view(&self) -> PlayerModel {
        PlayerModel { name: self.username@, score: self.score, solved_rank: self.solved_rank }
    }
}

pub open spec fn opt_string_view(s: Option<String>) -> Option<Seq<char>> {
    match s {
        Some(t) => Some(t@),
        None => None,
    }
}

pub open spec fn players_model(ps: Seq<PlayerState>) -> Seq<PlayerModel> {
    ps.map_values(|p: PlayerState| p@)
}

impl View for RoundView {
    type V = ViewModel;

    open spec fn view(&self) -> ViewModel {
        ViewModel {
            players: players_model(self.players@),
            drawing_user: opt_string_view(self.drawing_user),
            word: opt_string_view(self.word),
            round_start_time: self.round_start_time,
        }
    }
}

impl View for Message {
    type V = MsgModel;

    open spec fn view(&self) -> MsgModel {
        match self {
            Message::UserMsg { user, text } => MsgModel::Chat { user: user@, text: text@ },
            Message::SystemMsg(t) => MsgModel::System(t@),
        }
    }
}

pub open spec fn opt_view_model(v: Option<RoundView>) -> Option<ViewModel> {
    match v {
        Some(r) => Some(r@),
        None => None,
    }
}

impl View for ToClientMsg {
    type V = MsgModel;

    open spec fn view(&self) -> MsgModel {
        match self {
            ToClientMsg::InitialState(s) => MsgModel::Initial {
                lines: s.lines@,
                round: opt_view_model(s.skribbl_state),
                dimensions: s.dimensions,
            },
            ToClientMsg::SkribblStateChanged(v) => MsgModel::StateChanged(v@),
            ToClientMsg::NewMessage(m) => m@,
            ToClientMsg::NewLine(l) => MsgModel::NewLine(*l),
            ToClientMsg::ClearCanvas => MsgModel::Clear,
            ToClientMsg::TimeChanged(t) => MsgModel::Time(*t),
        }
    }
}

impl View for Delivery {
    type V = (Seq<char>, MsgModel);

    open spec fn view(&self) -> (Seq<char>, MsgModel) {
        (self.to@, self.msg@)
    }
}

/// The abstract content of a list of deliveries, in order.
pub open spec fn deliveries_model(ds: Seq<Delivery>) -> Seq<(Seq<char>, MsgModel)> {
    ds.map_values(|d: Delivery| d@)
}

fn copy_opt_string(s: &Option<String>) -> (r: Option<String>)
    ensures
        opt_string_view(r) == opt_string_view(*s),
{
    match s {
        Some(t) => Some(t.clone()),
        None => None,
    }
}

/// Copies a list of lines element by element.
pub fn copy_lines(lines: &Vec<Line>) -> (r: Vec<Line>)
    ensures
        r@ == lines@,
{
    let mut r: Vec<Line> = Vec::new();
    let mut i: usize = 0;
    while i < lines.len()
        invariant
            i <= lines@.len(),
            r@ == lines@.subrange(0, i as int),
        decreases lines@.len() - i,
    {
        r.push(lines[i]);
        i = i + 1;
    }
    assert(r@ =~= lines@);
    r
}

impl PlayerState {
    pub fn copy(&self) -> (r: PlayerState)
        ensures
            r@ == self@,
    {
        PlayerState {
            username: self.username.clone(),
            score: self.score,
            solved_rank: self.solved_rank,
        }
    }
}

/// Copies a list of players element by element.
pub fn copy_players(ps: &Vec<PlayerState>) -> (r: Vec<PlayerState>)
    ensures
        players_model(r@) == players_model(ps@),
{
    let mut r: Vec<PlayerState> = Vec::new();
    let mut i: usize = 0;
    while i < ps.len()
        invariant
            i <= ps@.len(),
            r@.len() == i,
            forall|k: int| 0 <= k < i ==> #[trigger] r@[k]@ == ps@[k]@,
        decreases ps@.len() - i,
    {
        let p = ps[i].copy();
        r.push(p);
        i = i + 1;
    }
    assert(players_model(r@) =~= players_model(ps@));
    r
}

impl RoundView {
    pub fn copy(&self) -> (r: RoundView)
        ensures
            r@ == self@,
    {
        RoundView {
            players: copy_players(&self.players),
            drawing_user: copy_opt_string(&self.drawing_user),
            word: copy_opt_string(&self.word),
            round_start_time: self.round_start_time,
        }
    }
}

impl Message {
    /// The text of the message, whoever wrote it.
    pub fn text(&self) -> (r: &String)
        ensures
            r@ == message_text(self@),
    {
        match self {
            Message::UserMsg { text, .. } => text,
            Message::SystemMsg(t) => t,
        }
    }

    pub fn copy(&self) -> (r: Message)
        ensures
            r@ == self@,
    {
        match self {
            Message::UserMsg { user, text } => Message::UserMsg {
                user: user.clone(),
                text: text.clone(),
            },
            Message::SystemMsg(t) => Message::SystemMsg(t.clone()),
        }
    }
}

pub open spec fn message_text(m: MsgModel) -> Seq<char> {
    match m {
        MsgModel::Chat { text, .. } => text,
        MsgModel::System(t) => t,
        _ => Seq::empty(),
    }
}

impl ToClientMsg {
    pub fn copy(&self) -> (r: ToClientMsg)
        ensures
            r@ == self@,
    {
        match self {
            ToClientMsg::InitialState(s) => {
                let round = match &s.skribbl_state {
                    Some(v) => Some(v.copy()),
                    None => None,
                };
                ToClientMsg::InitialState(
                    InitialState {
                        lines: copy_lines(&s.lines),
                        skribbl_state: round,
                        dimensions: s.dimensions,
                    },
                )
            },
            ToClientMsg::SkribblStateChanged(v) => ToClientMsg::SkribblStateChanged(v.copy()),
            ToClientMsg::NewMessage(m) => ToClientMsg::NewMessage(m.copy()),
            ToClientMsg::NewLine(l) => ToClientMsg::NewLine(*l),
            ToClientMsg::ClearCanvas => ToClientMsg::ClearCanvas,
            ToClientMsg::TimeChanged(t) => ToClientMsg::TimeChanged(*t),
        }
    }
}

/// Appends one delivery to an outbox.
pub fn emit(out: &mut Vec<Delivery>, d: Delivery)
    ensures
        deliveries_model(final(out)@) == deliveries_model(old(out)@).push(d@),
        deliveries_model(final(out)@) == deliveries_model(old(out)@) + seq![d@],
{
    let ghost d_model = d@;
    out.push(d);
    assert(deliveries_model(final(out)@) =~= deliveries_model(old(out)@).push(d_model));
    assert(deliveries_model(final(out)@) =~= deliveries_model(old(out)@) + seq![d_model]);
}

/// Appends a whole batch of deliveries to an outbox, in order.
pub fn emit_all(out: &mut Vec<Delivery>, batch: Vec<Delivery>)
    ensures
        deliveries_model(final(out)@) == deliveries_model(old(out)@) + deliveries_model(batch@),
{
    let mut batch = batch;
    let ghost b = batch@;
    out.append(&mut batch);
    assert(deliveries_model(final(out)@) =~= deliveries_model(old(out)@) + deliveries_model(b));
}

} // verus!
