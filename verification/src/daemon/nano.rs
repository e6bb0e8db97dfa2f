//! The agent that the daemon has built in: who is logged in, which sessions there are, and which
//! of them work.
pub mod runtime;
pub mod shell;

use crate::common::api;
use crate::common::api::{OrchestratorConfig, AMUX_AUTH_METHOD};
use crate::common::jsonrpc::rpc_error;
use crate::common::model::LoopMessage;
use crate::ids;
use crate::ids::new_id;
use crate::strings;
use crate::strings::{join, same};
use crate::table;
use crate::table::Table;
use vstd::prelude::*;

verus! {

/// What a client is answered when its request cannot be met.
#[derive(Debug, PartialEq)]
pub enum AcpError {
    /// The client has to log in first.
    AuthRequired,
    /// The parameters cannot be used; the text says why, where there is something to say.
    InvalidParams(Option<String>),
    /// The request cannot be met now; the text says why.
    InvalidRequest(String),
}

/// The code of a request that needs a login.
pub const AUTH_REQUIRED: i32 = -32000;

impl AcpError {
    /// The code of the error.
    pub fn code(&self) -> (r: i32)
        ensures
            r == match *self {
                AcpError::AuthRequired => -32000i32,
                AcpError::InvalidParams(_) => -32602i32,
                AcpError::InvalidRequest(_) => -32600i32,
            },
    {
        match self {
            AcpError::AuthRequired => AUTH_REQUIRED,
            AcpError::InvalidParams(_) => rpc_error::INVALID_PARAMS,
            AcpError::InvalidRequest(_) => rpc_error::INVALID_REQUEST,
        }
    }
}

/// A session of the built-in agent.
pub struct Session {
    pub cwd: String,
    /// The conversation so far. While the session works it is with the one who works.
    pub history: Vec<LoopMessage>,
    /// The number of the turn that is under way, if one is.
    pub turn: Option<u64>,
}

impl Session {
    /// A session in which nothing was said.
    pub fn new(cwd: String) -> (r: Self)
        ensures
            r.cwd == cwd,
            r.history@.len() == 0,
            r.turn is None,
    {
        Session { cwd, history: Vec::new(), turn: None }
    }
}

/// A part of a prompt.
#[derive(Debug, PartialEq)]
pub enum PromptPart {
    Text(String),
    /// Anything that is no text; the string says what it is.
    Other(String),
}

/// A turn that was begun.
pub struct Turn {
    pub number: u64,
    pub cwd: String,
    pub text: String,
    pub history: Vec<LoopMessage>,
    pub config: OrchestratorConfig,
}

/// The parts of a prompt that are all text.
pub open spec fn prompt_texts(parts: Seq<PromptPart>) -> Option<Seq<Seq<char>>>
    decreases parts.len(),
{
    if parts.len() == 0 {
        Some(Seq::empty())
    } else {
        match (prompt_texts(parts.drop_last()), parts.last()) {
            (Some(before), PromptPart::Text(text)) => Some(before.push(text@)),
            _ => None,
        }
    }
}

proof fn lemma_prompt_prefix(parts: Seq<PromptPart>, n: int)
    requires
        0 <= n <= parts.len(),
        prompt_texts(parts.take(n)) is None,
    ensures
        prompt_texts(parts) is None,
    decreases parts.len(),
{
    if n < parts.len() {
        assert(parts.drop_last().take(n) =~= parts.take(n));
        lemma_prompt_prefix(parts.drop_last(), n);
    } else {
        assert(parts.take(n) =~= parts);
    }
}

fn prompt_text(parts: &Vec<PromptPart>) -> (r: Option<String>)
    ensures
        r is Some <==> prompt_texts(parts@) is Some,
        r matches Some(text) ==> text@ == strings::join_of(prompt_texts(parts@)->0, "\n"@),
{
    let mut texts: Vec<String> = Vec::new();
    let mut i: usize = 0;
    while i < parts.len()
        invariant
            0 <= i <= parts@.len(),
            prompt_texts(parts@.take(i as int)) == Some(strings::views(texts@)),
        decreases parts.len() - i,
    {
        proof {
            assert(parts@.take(i + 1).drop_last() =~= parts@.take(i as int));
        }
        match &parts[i] {
            PromptPart::Text(text) => {
                let ghost before = texts@;
                texts.push(text.clone());
                proof {
                    assert(strings::views(texts@) =~= strings::views(before).push(text@));
                }
            },
            PromptPart::Other(_) => {
                proof {
                    lemma_prompt_prefix(parts@, i + 1);
                }
                return None;
            },
        }
        i = i + 1;
    }
    proof {
        assert(parts@.take(i as int) =~= parts@);
    }
    Some(join(&texts, "\n"))
}

/// The built-in agent.
pub struct Nano {
    config: Option<OrchestratorConfig>,
    sessions: Table<Session>,
    next_turn: u64,
}

impl Nano {
    /// The configuration that was logged in with.
    pub closed spec fn login_config(&self) -> Option<OrchestratorConfig> {
        self.config
    }

    /// The sessions under their identities.
    pub closed spec fn sessions(&self) -> Map<Seq<char>, Session> {
        self.sessions@
    }

    /// The number of the next turn.
    pub closed spec fn next_turn(&self) -> u64 {
        self.next_turn
    }

    /// No turn that is under way has a number that is yet to be given.
    pub open spec fn well_formed(&self) -> bool {
        forall|id: Seq<char>| #[trigger]
            self.sessions().contains_key(id) && self.sessions()[id].turn is Some
                ==> self.sessions()[id].turn->0 < self.next_turn()
    }

    /// Nobody is logged in, and there is no session.
    pub fn new() -> (r: Self)
        ensures
            r.well_formed(),
            r.login_config() is None,
            r.sessions() == Map::<Seq<char>, Session>::empty(),
            r.next_turn() == 0,
    {
        Nano { config: None, sessions: Table::new(), next_turn: 0 }
    }

    /// The configuration that was logged in with.
    pub fn config(&self) -> (r: Result<OrchestratorConfig, AcpError>)
        ensures
            r == match self.login_config() {
                Some(config) => Ok::<OrchestratorConfig, AcpError>(config),
                None => Err(AcpError::AuthRequired),
            },
    {
        match &self.config {
            Some(config) => Ok(config.clone()),
            None => Err(AcpError::AuthRequired),
        }
    }

    /// Logs in with the configuration that the request carries.
    pub fn login(
        &mut self,
        method: &str,
        meta: serde_json::Map<String, serde_json::Value>,
    ) -> (r: Result<(), AcpError>)
        requires
            old(self).well_formed(),
        ensures
            final(self).well_formed(),
            final(self).sessions() == old(self).sessions(),
            final(self).next_turn() == old(self).next_turn(),
            ({
                let carried = api::config_in(api::json_texts(meta), api::json_members(meta));
                if method@ != AMUX_AUTH_METHOD@ {
                    &&& r == Err::<(), AcpError>(AcpError::InvalidParams(None))
                    &&& final(self).login_config() == old(self).login_config()
                } else if carried is Some && carried->0.complete() {
                    &&& r is Ok
                    &&& final(self).login_config() is Some
                    &&& final(self).login_config()->0@ == carried->0
                } else {
                    &&& r is Err && r->Err_0 is InvalidParams && r->Err_0->InvalidParams_0 is Some
                    &&& r->Err_0->InvalidParams_0->0@ == if carried is Some {
                        "请配置 Base URL、API Key 和模型"@
                    } else {
                        "模型配置格式不正确"@
                    }
                    &&& final(self).login_config() == old(self).login_config()
                }
            }),
    {
        if !same(method, AMUX_AUTH_METHOD) {
            return Err(AcpError::InvalidParams(None));
        }
        match OrchestratorConfig::from_auth_meta(meta) {
            Ok(config) => {
                self.config = Some(config);
                Ok(())
            },
            Err(message) => Err(AcpError::InvalidParams(Some(message))),
        }
    }

    /// Logs out and drops all sessions. What comes back are the sessions that were there: their
    /// turns are to be stopped.
    pub fn logout(&mut self) -> (r: Vec<Session>)
        requires
            old(self).well_formed(),
        ensures
            final(self).well_formed(),
            final(self).login_config() is None,
            final(self).sessions() == Map::<Seq<char>, Session>::empty(),
            final(self).next_turn() == old(self).next_turn(),
            table::all_values(r@, old(self).sessions()),
    {
        self.config = None;
        self.sessions.drain()
    }

    /// Makes a session with a fresh identity in the given directory.
    pub fn new_session(&mut self, cwd: String) -> (r: Result<String, AcpError>)
        requires
            old(self).well_formed(),
        ensures
            final(self).well_formed(),
            final(self).login_config() == old(self).login_config(),
            final(self).next_turn() == old(self).next_turn(),
            r is Ok <==> old(self).login_config() is Some,
            r matches Err(error) ==> error is AuthRequired && final(self).sessions() == old(
                self,
            ).sessions(),
            r matches Ok(id) ==> ids::hyphenated(id@) && opened(
                old(self).sessions(),
                final(self).sessions(),
                id@,
                cwd@,
            ),
    {
        let id: String = new_id();
        match self.open_session(id.clone(), cwd) {
            Ok(_) => Ok(id),
            Err(error) => Err(error),
        }
    }

    /// Puts a new session under an identity.
    pub fn open_session(&mut self, id: String, cwd: String) -> (r: Result<(), AcpError>)
        requires
            old(self).well_formed(),
        ensures
            final(self).well_formed(),
            final(self).login_config() == old(self).login_config(),
            final(self).next_turn() == old(self).next_turn(),
            r is Ok <==> old(self).login_config() is Some,
            r matches Err(error) ==> error is AuthRequired && final(self).sessions() == old(
                self,
            ).sessions(),
            r is Ok ==> opened(old(self).sessions(), final(self).sessions(), id@, cwd@),
    {
        match self.config() {
            Ok(_) => {},
            Err(error) => return Err(error),
        }
        let session: Session = Session::new(cwd);
        let ghost fresh = session;
        let _ = self.sessions.insert(id, session);
        proof {
            assert(self.sessions() == old(self).sessions().insert(id@, fresh));
        }
        Ok(())
    }

    /// Takes a session up again. One that is not there is made, one that is stays as it is.
    pub fn resume_session(&mut self, id: String, cwd: String) -> (r: Result<(), AcpError>)
        requires
            old(self).well_formed(),
        ensures
            final(self).well_formed(),
            final(self).login_config() == old(self).login_config(),
            final(self).next_turn() == old(self).next_turn(),
            r is Ok <==> old(self).login_config() is Some,
            r matches Err(error) ==> error is AuthRequired,
            r is Err || old(self).sessions().contains_key(id@) ==> final(self).sessions() == old(
                self,
            ).sessions(),
            r is Ok && !old(self).sessions().contains_key(id@) ==> opened(
                old(self).sessions(),
                final(self).sessions(),
                id@,
                cwd@,
            ),
    {
        match self.config() {
            Ok(_) => {},
            Err(error) => return Err(error),
        }
        if self.sessions.contains(id.as_str()) {
            return Ok(());
        }
        self.open_session(id, cwd)
    }

    /// Drops a session. What comes back is the session that was there: its turn is to be stopped.
    pub fn close_session(&mut self, id: &str) -> (r: Option<Session>)
        requires
            old(self).well_formed(),
        ensures
            final(self).well_formed(),
            final(self).login_config() == old(self).login_config(),
            final(self).next_turn() == old(self).next_turn(),
            final(self).sessions() == old(self).sessions().remove(id@),
            r is Some <==> old(self).sessions().contains_key(id@),
            r matches Some(session) ==> session == old(self).sessions()[id@],
    {
        self.sessions.remove(id)
    }

    /// Drops a session, as closing it does.
    pub fn delete_session(&mut self, id: &str) -> (r: Option<Session>)
        requires
            old(self).well_formed(),
        ensures
            final(self).well_formed(),
            final(self).login_config() == old(self).login_config(),
            final(self).next_turn() == old(self).next_turn(),
            final(self).sessions() == old(self).sessions().remove(id@),
            r is Some <==> old(self).sessions().contains_key(id@),
            r matches Some(session) ==> session == old(self).sessions()[id@],
    {
        self.close_session(id)
    }

    /// The turn that has to be stopped when a session is cancelled.
    pub fn cancel(&self, id: &str) -> (r: Option<u64>)
        ensures
            r == if self.sessions().contains_key(id@) {
                self.sessions()[id@].turn
            } else {
                None
            },
    {
        match self.sessions.get(id) {
            Some(session) => session.turn,
            None => None,
        }
    }

    /// Begins a turn: the conversation goes to the one who works, and the session is busy.
    pub fn prompt(&mut self, id: &str, parts: &Vec<PromptPart>) -> (r: Result<Turn, AcpError>)
        requires
            old(self).well_formed(),
            old(self).next_turn() < u64::MAX,
        ensures
            final(self).well_formed(),
            final(self).login_config() == old(self).login_config(),
            ({
                let texts = prompt_texts(parts@);
                let before = old(self).sessions();
                if old(self).login_config() is None {
                    r is Err && r->Err_0 is AuthRequired
                } else if texts is None {
                    r is Err && r->Err_0 is InvalidParams && r->Err_0->InvalidParams_0 is Some
                        && r->Err_0->InvalidParams_0->0@ == "Nano 仅支持文本输入"@
                } else if !before.contains_key(id@) {
                    r is Err && r->Err_0 == AcpError::InvalidParams(None)
                } else if before[id@].turn is Some {
                    r is Err && r->Err_0 is InvalidRequest && r->Err_0->InvalidRequest_0@
                        == "会话正在工作中"@
                } else {
                    &&& r is Ok
                    &&& r->Ok_0.number == old(self).next_turn()
                    &&& r->Ok_0.cwd == before[id@].cwd
                    &&& r->Ok_0.text@ == strings::join_of(texts->0, "\n"@)
                    &&& r->Ok_0.history == before[id@].history
                    &&& Some(r->Ok_0.config) == old(self).login_config()
                    &&& final(self).next_turn() == old(self).next_turn() + 1
                    &&& working(before, final(self).sessions(), id@, r->Ok_0.number)
                }
            }),
            r is Err ==> final(self).sessions() == old(self).sessions() && final(self).next_turn()
                == old(self).next_turn(),
    {
        let config: OrchestratorConfig = match self.config() {
            Ok(config) => config,
            Err(error) => return Err(error),
        };
        let text: String = match prompt_text(parts) {
            Some(text) => text,
            None => return Err(AcpError::InvalidParams(Some("Nano 仅支持文本输入".to_owned()))),
        };
        match self.sessions.get(id) {
            None => return Err(AcpError::InvalidParams(None)),
            Some(session) => {
                if session.turn.is_some() {
                    return Err(AcpError::InvalidRequest("会话正在工作中".to_owned()));
                }
            },
        }
        match self.sessions.remove(id) {
            None => Err(AcpError::InvalidParams(None)),
            Some(session) => {
                let number: u64 = self.next_turn;
                self.next_turn = number + 1;
                let cwd: String = session.cwd.clone();
                let busy: Session = Session {
                    cwd: session.cwd,
                    history: Vec::new(),
                    turn: Some(number),
                };
                let ghost now = busy;
                let _ = self.sessions.insert(id.to_owned(), busy);
                proof {
                    assert(self.sessions() =~= old(self).sessions().insert(id@, now));
                    assert(now.cwd == old(self).sessions()[id@].cwd);
                    assert(working(old(self).sessions(), self.sessions(), id@, number));
                }
                Ok(Turn { number, cwd, text, history: session.history, config })
            },
        }
    }

    /// Ends a turn: its conversation goes back to the session, which is idle again. A turn that is
    /// not the session's own, because the session was dropped and made anew meanwhile, changes
    /// nothing. Whether the session became idle comes back.
    pub fn finish(&mut self, id: &str, number: u64, history: Vec<LoopMessage>) -> (r: bool)
        requires
            old(self).well_formed(),
        ensures
            final(self).well_formed(),
            final(self).login_config() == old(self).login_config(),
            final(self).next_turn() == old(self).next_turn(),
            r == (old(self).sessions().contains_key(id@) && old(self).sessions()[id@].turn == Some(
                number,
            )),
            !r ==> final(self).sessions() == old(self).sessions(),
            r ==> final(self).sessions() == old(self).sessions().insert(
                id@,
                Session { cwd: old(self).sessions()[id@].cwd, history, turn: None },
            ),
    {
        match self.sessions.get(id) {
            None => return false,
            Some(session) => {
                match session.turn {
                    None => return false,
                    Some(own) => {
                        if own != number {
                            return false;
                        }
                    },
                }
            },
        }
        match self.sessions.remove(id) {
            None => false,
            Some(session) => {
                let idle: Session = Session { cwd: session.cwd, history, turn: None };
                let ghost now = idle;
                let _ = self.sessions.insert(id.to_owned(), idle);
                proof {
                    assert(self.sessions() =~= old(self).sessions().insert(id@, now));
                }
                true
            },
        }
    }
}

/// A session was put under an identity in which nothing was said; the others are as before.
pub open spec fn opened(
    before: Map<Seq<char>, Session>,
    after: Map<Seq<char>, Session>,
    id: Seq<char>,
    cwd: Seq<char>,
) -> bool {
    &&& after.contains_key(id)
    &&& after == before.insert(id, after[id])
    &&& after[id].cwd@ == cwd
    &&& after[id].history@.len() == 0
    &&& after[id].turn is None
}

/// A session works on a turn, and its conversation is with the one who works; the others are as
/// before.
pub open spec fn working(
    before: Map<Seq<char>, Session>,
    after: Map<Seq<char>, Session>,
    id: Seq<char>,
    number: u64,
) -> bool {
    &&& after.contains_key(id)
    &&& after == before.insert(id, after[id])
    &&& after[id].cwd == before[id].cwd
    &&& after[id].history@.len() == 0
    &&& after[id].turn == Some(number)
}

/// A turn whose session was dropped and taken up again under the same identity is not the turn of
/// the new session, whether or not a new turn was begun there meanwhile: the session as it is then
/// is not changed by the end of the old turn.
pub proof fn law_stale_turn_is_not_the_new_sessions_own(
    old_turn: u64,
    at_removal: Nano,
    now: Nano,
    id: Seq<char>,
)
    requires
        at_removal.well_formed(),
        at_removal.sessions().contains_key(id),
        at_removal.sessions()[id].turn == Some(old_turn),
        at_removal.next_turn() <= now.next_turn(),
        now.sessions().contains_key(id),
        now.sessions()[id].turn is None || now.sessions()[id].turn->0 >= at_removal.next_turn(),
    ensures
        now.sessions()[id].turn != Some(old_turn),
{
}

} // verus!
