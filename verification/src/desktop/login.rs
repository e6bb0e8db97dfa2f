//! Which page is shown, and the page on which one connects to a server.
use super::state::{ConnectionStatus, Core};
use crate::strings;
use crate::strings::is_blank;
use vstd::prelude::*;

verus! {

/// A page of the client.
#[derive(Debug, Clone, Copy, PartialEq, Eq, Structural)]
pub enum Page {
    /// The connection is being tried.
    Connecting,
    Login,
    /// The sessions, with the settings over them or not.
    Main { settings: bool },
}

/// The page that is shown: that of the sessions once the server was reached.
pub fn page(core: &Core) -> (r: Page)
    ensures
        r == match core.status {
            ConnectionStatus::Online => Page::Main { settings: core.settings_open },
            ConnectionStatus::Connecting => Page::Connecting,
            _ => Page::Login,
        },
{
    match &core.status {
        ConnectionStatus::Online => Page::Main { settings: core.settings_open },
        ConnectionStatus::Connecting => Page::Connecting,
        _ => Page::Login,
    }
}

/// What is shown on the page on which one connects.
#[derive(Debug, PartialEq)]
pub struct LoginPage {
    /// Why the connection failed.
    pub error: Option<String>,
    pub can_enter: bool,
    pub loading: bool,
}

/// The page on which one connects. An error is shown where the connection failed, and there is
/// something to try once both the address and the token were given.
pub fn render(core: &Core, server: &str, token: &str) -> (r: LoginPage)
    ensures
        match core.status {
            ConnectionStatus::Failed(error) => r.error is Some && r.error->0@ == error@,
            _ => r.error is None,
        },
        r.can_enter == (!strings::blank(server@) && !strings::blank(token@)),
        r.loading == (core.status is Connecting),
{
    let error: Option<String> = match &core.status {
        ConnectionStatus::Failed(error) => Some(error.clone()),
        _ => None,
    };
    let loading: bool = match &core.status {
        ConnectionStatus::Connecting => true,
        _ => false,
    };
    LoginPage { error, can_enter: !is_blank(server) && !is_blank(token), loading }
}

} // verus!
