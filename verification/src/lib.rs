//! A greeter for greetd: the login form, the protocol it speaks with the
//! greetd daemon, the sessions it offers and the background it paints.
use vstd::prelude::*;

pub mod background;
pub mod layout;
pub mod protocol;
pub mod session;
pub mod text;
pub mod ui;

use crate::session::{appended_bash, append_bash_session, Session};

verus! {

/// The greeter's configuration: the background picture's path, the
/// sessions on offer and the user name of the last login.
pub struct Disgreet {
    background: String,
    sessions: Vec<Session>,
    prev_username: String,
}

impl Disgreet {
    /// The path of the background picture.
    pub closed spec fn background_view(&self) -> Seq<char> {
        self.background@
    }

    /// The sessions on offer.
    pub closed spec fn sessions_view(&self) -> Seq<Session> {
        self.sessions@
    }

    /// The user name of the last login.
    pub closed spec fn prev_username_view(&self) -> Seq<char> {
        self.prev_username@
    }

    /// A greeter that paints `background`, with no session and no previous
    /// user name yet.
    pub fn new(background: &str) -> (r: Disgreet)
        ensures
            r.background_view() == background@,
            r.sessions_view().len() == 0,
            r.prev_username_view().len() == 0,
    {
        Disgreet {
            background: background.to_owned(),
            sessions: Vec::new(),
            prev_username: String::new(),
        }
    }

    /// Takes what was read from the system: the user name of the last login
    /// and the sessions its desktop entry files describe. The sessions are
    /// offered in that order, with a "bash" session after them unless one is
    /// already there.
    pub fn setup(&mut self, prev_username: String, found: Vec<Session>)
        ensures
            final(self).background_view() == old(self).background_view(),
            final(self).prev_username_view() == prev_username@,
            appended_bash(found@, final(self).sessions_view()),
    {
        self.prev_username = prev_username;
        let mut sessions = found;
        append_bash_session(&mut sessions);
        self.sessions = sessions;
    }

    /// The path of the background picture.
    pub fn background(&self) -> (r: &str)
        ensures
            r@ == self.background_view(),
    {
        self.background.as_str()
    }

    /// The sessions on offer.
    pub fn sessions(&self) -> (r: &Vec<Session>)
        ensures
            r@ == self.sessions_view(),
    {
        &self.sessions
    }

    /// The user name of the last login.
    pub fn prev_username(&self) -> (r: &str)
        ensures
            r@ == self.prev_username_view(),
    {
        self.prev_username.as_str()
    }
}

} // verus!
