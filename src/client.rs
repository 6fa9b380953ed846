//! The client's side of a session: its identity, and the decision taken on
//! each recipient the operator enters.
use crate::envelope::Message;
use crate::identity::ArcString;
use crate::router::list_command;
use crate::text::{text_eq, trim_spec, trimmed};
use vstd::prelude::*;

verus! {

/// The recipient that ends the session.
pub open spec fn exit_command() -> Seq<char> {
    "/exit"@
}

/// What the interactive loop does with one entered recipient.
pub enum Step {
    /// End the session.
    Exit,
    /// The operator addressed themselves: warn and ask again; nothing is sent.
    SelfAddressed,
    /// Send this directory query.
    Send(Message),
    /// Ask for the content of a message to this recipient.
    AskContent(String),
}

/// A chat client, known by its trimmed identity.
pub struct Client {
    name: ArcString,
}

impl View for Client {
    type V = Seq<char>;

    closed spec fn view(&self) -> Seq<char> {
        self.name@
    }
}

impl Client {
    /// A client named by `name` without surrounding white space.
    pub fn new(name: String) -> (r: Client)
        ensures
            r@ == trim_spec(name@),
    {
        Client { name: ArcString::new(trimmed(name.as_str())) }
    }

    /// The client's identity.
    pub fn name(&self) -> (r: ArcString)
        ensures
            r@ == self@,
    {
        self.name.share()
    }

    /// The first payload of a session: the raw identity text, not an envelope.
    pub fn registration(&self) -> (r: String)
        ensures
            r@ == self@,
    {
        self.name.get()
    }

    /// Decides what to do with the recipient line the operator entered,
    /// taken without surrounding white space.
    pub fn next_step(&self, line: &str) -> (r: Step)
        ensures
            trim_spec(line@) == exit_command() ==> r is Exit,
            trim_spec(line@) != exit_command() && trim_spec(line@) == self@ ==> r is SelfAddressed,
            trim_spec(line@) != exit_command() && trim_spec(line@) != self@ && trim_spec(line@)
                == list_command() ==> (r matches Step::Send(m) && m@.from == self@ && m@.to
                == list_command() && m@.content.len() == 0),
            trim_spec(line@) != exit_command() && trim_spec(line@) != self@ && trim_spec(line@)
                != list_command() ==> (r matches Step::AskContent(to) && to@ == trim_spec(line@)),
    {
        let recipient = trimmed(line);
        if text_eq(recipient.as_str(), "/exit") {
            Step::Exit
        } else if text_eq(recipient.as_str(), self.name.as_str()) {
            Step::SelfAddressed
        } else if text_eq(recipient.as_str(), "/list") {
            Step::Send(Message::new(self.name.share(), recipient, String::new()))
        } else {
            Step::AskContent(recipient)
        }
    }

    /// The envelope for `content_line` to `recipient`, both taken without
    /// surrounding white space, stamped with the local time now.
    pub fn compose(&self, recipient: &str, content_line: &str) -> (r: Message)
        ensures
            r@.from == self@,
            r@.to == trim_spec(recipient@),
            r@.content == trim_spec(content_line@),
    {
        Message::new(self.name.share(), trimmed(recipient), trimmed(content_line))
    }
}

} // verus!
