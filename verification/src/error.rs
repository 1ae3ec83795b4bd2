//! Errors with the chain of what was being done when they came up.
//!
//! An error is read as the list of its messages, the outermost first and the
//! text of the outside error that started it last.

use vstd::prelude::*;
use vstd::string::StringExecFns;

verus! {

/// What an error goes back to.
#[derive(Debug)]
pub enum Cause {
    /// An error of the channel or of the system, by its text.
    Outside(String),
    /// An error that was given a message of its own.
    Chained(Box<BoxErrorMsg>),
}

/// An error with a message that says what failed, and its cause.
#[derive(Debug)]
pub struct BoxErrorMsg {
    pub msg: String,
    pub cause: Cause,
}

/// What stands between a message and its cause in the text of an error.
pub open spec fn caused_by() -> Seq<char> {
    "\n caused by: "@
}

/// The messages joined into one text, each cause on a line of its own.
pub open spec fn joined(messages: Seq<Seq<char>>) -> Seq<char>
    decreases messages.len(),
{
    if messages.len() == 0 {
        Seq::empty()
    } else if messages.len() == 1 {
        messages[0]
    } else {
        messages[0] + caused_by() + joined(messages.drop_first())
    }
}

impl Cause {
    /// The messages of the cause, the outermost first.
    pub open spec fn messages(self) -> Seq<Seq<char>>
        decreases self,
    {
        match self {
            Cause::Outside(text) => seq![text@],
            Cause::Chained(err) => err.messages(),
        }
    }

    /// The text of the cause: that of an outside error as it was given, that
    /// of a chained error as `BoxErrorMsg::render` gives it.
    pub fn render(&self) -> (text: String)
        ensures
            text@ == joined(self.messages()),
        decreases self,
    {
        match self {
            Cause::Outside(text) => text.clone(),
            Cause::Chained(err) => err.render(),
        }
    }
}

impl BoxErrorMsg {
    /// The messages of the error, its own first. There are at least two.
    pub open spec fn messages(self) -> Seq<Seq<char>>
        decreases self,
    {
        seq![self.msg@] + self.cause.messages()
    }

    /// The text of the error, for a person to read: its message, then
    /// ` caused by: ` and the text of its cause on the next line.
    pub fn render(&self) -> (text: String)
        ensures
            text@ == joined(self.messages()),
            text@ == self.msg@ + caused_by() + joined(self.cause.messages()),
        decreases self,
    {
        let mut text: String = self.msg.clone();
        text.append("\n caused by: ");
        let cause: String = self.cause.render();
        text.append(cause.as_str());
        proof {
            lemma_messages_nonempty(self.cause);
            assert(self.messages().drop_first() == self.cause.messages());
        }
        text
    }
}

impl From<BoxErrorMsg> for Cause {
    /// An error with a message, as the cause of another.
    fn from(err: BoxErrorMsg) -> (cause: Cause) {
        Cause::Chained(Box::new(err))
    }
}

impl vstd::std_specs::convert::FromSpecImpl<BoxErrorMsg> for Cause {
    open spec fn obeys_from_spec() -> bool {
        true
    }

    open spec fn from_spec(err: BoxErrorMsg) -> Cause {
        Cause::Chained(Box::new(err))
    }
}

/// Every cause has a message.
pub proof fn lemma_messages_nonempty(cause: Cause)
    ensures
        cause.messages().len() >= 1,
    decreases cause,
{
    match cause {
        Cause::Outside(_) => {},
        Cause::Chained(err) => {
            lemma_messages_nonempty(err.cause);
        },
    }
}

/// Gives the error of a result a message, where the error is a cause.
pub trait ResultBoxExt {
    type Mapped;

    fn chain(self, msg: &str) -> Self::Mapped;
}

impl<T> ResultBoxExt for Result<T, Cause> {
    type Mapped = Result<T, BoxErrorMsg>;

    /// A success stays as it is. An error becomes one with the message
    /// `msg` and the old error as its cause.
    fn chain(self, msg: &str) -> (mapped: Result<T, BoxErrorMsg>)
        ensures
            match self {
                Ok(value) => mapped == Ok::<T, BoxErrorMsg>(value),
                Err(cause) => mapped matches Err(err) && err.msg@ == msg@ && err.cause == cause
                    && err.messages() == seq![msg@] + cause.messages(),
            },
    {
        match self {
            Ok(value) => Ok(value),
            Err(cause) => Err(BoxErrorMsg { msg: msg.to_owned(), cause }),
        }
    }
}

/// Gives the error of a result a message, where the error has one already.
pub trait ResultExt {
    type Mapped;

    fn chain(self, msg: &str) -> Self::Mapped;
}

impl<T> ResultExt for Result<T, BoxErrorMsg> {
    type Mapped = Result<T, BoxErrorMsg>;

    /// A success stays as it is. An error becomes one with the message
    /// `msg` and the old error as its cause.
    fn chain(self, msg: &str) -> (mapped: Result<T, BoxErrorMsg>)
        ensures
            match self {
                Ok(value) => mapped == Ok::<T, BoxErrorMsg>(value),
                Err(inner) => mapped matches Err(err) && err.msg@ == msg@ && err.cause
                    == Cause::Chained(Box::new(inner)) && err.messages() == seq![msg@]
                    + inner.messages(),
            },
    {
        match self {
            Ok(value) => Ok(value),
            Err(inner) => Err(
                BoxErrorMsg { msg: msg.to_owned(), cause: Cause::Chained(Box::new(inner)) },
            ),
        }
    }
}

} // verus!
