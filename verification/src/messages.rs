use vstd::prelude::*;

verus! {

/// The ways in which an operation on the registry can fail.
///
/// The operations report a failure as its message; this type names the three
/// kinds and fixes the text of each.
#[derive(Debug, Clone, Copy, PartialEq, Eq, Structural)]
pub enum Failure {
    /// The text handed to `store` is not an absolute URL with a host.
    InvalidUrl,
    /// No record is stored under the identifier handed to `read`.
    NotFound,
    /// The lock around the shared table could not be acquired.
    LockFailure,
}

impl Failure {
    /// The text that reports this failure.
    pub open spec fn text(self) -> Seq<char> {
        match self {
            Failure::InvalidUrl => "Invalid URL"@,
            Failure::NotFound => "Url not found !"@,
            Failure::LockFailure => "Failed to acquire lock"@,
        }
    }

    /// The message that reports this failure.
    pub fn message(&self) -> (msg: String)
        ensures
            msg@ == self.text(),
    {
        match self {
            Failure::InvalidUrl => "Invalid URL".to_owned(),
            Failure::NotFound => "Url not found !".to_owned(),
            Failure::LockFailure => "Failed to acquire lock".to_owned(),
        }
    }

    /// The kind of failure that `msg` reports, if it reports one.
    pub fn from_message(msg: &str) -> (kind: Option<Failure>)
        ensures
            match kind {
                Some(f) => msg@ == f.text(),
                None => forall|f: Failure| msg@ != f.text(),
            },
    {
        proof {
            lemma_texts_differ();
        }
        let given = msg.to_owned();
        if given == Failure::InvalidUrl.message() {
            Some(Failure::InvalidUrl)
        } else if given == Failure::NotFound.message() {
            Some(Failure::NotFound)
        } else if given == Failure::LockFailure.message() {
            Some(Failure::LockFailure)
        } else {
            None
        }
    }
}

/// No two kinds of failure share a message, so a caller can tell from the
/// message which kind it was handed.
pub proof fn lemma_texts_differ()
    ensures
        forall|f: Failure, g: Failure| f.text() == g.text() ==> f == g,
{
    reveal_strlit("Invalid URL");
    reveal_strlit("Url not found !");
    reveal_strlit("Failed to acquire lock");
    assert(Failure::InvalidUrl.text().len() == 11);
    assert(Failure::NotFound.text().len() == 15);
    assert(Failure::LockFailure.text().len() == 22);
}

} // verus!
