//! Secrets as the secrets manager hands them out.

use vstd::prelude::*;

verus! {

/// What came of asking the secrets manager for the value of one secret.
pub enum SecretReply<E> {
    /// The request failed.
    Failed(E),
    /// The secret exists; it may hold no text.
    Answered(Option<String>),
}

/// Why there is no text of a secret.
pub enum SecretError<E> {
    /// The request failed.
    Failed(E),
    /// The secret holds no text.
    NoText,
}

impl<E> SecretError<E> {
    /// What the error says; the failure of a request is its cause.
    pub fn message(&self) -> (text: &'static str)
        ensures
            text@ == "must get secret value"@,
    {
        "must get secret value"
    }
}

/// Access to the text of a secret.
pub trait SecretsManagerExtensions: Sized {
    /// How a request to the secrets manager fails.
    type Failure;

    /// The text of the secret.
    spec fn secret(self) -> Result<String, SecretError<Self::Failure>>;

    /// Gives the text of the secret, or says why there is none.
    fn get_secret(self) -> (text: Result<String, SecretError<Self::Failure>>)
        ensures
            text == self.secret(),
    ;
}

impl<E> SecretsManagerExtensions for SecretReply<E> {
    type Failure = E;

    open spec fn secret(self) -> Result<String, SecretError<E>> {
        match self {
            SecretReply::Failed(e) => Err(SecretError::Failed(e)),
            SecretReply::Answered(None) => Err(SecretError::NoText),
            SecretReply::Answered(Some(text)) => Ok(text),
        }
    }

    fn get_secret(self) -> (text: Result<String, SecretError<E>>)
        ensures
            self matches SecretReply::Failed(e) ==> text == Err::<String, _>(
                SecretError::Failed(e),
            ),
            self matches SecretReply::Answered(None) ==> text == Err::<String, _>(
                SecretError::<E>::NoText,
            ),
            self matches SecretReply::Answered(Some(held)) ==> text == Ok::<_, SecretError<E>>(
                held,
            ),
    {
        match self {
            SecretReply::Failed(e) => Err(SecretError::Failed(e)),
            SecretReply::Answered(None) => Err(SecretError::NoText),
            SecretReply::Answered(Some(text)) => Ok(text),
        }
    }
}

} // verus!
