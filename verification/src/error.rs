use crate::compact::{str_debug, str_debug_text};
use crate::text::{bytes_debug, bytes_debug_text, concat_str, decimal, usize_text};
use vstd::prelude::*;

verus! {

/// Errors of this crate.
#[derive(Debug, PartialEq, Eq)]
pub enum Error {
    /// The address is not available in the asked form (no port, or a domain where an
    /// IP address is needed).
    AddrNotAvailable,
    /// An argument cannot be encoded (such as a domain of 256 bytes or more).
    InvalidInput,
    /// Malformed data.
    InvalidData,
    /// The input ended before a complete message.
    UnexpectedEof,
    /// A SOCKS5 address type byte that is not 1, 3 or 4.
    BadAddressType(u8),
    /// Domain bytes that are not UTF-8, met by the SOCKS5 address reader.
    BadDomain(Vec<u8>),
    /// Domain bytes that are not UTF-8, met by the Trojan UDP frame reader.
    InvalidDomain(Vec<u8>),
    /// A domain of this many bytes, too long for a SOCKS5 address.
    DomainTooLong(usize),
    /// A SOCKS5 UDP header whose RSV and FRAG bytes are not all zero.
    WrongUdpHeader(u8, u8, u8),
    /// A UDP payload of this many bytes, too large for a two-byte length.
    FrameTooLarge(usize),
    /// A SOCKS5 handshake with a version byte that is not 5.
    WrongVersion,
    /// A SOCKS5 client that offers no authentication method.
    NoMethodsOffered,
    /// None of the methods that the client offers is supported.
    MethodNotSupported,
    /// The server accepts none of the offered methods.
    NoAcceptableMethod,
    /// The server selected a method that was not offered.
    WrongMethod,
    /// A SOCKS5 reply whose VER, REP, RSV bytes are not `5, 0, 0`.
    WrongReply(u8, u8, u8),
    /// A connection was asked for with no address to try.
    NoAddressResolved,
    /// The operation is not provided.
    NotImplemented,
    /// No item of this name.
    NotFound(String),
    /// The item does not exist.
    NonExist,
    /// No rule matched.
    NotMatched,
    /// The feature is not enabled in the configuration.
    NotEnabled,
    /// The user stopped the operation.
    AbortedByUser,
    /// Another error, described by its text.
    Other(String),
    /// An error with a word on what was being done when it happened.
    WithContext(ErrorWithContext),
}

/// An error and what was being done when it happened.
#[derive(Debug, PartialEq, Eq)]
pub struct ErrorWithContext {
    pub context: String,
    pub error: Box<Error>,
}

/// The text of an error, as it is displayed. An error with a context shows the
/// context, then `Caused by:` and the error on lines of their own.
pub open spec fn spec_message(e: Error) -> Seq<char>
    decreases e,
{
    match e {
        Error::AddrNotAvailable => "address not available"@,
        Error::InvalidInput => "invalid input parameter"@,
        Error::InvalidData => "invalid data"@,
        Error::UnexpectedEof => "failed to fill whole buffer"@,
        Error::BadAddressType(t) => "bad atyp "@ + decimal(t as nat),
        Error::BadDomain(b) => "bad domain "@ + bytes_debug(b@),
        Error::InvalidDomain(b) => "Invalid domain "@ + bytes_debug(b@),
        Error::DomainTooLong(n) => "Domain too long "@ + decimal(n as nat),
        Error::WrongUdpHeader(a, b, c) => "server response wrong RSV "@ + decimal(a as nat)
            + " RSV "@ + decimal(b as nat) + " FRAG "@ + decimal(c as nat),
        Error::FrameTooLarge(n) => "Frame of length "@ + decimal(n as nat) + " is too large."@,
        Error::WrongVersion => "handshake failed: wrong socks version"@,
        Error::NoMethodsOffered => "handshake failed: client support 0 methods"@,
        Error::MethodNotSupported => "method not supported"@,
        Error::NoAcceptableMethod => "server doesn't support any auth method"@,
        Error::WrongMethod => "server respond wrong method"@,
        Error::WrongReply(a, b, c) => "server response wrong VER "@ + decimal(a as nat)
            + " REP "@ + decimal(b as nat) + " RSV "@ + decimal(c as nat),
        Error::NoAddressResolved => "could not resolve to any address"@,
        Error::NotImplemented => "Not implemented"@,
        Error::NotFound(s) => "Not found: "@ + s@,
        Error::NonExist => "Context error: NonExist"@,
        Error::NotMatched => "Not matched"@,
        Error::NotEnabled => "Not enabled in config"@,
        Error::AbortedByUser => "Aborted by user"@,
        Error::Other(s) => str_debug_text(s@),
        Error::WithContext(c) => c.context@ + "\nCaused by:\n"@ + spec_message(*c.error),
    }
}

/// `t1`, `a` in decimal, `t2`, `b` in decimal, `t3`, `c` in decimal.
fn three_numbers(t1: &str, a: u8, t2: &str, b: u8, t3: &str, c: u8) -> (r: String)
    ensures
        r@ == t1@ + decimal(a as nat) + t2@ + decimal(b as nat) + t3@ + decimal(c as nat),
{
    let mut r = t1.to_owned();
    r.append(usize_text(a as usize).as_str());
    r.append(t2);
    r.append(usize_text(b as usize).as_str());
    r.append(t3);
    r.append(usize_text(c as usize).as_str());
    r
}

impl Error {
    /// Whether the user stopped the operation.
    pub fn is_aborted(&self) -> (r: bool)
        ensures
            r == (*self is AbortedByUser),
    {
        match self {
            Error::AbortedByUser => true,
            _ => false,
        }
    }

    /// An error described by `text`.
    pub fn other(text: &str) -> (r: Error)
        ensures
            r matches Error::Other(s) && s@ == text@,
    {
        Error::Other(text.to_owned())
    }

    /// The text of the error, as it is displayed.
    pub fn to_string(&self) -> (r: String)
        ensures
            r@ == spec_message(*self),
        decreases *self,
    {
        match self {
            Error::AddrNotAvailable => "address not available".to_owned(),
            Error::InvalidInput => "invalid input parameter".to_owned(),
            Error::InvalidData => "invalid data".to_owned(),
            Error::UnexpectedEof => "failed to fill whole buffer".to_owned(),
            Error::BadAddressType(t) => concat_str("bad atyp ", usize_text(*t as usize).as_str()),
            Error::BadDomain(b) => concat_str("bad domain ", bytes_debug_text(b.as_slice()).as_str()),
            Error::InvalidDomain(b) => concat_str(
                "Invalid domain ",
                bytes_debug_text(b.as_slice()).as_str(),
            ),
            Error::DomainTooLong(n) => concat_str("Domain too long ", usize_text(*n).as_str()),
            Error::WrongUdpHeader(a, b, c) => three_numbers(
                "server response wrong RSV ",
                *a,
                " RSV ",
                *b,
                " FRAG ",
                *c,
            ),
            Error::FrameTooLarge(n) => {
                let head = concat_str("Frame of length ", usize_text(*n).as_str());
                concat_str(head.as_str(), " is too large.")
            },
            Error::WrongVersion => "handshake failed: wrong socks version".to_owned(),
            Error::NoMethodsOffered => "handshake failed: client support 0 methods".to_owned(),
            Error::MethodNotSupported => "method not supported".to_owned(),
            Error::NoAcceptableMethod => "server doesn't support any auth method".to_owned(),
            Error::WrongMethod => "server respond wrong method".to_owned(),
            Error::WrongReply(a, b, c) => three_numbers(
                "server response wrong VER ",
                *a,
                " REP ",
                *b,
                " RSV ",
                *c,
            ),
            Error::NoAddressResolved => "could not resolve to any address".to_owned(),
            Error::NotImplemented => "Not implemented".to_owned(),
            Error::NotFound(s) => concat_str("Not found: ", s.as_str()),
            Error::NonExist => "Context error: NonExist".to_owned(),
            Error::NotMatched => "Not matched".to_owned(),
            Error::NotEnabled => "Not enabled in config".to_owned(),
            Error::AbortedByUser => "Aborted by user".to_owned(),
            Error::Other(s) => str_debug(s.as_str()),
            Error::WithContext(c) => {
                let inner = c.error.to_string();
                let head = concat_str(c.context.as_str(), "\nCaused by:\n");
                concat_str(head.as_str(), inner.as_str())
            },
        }
    }
}

/// Adding what was being done to the error of a result.
pub trait ErrorContext<T> {
    fn context(self, context: &str) -> Result<T, Error>;

    fn with_context<F: FnOnce() -> String>(self, f: F) -> Result<T, Error>
        requires
            f.requires(()),
    ;
}

impl<T> ErrorContext<T> for Result<T, Error> {
    /// An error gets `context`; a value is kept.
    fn context(self, context: &str) -> (r: Result<T, Error>)
        ensures
            self matches Ok(v) ==> r == Ok::<T, Error>(v),
            self matches Err(e) ==> (r matches Err(Error::WithContext(c)) && c.context@ == context@
                && *c.error == e),
    {
        match self {
            Ok(v) => Ok(v),
            Err(e) => Err(Error::WithContext(ErrorWithContext { context: context.to_owned(), error: Box::new(e) })),
        }
    }

    /// An error gets the context that `f` gives, which is called only then; a value is
    /// kept.
    fn with_context<F: FnOnce() -> String>(self, f: F) -> (r: Result<T, Error>)
        ensures
            self matches Ok(v) ==> r == Ok::<T, Error>(v),
            self matches Err(e) ==> (r matches Err(Error::WithContext(c)) && f.ensures((), c.context)
                && *c.error == e),
    {
        match self {
            Ok(v) => Ok(v),
            Err(e) => Err(Error::WithContext(ErrorWithContext { context: f(), error: Box::new(e) })),
        }
    }
}

/// Law: the text of an error with a context is the context, `Caused by:`, and the text
/// of the error, on lines of their own; contexts nest outermost first.
pub proof fn law_context_message(context: String, e: Error)
    ensures
        spec_message(Error::WithContext(ErrorWithContext { context, error: Box::new(e) }))
            == context@ + "\nCaused by:\n"@ + spec_message(e),
{
}

} // verus!
