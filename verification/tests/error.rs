use rabbit_digger::error::ErrorContext;
use rabbit_digger::Error;

#[test]
fn test_context() {
    let error = Result::<(), Error>::Err(Error::AbortedByUser);
    let error = error.context("A context");
    assert_eq!(
        error.unwrap_err().to_string(),
        "A context\nCaused by:\nAborted by user"
    );

    let error = Result::<(), Error>::Err(Error::AbortedByUser);
    let error = error.with_context(|| "A context".to_string());
    assert_eq!(
        error.unwrap_err().to_string(),
        "A context\nCaused by:\nAborted by user"
    );
}

#[test]
fn test_nested_context() {
    let error = Result::<(), Error>::Err(Error::AbortedByUser);
    let error = error.context("Error 1");
    let error = error.context("Error 2");
    let error = error.context("Error 3");
    assert_eq!(
        error.unwrap_err().to_string(),
        "Error 3\nCaused by:\nError 2\nCaused by:\nError 1\nCaused by:\nAborted by user"
    );
}

#[test]
fn error_kinds_and_texts() {
    let error = Error::AbortedByUser;
    assert!(error.is_aborted());
    assert!(!Error::NotMatched.is_aborted());

    let error = Error::other("Other error");
    assert_eq!(error.to_string(), "\"Other error\"");
    assert_eq!(Error::NotFound("x".to_string()).to_string(), "Not found: x");
    assert_eq!(Error::NotImplemented.to_string(), "Not implemented");
}

#[test]
fn context_keeps_values() {
    let ok: Result<u8, Error> = Ok(3);
    assert_eq!(ok.context("unused"), Ok(3));
    let ok: Result<u8, Error> = Ok(4);
    assert_eq!(ok.with_context(|| panic!("not called for a value")), Ok(4));
}

#[test]
fn io_error_texts() {
    assert_eq!(Error::BadAddressType(2).to_string(), "bad atyp 2");
    assert_eq!(Error::BadDomain(vec![0xff, 0]).to_string(), "bad domain [255, 0]");
    assert_eq!(Error::BadDomain(vec![]).to_string(), "bad domain []");
    assert_eq!(Error::UnexpectedEof.to_string(), "failed to fill whole buffer");
    assert_eq!(Error::AddrNotAvailable.to_string(), "address not available");
    assert_eq!(Error::InvalidInput.to_string(), "invalid input parameter");
    assert_eq!(Error::InvalidData.to_string(), "invalid data");
    assert_eq!(
        Error::WrongUdpHeader(1, 0, 2).to_string(),
        "server response wrong RSV 1 RSV 0 FRAG 2"
    );
    assert_eq!(
        Error::WrongReply(5, 1, 0).to_string(),
        "server response wrong VER 5 REP 1 RSV 0"
    );
    assert_eq!(Error::WrongVersion.to_string(), "handshake failed: wrong socks version");
    assert_eq!(Error::NoMethodsOffered.to_string(), "handshake failed: client support 0 methods");
    assert_eq!(Error::MethodNotSupported.to_string(), "method not supported");
    assert_eq!(Error::NoAcceptableMethod.to_string(), "server doesn't support any auth method");
    assert_eq!(Error::WrongMethod.to_string(), "server respond wrong method");
}
