use space_rust_library::exception::{raise, ErrorKind, Exception};

fn function_ok() -> Result<(), Exception> {
    Ok(())
}

fn function_with_exception() -> Result<(), Exception> {
    Err(raise(ErrorKind::RangeError, "some exception"))
}

#[test]
fn test_util_exception() {
    function_ok().unwrap();
    let exception = function_with_exception().unwrap_err();
    assert_eq!(exception.description(), "some exception");
    assert_eq!(exception.kind, ErrorKind::RangeError);
}
