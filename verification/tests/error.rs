use serial_keyboard::error::{BoxErrorMsg, Cause, ResultBoxExt, ResultExt};

#[test]
fn an_outside_error_reads_as_its_text() {
    let cause = Cause::Outside("port busy".to_string());
    assert_eq!(cause.render(), "port busy");
}

#[test]
fn a_message_stands_before_its_cause() {
    let failed: Result<(), Cause> = Err(Cause::Outside("port busy".to_string()));
    let err = failed.chain("failed to write reset command").unwrap_err();
    assert_eq!(err.msg, "failed to write reset command");
    assert_eq!(
        err.render(),
        "failed to write reset command\n caused by: port busy"
    );
}

#[test]
fn messages_chain_from_the_outermost() {
    let failed: Result<u8, Cause> = Err(Cause::Outside("timed out".to_string()));
    let inner: Result<u8, BoxErrorMsg> = failed.chain("reading magic number failed");
    let middle: Result<u8, BoxErrorMsg> = inner.chain("failed to initialize connection");
    let outer = middle.chain("failed to open connection").unwrap_err();
    assert_eq!(
        outer.render(),
        "failed to open connection\n caused by: failed to initialize connection\n caused by: reading magic number failed\n caused by: timed out"
    );
    let as_cause = Cause::from(outer);
    assert_eq!(
        as_cause.render(),
        "failed to open connection\n caused by: failed to initialize connection\n caused by: reading magic number failed\n caused by: timed out"
    );
}

#[test]
fn a_success_is_left_alone() {
    let fine: Result<u8, Cause> = Ok(7);
    assert_eq!(fine.chain("never shown").unwrap(), 7);
    let fine: Result<u8, BoxErrorMsg> = Ok(9);
    assert_eq!(fine.chain("never shown").unwrap(), 9);
}

#[test]
fn an_empty_message_still_has_its_line() {
    let failed: Result<(), Cause> = Err(Cause::Outside(String::new()));
    let err = failed.chain("").unwrap_err();
    assert_eq!(err.render(), "\n caused by: ");
}
