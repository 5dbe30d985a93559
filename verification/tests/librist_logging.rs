use kinugasa::librist::{
    callback_status, dispatch_log_callback, CallbackMessage, LogDispatch, RistCallBackLoggerError,
    RistCallBackLoggerUserCBFailedError, RistLogLevel, RistLoggerBuilder,
    RistLoggingSettingsBuilder, RistProfile, RistStderrCallBackLogger, RIST_LOG_DEBUG,
    RIST_LOG_DISABLE, RIST_LOG_SIMULATE,
};

const ALL: [RistLogLevel; 7] = [
    RistLogLevel::Disable,
    RistLogLevel::Error,
    RistLogLevel::Warn,
    RistLogLevel::Notice,
    RistLogLevel::Info,
    RistLogLevel::Debug,
    RistLogLevel::Simulate,
];

#[test]
fn levels_round_trip_through_c_values() {
    for l in ALL {
        assert_eq!(RistLogLevel::try_from_raw(l.to_raw()).unwrap(), l);
    }
    assert_eq!(RistLogLevel::Disable.to_raw(), RIST_LOG_DISABLE);
    assert_eq!(RistLogLevel::Debug.to_raw(), RIST_LOG_DEBUG);
    assert_eq!(RistLogLevel::Simulate.to_raw(), RIST_LOG_SIMULATE);
    assert_eq!(RistLogLevel::try_from_raw(42).unwrap_err().message, "Unknown rist_log_level variant");
    assert_eq!(RistLogLevel::default(), RistLogLevel::Disable);
}

#[test]
fn importance_order() {
    assert!(RistLogLevel::Debug.is_important_than_or_equal_to(&RistLogLevel::Error));
    assert!(!RistLogLevel::Error.is_important_than_or_equal_to(&RistLogLevel::Debug));
    for (i, a) in ALL.iter().enumerate() {
        for (j, b) in ALL.iter().enumerate() {
            assert_eq!(a.is_important_than_or_equal_to(b), i >= j);
        }
    }
    assert_eq!(RistLogLevel::Notice.name(), "Notice");
}

#[test]
fn profiles_have_c_values() {
    assert_eq!(RistProfile::Simple.to_raw(), 0);
    assert_eq!(RistProfile::Main.to_raw(), 1);
    assert_eq!(RistProfile::Advanced.to_raw(), 2);
}

#[test]
fn stderr_logger_filters_by_level() {
    let logger = RistStderrCallBackLogger::new(RistLogLevel::Info);
    assert_eq!(logger.line_for(&RistLogLevel::Warn, "careful").as_deref(), Some("[Warn] careful"));
    assert_eq!(logger.line_for(&RistLogLevel::Debug, "noise"), None);
}

#[test]
fn log_callbacks_are_dispatched() {
    assert!(matches!(
        dispatch_log_callback(false, 3, CallbackMessage::Text),
        LogDispatch::MalformedGlobal(RistCallBackLoggerError::InvalidPointer(e)) if e.message == "Invalid pointer for `arg` in log_cb."
    ));
    assert!(matches!(
        dispatch_log_callback(true, 42, CallbackMessage::Text),
        LogDispatch::Malformed(RistCallBackLoggerError::UnknownEnumVariant(_))
    ));
    assert!(matches!(
        dispatch_log_callback(true, 3, CallbackMessage::Missing),
        LogDispatch::Malformed(RistCallBackLoggerError::InvalidPointer(e)) if e.message == "Invalid pointer for `msg` in log_cb."
    ));
    let bad = std::str::from_utf8(&[0xff]).unwrap_err();
    assert!(matches!(
        dispatch_log_callback(true, 3, CallbackMessage::NotUtf8(bad)),
        LogDispatch::Malformed(RistCallBackLoggerError::Utf8Error(_))
    ));
    assert!(matches!(dispatch_log_callback(true, 6, CallbackMessage::Text), LogDispatch::Call(RistLogLevel::Info)));
    assert_eq!(callback_status(&Ok(())), 0);
    assert_eq!(callback_status(&Err(RistCallBackLoggerUserCBFailedError {})), 1);
}

#[test]
fn logging_settings_builder() {
    let b: RistLoggingSettingsBuilder<RistStderrCallBackLogger> = RistLoggingSettingsBuilder::default();
    assert_eq!(b.raw_log_level(), RIST_LOG_DISABLE);
    assert!(!b.logger.has_callback());
    let with = RistLoggingSettingsBuilder {
        log_level: RistLogLevel::Debug,
        logger: RistLoggerBuilder::CallBack(std::sync::Arc::new(RistStderrCallBackLogger::new(RistLogLevel::Debug))),
    };
    assert!(with.clone().logger.has_callback());
    assert_eq!(with.raw_log_level(), RIST_LOG_DEBUG);
}
