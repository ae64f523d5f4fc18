use edge_actors::options::LogLevel;
use edge_actors::options::LogfileRequestPluginOpt;

#[test]
fn options_default_to_the_usual_configuration_directory() {
    let options = LogfileRequestPluginOpt::default();
    assert!(!options.debug);
    assert!(!options.init);
    assert_eq!(options.config_dir, "/etc/tedge");
}

#[test]
fn debug_reports_everything() {
    let mut options = LogfileRequestPluginOpt::default();
    assert_eq!(options.log_level(LogLevel::Warn), LogLevel::Warn);
    assert_eq!(options.log_level(LogLevel::Info), LogLevel::Info);
    options.debug = true;
    assert_eq!(options.log_level(LogLevel::Warn), LogLevel::Trace);
    assert_eq!(options.log_level(LogLevel::Error), LogLevel::Trace);
}
