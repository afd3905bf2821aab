use ske_rs::console::format_console_line;
use ske_rs::controller::prepare_config_path;
use ske_rs::controller::Controller;
use ske_rs::errors::SkeError;

#[test]
fn fresh_controller_emits_nothing() {
    let controller = Controller::new();
    assert!(!controller.is_configured());
    assert!(!controller.is_published());
    assert_eq!(controller.partition_count(), 0);
    let name = b"P1".to_vec();
    let message = b"should not appear".to_vec();
    assert_eq!(controller.console_event(&name, &message), None);
}

#[test]
fn configure_records_partition_count() {
    let mut controller = Controller::new();
    controller.complete_configure(4);
    assert!(controller.is_configured());
    assert!(controller.is_published());
    assert_eq!(controller.partition_count(), 4);
}

#[test]
fn reconfigure_keeps_attribution() {
    let name = b"P1".to_vec();
    let message = b"tick".to_vec();

    let mut once = Controller::new();
    once.complete_configure(2);
    let first = once.console_event(&name, &message);

    once.complete_configure(2);
    let second = once.console_event(&name, &message);

    assert_eq!(first, second);
    assert_eq!(first, Some(format_console_line(&name, &message)));
    assert_eq!(second, Some(b"P1: tick".to_vec()));
}

#[test]
fn failed_configure_publishes_nothing() {
    let controller = Controller::new();
    let path = b"missing/module.xml".to_vec();
    assert_eq!(prepare_config_path(false, &path), Err(SkeError::NotFound));
    // The registry was never written, so a simulated callback stays silent.
    let name = b"P1".to_vec();
    let message = b"late output".to_vec();
    assert_eq!(controller.console_event(&name, &message), None);
}

#[test]
fn nul_in_path_is_an_encoding_error() {
    let mut path = b"module".to_vec();
    path.push(0);
    path.extend_from_slice(b".xml");
    assert_eq!(prepare_config_path(true, &path), Err(SkeError::EncodingError));
}

#[test]
fn good_path_gains_a_terminator() {
    let path = b"module.xml".to_vec();
    let encoded = prepare_config_path(true, &path).unwrap();
    let mut expected = path.clone();
    expected.push(0);
    assert_eq!(encoded, expected);
}

#[test]
fn error_descriptions_name_each_class() {
    assert_eq!(
        SkeError::IoError.describe(),
        "failed to prepare the kernel library file"
    );
    assert_eq!(
        SkeError::LoadError.describe(),
        "the kernel library could not be loaded"
    );
    assert_eq!(
        SkeError::NotFound.describe(),
        "the configuration file does not exist"
    );
    assert_eq!(
        SkeError::EncodingError.describe(),
        "the configuration path cannot be encoded"
    );
}
