use struart::error::StruartError;
use struart::settings::{
    DeviceSettings, CHUNK_SIZE, DEFAULT_BAUD_RATE, DEFAULT_DEVICE, READ_TIMEOUT_MS,
    WRITE_TIMEOUT_MS,
};

#[test]
fn default_settings_name_the_usual_device() {
    let settings = DeviceSettings::default();
    assert_eq!(settings.device, "/dev/ttyUSB0");
    assert_eq!(settings.baud_rate, 115200);
    assert_eq!(settings.read_timeout_ms, 100);
    assert_eq!(settings.write_timeout_ms, 1000);
}

#[test]
fn constants_have_their_documented_values() {
    assert_eq!(DEFAULT_DEVICE, "/dev/ttyUSB0");
    assert_eq!(DEFAULT_BAUD_RATE, 115200);
    assert_eq!(READ_TIMEOUT_MS, 100);
    assert_eq!(WRITE_TIMEOUT_MS, 1000);
    assert_eq!(CHUNK_SIZE, 256);
}

#[test]
fn explicit_settings_keep_device_and_speed() {
    let settings = DeviceSettings::new("/dev/ttyACM3", 9600);
    assert_eq!(settings.device, "/dev/ttyACM3");
    assert_eq!(settings.baud_rate, 9600);
    assert_eq!(settings.read_timeout_ms, 100);
    assert_eq!(settings.write_timeout_ms, 1000);
}

#[test]
fn device_failure_becomes_an_io_error() {
    let cause = std::io::Error::new(std::io::ErrorKind::TimedOut, "write timed out");
    let error = StruartError::from(cause);
    match error {
        StruartError::IO(inner) => {
            assert_eq!(inner.kind(), std::io::ErrorKind::TimedOut);
            assert_eq!(inner.to_string(), "write timed out");
        }
        StruartError::RwLockPoisoned => panic!("a device failure is not a poisoned lock"),
    }
}

#[test]
fn opening_a_device_that_is_not_there_is_an_io_error() {
    let settings = DeviceSettings::new("/nonexistent/struart-no-such-device", 115200);
    let opened = serial2::SerialPort::open(&settings.device, settings.baud_rate);
    let error = match opened {
        Ok(_) => panic!("the device should not exist"),
        Err(cause) => StruartError::from(cause),
    };
    assert!(matches!(error, StruartError::IO(_)));
}

#[test]
fn poisoned_lock_becomes_its_own_error() {
    let error = StruartError::from(std::sync::PoisonError::new(7u8));
    assert!(matches!(error, StruartError::RwLockPoisoned));

    let lock = std::sync::RwLock::new(Vec::<u8>::new());
    let guard = lock.write().unwrap();
    let error = StruartError::from(std::sync::PoisonError::new(guard));
    assert!(matches!(error, StruartError::RwLockPoisoned));
    assert!(lock.read().is_ok());
}

#[test]
fn messages_say_what_went_wrong() {
    assert_eq!(StruartError::RwLockPoisoned.message(), "RwLock was Poisoned");

    let cause = std::io::Error::new(std::io::ErrorKind::NotFound, "no such device");
    assert_eq!(StruartError::from(cause).message(), "no such device");
}
