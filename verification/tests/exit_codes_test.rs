use dialog_core::exit_codes::{
    exit_message, BUTTON1, BUTTON2, EXIT_NOW, FILE_NOT_FOUND, IMAGE_NOT_FOUND, INFO_BUTTON,
    INVALID_COLOUR, KEY_AUTH_REQUIRED, QUIT_COMMAND, QUIT_KEY, SIGTERM, TIMEOUT, TIMER,
    WINDOW_CLOSE,
};

#[test]
fn codes_match_upstream() {
    assert_eq!(BUTTON1, 0);
    assert_eq!(BUTTON2, 2);
    assert_eq!(INFO_BUTTON, 3);
    assert_eq!(TIMER, 4);
    assert_eq!(QUIT_COMMAND, 5);
    assert_eq!(QUIT_KEY, 10);
    assert_eq!(WINDOW_CLOSE, 15);
    assert_eq!(TIMEOUT, 20);
    assert_eq!(KEY_AUTH_REQUIRED, 30);
    assert_eq!(SIGTERM, 40);
    assert_eq!(IMAGE_NOT_FOUND, 201);
    assert_eq!(FILE_NOT_FOUND, 202);
    assert_eq!(INVALID_COLOUR, 203);
    assert_eq!(EXIT_NOW, 255);
}

#[test]
fn messages_match_upstream() {
    assert_eq!(exit_message(FILE_NOT_FOUND), Some("ERROR: File not found :"));
    assert_eq!(exit_message(BUTTON1), None);
}

#[test]
fn every_message_bearing_code() {
    assert_eq!(exit_message(TIMEOUT), Some("Timeout Exceeded"));
    assert_eq!(exit_message(KEY_AUTH_REQUIRED), Some("Key authorisation required"));
    assert_eq!(exit_message(IMAGE_NOT_FOUND), Some("ERROR: Image resource cannot be found :"));
    assert_eq!(
        exit_message(INVALID_COLOUR),
        Some("ERROR: Invalid Colour Value Specified. Use format #000000 :")
    );
    assert_eq!(exit_message(SIGTERM), None);
}
