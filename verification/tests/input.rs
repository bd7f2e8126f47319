use base64::engine::general_purpose::STANDARD;
use base64::Engine;
use fints::input::{
    detect_input, log_filter, read_base64, read_hex, read_message_input, verbosity, InputOutcome,
    VerbosityLevel,
};

fn data(outcome: InputOutcome) -> Vec<u8> {
    match outcome {
        InputOutcome::Data(data) => data,
        other => panic!("{:?}", other),
    }
}

fn failure(outcome: InputOutcome) -> String {
    match outcome {
        InputOutcome::Fail(message) => message,
        other => panic!("{:?}", other),
    }
}

#[test]
fn hexadecimal_messages() {
    assert_eq!(data(read_hex("484E 4842\n4B")), b"HNHBK");
    assert_eq!(data(read_hex("48 4e 4")), b"HN");
    assert_eq!(data(read_hex("")), b"");
    assert_eq!(data(read_hex("f")), b"");
    assert_eq!(data(read_hex("+fFF")), [0x0F, 0xFF]);
    assert_eq!(
        failure(read_hex("48zz")),
        "Invalid hex at position 2: invalid digit found in string"
    );
}

#[test]
fn hexadecimal_pairs_agree_with_from_str_radix() {
    let chars = ['0', '9', 'a', 'f', 'g', 'A', 'F', 'G', '+', '-', '/', ':', '@', '`'];
    for a in chars {
        for b in chars {
            let pair = format!("{}{}", a, b);
            match u8::from_str_radix(&pair, 16) {
                Ok(v) => assert_eq!(data(read_hex(&pair)), [v], "{}", pair),
                Err(e) => assert_eq!(
                    failure(read_hex(&pair)),
                    format!("Invalid hex at position 0: {}", e)
                ),
            }
        }
    }
}

#[test]
fn characters_that_a_pair_of_bytes_tears() {
    assert_eq!(
        failure(read_hex("41ä")),
        "Invalid hex at position 2: invalid digit found in string"
    );
    assert!(matches!(read_hex("4ä1"), InputOutcome::TornCharacter));
    assert!(matches!(read_hex("41€"), InputOutcome::TornCharacter));
    assert_eq!(
        failure(read_hex("zz4ä")),
        "Invalid hex at position 0: invalid digit found in string"
    );
}

#[test]
fn base64_messages() {
    let message = b"HNHBK:1:3+000000000125+300+0+1'";
    let text = STANDARD.encode(message);
    assert_eq!(data(read_base64(&text)), message);
    let broken = format!("{}\r\n{} ", &text[..7], &text[7..]);
    assert_eq!(data(read_base64(&broken)), message);
    assert_eq!(failure(read_base64("QUI")), "Base64 decode error: Invalid padding");
    assert_eq!(failure(read_base64("QUJ=")), "Base64 decode error: Invalid last symbol 74, offset 2.");
    assert_eq!(failure(read_base64("QQ=A")), "Base64 decode error: Invalid symbol 61, offset 2.");
}

#[test]
fn every_text_of_four_characters_is_decoded_as_the_crate_does() {
    let alphabet = ['A', 'B', 'Q', 'w', '8', '/', '+', '=', '-', '\u{e4}'];
    for a in alphabet {
        for b in alphabet {
            for c in alphabet {
                for d in alphabet {
                    let text: String = [a, b, c, d].iter().collect();
                    match STANDARD.decode(&text) {
                        Ok(bytes) => {
                            assert_eq!(STANDARD.encode(&bytes), text);
                            assert_eq!(data(read_base64(&text)), bytes);
                        }
                        Err(e) => assert_eq!(
                            failure(read_base64(&text)),
                            format!("Base64 decode error: {}", e)
                        ),
                    }
                }
            }
        }
    }
}

#[test]
fn messages_of_any_form() {
    let plain = b"HNHBK:1:3+000000000125+300+0+1'".to_vec();
    let text = STANDARD.encode(&plain);
    assert_eq!(data(read_message_input(plain.clone(), false, false)), plain);
    assert_eq!(data(read_message_input(text.clone().into_bytes(), false, false)), plain);
    assert_eq!(data(read_message_input(text.into_bytes(), false, true)), plain);
    assert_eq!(data(read_message_input(b"484e".to_vec(), true, true)), b"HN");
    assert_eq!(data(read_message_input(b"HNAA".to_vec(), false, false)), b"HNAA");
    assert_eq!(data(read_message_input(b"QUI".to_vec(), false, false)), b"QUI");
    assert_eq!(data(read_message_input(Vec::new(), false, false)), b"");
    assert_eq!(data(read_message_input(vec![0xFF, 0x41], false, false)), [0xFF, 0x41]);
    assert_eq!(detect_input("QU\nJD", vec![1]), b"ABC");
    assert_eq!(detect_input("QU!JD", vec![1]), [1]);
}

#[test]
fn invalid_utf8_in_digits() {
    assert!(matches!(
        read_message_input(vec![0x34, 0x31, 0xFF, 0xFF], true, false),
        InputOutcome::TornCharacter
    ));
    assert_eq!(
        failure(read_message_input(vec![0x41, 0xFF], false, true)),
        "Base64 decode error: Invalid symbol 239, offset 1."
    );
}

#[test]
fn how_much_is_shown() {
    assert_eq!(verbosity(true, true), VerbosityLevel::Full);
    assert_eq!(verbosity(false, true), VerbosityLevel::Segments);
    assert_eq!(verbosity(false, false), VerbosityLevel::Minimal);
    assert_eq!(log_filter(true, false), "fints=debug");
    assert_eq!(log_filter(false, true), "fints=info");
    assert_eq!(log_filter(false, false), "fints=warn");
}
