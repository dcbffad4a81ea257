use gimmewire::error::{KeyFault, KeyGenError, KeyStep};
use gimmewire::interface::Outcome;
use gimmewire::keys::{gen_keys, key_output, KeyGen, KEY_LENGTH};

fn sample_key(fill: char) -> String {
    let mut key: String = std::iter::repeat(fill).take(43).collect();
    key.push('=');
    key
}

fn written(text: &str) -> Outcome {
    Outcome::Exited { success: true, stdout: text.as_bytes().to_vec() }
}

fn gen_keys_from(genkey: Outcome, pubkey: Outcome) -> KeyGen {
    let waiting = gen_keys(&KeyGen::start(), genkey);
    gen_keys(&waiting, pubkey)
}

#[test]
fn generate_keys() {
    let state = gen_keys_from(
        written(&format!("{}\n", sample_key('a'))),
        written(&format!("{}\n", sample_key('B'))),
    );
    match state {
        KeyGen::Done { private_key, public_key } => {
            let (private, public) = (private_key, public_key);
            println!("{}", private.len());
            assert!(private.len() == 44 && public.len() == 44);
        }
        other => panic!("no keys: {:?}", other),
    }
}

#[test]
fn keys_are_given_out_trimmed() {
    let private = sample_key('p');
    let public = sample_key('q');
    let state = gen_keys_from(
        written(&format!("{}\n", private)),
        written(&format!("  {}\r\n", public)),
    );
    assert_eq!(state, KeyGen::Done { private_key: private, public_key: public });
}

#[test]
fn first_run_is_genkey_then_pubkey_is_fed_the_raw_output() {
    let start = KeyGen::start();
    let call = start.call().unwrap();
    assert_eq!(call.program, "/usr/bin/wg");
    assert_eq!(call.args, vec![String::from("genkey")]);
    assert_eq!(call.input, None);
    assert!(call.capture);

    let raw = format!("{}\n", sample_key('k'));
    let waiting = gen_keys(&start, written(&raw));
    assert_eq!(waiting, KeyGen::Public { private_output: raw.clone() });
    let call = waiting.call().unwrap();
    assert_eq!(call.program, "/usr/bin/wg");
    assert_eq!(call.args, vec![String::from("pubkey")]);
    assert_eq!(call.input, Some(raw));
    assert!(call.capture);
}

#[test]
fn finished_generation_waits_for_no_run() {
    let done = KeyGen::Done { private_key: sample_key('a'), public_key: sample_key('b') };
    assert_eq!(done.call(), None);
    let failed =
        KeyGen::Failed(KeyGenError { step: KeyStep::GenKey, fault: KeyFault::Unavailable });
    assert_eq!(failed.call(), None);
}

#[test]
fn finished_generation_stays_as_it_is() {
    let done = KeyGen::Done { private_key: sample_key('a'), public_key: sample_key('b') };
    assert_eq!(gen_keys(&done, Outcome::NotStarted), done);
    assert_eq!(gen_keys(&done, written("anything")), done);
    let failed =
        KeyGen::Failed(KeyGenError { step: KeyStep::PubKey, fault: KeyFault::NotText });
    assert_eq!(gen_keys(&failed, written(&sample_key('z'))), failed);
}

#[test]
fn genkey_that_cannot_be_started_fails() {
    assert_eq!(
        gen_keys(&KeyGen::start(), Outcome::NotStarted),
        KeyGen::Failed(KeyGenError { step: KeyStep::GenKey, fault: KeyFault::Unavailable })
    );
}

#[test]
fn genkey_that_cannot_be_waited_for_fails() {
    assert_eq!(
        gen_keys(&KeyGen::start(), Outcome::Interrupted),
        KeyGen::Failed(KeyGenError { step: KeyStep::GenKey, fault: KeyFault::Interrupted })
    );
}

#[test]
fn genkey_with_failure_status_fails() {
    let outcome =
        Outcome::Exited { success: false, stdout: sample_key('a').into_bytes() };
    assert_eq!(
        gen_keys(&KeyGen::start(), outcome),
        KeyGen::Failed(KeyGenError { step: KeyStep::GenKey, fault: KeyFault::Unsuccessful })
    );
}

#[test]
fn output_that_is_not_utf8_fails() {
    let mut bytes = sample_key('a').into_bytes();
    bytes[3] = 0xFF;
    let outcome = Outcome::Exited { success: true, stdout: bytes };
    assert_eq!(
        gen_keys(&KeyGen::start(), outcome),
        KeyGen::Failed(KeyGenError { step: KeyStep::GenKey, fault: KeyFault::NotText })
    );
}

#[test]
fn output_that_is_no_key_fails() {
    for text in ["", "\n", "short\n", "   \n"] {
        assert_eq!(
            gen_keys(&KeyGen::start(), written(text)),
            KeyGen::Failed(KeyGenError { step: KeyStep::GenKey, fault: KeyFault::NotAKey })
        );
    }
    let long = format!("{}x\n", sample_key('a'));
    assert_eq!(long.trim().len(), KEY_LENGTH + 1);
    assert_eq!(
        gen_keys(&KeyGen::start(), written(&long)),
        KeyGen::Failed(KeyGenError { step: KeyStep::GenKey, fault: KeyFault::NotAKey })
    );
}

#[test]
fn pubkey_failures_name_the_second_run() {
    let waiting = KeyGen::Public { private_output: format!("{}\n", sample_key('a')) };
    let faults = [
        (Outcome::NotStarted, KeyFault::Unavailable),
        (Outcome::Interrupted, KeyFault::Interrupted),
        (Outcome::Exited { success: false, stdout: Vec::new() }, KeyFault::Unsuccessful),
        (Outcome::Exited { success: true, stdout: vec![0xC3, 0x28] }, KeyFault::NotText),
        (written("not a key\n"), KeyFault::NotAKey),
    ];
    for (outcome, fault) in faults {
        assert_eq!(
            gen_keys(&waiting, outcome),
            KeyGen::Failed(KeyGenError { step: KeyStep::PubKey, fault })
        );
    }
}

#[test]
fn key_output_keeps_the_text_as_written() {
    let raw = format!(" {}\n", sample_key('m'));
    assert_eq!(key_output(written(&raw)), Ok(raw));
}

#[test]
fn output_that_is_not_ascii_is_no_key() {
    // 42 ASCII characters and two of two bytes each: 44 characters, 46 bytes
    let mut text: String = std::iter::repeat('a').take(42).collect();
    text.push('\u{e9}');
    text.push('\u{f8}');
    assert_eq!(text.chars().count(), 44);
    assert_eq!(text.len(), 46);
    assert_eq!(key_output(written(&text)), Err(KeyFault::NotAKey));
    // 40 ASCII characters and two of two bytes each: 42 characters, 44 bytes
    let mut text: String = std::iter::repeat('a').take(40).collect();
    text.push('\u{e9}');
    text.push('\u{f8}');
    assert_eq!(text.len(), 44);
    assert_eq!(key_output(written(&text)), Err(KeyFault::NotAKey));
}

#[test]
fn key_length_is_that_of_32_bytes_in_base64() {
    assert_eq!(KEY_LENGTH, 44);
    assert_eq!(KEY_LENGTH, (32 + 2) / 3 * 4);
}
