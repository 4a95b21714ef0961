use hello_actix::error::AuthError;
use hello_actix::master_key::{
    get_or_create_master_key, KeySource, MasterKey, MASTER_KEY_LENGTH,
};

const ZEROS: &str = "AAAAAAAAAAAAAAAAAAAAAAAAAAAAAAAAAAAAAAAAAAA";
const COUNTING: &str = "AAECAwQFBgcICQoLDA0ODxAREhMUFRYXGBkaGxwdHh8";

#[test]
fn key_length_is_that_of_aes_256() {
    assert_eq!(MASTER_KEY_LENGTH, 32);
}

#[test]
fn from_bytes_takes_exactly_32_bytes() {
    let key = MasterKey::from_bytes((0u8..32).collect()).unwrap();
    assert_eq!(key.as_bytes(), (0u8..32).collect::<Vec<u8>>().as_slice());
    assert_eq!(MasterKey::from_bytes(vec![0; 31]).err(), Some(AuthError::InvalidKeyLength));
    assert_eq!(MasterKey::from_bytes(vec![0; 33]).err(), Some(AuthError::InvalidKeyLength));
    assert_eq!(MasterKey::from_bytes(vec![]).err(), Some(AuthError::InvalidKeyLength));
}

#[test]
fn from_random_reports_a_failed_source() {
    assert_eq!(MasterKey::from_random(None).err(), Some(AuthError::RandomnessError));
    assert_eq!(
        MasterKey::from_random(Some(vec![1; 16])).err(),
        Some(AuthError::InvalidKeyLength)
    );
    assert_eq!(MasterKey::from_random(Some(vec![1; 32])).unwrap().as_bytes(), &[1u8; 32]);
}

#[test]
fn encode_gives_unpadded_base64() {
    assert_eq!(MasterKey::from_bytes(vec![0; 32]).unwrap().encode(), ZEROS);
    assert_eq!(MasterKey::from_bytes((0u8..32).collect()).unwrap().encode(), COUNTING);
}

#[test]
fn decode_reads_unpadded_base64() {
    let key = MasterKey::decode(COUNTING).unwrap();
    assert_eq!(key.as_bytes(), (0u8..32).collect::<Vec<u8>>().as_slice());
}

#[test]
fn decode_drops_surrounding_white_space() {
    let text = format!(" \t{}\r\n", COUNTING);
    let key = MasterKey::decode(&text).unwrap();
    assert_eq!(key.as_bytes(), (0u8..32).collect::<Vec<u8>>().as_slice());
    let wide = format!("\u{a0}\u{2003}{}\u{3000}\u{85}", COUNTING);
    assert_eq!(MasterKey::decode(&wide).unwrap().as_bytes(), key.as_bytes());
}

#[test]
fn decode_keeps_white_space_inside_the_text_as_an_error() {
    let text = format!("{} {}", &COUNTING[..10], &COUNTING[10..]);
    assert_eq!(MasterKey::decode(&text).err(), Some(AuthError::InvalidKeyLength));
}

#[test]
fn decode_rejects_a_key_of_another_length() {
    // 31 and 33 zero bytes.
    let short = &ZEROS[..42];
    assert_eq!(MasterKey::decode(short).err(), Some(AuthError::InvalidKeyLength));
    let long = format!("{}A", ZEROS);
    assert_eq!(MasterKey::decode(&long).err(), Some(AuthError::InvalidKeyLength));
    assert_eq!(MasterKey::decode("").err(), Some(AuthError::InvalidKeyLength));
}

#[test]
fn decode_rejects_text_that_is_no_base64() {
    assert_eq!(MasterKey::decode("*** no key ***").err(), Some(AuthError::InvalidKeyLength));
    let padded = format!("{}=", ZEROS);
    assert_eq!(MasterKey::decode(&padded).err(), Some(AuthError::InvalidKeyLength));
}

#[test]
fn decode_rejects_unused_bits_that_are_set() {
    // The last character of a key text carries two unused bits.
    let loose = format!("{}B", &ZEROS[..42]);
    assert_eq!(MasterKey::decode(&loose).err(), Some(AuthError::InvalidKeyLength));
    let tight = format!("{}E", &ZEROS[..42]);
    let mut bytes = vec![0u8; 32];
    bytes[31] = 1;
    assert_eq!(MasterKey::decode(&tight).unwrap().as_bytes(), bytes.as_slice());
}

#[test]
fn decode_does_not_trim_what_is_no_white_space() {
    let zero_width = format!("\u{200b}{}", COUNTING);
    assert_eq!(MasterKey::decode(&zero_width).err(), Some(AuthError::InvalidKeyLength));
    let mongolian = format!("{}\u{180e}", COUNTING);
    assert_eq!(MasterKey::decode(&mongolian).err(), Some(AuthError::InvalidKeyLength));
}

#[test]
fn decode_trims_every_kind_of_white_space() {
    let spaces = [
        '\u{9}', '\u{a}', '\u{b}', '\u{c}', '\u{d}', '\u{20}', '\u{85}', '\u{a0}', '\u{1680}',
        '\u{2000}', '\u{2001}', '\u{2002}', '\u{2003}', '\u{2004}', '\u{2005}', '\u{2006}',
        '\u{2007}', '\u{2008}', '\u{2009}', '\u{200a}', '\u{2028}', '\u{2029}', '\u{202f}',
        '\u{205f}', '\u{3000}',
    ];
    for space in spaces {
        let text = format!("{}{}{}", space, COUNTING, space);
        assert!(MasterKey::decode(&text).is_ok());
    }
}

#[test]
fn generate_gives_a_key_of_full_length() {
    let key = MasterKey::generate().unwrap();
    assert_eq!(key.as_bytes().len(), 32);
    let other = MasterKey::generate().unwrap();
    assert_ne!(key.as_bytes(), other.as_bytes());
}

fn loaded(source: KeySource) -> MasterKey {
    match source {
        KeySource::Loaded(key) => key,
        KeySource::Created(_) => panic!("a persisted key was created anew"),
    }
}

#[test]
fn a_persisted_key_is_read_and_not_written() {
    let key = loaded(get_or_create_master_key(Some(COUNTING)).unwrap());
    assert_eq!(key.as_bytes(), (0u8..32).collect::<Vec<u8>>().as_slice());
}

#[test]
fn a_missing_key_is_created_and_found_again() {
    let pending = match get_or_create_master_key(None).unwrap() {
        KeySource::Created(pending) => pending,
        KeySource::Loaded(_) => panic!("a missing key was loaded"),
    };
    let text = pending.encoded().to_string();
    assert_eq!(text.len(), 43);
    let key = pending.persisted(true).unwrap();
    assert_eq!(key.encode(), text);
    let again = loaded(get_or_create_master_key(Some(&text)).unwrap());
    assert_eq!(again.as_bytes(), key.as_bytes());
}

#[test]
fn a_key_that_could_not_be_persisted_is_withheld() {
    let pending = match get_or_create_master_key(None).unwrap() {
        KeySource::Created(pending) => pending,
        KeySource::Loaded(_) => panic!("a missing key was loaded"),
    };
    assert_eq!(pending.persisted(false).err(), Some(AuthError::PersistenceError));
}

#[test]
fn a_corrupted_persisted_key_is_an_error() {
    assert_eq!(
        get_or_create_master_key(Some("AAAA")).err(),
        Some(AuthError::InvalidKeyLength)
    );
    assert_eq!(get_or_create_master_key(Some("?")).err(), Some(AuthError::InvalidKeyLength));
    assert_eq!(get_or_create_master_key(Some("")).err(), Some(AuthError::InvalidKeyLength));
}
