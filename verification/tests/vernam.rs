use cyphers::algorithm::AlgorithmStrategy;
use cyphers::errors::CipherError;
use cyphers::utils::generate_vernam_key;
use cyphers::vernam::Vernam;

#[test]
fn vernam_encrypt_simple() {
    let vernam = Vernam {
        key: vec![b'1', b'2', b'3', b'4', b'5'],
    };
    let message = String::from("ABCDE");
    let expected_cypher = String::from("BDFHJ");
    let cypher = vernam
        .encrypt(&message)
        .expect("Test message should be alphanumeric");
    assert_eq!(cypher, expected_cypher);
}

#[test]
fn encrypt() {
    let vernam = Vernam {
        key: vec![b'a', b'b', b'c', b'6', b'9'],
    };
    let message = String::from("HELLO");
    let expected_cypher = String::from("rpxRX");
    let cypher = vernam
        .encrypt(&message)
        .expect("Test message should be alphanumeric");
    assert_eq!(cypher, expected_cypher);
}

#[test]
fn vernam_decrypt_simple() {
    let vernam = Vernam {
        key: vec![b'1', b'2', b'3', b'4', b'5'],
    };
    let cypher = String::from("BDFHJ");
    let expected_message = String::from("ABCDE");
    let message = vernam
        .decrypt(&cypher)
        .expect("Test message should be alphanumeric");
    assert_eq!(message, expected_message);
}

#[test]
fn decrypt() {
    let vernam = Vernam {
        key: vec![b'a', b'b', b'c', b'6', b'9'],
    };
    let cypher = String::from("rpxRX");
    let expected_message = String::from("HELLO");
    let message = vernam
        .decrypt(&cypher)
        .expect("Test message should be alphanumeric");
    assert_eq!(message, expected_message);
}

#[test]
fn short_key_is_rejected_with_both_lengths() {
    let vernam = Vernam {
        key: vec![b'a', b'b'],
    };
    let err = vernam.encrypt("HELLO").unwrap_err();
    assert_eq!(
        err,
        CipherError::KeyTooShort {
            message_len: 5,
            key_len: 2
        }
    );
    let err = vernam.decrypt("HELLO").unwrap_err();
    assert_eq!(
        err,
        CipherError::KeyTooShort {
            message_len: 5,
            key_len: 2
        }
    );
}

#[test]
fn key_symbol_outside_the_alphabet_is_rejected() {
    let vernam = Vernam {
        key: vec![b'a', b'!', b'c', b'd', b'e'],
    };
    let err = vernam.encrypt("HELLO").unwrap_err();
    assert_eq!(err, CipherError::InvalidKeySymbol);
    let err = vernam.decrypt("HELLO").unwrap_err();
    assert_eq!(err, CipherError::InvalidKeySymbol);
}

#[test]
fn pad_round_trip_with_punctuation() {
    let message = "attack at dawn, 06:00!";
    let key: Vec<u8> = "PADKEYPADKEYPADKEYPADK".bytes().collect();
    assert_eq!(key.len(), message.len());
    let vernam = Vernam { key };
    let cypher = vernam.encrypt(message).expect("key covers the message");
    let back = vernam.decrypt(&cypher).expect("key covers the message");
    assert_eq!(back, message);
    let plain: Vec<char> = message.chars().collect();
    let enc: Vec<char> = cypher.chars().collect();
    assert_eq!(enc.len(), plain.len());
    for (i, c) in plain.iter().enumerate() {
        if !c.is_ascii_alphanumeric() {
            assert_eq!(enc[i], *c);
        }
    }
}

#[test]
fn generated_key_fits_and_round_trips() {
    let message = "a generated pad must cover the whole message";
    let key = generate_vernam_key(message.len());
    assert_eq!(key.len(), message.len());
    for b in &key {
        assert!(b.is_ascii_alphanumeric());
    }
    let vernam = Vernam { key };
    let cypher = vernam.encrypt(message).expect("key covers the message");
    let back = vernam.decrypt(&cypher).expect("key covers the message");
    assert_eq!(back, message);
}
