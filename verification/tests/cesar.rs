use cyphers::algorithm::AlgorithmStrategy;
use cyphers::cesar::Cesar;

#[test]
fn cesar_encrypt_simple() {
    let cesar = Cesar { key: 1 };
    let message = String::from("A");
    let expected_cypher = String::from("B");
    let cypher = cesar
        .encrypt(&message)
        .expect("Test message should be alphanumeric");
    assert_eq!(cypher, expected_cypher);
}

#[test]
fn encrypt_upper() {
    let cesar = Cesar { key: 10 };
    let message = String::from("TESTE");
    let expected_cypher = String::from("dOcdO");
    let cypher = cesar
        .encrypt(&message)
        .expect("Test message should be alphanumeric");
    assert_eq!(cypher, expected_cypher);
}

#[test]
fn encrypt_lower() {
    let cesar = Cesar { key: 10 };
    let message = String::from("teste");
    let expected_cypher = String::from("3o23o");
    let cypher = cesar
        .encrypt(&message)
        .expect("Test message should be alphanumeric");
    assert_eq!(cypher, expected_cypher);
}

#[test]
fn encrypt_num() {
    let cesar = Cesar { key: 10 };
    let message = String::from("12345");
    let expected_cypher = String::from("BCDEF");
    let cypher = cesar
        .encrypt(&message)
        .expect("Test message should be alphanumeric");
    assert_eq!(cypher, expected_cypher);
}

#[test]
fn encrypt_diacritics() {
    let cesar = Cesar { key: 10 };
    let message = String::from("TÉÑçá");
    let expected_cypher = String::from("dOXmk");
    let cypher = cesar
        .encrypt(&message)
        .expect("Test message should be alphanumeric");
    assert_eq!(cypher, expected_cypher);
}

#[test]
fn encrypt_whitespaces() {
    let cesar = Cesar { key: 10 };
    let message = String::from("12345 TÉÑçá teste");
    let expected_cypher = String::from("BCDEF dOXmk 3o23o");
    let cypher = cesar
        .encrypt(&message)
        .expect("Test message should be alphanumeric");
    assert_eq!(cypher, expected_cypher);
}

#[test]
fn encrypt_highend() {
    let cesar = Cesar { key: 10 };
    let message = String::from("vwxyz");
    let expected_cypher = String::from("56789");
    let cypher = cesar
        .encrypt(&message)
        .expect("Test message should be alphanumeric");
    assert_eq!(cypher, expected_cypher);
}

#[test]
fn cesar_decrypt_simple() {
    let cesar = Cesar { key: 1 };
    let cypher = String::from("B");
    let expected_message = String::from("A");
    let message = cesar
        .decrypt(&cypher)
        .expect("Test message should be alphanumeric");
    assert_eq!(message, expected_message);
}

#[test]
fn decrypt_upper() {
    let cesar = Cesar { key: 10 };
    let cypher = String::from("dOcdO");
    let expected_message = String::from("TESTE");
    let message = cesar
        .decrypt(&cypher)
        .expect("Test message should be alphanumeric");
    assert_eq!(message, expected_message);
}

#[test]
fn decrypt_lower() {
    let cesar = Cesar { key: 10 };
    let cypher = String::from("3o23o");
    let expected_message = String::from("teste");
    let message = cesar
        .decrypt(&cypher)
        .expect("Test message should be alphanumeric");
    assert_eq!(message, expected_message);
}

#[test]
fn decrypt_num() {
    let cesar = Cesar { key: 10 };
    let cypher = String::from("BCDEF");
    let expected_message = String::from("12345");
    let message = cesar
        .decrypt(&cypher)
        .expect("Test message should be alphanumeric");
    assert_eq!(message, expected_message);
}

#[test]
fn decrypt_diacritics() {
    let cesar = Cesar { key: 10 };
    let cypher = String::from("dOXmk");
    let expected_message = String::from("TENca");
    let message = cesar
        .decrypt(&cypher)
        .expect("Test message should be alphanumeric");
    assert_eq!(message, expected_message);
}

#[test]
fn decrypt_whitespaces() {
    let cesar = Cesar { key: 10 };
    let cypher = String::from("BCDEF dOXmk 3o23o");
    let expected_message = String::from("12345 TENca teste");
    let message = cesar
        .decrypt(&cypher)
        .expect("Test message should be alphanumeric");
    assert_eq!(message, expected_message);
}

#[test]
fn decrypt_highend() {
    let cesar = Cesar { key: 10 };
    let cypher = String::from("56789");
    let expected_message = String::from("vwxyz");
    let message = cesar
        .decrypt(&cypher)
        .expect("Test message should be alphanumeric");
    assert_eq!(message, expected_message);
}

#[test]
fn a() {
    let cesar = Cesar { key: 12 };
    let cypher = String::from("00000");
    let expected_message = String::from("ooooo");
    let message = cesar
        .decrypt(&cypher)
        .expect("Test message should be alphanumeric");
    assert_eq!(message, expected_message);
}

#[test]
fn shift_five_symbols_by_one() {
    let cesar = Cesar { key: 1 };
    let cypher = cesar.encrypt("ABCDE").expect("alphanumeric");
    assert_eq!(cypher, "BCDEF");
    let message = cesar.decrypt("BCDEF").expect("alphanumeric");
    assert_eq!(message, "ABCDE");
}

#[test]
fn round_trip_all_keys() {
    let message = "The 62 symbols: 09AZaz, punctuation stays!";
    for key in 0u8..=61 {
        let cesar = Cesar { key };
        let cypher = cesar.encrypt(message).expect("alphanumeric");
        let back = cesar.decrypt(&cypher).expect("alphanumeric");
        assert_eq!(back, message);
    }
}

#[test]
fn key_wraps_around_the_ring() {
    let full_turn = Cesar { key: 62 };
    assert_eq!(full_turn.encrypt("Az9").expect("alphanumeric"), "Az9");
    let one_past = Cesar { key: 63 };
    assert_eq!(one_past.encrypt("A").expect("alphanumeric"), "B");
    let largest = Cesar { key: 255 };
    let cypher = largest.encrypt("hello").expect("alphanumeric");
    let back = largest.decrypt(&cypher).expect("alphanumeric");
    assert_eq!(back, "hello");
}

#[test]
fn punctuation_keeps_its_positions() {
    let cesar = Cesar { key: 33 };
    let message = "a b,c.d!e?";
    let cypher = cesar.encrypt(message).expect("alphanumeric");
    let plain: Vec<char> = message.chars().collect();
    let enc: Vec<char> = cypher.chars().collect();
    assert_eq!(plain.len(), enc.len());
    for i in [1usize, 3, 5, 7, 9] {
        assert_eq!(plain[i], enc[i]);
    }
    for i in [0usize, 2, 4, 6, 8] {
        assert_ne!(plain[i], enc[i]);
    }
}
