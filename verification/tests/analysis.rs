use cyphers::algorithm::AlgorithmStrategy;
use cyphers::cesar::Cesar;
use cyphers::cryptanalysis::Cryptanalysis;
use cyphers::errors::CipherError;
use cyphers::freq::portuguese_dict;

/// A text whose letters appear in exactly the reference proportions.
fn reference_shaped_text() -> String {
    let mut plain = String::new();
    for (c, n) in portuguese_dict() {
        for _ in 0..n {
            plain.push(c);
        }
    }
    plain
}

#[test]
fn reference_table_shape() {
    let dict = portuguese_dict();
    assert_eq!(dict.len(), 26);
    assert_eq!(dict[0], ('a', 1463));
    assert_eq!(dict[25], ('y', 1));
    for w in dict.windows(2) {
        assert!(w[0].1 >= w[1].1);
    }
    // The frequencies sum to roughly one (the source table carries a tiny
    // rounding surplus).
    let total: u32 = dict.iter().map(|e| e.1).sum();
    assert!(total >= 9990 && total <= 10010);
}

#[test]
fn no_alphabet_symbols_is_no_signal() {
    let analyser = Cryptanalysis::new();
    let err = analyser.analyse(".,;! ?-() \n\t").unwrap_err();
    assert_eq!(err, CipherError::NoSignal);
    let err = analyser.analyse("").unwrap_err();
    assert_eq!(err, CipherError::NoSignal);
}

#[test]
fn histogram_counts_every_symbol() {
    let analyser = Cryptanalysis::new();
    let report = analyser.analyse("aabbc?? z").expect("has alphabet symbols");
    assert_eq!(report.total, 6);
    assert_eq!(report.histogram.len(), 62);
    assert_eq!(report.histogram[36], 2); // 'a'
    assert_eq!(report.histogram[37], 2); // 'b'
    assert_eq!(report.histogram[38], 1); // 'c'
    assert_eq!(report.histogram[61], 1); // 'z'
    assert_eq!(report.histogram[0], 0); // '0'
    let counted: usize = report.histogram.iter().sum();
    assert_eq!(counted, report.total);
}

#[test]
fn ranking_orders_by_count_then_index() {
    let analyser = Cryptanalysis::new();
    let report = analyser.analyse("aabbc?? z").expect("has alphabet symbols");
    assert_eq!(report.ranking.len(), 62);
    // 'a' and 'b' tie at two occurrences: ascending index breaks the tie.
    assert_eq!(report.ranking[0], 36);
    assert_eq!(report.ranking[1], 37);
    // 'c' and 'z' tie at one occurrence.
    assert_eq!(report.ranking[2], 38);
    assert_eq!(report.ranking[3], 61);
    // Everything unseen follows in ascending index order.
    assert_eq!(report.ranking[4], 0);
    assert_eq!(report.ranking[5], 1);
}

#[test]
fn recovers_the_key_from_reference_shaped_text() {
    let plain = reference_shaped_text();
    assert!(plain.len() >= 500);
    let cesar = Cesar { key: 5 };
    let cypher = cesar.encrypt(&plain).expect("alphanumeric");
    let analyser = Cryptanalysis::new();
    let report = analyser.analyse(&cypher).expect("has alphabet symbols");
    assert_eq!(report.predicted_key, 5);
    assert_eq!(report.plaintext, plain);
}

#[test]
fn recovers_the_key_from_natural_text() {
    // Lowercase Portuguese prose, long enough for its letter frequencies to
    // come close to the reference table.
    let sentence = "a criptografia estuda os metodos para codificar uma \
mensagem de modo que so seu destinatario legitimo consiga interpretar o \
conteudo dessa mensagem e uma das tecnicas mais antigas e a cifra de cesar \
na qual cada letra do texto original e substituida pela letra que se \
encontra um numero fixo de posicoes adiante no alfabeto para decifrar o \
texto basta conhecer esse deslocamento e aplicar a operacao inversa a \
analise de frequencia explora o fato de que as letras de uma lingua \
natural aparecem com frequencias tipicas e estaveis ";
    let mut plain = String::new();
    while plain.len() < 2000 {
        plain.push_str(sentence);
    }
    let cesar = Cesar { key: 17 };
    let cypher = cesar.encrypt(&plain).expect("alphanumeric");
    let analyser = Cryptanalysis::new();
    let report = analyser.analyse(&cypher).expect("has alphabet symbols");
    assert_eq!(report.predicted_key, 17);
    assert_eq!(report.plaintext, plain);
}

#[test]
fn flat_ciphertext_has_no_dominant_shift() {
    // Every alphabet symbol equally often: the empirical histogram is
    // exactly flat, as a uniformly random ciphertext tends to.
    let alphabet = "0123456789ABCDEFGHIJKLMNOPQRSTUVWXYZabcdefghijklmnopqrstuvwxyz";
    let mut cypher = String::new();
    for _ in 0..100 {
        cypher.push_str(alphabet);
    }
    let analyser = Cryptanalysis::new();
    let report = analyser.analyse(&cypher).expect("has alphabet symbols");
    for d in 0..62 {
        assert_eq!(report.histogram[d], 100);
    }
    let total_votes: usize = report.votes.iter().sum();
    let max_votes: usize = *report.votes.iter().max().unwrap();
    // No shift may hold much more than the uniform share of the votes.
    assert!(max_votes * 62 < 5 * total_votes);
}

#[test]
fn analysis_is_deterministic() {
    let analyser = Cryptanalysis::new();
    let first = analyser.analyse("some ciphertext 123").expect("has symbols");
    let second = analyser.analyse("some ciphertext 123").expect("has symbols");
    assert_eq!(first.predicted_key, second.predicted_key);
    assert_eq!(first.plaintext, second.plaintext);
    assert_eq!(first.ranking, second.ranking);
    assert_eq!(first.votes, second.votes);
}
