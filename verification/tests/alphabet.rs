use cyphers::alphabet::roll;

#[test]
fn roll_moves_members() {
    assert_eq!(roll('A', 1), Some('B'));
    assert_eq!(roll('0', 10), Some('A'));
    assert_eq!(roll('Z', 1), Some('a'));
    assert_eq!(roll('z', 1), Some('0'));
    assert_eq!(roll('0', -1), Some('z'));
    assert_eq!(roll('a', 62), Some('a'));
    assert_eq!(roll('a', -62), Some('a'));
    assert_eq!(roll('a', 63), Some('b'));
}

#[test]
fn roll_passes_non_members_through() {
    assert_eq!(roll(' ', 5), None);
    assert_eq!(roll('!', 5), None);
    assert_eq!(roll('é', 5), None);
}

#[test]
fn shift_by_zero_fixes_every_member() {
    let alphabet = "0123456789ABCDEFGHIJKLMNOPQRSTUVWXYZabcdefghijklmnopqrstuvwxyz";
    for c in alphabet.chars() {
        assert_eq!(roll(c, 0), Some(c));
    }
}

#[test]
fn fixed_shift_never_collides() {
    let alphabet = "0123456789ABCDEFGHIJKLMNOPQRSTUVWXYZabcdefghijklmnopqrstuvwxyz";
    for amount in [1i32, 17, 61, -5] {
        let outputs: Vec<char> = alphabet.chars().map(|c| roll(c, amount).unwrap()).collect();
        for i in 0..outputs.len() {
            for j in (i + 1)..outputs.len() {
                assert_ne!(outputs[i], outputs[j]);
            }
        }
        // Every output is again an alphabet member, so the shift is a
        // bijection on the alphabet.
        for o in &outputs {
            assert!(o.is_ascii_alphanumeric());
        }
    }
}
