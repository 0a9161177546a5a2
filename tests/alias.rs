use nu_signature_core::alias::get_short;

#[test]
fn first_character_of_name_is_picked() {
    let mut taken = Vec::new();
    assert_eq!(get_short("loud", &mut taken), 'l');
    assert_eq!(taken, vec!['l']);
}

#[test]
fn taken_characters_are_skipped() {
    let mut taken = vec!['l'];
    assert_eq!(get_short("loud", &mut taken), 'o');
    assert_eq!(get_short("loud", &mut taken), 'u');
    assert_eq!(taken, vec!['l', 'o', 'u']);
}

#[test]
fn fallback_alphabet_follows_the_name() {
    let mut taken = vec!['a', 'b'];
    assert_eq!(get_short("ab", &mut taken), 'c');
}

#[test]
fn digits_come_last() {
    let mut taken: Vec<char> = ('a'..='z').chain('A'..='Z').collect();
    assert_eq!(get_short("x", &mut taken), '0');
}

#[test]
fn last_free_candidate_is_found() {
    let mut taken: Vec<char> = ('a'..='z').chain('A'..='Z').chain('0'..='8').collect();
    assert_eq!(get_short("name", &mut taken), '9');
    assert_eq!(taken.len(), 62);
}
