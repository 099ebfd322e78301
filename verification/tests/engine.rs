use aes::Aes128;
use block_modes::block_padding::NoPadding;
use block_modes::BlockMode;
use block_modes::Cbc;
use keysearch::ciphertext::Ciphertext;
use keysearch::engine::outcome_of;
use keysearch::engine::search;
use keysearch::engine::search_from;
use keysearch::engine::search_in;
use keysearch::engine::SearchError;
use keysearch::engine::SearchResult;
use keysearch::tester::KeyTester;

const RIGHT: &str = "000102030405060708090a0b0c0d0e0f";

fn hello_tester() -> KeyTester {
    let key: [u8; 16] = [0, 1, 2, 3, 4, 5, 6, 7, 8, 9, 10, 11, 12, 13, 14, 15];
    let mut data = *b"Hello, this is the plaintext of two blocks.....!";
    let cipher = Cbc::<Aes128, NoPadding>::new_var(&key, &[0u8; 16]).unwrap();
    cipher.encrypt(&mut data, 48).unwrap();
    let store = Ciphertext::from_bytes(&data);
    KeyTester::new(&store, vec![0x48, 0x65, 0x6c, 0x6c, 0x6f], None).unwrap()
}

fn wrong(n: u32) -> String {
    format!("{:032x}", 0xdead_0000_0000u64 + n as u64)
}

fn found(text: &str) -> Result<SearchResult, SearchError> {
    Ok(SearchResult::Found(text.to_string()))
}

#[test]
fn the_key_on_the_fourth_line_is_found() {
    let tester = hello_tester();
    let candidates = vec![wrong(1), wrong(2), wrong(3), RIGHT.to_string(), wrong(5), wrong(6)];
    let result = search(&tester, &candidates, None);
    assert_eq!(result, found(RIGHT));
    assert_eq!(result.unwrap().report(), Some(format!("Found: {}", RIGHT)));
}

#[test]
fn an_empty_source_is_exhausted_without_a_line() {
    let tester = hello_tester();
    let result = search(&tester, &Vec::new(), None);
    assert_eq!(result, Ok(SearchResult::Exhausted));
    assert_eq!(result.unwrap().report(), None);
}

#[test]
fn wrong_keys_alone_exhaust_the_source() {
    let tester = hello_tester();
    let candidates: Vec<String> = (0..500).map(wrong).collect();
    assert_eq!(search(&tester, &candidates, None), Ok(SearchResult::Exhausted));
    assert_eq!(search(&tester, &candidates, Some(1)), Ok(SearchResult::Exhausted));
}

#[test]
fn the_key_is_found_wherever_it_stands() {
    let tester = hello_tester();
    for position in [0usize, 1, 7, 63, 64, 199] {
        let mut candidates: Vec<String> = (0..200).map(wrong).collect();
        candidates[position] = RIGHT.to_string();
        assert_eq!(search(&tester, &candidates, Some(3)), found(RIGHT));
    }
}

#[test]
fn the_key_is_found_with_any_number_of_workers() {
    let tester = hello_tester();
    let mut candidates: Vec<String> = (0..300).map(wrong).collect();
    candidates[250] = RIGHT.to_string();
    for threads in 1..=8 {
        assert_eq!(search(&tester, &candidates, Some(threads)), found(RIGHT));
    }
    assert_eq!(search(&tester, &candidates, Some(usize::MAX)), found(RIGHT));
    assert_eq!(search(&tester, &candidates, Some(0)), found(RIGHT));
}

#[test]
fn the_key_alone_is_found() {
    let tester = hello_tester();
    assert_eq!(search(&tester, &vec![RIGHT.to_string()], Some(4)), found(RIGHT));
}

#[test]
fn the_text_found_is_the_text_of_the_source() {
    let tester = hello_tester();
    let spelled = "00:01:02:03:04:05:06:07:08:09:0A:0B:0C:0D:0E:0F";
    let candidates = vec![wrong(1), spelled.to_string(), wrong(2)];
    assert_eq!(search(&tester, &candidates, Some(2)), found(spelled));
}

#[test]
fn of_several_right_candidates_one_is_found() {
    let tester = hello_tester();
    let upper = RIGHT.to_uppercase();
    let mut candidates: Vec<String> = (0..100).map(wrong).collect();
    candidates[10] = RIGHT.to_string();
    candidates[90] = upper.clone();
    for threads in 1..=4 {
        match search(&tester, &candidates, Some(threads)) {
            Ok(SearchResult::Found(text)) => assert!(text == RIGHT || text == upper),
            other => panic!("nothing found: {:?}", other),
        }
    }
}

#[test]
fn the_same_key_twice_is_found_once() {
    let tester = hello_tester();
    let candidates = vec![RIGHT.to_string(), wrong(1), RIGHT.to_string()];
    assert_eq!(search(&tester, &candidates, Some(2)), found(RIGHT));
}

#[test]
fn malformed_lines_do_not_stop_the_search() {
    let tester = hello_tester();
    let candidates = vec![
        String::new(),
        "not a key".to_string(),
        "000102030405060708090a0b0c0d0e0".to_string(),
        "000102030405060708090a0b0c0d0e0f0".to_string(),
        "\u{1f511}\u{1f511}".to_string(),
        RIGHT.to_string(),
    ];
    assert_eq!(search(&tester, &candidates, Some(2)), found(RIGHT));
    let malformed: Vec<String> = candidates[..5].to_vec();
    assert_eq!(search(&tester, &malformed, Some(2)), Ok(SearchResult::Exhausted));
}

#[test]
fn a_search_in_a_pool_of_ones_own() {
    let tester = hello_tester();
    let pool = rayon::ThreadPoolBuilder::new().num_threads(2).build().unwrap();
    let mut candidates: Vec<String> = (0..50).map(wrong).collect();
    assert_eq!(search_in(&pool, &tester, &candidates), SearchResult::Exhausted);
    candidates.push(RIGHT.to_string());
    assert_eq!(search_in(&pool, &tester, &candidates), SearchResult::Found(RIGHT.to_string()));
    assert_eq!(search_in(&pool, &tester, &candidates), SearchResult::Found(RIGHT.to_string()));
}

#[test]
fn outcome_of_names_the_candidate_found() {
    let candidates = vec!["a".to_string(), "b".to_string(), "c".to_string()];
    assert_eq!(outcome_of(&candidates, Some(1)), SearchResult::Found("b".to_string()));
    assert_eq!(outcome_of(&candidates, Some(0)), SearchResult::Found("a".to_string()));
    assert_eq!(outcome_of(&candidates, None), SearchResult::Exhausted);
    assert_eq!(outcome_of(&Vec::new(), None), SearchResult::Exhausted);
}

#[test]
fn a_search_from_a_pool_that_started() {
    let tester = hello_tester();
    let mut candidates: Vec<String> = (0..50).map(wrong).collect();
    let started = rayon::ThreadPoolBuilder::new().num_threads(2).build();
    assert_eq!(search_from(started, &tester, &candidates), Ok(SearchResult::Exhausted));
    candidates[17] = RIGHT.to_string();
    let started = rayon::ThreadPoolBuilder::new().num_threads(2).build();
    assert_eq!(search_from(started, &tester, &candidates), found(RIGHT));
}

#[test]
fn a_pool_that_does_not_start_fails_the_search() {
    let tester = hello_tester();
    let candidates = vec![wrong(1), RIGHT.to_string()];
    let refused = rayon::ThreadPoolBuilder::new()
        .num_threads(2)
        .spawn_handler(|_| Err(std::io::Error::new(std::io::ErrorKind::Other, "no thread")))
        .build();
    assert!(refused.is_err());
    assert_eq!(search_from(refused, &tester, &candidates), Err(SearchError::PoolUnavailable));
}

#[test]
fn no_candidates_are_exhausted_whatever_is_asked_for() {
    let tester = hello_tester();
    for threads in [None, Some(0), Some(1), Some(7), Some(usize::MAX)] {
        assert_eq!(search(&tester, &Vec::new(), threads), Ok(SearchResult::Exhausted));
    }
}
