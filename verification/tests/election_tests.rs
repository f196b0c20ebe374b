use transciphering::election::{decrypt_and_find_winner, encrypt_vote_vector, homomorphic_tally};
use transciphering::he::HomomorphicEncryption;
use transciphering::models::Candidate;
use transciphering::tfhe_uint::TfheU32;

fn candidates() -> Vec<Candidate> {
    vec![
        Candidate { id: 1, label: String::from("Alice") },
        Candidate { id: 2, label: String::from("Bob") },
        Candidate { id: 3, label: String::from("Carol") },
    ]
}

#[test]
fn test_vote_tally_scenario() {
    let (client_key, _server_key) = TfheU32::keygen().unwrap();
    let cands = candidates();

    let ballots = vec![
        encrypt_vote_vector(&cands, 2, &client_key),
        encrypt_vote_vector(&cands, 2, &client_key),
        encrypt_vote_vector(&cands, 3, &client_key),
    ];

    let totals = homomorphic_tally(&ballots);
    assert_eq!(totals.len(), 3);

    let (winner_label, winner_id, plain_totals) =
        decrypt_and_find_winner(&totals, &cands, &client_key);

    assert_eq!(winner_label, "Bob");
    assert_eq!(winner_id, 2);
    assert_eq!(
        plain_totals,
        vec![
            (String::from("Alice"), 0),
            (String::from("Bob"), 2),
            (String::from("Carol"), 1),
        ]
    );
}

#[test]
fn test_vote_for_unknown_candidate_counts_nowhere() {
    let (client_key, _server_key) = TfheU32::keygen().unwrap();
    let cands = candidates();

    let ballot = encrypt_vote_vector(&cands, 99, &client_key);
    for word in &ballot {
        assert_eq!(TfheU32::decrypt(&client_key, word).unwrap(), 0);
    }
}

#[test]
fn test_tie_goes_to_the_later_candidate() {
    let (client_key, _server_key) = TfheU32::keygen().unwrap();
    let cands = candidates();

    let ballots = vec![
        encrypt_vote_vector(&cands, 1, &client_key),
        encrypt_vote_vector(&cands, 3, &client_key),
    ];

    let totals = homomorphic_tally(&ballots);
    let (winner_label, winner_id, _plain) = decrypt_and_find_winner(&totals, &cands, &client_key);

    assert_eq!(winner_label, "Carol");
    assert_eq!(winner_id, 3);
}
