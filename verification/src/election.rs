//! The encrypted vote tally: building a ballot's encrypted 0/1 vector,
//! summing ballots homomorphically, and decrypting the totals to find the
//! winner.

use vstd::prelude::*;

use crate::chacha_tfhe::{all_under_key, ct_values};
use crate::he::HomomorphicEncryption;
use crate::keys::ClientKey;
use crate::models::Candidate;
use crate::tfhe_uint::{FheUint32, TfheU32};

verus! {

/// The per-row word values of a stack of encrypted rows.
pub open spec fn rows_values(ballots: Seq<Vec<FheUint32>>) -> Seq<Seq<u32>> {
    Seq::new(ballots.len(), |k: int| ct_values(ballots[k]@))
}

/// The sum modulo `2^32` of column `i` over the rows.
pub open spec fn col_sum(rows: Seq<Seq<u32>>, i: int) -> u32
    decreases rows.len(),
{
    if rows.len() == 0 {
        0
    } else {
        col_sum(rows.drop_last(), i).wrapping_add(rows.last()[i])
    }
}

/// Encrypt a ballot for `chosen_id`: one word per candidate, 1 for the
/// chosen candidate and 0 for every other.
pub fn encrypt_vote_vector(candidates: &Vec<Candidate>, chosen_id: u32, ck: &ClientKey) -> (r: Vec<
    FheUint32,
>)
    ensures
        r@.len() == candidates@.len(),
        all_under_key(r@, ck.id()),
        forall|i: int|
            0 <= i < r@.len() ==> r@[i].value() == (if candidates@[i].id == chosen_id {
                1u32
            } else {
                0u32
            }),
{
    let mut out: Vec<FheUint32> = Vec::new();
    let mut i: usize = 0;
    while i < candidates.len()
        invariant
            i <= candidates@.len(),
            out@.len() == i,
            all_under_key(out@, ck.id()),
            forall|j: int|
                0 <= j < i ==> out@[j].value() == (if candidates@[j].id == chosen_id {
                    1u32
                } else {
                    0u32
                }),
        decreases candidates@.len() - i,
    {
        let bit: u32 = if candidates[i].id == chosen_id {
            1
        } else {
            0
        };
        out.push(TfheU32::encrypt(ck, &bit).unwrap());
        i = i + 1;
    }
    out
}

/// Sum the ballots' encrypted vectors word-wise.  Every row must have the
/// same width and every word the same key; the caller checks both.
pub fn homomorphic_tally(ballots: &Vec<Vec<FheUint32>>) -> (r: Vec<FheUint32>)
    requires
        ballots@.len() > 0,
        forall|k: int|
            #![trigger ballots@[k]]
            0 <= k < ballots@.len() ==> ballots@[k]@.len() == ballots@[0]@.len(),
        forall|k: int, i: int|
            #![trigger ballots@[k]@[i]]
            0 <= k < ballots@.len() && 0 <= i < ballots@[0]@.len() ==> ballots@[k]@[i].key()
                == ballots@[0]@[0].key(),
    ensures
        r@.len() == ballots@[0]@.len(),
        forall|i: int| 0 <= i < r@.len() ==> r@[i].key() == ballots@[0]@[0].key(),
        forall|i: int| 0 <= i < r@.len() ==> r@[i].value() == col_sum(rows_values(ballots@), i),
{
    let cols: usize = ballots[0].len();
    let mut totals: Vec<FheUint32> = Vec::new();
    let mut i: usize = 0;
    while i < cols
        invariant
            i <= cols,
            ballots@.len() > 0,
            cols == ballots@[0]@.len(),
            totals@.len() == i,
            forall|j: int| 0 <= j < i ==> totals@[j] == ballots@[0]@[j],
        decreases cols - i,
    {
        totals.push(ballots[0][i]);
        i = i + 1;
    }
    proof {
        assert forall|j: int| 0 <= j < cols implies totals@[j].value() == col_sum(
            rows_values(ballots@).subrange(0, 1),
            j,
        ) by {
            let one = rows_values(ballots@).subrange(0, 1);
            assert(one.len() == 1);
            assert(one.drop_last() =~= Seq::<Seq<u32>>::empty());
            assert(col_sum(Seq::<Seq<u32>>::empty(), j) == 0);
            assert(col_sum(one, j) == col_sum(one.drop_last(), j).wrapping_add(one.last()[j]));
            assert(one.last() == rows_values(ballots@)[0]);
            assert(rows_values(ballots@)[0] == ct_values(ballots@[0]@));
            assert(one.last()[j] == ballots@[0]@[j].value());
            assert(col_sum(one, j) == (0u32).wrapping_add(ballots@[0]@[j].value()));
        }
    }
    let mut k: usize = 1;
    while k < ballots.len()
        invariant
            1 <= k <= ballots@.len(),
            cols == ballots@[0]@.len(),
            forall|t: int|
                #![trigger ballots@[t]]
                0 <= t < ballots@.len() ==> ballots@[t]@.len() == cols,
            forall|t: int, i2: int|
                #![trigger ballots@[t]@[i2]]
                0 <= t < ballots@.len() && 0 <= i2 < cols ==> ballots@[t]@[i2].key()
                    == ballots@[0]@[0].key(),
            totals@.len() == cols,
            forall|j: int| 0 <= j < cols ==> totals@[j].key() == ballots@[0]@[0].key(),
            forall|j: int|
                0 <= j < cols ==> totals@[j].value() == col_sum(
                    rows_values(ballots@).subrange(0, k as int),
                    j,
                ),
        decreases ballots@.len() - k,
    {
        let mut j: usize = 0;
        while j < cols
            invariant
                j <= cols,
                1 <= k < ballots@.len(),
                cols == ballots@[0]@.len(),
                forall|t: int|
                #![trigger ballots@[t]]
                0 <= t < ballots@.len() ==> ballots@[t]@.len() == cols,
                forall|t: int, i2: int|
                    #![trigger ballots@[t]@[i2]]
                    0 <= t < ballots@.len() && 0 <= i2 < cols ==> ballots@[t]@[i2].key()
                        == ballots@[0]@[0].key(),
                totals@.len() == cols,
                forall|t: int| 0 <= t < cols ==> totals@[t].key() == ballots@[0]@[0].key(),
                forall|t: int|
                    0 <= t < j ==> totals@[t].value() == col_sum(
                        rows_values(ballots@).subrange(0, k + 1),
                        t,
                    ),
                forall|t: int|
                    j <= t < cols ==> totals@[t].value() == col_sum(
                        rows_values(ballots@).subrange(0, k as int),
                        t,
                    ),
            decreases cols - j,
        {
            let ghost prev_val = totals@[j as int].value();
            totals[j] = TfheU32::add(&totals[j], &ballots[k][j]).unwrap();
            proof {
                let upto = rows_values(ballots@).subrange(0, k + 1);
                assert(upto.drop_last() =~= rows_values(ballots@).subrange(0, k as int));
                assert(upto.last() == rows_values(ballots@)[k as int]);
                assert(rows_values(ballots@)[k as int] == ct_values(ballots@[k as int]@));
                assert(upto.last()[j as int] == ballots@[k as int]@[j as int].value());
                assert(col_sum(upto, j as int) == col_sum(
                    rows_values(ballots@).subrange(0, k as int),
                    j as int,
                ).wrapping_add(ballots@[k as int]@[j as int].value()));
                assert(totals@[j as int].value() == prev_val.wrapping_add(
                    ballots@[k as int]@[j as int].value(),
                ));
                assert(totals@[j as int].value() == col_sum(upto, j as int));
            }
            j = j + 1;
        }
        k = k + 1;
    }
    proof {
        assert(rows_values(ballots@).subrange(0, ballots@.len() as int) =~= rows_values(
            ballots@,
        ));
    }
    totals
}

/// Decrypt the per-candidate totals and pick the winner: the candidate with
/// the highest count, the later one on a tie; the returned id is the first
/// candidate carrying the winning label.
pub fn decrypt_and_find_winner(
    totals: &Vec<FheUint32>,
    candidates: &Vec<Candidate>,
    client_key: &ClientKey,
) -> (r: (String, u32, Vec<(String, u32)>))
    requires
        totals@.len() == candidates@.len(),
        totals@.len() > 0,
        all_under_key(totals@, client_key.id()),
    ensures
        r.2@.len() == candidates@.len(),
        forall|i: int|
            0 <= i < r.2@.len() ==> r.2@[i].0@ == candidates@[i].label@ && r.2@[i].1
                == totals@[i].value(),
        exists|wi: int|
            {
                &&& 0 <= wi < candidates@.len()
                &&& r.0@ == candidates@[wi].label@
                &&& forall|t: int|
                    0 <= t < totals@.len() ==> totals@[t].value() <= totals@[wi].value()
                &&& forall|t: int| wi < t < totals@.len() ==> totals@[t].value() < totals@[
                    wi].value()
            },
        exists|fi: int|
            {
                &&& 0 <= fi < candidates@.len()
                &&& candidates@[fi].label@ == r.0@
                &&& r.1 == candidates@[fi].id
                &&& forall|t: int| 0 <= t < fi ==> candidates@[t].label@ != r.0@
            },
{
    let mut plain_totals: Vec<(String, u32)> = Vec::new();
    let mut i: usize = 0;
    while i < totals.len()
        invariant
            i <= totals@.len(),
            totals@.len() == candidates@.len(),
            all_under_key(totals@, client_key.id()),
            plain_totals@.len() == i,
            forall|j: int|
                0 <= j < i ==> plain_totals@[j].0@ == candidates@[j].label@ && plain_totals@[j].1
                    == totals@[j].value(),
        decreases totals@.len() - i,
    {
        let count = match TfheU32::decrypt(client_key, &totals[i]) {
            Ok(c) => c,
            Err(_) => {
                proof {
                    assert(false);
                }
                0
            },
        };
        plain_totals.push((candidates[i].label.clone(), count));
        i = i + 1;
    }

    let mut wi: usize = 0;
    let mut j: usize = 1;
    while j < totals.len()
        invariant
            1 <= j <= totals@.len(),
            wi < j,
            totals@.len() > 0,
            forall|t: int| 0 <= t < j ==> totals@[t].value() <= totals@[wi as int].value(),
            forall|t: int| wi < t < j ==> totals@[t].value() < totals@[wi as int].value(),
            all_under_key(totals@, client_key.id()),
        decreases totals@.len() - j,
    {
        let current = match TfheU32::decrypt(client_key, &totals[j]) {
            Ok(c) => c,
            Err(_) => {
                proof {
                    assert(false);
                }
                0
            },
        };
        let best = match TfheU32::decrypt(client_key, &totals[wi]) {
            Ok(c) => c,
            Err(_) => {
                proof {
                    assert(false);
                }
                0
            },
        };
        if current >= best {
            wi = j;
        }
        j = j + 1;
    }

    let winner_label = plain_totals[wi].0.clone();
    assert(winner_label@ == candidates@[wi as int].label@);

    let mut k: usize = 0;
    let mut winner_id: u32 = 0;
    let mut found: bool = false;
    while k < candidates.len() && !found
        invariant
            k <= candidates@.len(),
            wi < candidates@.len(),
            winner_label@ == candidates@[wi as int].label@,
            !found ==> forall|t: int| 0 <= t < k ==> candidates@[t].label@ != winner_label@,
            found ==> exists|fi: int|
                {
                    &&& 0 <= fi < candidates@.len()
                    &&& candidates@[fi].label@ == winner_label@
                    &&& winner_id == candidates@[fi].id
                    &&& forall|t: int| 0 <= t < fi ==> candidates@[t].label@ != winner_label@
                },
        decreases candidates@.len() - k, (if found { 0int } else { 1int }),
    {
        if candidates[k].label == winner_label {
            winner_id = candidates[k].id;
            found = true;
        } else {
            k = k + 1;
        }
    }
    proof {
        if !found {
            assert(candidates@[wi as int].label@ == winner_label@);
            assert(false);
        }
    }
    (winner_label, winner_id, plain_totals)
}

} // verus!
