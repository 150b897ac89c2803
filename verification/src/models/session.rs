//! KF2 sessions: their rows, how their ids are made, and how creating one
//! retries when a freshly drawn id is already taken.

use chrono::NaiveDateTime;
use vstd::prelude::*;

use crate::text::concat_str;

verus! {

#[verifier::external_type_specification]
#[verifier::external_body]
pub struct ExNaiveDateTime(NaiveDateTime);

/// `NaiveDateTime` derives `Copy` and `Clone`: a clone is the same value.
pub assume_specification[ <NaiveDateTime as Clone>::clone ](d: &NaiveDateTime) -> (r: NaiveDateTime)
    ensures
        r == *d,
;

/// A word that can stand in a session id: not empty, and without a `-`.
pub open spec fn is_id_word(w: Seq<char>) -> bool {
    w.len() > 0 && !w.contains('-')
}

/// A word drawn at random from the English word list
/// (`random_word::get(Lang::En)`). Which word comes back is left to chance;
/// what is stated holds of every word of the list that the crate ships: none
/// is empty (the crate's documentation shows it, and the index it builds by
/// first character rejects an empty word), and none holds a `-` (the list
/// itself shows it; a test of this crate reads it whole).
#[verifier::external_body]
fn random_english_word() -> (r: &'static str)
    ensures
        is_id_word(r@),
{
    random_word::get(random_word::Lang::En)
}

/// A row of the session table.
#[derive(Debug, Clone)]
pub struct Session {
    pub id: String,
    pub created_at: NaiveDateTime,
    pub updated_at: NaiveDateTime,
}

/// A session id made of three words: `w1-w2-w3`.
pub open spec fn session_id_text(w1: Seq<char>, w2: Seq<char>, w3: Seq<char>) -> Seq<char> {
    w1 + "-"@ + w2 + "-"@ + w3
}

/// A session id made of three id words has a dash exactly at the two places
/// that join them, so splitting it at its dashes gives back exactly the three
/// words, none of them empty.
pub proof fn law_session_id_splits_into_its_words(w1: Seq<char>, w2: Seq<char>, w3: Seq<char>)
    requires
        is_id_word(w1),
        is_id_word(w2),
        is_id_word(w3),
    ensures
        session_id_text(w1, w2, w3).len() == w1.len() + w2.len() + w3.len() + 2,
        forall|i: int|
            0 <= i < session_id_text(w1, w2, w3).len() ==> (#[trigger] session_id_text(w1, w2, w3)[i] == '-'
                <==> (i == w1.len() || i == w1.len() + 1 + w2.len())),
{
    reveal_strlit("-");
    let d = "-"@;
    assert(d.len() == 1 && d[0] == '-');
    let a = w1 + d;
    let b = a + w2;
    let c = b + d;
    let t = session_id_text(w1, w2, w3);
    assert(t == c + w3);
    let n1 = w1.len() as int;
    let n2 = w2.len() as int;
    assert forall|i: int| 0 <= i < t.len() implies (#[trigger] t[i] == '-' <==> (i == n1 || i == n1 + 1 + n2)) by {
        if i < n1 {
            assert(t[i] == c[i] && c[i] == b[i] && b[i] == a[i] && a[i] == w1[i]);
            if w1[i] == '-' {
                assert(w1.contains('-'));
            }
        } else if i == n1 {
            assert(t[i] == c[i] && c[i] == b[i] && b[i] == a[i] && a[i] == d[0]);
        } else if i < n1 + 1 + n2 {
            assert(t[i] == c[i] && c[i] == b[i] && b[i] == w2[i - n1 - 1]);
            if w2[i - n1 - 1] == '-' {
                assert(w2.contains('-'));
            }
        } else if i == n1 + 1 + n2 {
            assert(t[i] == c[i] && c[i] == d[0]);
        } else {
            assert(t[i] == w3[i - n1 - n2 - 2]);
            if w3[i - n1 - n2 - 2] == '-' {
                assert(w3.contains('-'));
            }
        }
    }
}

/// The session id made of the words `w1`, `w2` and `w3`.
pub fn session_id_from_words(w1: &str, w2: &str, w3: &str) -> (r: String)
    ensures
        r@ == session_id_text(w1@, w2@, w3@),
{
    let a = concat_str(w1, "-");
    let b = a.concat(w2);
    let c = b.concat("-");
    c.concat(w3)
}

impl Session {
    /// A fresh id of three random English words joined by dashes; each word
    /// is non-empty and holds no dash, so the id splits at its two dashes into
    /// exactly those three words.
    pub fn new_session_id() -> (r: String)
        ensures
            exists|w1: Seq<char>, w2: Seq<char>, w3: Seq<char>|
                is_id_word(w1) && is_id_word(w2) && is_id_word(w3) && r@ == session_id_text(w1, w2, w3),
    {
        let w1 = random_english_word();
        let w2 = random_english_word();
        let w3 = random_english_word();
        session_id_from_words(w1, w2, w3)
    }
}

/// How many ids creating a session draws before it gives up.
pub const CREATE_SESSION_MAX_RETRIES: usize = 3;

/// What inserting a session row under a freshly drawn id did.
pub enum InsertOutcome<T, E> {
    /// The row was inserted and read back.
    Inserted(T),
    /// Another session already has that id.
    DuplicateId,
    /// The store failed for another reason.
    Failed(E),
}

/// Why no session was created.
#[derive(Debug)]
pub enum CreateSessionError<E> {
    /// Every id drawn was already taken.
    IdRetriesExhausted,
    Store(E),
}

/// What to do after an insert attempt.
pub enum CreateNext<T, E> {
    Finish(Result<T, CreateSessionError<E>>),
    /// Draw another id and insert again.
    TryAnotherId,
}

/// The decision after the `attempt`-th insert (counting from 1): a taken id
/// is retried with a new one until [`CREATE_SESSION_MAX_RETRIES`] ids have
/// been tried; any other outcome ends the creation.
pub fn after_insert<T, E>(attempt: usize, outcome: InsertOutcome<T, E>) -> (r: CreateNext<T, E>)
    requires
        1 <= attempt <= CREATE_SESSION_MAX_RETRIES,
    ensures
        match outcome {
            InsertOutcome::Inserted(t) => r == CreateNext::<T, E>::Finish(Ok(t)),
            InsertOutcome::Failed(e) => r == CreateNext::<T, E>::Finish(Err(CreateSessionError::Store(e))),
            InsertOutcome::DuplicateId => if attempt < CREATE_SESSION_MAX_RETRIES {
                r is TryAnotherId
            } else {
                r == CreateNext::<T, E>::Finish(Err(CreateSessionError::IdRetriesExhausted))
            },
        },
{
    match outcome {
        InsertOutcome::Inserted(t) => CreateNext::Finish(Ok(t)),
        InsertOutcome::Failed(e) => CreateNext::Finish(Err(CreateSessionError::Store(e))),
        InsertOutcome::DuplicateId => {
            if attempt < CREATE_SESSION_MAX_RETRIES {
                CreateNext::TryAnotherId
            } else {
                CreateNext::Finish(Err(CreateSessionError::IdRetriesExhausted))
            }
        },
    }
}

} // verus!
