//! The state of a session with the MEGA API.

use rand::rngs::OsRng;
use rand::Rng;
use vstd::prelude::*;
use vstd::string::StringExecFns;

use super::MegaApiError;
use crate::text::{chars_of, string_from_chars};

verus! {

/// The characters a request id is made of.
pub open spec fn id_alphabet() -> Seq<char> {
    "ABCDEFGHIJKLMNOPQRSTUVWXYZabcdefghijklmnopqrstuvwxyz0123456789"@
}

/// The number of characters in `id_alphabet`.
pub const ID_ALPHABET_LEN: usize = 62;

/// The identifier spelled by `draws`: character `i` is the letter of
/// `id_alphabet` at position `draws[i]`.
pub open spec fn id_of_draws(draws: Seq<usize>) -> Seq<char> {
    Seq::new(draws.len(), |i: int| id_alphabet()[draws[i] as int])
}

/// Every draw picks a letter of `id_alphabet`.
pub open spec fn draws_in_alphabet(draws: Seq<usize>) -> bool {
    forall|i: int| 0 <= i < draws.len() ==> #[trigger] draws[i] < ID_ALPHABET_LEN
}

/// The identifier spelled by `draws`, each a position in the 62 letters and
/// digits of `id_alphabet`.
pub fn id_from_draws(draws: &Vec<usize>) -> (result: String)
    requires
        draws_in_alphabet(draws@),
    ensures
        result@ == id_of_draws(draws@),
{
    let alphabet = chars_of("ABCDEFGHIJKLMNOPQRSTUVWXYZabcdefghijklmnopqrstuvwxyz0123456789");
    proof {
        reveal_strlit("ABCDEFGHIJKLMNOPQRSTUVWXYZabcdefghijklmnopqrstuvwxyz0123456789");
    }
    let mut id: Vec<char> = Vec::with_capacity(draws.len());
    let mut i: usize = 0;
    while i < draws.len()
        invariant
            alphabet@ == id_alphabet(),
            alphabet@.len() == ID_ALPHABET_LEN,
            draws_in_alphabet(draws@),
            i <= draws@.len(),
            id@ == id_of_draws(draws@).take(i as int),
        decreases draws@.len() - i,
    {
        let k = draws[i];
        assert(k < ID_ALPHABET_LEN);
        id.push(alphabet[k]);
        i = i + 1;
        assert(id@ =~= id_of_draws(draws@).take(i as int));
    }
    assert(id@ =~= id_of_draws(draws@));
    string_from_chars(&id)
}

/// `length` positions in `id_alphabet`, each drawn at random by the
/// operating system.
fn random_draws(length: usize) -> (result: Vec<usize>)
    ensures
        result@.len() == length,
        draws_in_alphabet(result@),
{
    let mut draws: Vec<usize> = Vec::with_capacity(length);
    let mut i: usize = 0;
    while i < length
        invariant
            i <= length,
            draws@.len() == i,
            draws_in_alphabet(draws@),
        decreases length - i,
    {
        let k = os_random_below(ID_ALPHABET_LEN);
        draws.push(k);
        i = i + 1;
    }
    draws
}

/// Calls `OsRng.gen::<u64>()` of the `rand` crate: a random number from the
/// operating system. Nothing is claimed of it. (The call panics if the
/// operating system cannot provide randomness.)
#[verifier::external_body]
fn os_random_u64() -> u64 {
    OsRng.gen::<u64>()
}

/// Calls `OsRng.gen_range(0..bound)` of the `rand` crate. Claims what its
/// documentation states: the number is below `bound`. Which number comes
/// out is left open. (The call panics on an empty range, which `requires`
/// excludes, or if the operating system cannot provide randomness.)
#[verifier::external_body]
fn os_random_below(bound: usize) -> (result: usize)
    requires
        bound > 0,
    ensures
        result < bound,
{
    OsRng.gen_range(0..bound)
}

/// A session with the MEGA API.
#[derive(Debug, Clone)]
pub struct Session {
    pub seq_no: u64,
    pub sid: Option<String>,
    pub master_key: Option<Vec<u32>>,
    pub rsa_priv_key: Option<Vec<Vec<u8>>>,
    pub password_aes: Option<Vec<u32>>,
    pub user_hash: Option<String>,
    pub root_id: Option<String>,
    pub inbox_id: Option<String>,
    pub email: Option<String>,
    pub full_email: Option<String>,
    pub trashbin_id: Option<String>,
    pub req_id: String,
    pub account_version: i32,
    pub salt: Option<String>,
}

impl Default for Session {
    /// An empty session: sequence number 0, empty request id, account
    /// version 0, nothing else known.
    fn default() -> (result: Self)
        ensures
            result.seq_no == 0,
            result.req_id@ == Seq::<char>::empty(),
            result.account_version == 0,
            result.sid is None && result.master_key is None && result.rsa_priv_key is None
                && result.password_aes is None && result.user_hash is None && result.root_id is None
                && result.inbox_id is None && result.email is None && result.full_email is None
                && result.trashbin_id is None && result.salt is None,
    {
        Session {
            seq_no: 0,
            sid: None,
            master_key: None,
            rsa_priv_key: None,
            password_aes: None,
            user_hash: None,
            root_id: None,
            inbox_id: None,
            email: None,
            full_email: None,
            trashbin_id: None,
            req_id: String::new(),
            account_version: 0,
            salt: None,
        }
    }
}

impl Session {
    /// `self` with the request id `req_id`.
    pub open spec fn with_req_id(self, req_id: String) -> Session {
        Session { req_id, ..self }
    }

    /// `self` with the e-mail address `email`.
    pub open spec fn with_email(self, email: Option<String>) -> Session {
        Session { email, ..self }
    }

    /// The anonymous session built from the random number `random` and the
    /// draws that spell its request id: the sequence number is the low 32
    /// bits of `random`, the account version -1, nothing else known.
    pub fn session_from_draws(random: u64, draws: &Vec<usize>) -> (result: Self)
        requires
            draws_in_alphabet(draws@),
        ensures
            result.seq_no == random & 0xffff_ffff,
            result.req_id@ == id_of_draws(draws@),
            result.account_version == -1,
            result.sid is None && result.master_key is None && result.rsa_priv_key is None
                && result.password_aes is None && result.user_hash is None && result.root_id is None
                && result.inbox_id is None && result.email is None && result.full_email is None
                && result.trashbin_id is None && result.salt is None,
    {
        let seq_no = random & 0xffff_ffff;
        let req_id = id_from_draws(draws);
        Session {
            seq_no,
            sid: None,
            master_key: None,
            rsa_priv_key: None,
            password_aes: None,
            user_hash: None,
            root_id: None,
            inbox_id: None,
            email: None,
            full_email: None,
            trashbin_id: None,
            req_id,
            account_version: -1,
            salt: None,
        }
    }

    /// A new anonymous session: the low 32 bits of a random number as
    /// sequence number, a request id of 10 characters drawn at random from
    /// `id_alphabet`, account version -1, nothing else known. Which numbers
    /// the operating system gives is left open.
    pub fn new() -> (result: Self)
        ensures
            exists|random: u64| result.seq_no == #[trigger] (random & 0xffff_ffff),
            exists|draws: Seq<usize>|
                draws.len() == 10 && draws_in_alphabet(draws) && result.req_id@ == #[trigger] id_of_draws(
                    draws,
                ),
            result.account_version == -1,
            result.sid is None && result.master_key is None && result.rsa_priv_key is None
                && result.password_aes is None && result.user_hash is None && result.root_id is None
                && result.inbox_id is None && result.email is None && result.full_email is None
                && result.trashbin_id is None && result.salt is None,
    {
        let random = os_random_u64();
        let draws = random_draws(10);
        let result = Self::session_from_draws(random, &draws);
        assert(result.req_id@ == id_of_draws(draws@));
        result
    }

    /// A random identifier of `length` characters, each drawn at random
    /// from the 62 letters and digits of `id_alphabet`. Which letters the
    /// operating system picks is left open.
    pub fn gen_id(length: usize) -> (result: String)
        ensures
            exists|draws: Seq<usize>|
                draws.len() == length && draws_in_alphabet(draws) && result@ == #[trigger] id_of_draws(
                    draws,
                ),
    {
        let draws = random_draws(length);
        let id = id_from_draws(&draws);
        assert(id@ == id_of_draws(draws@));
        id
    }

    /// Starts the session with a fresh 10-character request id.
    pub fn init(&mut self) -> (result: Result<(), MegaApiError>)
        ensures
            result is Ok,
            exists|draws: Seq<usize>|
                draws.len() == 10 && draws_in_alphabet(draws) && final(self).req_id@
                    == #[trigger] id_of_draws(draws),
            *final(self) == old(self).with_req_id(final(self).req_id),
    {
        self.req_id = Self::gen_id(10);
        Ok(())
    }

    /// Logs in as `email`: records the address; the password is not used.
    pub fn login(&mut self, email: &str, _password: &str) -> (result: Result<(), MegaApiError>)
        ensures
            result is Ok,
            final(self).email matches Some(e) && e@ == email@,
            *final(self) == old(self).with_email(final(self).email),
    {
        self.email = Some(email.to_owned());
        Ok(())
    }

    /// Fetches the account's folder ids: nothing is fetched yet.
    pub fn fetch_nodes(&mut self) -> (result: Result<(), MegaApiError>)
        ensures
            result is Ok,
            *final(self) == *old(self),
    {
        Ok(())
    }
}

} // verus!
