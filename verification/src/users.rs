//! The user databases: who may upload positions (by key) and who may download them
//! (by name and password). Passwords are kept as bcrypt hashes.

use vstd::prelude::*;

verus! {

/// An entry of a user database: a user's name and the bcrypt hash of the user's password.
pub struct UserEntry {
    pub name: String,
    pub hash: String,
}

impl UserEntry {
    pub fn new(name: String, hash: String) -> (r: UserEntry)
        ensures
            r.name == name,
            r.hash == hash,
    {
        UserEntry { name, hash }
    }
}

/// A user database as name and hash per entry, in order.
pub open spec fn users_view(users: Seq<UserEntry>) -> Seq<(Seq<char>, Seq<char>)> {
    users.map_values(|u: UserEntry| (u.name@, u.hash@))
}

#[verifier::external_type_specification]
#[verifier::external_body]
pub struct ExBcryptError(bcrypt::BcryptError);

/// What `bcrypt::verify(password, hash)` gives: `Some(true)` where `hash` is a bcrypt hash of
/// `password`, `Some(false)` where it is a well-formed hash of another password, `None` where
/// `hash` cannot be read as a bcrypt hash.
pub uninterp spec fn bcrypt_verifies(password: Seq<char>, hash: Seq<char>) -> Option<bool>;

/// `bcrypt::verify`. Claimed: its result is `bcrypt_verifies` of the password and the hash,
/// an error standing for `None`. The crate's source shows that the result depends on these
/// two arguments alone (the salt and cost are read out of the hash).
#[verifier::external_body]
pub(crate) fn verify_password(password: &str, hash: &str) -> (r: Result<bool, bcrypt::BcryptError>)
    ensures
        match r {
            Ok(b) => bcrypt_verifies(password@, hash@) == Some(b),
            Err(_) => bcrypt_verifies(password@, hash@) is None,
        },
{
    bcrypt::verify(password, hash)
}

/// The name of the first user whose hash the password verifies against; entries whose hash
/// cannot be read are passed over.
pub open spec fn lookup_name_spec(password: Seq<char>, users: Seq<(Seq<char>, Seq<char>)>) -> Option<
    Seq<char>,
>
    decreases users.len(),
{
    if users.len() == 0 {
        None
    } else if bcrypt_verifies(password, users[0].1) == Some(true) {
        Some(users[0].0)
    } else {
        lookup_name_spec(password, users.drop_first())
    }
}

/// The hash of the first user of the given name.
pub open spec fn lookup_hash_spec(name: Seq<char>, users: Seq<(Seq<char>, Seq<char>)>) -> Option<
    Seq<char>,
>
    decreases users.len(),
{
    if users.len() == 0 {
        None
    } else if users[0].0 == name {
        Some(users[0].1)
    } else {
        lookup_hash_spec(name, users.drop_first())
    }
}

pub open spec fn string_option_view(o: Option<String>) -> Option<Seq<char>> {
    match o {
        Some(s) => Some(s@),
        None => None,
    }
}

/// Looks up the name of the user whose password is `password`, or `None` if there is none.
/// Every entry's hash is checked in turn, which is computationally expensive.
pub fn lookup_name(password: &str, users: &Vec<UserEntry>) -> (r: Option<String>)
    ensures
        string_option_view(r) == lookup_name_spec(password@, users_view(users@)),
{
    let mut i: usize = 0;
    assert(users_view(users@).skip(0) =~= users_view(users@));
    while i < users.len()
        invariant
            i <= users@.len(),
            lookup_name_spec(password@, users_view(users@)) == lookup_name_spec(
                password@,
                users_view(users@).skip(i as int),
            ),
        decreases users@.len() - i,
    {
        let user = &users[i];
        let ghost rest = users_view(users@).skip(i as int);
        assert(rest[0] == (user.name@, user.hash@));
        assert(rest.drop_first() =~= users_view(users@).skip(i + 1));
        match verify_password(password, user.hash.as_str()) {
            Ok(verified) => {
                if verified {
                    return Some(user.name.clone());
                }
            },
            Err(_) => {},
        }
        i = i + 1;
    }
    None
}

/// Looks up the hash of the user named `name`, or `None` if there is none.
pub fn lookup_hash(name: &str, users: &Vec<UserEntry>) -> (r: Option<String>)
    ensures
        string_option_view(r) == lookup_hash_spec(name@, users_view(users@)),
{
    let wanted = name.to_owned();
    let mut i: usize = 0;
    assert(users_view(users@).skip(0) =~= users_view(users@));
    while i < users.len()
        invariant
            i <= users@.len(),
            wanted@ == name@,
            lookup_hash_spec(name@, users_view(users@)) == lookup_hash_spec(
                name@,
                users_view(users@).skip(i as int),
            ),
        decreases users@.len() - i,
    {
        let user = &users[i];
        let ghost rest = users_view(users@).skip(i as int);
        assert(rest[0] == (user.name@, user.hash@));
        assert(rest.drop_first() =~= users_view(users@).skip(i + 1));
        if user.name == wanted {
            return Some(user.hash.clone());
        }
        i = i + 1;
    }
    None
}

} // verus!
