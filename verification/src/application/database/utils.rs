use crate::text::{decimal, push_decimal};
use vstd::prelude::*;
use vstd::string::*;

verus! {

/// Whether both a user name and a password are given and neither is empty.
pub open spec fn has_credentials(username: Option<Seq<char>>, password: Option<Seq<char>>) -> bool {
    username is Some && password is Some && username->0.len() > 0 && password->0.len() > 0
}

/// What an optional text holds.
pub open spec fn optional_text(text: Option<&str>) -> Option<Seq<char>> {
    match text {
        Some(s) => Some(s@),
        None => None,
    }
}

/// The address of the database `db` of the document store at `host` and
/// `port`, with the credentials in it where there are any.
pub open spec fn mongo_uri(
    host: Seq<char>,
    port: u16,
    db: Seq<char>,
    username: Option<Seq<char>>,
    password: Option<Seq<char>>,
) -> Seq<char> {
    if has_credentials(username, password) {
        "mongodb://"@ + username->0 + ":"@ + password->0 + "@"@ + host + ":"@ + decimal(
            port as int,
        ) + "/"@ + db
    } else {
        "mongodb://"@ + host + ":"@ + decimal(port as int) + "/"@ + db
    }
}

/// Writes the address of a database of the document store.
pub fn build_mongo_uri(
    host: &str,
    port: u16,
    db: &str,
    username: Option<&str>,
    password: Option<&str>,
) -> (uri: String)
    ensures
        uri@ == mongo_uri(host@, port, db@, optional_text(username), optional_text(password)),
{
    let mut uri = String::from_str("mongodb://");
    match (username, password) {
        (Some(user), Some(pass)) => {
            if !user.is_empty() && !pass.is_empty() {
                uri.append(user);
                uri.append(":");
                uri.append(pass);
                uri.append("@");
            }
        },
        _ => {},
    }
    uri.append(host);
    uri.append(":");
    push_decimal(&mut uri, port as i64);
    uri.append("/");
    uri.append(db);
    uri
}

} // verus!
