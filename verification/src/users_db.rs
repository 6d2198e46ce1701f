//! The decision core of the user write path: deriving a fresh user record
//! from a registration payload, and compiling a profile edit into a
//! parameterized update statement. The storage round trips around these
//! stay with the caller.

use vstd::prelude::*;
use vstd::string::{StrSliceExecFns, StringExecFns};

use crate::models::{clone_opt_string, User};
use crate::schema::ProfileChange;
use crate::text::{decimal_of, push_decimal};
use crate::utils::{lower_of, lowercase, now_timestamp_millis, password_hash_of, uuid7_b62,
    PASSWORD_ITERATION};

verus! {

/// The part of an email address before its first at-sign — the whole
/// address when it has none.
pub open spec fn email_prefix(s: Seq<char>) -> Seq<char>
    decreases s.len(),
{
    if s.len() == 0 {
        Seq::empty()
    } else if s[0] == '@' {
        Seq::empty()
    } else {
        seq![s[0]] + email_prefix(s.drop_first())
    }
}

/// `email_prefix` is the text before the first at-sign.
proof fn lemma_email_prefix(s: Seq<char>, i: int)
    requires
        0 <= i <= s.len(),
        forall|j: int| 0 <= j < i ==> s[j] != '@',
        i < s.len() ==> s[i] == '@',
    ensures
        email_prefix(s) == s.take(i),
    decreases i,
{
    if i == 0 {
        assert(email_prefix(s) =~= s.take(0));
    } else {
        assert(s[0] != '@');
        lemma_email_prefix(s.drop_first(), i - 1);
        assert forall|j: int| 0 <= j < i - 1 implies s.drop_first()[j] != '@' by {
            assert(s.drop_first()[j] == s[j + 1]);
        }
        assert(seq![s[0]] + s.drop_first().take(i - 1) =~= s.take(i));
    }
}

/// The text before the first at-sign of `email`.
fn email_prefix_exec(email: &str) -> (r: String)
    ensures
        r@ == email_prefix(email@),
{
    let n = email.unicode_len();
    let mut i: usize = 0;
    while i < n
        invariant
            i <= n,
            n == email@.len(),
            forall|j: int| 0 <= j < i ==> email@[j] != '@',
        decreases n - i,
    {
        if email.get_char(i) == '@' {
            proof {
                lemma_email_prefix(email@, i as int);
            }
            let prefix = email.substring_char(0, i);
            return prefix.to_owned();
        }
        i = i + 1;
    }
    proof {
        lemma_email_prefix(email@, n as int);
        assert(email@.take(n as int) =~= email@);
    }
    email.to_owned()
}

/// The name a new user is addressed by: the given first name, or the
/// email's local part when none was given.
pub open spec fn display_name(email: Seq<char>, first_name: Option<&str>) -> Seq<char> {
    match first_name {
        Some(f) => f@,
        None => email_prefix(email),
    }
}

/// Derives the record for a new user: a fresh identifier, the display
/// name, a username folded to lower case and suffixed with the trailing
/// nine characters of the identifier, and — when a password was given —
/// its hash, salted with the identifier. The caller stores the record and
/// the hash; the record itself never carries the hash.
pub fn build_new_user(
    email: &str,
    password: Option<&str>,
    first_name: Option<&str>,
    last_name: Option<&str>,
) -> (r: (User, String))
    ensures
        r.0.id matches Some(id) && {
            &&& 13 <= id@.len() <= 22
            &&& r.0.username matches Some(u) && u@ == lower_of(display_name(email@, first_name))
                + id@.skip(id@.len() - 9)
            &&& r.1@ == match password {
                Some(p) => password_hash_of(p@, id@, PASSWORD_ITERATION),
                None => Seq::<char>::empty(),
            }
        },
        r.0.email matches Some(e) && e@ == email@,
        r.0.first_name matches Some(f) && f@ == display_name(email@, first_name),
        match (r.0.last_name, last_name) {
            (Some(a), Some(b)) => a@ == b@,
            (None, None) => true,
            _ => false,
        },
        r.0.image is None,
        r.0.is_active is None,
        r.0.create_at is Some,
        r.0.update_at is None,
        r.0.last_login is None,
{
    let now = now_timestamp_millis();
    let user_id = uuid7_b62();

    let email_pre = email_prefix_exec(email);
    let user_first_name: String = match first_name {
        Some(f) => f.to_owned(),
        None => email_pre,
    };

    let folded = match first_name {
        Some(f) => lowercase(f),
        None => lowercase(user_first_name.as_str()),
    };
    let id_str = user_id.as_str();
    let id_len = id_str.unicode_len();
    let suffix = id_str.substring_ascii(id_len - 9, id_len);
    let username = folded.concat(suffix);

    let user_password_hash = match password {
        Some(p) => User::get_password_hash(p, user_id.as_str()),
        None => String::new(),
    };

    let user = User {
        id: Some(user_id),
        email: Some(email.to_owned()),
        image: None,
        username: Some(username),
        first_name: Some(user_first_name),
        last_name: match last_name {
            Some(l) => Some(l.to_owned()),
            None => None,
        },
        is_active: None,
        create_at: Some(now),
        update_at: None,
        last_login: None,
    };
    (user, user_password_hash)
}

/// The set-clause text of a profile update, by which fields the edit
/// carries, with placeholders numbered from 1 in declaration order.
pub open spec fn update_fields_text(fn_p: bool, ln_p: bool) -> Seq<char> {
    (if fn_p {
        "first_name = $"@ + decimal_of(1)
    } else {
        Seq::<char>::empty()
    }) + (if ln_p {
        (if fn_p {
            ", "@
        } else {
            Seq::<char>::empty()
        }) + "last_name = $"@ + decimal_of(
            if fn_p {
                2nat
            } else {
                1nat
            },
        )
    } else {
        Seq::<char>::empty()
    })
}

/// The placeholder number bound to the record identifier: one past the
/// edited fields.
pub open spec fn update_param_index(fn_p: bool, ln_p: bool) -> nat {
    1 + (if fn_p {
        1nat
    } else {
        0nat
    }) + (if ln_p {
        1nat
    } else {
        0nat
    })
}

/// The full text of a profile update statement.
pub open spec fn update_query_text(fn_p: bool, ln_p: bool) -> Seq<char> {
    "Update users SET "@ + update_fields_text(fn_p, ln_p) + " WHERE id = $"@ + decimal_of(
        update_param_index(fn_p, ln_p),
    )
        + " RETURNING id, email, image, username, first_name, last_name, is_active, create_at, update_at, last_login "@
}

/// The view of one bound update parameter: an absent value is stored as
/// NULL.
pub open spec fn opt_param_view(o: Option<String>) -> Option<Seq<char>> {
    match o {
        Some(s) => Some(s@),
        None => None,
    }
}

/// The parameters bound to a profile update, in placeholder order: the
/// edited field values, the record identifier last.
pub open spec fn update_params(
    fn_slot: Option<Option<String>>,
    ln_slot: Option<Option<String>>,
    user_id: Seq<char>,
) -> Seq<Option<Seq<char>>> {
    (match fn_slot {
        Some(v) => seq![opt_param_view(v)],
        None => Seq::<Option<Seq<char>>>::empty(),
    }) + (match ln_slot {
        Some(v) => seq![opt_param_view(v)],
        None => Seq::<Option<Seq<char>>>::empty(),
    }) + seq![Some(user_id)]
}

/// Compiles a profile edit into an update statement and its parameter
/// list: one set-clause and one bound value per carried field — an inner
/// absence binds NULL — and the record identifier as the final parameter.
pub fn build_update_query(payload: &ProfileChange, user_id: &str) -> (r: (
    String,
    Vec<Option<String>>,
))
    ensures
        r.0@ == update_query_text(payload.first_name is Some, payload.last_name is Some),
        r.1@.map_values(|p: Option<String>| opt_param_view(p)) == update_params(
            payload.first_name,
            payload.last_name,
            user_id@,
        ),
{
    let mut idx: u64 = 1;
    let mut fields = String::new();
    let mut user_data: Vec<Option<String>> = Vec::new();
    if let Some(first_name) = &payload.first_name {
        fields.append("first_name = $");
        push_decimal(&mut fields, idx);
        idx = idx + 1;
        user_data.push(clone_opt_string(first_name));
    }
    if let Some(last_name) = &payload.last_name {
        if payload.first_name.is_some() {
            fields.append(", ");
        }
        fields.append("last_name = $");
        push_decimal(&mut fields, idx);
        idx = idx + 1;
        user_data.push(clone_opt_string(last_name));
    }
    assert(fields@ =~= update_fields_text(
        payload.first_name is Some,
        payload.last_name is Some,
    ));
    user_data.push(Some(user_id.to_owned()));
    assert(user_data@.map_values(|p: Option<String>| opt_param_view(p)) =~= update_params(
        payload.first_name,
        payload.last_name,
        user_id@,
    ));

    let mut query = "Update users SET ".to_owned();
    query.append(fields.as_str());
    query.append(" WHERE id = $");
    push_decimal(&mut query, idx);
    query.append(
        " RETURNING id, email, image, username, first_name, last_name, is_active, create_at, update_at, last_login ",
    );
    assert(query@ =~= update_query_text(
        payload.first_name is Some,
        payload.last_name is Some,
    ));
    (query, user_data)
}

} // verus!
