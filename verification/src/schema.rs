//! Request payload shapes of the user endpoints, and the filter record of
//! the list endpoint with its declarative slot table.

use vstd::prelude::*;

use crate::models::clone_opt_string;
use crate::to_sql::{
    compile_filter, fragment_of, params_of, popcount, slot_views, FilterSlot, SlotView,
    ToSqlString,
};

verus! {

/// A profile, as carried by a read payload.
pub struct UserProfile {
    pub first_name: Option<String>,
    pub last_name: Option<String>,
}

/// Credentials of a password login request.
pub struct UserPasswordLogin {
    pub email: String,
    pub password: String,
}

/// A registration payload. Optional throughout: presence is enforced
/// upstream by the validator, not here.
pub struct RegisterEmail {
    pub first_name: Option<String>,
    pub last_name: Option<String>,
    pub email: Option<String>,
    pub password: Option<String>,
    pub new_password: Option<String>,
}

/// An email change request.
pub struct EmailChange {
    pub email: String,
    pub password: String,
    pub new_password: String,
}

/// A profile edit. The outer option says whether the field is part of the
/// edit at all; the inner one lets an edit clear the field.
pub struct ProfileChange {
    pub first_name: Option<Option<String>>,
    pub last_name: Option<Option<String>>,
}

/// The filter record of the user list endpoint: one optional slot per
/// filterable attribute, in declaration order. The moment of creation is
/// carried as its rendered text.
pub struct UserQuery {
    pub email: Option<String>,
    pub is_active: Option<bool>,
    pub first_name: Option<String>,
    pub last_name: Option<String>,
    pub create_at: Option<String>,
}

/// The view of an optional owned string.
pub open spec fn opt_str_view(o: Option<String>) -> Option<Seq<char>> {
    match o {
        Some(s) => Some(s@),
        None => None,
    }
}

/// The rendered text of an optional boolean slot value.
pub open spec fn opt_bool_view(o: Option<bool>) -> Option<Seq<char>> {
    match o {
        Some(true) => Some("true"@),
        Some(false) => Some("false"@),
        None => None,
    }
}

impl ToSqlString for UserQuery {
    /// The slot table: logical names double as physical column names.
    open spec fn sql_slots(&self) -> Seq<SlotView> {
        seq![
            SlotView { column: "email"@, value: opt_str_view(self.email) },
            SlotView { column: "is_active"@, value: opt_bool_view(self.is_active) },
            SlotView { column: "first_name"@, value: opt_str_view(self.first_name) },
            SlotView { column: "last_name"@, value: opt_str_view(self.last_name) },
            SlotView { column: "create_at"@, value: opt_str_view(self.create_at) },
        ]
    }

    fn as_sql_string(&self, operator: &str, separator: &str, _order_by: &str) -> (r: (
        String,
        Vec<String>,
    )) {
        let mut slots: Vec<FilterSlot> = Vec::new();
        slots.push(
            FilterSlot { column: "email".to_owned(), value: clone_opt_string(&self.email) },
        );
        let is_active_text: Option<String> = match self.is_active {
            Some(true) => Some("true".to_owned()),
            Some(false) => Some("false".to_owned()),
            None => None,
        };
        slots.push(FilterSlot { column: "is_active".to_owned(), value: is_active_text });
        slots.push(
            FilterSlot {
                column: "first_name".to_owned(),
                value: clone_opt_string(&self.first_name),
            },
        );
        slots.push(
            FilterSlot {
                column: "last_name".to_owned(),
                value: clone_opt_string(&self.last_name),
            },
        );
        slots.push(
            FilterSlot {
                column: "create_at".to_owned(),
                value: clone_opt_string(&self.create_at),
            },
        );
        proof {
            assert(slot_views(slots@) =~= self.sql_slots());
        }
        compile_filter(&slots, operator, separator)
    }
}

} // verus!
