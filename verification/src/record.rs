//! User records as the exporter reads them from the remote directory.
//!
//! A record carries an optional username and a list of named attributes;
//! the exporter reads only the attribute named `email`. Both values are
//! kept as raw bytes and written to the sink unchanged (apart from CSV
//! quoting), so nothing here depends on a text encoding.

use vstd::prelude::*;

use crate::csv::rendered_row;

verus! {

/// One named attribute of a user record, with an optional value.
pub struct UserAttribute {
    /// The attribute's name.
    pub name: Vec<u8>,
    /// The attribute's value, absent when the directory holds none.
    pub value: Option<Vec<u8>>,
}

/// One user record of a page, as read from the remote directory.
pub struct UserRecord {
    /// The username, absent when the directory reports none.
    pub username: Option<Vec<u8>>,
    /// The record's attributes, in the order the directory reports them.
    pub attributes: Vec<UserAttribute>,
}

/// The bytes of the attribute name `email`.
pub open spec fn email_attribute_name() -> Seq<u8> {
    seq![101u8, 109u8, 97u8, 105u8, 108u8]
}

/// Whether an attribute is the `email` attribute.
pub open spec fn attr_is_email(a: UserAttribute) -> bool {
    a.name@ == email_attribute_name()
}

/// An attribute's value, or empty when it is absent.
pub open spec fn attr_value_or_empty(a: UserAttribute) -> Seq<u8> {
    match a.value {
        Some(v) => v@,
        None => Seq::empty(),
    }
}

/// The email field of a record: the value of the first attribute named
/// `email`, or empty when that attribute is absent or has no value.
pub open spec fn spec_email_from(attrs: Seq<UserAttribute>) -> Seq<u8>
    decreases attrs.len(),
{
    if attrs.len() == 0 {
        Seq::empty()
    } else if attr_is_email(attrs[0]) {
        attr_value_or_empty(attrs[0])
    } else {
        spec_email_from(attrs.drop_first())
    }
}

/// The username field of a record, or empty when it is absent.
pub open spec fn spec_username(u: UserRecord) -> Seq<u8> {
    match u.username {
        Some(s) => s@,
        None => Seq::empty(),
    }
}

/// The email field of a record.
pub open spec fn spec_email(u: UserRecord) -> Seq<u8> {
    spec_email_from(u.attributes@)
}

/// The CSV row a record is emitted as.
pub open spec fn user_row(u: UserRecord) -> Seq<u8> {
    rendered_row(spec_username(u), spec_email(u))
}

/// The concatenated CSV rows of a sequence of records, in order.
pub open spec fn rows_of(users: Seq<UserRecord>) -> Seq<u8>
    decreases users.len(),
{
    if users.len() == 0 {
        Seq::empty()
    } else {
        rows_of(users.drop_last()) + user_row(users.last())
    }
}

/// Skipping a prefix that holds no `email` attribute does not change which
/// attribute the email field is read from.
proof fn lemma_email_skip_prefix(attrs: Seq<UserAttribute>, i: int)
    requires
        0 <= i <= attrs.len(),
        forall|j: int| 0 <= j < i ==> !attr_is_email(#[trigger] attrs[j]),
    ensures
        spec_email_from(attrs) == spec_email_from(attrs.skip(i)),
    decreases i,
{
    if i > 0 {
        lemma_email_skip_prefix(attrs, i - 1);
        let s = attrs.skip(i - 1);
        assert(s[0] == attrs[i - 1]);
        assert(!attr_is_email(s[0]));
        assert(s.drop_first() =~= attrs.skip(i));
    } else {
        assert(attrs.skip(0) =~= attrs);
    }
}

/// Law: a record none of whose attributes is named `email` has an empty
/// email field.
pub proof fn lemma_missing_email_is_empty(u: UserRecord)
    requires
        forall|j: int| 0 <= j < u.attributes@.len() ==> !attr_is_email(#[trigger] u.attributes@[j]),
    ensures
        spec_email(u) == Seq::<u8>::empty(),
{
    lemma_email_skip_prefix(u.attributes@, u.attributes@.len() as int);
    assert(u.attributes@.skip(u.attributes@.len() as int) =~= Seq::<UserAttribute>::empty());
}

/// Copies a byte vector.
fn clone_bytes(v: &Vec<u8>) -> (r: Vec<u8>)
    ensures
        r@ == v@,
{
    let r = v.clone();
    proof {
        assert(r@ =~= v@);
    }
    r
}

/// Whether a name is exactly the bytes of `email`.
fn is_email_name(name: &Vec<u8>) -> (r: bool)
    ensures
        r == (name@ == email_attribute_name()),
{
    if name.len() != 5 {
        proof {
            assert(name@ != email_attribute_name());
        }
        return false;
    }
    let r = name[0] == 101u8 && name[1] == 109u8 && name[2] == 97u8 && name[3] == 105u8 && name[4]
        == 108u8;
    proof {
        if r {
            assert(name@ =~= email_attribute_name());
        } else {
            assert(name@ != email_attribute_name());
        }
    }
    r
}

/// Reads the username and the `email` attribute out of a record: the
/// username as it stands or empty when absent, and the value of the first
/// attribute named `email` or empty when that attribute is absent or empty.
pub fn extract_username_and_email(user: &UserRecord) -> (r: (Vec<u8>, Vec<u8>))
    ensures
        r.0@ == spec_username(*user),
        r.1@ == spec_email(*user),
{
    let username = match &user.username {
        Some(v) => clone_bytes(v),
        None => Vec::new(),
    };
    let ghost attrs = user.attributes@;
    let n = user.attributes.len();
    let mut i: usize = 0;
    while i < n
        invariant
            n == attrs.len(),
            0 <= i <= n,
            attrs == user.attributes@,
            username@ == spec_username(*user),
            forall|j: int| 0 <= j < i ==> !attr_is_email(#[trigger] attrs[j]),
        decreases n - i,
    {
        let a = &user.attributes[i];
        if is_email_name(&a.name) {
            let email = match &a.value {
                Some(v) => clone_bytes(v),
                None => Vec::new(),
            };
            proof {
                lemma_email_skip_prefix(attrs, i as int);
                let s = attrs.skip(i as int);
                assert(s[0] == attrs[i as int]);
                assert(attr_is_email(s[0]));
                assert(spec_email_from(s) == attr_value_or_empty(attrs[i as int]));
            }
            return (username, email);
        }
        i += 1;
    }
    proof {
        lemma_email_skip_prefix(attrs, n as int);
        assert(attrs.skip(n as int) =~= Seq::<UserAttribute>::empty());
    }
    (username, Vec::new())
}

} // verus!
