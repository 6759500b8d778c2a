//! The user record and its JSON form.

use crate::json::{
    as_integer, as_text, is_null, json_of, json_parse, json_quoted, member, member_of, parse,
    quote, Json,
};
use crate::number::{decimal, format_i32};
use crate::request::{body_of, get_body};
use vstd::prelude::*;
use vstd::string::StringExecFns;

verus! {

/// A user record. The store gives a record its `id`: one that was never
/// stored has none.
#[derive(Debug, Clone, PartialEq, Eq)]
pub struct User {
    pub id: Option<i32>,
    pub name: String,
    pub email: String,
}

/// A user record as plain values.
pub ghost struct UserView {
    pub id: Option<i32>,
    pub name: Seq<char>,
    pub email: Seq<char>,
}

impl View for User {
    type V = UserView;

    open spec fn view(&self) -> UserView {
        UserView { id: self.id, name: self.name@, email: self.email@ }
    }
}

/// The records of `users` as plain values, in order.
pub open spec fn views_of(users: Seq<User>) -> Seq<UserView> {
    Seq::new(users.len(), |i: int| users[i]@)
}

/// Why a text is not a user record.
#[derive(Debug, Clone, Copy, PartialEq, Eq, Structural)]
pub enum DecodeError {
    /// The text is not JSON.
    Syntax,
    /// There is no member `name` that is a text.
    Name,
    /// There is no member `email` that is a text.
    Email,
    /// The member `id` is neither null nor a 32-bit integer.
    Id,
}

pub open spec fn id_key() -> Seq<char> {
    seq!['i', 'd']
}

pub open spec fn name_key() -> Seq<char> {
    seq!['n', 'a', 'm', 'e']
}

pub open spec fn email_key() -> Seq<char> {
    seq!['e', 'm', 'a', 'i', 'l']
}

/// A member of a JSON object, as far as a user record depends on it.
#[derive(Debug, Clone, PartialEq, Eq)]
pub enum Member {
    /// The object has no such member, or the value is no object.
    Absent,
    Null,
    Text(String),
    /// A number that is held as an integer and fits in 64 bits with sign.
    Integer(i64),
    /// Anything else.
    Other,
}

/// A member as plain values.
pub ghost enum MemberView {
    Absent,
    Null,
    Text(Seq<char>),
    Integer(i64),
    Other,
}

impl View for Member {
    type V = MemberView;

    open spec fn view(&self) -> MemberView {
        match *self {
            Member::Absent => MemberView::Absent,
            Member::Null => MemberView::Null,
            Member::Text(text) => MemberView::Text(text@),
            Member::Integer(n) => MemberView::Integer(n),
            Member::Other => MemberView::Other,
        }
    }
}

/// The member `key` of `json`, as far as a user record depends on it.
pub open spec fn member_view(json: Json, key: Seq<char>) -> MemberView {
    match member_of(json, key) {
        None => MemberView::Absent,
        Some(Json::Null) => MemberView::Null,
        Some(Json::Text(text)) => MemberView::Text(text),
        Some(Json::Integer(n)) => if i64::MIN <= n <= i64::MAX {
            MemberView::Integer(n as i64)
        } else {
            MemberView::Other
        },
        Some(_) => MemberView::Other,
    }
}

/// The user record of three members: `name` and `email` must be texts;
/// `id` may be absent or null, which gives a record without id, or a
/// 32-bit integer. The first member that is not as it must be, in the
/// order name, email, id, decides the error.
pub open spec fn user_of_members(name: MemberView, email: MemberView, id: MemberView) -> Result<
    UserView,
    DecodeError,
> {
    match name {
        MemberView::Text(name) => match email {
            MemberView::Text(email) => match id {
                MemberView::Absent => Ok(UserView { id: None, name, email }),
                MemberView::Null => Ok(UserView { id: None, name, email }),
                MemberView::Integer(n) => if i32::MIN <= n <= i32::MAX {
                    Ok(UserView { id: Some(n as i32), name, email })
                } else {
                    Err(DecodeError::Id)
                },
                _ => Err(DecodeError::Id),
            },
            _ => Err(DecodeError::Email),
        },
        _ => Err(DecodeError::Name),
    }
}

/// The user record that a JSON value is: an object with the texts `name`
/// and `email`, and with an `id` or without. Other members do not count.
pub open spec fn user_of_json(json: Json) -> Result<UserView, DecodeError> {
    user_of_members(
        member_view(json, name_key()),
        member_view(json, email_key()),
        member_view(json, id_key()),
    )
}

/// The user record that a text is.
pub open spec fn user_of_text(text: Seq<char>) -> Result<UserView, DecodeError> {
    match json_parse(text) {
        Some(json) => user_of_json(json),
        None => Err(DecodeError::Syntax),
    }
}

/// What reading a record gave, the record taken as plain values.
pub open spec fn decoded_view(r: Result<User, DecodeError>) -> Result<UserView, DecodeError> {
    match r {
        Ok(user) => Ok(user@),
        Err(e) => Err(e),
    }
}

/// Makes a user record of three members.
pub fn user_from_members(name: Member, email: Member, id: Member) -> (r: Result<
    User,
    DecodeError,
>)
    ensures
        decoded_view(r) == user_of_members(name@, email@, id@),
{
    let name = match name {
        Member::Text(text) => text,
        _ => { return Err(DecodeError::Name); },
    };
    let email = match email {
        Member::Text(text) => text,
        _ => { return Err(DecodeError::Email); },
    };
    let id: Option<i32> = match id {
        Member::Absent => None,
        Member::Null => None,
        Member::Integer(n) => if -0x8000_0000 <= n && n <= 0x7fff_ffff {
            Some(n as i32)
        } else {
            return Err(DecodeError::Id);
        },
        _ => { return Err(DecodeError::Id); },
    };
    Ok(User { id, name, email })
}

/// Reads the member `key` of a JSON value.
pub fn read_member(value: &serde_json::Value, key: &str) -> (r: Member)
    ensures
        r@ == member_view(json_of(*value), key@),
{
    match member(value, key) {
        None => Member::Absent,
        Some(m) => {
            if is_null(m) {
                Member::Null
            } else {
                match as_text(m) {
                    Some(text) => Member::Text(String::from_str(text)),
                    None => match as_integer(m) {
                        Some(n) => Member::Integer(n),
                        None => Member::Other,
                    },
                }
            }
        },
    }
}

/// Reads a user record from a JSON value.
pub fn user_from_json(value: &serde_json::Value) -> (r: Result<User, DecodeError>)
    ensures
        decoded_view(r) == user_of_json(json_of(*value)),
{
    proof {
        reveal_strlit("id");
        reveal_strlit("name");
        reveal_strlit("email");
        assert("id"@ =~= id_key());
        assert("name"@ =~= name_key());
        assert("email"@ =~= email_key());
    }
    let name = read_member(value, "name");
    let email = read_member(value, "email");
    let id = read_member(value, "id");
    user_from_members(name, email, id)
}

/// Reads a user record from JSON text.
pub fn decode_user(text: &str) -> (r: Result<User, DecodeError>)
    ensures
        decoded_view(r) == user_of_text(text@),
{
    match parse(text) {
        Ok(value) => user_from_json(&value),
        Err(_) => Err(DecodeError::Syntax),
    }
}

/// Reads the user record that the body of `request` holds.
pub fn get_user_request_body(request: &str) -> (r: Result<User, DecodeError>)
    ensures
        decoded_view(r) == user_of_text(body_of(request@)),
{
    decode_user(get_body(request))
}

/// The JSON text of an id: its decimal numeral, or `null` where there is
/// none.
pub open spec fn id_text(id: Option<i32>) -> Seq<char> {
    match id {
        Some(n) => decimal(n as int),
        None => "null"@,
    }
}

/// The JSON object with the members `id`, `name` and `email`, in this
/// order and without blanks, each argument being the JSON text of one.
pub open spec fn object_text(id: Seq<char>, name: Seq<char>, email: Seq<char>) -> Seq<char> {
    "{\"id\":"@ + id + ",\"name\":"@ + name + ",\"email\":"@ + email + "}"@
}

/// The JSON text of a user record.
pub open spec fn user_text(user: UserView) -> Seq<char> {
    object_text(id_text(user.id), json_quoted(user.name), json_quoted(user.email))
}

/// The texts `items` with a comma before each.
pub open spec fn comma_each(items: Seq<Seq<char>>) -> Seq<char>
    decreases items.len(),
{
    if items.len() == 0 {
        Seq::empty()
    } else {
        comma_each(items.drop_last()) + ","@ + items.last()
    }
}

/// The JSON array of `items`, each being the JSON text of one element:
/// in square brackets, with a comma between two neighbours.
pub open spec fn array_text(items: Seq<Seq<char>>) -> Seq<char> {
    if items.len() == 0 {
        "[]"@
    } else {
        "["@ + items[0] + comma_each(items.skip(1)) + "]"@
    }
}

/// The JSON text of a sequence of user records.
pub open spec fn users_text(users: Seq<UserView>) -> Seq<char> {
    array_text(Seq::new(users.len(), |i: int| user_text(users[i])))
}

/// Writes the JSON object of a user record from the JSON texts of its
/// members.
pub fn frame_user(id: &str, name: &str, email: &str) -> (r: String)
    ensures
        r@ == object_text(id@, name@, email@),
{
    let mut out = String::from_str("{\"id\":");
    out.append(id);
    out.append(",\"name\":");
    out.append(name);
    out.append(",\"email\":");
    out.append(email);
    out.append("}");
    out
}

/// Writes a user record as JSON.
pub fn encode_user(user: &User) -> (r: String)
    ensures
        r@ == user_text(user@),
{
    let id = match user.id {
        Some(n) => format_i32(n),
        None => String::from_str("null"),
    };
    let name = quote(user.name.as_str());
    let email = quote(user.email.as_str());
    frame_user(id.as_str(), name.as_str(), email.as_str())
}

/// Writes a sequence of user records as a JSON array.
pub fn encode_users(users: &Vec<User>) -> (r: String)
    ensures
        r@ == users_text(views_of(users@)),
{
    let ghost texts = Seq::new(users.len() as nat, |i: int| user_text(views_of(users@)[i]));
    if users.len() == 0 {
        return String::from_str("[]");
    }
    let mut out = String::from_str("[");
    let first = encode_user(&users[0]);
    out.append(first.as_str());
    let mut i: usize = 1;
    while i < users.len()
        invariant
            1 <= i <= users.len(),
            texts == Seq::new(users.len() as nat, |i: int| user_text(views_of(users@)[i])),
            out@ == "["@ + texts[0] + comma_each(texts.skip(1).take(i - 1)),
        decreases users.len() - i,
    {
        let item = encode_user(&users[i]);
        out.append(",");
        out.append(item.as_str());
        proof {
            let done = texts.skip(1).take(i - 1);
            let next = texts.skip(1).take(i as int);
            assert(next.drop_last() == done);
            assert(next.last() == texts[i as int]);
            assert(out@ == "["@ + texts[0] + comma_each(done) + ","@ + item@);
            assert(out@ == "["@ + texts[0] + (comma_each(done) + ","@ + item@));
        }
        i += 1;
    }
    proof {
        assert(texts.skip(1).take(users.len() - 1) == texts.skip(1));
    }
    out.append("]");
    out
}

/// Reading a record from a body and writing it again keeps the name and
/// the email: the text written holds, as its members `name` and `email`,
/// the JSON string literals of the very texts that the body holds under
/// these names. The id is written as it was read, `null` where the body
/// had none.
pub proof fn lemma_rewritten_body_keeps_name_and_email(body: Seq<char>)
    requires
        user_of_text(body) is Ok,
    ensures
        json_parse(body) is Some,
        ({
            let json = json_parse(body)->Some_0;
            let user = user_of_text(body)->Ok_0;
            &&& member_of(json, name_key()) == Some(Json::Text(user.name))
            &&& member_of(json, email_key()) == Some(Json::Text(user.email))
            &&& user_text(user) == object_text(
                id_text(user.id),
                json_quoted(user.name),
                json_quoted(user.email),
            )
        }),
{
}

} // verus!
