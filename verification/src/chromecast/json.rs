//! JSON as the control channel carries it: texts are quoted for sending, and
//! what arrives is read into a tree.

use vstd::prelude::*;
use vstd::string::*;

use crate::text::{digit_char, push_signed_decimal, signed_decimal, str_eq};

verus! {

/// A character inside a JSON text.
pub open spec fn escaped(c: char) -> Seq<char> {
    if c == '"' {
        seq!['\\', '"']
    } else if c == '\\' {
        seq!['\\', '\\']
    } else if c as u32 == 8 {
        seq!['\\', 'b']
    } else if c as u32 == 12 {
        seq!['\\', 'f']
    } else if c == '\n' {
        seq!['\\', 'n']
    } else if c == '\r' {
        seq!['\\', 'r']
    } else if c == '\t' {
        seq!['\\', 't']
    } else if (c as u32) < 32 {
        seq!['\\', 'u', '0', '0', digit_char(c as nat / 16), digit_char(c as nat % 16)]
    } else {
        seq![c]
    }
}

/// The characters of a text, each escaped.
pub open spec fn escaped_all(s: Seq<char>) -> Seq<char>
    decreases s.len(),
{
    if s.len() == 0 {
        Seq::empty()
    } else {
        escaped_all(s.drop_last()) + escaped(s.last())
    }
}

/// A text in JSON: quotation marks around the escaped characters.
pub open spec fn quoted(s: Seq<char>) -> Seq<char> {
    seq!['"'] + escaped_all(s) + seq!['"']
}

/// `serde_json::to_string` of a text.
#[verifier::external_body]
pub(crate) fn quote(s: &str) -> (out: String)
    ensures
        out@ == quoted(s@),
{
    serde_json::to_string(s).unwrap()
}

/// A member of an object: its name and the JSON text of its value.
pub type Member = (Seq<char>, Seq<char>);

/// The members of an object, a comma between them.
pub open spec fn member_list(members: Seq<Member>) -> Seq<char>
    decreases members.len(),
{
    if members.len() == 0 {
        Seq::empty()
    } else {
        let last = quoted(members.last().0) + ":"@ + members.last().1;
        if members.len() == 1 {
            last
        } else {
            member_list(members.drop_last()) + ","@ + last
        }
    }
}

/// An object with the members in their order.
pub open spec fn object(members: Seq<Member>) -> Seq<char> {
    "{"@ + member_list(members) + "}"@
}

/// The items of a list, a comma between them.
pub open spec fn item_list(items: Seq<Seq<char>>) -> Seq<char>
    decreases items.len(),
{
    if items.len() == 0 {
        Seq::empty()
    } else if items.len() == 1 {
        items[0]
    } else {
        item_list(items.drop_last()) + ","@ + items.last()
    }
}

/// A list of the items in their order.
pub open spec fn list(items: Seq<Seq<char>>) -> Seq<char> {
    "["@ + item_list(items) + "]"@
}

/// The members as text.
pub open spec fn members_of(members: Seq<(String, String)>) -> Seq<Member> {
    members.map_values(|m: (String, String)| (m.0@, m.1@))
}

/// The items as text.
pub open spec fn items_of(items: Seq<String>) -> Seq<Seq<char>> {
    items.map_values(|s: String| s@)
}

/// An object with the members in their order.
pub fn object_text(members: &Vec<(String, String)>) -> (out: String)
    ensures
        out@ == object(members_of(members@)),
{
    let mut out: String = "{".to_owned();
    let ghost all = members_of(members@);
    let mut i: usize = 0;
    assert(out@ =~= "{"@ + member_list(all.take(0)));
    while i < members.len()
        invariant
            all == members_of(members@),
            i <= members@.len(),
            out@ == "{"@ + member_list(all.take(i as int)),
        decreases members@.len() - i,
    {
        if i > 0 {
            out.append(",");
        }
        let name: String = quote(members[i].0.as_str());
        out.append(name.as_str());
        out.append(":");
        out.append(members[i].1.as_str());
        proof {
            let next = all.take(i + 1);
            assert(next.drop_last() =~= all.take(i as int));
            assert(next.last() == all[i as int]);
            assert(out@ =~= "{"@ + member_list(next));
        }
        i = i + 1;
    }
    assert(all.take(all.len() as int) =~= all);
    out.append("}");
    out
}

/// A list of the items in their order.
pub fn list_text(items: &Vec<String>) -> (out: String)
    ensures
        out@ == list(items_of(items@)),
{
    let mut out: String = "[".to_owned();
    let ghost all = items_of(items@);
    let mut i: usize = 0;
    assert(out@ =~= "["@ + item_list(all.take(0)));
    while i < items.len()
        invariant
            all == items_of(items@),
            i <= items@.len(),
            out@ == "["@ + item_list(all.take(i as int)),
        decreases items@.len() - i,
    {
        if i > 0 {
            out.append(",");
        }
        out.append(items[i].as_str());
        proof {
            let next = all.take(i + 1);
            assert(next.drop_last() =~= all.take(i as int));
            assert(next.last() == all[i as int]);
            assert(out@ =~= "["@ + item_list(next));
        }
        i = i + 1;
    }
    assert(all.take(all.len() as int) =~= all);
    out.append("]");
    out
}

/// A member whose value is a text.
pub fn text_entry(name: &str, value: &str) -> (m: (String, String))
    ensures
        (m.0@, m.1@) == (name@, quoted(value@)),
{
    (name.to_owned(), quote(value))
}

/// A member whose value is an integer.
pub fn int_entry(name: &str, value: i64) -> (m: (String, String))
    ensures
        (m.0@, m.1@) == (name@, signed_decimal(value as int)),
{
    let mut text: String = String::new();
    push_signed_decimal(&mut text, value);
    assert(text@ =~= signed_decimal(value as int));
    (name.to_owned(), text)
}

/// A member whose value is JSON already.
pub fn raw_entry(name: &str, value: String) -> (m: (String, String))
    ensures
        (m.0@, m.1@) == (name@, value@),
{
    (name.to_owned(), value)
}

/// A number: the integer of 64 bits that it is, if it is one, its text, and
/// the text of the floating point number that it stands for.
#[derive(Debug, PartialEq, Eq)]
pub struct JsonNumber {
    pub int: Option<i64>,
    pub text: String,
    pub float: String,
}

/// A JSON value. Lists and objects carry their text too; the members of an
/// object are in the order of their names, each name once.
#[derive(Debug, PartialEq, Eq)]
pub enum Json {
    Null,
    Bool(bool),
    Number(JsonNumber),
    Text(String),
    List(Vec<Json>, String),
    Object(Vec<(String, Json)>, String),
}

/// What a number says.
pub struct NumberTree {
    pub int: Option<i64>,
    pub text: Seq<char>,
    pub float: Seq<char>,
}

/// What a JSON value says.
pub enum Tree {
    Null,
    Bool(bool),
    Number(NumberTree),
    Text(Seq<char>),
    List(Seq<Tree>, Seq<char>),
    Object(Seq<(Seq<char>, Tree)>, Seq<char>),
}

impl View for JsonNumber {
    type V = NumberTree;

    open spec fn view(&self) -> NumberTree {
        NumberTree { int: self.int, text: self.text@, float: self.float@ }
    }
}

/// What a JSON value says.
pub open spec fn tree_of(j: Json) -> Tree
    decreases j,
{
    match j {
        Json::Null => Tree::Null,
        Json::Bool(b) => Tree::Bool(b),
        Json::Number(n) => Tree::Number(n@),
        Json::Text(s) => Tree::Text(s@),
        Json::List(items, text) => Tree::List(
            Seq::new(
                items@.len(),
                |i: int|
                    if 0 <= i < items@.len() {
                        tree_of(items@[i])
                    } else {
                        Tree::Null
                    },
            ),
            text@,
        ),
        Json::Object(members, text) => Tree::Object(
            Seq::new(
                members@.len(),
                |i: int|
                    if 0 <= i < members@.len() {
                        (members@[i].0@, tree_of(members@[i].1))
                    } else {
                        (Seq::empty(), Tree::Null)
                    },
            ),
            text@,
        ),
    }
}

/// The value that a text spells, or what is wrong with the text.
pub uninterp spec fn json_parsed(text: Seq<char>) -> Result<Tree, Seq<char>>;

/// The `Value` of serde_json.
#[verifier::external_type_specification]
#[verifier::external_body]
pub struct ExJsonValue(serde_json::Value);

/// A `Value` of serde_json as a tree of the library, node by node; the second
/// half of [`parse`], whose contract speaks of both.
#[verifier::external_body]
fn json_of(value: serde_json::Value) -> (json: Json)
{
    let text = value.to_string();
    match value {
        serde_json::Value::Null => Json::Null,
        serde_json::Value::Bool(b) => Json::Bool(b),
        serde_json::Value::Number(n) => {
            let float = n.as_f64().and_then(serde_json::Number::from_f64).map(|f| f.to_string());
            Json::Number(JsonNumber { int: n.as_i64(), text, float: float.unwrap_or_default() })
        },
        serde_json::Value::String(s) => Json::Text(s),
        serde_json::Value::Array(a) => Json::List(a.into_iter().map(json_of).collect(), text),
        serde_json::Value::Object(m) => {
            Json::Object(m.into_iter().map(|(k, v)| (k, json_of(v))).collect(), text)
        },
    }
}

/// `serde_json::from_str` into a `Value`: a function of the text. Which texts
/// are JSON and what they spell is left to the name.
#[verifier::external_body]
pub(crate) fn parse(text: &str) -> (out: Result<Json, String>)
    ensures
        match out {
            Ok(j) => json_parsed(text@) == Ok::<Tree, Seq<char>>(tree_of(j)),
            Err(e) => json_parsed(text@) == Err::<Tree, Seq<char>>(e@),
        },
{
    serde_json::from_str::<serde_json::Value>(text).map(json_of).map_err(|e| e.to_string())
}

/// The place of the first member with the name from `from` on, or the number
/// of members.
pub open spec fn member_place(members: Seq<(Seq<char>, Tree)>, name: Seq<char>, from: int) -> int
    decreases members.len() - from,
{
    if from >= members.len() {
        members.len() as int
    } else if members[from].0 == name {
        from
    } else {
        member_place(members, name, from + 1)
    }
}

impl Tree {
    /// The member with the name, where this is an object that has one.
    pub open spec fn member(self, name: Seq<char>) -> Option<Tree> {
        match self {
            Tree::Object(members, _) => {
                let at = member_place(members, name, 0);
                if 0 <= at < members.len() {
                    Some(members[at].1)
                } else {
                    None
                }
            },
            _ => None,
        }
    }

    /// The text of a text.
    pub open spec fn as_text(self) -> Option<Seq<char>> {
        match self {
            Tree::Text(s) => Some(s),
            _ => None,
        }
    }

    /// The integer of a number that is one.
    pub open spec fn as_int(self) -> Option<i64> {
        match self {
            Tree::Number(n) => n.int,
            _ => None,
        }
    }

    /// The value of a truth value.
    pub open spec fn as_flag(self) -> Option<bool> {
        match self {
            Tree::Bool(b) => Some(b),
            _ => None,
        }
    }

    /// The floating point number of a number, as text.
    pub open spec fn as_float(self) -> Option<Seq<char>> {
        match self {
            Tree::Number(n) => Some(n.float),
            _ => None,
        }
    }

    /// The text of the member with the name.
    pub open spec fn text_member(self, name: Seq<char>) -> Option<Seq<char>> {
        match self.member(name) {
            Some(t) => t.as_text(),
            None => None,
        }
    }

    /// The integer of the member with the name.
    pub open spec fn int_member(self, name: Seq<char>) -> Option<i64> {
        match self.member(name) {
            Some(t) => t.as_int(),
            None => None,
        }
    }

    /// The truth value of the member with the name.
    pub open spec fn flag_member(self, name: Seq<char>) -> Option<bool> {
        match self.member(name) {
            Some(t) => t.as_flag(),
            None => None,
        }
    }

    /// The floating point number of the member with the name, as text.
    pub open spec fn float_member(self, name: Seq<char>) -> Option<Seq<char>> {
        match self.member(name) {
            Some(t) => t.as_float(),
            None => None,
        }
    }

    /// The value as text: a text as it is, anything else in JSON.
    pub open spec fn shown(self) -> Seq<char> {
        match self {
            Tree::Null => "null"@,
            Tree::Bool(b) => if b {
                "true"@
            } else {
                "false"@
            },
            Tree::Number(n) => n.text,
            Tree::Text(s) => s,
            Tree::List(_, text) => text,
            Tree::Object(_, text) => text,
        }
    }
}

/// The text of an optional string.
pub open spec fn text_of_option(s: Option<String>) -> Option<Seq<char>> {
    match s {
        Some(t) => Some(t@),
        None => None,
    }
}

impl Json {
    /// The member with the name, where this is an object that has one.
    pub fn member(&self, name: &str) -> (value: Option<&Json>)
        ensures
            match value {
                Some(j) => tree_of(*self).member(name@) == Some(tree_of(*j)),
                None => tree_of(*self).member(name@) is None,
            },
    {
        match self {
            Json::Object(members, _) => {
                let ghost all = tree_of(*self)->Object_0;
                let mut i: usize = 0;
                while i < members.len()
                    invariant
                        i <= members@.len(),
                        *self matches Json::Object(m, _) && m == *members,
                        all == tree_of(*self)->Object_0,
                        all.len() == members@.len(),
                        member_place(all, name@, i as int) == member_place(all, name@, 0),
                    decreases members@.len() - i,
                {
                    assert(all[i as int] == (members@[i as int].0@, tree_of(members@[i as int].1)));
                    if str_eq(members[i].0.as_str(), name) {
                        return Some(&members[i].1);
                    }
                    i = i + 1;
                }
                None
            },
            _ => None,
        }
    }

    /// The text of the member with the name.
    pub fn text_member(&self, name: &str) -> (value: Option<String>)
        ensures
            text_of_option(value) == tree_of(*self).text_member(name@),
    {
        match self.member(name) {
            Some(Json::Text(s)) => Some(s.clone()),
            _ => None,
        }
    }

    /// The integer of the member with the name.
    pub fn int_member(&self, name: &str) -> (value: Option<i64>)
        ensures
            value == tree_of(*self).int_member(name@),
    {
        match self.member(name) {
            Some(Json::Number(n)) => n.int,
            _ => None,
        }
    }

    /// The truth value of the member with the name.
    pub fn flag_member(&self, name: &str) -> (value: Option<bool>)
        ensures
            value == tree_of(*self).flag_member(name@),
    {
        match self.member(name) {
            Some(Json::Bool(b)) => Some(*b),
            _ => None,
        }
    }

    /// The floating point number of the member with the name, as text.
    pub fn float_member(&self, name: &str) -> (value: Option<String>)
        ensures
            text_of_option(value) == tree_of(*self).float_member(name@),
    {
        match self.member(name) {
            Some(Json::Number(n)) => Some(n.float.clone()),
            _ => None,
        }
    }

    /// The value as text: a text as it is, anything else in JSON.
    pub fn shown(&self) -> (out: String)
        ensures
            out@ == tree_of(*self).shown(),
    {
        match self {
            Json::Null => "null".to_owned(),
            Json::Bool(b) => if *b {
                "true".to_owned()
            } else {
                "false".to_owned()
            },
            Json::Number(n) => n.text.clone(),
            Json::Text(s) => s.clone(),
            Json::List(_, text) => text.clone(),
            Json::Object(_, text) => text.clone(),
        }
    }
}

/// Whether the text is an object that has the member.
#[verifier::opaque]
pub open spec fn has_member(text: Seq<char>, name: Seq<char>, value: Seq<char>) -> bool {
    exists|members: Seq<Member>| text == #[trigger] object(members) && members.contains(
        (name, value),
    )
}

/// An object has each of its members.
pub proof fn lemma_has_member(members: Seq<Member>, i: int)
    requires
        0 <= i < members.len(),
    ensures
        has_member(object(members), members[i].0, members[i].1),
{
    reveal(has_member);
    assert(members.contains((members[i].0, members[i].1)));
}

/// What is quoted stands between quotation marks, with none and no backslash
/// of its own: a reader finds the end.
pub proof fn quoted_texts_end_where_they_should(s: Seq<char>)
    requires
        forall|i: int|
            0 <= i < s.len() ==> (#[trigger] s[i]) as u32 >= 32 && s[i] != '"' && s[i] != '\\',
    ensures
        quoted(s) == seq!['"'] + s + seq!['"'],
    decreases s.len(),
{
    lemma_plain(s);
}

proof fn lemma_plain(s: Seq<char>)
    requires
        forall|i: int|
            0 <= i < s.len() ==> (#[trigger] s[i]) as u32 >= 32 && s[i] != '"' && s[i] != '\\',
    ensures
        escaped_all(s) == s,
    decreases s.len(),
{
    if s.len() > 0 {
        let rest = s.drop_last();
        assert forall|i: int| 0 <= i < rest.len() implies (#[trigger] rest[i]) as u32 >= 32
            && rest[i] != '"' && rest[i] != '\\' by {
            assert(rest[i] == s[i]);
        }
        lemma_plain(rest);
        assert(s.last() == s[s.len() - 1]);
        assert(escaped_all(s) =~= s);
    } else {
        assert(escaped_all(s) =~= s);
    }
}

/// A member is found by its name, the first of several; a name that no member
/// has finds nothing.
pub proof fn members_are_found_by_name(members: Seq<(Seq<char>, Tree)>, text: Seq<char>, i: int)
    requires
        0 <= i < members.len(),
        forall|j: int| 0 <= j < i ==> (#[trigger] members[j]).0 != members[i].0,
    ensures
        Tree::Object(members, text).member(members[i].0) == Some(members[i].1),
        forall|name: Seq<char>|
            (forall|j: int| 0 <= j < members.len() ==> (#[trigger] members[j]).0 != name) ==> (
            #[trigger] Tree::Object(members, text).member(name)) is None,
        (members[i].1 matches Tree::Text(t) ==> Tree::Object(members, text).text_member(
            members[i].0,
        ) == Some(t)),
        (members[i].1 matches Tree::Bool(b) ==> Tree::Object(members, text).flag_member(
            members[i].0,
        ) == Some(b)),
        (members[i].1 matches Tree::Number(n) ==> Tree::Object(members, text).int_member(
            members[i].0,
        ) == n.int && Tree::Object(members, text).float_member(members[i].0) == Some(n.float)),
{
    lemma_member_place(members, members[i].0, 0, i);
    assert forall|name: Seq<char>|
        (forall|j: int| 0 <= j < members.len() ==> (#[trigger] members[j]).0 != name) implies (
    #[trigger] Tree::Object(members, text).member(name)) is None by {
        lemma_no_member(members, name, 0);
    }
}

proof fn lemma_member_place(members: Seq<(Seq<char>, Tree)>, name: Seq<char>, from: int, i: int)
    requires
        0 <= from <= i < members.len(),
        members[i].0 == name,
        forall|j: int| 0 <= j < i ==> (#[trigger] members[j]).0 != name,
    ensures
        member_place(members, name, from) == i,
    decreases i - from,
{
    if from < i {
        assert(members[from].0 != name);
        lemma_member_place(members, name, from + 1, i);
    }
}

proof fn lemma_no_member(members: Seq<(Seq<char>, Tree)>, name: Seq<char>, from: int)
    requires
        0 <= from <= members.len(),
        forall|j: int| 0 <= j < members.len() ==> (#[trigger] members[j]).0 != name,
    ensures
        member_place(members, name, from) == members.len(),
    decreases members.len() - from,
{
    if from < members.len() {
        assert(members[from].0 != name);
        lemma_no_member(members, name, from + 1);
    }
}

} // verus!
