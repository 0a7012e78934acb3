//! Request headers given as a JSON object.
use vstd::hash_map::StringHashMap;
use vstd::prelude::*;

use crate::session_params;

verus! {

/// A member of a JSON object, as far as headers look into it.
#[derive(Debug)]
pub enum HeaderValue {
    Null,
    Bool(bool),
    /// The numeral.
    Number(String),
    /// The characters of the string.
    Text(String),
    /// An array or an object.
    Compound,
}

/// What a [`HeaderValue`] holds.
pub ghost enum HeaderJson {
    Null,
    Bool(bool),
    Number(Seq<char>),
    Text(Seq<char>),
    Compound,
}

impl View for HeaderValue {
    type V = HeaderJson;

    open spec fn view(&self) -> HeaderJson {
        match *self {
            HeaderValue::Null => HeaderJson::Null,
            HeaderValue::Bool(b) => HeaderJson::Bool(b),
            HeaderValue::Number(n) => HeaderJson::Number(n@),
            HeaderValue::Text(t) => HeaderJson::Text(t@),
            HeaderValue::Compound => HeaderJson::Compound,
        }
    }
}

/// What a list of members holds.
pub open spec fn members_view(members: Seq<(String, HeaderValue)>) -> Seq<(Seq<char>, HeaderJson)> {
    members.map_values(|m: (String, HeaderValue)| (m.0@, m.1@))
}

/// The members of the JSON object `text`, or the complaint where it is not one.
pub uninterp spec fn json_object_members(text: Seq<char>) -> Result<
    Seq<(Seq<char>, HeaderJson)>,
    Seq<char>,
>;

/// Reads an object with `serde_json::from_str` and tells the kinds of `serde_json::Value` apart. The
/// members come sorted by their names, and the result is a function of the text alone.
#[verifier::external_body]
fn object_members(text: &str) -> (out: Result<Vec<(String, HeaderValue)>, String>)
    ensures
        match out {
            Ok(members) => json_object_members(text@) == Ok::<
                Seq<(Seq<char>, HeaderJson)>,
                Seq<char>,
            >(members_view(members@)),
            Err(complaint) => json_object_members(text@) == Err::<
                Seq<(Seq<char>, HeaderJson)>,
                Seq<char>,
            >(complaint@),
        },
{
    let object: std::collections::BTreeMap<String, serde_json::Value> =
        serde_json::from_str(text).map_err(|e| e.to_string())?;
    Ok(object.into_iter().map(|(key, value)| (key, match value {
        serde_json::Value::Null => HeaderValue::Null,
        serde_json::Value::Bool(b) => HeaderValue::Bool(b),
        serde_json::Value::Number(n) => HeaderValue::Number(n.to_string()),
        serde_json::Value::String(s) => HeaderValue::Text(s),
        serde_json::Value::Array(_) => HeaderValue::Compound,
        serde_json::Value::Object(_) => HeaderValue::Compound,
    })).collect())
}

/// Headers that cannot be used.
#[derive(Debug)]
pub enum HeadersError {
    /// They are no JSON object, with the reader's complaint.
    NotAnObject(String),
}

/// The text of a header: that of a string, a number or a boolean, and nothing for all else.
pub open spec fn header_text(value: HeaderJson) -> Seq<char> {
    match value {
        HeaderJson::Null => Seq::empty(),
        HeaderJson::Bool(b) => if b {
            "true"@
        } else {
            "false"@
        },
        HeaderJson::Number(n) => n,
        HeaderJson::Text(t) => t,
        HeaderJson::Compound => Seq::empty(),
    }
}

/// The headers that a list of members gives; of two with one name the later counts.
pub open spec fn headers_map(members: Seq<(Seq<char>, HeaderJson)>) -> Map<Seq<char>, Seq<char>>
    decreases members.len(),
{
    if members.len() == 0 {
        Map::empty()
    } else {
        headers_map(members.drop_last()).insert(members.last().0, header_text(members.last().1))
    }
}

fn text_of_value(value: &HeaderValue) -> (out: String)
    ensures
        out@ == header_text(value@),
{
    match value {
        HeaderValue::Null => String::new(),
        HeaderValue::Bool(b) => if *b {
            "true".to_owned()
        } else {
            "false".to_owned()
        },
        HeaderValue::Number(n) => n.clone(),
        HeaderValue::Text(t) => t.clone(),
        HeaderValue::Compound => String::new(),
    }
}

/// The headers that a list of members gives.
pub fn headers_of(members: &Vec<(String, HeaderValue)>) -> (out: StringHashMap<String>)
    ensures
        session_params::value_texts(out@) == headers_map(members_view(members@)),
{
    let mut out: StringHashMap<String> = StringHashMap::new();
    let ghost all = members_view(members@);
    let mut i: usize = 0;
    assert(session_params::value_texts(out@) =~= headers_map(all.take(0)));
    while i < members.len()
        invariant
            all == members_view(members@),
            i <= members.len(),
            session_params::value_texts(out@) == headers_map(all.take(i as int)),
        decreases members.len() - i,
    {
        let ghost seen = all.take(i + 1);
        let ghost before = out@;
        assert(seen.drop_last() =~= all.take(i as int));
        let value: String = text_of_value(&members[i].1);
        out.insert(members[i].0.clone(), value);
        assert(session_params::value_texts(out@) =~= session_params::value_texts(before).insert(
            seen.last().0,
            header_text(seen.last().1),
        ));
        i = i + 1;
    }
    assert(all.take(i as int) =~= all);
    out
}

/// Reads headers from the text of a JSON object. No text at all means no headers.
pub fn parse_headers(json_headers: &str) -> (out: Result<StringHashMap<String>, HeadersError>)
    ensures
        json_headers@.len() == 0 ==> (out matches Ok(headers) && headers@ == Map::<
            Seq<char>,
            String,
        >::empty()),
        json_headers@.len() > 0 ==> match json_object_members(json_headers@) {
            Ok(members) => out matches Ok(headers) && session_params::value_texts(headers@)
                == headers_map(members),
            Err(complaint) => out matches Err(HeadersError::NotAnObject(message)) && message@
                == complaint,
        },
{
    if json_headers.is_empty() {
        return Ok(StringHashMap::new());
    }
    match object_members(json_headers) {
        Ok(members) => Ok(headers_of(&members)),
        Err(complaint) => Err(HeadersError::NotAnObject(complaint)),
    }
}

/// No member is lost and no header is made up: the headers have the names of the members.
pub proof fn law_headers_have_the_members_names(
    members: Seq<(Seq<char>, HeaderJson)>,
    name: Seq<char>,
)
    ensures
        headers_map(members).contains_key(name) <==> exists|i: int|
            0 <= i < members.len() && (#[trigger] members[i]).0 == name,
    decreases members.len(),
{
    if members.len() > 0 {
        let fewer = members.drop_last();
        law_headers_have_the_members_names(fewer, name);
        if exists|i: int| 0 <= i < fewer.len() && (#[trigger] fewer[i]).0 == name {
            let i = choose|i: int| 0 <= i < fewer.len() && (#[trigger] fewer[i]).0 == name;
            assert(members[i].0 == name);
        }
        if exists|i: int| 0 <= i < members.len() && (#[trigger] members[i]).0 == name {
            let i = choose|i: int| 0 <= i < members.len() && (#[trigger] members[i]).0 == name;
            if i < fewer.len() {
                assert(fewer[i].0 == name);
            }
        }
        assert(members.last() == members[members.len() - 1]);
    }
}

/// Each member gives its name the text of its value, over any earlier member of that name: a string
/// itself, a number its numeral, a boolean its word, and anything else nothing. Other headers stay.
pub proof fn law_each_member_becomes_its_text(
    members: Seq<(Seq<char>, HeaderJson)>,
    name: Seq<char>,
    text: Seq<char>,
)
    ensures
        headers_map(Seq::empty()) == Map::<Seq<char>, Seq<char>>::empty(),
        headers_map(members.push((name, HeaderJson::Text(text)))) == headers_map(members).insert(
            name,
            text,
        ),
        headers_map(members.push((name, HeaderJson::Number(text)))) == headers_map(members).insert(
            name,
            text,
        ),
        headers_map(members.push((name, HeaderJson::Bool(true)))) == headers_map(members).insert(
            name,
            "true"@,
        ),
        headers_map(members.push((name, HeaderJson::Bool(false)))) == headers_map(members).insert(
            name,
            "false"@,
        ),
        headers_map(members.push((name, HeaderJson::Null))) == headers_map(members).insert(
            name,
            Seq::empty(),
        ),
        headers_map(members.push((name, HeaderJson::Compound))) == headers_map(members).insert(
            name,
            Seq::empty(),
        ),
{
    assert(members.push((name, HeaderJson::Text(text))).drop_last() =~= members);
    assert(members.push((name, HeaderJson::Number(text))).drop_last() =~= members);
    assert(members.push((name, HeaderJson::Bool(true))).drop_last() =~= members);
    assert(members.push((name, HeaderJson::Bool(false))).drop_last() =~= members);
    assert(members.push((name, HeaderJson::Null)).drop_last() =~= members);
    assert(members.push((name, HeaderJson::Compound)).drop_last() =~= members);
}

/// A value is told by its kind and with all of its text.
pub proof fn law_values_keep_their_texts(text: String, yes: bool)
    ensures
        HeaderValue::Text(text)@ == HeaderJson::Text(text@),
        HeaderValue::Number(text)@ == HeaderJson::Number(text@),
        HeaderValue::Bool(yes)@ == HeaderJson::Bool(yes),
        HeaderValue::Null@ == HeaderJson::Null,
        HeaderValue::Compound@ == HeaderJson::Compound,
{
}

} // verus!
