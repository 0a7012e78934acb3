//! Resolves the parameters of a client session.
//!
//! - `manager_url` comes from the extension's constant; where that is blank, the default is taken.
//!   A `manager_url=` in the startup parameter is outside the contract and is ignored.
//! - `client_uid` comes from `client_uid=` in the startup parameter, else from the caller, else a
//!   fresh random one is drawn.
//! - `kind` comes from `kind=` in the startup parameter, else from the flags in the launch string.
//! - `correlation_id` comes from `correlation_id=` in the startup parameter.
use vstd::hash_map::StringHashMap;
use vstd::prelude::*;

use crate::json;
use crate::text;

pub mod kinds;

verus! {

/// The manager's address where none is configured.
pub const DEFAULT_MANAGER_URL: &'static str = "ws://127.0.0.1:4000/sessions";

/// The name of the extension's constant that holds the manager's address. It is read on the 1C
/// side.
pub const MANAGER_URL_CONSTANT: &'static str = "WebTransportSessionManagerURL";

/// What the 1C side hands to [`resolve`].
#[derive(Debug)]
pub struct ResolveInput {
    /// The constant `WebTransportSessionManagerURL`, empty where it is not set.
    pub constant_url: String,
    /// The full launch command.
    pub launch_string: String,
    /// What stands in the key `/C"..."`, without the quotes.
    pub startup_param: String,
    /// The client's identifier, empty where there is none.
    pub client_uid: String,
}

impl Default for ResolveInput {
    fn default() -> (out: Self)
        ensures
            out.constant_url@.len() == 0,
            out.launch_string@.len() == 0,
            out.startup_param@.len() == 0,
            out.client_uid@.len() == 0,
    {
        ResolveInput {
            constant_url: String::new(),
            launch_string: String::new(),
            startup_param: String::new(),
            client_uid: String::new(),
        }
    }
}

impl Clone for ResolveInput {
    fn clone(&self) -> (out: Self)
        ensures
            out == *self,
    {
        ResolveInput {
            constant_url: self.constant_url.clone(),
            launch_string: self.launch_string.clone(),
            startup_param: self.startup_param.clone(),
            client_uid: self.client_uid.clone(),
        }
    }
}

/// What [`resolve`] finds.
#[derive(Debug, PartialEq, Eq)]
pub struct SessionParams {
    pub manager_url: String,
    pub client_uid: String,
    pub kind: String,
    /// `None` where the startup parameter has no `correlation_id=`.
    pub correlation_id: Option<String>,
}

impl Clone for SessionParams {
    fn clone(&self) -> (out: Self)
        ensures
            out == *self,
    {
        SessionParams {
            manager_url: self.manager_url.clone(),
            client_uid: self.client_uid.clone(),
            kind: self.kind.clone(),
            correlation_id: self.correlation_id.clone(),
        }
    }
}

/// The pairs that a list of words holds. A word is a pair where an `=` stands in it and not at its
/// start: the first `=` parts the key from the value. Of two pairs with one key the later wins.
pub open spec fn pairs_of(tokens: Seq<Seq<char>>) -> Map<Seq<char>, Seq<char>>
    decreases tokens.len(),
{
    if tokens.len() == 0 {
        Map::empty()
    } else {
        let earlier = pairs_of(tokens.drop_last());
        match text::cut(tokens.last(), '=') {
            Some((k, v)) => if k.len() > 0 {
                earlier.insert(k, v)
            } else {
                earlier
            },
            None => earlier,
        }
    }
}

/// The pairs of a startup parameter.
pub open spec fn startup_pairs(raw: Seq<char>) -> Map<Seq<char>, Seq<char>> {
    pairs_of(text::words(raw))
}

/// The value that a startup parameter gives to `key`.
pub open spec fn startup_value(raw: Seq<char>, key: Seq<char>) -> Option<Seq<char>> {
    if startup_pairs(raw).contains_key(key) {
        Some(startup_pairs(raw)[key])
    } else {
        None
    }
}

/// The characters of each value of a map.
pub open spec fn value_texts(m: Map<Seq<char>, String>) -> Map<Seq<char>, Seq<char>> {
    m.map_values(|v: String| v@)
}

/// The manager's address for a given constant.
pub open spec fn resolved_url(constant: Seq<char>) -> Seq<char> {
    if text::trimmed(constant).len() == 0 {
        DEFAULT_MANAGER_URL@
    } else {
        text::trimmed(constant)
    }
}

/// The kind that the launch string shows, whatever the case of its letters.
pub open spec fn inferred_kind(launch: Seq<char>) -> Seq<char> {
    if text::occurs(text::upper(launch), "/TESTMANAGER"@) {
        kinds::VANESSA_MANAGER@
    } else if text::occurs(text::upper(launch), "/TESTCLIENT"@) {
        kinds::VANESSA_TEST_CLIENT@
    } else if text::occurs(text::upper(launch), "RUNYAXUNIT"@) {
        kinds::YAXUNIT_RUNNER@
    } else {
        kinds::CLIENT@
    }
}

/// `value` where it is there and not empty, else `other`.
pub open spec fn non_empty_or(value: Option<Seq<char>>, other: Seq<char>) -> Seq<char> {
    match value {
        Some(v) => if v.len() > 0 {
            v
        } else {
            other
        },
        None => other,
    }
}

/// The kind for a given startup parameter and launch string.
pub open spec fn resolved_kind(startup: Seq<char>, launch: Seq<char>) -> Seq<char> {
    non_empty_or(startup_value(startup, "kind"@), inferred_kind(launch))
}

/// The client's identifier for a given startup parameter, the caller's identifier and a fresh one.
pub open spec fn resolved_uid(startup: Seq<char>, given: Seq<char>, fresh: Seq<char>) -> Seq<char> {
    non_empty_or(
        startup_value(startup, "client_uid"@),
        if given.len() > 0 {
            given
        } else {
            fresh
        },
    )
}

/// What [`resolve`] finds for `input` where `fresh` is the identifier that it may draw.
pub open spec fn resolves_to(input: ResolveInput, fresh: Seq<char>, out: SessionParams) -> bool {
    &&& out.manager_url@ == resolved_url(input.constant_url@)
    &&& out.kind@ == resolved_kind(input.startup_param@, input.launch_string@)
    &&& out.client_uid@ == resolved_uid(input.startup_param@, input.client_uid@, fresh)
    &&& match out.correlation_id {
        Some(id) => startup_value(input.startup_param@, "correlation_id"@) == Some(id@),
        None => startup_value(input.startup_param@, "correlation_id"@) is None,
    }
}

/// Whether no source gives the client's identifier.
pub open spec fn needs_fresh_uid(input: ResolveInput) -> bool {
    non_empty_or(startup_value(input.startup_param@, "client_uid"@), input.client_uid@).len() == 0
}

/// The JSON text of session parameters.
pub open spec fn params_json(
    manager_url: Seq<char>,
    client_uid: Seq<char>,
    kind: Seq<char>,
    correlation_id: Option<Seq<char>>,
) -> Seq<char> {
    "{\"manager_url\":"@ + (json::json_string(manager_url) + (",\"client_uid\":"@ + (json::json_string(
        client_uid,
    ) + (",\"kind\":"@ + (json::json_string(kind) + match correlation_id {
        Some(id) => ",\"correlation_id\":"@ + (json::json_string(id) + "}"@),
        None => "}"@,
    })))))
}

/// A digit of a lower case hexadecimal numeral.
pub open spec fn is_hex(c: char) -> bool {
    '0' <= c <= '9' || 'a' <= c <= 'f'
}

/// The hyphenated lower case form of a version 4 identifier.
pub open spec fn is_uuid_v4(s: Seq<char>) -> bool {
    &&& s.len() == 36
    &&& s[8] == '-' && s[13] == '-' && s[18] == '-' && s[23] == '-'
    &&& s[14] == '4'
    &&& s[19] == '8' || s[19] == '9' || s[19] == 'a' || s[19] == 'b'
    &&& forall|i: int|
        0 <= i < 36 && i != 8 && i != 13 && i != 18 && i != 23 ==> is_hex(#[trigger] s[i])
}

/// Prints `uuid::Uuid::new_v4()`. Which identifier comes is left to chance; of each one it holds
/// that its text is hyphenated lower case hexadecimal with the version digit 4 and the variant
/// digit 8, 9, a or b.
#[verifier::external_body]
fn random_uuid() -> (s: String)
    ensures
        is_uuid_v4(s@),
{
    uuid::Uuid::new_v4().to_string()
}

/// Whether `uid` can be the outcome of drawing an identifier.
pub closed spec fn is_drawn(uid: String) -> bool {
    call_ensures(random_uuid, (), uid)
}

/// Draws a fresh client identifier.
pub fn fresh_client_uid() -> (uid: String)
    ensures
        is_drawn(uid),
        is_uuid_v4(uid@),
{
    random_uuid()
}

/// Resolves the session parameters. It reads nothing but `input`, and draws a fresh identifier only
/// where neither the startup parameter nor the caller gives one.
pub fn resolve(input: &ResolveInput) -> (out: SessionParams)
    ensures
        resolves_to(*input, out.client_uid@, out),
        needs_fresh_uid(*input) ==> is_drawn(out.client_uid) && is_uuid_v4(out.client_uid@),
{
    let pairs = parse_startup_param(input.startup_param.as_str());
    let named: bool = match pairs.get("client_uid") {
        Some(uid) => !uid.as_str().is_empty(),
        None => false,
    };
    let fresh = if !named && input.client_uid.as_str().is_empty() {
        fresh_client_uid()
    } else {
        String::new()
    };
    resolve_pairs(input, &pairs, fresh)
}

/// Resolves the session parameters, with `fresh` as the identifier that is taken where none is
/// given.
pub fn resolve_with(input: &ResolveInput, fresh: String) -> (out: SessionParams)
    ensures
        resolves_to(*input, fresh@, out),
{
    let pairs = parse_startup_param(input.startup_param.as_str());
    resolve_pairs(input, &pairs, fresh)
}

fn resolve_pairs(
    input: &ResolveInput,
    pairs: &StringHashMap<String>,
    fresh: String,
) -> (out: SessionParams)
    requires
        value_texts(pairs@) == startup_pairs(input.startup_param@),
    ensures
        resolves_to(*input, fresh@, out),
        needs_fresh_uid(*input) ==> out.client_uid == fresh,
{
    let constant = text::trim(input.constant_url.as_str());
    let manager_url = if constant.is_empty() {
        DEFAULT_MANAGER_URL.to_owned()
    } else {
        constant.to_owned()
    };
    let kind = match pairs.get("kind") {
        Some(k) if !k.as_str().is_empty() => k.clone(),
        _ => infer_kind(input.launch_string.as_str()),
    };
    let client_uid = match pairs.get("client_uid") {
        Some(uid) if !uid.as_str().is_empty() => uid.clone(),
        _ => if input.client_uid.as_str().is_empty() {
            fresh
        } else {
            input.client_uid.clone()
        },
    };
    let correlation_id = match pairs.get("correlation_id") {
        Some(id) => Some(id.clone()),
        None => None,
    };
    SessionParams { manager_url, client_uid, kind, correlation_id }
}

/// Reads a startup parameter of the form `key=value key=value`. The later of two pairs with one key
/// wins; a word without `=`, or with nothing before it, is skipped.
pub fn parse_startup_param(raw: &str) -> (out: StringHashMap<String>)
    ensures
        value_texts(out@) == startup_pairs(raw@),
{
    let tokens: Vec<String> = text::split_words(raw);
    let mut out: StringHashMap<String> = StringHashMap::new();
    let ghost all = text::words(raw@);
    let mut i: usize = 0;
    assert(value_texts(out@) =~= pairs_of(all.take(0)));
    while i < tokens.len()
        invariant
            tokens.deep_view() == all,
            i <= tokens.len(),
            value_texts(out@) == pairs_of(all.take(i as int)),
        decreases tokens.len() - i,
    {
        let ghost seen = all.take(i + 1);
        assert(seen.drop_last() =~= all.take(i as int));
        assert(seen.last() == tokens[i as int]@);
        match text::cut_at(tokens[i].as_str(), '=') {
            Some((k, v)) => if !k.is_empty() {
                let ghost before = out@;
                out.insert(k.to_owned(), v.to_owned());
                assert(value_texts(out@) =~= value_texts(before).insert(k@, v@));
            },
            None => {},
        }
        i = i + 1;
    }
    assert(all.take(i as int) =~= all);
    out
}

/// Finds the kind in the launch string. The case of letters does not matter.
pub fn infer_kind(launch_string: &str) -> (kind: String)
    ensures
        kind@ == inferred_kind(launch_string@),
{
    let shouted: Vec<char> = text::upper_chars(launch_string);
    if text::contains(&shouted, "/TESTMANAGER") {
        kinds::VANESSA_MANAGER.to_owned()
    } else if text::contains(&shouted, "/TESTCLIENT") {
        kinds::VANESSA_TEST_CLIENT.to_owned()
    } else if text::contains(&shouted, "RUNYAXUNIT") {
        kinds::YAXUNIT_RUNNER.to_owned()
    } else {
        kinds::CLIENT.to_owned()
    }
}

impl SessionParams {
    /// The JSON text of these parameters, for the 1C side. An absent correlation identifier has no
    /// member.
    pub fn to_json(&self) -> (out: String)
        ensures
            out@ == params_json(
                self.manager_url@,
                self.client_uid@,
                self.kind@,
                text::text_of(self.correlation_id),
            ),
    {
        let mut out = "{\"manager_url\":".to_owned();
        out.append(json::quote(self.manager_url.as_str()).as_str());
        out.append(",\"client_uid\":");
        out.append(json::quote(self.client_uid.as_str()).as_str());
        out.append(",\"kind\":");
        out.append(json::quote(self.kind.as_str()).as_str());
        if let Some(id) = &self.correlation_id {
            out.append(",\"correlation_id\":");
            out.append(json::quote(id.as_str()).as_str());
        }
        out.append("}");
        assert(out@ =~= params_json(
            self.manager_url@,
            self.client_uid@,
            self.kind@,
            text::text_of(self.correlation_id),
        ));
        out
    }
}

/// Duplicates: a pair overrides every earlier one with its key, and no other pair.
pub proof fn law_last_pair_wins(tokens: Seq<Seq<char>>, key: Seq<char>, value: Seq<char>)
    requires
        key.len() > 0,
        !key.contains('='),
    ensures
        pairs_of(tokens.push(key + seq!['='] + value)) == pairs_of(tokens).insert(key, value),
{
    let token = key + seq!['='] + value;
    token.index_of_first_ensures('=');
    assert(token[key.len() as int] == '=');
    let at = token.index_of_first('=')->0;
    if at < key.len() {
        assert(token[at] == key[at]);
    }
    assert(token.take(at) =~= key);
    assert(token.skip(at + 1) =~= value);
    assert(tokens.push(token).drop_last() =~= tokens);
}

/// A word without `=` says nothing.
pub proof fn law_plain_word_is_skipped(tokens: Seq<Seq<char>>, word: Seq<char>)
    requires
        !word.contains('='),
    ensures
        pairs_of(tokens.push(word)) == pairs_of(tokens),
{
    word.index_of_first_ensures('=');
    assert(tokens.push(word).drop_last() =~= tokens);
}

/// The manager's address comes from the constant alone, without the whitespace around it: nothing in
/// the startup parameter, nor in any other source, changes it.
pub proof fn law_manager_url_from_constant_only(
    a: ResolveInput,
    b: ResolveInput,
    fresh_a: Seq<char>,
    fresh_b: Seq<char>,
    out_a: SessionParams,
    out_b: SessionParams,
)
    requires
        text::trimmed(a.constant_url@) == text::trimmed(b.constant_url@),
        resolves_to(a, fresh_a, out_a),
        resolves_to(b, fresh_b, out_b),
    ensures
        out_a.manager_url@ == out_b.manager_url@,
{
}

/// There is always a manager's address.
pub proof fn law_manager_url_not_empty(constant: Seq<char>)
    ensures
        resolved_url(constant).len() > 0,
{
    reveal_strlit("ws://127.0.0.1:4000/sessions");
}

/// A kind that the startup parameter names beats what the launch string shows; an empty one does
/// not.
pub proof fn law_named_kind_wins(input: ResolveInput, fresh: Seq<char>, out: SessionParams)
    requires
        resolves_to(input, fresh, out),
    ensures
        match startup_value(input.startup_param@, "kind"@) {
            Some(kind) => kind.len() > 0 ==> out.kind@ == kind,
            None => true,
        },
        startup_value(input.startup_param@, "kind"@) == Some(Seq::<char>::empty())
            || startup_value(input.startup_param@, "kind"@) is None ==> out.kind@ == inferred_kind(
            input.launch_string@,
        ),
{
}

/// The case of the letters of the launch string does not matter.
pub proof fn law_kind_ignores_case(a: Seq<char>, b: Seq<char>)
    requires
        text::upper(a) == text::upper(b),
    ensures
        inferred_kind(a) == inferred_kind(b),
{
}

/// The client's identifier: the startup parameter's beats the caller's, and the caller's passes
/// through where the startup parameter has none.
pub proof fn law_client_uid_sources(input: ResolveInput, fresh: Seq<char>, out: SessionParams)
    requires
        resolves_to(input, fresh, out),
    ensures
        match startup_value(input.startup_param@, "client_uid"@) {
            Some(uid) => uid.len() > 0 ==> out.client_uid@ == uid,
            None => input.client_uid@.len() > 0 ==> out.client_uid@ == input.client_uid@,
        },
        needs_fresh_uid(input) ==> out.client_uid@ == fresh,
{
}

/// The JSON text shows the parameters: two that differ never have one text.
pub proof fn law_params_json_unambiguous(
    url_a: Seq<char>,
    uid_a: Seq<char>,
    kind_a: Seq<char>,
    id_a: Option<Seq<char>>,
    url_b: Seq<char>,
    uid_b: Seq<char>,
    kind_b: Seq<char>,
    id_b: Option<Seq<char>>,
)
    requires
        params_json(url_a, uid_a, kind_a, id_a) == params_json(url_b, uid_b, kind_b, id_b),
    ensures
        url_a == url_b,
        uid_a == uid_b,
        kind_a == kind_b,
        id_a == id_b,
{
    let tail = |id: Option<Seq<char>>|
        match id {
            Some(id) => ",\"correlation_id\":"@ + (json::json_string(id) + "}"@),
            None => "}"@,
        };
    let kind_part = |kind: Seq<char>, id: Option<Seq<char>>| json::json_string(kind) + tail(id);
    let uid_part = |uid: Seq<char>, kind: Seq<char>, id: Option<Seq<char>>|
        json::json_string(uid) + (",\"kind\":"@ + kind_part(kind, id));
    let url_part = |url: Seq<char>, uid: Seq<char>, kind: Seq<char>, id: Option<Seq<char>>|
        json::json_string(url) + (",\"client_uid\":"@ + uid_part(uid, kind, id));
    text::lemma_cancel_prefix(
        "{\"manager_url\":"@,
        url_part(url_a, uid_a, kind_a, id_a),
        url_part(url_b, uid_b, kind_b, id_b),
    );
    let after_url_a = ",\"client_uid\":"@ + uid_part(uid_a, kind_a, id_a);
    let after_url_b = ",\"client_uid\":"@ + uid_part(uid_b, kind_b, id_b);
    json::law_json_string_unambiguous(url_a, url_b, after_url_a, after_url_b);
    text::lemma_cancel_prefix(
        ",\"client_uid\":"@,
        uid_part(uid_a, kind_a, id_a),
        uid_part(uid_b, kind_b, id_b),
    );
    let after_uid_a = ",\"kind\":"@ + kind_part(kind_a, id_a);
    let after_uid_b = ",\"kind\":"@ + kind_part(kind_b, id_b);
    json::law_json_string_unambiguous(uid_a, uid_b, after_uid_a, after_uid_b);
    text::lemma_cancel_prefix(",\"kind\":"@, kind_part(kind_a, id_a), kind_part(kind_b, id_b));
    json::law_json_string_unambiguous(kind_a, kind_b, tail(id_a), tail(id_b));
    reveal_strlit("}");
    reveal_strlit(",\"correlation_id\":");
    match (id_a, id_b) {
        (Some(a), Some(b)) => {
            let rest_a = json::json_string(a) + "}"@;
            let rest_b = json::json_string(b) + "}"@;
            text::lemma_cancel_prefix(",\"correlation_id\":"@, rest_a, rest_b);
            json::law_json_string_unambiguous(a, b, "}"@, "}"@);
        },
        (Some(a), None) => {
            assert(tail(id_a)[0] == ',');
        },
        (None, Some(b)) => {
            assert(tail(id_b)[0] == ',');
        },
        (None, None) => {},
    }
}

/// The members of the JSON text of session parameters.
pub open spec fn params_members(
    manager_url: Seq<char>,
    client_uid: Seq<char>,
    kind: Seq<char>,
    correlation_id: Option<Seq<char>>,
) -> Seq<(Seq<char>, Seq<char>)> {
    let always = seq![
        ("manager_url"@, manager_url),
        ("client_uid"@, client_uid),
        ("kind"@, kind),
    ];
    match correlation_id {
        Some(id) => always.push(("correlation_id"@, id)),
        None => always,
    }
}

/// The labels in the JSON text are names of members.
proof fn lemma_labels()
    ensures
        "{\"manager_url\":"@ == seq!['{'] + (json::json_string("manager_url"@) + seq![':']),
        ",\"client_uid\":"@ == seq![','] + (json::json_string("client_uid"@) + seq![':']),
        ",\"kind\":"@ == seq![','] + (json::json_string("kind"@) + seq![':']),
        ",\"correlation_id\":"@ == seq![','] + (json::json_string("correlation_id"@) + seq![':']),
        "}"@ == seq!['}'],
{
    assert("{\"manager_url\":"@ =~= seq!['{'] + (json::json_string("manager_url"@) + seq![':'])) by {
        reveal_strlit("manager_url");
        reveal_strlit("{\"manager_url\":");
        json::lemma_plain_string("manager_url"@);
    }
    assert(",\"client_uid\":"@ =~= seq![','] + (json::json_string("client_uid"@) + seq![':'])) by {
        reveal_strlit("client_uid");
        reveal_strlit(",\"client_uid\":");
        json::lemma_plain_string("client_uid"@);
    }
    assert(",\"kind\":"@ =~= seq![','] + (json::json_string("kind"@) + seq![':'])) by {
        reveal_strlit("kind");
        reveal_strlit(",\"kind\":");
        json::lemma_plain_string("kind"@);
    }
    assert(",\"correlation_id\":"@ =~= seq![','] + (json::json_string("correlation_id"@) + seq![
        ':',
    ])) by {
        reveal_strlit("correlation_id");
        reveal_strlit(",\"correlation_id\":");
        json::lemma_plain_string("correlation_id"@);
    }
    assert("}"@ =~= seq!['}']) by {
        reveal_strlit("}");
    }
}

proof fn lemma_params_text(
    manager_url: Seq<char>,
    client_uid: Seq<char>,
    kind: Seq<char>,
    correlation_id: Option<Seq<char>>,
)
    ensures
        params_json(manager_url, client_uid, kind, correlation_id) == json::object_text(
            params_members(manager_url, client_uid, kind, correlation_id),
        ),
{
    lemma_labels();
    let all = params_members(manager_url, client_uid, kind, correlation_id);
    let from_uid = all.skip(1);
    let from_kind = from_uid.skip(1);
    let from_id = from_kind.skip(1);
    let end = match correlation_id {
        Some(id) => {
            json::lemma_labelled(",\"correlation_id\":"@, ',', "correlation_id"@, id, "}"@);
            assert(json::members_text(from_id) == json::member_and(
                "correlation_id"@,
                id,
                "}"@,
            ));
            seq![','] + json::members_text(from_id)
        },
        None => "}"@,
    };
    json::lemma_labelled(",\"kind\":"@, ',', "kind"@, kind, end);
    assert(json::members_text(from_kind) == json::member_and("kind"@, kind, end));
    let after_uid = seq![','] + json::members_text(from_kind);
    json::lemma_labelled(",\"client_uid\":"@, ',', "client_uid"@, client_uid, after_uid);
    assert(json::members_text(from_uid) == json::member_and("client_uid"@, client_uid, after_uid));
    let after_url = seq![','] + json::members_text(from_uid);
    json::lemma_labelled("{\"manager_url\":"@, '{', "manager_url"@, manager_url, after_url);
}

/// Reading the JSON text gives the parameters back: it is an object whose members are strings with
/// these texts. A correlation identifier that is absent has no member.
pub proof fn law_params_json_reads_back(
    manager_url: Seq<char>,
    client_uid: Seq<char>,
    kind: Seq<char>,
    correlation_id: Option<Seq<char>>,
)
    ensures
        json::read_object(params_json(manager_url, client_uid, kind, correlation_id)) == Some(
            match correlation_id {
                Some(id) => seq![
                    ("manager_url"@, manager_url),
                    ("client_uid"@, client_uid),
                    ("kind"@, kind),
                    ("correlation_id"@, id),
                ],
                None => seq![
                    ("manager_url"@, manager_url),
                    ("client_uid"@, client_uid),
                    ("kind"@, kind),
                ],
            },
        ),
{
    if let Some(id) = correlation_id {
        assert(params_members(manager_url, client_uid, kind, correlation_id) =~= seq![
            ("manager_url"@, manager_url),
            ("client_uid"@, client_uid),
            ("kind"@, kind),
            ("correlation_id"@, id),
        ]);
    }
    lemma_params_text(manager_url, client_uid, kind, correlation_id);
    json::law_object_reads_back(params_members(manager_url, client_uid, kind, correlation_id));
}

/// Whether a text holds a flag, in any case of letters: whether it is something, the flag, and
/// something.
pub open spec fn holds_flag(launch: Seq<char>, flag: Seq<char>) -> bool {
    exists|before: Seq<char>, written: Seq<char>, after: Seq<char>|
        launch == #[trigger] (before + written + after) && text::upper(written) == flag
}

proof fn lemma_flag_occurs(launch: Seq<char>, flag: Seq<char>)
    ensures
        text::occurs(text::upper(launch), flag) <==> holds_flag(launch, flag),
{
    if holds_flag(launch, flag) {
        let (before, written, after) = choose|
            before: Seq<char>,
            written: Seq<char>,
            after: Seq<char>,
        |
            launch == #[trigger] (before + written + after) && text::upper(written) == flag;
        assert(text::upper(launch) =~= text::upper(before) + flag + text::upper(after));
        text::law_occurs_is_a_part(text::upper(launch), flag);
    }
    if text::occurs(text::upper(launch), flag) {
        let at = choose|at: int| #[trigger] text::stands_at(text::upper(launch), flag, at);
        let before = launch.take(at);
        let written = launch.subrange(at, at + flag.len());
        let after = launch.skip(at + flag.len());
        assert(text::upper(written) =~= text::upper(launch).subrange(at, at + flag.len()));
        assert(launch =~= before + written + after);
    }
}

/// A launch string that holds the flag of a test manager, whatever stands around it and whatever the
/// case of its letters, is that of a test manager.
pub proof fn law_manager_flag_anywhere(before: Seq<char>, flag: Seq<char>, after: Seq<char>)
    requires
        text::upper(flag) == "/TESTMANAGER"@,
    ensures
        inferred_kind(before + flag + after) == "vanessa_manager"@,
{
    let launch = before + flag + after;
    assert(holds_flag(launch, "/TESTMANAGER"@));
    lemma_flag_occurs(launch, "/TESTMANAGER"@);
}

/// A launch string without that flag that holds the flag of a client under test is that of a client
/// under test.
pub proof fn law_client_flag_anywhere(before: Seq<char>, flag: Seq<char>, after: Seq<char>)
    requires
        text::upper(flag) == "/TESTCLIENT"@,
        forall|a: Seq<char>, written: Seq<char>, b: Seq<char>|
            before + flag + after == #[trigger] (a + written + b) ==> text::upper(written)
                != "/TESTMANAGER"@,
    ensures
        inferred_kind(before + flag + after) == "vanessa_test_client"@,
{
    let launch = before + flag + after;
    assert(holds_flag(launch, "/TESTCLIENT"@));
    lemma_flag_occurs(launch, "/TESTCLIENT"@);
    lemma_flag_occurs(launch, "/TESTMANAGER"@);
}

/// A launch string without either flag that names YaXUnit's run is that of a test run.
pub proof fn law_test_run_anywhere(before: Seq<char>, flag: Seq<char>, after: Seq<char>)
    requires
        text::upper(flag) == "RUNYAXUNIT"@,
        forall|a: Seq<char>, written: Seq<char>, b: Seq<char>|
            before + flag + after == #[trigger] (a + written + b) ==> text::upper(written)
                != "/TESTMANAGER"@ && text::upper(written) != "/TESTCLIENT"@,
    ensures
        inferred_kind(before + flag + after) == "yaxunit_runner"@,
{
    let launch = before + flag + after;
    assert(holds_flag(launch, "RUNYAXUNIT"@));
    lemma_flag_occurs(launch, "RUNYAXUNIT"@);
    lemma_flag_occurs(launch, "/TESTCLIENT"@);
    lemma_flag_occurs(launch, "/TESTMANAGER"@);
}

/// A launch string without any of the three is that of an ordinary client.
pub proof fn law_no_flag_is_a_client(launch: Seq<char>)
    requires
        forall|a: Seq<char>, written: Seq<char>, b: Seq<char>|
            launch == #[trigger] (a + written + b) ==> text::upper(written) != "/TESTMANAGER"@
                && text::upper(written) != "/TESTCLIENT"@ && text::upper(written) != "RUNYAXUNIT"@,
    ensures
        inferred_kind(launch) == "client"@,
{
    lemma_flag_occurs(launch, "RUNYAXUNIT"@);
    lemma_flag_occurs(launch, "/TESTCLIENT"@);
    lemma_flag_occurs(launch, "/TESTMANAGER"@);
}

/// A pair behind whitespace, or at the start of a startup parameter, gives its key its value,
/// whatever stands before it, and changes no other key.
pub proof fn law_pair_is_read(
    lead: Seq<char>,
    key: Seq<char>,
    value: Seq<char>,
    other: Seq<char>,
)
    requires
        lead.len() == 0 || text::is_space(lead.last()),
        key.len() > 0,
        forall|i: int|
            0 <= i < key.len() ==> !text::is_space(#[trigger] key[i]) && key[i] != '=',
        forall|i: int| 0 <= i < value.len() ==> !text::is_space(#[trigger] value[i]),
        other != key,
    ensures
        startup_value(lead + (key + seq!['='] + value), key) == Some(value),
        startup_value(lead + (key + seq!['='] + value), other) == startup_value(lead, other),
{
    let word = key + seq!['='] + value;
    assert forall|i: int| 0 <= i < word.len() implies !text::is_space(#[trigger] word[i]) by {
        if i < key.len() {
            assert(word[i] == key[i]);
        } else if i > key.len() {
            assert(word[i] == value[i - key.len() - 1]);
        }
    }
    text::law_word_behind_whitespace(lead, word);
    law_last_pair_wins(text::words(lead), key, value);
}

/// Whitespace behind a startup parameter, a word without `=` and a word that begins with it change
/// nothing, and a startup parameter without words gives no value.
pub proof fn law_rest_is_passed_over(
    lead: Seq<char>,
    word: Seq<char>,
    space: char,
    key: Seq<char>,
)
    requires
        lead.len() == 0 || text::is_space(lead.last()),
        word.len() > 0,
        forall|i: int| 0 <= i < word.len() ==> !text::is_space(#[trigger] word[i]),
        word[0] == '=' || forall|i: int| 0 <= i < word.len() ==> word[i] != '=',
        text::is_space(space),
    ensures
        startup_value(lead + word, key) == startup_value(lead, key),
        startup_value(lead.push(space), key) == startup_value(lead, key),
        startup_value((lead + word).push(space), key) == startup_value(lead, key),
        startup_value(Seq::empty(), key) is None,
{
    text::law_word_behind_whitespace(lead, word);
    text::law_whitespace_is_no_word(lead, space);
    text::law_whitespace_is_no_word(lead + word, space);
    let tokens = text::words(lead);
    if word[0] == '=' {
        let after = word.skip(1);
        assert(word =~= Seq::<char>::empty() + seq!['='] + after);
        text::law_cut_parts_at_the_first(Seq::empty(), '=', after);
        assert(tokens.push(word).drop_last() =~= tokens);
    } else {
        assert(!word.contains('='));
        law_plain_word_is_skipped(tokens, word);
    }
}

/// What is resolved for an input, source by source: the address from the constant, the kind and the
/// correlation identifier from the startup parameter, the kind else from the launch string, and the
/// client's identifier from the first source that gives one.
pub proof fn law_each_parameter_has_its_source(
    input: ResolveInput,
    fresh: Seq<char>,
    out: SessionParams,
    lead: Seq<char>,
    core: Seq<char>,
    tail: Seq<char>,
)
    requires
        resolves_to(input, fresh, out),
        input.constant_url@ == lead + core + tail,
        forall|i: int| 0 <= i < lead.len() ==> text::is_space(#[trigger] lead[i]),
        forall|i: int| 0 <= i < tail.len() ==> text::is_space(#[trigger] tail[i]),
        core.len() > 0 ==> !text::is_space(core[0]) && !text::is_space(core.last()),
        core.len() == 0 ==> tail.len() == 0,
    ensures
        core.len() > 0 ==> out.manager_url@ == core,
        core.len() == 0 ==> out.manager_url@ == "ws://127.0.0.1:4000/sessions"@,
        out.correlation_id matches Some(id) ==> startup_value(
            input.startup_param@,
            "correlation_id"@,
        ) == Some(id@),
        out.correlation_id is None ==> startup_value(input.startup_param@, "correlation_id"@)
            is None,
        match startup_value(input.startup_param@, "kind"@) {
            Some(kind) => out.kind@ == if kind.len() > 0 {
                kind
            } else {
                inferred_kind(input.launch_string@)
            },
            None => out.kind@ == inferred_kind(input.launch_string@),
        },
        ({
            let given = if input.client_uid@.len() > 0 {
                input.client_uid@
            } else {
                fresh
            };
            match startup_value(input.startup_param@, "client_uid"@) {
                Some(uid) => out.client_uid@ == if uid.len() > 0 {
                    uid
                } else {
                    given
                },
                None => out.client_uid@ == given,
            }
        }),
{
    text::law_trim_takes_the_whitespace_around(lead, core, tail);
}

/// An identifier is drawn exactly where neither the startup parameter nor the caller gives one.
pub proof fn law_when_an_identifier_is_drawn(input: ResolveInput)
    ensures
        needs_fresh_uid(input) <==> input.client_uid@.len() == 0 && (startup_value(
            input.startup_param@,
            "client_uid"@,
        ) matches Some(uid) ==> uid.len() == 0),
{
}

/// The texts of a map's values stand under the same keys.
pub proof fn law_value_texts_are_the_values(m: Map<Seq<char>, String>, key: Seq<char>)
    ensures
        value_texts(m).contains_key(key) == m.contains_key(key),
        m.contains_key(key) ==> value_texts(m)[key] == m[key]@,
{
}

/// The pairs of a startup parameter are what it gives to each key.
pub proof fn law_pairs_are_the_values(raw: Seq<char>, key: Seq<char>)
    ensures
        startup_pairs(raw).contains_key(key) <==> startup_value(raw, key) is Some,
        startup_value(raw, key) matches Some(value) ==> startup_pairs(raw)[key] == value,
{
}

/// An identifier that was drawn has the form of version 4.
pub proof fn law_drawn_identifier_has_its_form(uid: String)
    requires
        is_drawn(uid),
    ensures
        uid@.len() == 36,
        uid@[8] == '-' && uid@[13] == '-' && uid@[18] == '-' && uid@[23] == '-',
        uid@[14] == '4',
        is_uuid_v4(uid@),
{
}

} // verus!
