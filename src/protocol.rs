use vstd::prelude::*;

verus! {

/// The mathematical value of an action.
pub enum ActionView {
    Update(Seq<char>),
    ActivateScene(Seq<char>),
}

/// An outbound payload forwarded to the server.
///
/// `Update` carries the update request as compact JSON text, forwarded verbatim;
/// `ActivateScene` carries the identifier of the scene to activate.
#[derive(Debug, PartialEq, Eq)]
pub enum Action {
    Update(String),
    ActivateScene(String),
}

impl View for Action {
    type V = ActionView;

    open spec fn view(&self) -> ActionView {
        match self {
            Action::Update(p) => ActionView::Update(p@),
            Action::ActivateScene(id) => ActionView::ActivateScene(id@),
        }
    }
}

impl Clone for Action {
    fn clone(&self) -> (r: Self)
        ensures
            r == *self,
    {
        match self {
            Action::Update(p) => Action::Update(p.clone()),
            Action::ActivateScene(id) => Action::ActivateScene(id.clone()),
        }
    }
}

/// Whether the text holds a line feed.
pub open spec fn has_newline(s: Seq<char>) -> bool {
    exists|i: int| 0 <= i < s.len() && s[i] == '\n'
}

/// Opening of the envelope of an update request: `{"UpdateRequest":`.
pub open spec fn update_open() -> Seq<char> {
    seq!['{', '"', 'U', 'p', 'd', 'a', 't', 'e', 'R', 'e', 'q', 'u', 'e', 's', 't', '"', ':']
}

/// Opening of the envelope of a scene activation: `{"ActivateScene":`.
pub open spec fn scene_open() -> Seq<char> {
    seq!['{', '"', 'A', 'c', 't', 'i', 'v', 'a', 't', 'e', 'S', 'c', 'e', 'n', 'e', '"', ':']
}

/// Closing of every envelope.
pub open spec fn envelope_close() -> Seq<char> {
    seq!['}']
}

/// The JSON string literal that serde_json writes for a text, or `None` where it fails.
pub uninterp spec fn json_quoted(s: Seq<char>) -> Option<Seq<char>>;

/// The text that serde_json reads from a JSON string literal, or `None` where it
/// is not one.
pub uninterp spec fn json_unquoted(s: Seq<char>) -> Option<Seq<char>>;

/// The envelope of an action before the single-line check.
pub open spec fn envelope(a: ActionView) -> Option<Seq<char>> {
    match a {
        ActionView::Update(p) => Some(update_open() + p + envelope_close()),
        ActionView::ActivateScene(id) => match json_quoted(id) {
            Some(q) => Some(scene_open() + q + envelope_close()),
            None => None,
        },
    }
}

/// The wire record of an action: its envelope, provided that it fits on one line.
pub open spec fn encoded(a: ActionView) -> Option<Seq<char>> {
    match envelope(a) {
        Some(l) => if has_newline(l) {
            None
        } else {
            Some(l)
        },
        None => None,
    }
}

/// Whether `prefix` opens `s` and `s` ends with the envelope's closing brace after it.
pub open spec fn enclosed_by(s: Seq<char>, prefix: Seq<char>) -> bool {
    &&& s.len() >= prefix.len() + 1
    &&& s.subrange(0, prefix.len() as int) == prefix
    &&& s[s.len() - 1] == '}'
}

/// The text between an opening of length `n` and the closing brace.
pub open spec fn inner(s: Seq<char>, n: nat) -> Seq<char> {
    s.subrange(n as int, s.len() - 1)
}

/// The action that a received record stands for, if any.
pub open spec fn decoded(l: Seq<char>) -> Option<ActionView> {
    if enclosed_by(l, update_open()) {
        Some(ActionView::Update(inner(l, update_open().len())))
    } else if enclosed_by(l, scene_open()) {
        match json_unquoted(inner(l, scene_open().len())) {
            Some(id) => Some(ActionView::ActivateScene(id)),
            None => None,
        }
    } else {
        None
    }
}

/// The value of an optional action.
pub open spec fn option_action_view(r: Option<Action>) -> Option<ActionView> {
    match r {
        Some(a) => Some(a@),
        None => None,
    }
}

/// Why an action could not be turned into a wire record.
#[derive(Debug, PartialEq, Eq)]
pub enum EncodeError {
    /// The scene identifier could not be written as JSON.
    Unserializable,
    /// The record would span more than one line.
    MultiLine,
}

/// Relies on serde_json::to_string on a `str`: the JSON string literal for the text.
#[verifier::external_body]
fn quote_json(s: &str) -> (r: Option<String>)
    ensures
        r is Some <==> json_quoted(s@) is Some,
        r is Some ==> r->0@ == json_quoted(s@)->0,
{
    serde_json::to_string(s).ok()
}

/// Relies on serde_json::from_str::<String>: the text that a JSON string literal
/// denotes.
#[verifier::external_body]
fn unquote_json(s: &str) -> (r: Option<String>)
    ensures
        r is Some <==> json_unquoted(s@) is Some,
        r is Some ==> r->0@ == json_unquoted(s@)->0,
{
    serde_json::from_str::<String>(s).ok()
}

/// Whether the text holds a line feed.
pub fn contains_newline(s: &str) -> (r: bool)
    ensures
        r == has_newline(s@),
{
    let n = s.unicode_len();
    let mut i: usize = 0;
    while i < n
        invariant
            n == s@.len(),
            i <= n,
            forall|j: int| 0 <= j < i ==> s@[j] != '\n',
        decreases n - i,
    {
        if s.get_char(i) == '\n' {
            return true;
        }
        i = i + 1;
    }
    false
}

/// Whether `s` opens with `prefix`.
pub fn starts_with(s: &str, prefix: &str) -> (r: bool)
    ensures
        r == (prefix@.len() <= s@.len() && s@.subrange(0, prefix@.len() as int) == prefix@),
{
    let n = s.unicode_len();
    let m = prefix.unicode_len();
    if m > n {
        return false;
    }
    let mut i: usize = 0;
    while i < m
        invariant
            n == s@.len(),
            m == prefix@.len(),
            m <= n,
            i <= m,
            forall|j: int| 0 <= j < i ==> s@[j] == prefix@[j],
        decreases m - i,
    {
        if s.get_char(i) != prefix.get_char(i) {
            assert(s@.subrange(0, m as int)[i as int] != prefix@[i as int]);
            return false;
        }
        i = i + 1;
    }
    assert(s@.subrange(0, m as int) =~= prefix@);
    true
}

fn update_open_text() -> (r: &'static str)
    ensures
        r@ == update_open(),
{
    let r = "{\"UpdateRequest\":";
    proof {
        reveal_strlit("{\"UpdateRequest\":");
    }
    assert(r@ =~= update_open());
    r
}

fn scene_open_text() -> (r: &'static str)
    ensures
        r@ == scene_open(),
{
    let r = "{\"ActivateScene\":";
    proof {
        reveal_strlit("{\"ActivateScene\":");
    }
    assert(r@ =~= scene_open());
    r
}

fn close_text() -> (r: &'static str)
    ensures
        r@ == envelope_close(),
{
    let r = "}";
    proof {
        reveal_strlit("}");
    }
    assert(r@ =~= envelope_close());
    r
}

/// Turns an action into its wire record: one line of JSON, without the line feed.
pub fn encode_action(a: &Action) -> (r: Result<String, EncodeError>)
    ensures
        r is Ok <==> encoded(a@) is Some,
        r is Ok ==> Some(r->Ok_0@) == encoded(a@),
        r == Err::<String, EncodeError>(EncodeError::Unserializable) <==> envelope(a@) is None,
        r == Err::<String, EncodeError>(EncodeError::MultiLine) <==> (envelope(a@) is Some
            && encoded(a@) is None),
{
    let line = match a {
        Action::Update(p) => {
            let mut l = String::from_str(update_open_text());
            l.append(p.as_str());
            l.append(close_text());
            l
        },
        Action::ActivateScene(id) => match quote_json(id.as_str()) {
            Some(q) => {
                let mut l = String::from_str(scene_open_text());
                l.append(q.as_str());
                l.append(close_text());
                l
            },
            None => {
                return Err(EncodeError::Unserializable);
            },
        },
    };
    if contains_newline(line.as_str()) {
        Err(EncodeError::MultiLine)
    } else {
        Ok(line)
    }
}

/// Reads a received record back into the action it stands for, if any.
pub fn decode_line(line: &str) -> (r: Option<Action>)
    ensures
        option_action_view(r) == decoded(line@),
{
    let n = line.unicode_len();
    if n == 0 || line.get_char(n - 1) != '}' {
        return None;
    }
    let uo = update_open_text();
    if n >= 18 && starts_with(line, uo) {
        let body = line.substring_char(17, n - 1);
        return Some(Action::Update(body.to_owned()));
    }
    let so = scene_open_text();
    if n >= 18 && starts_with(line, so) {
        let body = line.substring_char(17, n - 1);
        return match unquote_json(body) {
            Some(id) => Some(Action::ActivateScene(id)),
            None => None,
        };
    }
    None
}

/// Text without a line feed stays without one when put together with other such text.
pub proof fn lemma_concat_single_line(a: Seq<char>, b: Seq<char>)
    requires
        !has_newline(a),
        !has_newline(b),
    ensures
        !has_newline(a + b),
{
    assert forall|i: int| 0 <= i < (a + b).len() implies (a + b)[i] != '\n' by {
        if i < a.len() {
            assert((a + b)[i] == a[i]);
        } else {
            assert((a + b)[i] == b[i - a.len()]);
        }
    }
}

/// Round trip of an update request: for a payload without a line feed, the wire
/// record exists, fits on one line, and reads back as the same update request.
pub proof fn lemma_update_round_trip(payload: Seq<char>)
    requires
        !has_newline(payload),
    ensures
        encoded(ActionView::Update(payload)) is Some,
        !has_newline(encoded(ActionView::Update(payload))->0),
        decoded(encoded(ActionView::Update(payload))->0) == Some(ActionView::Update(payload)),
{
    let o = update_open();
    let l = o + payload + envelope_close();
    assert(!has_newline(o)) by {
        assert forall|i: int| 0 <= i < o.len() implies o[i] != '\n' by {}
    }
    assert(!has_newline(envelope_close())) by {
        assert forall|i: int| 0 <= i < envelope_close().len() implies envelope_close()[i]
            != '\n' by {}
    }
    lemma_concat_single_line(o, payload);
    lemma_concat_single_line(o + payload, envelope_close());
    assert(l.subrange(0, o.len() as int) =~= o);
    assert(inner(l, o.len()) =~= payload);
    assert(l[l.len() - 1] == '}');
}

} // verus!
