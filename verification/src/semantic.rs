//! The decisions of a language-server client: classifying incoming
//! JSON-RPC messages, reading document symbols out of responses, framing
//! and header parsing, and waiting for initial indexing. Talking to the
//! server process happens outside the library.

use vstd::prelude::*;
use crate::json::{as_text, as_u64, find_member, get, get_key, json_eq, json_same, member, obj_get, text, Json, JsonNumber, Member};
use crate::lsp_confirmation::{lsp_views, LspSymbol, LspSymbolView};
use crate::text::{chars_of, str_eq, string_of};
use vstd::string::*;

verus! {

/// Classification of an incoming JSON-RPC message.
#[derive(Debug)]
pub enum MessageKind {
    /// A response to one of our requests.
    Response { id: u64, result: Json },
    /// A request from the server (e.g. `window/workDoneProgress/create`).
    ServerRequest { id: Json },
    /// A `$/progress` begin notification. `title` describes the work item.
    ProgressBegin { token: Json, title: String },
    /// A `$/progress` end notification for a token.
    ProgressEnd { token: Json },
    /// Any other notification or unrecognised message.
    Other,
}

pub enum MessageView {
    Response { id: u64, result: Json },
    ServerRequest { id: Json },
    ProgressBegin { token: Json, title: Seq<char> },
    ProgressEnd { token: Json },
    Other,
}

impl View for MessageKind {
    type V = MessageView;

    open spec fn view(&self) -> MessageView {
        match self {
            MessageKind::Response { id, result } => MessageView::Response { id: *id, result: *result },
            MessageKind::ServerRequest { id } => MessageView::ServerRequest { id: *id },
            MessageKind::ProgressBegin { token, title } => MessageView::ProgressBegin { token: *token, title: title@ },
            MessageKind::ProgressEnd { token } => MessageView::ProgressEnd { token: *token },
            MessageKind::Other => MessageView::Other,
        }
    }
}

/// A value, or JSON null when absent.
pub open spec fn or_null(v: Option<Json>) -> Json {
    match v {
        Some(j) => j,
        None => Json::Null,
    }
}

/// A text, or the empty text when absent.
pub open spec fn or_empty(v: Option<Seq<char>>) -> Seq<char> {
    match v {
        Some(t) => t,
        None => Seq::empty(),
    }
}

/// How an incoming message is classified: with `method` and `id` it is a
/// server request; with `method` alone, a `$/progress` notification whose
/// `params.value.kind` is `begin` or `end` is a progress event; with `id`
/// alone and a non-negative integer id, a response carrying `result`, else
/// `error`, else null; anything else is other.
pub open spec fn spec_classify(obj: Seq<Member>) -> MessageView {
    let has_method = obj_get(obj, "method"@) is Some;
    let has_id = obj_get(obj, "id"@) is Some;
    if has_method && has_id {
        MessageView::ServerRequest { id: or_null(obj_get(obj, "id"@)) }
    } else if has_method {
        if as_text(obj_get(obj, "method"@)) != Some("$/progress"@) {
            MessageView::Other
        } else {
            let params = obj_get(obj, "params"@);
            let token = or_null(get_key(params, "token"@));
            let value = get_key(params, "value"@);
            let kind = or_empty(as_text(get_key(value, "kind"@)));
            if kind == "begin"@ {
                MessageView::ProgressBegin { token, title: or_empty(as_text(get_key(value, "title"@))) }
            } else if kind == "end"@ {
                MessageView::ProgressEnd { token }
            } else {
                MessageView::Other
            }
        }
    } else if has_id {
        match as_u64(obj_get(obj, "id"@)) {
            Some(id) => MessageView::Response {
                id,
                result: match obj_get(obj, "result"@) {
                    Some(r) => r,
                    None => or_null(obj_get(obj, "error"@)),
                },
            },
            None => MessageView::Other,
        }
    } else {
        MessageView::Other
    }
}

/// Moves the value of the first member called `key` out of an object.
fn take_member(members: Vec<Member>, key: &str) -> (r: Option<Json>)
    ensures
        r == obj_get(members@, key@),
{
    match find_member(&members, key) {
        Some(i) => {
            let mut members = members;
            let m = members.remove(i);
            Some(m.value)
        },
        None => None,
    }
}

/// Moves the value of the first member called `key` out of a value that
/// is an object.
fn take_key(v: Option<Json>, key: &str) -> (r: Option<Json>)
    ensures
        r == get_key(v, key@),
{
    match v {
        Some(Json::Object(m)) => take_member(m, key),
        _ => None,
    }
}

fn copy_text(s: &String) -> (r: String)
    ensures
        r@ == s@,
{
    s.clone()
}

/// Classify an incoming message object.
pub fn classify_message(obj: Vec<Member>) -> (r: MessageKind)
    ensures
        r@ == spec_classify(obj@),
{
    let has_method = find_member(&obj, "method").is_some();
    let has_id = find_member(&obj, "id").is_some();
    if has_method && has_id {
        let id = take_member(obj, "id");
        return MessageKind::ServerRequest { id: match id { Some(j) => j, None => Json::Null } };
    }
    if has_method {
        let method = text(member(&obj, "method"));
        let is_progress = match method {
            Some(m) => str_eq(m.as_str(), "$/progress"),
            None => false,
        };
        if !is_progress {
            proof {
                reveal_strlit("$/progress");
            }
            return MessageKind::Other;
        }
        let params = member(&obj, "params");
        let value = get(params, "value");
        let kind = text(get(value, "kind"));
        let title = match text(get(value, "title")) {
            Some(t) => copy_text(t),
            None => String::new(),
        };
        let ghost kv = or_empty(as_text(get_key(get_key(obj_get(obj@, "params"@), "value"@), "kind"@)));
        assert(get_key(obj_get(obj@, "params"@), "value"@) == match value { Some(j) => Some(*j), None => None::<Json> });
        assert(kv == match kind { Some(k) => k@, None => Seq::<char>::empty() });
        let (begin, end) = match kind {
            Some(k) => (str_eq(k.as_str(), "begin"), str_eq(k.as_str(), "end")),
            None => (false, false),
        };
        proof {
            reveal_strlit("begin");
            reveal_strlit("end");
            reveal_strlit("");
        }
        let token = match take_key(take_member(obj, "params"), "token") {
            Some(t) => t,
            None => Json::Null,
        };
        if begin {
            return MessageKind::ProgressBegin { token, title };
        } else if end {
            return MessageKind::ProgressEnd { token };
        } else {
            return MessageKind::Other;
        }
    }
    if has_id {
        let id = match member(&obj, "id") {
            Some(Json::Number(JsonNumber::PosInt(n))) => Some(*n),
            _ => None,
        };
        match id {
            Some(id) => {
                let has_result = find_member(&obj, "result").is_some();
                let result = if has_result {
                    take_member(obj, "result")
                } else {
                    take_member(obj, "error")
                };
                return MessageKind::Response { id, result: match result { Some(j) => j, None => Json::Null } };
            },
            None => {
                return MessageKind::Other;
            },
        }
    }
    MessageKind::Other
}

} // verus!

verus! {

/// `u32` decoded from a JSON number, as serde reads it.
pub open spec fn dec_u32(v: Option<Json>) -> Option<u32> {
    match v {
        Some(Json::Number(JsonNumber::PosInt(n))) => if n <= u32::MAX { Some(n as u32) } else { None },
        _ => None,
    }
}

/// `i32` decoded from a JSON number, as serde reads it.
pub open spec fn dec_i32(v: Option<Json>) -> Option<i32> {
    match v {
        Some(Json::Number(JsonNumber::PosInt(n))) => if n <= i32::MAX { Some(n as i32) } else { None },
        Some(Json::Number(JsonNumber::NegInt(n))) => if n >= i32::MIN { Some(n as i32) } else { None },
        _ => None,
    }
}

/// The line of an LSP `Position` object (`line` and `character`, both `u32`).
pub open spec fn dec_line(pos: Option<Json>) -> Option<u32> {
    match pos {
        Some(Json::Object(m)) => match (dec_u32(obj_get(m@, "line"@)), dec_u32(obj_get(m@, "character"@))) {
            (Some(l), Some(_)) => Some(l),
            _ => None,
        },
        _ => None,
    }
}

/// The start and end lines of an LSP `Range` object.
pub open spec fn dec_range(r: Option<Json>) -> Option<(u32, u32)> {
    match r {
        Some(Json::Object(m)) => match (dec_line(obj_get(m@, "start"@)), dec_line(obj_get(m@, "end"@))) {
            (Some(s), Some(e)) => Some((s, e)),
            _ => None,
        },
        _ => None,
    }
}

/// A symbol from its `name`, `kind` and the range under `range_key`.
pub open spec fn dec_named(m: Seq<Member>, range: Option<Json>) -> Option<LspSymbolView> {
    match (as_text(obj_get(m, "name"@)), dec_i32(obj_get(m, "kind"@)), dec_range(range)) {
        (Some(name), Some(kind), Some(r)) => Some(LspSymbolView { name, kind, start_line: r.0, end_line: r.1 }),
        _ => None,
    }
}

/// `u32` from a JSON number.
fn read_u32(v: Option<&Json>) -> (r: Option<u32>)
    ensures
        r == dec_u32(match v { Some(j) => Some(*j), None => None }),
{
    match v {
        Some(Json::Number(JsonNumber::PosInt(n))) => if *n <= 0xffff_ffffu64 { Some(*n as u32) } else { None },
        _ => None,
    }
}

/// `i32` from a JSON number.
fn read_i32(v: Option<&Json>) -> (r: Option<i32>)
    ensures
        r == dec_i32(match v { Some(j) => Some(*j), None => None }),
{
    match v {
        Some(Json::Number(JsonNumber::PosInt(n))) => if *n <= 0x7fff_ffffu64 { Some(*n as i32) } else { None },
        Some(Json::Number(JsonNumber::NegInt(n))) => if *n >= -0x8000_0000i64 { Some(*n as i32) } else { None },
        _ => None,
    }
}

/// The line of a `Position` object.
fn read_line(pos: Option<&Json>) -> (r: Option<u32>)
    ensures
        r == dec_line(match pos { Some(j) => Some(*j), None => None }),
{
    match pos {
        Some(Json::Object(m)) => match (read_u32(member(m, "line")), read_u32(member(m, "character"))) {
            (Some(l), Some(_)) => Some(l),
            _ => None,
        },
        _ => None,
    }
}

/// The start and end lines of a `Range` object.
fn read_range(r: Option<&Json>) -> (out: Option<(u32, u32)>)
    ensures
        out == dec_range(match r { Some(j) => Some(*j), None => None }),
{
    match r {
        Some(Json::Object(m)) => match (read_line(member(m, "start")), read_line(member(m, "end"))) {
            (Some(s), Some(e)) => Some((s, e)),
            _ => None,
        },
        _ => None,
    }
}

/// A symbol from an object's `name` and `kind` and the given range.
fn read_named(m: &Vec<Member>, range: Option<&Json>) -> (r: Option<LspSymbol>)
    ensures
        match r {
            Some(s) => dec_named(m@, match range { Some(j) => Some(*j), None => None }) == Some(s@),
            None => dec_named(m@, match range { Some(j) => Some(*j), None => None }) is None,
        },
{
    let name = text(member(m, "name"));
    let kind = read_i32(member(m, "kind"));
    let lines = read_range(range);
    match (name, kind, lines) {
        (Some(n), Some(k), Some(l)) => Some(LspSymbol { name: copy_text(n), kind: k, start_line: l.0, end_line: l.1 }),
        _ => None,
    }
}

} // verus!

verus! {

/// Position of the first member called `key`.
pub open spec fn obj_index(m: Seq<Member>, key: Seq<char>) -> Option<int>
    decreases m.len(),
{
    if m.len() == 0 {
        None
    } else if m[0].key@ == key {
        Some(0)
    } else {
        match obj_index(m.drop_first(), key) {
            Some(j) => Some(j + 1),
            None => None,
        }
    }
}

proof fn lemma_obj_index(m: Seq<Member>, key: Seq<char>)
    ensures
        match obj_index(m, key) {
            Some(i) => 0 <= i < m.len() && obj_get(m, key) == Some(m[i].value),
            None => obj_get(m, key) is None,
        },
    decreases m.len(),
{
    if m.len() > 0 && m[0].key@ != key {
        lemma_obj_index(m.drop_first(), key);
        match obj_index(m.drop_first(), key) {
            Some(j) => {
                assert(m.drop_first()[j] == m[j + 1]);
            },
            None => {},
        }
    }
}

/// The symbols of a `DocumentSymbol` and its descendants, depth first:
/// an object with `name`, `kind` and `selectionRange`, whose `children`,
/// when present, is an array. A value that does not decode contributes
/// nothing, its children included.
pub open spec fn spec_collect(v: Json) -> Seq<LspSymbolView>
    decreases v, 1int,
{
    match v {
        Json::Object(m) => match dec_named(m@, obj_get(m@, "selectionRange"@)) {
            Some(s) => match obj_index(m@, "children"@) {
                None => seq![s],
                Some(i) => if 0 <= i < m@.len() {
                    match m@[i].value {
                        Json::Array(items) => {
                            proof {
                                assert(decreases_to!(m@ => m@[i]));
                            }
                            seq![s] + spec_collect_all(items@)
                        },
                        _ => Seq::empty(),
                    }
                } else {
                    Seq::empty()
                },
            },
            None => Seq::empty(),
        },
        _ => Seq::empty(),
    }
}

/// The symbols of each value, in order.
pub open spec fn spec_collect_all(items: Seq<Json>) -> Seq<LspSymbolView>
    decreases items, 0int,
{
    if items.len() == 0 {
        Seq::empty()
    } else {
        spec_collect_all(items.drop_last()) + spec_collect(items.last())
    }
}

/// Appends the symbols of a `DocumentSymbol` and its descendants.
fn collect_document_symbol(val: &Json, out: &mut Vec<LspSymbol>)
    ensures
        lsp_views(final(out)@) == lsp_views(old(out)@) + spec_collect(*val),
    decreases *val, 1int,
{
    let ghost start = lsp_views(out@);
    match val {
        Json::Object(m) => {
            let sym = read_named(m, member(m, "selectionRange"));
            match sym {
                Some(s) => {
                    proof {
                        lemma_obj_index(m@, "children"@);
                    }
                    match find_member(m, "children") {
                        None => {
                            out.push(s);
                            assert(lsp_views(out@) =~= start + spec_collect(*val));
                        },
                        Some(i) => {
                            assert(obj_index(m@, "children"@) == Some(i as int)) by {
                                lemma_obj_index_first(m@, "children"@, i as int);
                            }
                            match &m[i].value {
                                Json::Array(items) => {
                                    out.push(s);
                                    let ghost mid = lsp_views(out@);
                                    assert(mid == start + seq![s@]);
                                    proof {
                                        assert(decreases_to!(m@ => m@[i as int]));
                                    }
                                    collect_all(items, out);
                                    assert(lsp_views(out@) =~= start + spec_collect(*val));
                                },
                                _ => {
                                    assert(lsp_views(out@) =~= start + spec_collect(*val));
                                },
                            }
                        },
                    }
                },
                None => {
                    assert(lsp_views(out@) =~= start + spec_collect(*val));
                },
            }
        },
        _ => {
            assert(lsp_views(out@) =~= start + spec_collect(*val));
        },
    }
}

/// The first member called `key` sits at the position `obj_index` names.
proof fn lemma_obj_index_first(m: Seq<Member>, key: Seq<char>, i: int)
    requires
        0 <= i < m.len(),
        m[i].key@ == key,
        forall|j: int| 0 <= j < i ==> m[j].key@ != key,
    ensures
        obj_index(m, key) == Some(i),
    decreases i,
{
    if i > 0 {
        assert forall|j: int| 0 <= j < i - 1 implies m.drop_first()[j].key@ != key by {
            assert(m.drop_first()[j] == m[j + 1]);
        }
        lemma_obj_index_first(m.drop_first(), key, i - 1);
    }
}

/// Appends the symbols of each value, in order.
fn collect_all(items: &Vec<Json>, out: &mut Vec<LspSymbol>)
    ensures
        lsp_views(final(out)@) == lsp_views(old(out)@) + spec_collect_all(items@),
    decreases items@, 0int,
{
    let ghost start = lsp_views(out@);
    let mut k: usize = 0;
    assert(items@.take(0) =~= Seq::<Json>::empty());
    assert(lsp_views(out@) =~= start + spec_collect_all(items@.take(0)));
    while k < items.len()
        invariant
            k <= items.len(),
            lsp_views(out@) == start + spec_collect_all(items@.take(k as int)),
        decreases items.len() - k,
    {
        assert(items@.take(k + 1).drop_last() == items@.take(k as int));
        assert(items@.take(k + 1).last() == items@[k as int]);
        proof {
            assert(decreases_to!(items@ => items@[k as int]));
        }
        collect_document_symbol(&items[k], out);
        assert(lsp_views(out@) =~= start + spec_collect_all(items@.take(k + 1)));
        k += 1;
    }
    assert(items@.take(items.len() as int) == items@);
}

} // verus!

verus! {

/// Whether `lsp_types::Uri` accepts a text as a URI.
pub uninterp spec fn uri_parses(s: Seq<char>) -> bool;

/// `str::parse::<lsp_types::Uri>` (fluent-uri's parser, which its
/// deserializer uses too): the result is `uri_parses` of the text. The
/// parser panics on texts longer than `i32::MAX` bytes, so those are left
/// out.
#[verifier::external_body]
fn parses_as_uri(s: &str) -> (r: bool)
    requires
        s.spec_bytes().len() <= 0x7fff_ffff,
    ensures
        r == uri_parses(s@),
{
    s.parse::<lsp_types::Uri>().is_ok()
}

/// A text is taken as a URI when its UTF-8 form fits in `i32::MAX` bytes
/// and the URI parser accepts it.
pub open spec fn uri_accepted(u: Seq<char>) -> bool {
    vstd::utf8::encode_utf8(u).len() <= 0x7fff_ffff && uri_parses(u)
}

/// Whether a text is taken as a URI.
fn accepts_uri(s: &str) -> (r: bool)
    ensures
        r == uri_accepted(s@),
{
    let bytes = s.as_bytes();
    bytes.len() <= 0x7fff_ffff && parses_as_uri(s)
}

/// A `SymbolInformation`: an object with `name`, `kind`, and a `location`
/// object holding a URI string and a range.
pub open spec fn dec_flat(v: Json) -> Option<LspSymbolView> {
    match v {
        Json::Object(m) => match obj_get(m@, "location"@) {
            Some(Json::Object(l)) => match as_text(obj_get(l@, "uri"@)) {
                Some(u) => if uri_accepted(u) { dec_named(m@, obj_get(l@, "range"@)) } else { None },
                None => None,
            },
            _ => None,
        },
        _ => None,
    }
}

/// The symbols of the values that decode as `SymbolInformation`, in order.
pub open spec fn spec_flat_all(items: Seq<Json>) -> Seq<LspSymbolView>
    decreases items.len(),
{
    if items.len() == 0 {
        Seq::empty()
    } else {
        spec_flat_all(items.drop_last()) + match dec_flat(items.last()) {
            Some(s) => seq![s],
            None => Seq::empty(),
        }
    }
}

/// Whether a documentSymbol response is hierarchical: its first element
/// is an object with `selectionRange`.
pub open spec fn is_hierarchical(arr: Seq<Json>) -> bool {
    arr.len() > 0 && (arr[0] matches Json::Object(m) && obj_get(m@, "selectionRange"@) is Some)
}

/// The symbols of a documentSymbol response: nothing unless it is a
/// non-empty array; every `DocumentSymbol` with its descendants when
/// hierarchical, else every `SymbolInformation`.
pub open spec fn spec_flatten(raw: Json) -> Seq<LspSymbolView> {
    match raw {
        Json::Array(arr) => if is_hierarchical(arr@) {
            spec_collect_all(arr@)
        } else {
            spec_flat_all(arr@)
        },
        _ => Seq::empty(),
    }
}

/// The symbol of a `SymbolInformation` value.
fn read_flat(v: &Json) -> (r: Option<LspSymbol>)
    ensures
        match r {
            Some(s) => dec_flat(*v) == Some(s@),
            None => dec_flat(*v) is None,
        },
{
    match v {
        Json::Object(m) => match member(m, "location") {
            Some(Json::Object(l)) => match text(member(l, "uri")) {
                Some(u) => if accepts_uri(u.as_str()) { read_named(m, member(l, "range")) } else { None },
                None => None,
            },
            _ => None,
        },
        _ => None,
    }
}

/// Flatten a documentSymbol response (hierarchical or flat) into a list.
pub fn flatten_symbols(raw: &Json) -> (r: Vec<LspSymbol>)
    ensures
        lsp_views(r@) == spec_flatten(*raw),
{
    let mut out: Vec<LspSymbol> = Vec::new();
    match raw {
        Json::Array(arr) => {
            let hierarchical = arr.len() > 0 && match &arr[0] {
                Json::Object(m) => find_member(m, "selectionRange").is_some(),
                _ => false,
            };
            if hierarchical {
                collect_all(arr, &mut out);
                assert(lsp_views(out@) =~= spec_flatten(*raw));
            } else {
                let mut k: usize = 0;
                assert(arr@.take(0) =~= Seq::<Json>::empty());
                assert(lsp_views(out@) =~= spec_flat_all(arr@.take(0)));
                while k < arr.len()
                    invariant
                        k <= arr.len(),
                        lsp_views(out@) == spec_flat_all(arr@.take(k as int)),
                    decreases arr.len() - k,
                {
                    assert(arr@.take(k + 1).drop_last() == arr@.take(k as int));
                    assert(arr@.take(k + 1).last() == arr@[k as int]);
                    match read_flat(&arr[k]) {
                        Some(s) => {
                            out.push(s);
                        },
                        None => {},
                    }
                    assert(lsp_views(out@) =~= spec_flat_all(arr@.take(k + 1)));
                    k += 1;
                }
                assert(arr@.take(arr.len() as int) == arr@);
            }
        },
        _ => {
            assert(lsp_views(out@) =~= spec_flatten(*raw));
        },
    }
    out
}

/// The `file://` URI of a path, when it parses as a URI.
pub open spec fn spec_path_uri(path: Seq<char>) -> Option<Seq<char>> {
    if uri_accepted("file://"@ + path) { Some("file://"@ + path) } else { None }
}

/// The `file://` URI of a path; `None` when the text is not a valid URI.
pub fn path_to_uri(path: &str) -> (r: Option<String>)
    ensures
        match r {
            Some(u) => spec_path_uri(path@) == Some(u@),
            None => spec_path_uri(path@) is None,
        },
{
    let mut s = String::new();
    crate::text::push_str(&mut s, "file://");
    crate::text::push_str(&mut s, path);
    if accepts_uri(s.as_str()) {
        Some(s)
    } else {
        None
    }
}

/// The workspace folder announced for a root: its URI and its last path
/// component (or `workspace` when it has none).
pub open spec fn spec_workspace_folder(root: Seq<char>) -> Option<(Seq<char>, Seq<char>)> {
    match spec_path_uri(root) {
        Some(u) => Some((u, match crate::paths::file_name(root) {
            Some(n) => n,
            None => "workspace"@,
        })),
        None => None,
    }
}

/// The workspace folder for the initialize request: URI and name.
pub fn workspace_folder(root: &str) -> (r: Option<(String, String)>)
    ensures
        match r {
            Some((u, n)) => spec_workspace_folder(root@) == Some((u@, n@)),
            None => spec_workspace_folder(root@) is None,
        },
{
    let uri = match path_to_uri(root) {
        Some(u) => u,
        None => {
            return None;
        },
    };
    let rc = chars_of(root);
    let name = match crate::paths::file_name_of(rc.as_slice()) {
        Some(n) => string_of(n.as_slice()),
        None => {
            let mut w = String::new();
            crate::text::push_str(&mut w, "workspace");
            w
        },
    };
    Some((uri, name))
}

} // verus!

verus! {

/// The header that frames a message body: its length in UTF-8 bytes.
pub open spec fn spec_frame_header(body: &str) -> Seq<char> {
    "Content-Length: "@ + crate::text::decimal((body.spec_bytes().len() as usize) as nat) + "\r\n\r\n"@
}

/// The `Content-Length` header for a message body.
pub fn frame_header(body: &str) -> (r: String)
    ensures
        r@ == spec_frame_header(body),
{
    let n = body.len();
    let mut out = String::new();
    crate::text::push_str(&mut out, "Content-Length: ");
    crate::text::push_decimal(&mut out, n as u64);
    crate::text::push_str(&mut out, "\r\n\r\n");
    out
}

/// What one header line says.
#[derive(Debug, Clone, Copy, PartialEq, Eq, Structural)]
pub enum HeaderLine {
    /// The blank line that ends the headers.
    End,
    /// A `Content-Length` header with its value.
    ContentLength(usize),
    /// A `Content-Length` header whose value is not a number.
    BadLength,
    /// Any other header.
    Other,
}

/// A line without its trailing `\r` and `\n` characters.
pub open spec fn trim_line_end(s: Seq<char>) -> Seq<char>
    decreases s.len(),
{
    if s.len() > 0 && (s.last() == '\r' || s.last() == '\n') {
        trim_line_end(s.drop_last())
    } else {
        s
    }
}

/// How a header line read from the server is understood.
pub open spec fn spec_header_line(line: Seq<char>) -> HeaderLine {
    let l = trim_line_end(line);
    if l.len() == 0 {
        HeaderLine::End
    } else if crate::text::has_prefix(l, "Content-Length: "@) {
        match crate::config::parse_unsigned(crate::text::trim(l.skip(16)), usize::MAX as nat) {
            Some(n) => HeaderLine::ContentLength(n as usize),
            None => HeaderLine::BadLength,
        }
    } else {
        HeaderLine::Other
    }
}

/// Reads one header line (with its line ending, as read).
pub fn header_line(line: &str) -> (r: HeaderLine)
    ensures
        r == spec_header_line(line@),
{
    let cs = chars_of(line);
    let mut n: usize = cs.len();
    assert(cs@.take(n as int) == cs@);
    while n > 0 && (cs[n - 1] == '\r' || cs[n - 1] == '\n')
        invariant
            n <= cs.len(),
            cs@ == line@,
            trim_line_end(line@) == trim_line_end(cs@.take(n as int)),
        decreases n,
    {
        assert(cs@.take(n as int).drop_last() == cs@.take(n - 1));
        n -= 1;
    }
    assert(trim_line_end(cs@.take(n as int)) == cs@.take(n as int));
    let l = crate::text::slice_chars(cs.as_slice(), 0, n);
    if l.len() == 0 {
        return HeaderLine::End;
    }
    let prefix = chars_of("Content-Length: ");
    proof {
        reveal_strlit("Content-Length: ");
    }
    if crate::text::starts_with(l.as_slice(), prefix.as_slice()) {
        let rest = crate::text::slice_chars(l.as_slice(), 16, l.len());
        let value = crate::text::trim_chars(rest.as_slice());
        let vs = string_of(value.as_slice());
        assert(rest@ == l@.skip(16));
        match crate::config::parse_u64_max(vs.as_str(), usize::MAX as u64) {
            Some(v) => HeaderLine::ContentLength(v as usize),
            None => HeaderLine::BadLength,
        }
    } else {
        HeaderLine::Other
    }
}

/// The reply to a server request: a null result for its id.
pub open spec fn spec_server_reply(id: Json, reply: Json) -> bool {
    reply matches Json::Object(m) && m@.len() == 3
        && m@[0].key@ == "jsonrpc"@ && (m@[0].value matches Json::Str(v) && v@ == "2.0"@)
        && m@[1].key@ == "id"@ && m@[1].value == id
        && m@[2].key@ == "result"@ && m@[2].value is Null
}

fn text_value(s: &str) -> (r: String)
    ensures
        r@ == s@,
{
    string_of(chars_of(s).as_slice())
}

/// The reply sent for a request from the server.
pub fn server_reply(id: Json) -> (r: Json)
    ensures
        spec_server_reply(id, r),
{
    let mut m: Vec<Member> = Vec::new();
    m.push(Member { key: text_value("jsonrpc"), value: Json::Str(text_value("2.0")) });
    m.push(Member { key: text_value("id"), value: id });
    m.push(Member { key: text_value("result"), value: Json::Null });
    Json::Object(m)
}

/// A JSON-RPC request: `jsonrpc`, `id`, `method` and `params`, in order.
pub open spec fn spec_request(id: u64, method: Seq<char>, params: Json, msg: Json) -> bool {
    msg matches Json::Object(m) && m@.len() == 4
        && m@[0].key@ == "jsonrpc"@ && (m@[0].value matches Json::Str(v) && v@ == "2.0"@)
        && m@[1].key@ == "id"@ && m@[1].value == Json::Number(JsonNumber::PosInt(id))
        && m@[2].key@ == "method"@ && (m@[2].value matches Json::Str(v) && v@ == method)
        && m@[3].key@ == "params"@ && m@[3].value == params
}

/// The request message for a method call.
pub fn request_message(id: u64, method: &str, params: Json) -> (r: Json)
    ensures
        spec_request(id, method@, params, r),
{
    let mut m: Vec<Member> = Vec::new();
    m.push(Member { key: text_value("jsonrpc"), value: Json::Str(text_value("2.0")) });
    m.push(Member { key: text_value("id"), value: Json::Number(JsonNumber::PosInt(id)) });
    m.push(Member { key: text_value("method"), value: Json::Str(text_value(method)) });
    m.push(Member { key: text_value("params"), value: params });
    Json::Object(m)
}

/// A JSON-RPC notification: `jsonrpc`, `method` and `params`, in order.
pub open spec fn spec_notification(method: Seq<char>, params: Json, msg: Json) -> bool {
    msg matches Json::Object(m) && m@.len() == 3
        && m@[0].key@ == "jsonrpc"@ && (m@[0].value matches Json::Str(v) && v@ == "2.0"@)
        && m@[1].key@ == "method"@ && (m@[1].value matches Json::Str(v) && v@ == method)
        && m@[2].key@ == "params"@ && m@[2].value == params
}

/// The notification message for a method.
pub fn notification_message(method: &str, params: Json) -> (r: Json)
    ensures
        spec_notification(method@, params, r),
{
    let mut m: Vec<Member> = Vec::new();
    m.push(Member { key: text_value("jsonrpc"), value: Json::Str(text_value("2.0")) });
    m.push(Member { key: text_value("method"), value: Json::Str(text_value(method)) });
    m.push(Member { key: text_value("params"), value: params });
    Json::Object(m)
}

/// What to do with a message while waiting for the response to request
/// `wanted`.
#[derive(Debug)]
pub enum ResponseStep {
    /// The awaited response arrived with this result.
    Done(Json),
    /// Another request's response: keep it for later.
    Keep(u64, Json),
    /// Not a response.
    Skip,
}

/// Waiting for a response: the awaited one ends the wait, others are kept.
pub fn response_step(wanted: u64, msg: MessageKind) -> (r: ResponseStep)
    ensures
        match msg@ {
            MessageView::Response { id, result } => if id == wanted {
                r matches ResponseStep::Done(x) && x == result
            } else {
                r matches ResponseStep::Keep(i, x) && i == id && x == result
            },
            _ => r is Skip,
        },
{
    match msg {
        MessageKind::Response { id, result } => if id == wanted {
            ResponseStep::Done(result)
        } else {
            ResponseStep::Keep(id, result)
        },
        _ => ResponseStep::Skip,
    }
}

} // verus!

verus! {

/// The lowercase mapping of a text, as `str::to_lowercase` gives it.
pub uninterp spec fn lowercase(s: Seq<char>) -> Seq<char>;

/// `str::to_lowercase`: the result is `lowercase` of the text.
#[verifier::external_body]
fn to_lowercase(s: &str) -> (r: String)
    ensures
        r@ == lowercase(s@),
{
    s.to_lowercase()
}

/// Whether a progress title announces workspace setup or loading.
pub open spec fn is_setup_title(title: Seq<char>) -> bool {
    crate::text::contains_seq(lowercase(title), "load"@) || crate::text::contains_seq(lowercase(title), "setting up"@)
}

/// Whether a progress title announces loading.
pub open spec fn is_load_title(title: Seq<char>) -> bool {
    crate::text::contains_seq(lowercase(title), "load"@)
}

/// Where the wait for the server's initial indexing stands.
#[derive(Debug)]
pub enum IndexingState {
    /// Waiting for a setup or load progress item to end; the token of the
    /// latest such item that began, if any.
    AwaitSetup { setup_token: Option<Json> },
    /// The setup item ended: briefly watching for a load item to begin.
    ProbeLoad,
    /// A load item began: waiting for it to end.
    AwaitLoad { token: Json },
    /// Indexing is complete.
    Done,
}

/// What the client observed.
#[derive(Debug)]
pub enum IndexingEvent {
    /// A message arrived.
    Message(MessageKind),
    /// The short window for a load item to begin passed.
    ProbeExpired,
}

/// The next state, and a response to keep for a later request.
#[derive(Debug)]
pub struct IndexingStep {
    pub state: IndexingState,
    pub keep: Option<(u64, Json)>,
}

/// One step of the wait for indexing. Phase one waits for the first
/// setup/load progress item to end; then a short probe watches for a load
/// item to begin (a cold cache), and if one does, waits for it to end.
/// Responses that arrive meanwhile are kept; the probe expiring means the
/// cache was warm.
pub open spec fn spec_indexing_step(state: IndexingState, event: IndexingEvent) -> IndexingStep {
    let keep = match event {
        IndexingEvent::Message(MessageKind::Response { id, result }) => Some((id, result)),
        _ => None,
    };
    let next = match state {
        IndexingState::AwaitSetup { setup_token } => match event {
            IndexingEvent::Message(MessageKind::ProgressBegin { token, title }) => if is_setup_title(title@) {
                IndexingState::AwaitSetup { setup_token: Some(token) }
            } else {
                IndexingState::AwaitSetup { setup_token }
            },
            IndexingEvent::Message(MessageKind::ProgressEnd { token }) => match setup_token {
                Some(t) => if json_same(t, token) {
                    IndexingState::ProbeLoad
                } else {
                    IndexingState::AwaitSetup { setup_token }
                },
                None => IndexingState::AwaitSetup { setup_token },
            },
            _ => IndexingState::AwaitSetup { setup_token },
        },
        IndexingState::ProbeLoad => match event {
            IndexingEvent::Message(MessageKind::ProgressBegin { token, title }) => if is_load_title(title@) {
                IndexingState::AwaitLoad { token }
            } else {
                IndexingState::ProbeLoad
            },
            IndexingEvent::ProbeExpired => IndexingState::Done,
            _ => IndexingState::ProbeLoad,
        },
        IndexingState::AwaitLoad { token } => match event {
            IndexingEvent::Message(MessageKind::ProgressEnd { token: t }) => if json_same(t, token) {
                IndexingState::Done
            } else {
                IndexingState::AwaitLoad { token }
            },
            _ => IndexingState::AwaitLoad { token },
        },
        IndexingState::Done => IndexingState::Done,
    };
    IndexingStep { state: next, keep }
}

fn title_matches(title: &String, load_only: bool) -> (r: bool)
    ensures
        r == (if load_only { is_load_title(title@) } else { is_setup_title(title@) }),
{
    let t = to_lowercase(title.as_str());
    let tc = chars_of(t.as_str());
    let load = chars_of("load");
    let setting_up = chars_of("setting up");
    if load_only {
        crate::text::contains(tc.as_slice(), load.as_slice())
    } else {
        crate::text::contains(tc.as_slice(), load.as_slice()) || crate::text::contains(tc.as_slice(), setting_up.as_slice())
    }
}

/// One step of the wait for the server's initial indexing.
pub fn indexing_step(state: IndexingState, event: IndexingEvent) -> (r: IndexingStep)
    ensures
        r == spec_indexing_step(state, event),
{
    match state {
        IndexingState::AwaitSetup { setup_token } => match event {
            IndexingEvent::Message(MessageKind::ProgressBegin { token, title }) => {
                let next = if title_matches(&title, false) {
                    IndexingState::AwaitSetup { setup_token: Some(token) }
                } else {
                    IndexingState::AwaitSetup { setup_token }
                };
                IndexingStep { state: next, keep: None }
            },
            IndexingEvent::Message(MessageKind::ProgressEnd { token }) => {
                let same = match &setup_token {
                    Some(t) => json_eq(t, &token),
                    None => false,
                };
                let next = if same { IndexingState::ProbeLoad } else { IndexingState::AwaitSetup { setup_token } };
                IndexingStep { state: next, keep: None }
            },
            IndexingEvent::Message(MessageKind::Response { id, result }) => {
                IndexingStep { state: IndexingState::AwaitSetup { setup_token }, keep: Some((id, result)) }
            },
            _ => IndexingStep { state: IndexingState::AwaitSetup { setup_token }, keep: None },
        },
        IndexingState::ProbeLoad => match event {
            IndexingEvent::Message(MessageKind::ProgressBegin { token, title }) => {
                let next = if title_matches(&title, true) { IndexingState::AwaitLoad { token } } else { IndexingState::ProbeLoad };
                IndexingStep { state: next, keep: None }
            },
            IndexingEvent::Message(MessageKind::Response { id, result }) => {
                IndexingStep { state: IndexingState::ProbeLoad, keep: Some((id, result)) }
            },
            IndexingEvent::ProbeExpired => IndexingStep { state: IndexingState::Done, keep: None },
            _ => IndexingStep { state: IndexingState::ProbeLoad, keep: None },
        },
        IndexingState::AwaitLoad { token } => match event {
            IndexingEvent::Message(MessageKind::ProgressEnd { token: t }) => {
                let next = if json_eq(&t, &token) { IndexingState::Done } else { IndexingState::AwaitLoad { token } };
                IndexingStep { state: next, keep: None }
            },
            IndexingEvent::Message(MessageKind::Response { id, result }) => {
                IndexingStep { state: IndexingState::AwaitLoad { token }, keep: Some((id, result)) }
            },
            _ => IndexingStep { state: IndexingState::AwaitLoad { token }, keep: None },
        },
        IndexingState::Done => match event {
            IndexingEvent::Message(MessageKind::Response { id, result }) => {
                IndexingStep { state: IndexingState::Done, keep: Some((id, result)) }
            },
            _ => IndexingStep { state: IndexingState::Done, keep: None },
        },
    }
}

/// Whether the wait for indexing is over.
pub fn indexing_done(state: &IndexingState) -> (r: bool)
    ensures
        r == (*state is Done),
{
    match state {
        IndexingState::Done => true,
        _ => false,
    }
}

} // verus!

verus! {

/// Once indexing is complete it stays complete, whatever arrives; and a
/// response that arrives at any stage is kept for its request.
pub proof fn law_indexing_done_is_final(state: IndexingState, event: IndexingEvent, id: u64, result: Json)
    ensures
        state is Done ==> spec_indexing_step(state, event).state is Done,
        spec_indexing_step(state, IndexingEvent::Message(MessageKind::Response { id, result })).keep == Some((id, result)),
{
}

} // verus!
