//! Windows: adapters, registry values and PowerShell commands.
//!
//! A service name holds the adapter's GUID and its friendly name, the GUID first with
//! a vertical bar behind it.  A GUID never holds a vertical bar, so the first one is
//! always the separator, whatever the friendly name holds.
use vstd::prelude::*;
use vstd::string::*;
use crate::net::{ip_string, IpAddr};
use crate::net::{ip_text, ip_value, is_address_char, law_address_round_trip, lemma_address_text};
use crate::platform::macos::{parse_addresses};
use crate::platform::macos::{addresses_of, ip_texts, lemma_addresses_of_texts, setting_of, shown_output};
use crate::platform::{DnsSetting, PlatformError, ServiceDns};
use crate::platform::{PlatformErrorModel, ServiceModel, SettingModel, service_models};
use crate::text::{
    chars_of, contains_text, copy_of, decimal_of, index_of, join, lines, parse_unsigned, quoted,
    same_text, split_on, split_whitespace, starts_with, to_ascii_lowercase, trim,
};
use crate::text::{
    debug_quoted, decimal, first_index, has_infix, has_prefix, joined, lemma_pieces_of_joined, lower,
    pieces, text_lines, texts, trimmed, unsigned_value, words,
};

verus! {

/// Registry path of the IPv4 interfaces.
pub const TCPIP_INTERFACES: &'static str =
    "HKLM\\SYSTEM\\CurrentControlSet\\Services\\Tcpip\\Parameters\\Interfaces";

/// Registry path of the IPv6 interfaces.
pub const TCPIP6_INTERFACES: &'static str =
    "HKLM\\SYSTEM\\CurrentControlSet\\Services\\Tcpip6\\Parameters\\Interfaces";

/// Name of the registry value that holds an interface's DNS servers.
pub const NAME_SERVER_VALUE: &'static str = "NameServer";

/// The platform layer of Windows.
pub struct WindowsDns;

/// A network adapter as `Get-NetAdapter` describes it.
#[derive(Debug)]
pub struct NetAdapter {
    /// The name users see.
    pub name: String,
    /// The interface GUID.
    pub interface_guid: String,
    /// Connection status.
    pub status: String,
    /// What the adapter is.
    pub interface_description: String,
}

/// What a [`NetAdapter`] says.
pub struct AdapterModel {
    pub name: Seq<char>,
    pub interface_guid: Seq<char>,
    pub status: Seq<char>,
    pub interface_description: Seq<char>,
}

impl View for NetAdapter {
    type V = AdapterModel;

    open spec fn view(&self) -> AdapterModel {
        AdapterModel {
            name: self.name@,
            interface_guid: self.interface_guid@,
            status: self.status@,
            interface_description: self.interface_description@,
        }
    }
}

/// What a list of adapters says.
pub open spec fn adapter_models(v: Seq<NetAdapter>) -> Seq<AdapterModel> {
    v.map_values(|a: NetAdapter| a@)
}

/// An adapter is up when its status reads `Up`, in any case.
pub open spec fn adapter_up(a: AdapterModel) -> bool {
    lower(a.status) == lower("Up"@)
}

impl NetAdapter {
    /// Whether the adapter is up.
    pub fn is_up(&self) -> (r: bool)
        ensures
            r == adapter_up(self@),
    {
        let s = to_ascii_lowercase(self.status.as_str());
        let up = to_ascii_lowercase("Up");
        same_text(s.as_str(), up.as_str())
    }
}

// ── Adapter list ────────────────────────────────────────────────────────────

/// White space between the tokens of a JSON text.
pub open spec fn is_json_space(c: char) -> bool {
    c == ' ' || c == '\n' || c == '\t' || c == '\r'
}

/// The text without the white space that it starts with.
pub open spec fn unspaced(t: Seq<char>) -> Seq<char>
    decreases t.len(),
{
    if t.len() > 0 && is_json_space(t[0]) {
        unspaced(t.skip(1))
    } else {
        t
    }
}

/// What follows the character `c`, where the text starts with it but for white space.
pub open spec fn past(t: Seq<char>, c: char) -> Option<Seq<char>> {
    let u = unspaced(t);
    if u.len() > 0 && u[0] == c {
        Some(u.skip(1))
    } else {
        None
    }
}

/// The JSON string with which a text starts, and the text behind it.
pub uninterp spec fn json_text(t: Seq<char>) -> Option<(Seq<char>, Seq<char>)>;

/// The text behind the JSON value with which a text starts.
pub uninterp spec fn json_skipped(t: Seq<char>) -> Option<Seq<char>>;

/// The first value of a `serde_json::StreamDeserializer` of strings: the string with which the
/// text starts, and the text behind it, which is shorter; nothing where the text starts with no
/// string.  The result is a function of the text.
#[verifier::external_body]
fn read_json_text<'a>(text: &'a str) -> (r: Option<(String, &'a str)>)
    ensures
        (match r {
            Some((s, rest)) => json_text(text@) == Some((s@, rest@)) && rest@.len() < text@.len(),
            None => json_text(text@) is None,
        }),
{
    let mut values = serde_json::Deserializer::from_str(text).into_iter::<String>();
    let s = values.next()?.ok()?;
    Some((s, &text[values.byte_offset()..]))
}

/// The first value of a `serde_json::StreamDeserializer` of ignored values: the text behind the
/// value with which the text starts, which is shorter; nothing where it starts with none.  The
/// result is a function of the text.
#[verifier::external_body]
fn skip_json_value<'a>(text: &'a str) -> (r: Option<&'a str>)
    ensures
        (match r {
            Some(rest) => json_skipped(text@) == Some(rest@) && rest@.len() < text@.len(),
            None => json_skipped(text@) is None,
        }),
{
    let mut values = serde_json::Deserializer::from_str(text).into_iter::<serde::de::IgnoredAny>();
    values.next()?.ok()?;
    Some(&text[values.byte_offset()..])
}

proof fn lemma_unspaced(t: Seq<char>, i: int)
    requires
        0 <= i <= t.len(),
        forall|j: int| 0 <= j < i ==> is_json_space(#[trigger] t[j]),
    ensures
        unspaced(t) == unspaced(t.skip(i)),
    decreases i,
{
    if i > 0 {
        assert forall|j: int| 0 <= j < i - 1 implies is_json_space(#[trigger] t.skip(1)[j]) by {
            assert(t.skip(1)[j] == t[j + 1]);
        }
        lemma_unspaced(t.skip(1), i - 1);
        assert(is_json_space(t[0]));
        assert(t.skip(1).skip(i - 1) =~= t.skip(i));
    } else {
        assert(t.skip(0) =~= t);
    }
}

/// Whether a character is white space between the tokens of a JSON text.
fn is_space(c: char) -> (r: bool)
    ensures
        r == is_json_space(c),
{
    c == ' ' || c == '\n' || c == '\t' || c == '\r'
}

/// The number of characters of white space with which a text starts.
fn count_spaces(t: &str) -> (r: usize)
    ensures
        r <= t@.len(),
        unspaced(t@) == t@.skip(r as int),
{
    let n: usize = t.unicode_len();
    let mut i: usize = 0;
    while i < n && is_space(t.get_char(i))
        invariant
            0 <= i <= n,
            n == t@.len(),
            forall|j: int| 0 <= j < i ==> is_json_space(#[trigger] t@[j]),
        decreases n - i,
    {
        i += 1;
    }
    proof {
        lemma_unspaced(t@, i as int);
        assert(i < n ==> t@.skip(i as int)[0] == t@[i as int]);
    }
    i
}

/// Whether the text is nothing but white space.
fn is_blank(t: &str) -> (r: bool)
    ensures
        r == (unspaced(t@).len() == 0),
{
    count_spaces(t) == t.unicode_len()
}

/// What follows the character `c`, where the text starts with it but for white space.
fn skip_past<'a>(t: &'a str, c: char) -> (r: Option<&'a str>)
    ensures
        (match r {
            Some(rest) => past(t@, c) == Some(rest@) && rest@.len() < t@.len(),
            None => past(t@, c) is None,
        }),
{
    let n: usize = t.unicode_len();
    let i: usize = count_spaces(t);
    if i < n && t.get_char(i) == c {
        let rest = t.substring_char(i + 1, n);
        proof {
            assert(rest@ =~= t@.skip(i as int).skip(1));
        }
        Some(rest)
    } else {
        None
    }
}

/// The keys under which an object describes an adapter.
pub open spec fn is_adapter_key(key: Seq<char>) -> bool {
    key == "Name"@ || key == "InterfaceGuid"@ || key == "Status"@ || key == "InterfaceDescription"@
}

/// An entry of an object: its key, and its value where the key is one of an adapter's.
pub type JsonField = (String, Option<String>);

/// An entry of an object, as text.
pub type FieldModel = (Seq<char>, Option<Seq<char>>);

/// What a list of entries says.
pub open spec fn field_models(v: Seq<JsonField>) -> Seq<FieldModel> {
    v.map_values(|f: JsonField| (f.0@, crate::text::opt_text(f.1)))
}

/// The entry with which a text starts, and the text behind it.  The keys of an adapter want a
/// string; what stands under another key is passed over.
pub open spec fn entry_in(t: Seq<char>) -> Option<(FieldModel, Seq<char>)> {
    match json_text(t) {
        Some((key, a)) => match past(a, ':') {
            Some(b) => if is_adapter_key(key) {
                match json_text(b) {
                    Some((value, rest)) => Some(((key, Some(value)), rest)),
                    None => None,
                }
            } else {
                match json_skipped(b) {
                    Some(rest) => Some(((key, None), rest)),
                    None => None,
                }
            },
            None => None,
        },
        None => None,
    }
}

/// The entries with which a text starts, up to the brace that ends the object, and the text
/// behind it.  An entry takes up text, so that what follows it is shorter.
pub open spec fn entries_in(t: Seq<char>) -> Option<(Seq<FieldModel>, Seq<char>)>
    decreases t.len(),
{
    match entry_in(t) {
        Some((e, rest)) => match past(rest, ',') {
            Some(more) => if more.len() < t.len() {
                match entries_in(more) {
                    Some((l, end)) => Some((seq![e] + l, end)),
                    None => None,
                }
            } else {
                None
            },
            None => match past(rest, '}') {
                Some(end) => Some((seq![e], end)),
                None => None,
            },
        },
        None => None,
    }
}

/// How often a key stands among the entries.
pub open spec fn times(fields: Seq<FieldModel>, key: Seq<char>) -> nat
    decreases fields.len(),
{
    if fields.len() == 0 {
        0
    } else if fields.last().0 == key {
        times(fields.drop_last(), key) + 1
    } else {
        times(fields.drop_last(), key)
    }
}

/// The string under a key that stands among the entries once.
pub open spec fn field_text(fields: Seq<FieldModel>, key: Seq<char>) -> Option<Seq<char>>
    decreases fields.len(),
{
    if fields.len() == 0 || times(fields, key) != 1 {
        None
    } else if fields.last().0 == key {
        fields.last().1
    } else {
        field_text(fields.drop_last(), key)
    }
}

/// The adapter that an object describes: it has each of the four keys once, with a string.
pub open spec fn adapter_of(fields: Seq<FieldModel>) -> Option<AdapterModel> {
    match (
        field_text(fields, "Name"@),
        field_text(fields, "InterfaceGuid"@),
        field_text(fields, "Status"@),
        field_text(fields, "InterfaceDescription"@),
    ) {
        (Some(name), Some(interface_guid), Some(status), Some(interface_description)) => Some(
            AdapterModel { name, interface_guid, status, interface_description },
        ),
        _ => None,
    }
}

/// An object that repeats one of the keys, or lacks one, describes no adapter.
pub proof fn law_each_key_stands_once(fields: Seq<FieldModel>, key: Seq<char>)
    requires
        is_adapter_key(key),
        times(fields, key) != 1,
    ensures
        adapter_of(fields) is None,
{
}

/// The adapter that the object behind an opening brace describes, and the text behind the object.
pub open spec fn object_in(t: Seq<char>) -> Option<(AdapterModel, Seq<char>)> {
    match entries_in(t) {
        Some((fields, end)) => match adapter_of(fields) {
            Some(a) => Some((a, end)),
            None => None,
        },
        None => None,
    }
}

/// The string with which a text starts, and the text behind the character `c` that follows it.
pub open spec fn text_before(t: Seq<char>, c: char) -> Option<(Seq<char>, Seq<char>)> {
    match json_text(t) {
        Some((s, a)) => match past(a, c) {
            Some(rest) => Some((s, rest)),
            None => None,
        },
        None => None,
    }
}

/// The adapter that the array behind an opening bracket describes, by four strings in the order
/// of the fields, and the text behind the array.
pub open spec fn array_in(t: Seq<char>) -> Option<(AdapterModel, Seq<char>)> {
    match text_before(t, ',') {
        Some((name, a)) => match text_before(a, ',') {
            Some((interface_guid, b)) => match text_before(b, ',') {
                Some((status, c)) => match text_before(c, ']') {
                    Some((interface_description, end)) => Some(
                        (AdapterModel { name, interface_guid, status, interface_description }, end),
                    ),
                    None => None,
                },
                None => None,
            },
            None => None,
        },
        None => None,
    }
}

/// The adapter with which a text starts, and the text behind it.
pub open spec fn adapter_in(t: Seq<char>) -> Option<(AdapterModel, Seq<char>)> {
    match past(t, '{') {
        Some(a) => object_in(a),
        None => match past(t, '[') {
            Some(a) => array_in(a),
            None => None,
        },
    }
}

/// The adapters with which a text starts, up to the bracket that ends the list, and the text
/// behind it.  An adapter takes up text, so that what follows it is shorter.
pub open spec fn adapters_in(t: Seq<char>) -> Option<(Seq<AdapterModel>, Seq<char>)>
    decreases t.len(),
{
    match adapter_in(t) {
        Some((a, rest)) => match past(rest, ',') {
            Some(more) => if more.len() < t.len() {
                match adapters_in(more) {
                    Some((l, end)) => Some((seq![a] + l, end)),
                    None => None,
                }
            } else {
                None
            },
            None => match past(rest, ']') {
                Some(end) => Some((seq![a], end)),
                None => None,
            },
        },
        None => None,
    }
}

/// The adapters that the list behind an opening bracket describes, and the text behind the list.
pub open spec fn list_in(t: Seq<char>) -> Option<(Seq<AdapterModel>, Seq<char>)> {
    match past(t, ']') {
        Some(end) => Some((Seq::<AdapterModel>::empty(), end)),
        None => adapters_in(t),
    }
}

/// Every adapter that a `Get-NetAdapter` listing describes: a JSON array of adapters, or a single
/// object where there is one adapter, and nothing behind it.  Anything else describes none.
pub open spec fn listed_adapters(json: Seq<char>) -> Seq<AdapterModel> {
    let t = trimmed(json);
    let read = match past(t, '[') {
        Some(a) => list_in(a),
        None => match past(t, '{') {
            Some(a) => match object_in(a) {
                Some((m, end)) => Some((seq![m], end)),
                None => None,
            },
            None => None,
        },
    };
    match read {
        Some((l, end)) => if unspaced(end).len() == 0 {
            l
        } else {
            Seq::<AdapterModel>::empty()
        },
        None => Seq::<AdapterModel>::empty(),
    }
}

/// The adapters among `a` that are up, in order.
pub open spec fn only_up(a: Seq<AdapterModel>) -> Seq<AdapterModel>
    decreases a.len(),
{
    if a.len() == 0 {
        Seq::<AdapterModel>::empty()
    } else if adapter_up(a.last()) {
        only_up(a.drop_last()).push(a.last())
    } else {
        only_up(a.drop_last())
    }
}

/// Whether a key is one of an adapter's.
fn names_adapter_field(key: &str) -> (r: bool)
    ensures
        r == is_adapter_key(key@),
{
    same_text(key, "Name") || same_text(key, "InterfaceGuid") || same_text(key, "Status")
        || same_text(key, "InterfaceDescription")
}

/// The entry with which a text starts, and the text behind it.
fn read_entry<'a>(t: &'a str) -> (r: Option<(JsonField, &'a str)>)
    ensures
        (match r {
            Some((e, rest)) => entry_in(t@) == Some(((e.0@, crate::text::opt_text(e.1)), rest@))
                && rest@.len() < t@.len(),
            None => entry_in(t@) is None,
        }),
{
    let (key, a) = match read_json_text(t) {
        Some(x) => x,
        None => {
            return None;
        },
    };
    let b = match skip_past(a, ':') {
        Some(b) => b,
        None => {
            return None;
        },
    };
    if names_adapter_field(key.as_str()) {
        match read_json_text(b) {
            Some((value, rest)) => Some(((key, Some(value)), rest)),
            None => None,
        }
    } else {
        match skip_json_value(b) {
            Some(rest) => Some(((key, None), rest)),
            None => None,
        }
    }
}

/// What `entries_in` gives for a text, where the entries `got` were read and those of `more` are
/// left.
spec fn entries_after(got: Seq<FieldModel>, more: Seq<char>) -> Option<(Seq<FieldModel>, Seq<char>)> {
    match entries_in(more) {
        Some((l, end)) => Some((got + l, end)),
        None => None,
    }
}

/// The entries with which a text starts, up to the brace that ends the object, and the text
/// behind it.
fn read_entries<'a>(t: &'a str) -> (r: Option<(Vec<JsonField>, &'a str)>)
    ensures
        (match r {
            Some((l, end)) => entries_in(t@) == Some((field_models(l@), end@)) && end@.len()
                < t@.len(),
            None => entries_in(t@) is None,
        }),
{
    let mut got: Vec<JsonField> = Vec::new();
    let mut at: &'a str = t;
    proof {
        assert(field_models(got@) =~= Seq::<FieldModel>::empty());
        match entries_in(t@) {
            Some((l, end)) => assert(Seq::<FieldModel>::empty() + l =~= l),
            None => {},
        }
    }
    loop
        invariant
            entries_in(t@) == entries_after(field_models(got@), at@),
            at@.len() <= t@.len(),
        decreases at@.len(),
    {
        let (e, rest) = match read_entry(at) {
            Some(x) => x,
            None => {
                return None;
            },
        };
        let ghost before = field_models(got@);
        let ghost m: FieldModel = (e.0@, crate::text::opt_text(e.1));
        got.push(e);
        proof {
            assert(field_models(got@) =~= before.push(m));
            assert(before + seq![m] =~= before.push(m));
        }
        match skip_past(rest, ',') {
            Some(more) => {
                proof {
                    match entries_in(more@) {
                        Some((l, end)) => assert(before + (seq![m] + l) =~= before.push(m) + l),
                        None => {},
                    }
                }
                at = more;
            },
            None => {
                return match skip_past(rest, '}') {
                    Some(end) => Some((got, end)),
                    None => None,
                };
            },
        }
    }
}

proof fn lemma_times(fields: Seq<FieldModel>, key: Seq<char>, i: int)
    requires
        0 <= i <= fields.len(),
    ensures
        times(fields.take(i), key) <= times(fields, key),
    decreases fields.len() - i,
{
    if i < fields.len() {
        assert(fields.take(i + 1).drop_last() =~= fields.take(i));
        lemma_times(fields, key, i + 1);
    } else {
        assert(fields.take(i) =~= fields);
    }
}

/// The string under a key that stands among the entries once.
fn find_field(fields: &Vec<JsonField>, key: &str) -> (r: Option<String>)
    ensures
        crate::text::opt_text(r) == field_text(field_models(fields@), key@),
{
    let ghost all = field_models(fields@);
    let mut r: Option<String> = None;
    let mut found = false;
    let mut i: usize = 0;
    while i < fields.len()
        invariant
            0 <= i <= fields.len(),
            all == field_models(fields@),
            found == (times(all.take(i as int), key@) == 1),
            !found ==> times(all.take(i as int), key@) == 0 && r is None,
            crate::text::opt_text(r) == field_text(all.take(i as int), key@),
        decreases fields.len() - i,
    {
        proof {
            assert(all.take(i + 1).drop_last() =~= all.take(i as int));
            assert(all.take(i + 1).last() == all[i as int]);
            lemma_times(all, key@, i + 1);
        }
        if same_text(fields[i].0.as_str(), key) {
            if found {
                return None;
            }
            found = true;
            r = fields[i].1.clone();
        }
        i += 1;
    }
    proof {
        assert(all.take(i as int) =~= all);
    }
    r
}

/// The adapter that an object describes.
fn read_adapter(fields: &Vec<JsonField>) -> (r: Option<NetAdapter>)
    ensures
        (match r {
            Some(a) => adapter_of(field_models(fields@)) == Some(a@),
            None => adapter_of(field_models(fields@)) is None,
        }),
{
    match (
        find_field(fields, "Name"),
        find_field(fields, "InterfaceGuid"),
        find_field(fields, "Status"),
        find_field(fields, "InterfaceDescription"),
    ) {
        (Some(name), Some(interface_guid), Some(status), Some(interface_description)) => Some(
            NetAdapter { name, interface_guid, status, interface_description },
        ),
        _ => None,
    }
}

/// The adapter that the object behind an opening brace describes, and the text behind the object.
fn read_object<'a>(t: &'a str) -> (r: Option<(NetAdapter, &'a str)>)
    ensures
        (match r {
            Some((a, end)) => object_in(t@) == Some((a@, end@)) && end@.len() < t@.len(),
            None => object_in(t@) is None,
        }),
{
    match read_entries(t) {
        Some((fields, end)) => match read_adapter(&fields) {
            Some(a) => Some((a, end)),
            None => None,
        },
        None => None,
    }
}

/// The string with which a text starts, and the text behind the character `c` that follows it.
fn read_text_before<'a>(t: &'a str, c: char) -> (r: Option<(String, &'a str)>)
    ensures
        (match r {
            Some((s, rest)) => text_before(t@, c) == Some((s@, rest@)) && rest@.len() < t@.len(),
            None => text_before(t@, c) is None,
        }),
{
    match read_json_text(t) {
        Some((s, a)) => match skip_past(a, c) {
            Some(rest) => Some((s, rest)),
            None => None,
        },
        None => None,
    }
}

/// The adapter that the array behind an opening bracket describes, and the text behind the array.
fn read_array<'a>(t: &'a str) -> (r: Option<(NetAdapter, &'a str)>)
    ensures
        (match r {
            Some((a, end)) => array_in(t@) == Some((a@, end@)) && end@.len() < t@.len(),
            None => array_in(t@) is None,
        }),
{
    let (name, a) = match read_text_before(t, ',') {
        Some(x) => x,
        None => {
            return None;
        },
    };
    let (interface_guid, b) = match read_text_before(a, ',') {
        Some(x) => x,
        None => {
            return None;
        },
    };
    let (status, c) = match read_text_before(b, ',') {
        Some(x) => x,
        None => {
            return None;
        },
    };
    match read_text_before(c, ']') {
        Some((interface_description, end)) => Some(
            (NetAdapter { name, interface_guid, status, interface_description }, end),
        ),
        None => None,
    }
}

/// The adapter with which a text starts, and the text behind it.
fn read_one<'a>(t: &'a str) -> (r: Option<(NetAdapter, &'a str)>)
    ensures
        (match r {
            Some((a, end)) => adapter_in(t@) == Some((a@, end@)) && end@.len() < t@.len(),
            None => adapter_in(t@) is None,
        }),
{
    match skip_past(t, '{') {
        Some(a) => read_object(a),
        None => match skip_past(t, '[') {
            Some(a) => read_array(a),
            None => None,
        },
    }
}

/// What `adapters_in` gives for a text, where the adapters `got` were read and those of `more`
/// are left.
spec fn adapters_after(got: Seq<AdapterModel>, more: Seq<char>) -> Option<(Seq<AdapterModel>, Seq<char>)> {
    match adapters_in(more) {
        Some((l, end)) => Some((got + l, end)),
        None => None,
    }
}

/// The adapters that the list behind an opening bracket describes, and the text behind the list.
fn read_list<'a>(t: &'a str) -> (r: Option<(Vec<NetAdapter>, &'a str)>)
    ensures
        (match r {
            Some((l, end)) => list_in(t@) == Some((adapter_models(l@), end@)),
            None => list_in(t@) is None,
        }),
{
    let mut got: Vec<NetAdapter> = Vec::new();
    proof {
        assert(adapter_models(got@) =~= Seq::<AdapterModel>::empty());
    }
    match skip_past(t, ']') {
        Some(end) => {
            return Some((got, end));
        },
        None => {},
    }
    let mut at: &'a str = t;
    proof {
        match adapters_in(t@) {
            Some((l, end)) => assert(Seq::<AdapterModel>::empty() + l =~= l),
            None => {},
        }
    }
    loop
        invariant
            past(t@, ']') is None,
            adapters_in(t@) == adapters_after(adapter_models(got@), at@),
        decreases at@.len(),
    {
        let (a, rest) = match read_one(at) {
            Some(x) => x,
            None => {
                return None;
            },
        };
        let ghost before = adapter_models(got@);
        let ghost m = a@;
        got.push(a);
        proof {
            assert(adapter_models(got@) =~= before.push(m));
            assert(before + seq![m] =~= before.push(m));
        }
        match skip_past(rest, ',') {
            Some(more) => {
                proof {
                    match adapters_in(more@) {
                        Some((l, end)) => assert(before + (seq![m] + l) =~= before.push(m) + l),
                        None => {},
                    }
                }
                at = more;
            },
            None => {
                return match skip_past(rest, ']') {
                    Some(end) => Some((got, end)),
                    None => None,
                };
            },
        }
    }
}

/// The adapters of a list that are up, in order.
pub fn keep_up(adapters: Vec<NetAdapter>) -> (r: Vec<NetAdapter>)
    ensures
        adapter_models(r@) == only_up(adapter_models(adapters@)),
{
    let ghost all = adapter_models(adapters@);
    let mut r: Vec<NetAdapter> = Vec::new();
    let mut i: usize = 0;
    proof {
        assert(adapter_models(r@) =~= only_up(all.take(0)));
    }
    while i < adapters.len()
        invariant
            0 <= i <= adapters.len(),
            all == adapter_models(adapters@),
            adapter_models(r@) == only_up(all.take(i as int)),
        decreases adapters.len() - i,
    {
        proof {
            assert(all.take(i + 1).drop_last() =~= all.take(i as int));
            assert(all.take(i + 1).last() == adapters@[i as int]@);
        }
        if adapters[i].is_up() {
            let a = NetAdapter {
                name: adapters[i].name.clone(),
                interface_guid: adapters[i].interface_guid.clone(),
                status: adapters[i].status.clone(),
                interface_description: adapters[i].interface_description.clone(),
            };
            let ghost before = r@;
            let ghost m = a@;
            r.push(a);
            proof {
                assert(adapter_models(r@) =~= adapter_models(before).push(m));
            }
        }
        i += 1;
    }
    proof {
        assert(all.take(i as int) =~= all);
    }
    r
}

/// The adapters that a `Get-NetAdapter` listing shows as up.
pub fn parse_net_adapter_json(json: &str) -> (r: Vec<NetAdapter>)
    ensures
        adapter_models(r@) == only_up(listed_adapters(json@)),
{
    let t = trim(json);
    let read: Option<(Vec<NetAdapter>, &str)> = match skip_past(t.as_str(), '[') {
        Some(a) => read_list(a),
        None => match skip_past(t.as_str(), '{') {
            Some(a) => match read_object(a) {
                Some((one, end)) => {
                    let mut l: Vec<NetAdapter> = Vec::new();
                    let ghost m = one@;
                    l.push(one);
                    proof {
                        assert(adapter_models(l@) =~= seq![m]);
                    }
                    Some((l, end))
                },
                None => None,
            },
            None => None,
        },
    };
    match read {
        Some((l, end)) => {
            if is_blank(end) {
                return keep_up(l);
            }
        },
        None => {},
    }
    let r: Vec<NetAdapter> = Vec::new();
    proof {
        assert(adapter_models(r@) =~= only_up(Seq::<AdapterModel>::empty()));
    }
    r
}

// ── Service names ───────────────────────────────────────────────────────────

/// The service name of an adapter.
pub open spec fn service_name(friendly_name: Seq<char>, guid: Seq<char>) -> Seq<char> {
    guid.push('|') + friendly_name
}

/// The friendly name and the GUID that a service name holds.
pub open spec fn service_parts(service: Seq<char>) -> Option<(Seq<char>, Seq<char>)> {
    let i = first_index(service, '|');
    if i < service.len() {
        Some((service.skip(i + 1), service.take(i)))
    } else {
        None
    }
}

/// The service name of the adapter with this friendly name and GUID.
pub fn encode_service_name(friendly_name: &str, guid: &str) -> (r: String)
    ensures
        r@ == service_name(friendly_name@, guid@),
{
    let mut r = copy_of(guid);
    r.push('|');
    r.append(friendly_name);
    r
}

/// The friendly name and the GUID that a service name holds, where it holds a separator.
pub fn decode_service_name(service: &str) -> (r: Option<(&str, &str)>)
    ensures
        (match r {
            Some((name, guid)) => service_parts(service@) == Some((name@, guid@)),
            None => service_parts(service@) is None,
        }),
{
    let v = chars_of(service);
    let i = index_of(&v, '|');
    if i == v.len() {
        return None;
    }
    let guid = service.substring_char(0, i);
    let name = service.substring_char(i + 1, v.len());
    proof {
        assert(guid@ =~= service@.take(i as int));
        assert(name@ =~= service@.skip(i + 1));
    }
    Some((name, guid))
}

/// A service name gives back the friendly name and the GUID it was made of, whatever the
/// friendly name, as long as the GUID holds no vertical bar.
pub proof fn law_service_name_round_trip(friendly_name: Seq<char>, guid: Seq<char>)
    requires
        !guid.contains('|'),
    ensures
        service_parts(service_name(friendly_name, guid)) == Some((friendly_name, guid)),
{
    let s = service_name(friendly_name, guid);
    assert forall|j: int| 0 <= j < guid.len() implies s[j] != '|' by {
        assert(s[j] == guid[j]);
        assert(guid.contains(guid[j]));
    }
    assert(s[guid.len() as int] == '|');
    crate::text::lemma_first_index(s, '|', guid.len() as int);
    assert(s.skip(guid.len() as int + 1) =~= friendly_name);
    assert(s.take(guid.len() as int) =~= guid);
}

// ── Registry ────────────────────────────────────────────────────────────────

/// The value behind the name and the type in a line of `reg query`, its words joined with
/// commas.
pub open spec fn registry_value(line: Seq<char>) -> Seq<char> {
    let w = words(line);
    if w.len() <= 2 {
        Seq::<char>::empty()
    } else {
        joined(w.skip(2), ","@)
    }
}

/// What `reg query` said of the DNS servers: the first line that starts with the value's
/// name decides; without one, or with an empty value, DHCP is in use.
pub open spec fn registry_setting(ls: Seq<Seq<char>>) -> SettingModel
    decreases ls.len(),
{
    if ls.len() == 0 {
        SettingModel::Dhcp
    } else {
        let t = trimmed(ls[0]);
        if has_prefix(t, "NameServer"@) {
            let value = registry_value(t);
            if value.len() == 0 {
                SettingModel::Dhcp
            } else {
                setting_of(addresses_of(pieces(value, ',')))
            }
        } else {
            registry_setting(ls.skip(1))
        }
    }
}

/// The setting that `reg query` printed.
pub fn parse_reg_query_nameserver(output: &str) -> (r: DnsSetting)
    ensures
        r@ == registry_setting(text_lines(output@)),
{
    let ls = lines(output);
    let ghost all = text_lines(output@);
    let mut i: usize = 0;
    proof {
        assert(all.skip(0) =~= all);
    }
    while i < ls.len()
        invariant
            0 <= i <= ls.len(),
            all == texts(ls@),
            all == text_lines(output@),
            registry_setting(all.skip(i as int)) == registry_setting(all),
        decreases ls.len() - i,
    {
        let t = trim(ls[i].as_str());
        proof {
            assert(all.skip(i as int)[0] == ls@[i as int]@);
            assert(all.skip(i as int).skip(1) =~= all.skip(i + 1));
        }
        if starts_with(t.as_str(), "NameServer") {
            let w = split_whitespace(t.as_str());
            let mut rest: Vec<String> = Vec::new();
            let mut k: usize = 2;
            while k < w.len()
                invariant
                    2 <= k,
                    w.len() >= 2 ==> k <= w.len(),
                    w.len() >= 2 ==> texts(rest@) == texts(w@).subrange(2, k as int),
                    w.len() < 2 ==> rest@.len() == 0,
                decreases w.len() - k,
            {
                let ghost before = rest@;
                rest.push(w[k].clone());
                proof {
                    assert(texts(rest@) =~= texts(before).push(w@[k as int]@));
                    assert(texts(w@).subrange(2, k + 1) =~= texts(w@).subrange(2, k as int).push(
                        w@[k as int]@,
                    ));
                }
                k += 1;
            }
            let value = join(&rest, ",");
            proof {
                if w@.len() > 2 {
                    assert(texts(rest@) =~= words(t@).skip(2));
                } else {
                    assert(texts(rest@) =~= Seq::<Seq<char>>::empty());
                }
                assert(value@ =~= registry_value(t@));
            }
            if value.as_str().is_empty() {
                return DnsSetting::Dhcp;
            }
            let servers = parse_addresses(&split_on(value.as_str(), ','));
            if servers.len() == 0 {
                return DnsSetting::Dhcp;
            }
            return DnsSetting::Static { servers };
        }
        i += 1;
    }
    DnsSetting::Dhcp
}

/// The registry key of an interface for one protocol.
pub fn interface_key(proto: &str, guid: &str) -> (r: String)
    ensures
        r@ == "HKLM\\SYSTEM\\CurrentControlSet\\Services\\"@ + proto@ + "\\Parameters\\Interfaces\\"@
            + guid@,
{
    let mut r = "HKLM\\SYSTEM\\CurrentControlSet\\Services\\".to_owned();
    r.append(proto);
    r.append("\\Parameters\\Interfaces\\");
    r.append(guid);
    r
}

/// Whether `whoami /groups` lists the Administrators group.
pub fn parse_whoami_groups_for_admin(output: &str) -> (r: bool)
    ensures
        r == has_infix(output@, "S-1-5-32-544"@),
{
    contains_text(output, "S-1-5-32-544")
}

/// Whether DNS may be written, by how `net session` ended: it succeeded, or it could not be run,
/// in which case the write itself will tell.
pub fn check_admin(session: Option<bool>) -> (r: Result<(), PlatformError>)
    ensures
        r is Err <==> session == Some(false),
        r matches Err(e) ==> e is NeedsRoot,
{
    match session {
        Some(false) => Err(PlatformError::NeedsRoot),
        _ => Ok(()),
    }
}

// ── Commands ────────────────────────────────────────────────────────────────

/// Each address in single quotes.
pub open spec fn quoted_ips(servers: Seq<IpAddr>) -> Seq<Seq<char>> {
    servers.map_values(|ip: IpAddr| "'"@ + ip_text(ip) + "'"@)
}

/// The PowerShell command that gives the adapter with index `idx` a setting.
pub open spec fn set_dns_command(idx: nat, setting: SettingModel) -> Seq<char> {
    "Set-DnsClientServerAddress -InterfaceIndex "@ + decimal(idx) + match setting {
        SettingModel::Dhcp => " -ResetServerAddresses"@,
        SettingModel::Static(servers) => " -ServerAddresses "@ + joined(quoted_ips(servers), ","@),
    }
}

/// The PowerShell command that gives the adapter with index `idx` the setting.
pub fn build_set_dns_command(idx: u32, setting: &DnsSetting) -> (r: String)
    ensures
        r@ == set_dns_command(idx as nat, setting@),
{
    let mut r = "Set-DnsClientServerAddress -InterfaceIndex ".to_owned();
    let n = decimal_of(idx as u64);
    r.append(n.as_str());
    match setting {
        DnsSetting::Dhcp => {
            r.append(" -ResetServerAddresses");
        },
        DnsSetting::Static { servers } => {
            let mut parts: Vec<String> = Vec::new();
            let mut i: usize = 0;
            while i < servers.len()
                invariant
                    0 <= i <= servers.len(),
                    parts@.len() == i,
                    forall|j: int| 0 <= j < i ==> #[trigger] parts@[j]@ == quoted_ips(servers@)[j],
                decreases servers.len() - i,
            {
                let mut p = "'".to_owned();
                let t = ip_string(servers[i]);
                p.append(t.as_str());
                p.append("'");
                parts.push(p);
                i += 1;
            }
            proof {
                assert(texts(parts@) =~= quoted_ips(servers@));
            }
            let list = join(&parts, ",");
            r.append(" -ServerAddresses ");
            r.append(list.as_str());
        },
    }
    proof {
        assert(r@ =~= set_dns_command(idx as nat, setting@));
    }
    r
}

/// The PowerShell query for the index of the adapter with a GUID.
pub fn build_ifindex_query(guid: &str) -> (r: String)
    ensures
        r@ == "(Get-NetAdapter -IncludeHidden | Where-Object { $_.InterfaceGuid -eq '"@ + guid@
            + "' } | Select-Object -First 1 -ExpandProperty ifIndex)"@,
{
    let mut r = "(Get-NetAdapter -IncludeHidden | Where-Object { $_.InterfaceGuid -eq '".to_owned();
    r.append(guid);
    r.append("' } | Select-Object -First 1 -ExpandProperty ifIndex)");
    r
}

/// The adapter index that the query for a GUID printed.
pub fn parse_ifindex(guid: &str, output: &str) -> (r: Result<u32, PlatformError>)
    ensures
        (match r {
            Ok(n) => unsigned_value(trimmed(output@), 0xffff_ffff) == Some(n as nat),
            Err(e) => unsigned_value(trimmed(output@), 0xffff_ffff) is None && e@
                == PlatformErrorModel::CommandFailed(
                "could not resolve ifIndex for adapter GUID "@ + guid@ + ": got "@ + debug_quoted(
                    trimmed(output@),
                ),
            ),
        }),
{
    let t = trim(output);
    match parse_unsigned(t.as_str(), 0xffff_ffff) {
        Some(n) => Ok(n as u32),
        None => {
            let mut m = "could not resolve ifIndex for adapter GUID ".to_owned();
            m.append(guid);
            m.append(": got ");
            let q = quoted(t.as_str());
            m.append(q.as_str());
            Err(PlatformError::CommandFailed(m))
        },
    }
}

/// The outcome of a PowerShell call.
pub fn powershell_outcome(success: bool, status: &str, stdout: &str, stderr: &str) -> (r: Result<
    String,
    PlatformError,
>)
    ensures
        r is Ok <==> success,
        r matches Ok(s) ==> s@ == stdout@,
        r matches Err(e) ==> e@ == PlatformErrorModel::CommandFailed(
            "powershell exited "@ + status@ + ": "@ + shown_output(stdout@, stderr@),
        ),
{
    if success {
        return Ok(copy_of(stdout));
    }
    let mut m = "powershell exited ".to_owned();
    m.append(status);
    m.append(": ");
    if stderr.is_empty() {
        m.append(stdout);
    } else {
        m.append(stderr);
    }
    Err(PlatformError::CommandFailed(m))
}

/// The outcome of a `reg.exe` call.  A query fails where the value is absent; then
/// `allow_error` takes the failure as an answer.
pub fn reg_outcome(
    args: &Vec<String>,
    allow_error: bool,
    success: bool,
    status: &str,
    stdout: &str,
    stderr: &str,
) -> (r: Result<String, PlatformError>)
    ensures
        r is Ok <==> (success || allow_error),
        r matches Ok(s) ==> s@ == stdout@,
        r matches Err(e) ==> e@ == PlatformErrorModel::CommandFailed(
            "reg.exe "@ + joined(texts(args@), " "@) + " exited "@ + status@ + ": "@
                + shown_output(stdout@, stderr@),
        ),
{
    if success || allow_error {
        return Ok(copy_of(stdout));
    }
    let mut m = "reg.exe ".to_owned();
    let a = join(args, " ");
    m.append(a.as_str());
    m.append(" exited ");
    m.append(status);
    m.append(": ");
    if stderr.is_empty() {
        m.append(stdout);
    } else {
        m.append(stderr);
    }
    Err(PlatformError::CommandFailed(m))
}

/// The GUIDs that the service names hold, in order; names without one are passed over.
pub open spec fn service_guids(names: Seq<Seq<char>>) -> Seq<Seq<char>>
    decreases names.len(),
{
    if names.len() == 0 {
        Seq::<Seq<char>>::empty()
    } else {
        let before = service_guids(names.drop_last());
        match service_parts(names.last()) {
            Some(p) => before.push(p.1),
            None => before,
        }
    }
}

/// The adapters that have to be pointed at the sinkhole, by GUID.
pub fn point_targets(services: &Vec<String>) -> (r: Vec<String>)
    ensures
        texts(r@) == service_guids(texts(services@)),
{
    let ghost all = texts(services@);
    let mut r: Vec<String> = Vec::new();
    let mut i: usize = 0;
    proof {
        assert(texts(r@) =~= service_guids(all.take(0)));
    }
    while i < services.len()
        invariant
            0 <= i <= services.len(),
            all == texts(services@),
            texts(r@) == service_guids(all.take(i as int)),
        decreases services.len() - i,
    {
        proof {
            assert(all.take(i + 1).drop_last() =~= all.take(i as int));
            assert(all.take(i + 1).last() == services@[i as int]@);
        }
        match decode_service_name(services[i].as_str()) {
            Some((_name, guid)) => {
                let ghost before = r@;
                r.push(copy_of(guid));
                proof {
                    assert(texts(r@) =~= texts(before).push(guid@));
                }
            },
            None => {},
        }
        i += 1;
    }
    proof {
        assert(all.take(i as int) =~= all);
    }
    r
}

/// The snapshot entries of the adapters with these settings.
pub open spec fn adapter_services(adapters: Seq<AdapterModel>, settings: Seq<SettingModel>) -> Seq<
    ServiceModel,
> {
    Seq::new(
        adapters.len(),
        |i: int|
            ServiceModel {
                service: service_name(adapters[i].name, adapters[i].interface_guid),
                setting: settings[i],
            },
    )
}

/// What a list of settings says.
pub open spec fn setting_models(v: Seq<DnsSetting>) -> Seq<SettingModel> {
    v.map_values(|s: DnsSetting| s@)
}

/// The snapshot entries of the adapters, each with the setting read for it.
pub fn snapshot_services(adapters: &Vec<NetAdapter>, settings: &Vec<DnsSetting>) -> (r: Vec<ServiceDns>)
    requires
        adapters@.len() == settings@.len(),
    ensures
        service_models(r@) == adapter_services(adapter_models(adapters@), setting_models(settings@)),
{
    let mut r: Vec<ServiceDns> = Vec::new();
    let mut i: usize = 0;
    while i < adapters.len()
        invariant
            0 <= i <= adapters.len(),
            adapters@.len() == settings@.len(),
            r@.len() == i,
            forall|j: int|
                0 <= j < i ==> #[trigger] r@[j]@ == adapter_services(
                    adapter_models(adapters@),
                    setting_models(settings@),
                )[j],
        decreases adapters.len() - i,
    {
        let service = encode_service_name(
            adapters[i].name.as_str(),
            adapters[i].interface_guid.as_str(),
        );
        r.push(ServiceDns { service, setting: settings[i].copy() });
        i += 1;
    }
    proof {
        assert(service_models(r@) =~= adapter_services(
            adapter_models(adapters@),
            setting_models(settings@),
        ));
    }
    r
}

/// The GUID under which the setting of a service is read.
pub fn setting_target(service: &str) -> (r: Result<String, PlatformError>)
    ensures
        (match r {
            Ok(guid) => service_parts(service@) is Some && (service_parts(service@)->0).1 == guid@,
            Err(e) => service_parts(service@) is None && e@ == PlatformErrorModel::ParseError(
                "cannot decode GUID from service name: "@ + debug_quoted(service@),
            ),
        }),
{
    match decode_service_name(service) {
        Some((_name, guid)) => Ok(copy_of(guid)),
        None => {
            let q = quoted(service);
            Err(
                PlatformError::ParseError(
                    "cannot decode GUID from service name: ".to_owned().concat(q.as_str()),
                ),
            )
        },
    }
}

// ── What the steps mean ─────────────────────────────────────────────────────

/// An adapter is up just where its status is the word `up`, whatever its case.
pub proof fn law_adapters_that_are_up(a: &NetAdapter, r: bool)
    requires
        call_ensures(NetAdapter::is_up, (a,), r),
    ensures
        r <==> lower(a.status@) == "up"@,
{
    lemma_up();
}

proof fn lemma_up()
    ensures
        lower("Up"@) == "up"@,
{
    reveal_strlit("Up");
    reveal_strlit("up");
    assert(lower("Up"@) =~= "up"@);
}

/// An adapter whose status is the word `up`, whatever its case.
pub open spec fn reads_up(a: AdapterModel) -> bool {
    lower(a.status) == "up"@
}

proof fn lemma_only_up(a: Seq<AdapterModel>)
    ensures
        only_up(a) == a.filter(|x: AdapterModel| reads_up(x)),
    decreases a.len(),
{
    lemma_up();
    reveal(Seq::filter);
    if a.len() > 0 {
        lemma_only_up(a.drop_last());
    } else {
        assert(a.filter(|x: AdapterModel| reads_up(x)) =~= Seq::<AdapterModel>::empty());
    }
}

/// Of the adapters that are listed exactly those that are up are kept, in order and as they are.
pub proof fn law_the_adapters_that_are_up_are_kept(
    adapters: Vec<NetAdapter>,
    r: Vec<NetAdapter>,
    json: &str,
    listed: Vec<NetAdapter>,
)
    requires
        call_ensures(keep_up, (adapters,), r),
        call_ensures(parse_net_adapter_json, (json,), listed),
    ensures
        adapter_models(r@) == adapter_models(adapters@).filter(|x: AdapterModel| reads_up(x)),
        adapter_models(listed@) == listed_adapters(json@).filter(|x: AdapterModel| reads_up(x)),
{
    lemma_only_up(adapter_models(adapters@));
    lemma_only_up(listed_adapters(json@));
}

proof fn lemma_field_text(fields: Seq<FieldModel>, key: Seq<char>, i: int)
    requires
        0 <= i < fields.len(),
        fields[i].0 == key,
        forall|k: int| 0 <= k < fields.len() && k != i ==> (#[trigger] fields[k]).0 != key,
    ensures
        times(fields, key) == 1,
        field_text(fields, key) == fields[i].1,
    decreases fields.len(),
{
    let f = fields.drop_last();
    if i == fields.len() - 1 {
        lemma_absent(f, key);
    } else {
        assert(fields[fields.len() - 1].0 != key);
        assert forall|k: int| 0 <= k < f.len() && k != i implies (#[trigger] f[k]).0 != key by {
            assert(fields[k].0 != key);
        }
        lemma_field_text(f, key, i);
    }
}

proof fn lemma_absent(fields: Seq<FieldModel>, key: Seq<char>)
    requires
        forall|k: int| 0 <= k < fields.len() ==> (#[trigger] fields[k]).0 != key,
    ensures
        times(fields, key) == 0,
    decreases fields.len(),
{
    if fields.len() > 0 {
        let f = fields.drop_last();
        assert(fields[fields.len() - 1].0 != key);
        assert forall|k: int| 0 <= k < f.len() implies (#[trigger] f[k]).0 != key by {
            assert(fields[k].0 != key);
        }
        lemma_absent(f, key);
    }
}

/// The key stands once among the entries, at `i`.
pub open spec fn only_at(fields: Seq<FieldModel>, key: Seq<char>, i: int) -> bool {
    &&& 0 <= i < fields.len()
    &&& fields[i].0 == key
    &&& forall|k: int| 0 <= k < fields.len() && k != i ==> (#[trigger] fields[k]).0 != key
}

/// What an object says of an adapter stands under the four keys, each value under its own, in
/// whatever order they come and whatever else stands in the object.
pub proof fn law_fields_are_taken_by_their_keys(
    fields: Seq<FieldModel>,
    name: int,
    guid: int,
    status: int,
    description: int,
)
    requires
        only_at(fields, "Name"@, name),
        only_at(fields, "InterfaceGuid"@, guid),
        only_at(fields, "Status"@, status),
        only_at(fields, "InterfaceDescription"@, description),
    ensures
        adapter_of(fields) is Some <==> fields[name].1 is Some && fields[guid].1 is Some
            && fields[status].1 is Some && fields[description].1 is Some,
        adapter_of(fields) matches Some(a) ==> a == (AdapterModel {
            name: fields[name].1->0,
            interface_guid: fields[guid].1->0,
            status: fields[status].1->0,
            interface_description: fields[description].1->0,
        }),
{
    lemma_field_text(fields, "Name"@, name);
    lemma_field_text(fields, "InterfaceGuid"@, guid);
    lemma_field_text(fields, "Status"@, status);
    lemma_field_text(fields, "InterfaceDescription"@, description);
}

/// A single object that describes an adapter, with nothing behind it, lists that adapter, and so
/// does a list of it alone; with something behind it nothing is listed.
pub proof fn law_a_single_object_is_a_list_of_one(
    one: &str,
    list: &str,
    body: Seq<char>,
    more: Seq<char>,
    a: AdapterModel,
    end: Seq<char>,
    behind: Seq<char>,
    r: Vec<NetAdapter>,
    s: Vec<NetAdapter>,
)
    requires
        past(trimmed(one@), '[') is None,
        past(trimmed(one@), '{') == Some(body),
        object_in(body) == Some((a, end)),
        call_ensures(parse_net_adapter_json, (one,), r),
        past(trimmed(list@), '[') == Some(more),
        past(more, ']') is None,
        adapter_in(more) == Some((a, end)),
        past(end, ',') is None,
        past(end, ']') == Some(behind),
        call_ensures(parse_net_adapter_json, (list,), s),
    ensures
        unspaced(end).len() == 0 && reads_up(a) ==> adapter_models(r@) == seq![a],
        unspaced(end).len() > 0 ==> r@.len() == 0,
        unspaced(behind).len() == 0 && reads_up(a) ==> adapter_models(s@) == seq![a],
        unspaced(behind).len() > 0 ==> s@.len() == 0,
{
    lemma_up();
    let l = seq![a];
    assert(l.drop_last() =~= Seq::<AdapterModel>::empty());
    assert(only_up(l.drop_last()) =~= Seq::<AdapterModel>::empty());
    assert(l.last() == a);
    assert(only_up(l.drop_last()).push(a) =~= seq![a]);
    assert(adapter_models(r@).len() == r@.len());
    assert(adapter_models(s@).len() == s@.len());
}

/// An adapter that is written as four strings has them in the order of name, GUID, status and
/// description.
pub proof fn law_the_order_of_four_strings(
    t: Seq<char>,
    name: Seq<char>,
    a: Seq<char>,
    guid: Seq<char>,
    b: Seq<char>,
    status: Seq<char>,
    c: Seq<char>,
    description: Seq<char>,
    end: Seq<char>,
)
    requires
        text_before(t, ',') == Some((name, a)),
        text_before(a, ',') == Some((guid, b)),
        text_before(b, ',') == Some((status, c)),
        text_before(c, ']') == Some((description, end)),
    ensures
        array_in(t) == Some(
            (
                AdapterModel {
                    name,
                    interface_guid: guid,
                    status,
                    interface_description: description,
                },
                end,
            ),
        ),
{
}

/// A service name gives back the friendly name and the GUID that it was made of; a text without a
/// vertical bar is none.
pub proof fn law_service_names_are_read_back(
    name: &str,
    guid: &str,
    made: String,
    service: &str,
    r: Option<(&str, &str)>,
    target: Result<String, PlatformError>,
    other: &str,
    none: Option<(&str, &str)>,
)
    requires
        !guid@.contains('|'),
        call_ensures(encode_service_name, (name, guid), made),
        service@ == made@,
        call_ensures(decode_service_name, (service,), r),
        call_ensures(setting_target, (service,), target),
        call_ensures(decode_service_name, (other,), none),
    ensures
        r matches Some(p) && p.0@ == name@ && p.1@ == guid@,
        target matches Ok(g) && g@ == guid@,
        none is None <==> !other@.contains('|'),
{
    law_service_name_round_trip(name@, guid@);
    let s = other@;
    if s.contains('|') {
        let i = choose|i: int| 0 <= i < s.len() && s[i] == '|';
        lemma_first_bar(s, i);
    } else {
        assert forall|j: int| 0 <= j < s.len() implies s[j] != '|' by {
            assert(s.contains(s[j]));
        }
        crate::text::lemma_first_index(s, '|', s.len() as int);
    }
}

proof fn lemma_first_bar(s: Seq<char>, i: int)
    requires
        0 <= i < s.len(),
        s[i] == '|',
    ensures
        first_index(s, '|') <= i,
    decreases s.len(),
{
    if s[0] != '|' {
        assert(s.skip(1)[i - 1] == '|');
        lemma_first_bar(s.skip(1), i - 1);
    }
}

/// What a registry query says is decided by its first line that starts with the value's name: the
/// lines before it do not matter, nor do those behind it.
pub proof fn law_the_first_name_server_line_decides(
    output: &str,
    line: Seq<char>,
    rest: &str,
    alone: &str,
    r: DnsSetting,
    of_rest: DnsSetting,
    of_line: DnsSetting,
)
    requires
        text_lines(output@) == seq![line] + text_lines(rest@),
        text_lines(alone@) == seq![line],
        call_ensures(parse_reg_query_nameserver, (output,), r),
        call_ensures(parse_reg_query_nameserver, (rest,), of_rest),
        call_ensures(parse_reg_query_nameserver, (alone,), of_line),
    ensures
        has_prefix(trimmed(line), "NameServer"@) ==> r@ == of_line@,
        !has_prefix(trimmed(line), "NameServer"@) ==> r@ == of_rest@,
        !has_prefix(trimmed(line), "NameServer"@) ==> of_line is Dhcp,
{
    let ls = text_lines(output@);
    assert(ls[0] == line);
    assert(ls.skip(1) =~= text_lines(rest@));
    assert(seq![line].skip(1) =~= Seq::<Seq<char>>::empty());
    reveal_with_fuel(registry_setting, 2);
}

proof fn lemma_no_comma(servers: Seq<IpAddr>, i: int)
    requires
        0 <= i < servers.len(),
    ensures
        !ip_texts(servers)[i].contains(','),
{
    let s = ip_texts(servers)[i];
    lemma_address_text(servers[i]);
    if s.contains(',') {
        let k = choose|k: int| 0 <= k < s.len() && s[k] == ',';
        assert(is_address_char(s[k]));
    }
}

/// The servers behind the name and the type of a registry value are read in order, whether commas
/// or white space stand between them; without any the adapter is on DHCP.
pub proof fn law_registry_servers_are_read_in_order(
    output: &str,
    line: Seq<char>,
    name: Seq<char>,
    kind: Seq<char>,
    servers: Seq<IpAddr>,
    r: DnsSetting,
)
    requires
        text_lines(output@) == seq![line],
        has_prefix(trimmed(line), "NameServer"@),
        call_ensures(parse_reg_query_nameserver, (output,), r),
    ensures
        words(trimmed(line)) == seq![name, kind] ==> r is Dhcp,
        servers.len() > 0 && words(trimmed(line)) == seq![name, kind, joined(ip_texts(servers), ","@)]
            ==> (r matches DnsSetting::Static { servers: s } && s@ == servers),
        servers.len() > 0 && words(trimmed(line)) == seq![name, kind] + ip_texts(servers) ==> (r
            matches DnsSetting::Static { servers: s } && s@ == servers),
{
    let w = words(trimmed(line));
    let t = ip_texts(servers);
    reveal_strlit(",");
    assert(","@ =~= seq![',']);
    assert(text_lines(output@)[0] == line);
    match r {
        DnsSetting::Static { servers: s } => assert(r@ == SettingModel::Static(s@)),
        DnsSetting::Dhcp => {},
    }
    if servers.len() > 0 {
        assert forall|i: int| 0 <= i < t.len() implies !(#[trigger] t[i]).contains(',') by {
            lemma_no_comma(servers, i);
        }
        lemma_pieces_of_joined(t, ',');
        lemma_addresses_of_texts(servers);
        lemma_joined_is_not_empty(servers);
        if w == seq![name, kind, joined(t, ","@)] {
            let v = w.skip(2);
            assert(v =~= seq![joined(t, ","@)]);
            assert(joined(v, ","@) == joined(t, ","@));
        }
        if w == seq![name, kind] + t {
            assert(w.skip(2) =~= t);
        }
    }
}

proof fn lemma_joined_is_not_empty(servers: Seq<IpAddr>)
    requires
        servers.len() > 0,
    ensures
        joined(ip_texts(servers), ","@).len() > 0,
{
    lemma_address_text(servers[0]);
    lemma_address_text(servers.last());
    assert(ip_texts(servers).last() == ip_text(servers.last()));
}

/// The registry keys of an interface stand below the paths of the two protocols.
pub proof fn law_where_interfaces_are_registered(guid: &str, four: String, six: String)
    requires
        call_ensures(interface_key, ("Tcpip", guid), four),
        call_ensures(interface_key, ("Tcpip6", guid), six),
    ensures
        four@ == TCPIP_INTERFACES@ + "\\"@ + guid@,
        six@ == TCPIP6_INTERFACES@ + "\\"@ + guid@,
{
    reveal_strlit("HKLM\\SYSTEM\\CurrentControlSet\\Services\\");
    reveal_strlit("Tcpip");
    reveal_strlit("Tcpip6");
    reveal_strlit("\\Parameters\\Interfaces\\");
    reveal_strlit("HKLM\\SYSTEM\\CurrentControlSet\\Services\\Tcpip\\Parameters\\Interfaces");
    reveal_strlit("HKLM\\SYSTEM\\CurrentControlSet\\Services\\Tcpip6\\Parameters\\Interfaces");
    reveal_strlit("\\");
    assert(four@ =~= TCPIP_INTERFACES@ + "\\"@ + guid@);
    assert(six@ =~= TCPIP6_INTERFACES@ + "\\"@ + guid@);
}

/// DNS may be written unless the session shows that it may not; the group of the administrators
/// is known by its identifier.
pub proof fn law_who_may_write(session: Option<bool>, r: Result<(), PlatformError>, output: &str, admin: bool)
    requires
        call_ensures(check_admin, (session,), r),
        call_ensures(parse_whoami_groups_for_admin, (output,), admin),
    ensures
        session is None ==> r is Ok,
        session == Some(true) ==> r is Ok,
        session == Some(false) ==> (r matches Err(e) && e is NeedsRoot),
        admin <==> has_infix(output@, "S-1-5-32-544"@),
{
}

/// The command that sets an adapter's DNS names the adapter by its index; for DHCP it resets the
/// servers, and otherwise it lists them all, in order, each in quotes and in a form that reads as
/// its address.
pub proof fn law_the_command_asks_for_the_setting(idx: u32, setting: &DnsSetting, r: String) -> (list: Seq<char>)
    requires
        call_ensures(build_set_dns_command, (idx, setting), r),
        *setting matches DnsSetting::Static { servers } ==> servers@.len() > 0,
    ensures
        *setting is Dhcp ==> r@ == "Set-DnsClientServerAddress -InterfaceIndex "@ + decimal(idx as nat)
            + " -ResetServerAddresses"@,
        *setting is Static ==> r@ == "Set-DnsClientServerAddress -InterfaceIndex "@ + decimal(
            idx as nat,
        ) + " -ServerAddresses "@ + list,
        *setting matches DnsSetting::Static { servers } ==> pieces(list, ',').len() == servers@.len()
            && forall|i: int|
            0 <= i < servers@.len() ==> {
                let p = #[trigger] pieces(list, ',')[i];
                &&& p.len() >= 2
                &&& p[0] == '\'' && p.last() == '\''
                &&& ip_value(p.subrange(1, p.len() - 1)) == Some(servers@[i])
            },
{
    match *setting {
        DnsSetting::Dhcp => Seq::<char>::empty(),
        DnsSetting::Static { servers } => {
            assert(setting@ == SettingModel::Static(servers@));
            reveal_strlit(",");
            reveal_strlit("'");
            assert(","@ =~= seq![',']);
            let q = quoted_ips(servers@);
            let list = joined(q, ","@);
            assert forall|i: int| 0 <= i < q.len() implies !(#[trigger] q[i]).contains(',') by {
                let t = ip_text(servers@[i]);
                assert(q[i] == "'"@ + t + "'"@);
                lemma_no_comma(servers@, i);
                assert(ip_texts(servers@)[i] == t);
                if q[i].contains(',') {
                    let k = choose|k: int| 0 <= k < q[i].len() && q[i][k] == ',';
                    assert(t[k - 1] == ',');
                }
            }
            lemma_pieces_of_joined(q, ',');
            assert forall|i: int| 0 <= i < servers@.len() implies {
                let p = #[trigger] pieces(list, ',')[i];
                &&& p.len() >= 2
                &&& p[0] == '\'' && p.last() == '\''
                &&& ip_value(p.subrange(1, p.len() - 1)) == Some(servers@[i])
            } by {
                let t = ip_text(servers@[i]);
                let p = pieces(list, ',')[i];
                assert(p == "'"@ + t + "'"@);
                assert(p.subrange(1, p.len() - 1) =~= t);
                law_address_round_trip(servers@[i]);
            }
            assert(r@ =~= "Set-DnsClientServerAddress -InterfaceIndex "@ + decimal(idx as nat)
                + " -ServerAddresses "@ + list);
            list
        },
    }
}

/// The index of an adapter is the number that the query printed, and anything else is an error.
pub proof fn law_the_index_is_what_was_printed(guid: &str, output: &str, r: Result<u32, PlatformError>, query: String)
    requires
        call_ensures(parse_ifindex, (guid, output), r),
        call_ensures(build_ifindex_query, (guid,), query),
    ensures
        r matches Ok(n) ==> unsigned_value(trimmed(output@), u32::MAX as nat) == Some(n as nat),
        r is Err <==> unsigned_value(trimmed(output@), u32::MAX as nat) is None,
        has_infix(query@, guid@),
{
    let head = "(Get-NetAdapter -IncludeHidden | Where-Object { $_.InterfaceGuid -eq '"@;
    let at = head.len() as int;
    assert(query@.subrange(at, at + guid@.len()) =~= guid@);
    assert(crate::text::infix_at(query@, guid@, at));
}

/// A command that succeeded gives what it printed; one that failed gives an error with its status
/// and what it wrote, unless the failure is taken as an answer.
pub proof fn law_outcomes_of_commands(
    success: bool,
    status: &str,
    stdout: &str,
    stderr: &str,
    p: Result<String, PlatformError>,
    args: &Vec<String>,
    allow_error: bool,
    r: Result<String, PlatformError>,
)
    requires
        call_ensures(powershell_outcome, (success, status, stdout, stderr), p),
        call_ensures(reg_outcome, (args, allow_error, success, status, stdout, stderr), r),
    ensures
        p is Ok <==> success,
        p matches Ok(s) ==> s@ == stdout@,
        p matches Err(e) ==> (e matches PlatformError::CommandFailed(m) && m@ == "powershell exited "@
            + status@ + ": "@ + if stderr@.len() > 0 {
            stderr@
        } else {
            stdout@
        }),
        r is Ok <==> success || allow_error,
        r matches Ok(s) ==> s@ == stdout@,
        r matches Err(e) ==> (e matches PlatformError::CommandFailed(m) && m@ == "reg.exe "@ + joined(
            texts(args@),
            " "@,
        ) + " exited "@ + status@ + ": "@ + if stderr@.len() > 0 {
            stderr@
        } else {
            stdout@
        }),
{
}

/// Each service that holds a GUID is a target by it, in order; others are passed over.
pub proof fn law_which_adapters_are_targets(
    services: &Vec<String>,
    more: &Vec<String>,
    last: String,
    name: &str,
    r: Vec<String>,
    all: Vec<String>,
    parts: Option<(&str, &str)>,
)
    requires
        call_ensures(point_targets, (services,), r),
        call_ensures(point_targets, (more,), all),
        more@ == services@.push(last),
        name@ == last@,
        call_ensures(decode_service_name, (name,), parts),
    ensures
        services@.len() == 0 ==> r@.len() == 0,
        parts is None ==> texts(all@) == texts(r@),
        parts matches Some(p) ==> texts(all@) == texts(r@).push(p.1@),
{
    assert(texts(r@).len() == r@.len());
    assert(texts(more@).drop_last() =~= texts(services@));
    assert(texts(more@).last() == last@);
}

/// A snapshot has an entry for each adapter, in order, with the setting that was read for it and
/// a name by which the adapter is found again.
pub proof fn law_a_snapshot_finds_its_adapters(
    adapters: &Vec<NetAdapter>,
    settings: &Vec<DnsSetting>,
    r: Vec<ServiceDns>,
    i: int,
    service: &str,
    target: Result<String, PlatformError>,
)
    requires
        adapters@.len() == settings@.len(),
        call_ensures(snapshot_services, (adapters, settings), r),
        0 <= i < adapters@.len(),
        !adapters@[i].interface_guid@.contains('|'),
        service@ == r@[i].service@,
        call_ensures(setting_target, (service,), target),
    ensures
        r@.len() == adapters@.len(),
        r@[i].setting@ == settings@[i]@,
        target matches Ok(g) && g@ == adapters@[i].interface_guid@,
{
    let m = service_models(r@);
    let a = adapter_models(adapters@);
    assert(m.len() == r@.len());
    assert(m[i] == r@[i]@);
    assert(a[i] == adapters@[i]@);
    assert(setting_models(settings@)[i] == settings@[i]@);
    law_service_name_round_trip(a[i].name, a[i].interface_guid);
}

/// Blanks, tabs and line ends before a token do not matter, and nothing else may stand there.
pub proof fn law_white_space_before_a_token(blanks: Seq<char>, c: char, rest: Seq<char>)
    requires
        forall|i: int|
            0 <= i < blanks.len() ==> {
                let b = #[trigger] blanks[i];
                b == ' ' || b == '\t' || b == '\n' || b == '\r'
            },
        c != ' ' && c != '\t' && c != '\n' && c != '\r',
    ensures
        past(blanks.push(c) + rest, c) == Some(rest),
        forall|d: char| d != c ==> #[trigger] past(blanks.push(c) + rest, d) is None,
        unspaced(blanks).len() == 0,
        unspaced(blanks.push(c) + rest).len() > 0,
{
    let t = blanks.push(c) + rest;
    let n = blanks.len() as int;
    assert forall|j: int| 0 <= j < n implies is_json_space(#[trigger] t[j]) by {
        assert(t[j] == blanks[j]);
    }
    lemma_unspaced(t, n);
    assert(t.skip(n)[0] == c);
    assert(t.skip(n).skip(1) =~= rest);
    lemma_unspaced(blanks, n);
    assert(blanks.skip(n).len() == 0);
}

/// An object with the four keys, each with a string behind a colon and commas between them, is
/// the adapter that has these strings.
pub proof fn law_an_adapter_is_read_from_its_entries(
    t: Seq<Seq<char>>,
    keys: Seq<Seq<char>>,
    behind_key: Seq<Seq<char>>,
    at_value: Seq<Seq<char>>,
    values: Seq<Seq<char>>,
    behind_value: Seq<Seq<char>>,
    end: Seq<char>,
)
    requires
        t.len() == 4,
        keys == seq!["Name"@, "InterfaceGuid"@, "Status"@, "InterfaceDescription"@],
        behind_key.len() == 4 && at_value.len() == 4 && values.len() == 4 && behind_value.len() == 4,
        forall|i: int| 0 <= i < 4 ==> json_text(#[trigger] t[i]) == Some((keys[i], behind_key[i])),
        forall|i: int| 0 <= i < 4 ==> past(#[trigger] behind_key[i], ':') == Some(at_value[i]),
        forall|i: int|
            0 <= i < 4 ==> json_text(#[trigger] at_value[i]) == Some((values[i], behind_value[i])),
        past(behind_value[0], ',') == Some(t[1]),
        past(behind_value[1], ',') == Some(t[2]),
        past(behind_value[2], ',') == Some(t[3]),
        past(behind_value[3], ',') is None,
        past(behind_value[3], '}') == Some(end),
        t[3].len() < t[2].len() < t[1].len() < t[0].len(),
    ensures
        object_in(t[0]) == Some(
            (
                AdapterModel {
                    name: values[0],
                    interface_guid: values[1],
                    status: values[2],
                    interface_description: values[3],
                },
                end,
            ),
        ),
{
    lemma_adapter_keys_differ();
    let e = Seq::new(4, |i: int| (keys[i], Some(values[i])));
    assert forall|i: int| 0 <= i < 4 implies entry_in(#[trigger] t[i]) == Some((e[i], behind_value[i])) by {
        assert(json_text(t[i]) == Some((keys[i], behind_key[i])));
        assert(past(behind_key[i], ':') == Some(at_value[i]));
        assert(json_text(at_value[i]) == Some((values[i], behind_value[i])));
        assert(is_adapter_key(keys[i]));
    }
    assert(entry_in(t[3]) == Some((e[3], behind_value[3])));
    assert(entries_in(t[3]) == Some((seq![e[3]], end)));
    assert(entry_in(t[2]) == Some((e[2], behind_value[2])));
    assert(entries_in(t[2]) == Some((seq![e[2]] + seq![e[3]], end)));
    assert(entry_in(t[1]) == Some((e[1], behind_value[1])));
    assert(entries_in(t[1]) == Some((seq![e[1]] + (seq![e[2]] + seq![e[3]]), end)));
    assert(entry_in(t[0]) == Some((e[0], behind_value[0])));
    assert(entries_in(t[0]) == Some((seq![e[0]] + (seq![e[1]] + (seq![e[2]] + seq![e[3]])), end)));
    assert(seq![e[0]] + (seq![e[1]] + (seq![e[2]] + seq![e[3]])) =~= e);
    law_fields_are_taken_by_their_keys(e, 0, 1, 2, 3);
}

proof fn lemma_adapter_keys_differ()
    ensures
        "Name"@ != "InterfaceGuid"@,
        "Name"@ != "Status"@,
        "Name"@ != "InterfaceDescription"@,
        "InterfaceGuid"@ != "Status"@,
        "InterfaceGuid"@ != "InterfaceDescription"@,
        "Status"@ != "InterfaceDescription"@,
{
    reveal_strlit("Name");
    reveal_strlit("InterfaceGuid");
    reveal_strlit("Status");
    reveal_strlit("InterfaceDescription");
    assert("Name"@.len() == 4 && "InterfaceGuid"@.len() == 13);
    assert("Status"@.len() == 6 && "InterfaceDescription"@.len() == 20);
}

/// An adapter and a comma in front of a list put the adapter in front of what the list describes.
pub proof fn law_lists_are_read_adapter_by_adapter(
    t: Seq<char>,
    a: AdapterModel,
    rest: Seq<char>,
    more: Seq<char>,
)
    requires
        adapter_in(t) == Some((a, rest)),
        past(t, ']') is None,
        past(rest, ',') == Some(more),
        past(more, ']') is None,
        more.len() < t.len(),
    ensures
        list_in(t) is Some <==> list_in(more) is Some,
        list_in(more) matches Some(l) ==> list_in(t) == Some((seq![a] + l.0, l.1)),
{
}

}
