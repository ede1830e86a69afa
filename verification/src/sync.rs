//! Inventory identity messages exchanged by peers during artifact sync:
//! their normal form and their JSON encoding.
use vstd::prelude::*;
use vstd::string::*;
use crate::text;

verus! {

/// What an inventory identity names.
#[derive(Debug, Clone, Copy, PartialEq, Eq, Structural)]
pub enum SyncIdentityKind {
    Artifact,
    Receipt,
}

/// Prefix of an identity of this kind.
pub open spec fn canonical_prefix_of(kind: SyncIdentityKind) -> Seq<char> {
    match kind {
        SyncIdentityKind::Artifact => "artifact:"@,
        SyncIdentityKind::Receipt => "receipt:"@,
    }
}

/// Prefix of the identity that backs one of this kind.
pub open spec fn counterpart_prefix_of(kind: SyncIdentityKind) -> Seq<char> {
    match kind {
        SyncIdentityKind::Artifact => "receipt:"@,
        SyncIdentityKind::Receipt => "artifact:"@,
    }
}

impl SyncIdentityKind {
    /// `artifact:` or `receipt:`.
    pub fn canonical_prefix(self) -> (r: &'static str)
        ensures
            r@ == canonical_prefix_of(self),
    {
        match self {
            SyncIdentityKind::Artifact => "artifact:",
            SyncIdentityKind::Receipt => "receipt:",
        }
    }

    /// The other kind's prefix.
    pub fn counterpart_prefix(self) -> (r: &'static str)
        ensures
            r@ == counterpart_prefix_of(self),
    {
        match self {
            SyncIdentityKind::Artifact => "receipt:",
            SyncIdentityKind::Receipt => "artifact:",
        }
    }
}

/// An identity attached to a plugin's inventory.
#[derive(Debug)]
pub struct SyncInventoryIdentityMessage {
    pub verb: String,
    pub plugin: String,
    pub kind: SyncIdentityKind,
    pub identity: String,
    pub digest: String,
    pub backing_ref: Option<String>,
}

/// The characters of a message's fields.
pub struct IdentityView {
    pub verb: Seq<char>,
    pub plugin: Seq<char>,
    pub kind: SyncIdentityKind,
    pub identity: Seq<char>,
    pub digest: Seq<char>,
    pub backing_ref: Option<Seq<char>>,
}

/// The characters of an optional string.
pub open spec fn opt_view(o: Option<String>) -> Option<Seq<char>> {
    match o {
        Some(s) => Some(s@),
        None => None,
    }
}

impl View for SyncInventoryIdentityMessage {
    type V = IdentityView;

    open spec fn view(&self) -> IdentityView {
        IdentityView {
            verb: self.verb@,
            plugin: self.plugin@,
            kind: self.kind,
            identity: self.identity@,
            digest: self.digest@,
            backing_ref: opt_view(self.backing_ref),
        }
    }
}

/// The verb that attaches an inventory identity.
pub open spec fn attach_verb() -> Seq<char> {
    "attach_inventory_identity"@
}

/// The plugin that owns identities whose plugin is left blank.
pub open spec fn sync_runtime_plugin() -> Seq<char> {
    "sync-runtime"@
}

/// `t` already names an artifact or a receipt.
pub open spec fn is_sync_ref(t: Seq<char>) -> bool {
    text::has_prefix(t, "artifact:"@) || text::has_prefix(t, "receipt:"@)
}

/// Normal form of an identity; `None` when it is blank.
pub open spec fn identity_normal_form(kind: SyncIdentityKind, raw: Seq<char>) -> Option<Seq<char>> {
    let t = text::trim(raw);
    if t.len() == 0 {
        None
    } else if is_sync_ref(t) {
        Some(t)
    } else {
        Some(canonical_prefix_of(kind) + t)
    }
}

/// Normal form of a digest; `None` when it is blank.
pub open spec fn digest_normal_form(raw: Seq<char>) -> Option<Seq<char>> {
    let t = text::trim(raw);
    if t.len() == 0 {
        None
    } else if text::has_prefix(t, "sha256:"@) {
        Some(t)
    } else {
        Some("sha256:"@ + t)
    }
}

/// Normal form of a backing reference; blank ones are dropped.
pub open spec fn backing_ref_normal_form(kind: SyncIdentityKind, raw: Option<Seq<char>>) -> Option<
    Seq<char>,
> {
    match raw {
        None => None,
        Some(r) => {
            let t = text::trim(r);
            if t.len() == 0 {
                None
            } else if is_sync_ref(t) {
                Some(t)
            } else {
                Some(counterpart_prefix_of(kind) + t)
            }
        },
    }
}

/// A trimmed field, or `default` when the field is blank.
pub open spec fn field_or_default(raw: Seq<char>, default: Seq<char>) -> Seq<char> {
    if text::trim(raw).len() == 0 {
        default
    } else {
        text::trim(raw)
    }
}

/// Error text for a blank identity.
pub open spec fn empty_identity_error() -> Seq<char> {
    "identity cannot be empty"@
}

/// Error text for a blank digest.
pub open spec fn empty_digest_error() -> Seq<char> {
    "digest cannot be empty"@
}

/// The normal form of a message, or the reason it has none.
pub open spec fn normal_form(v: IdentityView) -> Result<IdentityView, Seq<char>> {
    match identity_normal_form(v.kind, v.identity) {
        None => Err(empty_identity_error()),
        Some(identity) => match digest_normal_form(v.digest) {
            None => Err(empty_digest_error()),
            Some(digest) => Ok(
                IdentityView {
                    verb: field_or_default(v.verb, attach_verb()),
                    plugin: field_or_default(v.plugin, sync_runtime_plugin()),
                    kind: v.kind,
                    identity,
                    digest,
                    backing_ref: backing_ref_normal_form(v.kind, v.backing_ref),
                },
            ),
        },
    }
}

/// `attach_inventory_identity`.
pub fn default_inventory_identity_verb() -> (r: String)
    ensures
        r@ == attach_verb(),
{
    String::from_str("attach_inventory_identity")
}

/// `sync-runtime`.
pub fn default_inventory_identity_plugin() -> (r: String)
    ensures
        r@ == sync_runtime_plugin(),
{
    String::from_str("sync-runtime")
}

/// Decides `is_sync_ref`.
fn is_sync_ref_str(t: &str) -> (r: bool)
    ensures
        r == is_sync_ref(t@),
{
    text::starts_with(t, "artifact:") || text::starts_with(t, "receipt:")
}

/// Trims an identity and gives it its kind's prefix unless it carries one.
pub fn normalize_identity(kind: SyncIdentityKind, identity: &str) -> (r: Result<String, String>)
    ensures
        match r {
            Ok(s) => identity_normal_form(kind, identity@) == Some(s@),
            Err(e) => identity_normal_form(kind, identity@) is None && e@ == empty_identity_error(),
        },
{
    let t = text::trim_str(identity);
    if t.as_str().unicode_len() == 0 {
        return Err(String::from_str("identity cannot be empty"));
    }
    let canonical = kind.canonical_prefix();
    if text::starts_with(t.as_str(), canonical) {
        return Ok(t);
    }
    if is_sync_ref_str(t.as_str()) {
        return Ok(t);
    }
    Ok(String::from_str(canonical).concat(t.as_str()))
}

/// Trims a digest and gives it the `sha256:` prefix unless it carries it.
pub fn normalize_digest(digest: &str) -> (r: Result<String, String>)
    ensures
        match r {
            Ok(s) => digest_normal_form(digest@) == Some(s@),
            Err(e) => digest_normal_form(digest@) is None && e@ == empty_digest_error(),
        },
{
    let t = text::trim_str(digest);
    if t.as_str().unicode_len() == 0 {
        return Err(String::from_str("digest cannot be empty"));
    }
    if text::starts_with(t.as_str(), "sha256:") {
        Ok(t)
    } else {
        Ok(String::from_str("sha256:").concat(t.as_str()))
    }
}

/// Trims a backing reference, drops it when blank, and gives it the other kind's prefix unless it carries one.
pub fn normalize_backing_ref(kind: SyncIdentityKind, backing_ref: Option<&str>) -> (r: Option<
    String,
>)
    ensures
        opt_view(r) == backing_ref_normal_form(
            kind,
            match backing_ref {
                Some(s) => Some(s@),
                None => None,
            },
        ),
{
    match backing_ref {
        None => None,
        Some(raw) => {
            let t = text::trim_str(raw);
            if t.as_str().unicode_len() == 0 {
                return None;
            }
            if is_sync_ref_str(t.as_str()) {
                return Some(t);
            }
            Some(String::from_str(kind.counterpart_prefix()).concat(t.as_str()))
        },
    }
}

/// A trimmed field, or the default when it is blank.
fn trimmed_or(raw: &str, default: String) -> (r: String)
    ensures
        r@ == field_or_default(raw@, default@),
{
    let t = text::trim_str(raw);
    if t.as_str().unicode_len() == 0 {
        default
    } else {
        t
    }
}

impl SyncInventoryIdentityMessage {
    /// A message that attaches `identity` to `plugin`'s inventory.
    pub fn new(
        plugin: String,
        kind: SyncIdentityKind,
        identity: String,
        digest: String,
        backing_ref: Option<String>,
    ) -> (m: Self)
        ensures
            m@ == (IdentityView {
                verb: attach_verb(),
                plugin: plugin@,
                kind,
                identity: identity@,
                digest: digest@,
                backing_ref: opt_view(backing_ref),
            }),
    {
        SyncInventoryIdentityMessage {
            verb: String::from_str("attach_inventory_identity"),
            plugin,
            kind,
            identity,
            digest,
            backing_ref,
        }
    }

    /// The message in normal form: fields trimmed, blank verb and plugin
    /// defaulted, identity, digest and backing reference prefixed.
    pub fn normalized(self) -> (r: Result<Self, String>)
        ensures
            match r {
                Ok(m) => normal_form(self@) == Ok::<IdentityView, Seq<char>>(m@),
                Err(e) => normal_form(self@) == Err::<IdentityView, Seq<char>>(e@),
            },
    {
        let ghost v = self@;
        let verb = trimmed_or(self.verb.as_str(), default_inventory_identity_verb());
        let plugin = trimmed_or(self.plugin.as_str(), default_inventory_identity_plugin());
        let identity = match normalize_identity(self.kind, self.identity.as_str()) {
            Ok(s) => s,
            Err(e) => {
                return Err(e);
            },
        };
        let digest = match normalize_digest(self.digest.as_str()) {
            Ok(s) => s,
            Err(e) => {
                return Err(e);
            },
        };
        let backing_ref = match &self.backing_ref {
            Some(b) => normalize_backing_ref(self.kind, Some(b.as_str())),
            None => normalize_backing_ref(self.kind, None),
        };
        let m = SyncInventoryIdentityMessage {
            verb,
            plugin,
            kind: self.kind,
            identity,
            digest,
            backing_ref,
        };
        assert(m@ == normal_form(v)->Ok_0);
        Ok(m)
    }

    /// A field-for-field copy.
    pub fn duplicate(&self) -> (r: Self)
        ensures
            r@ == self@,
    {
        SyncInventoryIdentityMessage {
            verb: self.verb.clone(),
            plugin: self.plugin.clone(),
            kind: self.kind,
            identity: self.identity.clone(),
            digest: self.digest.clone(),
            backing_ref: match &self.backing_ref {
                Some(b) => Some(b.clone()),
                None => None,
            },
        }
    }
}

/// A normal form is its own normal form.
pub proof fn lemma_normal_form_idempotent(v: IdentityView)
    requires
        normal_form(v) is Ok,
    ensures
        normal_form(normal_form(v)->Ok_0) == normal_form(v),
{
    let w = normal_form(v)->Ok_0;
    reveal_strlit("attach_inventory_identity");
    reveal_strlit("sync-runtime");
    reveal_strlit("artifact:");
    reveal_strlit("receipt:");
    reveal_strlit("sha256:");
    lemma_field_or_default_fixed(v.verb, attach_verb());
    lemma_field_or_default_fixed(v.plugin, sync_runtime_plugin());
    lemma_prefixed_fixed(v.kind, v.identity, canonical_prefix_of(v.kind));
    lemma_digest_fixed(v.digest);
    match v.backing_ref {
        None => {},
        Some(r) => {
            if text::trim(r).len() > 0 {
                lemma_prefixed_fixed(v.kind, r, counterpart_prefix_of(v.kind));
            }
        },
    }
    assert(normal_form(w) == Ok::<IdentityView, Seq<char>>(w));
}

proof fn lemma_field_or_default_fixed(raw: Seq<char>, default: Seq<char>)
    requires
        default.len() > 0,
        !text::is_ws(default[0]),
        !text::is_ws(default[default.len() - 1]),
    ensures
        field_or_default(field_or_default(raw, default), default) == field_or_default(raw, default),
{
    text::lemma_trim_ends(raw);
    text::lemma_trim_idempotent(raw);
    text::lemma_trim_fixed(default);
}

/// `p + t` where `p` opens and closes with a non-space and `t` is trimmed and non-empty.
proof fn lemma_concat_trimmed(p: Seq<char>, t: Seq<char>)
    requires
        p.len() > 0,
        !text::is_ws(p[0]),
        t.len() > 0,
        !text::is_ws(t[t.len() - 1]),
    ensures
        text::trim(p + t) == p + t,
        text::has_prefix(p + t, p),
{
    let s = p + t;
    assert(s[0] == p[0]);
    assert(s[s.len() - 1] == t[t.len() - 1]);
    text::lemma_trim_fixed(s);
    assert(s.take(p.len() as int) =~= p);
}

proof fn lemma_prefixed_fixed(kind: SyncIdentityKind, raw: Seq<char>, prefix: Seq<char>)
    requires
        prefix == canonical_prefix_of(kind) || prefix == counterpart_prefix_of(kind),
        prefix.len() > 0,
        !text::is_ws(prefix[0]),
        text::trim(raw).len() > 0,
    ensures
        ({
            let t = text::trim(raw);
            let n = if is_sync_ref(t) {
                t
            } else {
                prefix + t
            };
            &&& text::trim(n) == n
            &&& is_sync_ref(n)
            &&& n.len() > 0
        }),
{
    let t = text::trim(raw);
    text::lemma_trim_ends(raw);
    text::lemma_trim_idempotent(raw);
    if !is_sync_ref(t) {
        lemma_concat_trimmed(prefix, t);
    }
}

proof fn lemma_digest_fixed(raw: Seq<char>)
    requires
        "sha256:"@.len() > 0,
        !text::is_ws("sha256:"@[0]),
    ensures
        digest_normal_form(raw) is Some ==> digest_normal_form(digest_normal_form(raw)->Some_0)
            == digest_normal_form(raw),
{
    let t = text::trim(raw);
    text::lemma_trim_ends(raw);
    text::lemma_trim_idempotent(raw);
    if t.len() > 0 && !text::has_prefix(t, "sha256:"@) {
        lemma_concat_trimmed("sha256:"@, t);
    }
}

/// How serde_json writes one character inside a JSON string.
pub open spec fn json_escape(c: char) -> Seq<char> {
    let v = c as u32;
    if c == '"' {
        seq!['\\', '"']
    } else if c == '\\' {
        seq!['\\', '\\']
    } else if v == 8 {
        seq!['\\', 'b']
    } else if v == 9 {
        seq!['\\', 't']
    } else if v == 10 {
        seq!['\\', 'n']
    } else if v == 12 {
        seq!['\\', 'f']
    } else if v == 13 {
        seq!['\\', 'r']
    } else if v < 0x20 {
        seq!['\\', 'u', '0', '0', hex_digit(v / 16), hex_digit(v % 16)]
    } else {
        seq![c]
    }
}

/// Lowercase hexadecimal digit.
pub open spec fn hex_digit(d: u32) -> char {
    if d < 10 {
        ((d + 48) as u32) as char
    } else {
        ((d + 87) as u32) as char
    }
}

/// The characters of `s`, each escaped.
pub open spec fn json_escaped(s: Seq<char>) -> Seq<char>
    decreases s.len(),
{
    if s.len() == 0 {
        seq![]
    } else {
        json_escaped(s.drop_last()) + json_escape(s.last())
    }
}

/// `s` as a JSON string literal.
pub open spec fn json_quoted(s: Seq<char>) -> Seq<char> {
    seq!['"'] + json_escaped(s) + seq!['"']
}

#[verifier::external_body]
/// `serde_json::to_string` of a string slice. Its source writes a quote, then
/// each character, escaping `"` and `\`, writing backspace, tab, line feed,
/// form feed and carriage return as `\b \t \n \f \r`, other characters below
/// U+0020 as `\u00` and two lowercase hex digits, then a closing quote; it
/// cannot fail on a string.
pub(crate) fn json_quote(s: &str) -> (r: String)
    ensures
        r@ == json_quoted(s@),
{
    match serde_json::to_string(s) {
        Ok(q) => q,
        Err(_) => String::new(),
    }
}

/// The JSON string of a kind.
pub open spec fn kind_json(kind: SyncIdentityKind) -> Seq<char> {
    match kind {
        SyncIdentityKind::Artifact => "\"artifact\""@,
        SyncIdentityKind::Receipt => "\"receipt\""@,
    }
}

/// The compact JSON object of a message, fields in declaration order, a
/// missing backing reference left out.
pub open spec fn identity_json(v: IdentityView) -> Seq<char> {
    "{\"verb\":"@ + json_quoted(v.verb) + ",\"plugin\":"@ + json_quoted(v.plugin) + ",\"kind\":"@
        + kind_json(v.kind) + ",\"identity\":"@ + json_quoted(v.identity) + ",\"digest\":"@
        + json_quoted(v.digest) + match v.backing_ref {
        Some(b) => ",\"backing_ref\":"@ + json_quoted(b),
        None => Seq::<char>::empty(),
    } + "}"@
}

/// Writes the JSON object of a message.
pub fn identity_to_json(m: &SyncInventoryIdentityMessage) -> (r: String)
    ensures
        r@ == identity_json(m@),
{
    let mut r = String::from_str("{\"verb\":");
    r.append(json_quote(m.verb.as_str()).as_str());
    r.append(",\"plugin\":");
    r.append(json_quote(m.plugin.as_str()).as_str());
    r.append(",\"kind\":");
    match m.kind {
        SyncIdentityKind::Artifact => r.append("\"artifact\""),
        SyncIdentityKind::Receipt => r.append("\"receipt\""),
    }
    r.append(",\"identity\":");
    r.append(json_quote(m.identity.as_str()).as_str());
    r.append(",\"digest\":");
    r.append(json_quote(m.digest.as_str()).as_str());
    let ghost before = r@;
    match &m.backing_ref {
        Some(b) => {
            r.append(",\"backing_ref\":");
            r.append(json_quote(b.as_str()).as_str());
        },
        None => {
            assert(r@ =~= before + Seq::<char>::empty());
        },
    }
    r.append("}");
    r
}

/// The JSON array of messages' objects, comma separated.
pub open spec fn identities_json(vs: Seq<IdentityView>) -> Seq<char> {
    "["@ + text::join(vs.map_values(|v: IdentityView| identity_json(v)), ","@) + "]"@
}

/// Writes the JSON array of the messages.
pub fn identities_to_json(ms: &Vec<SyncInventoryIdentityMessage>) -> (r: String)
    ensures
        r@ == identities_json(ms@.map_values(|m: SyncInventoryIdentityMessage| m@)),
{
    let ghost objs = ms@.map_values(|m: SyncInventoryIdentityMessage| identity_json(m@));
    let mut body = String::new();
    let mut i: usize = 0;
    while i < ms.len()
        invariant
            i <= ms@.len(),
            objs == ms@.map_values(|m: SyncInventoryIdentityMessage| identity_json(m@)),
            body@ == text::join(objs.take(i as int), ","@),
        decreases ms@.len() - i,
    {
        let obj = identity_to_json(&ms[i]);
        if i > 0 {
            body.append(",");
        }
        body.append(obj.as_str());
        proof {
            let t = objs.take(i + 1);
            assert(t.drop_last() =~= objs.take(i as int));
            if i == 0 {
                assert(body@ =~= t[0]);
            }
        }
        i = i + 1;
    }
    assert(objs.take(ms@.len() as int) =~= objs);
    let mut r = String::from_str("[");
    r.append(body.as_str());
    r.append("]");
    assert(ms@.map_values(|m: SyncInventoryIdentityMessage| m@).map_values(
        |v: IdentityView| identity_json(v),
    ) =~= objs);
    r
}

/// The bytes of a string (`str::as_bytes`, copied).
pub fn utf8_bytes(s: &str) -> (r: Vec<u8>)
    ensures
        r@ == s.spec_bytes(),
{
    vstd::slice::slice_to_vec(s.as_bytes())
}

/// Error of `parse_sync_identity_kind`.
pub open spec fn unknown_kind_error() -> Seq<char> {
    "Unknown sync identity kind"@
}

/// The kind that a producer's kind name stands for, after trimming and ASCII lowercasing.
pub open spec fn kind_for_name(raw: Seq<char>) -> Option<SyncIdentityKind> {
    let n = text::ascii_lower(text::trim(raw));
    if n == "artifact"@ || n == "erdfa_manifest"@ || n == "manifest"@ || n == "shard"@ {
        Some(SyncIdentityKind::Artifact)
    } else if n == "receipt"@ || n == "observation"@ || n == "zkperf_observation"@ || n
        == "proof"@ {
        Some(SyncIdentityKind::Receipt)
    } else {
        None
    }
}

/// Reads a kind name, accepting the producers' aliases.
pub fn parse_sync_identity_kind(raw: &str) -> (r: Result<SyncIdentityKind, String>)
    ensures
        match r {
            Ok(k) => kind_for_name(raw@) == Some(k),
            Err(e) => kind_for_name(raw@) is None && e@ == unknown_kind_error(),
        },
{
    let t = text::trim_str(raw);
    let l = text::to_ascii_lowercase(t.as_str());
    let n = l.as_str();
    if text::str_eq(n, "artifact") || text::str_eq(n, "erdfa_manifest") || text::str_eq(
        n,
        "manifest",
    ) || text::str_eq(n, "shard") {
        Ok(SyncIdentityKind::Artifact)
    } else if text::str_eq(n, "receipt") || text::str_eq(n, "observation") || text::str_eq(
        n,
        "zkperf_observation",
    ) || text::str_eq(n, "proof") {
        Ok(SyncIdentityKind::Receipt)
    } else {
        Err(String::from_str("Unknown sync identity kind"))
    }
}

/// The kind names that producers send, told apart by their characters.
proof fn lemma_kind_names_distinct()
    ensures
        "artifact"@.len() == 8,
        "erdfa_manifest"@.len() == 14,
        "manifest"@.len() == 8,
        "shard"@.len() == 5,
        "receipt"@.len() == 7,
        "observation"@.len() == 11,
        "zkperf_observation"@.len() == 18,
        "proof"@.len() == 5,
        "artifact"@[0] == 'a',
        "manifest"@[0] == 'm',
        "shard"@[0] == 's',
        "proof"@[0] == 'p',
{
    reveal_strlit("artifact");
    reveal_strlit("erdfa_manifest");
    reveal_strlit("manifest");
    reveal_strlit("shard");
    reveal_strlit("receipt");
    reveal_strlit("observation");
    reveal_strlit("zkperf_observation");
    reveal_strlit("proof");
}

/// Every producer alias names its kind, whatever surrounds it in white
/// space and however its ASCII letters are cased: `artifact`,
/// `erdfa_manifest`, `manifest` and `shard` name artifacts; `receipt`,
/// `observation`, `zkperf_observation` and `proof` name receipts; and a name
/// that is a kind name is one of these eight.
pub proof fn law_kind_aliases(raw: Seq<char>)
    ensures
        ({
            let n = text::ascii_lower(text::trim(raw));
            &&& (n == "artifact"@ || n == "erdfa_manifest"@ || n == "manifest"@ || n == "shard"@)
                ==> kind_for_name(raw) == Some(SyncIdentityKind::Artifact)
            &&& (n == "receipt"@ || n == "observation"@ || n == "zkperf_observation"@ || n == "proof"@)
                ==> kind_for_name(raw) == Some(SyncIdentityKind::Receipt)
            &&& kind_for_name(raw) is Some ==> (n == "artifact"@ || n == "erdfa_manifest"@ || n == "manifest"@
                || n == "shard"@ || n == "receipt"@ || n == "observation"@ || n == "zkperf_observation"@
                || n == "proof"@)
        }),
{
    lemma_kind_names_distinct();
}

} // verus!
