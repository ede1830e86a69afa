//! The plugin verbs that peers send, their text grammar, and the state that
//! the verbs which need no compiler, loader or file system change.
use vstd::prelude::*;
use vstd::string::*;
use crate::strmap::StrMap;
use crate::sync::{SyncIdentityKind, SyncInventoryIdentityMessage, IdentityView};
use crate::sync;
use crate::text;

verus! {

/// A verb sent to the plugin server.
#[derive(Debug)]
pub enum P2PVerb {
    /// name, path
    LoadSo(String, String),
    /// plugin, event type
    RegisterEvent(String, u32),
    /// plugin, data
    AttachData(String, Vec<u8>),
    AttachInventoryIdentity(SyncInventoryIdentityMessage),
    /// plugin, file paths
    RunWithFiles(String, Vec<String>),
    /// plugin
    CaptureResult(String),
    /// name, source code
    CompileSource(String, String),
    /// name, file path
    CompileFile(String, String),
    /// plugin, function, parameter
    InvokeFunction(String, String, u32),
}

/// The characters of a verb's arguments.
pub enum VerbView {
    LoadSo(Seq<char>, Seq<char>),
    RegisterEvent(Seq<char>, u32),
    AttachData(Seq<char>, Seq<u8>),
    AttachInventoryIdentity(IdentityView),
    RunWithFiles(Seq<char>, Seq<Seq<char>>),
    CaptureResult(Seq<char>),
    CompileSource(Seq<char>, Seq<char>),
    CompileFile(Seq<char>, Seq<char>),
    InvokeFunction(Seq<char>, Seq<char>, u32),
}

/// The characters of each string.
pub open spec fn strings_view(v: Seq<String>) -> Seq<Seq<char>> {
    v.map_values(|s: String| s@)
}

impl View for P2PVerb {
    type V = VerbView;

    open spec fn view(&self) -> VerbView {
        match self {
            P2PVerb::LoadSo(a, b) => VerbView::LoadSo(a@, b@),
            P2PVerb::RegisterEvent(a, n) => VerbView::RegisterEvent(a@, *n),
            P2PVerb::AttachData(a, d) => VerbView::AttachData(a@, d@),
            P2PVerb::AttachInventoryIdentity(m) => VerbView::AttachInventoryIdentity(m@),
            P2PVerb::RunWithFiles(a, fs) => VerbView::RunWithFiles(a@, strings_view(fs@)),
            P2PVerb::CaptureResult(a) => VerbView::CaptureResult(a@),
            P2PVerb::CompileSource(a, b) => VerbView::CompileSource(a@, b@),
            P2PVerb::CompileFile(a, b) => VerbView::CompileFile(a@, b@),
            P2PVerb::InvokeFunction(a, b, n) => VerbView::InvokeFunction(a@, b@, *n),
        }
    }
}

/// Reply to an empty message.
pub open spec fn empty_message_error() -> Seq<char> {
    "Empty message"@
}

/// Reply to an unknown keyword.
pub open spec fn unknown_verb_error() -> Seq<char> {
    "Unknown verb"@
}

/// Prefix of the reply when an attached identity has no normal form.
pub open spec fn normalize_error_prefix() -> Seq<char> {
    "normalize sync inventory identity: "@
}

/// The message's words carry every argument that its keyword reads.
/// A message that lacks one makes the text grammar index past its end.
pub open spec fn text_verb_complete(ws: Seq<Seq<char>>) -> bool {
    ws.len() == 0 || {
        let k = ws[0];
        if k == "LOAD_SO"@ || k == "REGISTER"@ || k == "ATTACH"@ || k == "COMPILE_FILE"@ || k
            == "INVOKE"@ {
            ws.len() >= 3
        } else if k == "ATTACH_INVENTORY"@ {
            ws.len() >= 3 && (sync::kind_for_name(ws[2]) is Some ==> ws.len() >= 5)
        } else if k == "RUN_FILES"@ || k == "CAPTURE"@ || k == "COMPILE_SRC"@ {
            ws.len() >= 2
        } else {
            true
        }
    }
}

/// The verb that the words of a text message spell.
pub open spec fn text_verb(ws: Seq<Seq<char>>) -> Result<VerbView, Seq<char>> {
    if ws.len() == 0 {
        Err(empty_message_error())
    } else {
        let k = ws[0];
        if k == "LOAD_SO"@ {
            Ok(VerbView::LoadSo(ws[1], ws[2]))
        } else if k == "REGISTER"@ {
            match text::parse_u32(ws[2]) {
                Ok(n) => Ok(VerbView::RegisterEvent(ws[1], n)),
                Err(e) => Err(text::int_error_message(e)),
            }
        } else if k == "ATTACH"@ {
            Ok(VerbView::AttachData(ws[1], vstd::utf8::encode_utf8(ws[2])))
        } else if k == "ATTACH_INVENTORY"@ {
            match sync::kind_for_name(ws[2]) {
                None => Err(sync::unknown_kind_error()),
                Some(kind) => Ok(
                    VerbView::AttachInventoryIdentity(
                        IdentityView {
                            verb: sync::attach_verb(),
                            plugin: ws[1],
                            kind,
                            identity: ws[3],
                            digest: ws[4],
                            backing_ref: if ws.len() > 5 {
                                Some(ws[5])
                            } else {
                                None
                            },
                        },
                    ),
                ),
            }
        } else if k == "RUN_FILES"@ {
            Ok(VerbView::RunWithFiles(ws[1], ws.skip(2)))
        } else if k == "CAPTURE"@ {
            Ok(VerbView::CaptureResult(ws[1]))
        } else if k == "COMPILE_SRC"@ {
            Ok(VerbView::CompileSource(ws[1], text::join(ws.skip(2), " "@)))
        } else if k == "COMPILE_FILE"@ {
            Ok(VerbView::CompileFile(ws[1], ws[2]))
        } else if k == "INVOKE"@ {
            Ok(
                VerbView::InvokeFunction(
                    ws[1],
                    ws[2],
                    if ws.len() > 3 {
                        match text::parse_u32(ws[3]) {
                            Ok(n) => n,
                            Err(_) => 0,
                        }
                    } else {
                        0
                    },
                ),
            )
        } else {
            Err(unknown_verb_error())
        }
    }
}

/// The verb a message carries. A JSON identity message (already decoded by the
/// caller into `json`) whose verb is `attach_inventory_identity` is attached in
/// normal form; any other message is read by the text grammar.
pub open spec fn message_verb(msg: Seq<char>, json: Option<IdentityView>) -> Result<
    VerbView,
    Seq<char>,
> {
    match json {
        Some(v) if v.verb == sync::attach_verb() => match sync::normal_form(v) {
            Ok(n) => Ok(VerbView::AttachInventoryIdentity(n)),
            Err(e) => Err(normalize_error_prefix() + e),
        },
        _ => text_verb(text::words(msg)),
    }
}

/// `message_verb` asks nothing that the message lacks.
pub open spec fn message_complete(msg: Seq<char>, json: Option<IdentityView>) -> bool {
    match json {
        Some(v) if v.verb == sync::attach_verb() => true,
        _ => text_verb_complete(text::words(msg)),
    }
}

/// Decides `text_verb_complete` for a message, so that a caller can refuse
/// one that lacks arguments before asking for its verb.
pub fn text_message_complete(msg: &str) -> (r: bool)
    ensures
        r == text_verb_complete(text::words(msg@)),
{
    let ws = text::split_words(msg);
    let ghost wv = strings_view(ws@);
    assert(wv == text::words(msg@));
    if ws.len() == 0 {
        return true;
    }
    let k = ws[0].as_str();
    if text::str_eq(k, "LOAD_SO") || text::str_eq(k, "REGISTER") || text::str_eq(k, "ATTACH")
        || text::str_eq(k, "COMPILE_FILE") || text::str_eq(k, "INVOKE") {
        ws.len() >= 3
    } else if text::str_eq(k, "ATTACH_INVENTORY") {
        if ws.len() < 3 {
            false
        } else {
            match sync::parse_sync_identity_kind(ws[2].as_str()) {
                Ok(_) => ws.len() >= 5,
                Err(_) => true,
            }
        }
    } else if text::str_eq(k, "RUN_FILES") || text::str_eq(k, "CAPTURE") || text::str_eq(
        k,
        "COMPILE_SRC",
    ) {
        ws.len() >= 2
    } else {
        true
    }
}

/// Joins words with single spaces.
fn join_words(ws: &Vec<String>, from: usize) -> (r: String)
    requires
        from <= ws@.len(),
    ensures
        r@ == text::join(strings_view(ws@).skip(from as int), " "@),
{
    let ghost all = strings_view(ws@).skip(from as int);
    let mut r = String::new();
    let mut i: usize = from;
    while i < ws.len()
        invariant
            from <= i <= ws@.len(),
            all == strings_view(ws@).skip(from as int),
            r@ == text::join(all.take(i - from), " "@),
        decreases ws@.len() - i,
    {
        if i > from {
            r.append(" ");
        }
        r.append(ws[i].as_str());
        proof {
            let t = all.take(i + 1 - from);
            assert(t.drop_last() =~= all.take(i - from));
            assert(t.last() == ws@[i as int]@);
            if i == from {
                assert(r@ =~= t[0]);
            }
        }
        i = i + 1;
    }
    assert(all.take(ws@.len() - from) =~= all);
    r
}

/// Copies of the words from position `from` on.
fn words_from(ws: &Vec<String>, from: usize) -> (r: Vec<String>)
    requires
        from <= ws@.len(),
    ensures
        strings_view(r@) == strings_view(ws@).skip(from as int),
{
    let mut r: Vec<String> = Vec::new();
    let mut i: usize = from;
    while i < ws.len()
        invariant
            from <= i <= ws@.len(),
            strings_view(r@) == strings_view(ws@).subrange(from as int, i as int),
        decreases ws@.len() - i,
    {
        let ghost old_r = r@;
        let c = ws[i].clone();
        r.push(c);
        assert(r@ == old_r.push(c));
        assert(strings_view(r@) =~= strings_view(old_r).push(c@));
        i = i + 1;
        assert(strings_view(r@) =~= strings_view(ws@).subrange(from as int, i as int));
    }
    assert(strings_view(ws@).subrange(from as int, ws@.len() as int) =~= strings_view(ws@).skip(
        from as int,
    ));
    r
}

/// Reads a verb from a network message. `json` is the message decoded as an
/// identity message, where it is one.
pub fn parse_verb(msg: &str, json: Option<SyncInventoryIdentityMessage>) -> (r: Result<
    P2PVerb,
    String,
>)
    requires
        message_complete(
            msg@,
            match json {
                Some(m) => Some(m@),
                None => None,
            },
        ),
    ensures
        match r {
            Ok(v) => message_verb(
                msg@,
                match json {
                    Some(m) => Some(m@),
                    None => None,
                },
            ) == Ok::<VerbView, Seq<char>>(v@),
            Err(e) => message_verb(
                msg@,
                match json {
                    Some(m) => Some(m@),
                    None => None,
                },
            ) == Err::<VerbView, Seq<char>>(e@),
        },
{
    match json {
        Some(m) => {
            if text::str_eq(m.verb.as_str(), "attach_inventory_identity") {
                return match m.normalized() {
                    Ok(n) => Ok(P2PVerb::AttachInventoryIdentity(n)),
                    Err(e) => Err(String::from_str("normalize sync inventory identity: ").concat(
                        e.as_str(),
                    )),
                };
            }
        },
        None => {},
    }
    parse_text_verb(msg)
}

/// Reads a verb from the words of a text message.
pub fn parse_text_verb(msg: &str) -> (r: Result<P2PVerb, String>)
    requires
        text_verb_complete(text::words(msg@)),
    ensures
        match r {
            Ok(v) => text_verb(text::words(msg@)) == Ok::<VerbView, Seq<char>>(v@),
            Err(e) => text_verb(text::words(msg@)) == Err::<VerbView, Seq<char>>(e@),
        },
{
    let ws = text::split_words(msg);
    let ghost wv = strings_view(ws@);
    assert(wv == text::words(msg@));
    if ws.len() == 0 {
        return Err(String::from_str("Empty message"));
    }
    let k = ws[0].as_str();
    assert(wv[0] == k@);
    if text::str_eq(k, "LOAD_SO") {
        Ok(P2PVerb::LoadSo(ws[1].clone(), ws[2].clone()))
    } else if text::str_eq(k, "REGISTER") {
        match text::parse_u32_str(ws[2].as_str()) {
            Ok(n) => Ok(P2PVerb::RegisterEvent(ws[1].clone(), n)),
            Err(e) => Err(text::int_error_text(e)),
        }
    } else if text::str_eq(k, "ATTACH") {
        Ok(P2PVerb::AttachData(ws[1].clone(), sync::utf8_bytes(ws[2].as_str())))
    } else if text::str_eq(k, "ATTACH_INVENTORY") {
        match sync::parse_sync_identity_kind(ws[2].as_str()) {
            Err(e) => Err(e),
            Ok(kind) => {
                assert(wv[2] == ws@[2]@);
                proof {
                    reveal_strlit("ATTACH_INVENTORY");
                    reveal_strlit("COMPILE_FILE");
                    reveal_strlit("INVOKE");
                }
                assert(wv.len() >= 5);
                let backing = if ws.len() > 5 {
                    Some(ws[5].clone())
                } else {
                    None
                };
                Ok(
                    P2PVerb::AttachInventoryIdentity(
                        SyncInventoryIdentityMessage::new(
                            ws[1].clone(),
                            kind,
                            ws[3].clone(),
                            ws[4].clone(),
                            backing,
                        ),
                    ),
                )
            },
        }
    } else if text::str_eq(k, "RUN_FILES") {
        Ok(P2PVerb::RunWithFiles(ws[1].clone(), words_from(&ws, 2)))
    } else if text::str_eq(k, "CAPTURE") {
        Ok(P2PVerb::CaptureResult(ws[1].clone()))
    } else if text::str_eq(k, "COMPILE_SRC") {
        Ok(P2PVerb::CompileSource(ws[1].clone(), join_words(&ws, 2)))
    } else if text::str_eq(k, "COMPILE_FILE") {
        Ok(P2PVerb::CompileFile(ws[1].clone(), ws[2].clone()))
    } else if text::str_eq(k, "INVOKE") {
        let param = if ws.len() > 3 {
            match text::parse_u32_str(ws[3].as_str()) {
                Ok(n) => n,
                Err(_) => 0,
            }
        } else {
            0
        };
        Ok(P2PVerb::InvokeFunction(ws[1].clone(), ws[2].clone(), param))
    } else {
        Err(String::from_str("Unknown verb"))
    }
}

/// What `format!("{:?}", s)` writes for a string.
pub uninterp spec fn debug_quoted(s: Seq<char>) -> Seq<char>;

#[verifier::external_body]
/// `format!("{:?}", s)` on a string slice: the string quoted, with std's
/// escapes. The escaping rules (which characters std deems printable) are not
/// restated; the result is named `debug_quoted` of the string's characters.
pub(crate) fn debug_str(s: &str) -> (r: String)
    ensures
        r@ == debug_quoted(s@),
{
    format!("{:?}", s)
}

/// The state of the plugin server that the verbs change.
pub struct P2PPluginServer {
    /// plugin -> event types
    pub event_registry: StrMap<Vec<u32>>,
    /// plugin -> data
    pub stored_data: StrMap<Vec<u8>>,
    /// plugin -> sync identities
    pub inventory_identities: StrMap<Vec<SyncInventoryIdentityMessage>>,
    /// plugin -> results
    pub results: StrMap<Vec<u8>>,
}

/// The server's maps, by plugin name.
pub struct ServerView {
    pub events: Map<Seq<char>, Seq<u32>>,
    pub stored: Map<Seq<char>, Seq<u8>>,
    pub identities: Map<Seq<char>, Seq<IdentityView>>,
    pub results: Map<Seq<char>, Seq<u8>>,
}

/// The characters of each message.
pub open spec fn messages_view(v: Seq<SyncInventoryIdentityMessage>) -> Seq<IdentityView> {
    v.map_values(|m: SyncInventoryIdentityMessage| m@)
}

impl View for P2PPluginServer {
    type V = ServerView;

    open spec fn view(&self) -> ServerView {
        ServerView {
            events: self.event_registry@.map_values(|v: Vec<u32>| v@),
            stored: self.stored_data@.map_values(|v: Vec<u8>| v@),
            identities: self.inventory_identities@.map_values(
                |v: Vec<SyncInventoryIdentityMessage>| messages_view(v@),
            ),
            results: self.results@.map_values(|v: Vec<u8>| v@),
        }
    }
}

/// The list at `k`, or an empty one.
pub open spec fn list_at<T>(m: Map<Seq<char>, Seq<T>>, k: Seq<char>) -> Seq<T> {
    if m.contains_key(k) {
        m[k]
    } else {
        Seq::empty()
    }
}

/// `artifact` or `receipt`.
pub open spec fn kind_word(kind: SyncIdentityKind) -> Seq<char> {
    match kind {
        SyncIdentityKind::Artifact => "artifact"@,
        SyncIdentityKind::Receipt => "receipt"@,
    }
}

/// The reply to a successful attach.
pub open spec fn attached_reply(n: IdentityView) -> Seq<char> {
    "Attached "@ + kind_word(n.kind) + " inventory identity "@ + n.identity + " to "@ + n.plugin
}

/// What a capture stores for a plugin without identities.
pub open spec fn plain_result(plugin: Seq<char>) -> Seq<char> {
    "Result from "@ + plugin
}

/// What `capture_result` stores and replies, given the state before it.
pub open spec fn capture_outcome(s: ServerView, plugin: Seq<char>) -> (Seq<u8>, Seq<char>) {
    if s.identities.contains_key(plugin) {
        (
            vstd::utf8::encode_utf8(sync::identities_json(s.identities[plugin])),
            "Captured "@ + text::decimal(s.identities[plugin].len()) + " inventory identities for "@
                + plugin,
        )
    } else {
        (
            vstd::utf8::encode_utf8(plain_result(plugin)),
            "Captured result: "@ + debug_quoted(plain_result(plugin)),
        )
    }
}

/// What a verb needs from outside the server's maps.
#[derive(Debug)]
pub enum VerbOutcome {
    /// The verb was carried out on the maps; this is its reply.
    Done(Result<String, String>),
    /// The verb needs the plugin loader, the compiler or the file system.
    NeedsRuntime(P2PVerb),
}

impl P2PPluginServer {
    /// The four maps are well formed.
    pub open spec fn wf(&self) -> bool {
        &&& self.event_registry.wf()
        &&& self.stored_data.wf()
        &&& self.inventory_identities.wf()
        &&& self.results.wf()
    }

    /// A server with no plugin state.
    pub fn new() -> (s: Self)
        ensures
            s.wf(),
            s@.events == Map::<Seq<char>, Seq<u32>>::empty(),
            s@.stored == Map::<Seq<char>, Seq<u8>>::empty(),
            s@.identities == Map::<Seq<char>, Seq<IdentityView>>::empty(),
            s@.results == Map::<Seq<char>, Seq<u8>>::empty(),
    {
        let s = P2PPluginServer {
            event_registry: StrMap::new(),
            stored_data: StrMap::new(),
            inventory_identities: StrMap::new(),
            results: StrMap::new(),
        };
        assert(s@.events =~= Map::<Seq<char>, Seq<u32>>::empty());
        assert(s@.stored =~= Map::<Seq<char>, Seq<u8>>::empty());
        assert(s@.identities =~= Map::<Seq<char>, Seq<IdentityView>>::empty());
        assert(s@.results =~= Map::<Seq<char>, Seq<u8>>::empty());
        s
    }

    /// Appends an event type to the plugin's registrations.
    pub fn register_event(&mut self, plugin: String, event_type: u32) -> (r: String)
        requires
            old(self).wf(),
        ensures
            final(self).wf(),
            final(self)@.events == old(self)@.events.insert(
                plugin@,
                list_at(old(self)@.events, plugin@).push(event_type),
            ),
            final(self)@.stored == old(self)@.stored,
            final(self)@.identities == old(self)@.identities,
            final(self)@.results == old(self)@.results,
            r@ == "Registered "@ + plugin@ + " for event "@ + text::decimal(event_type as nat),
    {
        let ghost old_map = self.event_registry@;
        let ghost pv = plugin@;
        let mut list = match self.event_registry.remove(plugin.as_str()) {
            Some(v) => v,
            None => Vec::new(),
        };
        let ghost old_list = list@;
        list.push(event_type);
        let mut reply = String::from_str("Registered ");
        reply.append(plugin.as_str());
        reply.append(" for event ");
        reply.append(text::decimal_string(event_type as u64).as_str());
        self.event_registry.insert(plugin, list);
        proof {
            assert(old_list == list_at(old_map.map_values(|v: Vec<u32>| v@), pv));
            assert(self@.events =~= old_map.map_values(|v: Vec<u32>| v@).insert(
                pv,
                old_list.push(event_type),
            ));
        }
        reply
    }

    /// Replaces the plugin's stored data.
    pub fn attach_data(&mut self, plugin: String, data: Vec<u8>) -> (r: String)
        requires
            old(self).wf(),
        ensures
            final(self).wf(),
            final(self)@.stored == old(self)@.stored.insert(plugin@, data@),
            final(self)@.events == old(self)@.events,
            final(self)@.identities == old(self)@.identities,
            final(self)@.results == old(self)@.results,
            r@ == "Attached data to "@ + plugin@,
    {
        let ghost old_map = self.stored_data@;
        let ghost dv = data@;
        let ghost pv = plugin@;
        let reply = String::from_str("Attached data to ").concat(plugin.as_str());
        self.stored_data.insert(plugin, data);
        assert(self@.stored =~= old_map.map_values(|v: Vec<u8>| v@).insert(pv, dv));
        reply
    }

    /// Normalizes the message, stores its JSON as the plugin's data and
    /// appends it to the plugin's identities.
    pub fn attach_inventory_identity(&mut self, message: SyncInventoryIdentityMessage) -> (r:
        Result<String, String>)
        requires
            old(self).wf(),
        ensures
            final(self).wf(),
            final(self)@.events == old(self)@.events,
            final(self)@.results == old(self)@.results,
            match sync::normal_form(message@) {
                Err(e) => r == Err::<String, String>(r->Err_0) && r->Err_0@ == normalize_error_prefix()
                    + e && final(self)@.stored == old(self)@.stored && final(self)@.identities
                    == old(self)@.identities,
                Ok(n) => r == Ok::<String, String>(r->Ok_0) && r->Ok_0@ == attached_reply(n)
                    && final(self)@.stored == old(self)@.stored.insert(
                    n.plugin,
                    vstd::utf8::encode_utf8(sync::identity_json(n)),
                ) && final(self)@.identities == old(self)@.identities.insert(
                    n.plugin,
                    list_at(old(self)@.identities, n.plugin).push(n),
                ),
            },
    {
        let message = match message.normalized() {
            Ok(m) => m,
            Err(e) => {
                return Err(String::from_str("normalize sync inventory identity: ").concat(
                    e.as_str(),
                ));
            },
        };
        let ghost n = message@;
        let ghost old_stored = self.stored_data@;
        let ghost old_ids = self.inventory_identities@;
        let encoded = sync::utf8_bytes(sync::identity_to_json(&message).as_str());
        self.stored_data.insert(message.plugin.clone(), encoded);
        let mut reply = String::from_str("Attached ");
        match message.kind {
            SyncIdentityKind::Artifact => reply.append("artifact"),
            SyncIdentityKind::Receipt => reply.append("receipt"),
        }
        reply.append(" inventory identity ");
        reply.append(message.identity.as_str());
        reply.append(" to ");
        reply.append(message.plugin.as_str());
        let plugin = message.plugin.clone();
        let mut list = match self.inventory_identities.remove(plugin.as_str()) {
            Some(v) => v,
            None => Vec::new(),
        };
        let ghost old_list = list@;
        list.push(message);
        self.inventory_identities.insert(plugin, list);
        proof {
            assert(self@.stored =~= old_stored.map_values(|v: Vec<u8>| v@).insert(
                n.plugin,
                vstd::utf8::encode_utf8(sync::identity_json(n)),
            ));
            let f = |v: Vec<SyncInventoryIdentityMessage>| messages_view(v@);
            assert(messages_view(old_list) == list_at(old_ids.map_values(f), n.plugin));
            assert(messages_view(old_list.push(list@.last())) =~= messages_view(old_list).push(n));
            assert(self@.identities =~= old_ids.map_values(f).insert(
                n.plugin,
                messages_view(old_list).push(n),
            ));
        }
        Ok(reply)
    }

    /// Records the plugin's result: the JSON array of its identities when it
    /// has any, else a placeholder text.
    pub fn capture_result(&mut self, plugin: &str) -> (r: String)
        requires
            old(self).wf(),
        ensures
            final(self).wf(),
            final(self)@.events == old(self)@.events,
            final(self)@.stored == old(self)@.stored,
            final(self)@.identities == old(self)@.identities,
            final(self)@.results == old(self)@.results.insert(
                plugin@,
                capture_outcome(old(self)@, plugin@).0,
            ),
            r@ == capture_outcome(old(self)@, plugin@).1,
    {
        let ghost old_results = self.results@;
        let ghost old_view = self@;
        match self.inventory_identities.get(plugin) {
            Some(messages) => {
                let result = sync::utf8_bytes(sync::identities_to_json(messages).as_str());
                let mut reply = String::from_str("Captured ");
                reply.append(text::decimal_string(messages.len() as u64).as_str());
                reply.append(" inventory identities for ");
                reply.append(plugin);
                let ghost rv = result@;
                self.results.insert(String::from_str(plugin), result);
                assert(self@.results =~= old_results.map_values(|v: Vec<u8>| v@).insert(
                    plugin@,
                    rv,
                ));
                reply
            },
            None => {
                let text_result = String::from_str("Result from ").concat(plugin);
                let result = sync::utf8_bytes(text_result.as_str());
                let reply = String::from_str("Captured result: ").concat(
                    debug_str(text_result.as_str()).as_str(),
                );
                let ghost rv = result@;
                self.results.insert(String::from_str(plugin), result);
                assert(self@.results =~= old_results.map_values(|v: Vec<u8>| v@).insert(
                    plugin@,
                    rv,
                ));
                reply
            },
        }
    }

    /// Carries out a verb that only changes the maps; hands back the others,
    /// which need the plugin loader, the compiler or the file system.
    pub fn execute_verb(&mut self, verb: P2PVerb) -> (r: VerbOutcome)
        requires
            old(self).wf(),
        ensures
            final(self).wf(),
            match verb {
                P2PVerb::RegisterEvent(_, _) | P2PVerb::AttachData(_, _)
                | P2PVerb::AttachInventoryIdentity(_) | P2PVerb::CaptureResult(_) => r is Done,
                _ => r == VerbOutcome::NeedsRuntime(verb) && final(self)@ == old(self)@,
            },
            match (verb, r) {
                (P2PVerb::RegisterEvent(p, e), VerbOutcome::Done(Ok(reply))) => final(self)@.events
                    == old(self)@.events.insert(p@, list_at(old(self)@.events, p@).push(e))
                    && final(self)@.stored == old(self)@.stored && final(self)@.identities == old(self)@.identities
                    && final(self)@.results == old(self)@.results
                    && reply@ == "Registered "@ + p@ + " for event "@ + text::decimal(e as nat),
                (P2PVerb::AttachData(p, d), VerbOutcome::Done(Ok(reply))) => final(self)@.stored
                    == old(self)@.stored.insert(p@, d@) && final(self)@.events == old(self)@.events
                    && final(self)@.identities == old(self)@.identities && final(self)@.results
                    == old(self)@.results && reply@ == "Attached data to "@ + p@,
                (P2PVerb::AttachInventoryIdentity(m), VerbOutcome::Done(res)) => match sync::normal_form(m@) {
                    Err(e) => res is Err && res->Err_0@ == normalize_error_prefix() + e
                        && final(self)@ == old(self)@,
                    Ok(n) => res is Ok && res->Ok_0@ == attached_reply(n) && final(self)@.events
                        == old(self)@.events && final(self)@.results == old(self)@.results
                        && final(self)@.identities
                        == old(self)@.identities.insert(
                        n.plugin,
                        list_at(old(self)@.identities, n.plugin).push(n),
                    ) && final(self)@.stored == old(self)@.stored.insert(
                        n.plugin,
                        vstd::utf8::encode_utf8(sync::identity_json(n)),
                    ),
                },
                (P2PVerb::CaptureResult(p), VerbOutcome::Done(Ok(reply))) => final(self)@.results
                    == old(self)@.results.insert(p@, capture_outcome(old(self)@, p@).0)
                    && final(self)@.events == old(self)@.events && final(self)@.stored == old(self)@.stored
                    && final(self)@.identities == old(self)@.identities && reply@
                    == capture_outcome(old(self)@, p@).1,
                (P2PVerb::RegisterEvent(_, _), _) | (P2PVerb::AttachData(_, _), _)
                | (P2PVerb::CaptureResult(_), _) => false,
                _ => true,
            },
    {
        match verb {
            P2PVerb::RegisterEvent(plugin, event_type) => VerbOutcome::Done(
                Ok(self.register_event(plugin, event_type)),
            ),
            P2PVerb::AttachData(plugin, data) => VerbOutcome::Done(Ok(self.attach_data(plugin, data))),
            P2PVerb::AttachInventoryIdentity(message) => VerbOutcome::Done(
                self.attach_inventory_identity(message),
            ),
            P2PVerb::CaptureResult(plugin) => VerbOutcome::Done(
                Ok(self.capture_result(plugin.as_str())),
            ),
            other => VerbOutcome::NeedsRuntime(other),
        }
    }
}

/// The keywords of the text grammar, told apart by their length.
proof fn lemma_keywords_distinct()
    ensures
        "LOAD_SO"@.len() == 7,
        "REGISTER"@.len() == 8,
        "ATTACH"@.len() == 6,
        "ATTACH_INVENTORY"@.len() == 16,
        "RUN_FILES"@.len() == 9,
        "CAPTURE"@.len() == 7,
        "COMPILE_SRC"@.len() == 11,
        "COMPILE_FILE"@.len() == 12,
        "INVOKE"@.len() == 6,
        "LOAD_SO"@[0] == 'L',
        "CAPTURE"@[0] == 'C',
        "ATTACH"@[0] == 'A',
        "INVOKE"@[0] == 'I',
{
    reveal_strlit("LOAD_SO");
    reveal_strlit("REGISTER");
    reveal_strlit("ATTACH");
    reveal_strlit("ATTACH_INVENTORY");
    reveal_strlit("RUN_FILES");
    reveal_strlit("CAPTURE");
    reveal_strlit("COMPILE_SRC");
    reveal_strlit("COMPILE_FILE");
    reveal_strlit("INVOKE");
}

/// An `ATTACH_INVENTORY` message with a kind name that producers use
/// attaches an identity of that kind to the plugin of its second word, with
/// the identity and digest of its fourth and fifth words; the sixth word,
/// where there is one, is the backing reference, and a message of five
/// words has none.
pub proof fn law_attach_inventory_words(ws: Seq<Seq<char>>)
    requires
        ws.len() >= 5,
        ws[0] == "ATTACH_INVENTORY"@,
        sync::kind_for_name(ws[2]) is Some,
    ensures
        text_verb(ws) matches Ok(VerbView::AttachInventoryIdentity(m)) && {
            &&& m.plugin == ws[1]
            &&& m.kind == sync::kind_for_name(ws[2])->Some_0
            &&& m.identity == ws[3]
            &&& m.digest == ws[4]
            &&& ws.len() > 5 ==> m.backing_ref == Some(ws[5])
            &&& ws.len() == 5 ==> m.backing_ref is None
        },
{
    lemma_keywords_distinct();
}

/// What each keyword of the text grammar makes of the words after it:
/// `LOAD_SO name path`, `ATTACH plugin data` (the data's UTF-8 bytes),
/// `RUN_FILES plugin files...`, `CAPTURE plugin`, `COMPILE_FILE name path`
/// and `INVOKE plugin function [param]` (a missing or unreadable parameter
/// is 0); an empty message and an unknown keyword are refused.
pub proof fn law_text_verb_words(ws: Seq<Seq<char>>)
    ensures
        ws.len() == 0 ==> text_verb(ws) == Err::<VerbView, Seq<char>>(empty_message_error()),
        ws.len() >= 3 && ws[0] == "LOAD_SO"@ ==> text_verb(ws) == Ok::<VerbView, Seq<char>>(
            VerbView::LoadSo(ws[1], ws[2]),
        ),
        ws.len() >= 3 && ws[0] == "ATTACH"@ ==> text_verb(ws) == Ok::<VerbView, Seq<char>>(
            VerbView::AttachData(ws[1], vstd::utf8::encode_utf8(ws[2])),
        ),
        ws.len() >= 2 && ws[0] == "RUN_FILES"@ ==> text_verb(ws) == Ok::<VerbView, Seq<char>>(
            VerbView::RunWithFiles(ws[1], ws.subrange(2, ws.len() as int)),
        ),
        ws.len() >= 2 && ws[0] == "CAPTURE"@ ==> text_verb(ws) == Ok::<VerbView, Seq<char>>(
            VerbView::CaptureResult(ws[1]),
        ),
        ws.len() >= 3 && ws[0] == "COMPILE_FILE"@ ==> text_verb(ws) == Ok::<VerbView, Seq<char>>(
            VerbView::CompileFile(ws[1], ws[2]),
        ),
        ws.len() == 3 && ws[0] == "INVOKE"@ ==> text_verb(ws) == Ok::<VerbView, Seq<char>>(
            VerbView::InvokeFunction(ws[1], ws[2], 0),
        ),
        ws.len() > 3 && ws[0] == "INVOKE"@ && text::parse_u32(ws[3]) is Ok ==> text_verb(ws) == Ok::<
            VerbView,
            Seq<char>,
        >(VerbView::InvokeFunction(ws[1], ws[2], text::parse_u32(ws[3])->Ok_0)),
        ws.len() > 0 && ws[0] != "LOAD_SO"@ && ws[0] != "REGISTER"@ && ws[0] != "ATTACH"@ && ws[0]
            != "ATTACH_INVENTORY"@ && ws[0] != "RUN_FILES"@ && ws[0] != "CAPTURE"@ && ws[0] != "COMPILE_SRC"@
            && ws[0] != "COMPILE_FILE"@ && ws[0] != "INVOKE"@ ==> text_verb(ws) == Err::<VerbView, Seq<char>>(
            unknown_verb_error(),
        ),
{
    lemma_keywords_distinct();
    if ws.len() >= 2 && ws[0] == "RUN_FILES"@ {
        assert(ws.skip(2) =~= ws.subrange(2, ws.len() as int));
    }
}

} // verus!
